use std::collections::HashMap;

use h757_dual::fdcan::{
    init_normal_500k_program, init_normal_500k_result, message_ram_address, tx_t0, tx_t1,
    FdcanLoopbackResult, NominalBitTiming, MESSAGE_RAM_BASE, TX_BUFFER0_OFFSET,
};
use h757_dual::regs::{Reg, RegOp, SetupError};
use h757_dual::sequencer::{Action, Sequencer};

/// Runs a procedure against a register file; `hw` may change status bits
/// before each read. Returns the sequencer and the number of reads.
fn run(
    prog: &Vec<RegOp>,
    mem: &mut HashMap<Reg, u32>,
    hw: &dyn Fn(&mut HashMap<Reg, u32>),
) -> (Sequencer, u64) {
    let mut seq = Sequencer::new();
    let mut reads: u64 = 0;
    loop {
        match seq.action(prog) {
            Action::Read(r) => {
                hw(mem);
                reads += 1;
                let v = *mem.get(&r).unwrap_or(&0);
                seq.on_read(prog, v);
            }
            Action::Write(r, v) => {
                mem.insert(r, v);
                seq.on_ack(prog);
            }
            Action::Fence(_) => seq.on_ack(prog),
            Action::Done | Action::Fail(_) => return (seq, reads),
        }
    }
}

fn no_hw(_: &mut HashMap<Reg, u32>) {}

#[test]
fn nbtp_of_500k_timing_matches_readme() {
    let t = NominalBitTiming::can_500k();
    assert_eq!(t.prescaler, 10);
    assert_eq!(t.tseg1, 13);
    assert_eq!(t.tseg2, 2);
    assert_eq!(t.sjw, 2);
    assert_eq!(t.nbtp(), 0x0209_0C01);
    // 80 MHz / 10 / (1 + 13 + 2) = 500 kbit/s
    assert_eq!(80_000_000 / (t.prescaler * (1 + t.tseg1 + t.tseg2)), 500_000);
}

#[test]
fn nbtp_fields_are_values_minus_one() {
    let t = NominalBitTiming { prescaler: 512, tseg1: 256, tseg2: 128, sjw: 128 };
    assert_eq!(t.nbtp(), 0xFFFF_FF7F);
    let t = NominalBitTiming { prescaler: 1, tseg1: 1, tseg2: 1, sjw: 1 };
    assert_eq!(t.nbtp(), 0);
}

#[test]
fn tx_header_words() {
    assert_eq!(tx_t0(0x123), 0x048C_0000);
    assert_eq!(tx_t0(0x7FF), 0x1FFC_0000);
    assert_eq!(tx_t1(8), 0x0008_0000);
    assert_eq!(tx_t1(0), 0);
}

#[test]
fn message_ram_addresses() {
    assert_eq!(message_ram_address(0), 0x4000_AC00);
    assert_eq!(message_ram_address(TX_BUFFER0_OFFSET), MESSAGE_RAM_BASE + 0x10);
}

#[test]
fn program_selects_pll1q_from_the_pac_code() {
    let prog = init_normal_500k_program();
    assert_eq!(
        prog[0],
        RegOp::Modify { reg: Reg::RccD2ccip1r, clear: 0x3000_0000, set: 0x1000_0000 }
    );
    assert_eq!(
        prog[1],
        RegOp::Check {
            reg: Reg::RccD2ccip1r,
            mask: 0x3000_0000,
            expected: 0x1000_0000,
            error: SetupError::FdcanselWriteFailed,
        }
    );
    assert_eq!(prog.len(), 59);
}

#[test]
fn bring_up_on_memory_configures_fdcan() {
    let prog = init_normal_500k_program();
    let mut mem: HashMap<Reg, u32> = HashMap::new();
    mem.insert(Reg::RccD2ccip1r, 0x0000_0007);
    mem.insert(Reg::GpioaModer, 0xABFF_FFFF);
    mem.insert(Reg::GpioaAfrh, 0x1234_5678);
    mem.insert(Reg::FdcanCccr, 0x0000_03A0);
    mem.insert(Reg::FdcanTest, 0x10);
    mem.insert(Reg::FdcanEndn, 0x8765_4321);
    mem.insert(Reg::MessageRam(0x04), 0xDEAD_BEEF);
    let (seq, _) = run(&prog, &mut mem, &no_hw);
    assert_eq!(seq.action(&prog), Action::Done);
    assert_eq!(mem[&Reg::RccD2ccip1r], 0x1000_0007);
    assert_eq!(mem[&Reg::RccApb1henr] & 0x100, 0x100);
    assert_eq!(mem[&Reg::RccAhb4enr] & 1, 1);
    assert_eq!(mem[&Reg::RccApb1hrstr] & 0x100, 0);
    // PA11/PA12 alternate, others unchanged
    assert_eq!(mem[&Reg::GpioaModer], 0xAABF_FFFF);
    assert_eq!(mem[&Reg::GpioaAfrh], 0x1239_9678);
    assert_eq!(mem[&Reg::GpioaOspeedr], 0x03C0_0000);
    assert_eq!(mem[&Reg::FdcanCccr], 0x0000_0002);
    assert_eq!(mem[&Reg::FdcanTest], 0);
    assert_eq!(mem[&Reg::FdcanNbtp], 0x0209_0C01);
    assert_eq!(mem[&Reg::FdcanRxf0c], 0x0001_0000);
    assert_eq!(mem[&Reg::FdcanTxbc], 0x0001_0010);
    assert_eq!(mem[&Reg::MessageRam(0x04)], 0);
    assert_eq!(mem[&Reg::MessageRam(0x10)], 0x048C_0000);
    assert_eq!(mem[&Reg::MessageRam(0x14)], 0x0008_0000);
    assert_eq!(mem[&Reg::MessageRam(0x18)], 0x4433_2211);
    assert_eq!(mem[&Reg::MessageRam(0x1C)], 0x8877_6655);
    assert_eq!(mem[&Reg::FdcanIr], 0xFFFF_FFFF);
    assert_eq!(mem[&Reg::FdcanTxbar], 1);
    let r = init_normal_500k_result(&seq, &prog).unwrap();
    assert_eq!(
        r,
        FdcanLoopbackResult {
            endn: 0x8765_4321,
            cccr: 0x0000_0002,
            nbtp: 0x0209_0C01,
            test: 0,
            psr: 0,
            ecr: 0,
            txbto: 0,
            rxf0s: 0,
            rx_id: 0,
            rx_dlc: 0,
            rx_data0: 0,
            rx_data1: 0,
            d2ccip1r: 0x1000_0007,
            apb1henr: 0x100,
        }
    );
}

#[test]
fn fdcansel_readback_failure_stops_bring_up() {
    let prog = init_normal_500k_program();
    let mut mem: HashMap<Reg, u32> = HashMap::new();
    // the selection field does not keep what was written
    let hw = |m: &mut HashMap<Reg, u32>| {
        m.insert(Reg::RccD2ccip1r, 0);
    };
    let (seq, reads) = run(&prog, &mut mem, &hw);
    assert_eq!(seq.action(&prog), Action::Fail(SetupError::FdcanselWriteFailed));
    assert_eq!(reads, 2);
    assert_eq!(
        init_normal_500k_result(&seq, &prog),
        Err(SetupError::FdcanselWriteFailed)
    );
    assert_eq!(SetupError::FdcanselWriteFailed.message(), "FDCANSEL write failed");
    assert!(mem.get(&Reg::FdcanNbtp).is_none());
}

#[test]
fn init_bit_that_never_sets_times_out_after_the_poll_limit() {
    let prog = init_normal_500k_program();
    let mut mem: HashMap<Reg, u32> = HashMap::new();
    let hw = |m: &mut HashMap<Reg, u32>| {
        m.insert(Reg::FdcanCccr, 0);
    };
    let (seq, reads) = run(&prog, &mut mem, &hw);
    assert_eq!(seq.action(&prog), Action::Fail(SetupError::FdcanInitTimeout));
    // reads before the wait: FDCANSEL modify and check, APB1HENR modify and
    // touch, AHB4ENR modify and touch, five GPIO modifies, two APB1HRSTR
    // modifies and a touch, the CCCR modify: 15
    assert_eq!(reads, 15 + 10_000_000);
    assert_eq!(SetupError::FdcanInitTimeout.message(), "FDCAN INIT timeout");
}

#[test]
fn start_timeout_when_init_stays_set() {
    let prog = init_normal_500k_program();
    let mut mem: HashMap<Reg, u32> = HashMap::new();
    let hw = |m: &mut HashMap<Reg, u32>| {
        let v = *m.get(&Reg::FdcanCccr).unwrap_or(&0);
        m.insert(Reg::FdcanCccr, v | 1);
    };
    let (seq, _) = run(&prog, &mut mem, &hw);
    assert_eq!(seq.action(&prog), Action::Fail(SetupError::FdcanStartTimeout));
    assert_eq!(SetupError::FdcanStartTimeout.message(), "FDCAN start timeout");
    assert_eq!(SetupError::FdcanCceTimeout.message(), "FDCAN CCE timeout");
}

#[test]
fn cce_timeout_when_cce_never_sets() {
    let prog = init_normal_500k_program();
    let mut mem: HashMap<Reg, u32> = HashMap::new();
    let hw = |m: &mut HashMap<Reg, u32>| {
        let v = *m.get(&Reg::FdcanCccr).unwrap_or(&0);
        m.insert(Reg::FdcanCccr, v & !2);
    };
    let (seq, _) = run(&prog, &mut mem, &hw);
    assert_eq!(seq.action(&prog), Action::Fail(SetupError::FdcanCceTimeout));
    assert_eq!(init_normal_500k_result(&seq, &prog), Err(SetupError::FdcanCceTimeout));
}
