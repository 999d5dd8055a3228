use std::collections::HashMap;

use h757_dual::clock::{
    configure_400mhz_program, debug_registers_program, debug_registers_result,
    enable_mco2_pc9_program, ClockDebug,
};
use h757_dual::regs::{Reg, RegOp, SetupError};
use h757_dual::sequencer::{Action, Sequencer};

fn run(
    prog: &Vec<RegOp>,
    mem: &mut HashMap<Reg, u32>,
    hw: &dyn Fn(&mut HashMap<Reg, u32>),
) -> Sequencer {
    let mut seq = Sequencer::new();
    loop {
        match seq.action(prog) {
            Action::Read(r) => {
                hw(mem);
                let v = *mem.get(&r).unwrap_or(&0);
                seq.on_read(prog, v);
            }
            Action::Write(r, v) => {
                mem.insert(r, v);
                seq.on_ack(prog);
            }
            Action::Fence(_) => seq.on_ack(prog),
            Action::Done | Action::Fail(_) => return seq,
        }
    }
}

fn get(mem: &HashMap<Reg, u32>, r: Reg) -> u32 {
    *mem.get(&r).unwrap_or(&0)
}

/// Status bits that follow their control bits, as the silicon does.
fn healthy(m: &mut HashMap<Reg, u32>) {
    let csr1 = get(m, Reg::PwrCsr1);
    m.insert(Reg::PwrCsr1, csr1 | (1 << 13));
    let d3cr = get(m, Reg::PwrD3cr);
    m.insert(Reg::PwrD3cr, d3cr | (1 << 13));
    let cr = get(m, Reg::RccCr);
    let on = (cr >> 24) & 1;
    m.insert(Reg::RccCr, (cr & !(1 << 25)) | (on << 25));
    let cfgr = get(m, Reg::RccCfgr);
    m.insert(Reg::RccCfgr, (cfgr & !(7 << 3)) | ((cfgr & 7) << 3));
}

fn ahb_div(code: u32) -> u32 {
    if code < 8 {
        1
    } else {
        [2, 4, 8, 16, 64, 128, 256, 512][(code - 8) as usize]
    }
}

fn apb_div(code: u32) -> u32 {
    if code < 4 {
        1
    } else {
        1 << (code - 3)
    }
}

#[test]
fn clock_configuration_gives_the_readme_frequencies() {
    let prog = configure_400mhz_program();
    let mut mem: HashMap<Reg, u32> = HashMap::new();
    mem.insert(Reg::RccCr, 0x0000_0025); // HSION, HSIRDY, HSIDIV /1
    mem.insert(Reg::RccD1cfgr, 0x0000_0F7F);
    let seq = run(&prog, &mut mem, &healthy);
    assert_eq!(seq.action(&prog), Action::Done);
    assert_eq!(seq.outcome(&prog), Ok(()));

    assert_eq!(get(&mem, Reg::PwrCr3), 0);
    assert_eq!((get(&mem, Reg::PwrD3cr) >> 14) & 3, 3);
    assert_eq!(get(&mem, Reg::FlashAcr) & 0x3F, 0x24);
    assert_eq!(get(&mem, Reg::RccPll1divr), 0x0109_0231);
    assert_eq!(get(&mem, Reg::RccPll1fracr), 0);
    assert_eq!(get(&mem, Reg::RccD2ccip1r), 0x1000_0000);

    // decode the tree from the registers
    let hsi = 64_000_000u32 >> ((get(&mem, Reg::RccCr) >> 3) & 3);
    let divm = (get(&mem, Reg::RccPllckselr) >> 4) & 0x3F;
    let pllsrc = get(&mem, Reg::RccPllckselr) & 3;
    assert_eq!(pllsrc, 0);
    let reference = hsi / divm;
    let divr = get(&mem, Reg::RccPll1divr);
    let vco = reference * ((divr & 0x1FF) + 1);
    let p = vco / (((divr >> 9) & 0x7F) + 1);
    let q = vco / (((divr >> 16) & 0x7F) + 1);
    assert_eq!(reference, 16_000_000);
    assert_eq!(vco, 800_000_000);
    assert_eq!(get(&mem, Reg::RccCfgr) & 7, 3);
    let sysclk = p;
    let d1 = get(&mem, Reg::RccD1cfgr);
    let cpu = sysclk / ahb_div((d1 >> 8) & 0xF);
    let hclk = cpu / ahb_div(d1 & 0xF);
    let apb3 = hclk / apb_div((d1 >> 4) & 7);
    let d2 = get(&mem, Reg::RccD2cfgr);
    let apb1 = hclk / apb_div((d2 >> 4) & 7);
    let apb2 = hclk / apb_div((d2 >> 8) & 7);
    let apb4 = hclk / apb_div((get(&mem, Reg::RccD3cfgr) >> 4) & 7);
    assert_eq!(sysclk, 400_000_000);
    assert_eq!(cpu, 400_000_000);
    assert_eq!(hclk, 200_000_000);
    assert_eq!((apb1, apb2, apb3, apb4), (100_000_000, 100_000_000, 100_000_000, 100_000_000));
    assert_eq!(q, 80_000_000);
    let pllcfgr = get(&mem, Reg::RccPllcfgr);
    assert_eq!(pllcfgr & 0x0007_000F, 0x0003_000C);
}

#[test]
fn supply_not_ready_times_out() {
    let prog = configure_400mhz_program();
    let mut mem: HashMap<Reg, u32> = HashMap::new();
    let seq = run(&prog, &mut mem, &|_| {});
    assert_eq!(seq.action(&prog), Action::Fail(SetupError::ActvosrdyTimeout));
    assert_eq!(seq.outcome(&prog), Err(SetupError::ActvosrdyTimeout));
    assert_eq!(SetupError::ActvosrdyTimeout.message(), "ACTVOSRDY timeout");
    // nothing after the wait was written
    assert!(mem.get(&Reg::RccPll1divr).is_none());
}

#[test]
fn pll_that_never_locks_times_out() {
    let prog = configure_400mhz_program();
    let mut mem: HashMap<Reg, u32> = HashMap::new();
    let hw = |m: &mut HashMap<Reg, u32>| {
        healthy(m);
        let cr = get(m, Reg::RccCr);
        m.insert(Reg::RccCr, cr & !(1 << 25));
    };
    let seq = run(&prog, &mut mem, &hw);
    assert_eq!(seq.action(&prog), Action::Fail(SetupError::Pll1LockTimeout));
    assert_eq!(SetupError::Pll1LockTimeout.message(), "PLL1 lock timeout");
    // the system clock was not switched
    assert_eq!(get(&mem, Reg::RccCfgr) & 7, 0);
}

#[test]
fn error_texts() {
    assert_eq!(SetupError::Vos1Timeout.message(), "VOS1 timeout");
    assert_eq!(SetupError::Pll1DisableTimeout.message(), "PLL1 disable timeout");
    assert_eq!(SetupError::SysclkSwitchTimeout.message(), "SYSCLK switch timeout");
}

#[test]
fn pll_that_never_stops_times_out() {
    let prog = configure_400mhz_program();
    let mut mem: HashMap<Reg, u32> = HashMap::new();
    let hw = |m: &mut HashMap<Reg, u32>| {
        healthy(m);
        let cr = get(m, Reg::RccCr);
        m.insert(Reg::RccCr, cr | (1 << 25));
    };
    let seq = run(&prog, &mut mem, &hw);
    assert_eq!(seq.action(&prog), Action::Fail(SetupError::Pll1DisableTimeout));
}

#[test]
fn mco2_outputs_sysclk_over_five_on_pc9() {
    let prog = enable_mco2_pc9_program();
    let mut mem: HashMap<Reg, u32> = HashMap::new();
    mem.insert(Reg::RccCfgr, 0xFFFF_FF1B);
    mem.insert(Reg::GpiocModer, 0xFFFF_FFFF);
    mem.insert(Reg::GpiocAfrh, 0xFFFF_FFFF);
    let seq = run(&prog, &mut mem, &|_| {});
    assert_eq!(seq.action(&prog), Action::Done);
    let cfgr = get(&mem, Reg::RccCfgr);
    assert_eq!(cfgr >> 29, 0); // SYSCLK
    assert_eq!((cfgr >> 25) & 0xF, 5); // divided by 5
    assert_eq!(cfgr & 0x01FF_FFFF, 0x01FF_FF1B);
    assert_eq!(get(&mem, Reg::RccAhb4enr) & 4, 4);
    assert_eq!(get(&mem, Reg::GpiocModer), 0xFFFB_FFFF);
    assert_eq!(get(&mem, Reg::GpiocAfrh), 0xFFFF_FF0F);
    assert_eq!((get(&mem, Reg::GpiocOspeedr) >> 18) & 3, 3);
    // 400 MHz / 5
    assert_eq!(400_000_000 / ((cfgr >> 25) & 0xF), 80_000_000);
}

#[test]
fn clock_report_reads_every_register_in_order() {
    let prog = debug_registers_program();
    assert_eq!(prog.len(), 13);
    let mut mem: HashMap<Reg, u32> = HashMap::new();
    let regs = [
        Reg::RccCr,
        Reg::RccCfgr,
        Reg::RccPllckselr,
        Reg::RccPllcfgr,
        Reg::RccPll1divr,
        Reg::RccD1cfgr,
        Reg::RccD2cfgr,
        Reg::RccD3cfgr,
        Reg::PwrCr3,
        Reg::PwrCsr1,
        Reg::PwrD3cr,
        Reg::SyscfgPwrcr,
        Reg::FlashAcr,
    ];
    for (i, r) in regs.iter().enumerate() {
        mem.insert(*r, 100 + i as u32);
    }
    let seq = run(&prog, &mut mem, &|_| {});
    assert_eq!(seq.action(&prog), Action::Done);
    let d = debug_registers_result(&seq, &prog);
    assert_eq!(
        d,
        ClockDebug {
            rcc_cr: 100,
            rcc_cfgr: 101,
            pllckselr: 102,
            pllcfgr: 103,
            pll1divr: 104,
            d1cfgr: 105,
            d2cfgr: 106,
            d3cfgr: 107,
            pwr_cr3: 108,
            pwr_csr1: 109,
            pwr_d3cr: 110,
            syscfg_pwrcr: 111,
            flash_acr: 112,
        }
    );
}

#[test]
fn voltage_scale_not_ready_times_out() {
    let prog = configure_400mhz_program();
    let mut mem: HashMap<Reg, u32> = HashMap::new();
    let hw = |m: &mut HashMap<Reg, u32>| {
        healthy(m);
        let d3cr = get(m, Reg::PwrD3cr);
        m.insert(Reg::PwrD3cr, d3cr & !(1 << 13));
    };
    let seq = run(&prog, &mut mem, &hw);
    assert_eq!(seq.action(&prog), Action::Fail(SetupError::Vos1Timeout));
    assert_eq!((get(&mem, Reg::PwrD3cr) >> 14) & 3, 3);
    assert!(mem.get(&Reg::FlashAcr).is_none());
}

#[test]
fn system_clock_switch_not_reported_times_out() {
    let prog = configure_400mhz_program();
    let mut mem: HashMap<Reg, u32> = HashMap::new();
    let hw = |m: &mut HashMap<Reg, u32>| {
        healthy(m);
        let cfgr = get(m, Reg::RccCfgr);
        m.insert(Reg::RccCfgr, cfgr & !(7 << 3));
    };
    let seq = run(&prog, &mut mem, &hw);
    assert_eq!(seq.action(&prog), Action::Fail(SetupError::SysclkSwitchTimeout));
    assert_eq!(seq.outcome(&prog), Err(SetupError::SysclkSwitchTimeout));
    assert_eq!(get(&mem, Reg::RccCfgr) & 7, 3);
}
