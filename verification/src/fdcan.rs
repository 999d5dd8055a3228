//! FDCAN1 bring-up on the Cortex-M4: Classic CAN at 500 kbit/s from the
//! 80 MHz PLL1Q kernel clock, one RX FIFO0 element and one dedicated TX
//! buffer in message RAM, and one frame with standard ID 0x123 queued.

use vstd::prelude::*;
use crate::regs::{
    Reg, Barrier, SetupError, RegOp, RegFile, apply_program, value_after, lemma_value_after,
    Device, store, memory_device, apply_program_on, lemma_apply_on_concat, lemma_apply_on_memory,
    lemma_value_after_concat, modified, field, op_stores, pin_mode, pin_otype, pin_speed, pin_pull, pin_af_high,
};
use crate::sequencer::{
    Sequencer, Action, state_wf, next_action, capture_count, lemma_capture_count_none,
    lemma_capture_count_all, lemma_capture_count_concat, conditions_hold, captured_values, drive,
    program_steps, initial_state, lemma_conditions_concat, lemma_captured_concat, lemma_captured_none,
    lemma_captured_all, lemma_sequencer_runs_program,
};
use crate::pac::fdcansel_pll1_q;

verus! {

/// Address of the FDCAN message RAM.
pub const MESSAGE_RAM_BASE: usize = 0x4000_AC00;

/// Size of the FDCAN message RAM in bytes.
pub const MESSAGE_RAM_SIZE: u32 = 0x2800;

/// Byte offset of RX FIFO0 element 0 in message RAM.
pub const RX_FIFO0_OFFSET: u32 = 0x00;

/// Byte offset of dedicated TX buffer 0 in message RAM.
pub const TX_BUFFER0_OFFSET: u32 = 0x10;

/// Bytes of message RAM that the driver uses and clears.
pub const MESSAGE_RAM_USED: u32 = 0x20;

/// Bytes of one RX or TX element with 8 data bytes: two header words and
/// two data words.
pub const ELEMENT_SIZE: u32 = 0x10;

/// Standard identifier of the frame that the driver queues.
pub const TEST_CAN_ID: u16 = 0x123;

/// First data word (bytes 0..4) of the queued frame.
pub const TEST_DATA0: u32 = 0x4433_2211;

/// Second data word (bytes 4..8) of the queued frame.
pub const TEST_DATA1: u32 = 0x8877_6655;

/// Data length code of the queued frame: 8 bytes.
pub const TEST_DLC: u32 = 8;

/// `RCC_D2CCIP1R.FDCANSEL`, bits 29:28.
pub const FDCANSEL_FIELD: u32 = 0x3000_0000;

/// Position of `RCC_D2CCIP1R.FDCANSEL`.
pub const FDCANSEL_SHIFT: u32 = 28;

/// `FDCANSEL` holding the PLL1Q code (1).
pub const FDCANSEL_PLL1Q: u32 = 0x1000_0000;

/// `RCC_APB1HENR.FDCANEN` and `RCC_APB1HRSTR.FDCANRST`, bit 8.
pub const FDCAN_ENABLE_BIT: u32 = 0x100;

/// `RCC_AHB4ENR.GPIOAEN`, bit 0.
pub const GPIOA_ENABLE_BIT: u32 = 0x1;

/// The two-bit fields of pins 11 and 12 (`MODER`, `OSPEEDR`, `PUPDR`).
pub const PA11_PA12_FIELDS: u32 = 0x03C0_0000;

/// Alternate-function mode (0b10) for pins 11 and 12 in `MODER`.
pub const PA11_PA12_ALTERNATE: u32 = 0x0280_0000;

/// The bits of pins 11 and 12 in `OTYPER`.
pub const PA11_PA12_OTYPE: u32 = 0x1800;

/// The four-bit `AFRH` fields of pins 11 and 12.
pub const PA11_PA12_AF_FIELDS: u32 = 0x000F_F000;

/// AF9 (FDCAN1) for pins 11 and 12 in `AFRH`.
pub const PA11_PA12_AF9: u32 = 0x0009_9000;

/// `FDCAN_CCCR.INIT`.
pub const CCCR_INIT: u32 = 0x1;

/// `FDCAN_CCCR.CCE`.
pub const CCCR_CCE: u32 = 0x2;

/// `FDCAN_CCCR.MON`, `FDOE` and `BRSE` (bits 5, 8 and 9).
pub const CCCR_MON_FDOE_BRSE: u32 = 0x320;

/// `FDCAN_CCCR.TEST` (bit 7).
pub const CCCR_TEST: u32 = 0x80;

/// `FDCAN_TEST.LBCK` (bit 4).
pub const TEST_LBCK: u32 = 0x10;

/// `FDCAN_RXF0C`: FIFO0 at byte offset 0, one element.
pub const RXF0C_VALUE: u32 = 0x0001_0000;

/// `FDCAN_TXBC`: TX buffers at byte offset 0x10, one dedicated buffer.
pub const TXBC_VALUE: u32 = 0x0001_0010;

/// Every interrupt flag of `FDCAN_IR` (written as 1 to clear).
pub const IR_ALL: u32 = 0xFFFF_FFFF;

/// `FDCAN_TXBAR` requesting TX buffer 0.
pub const TXBAR_BUFFER0: u32 = 0x1;

/// The register values that the FDCAN1 bring-up reports.
#[derive(Clone, Copy, Debug, PartialEq, Eq, Structural)]
pub struct FdcanLoopbackResult {
    pub endn: u32,
    pub cccr: u32,
    pub nbtp: u32,
    pub test: u32,
    pub psr: u32,
    pub ecr: u32,
    pub txbto: u32,
    pub rxf0s: u32,
    pub rx_id: u32,
    pub rx_dlc: u32,
    pub rx_data0: u32,
    pub rx_data1: u32,
    pub d2ccip1r: u32,
    pub apb1henr: u32,
}

/// The report built from the values read from `reported_regs`, in order;
/// no frame is read back, so the received-frame fields are zero.
pub open spec fn loopback_result_from(values: Seq<u32>) -> FdcanLoopbackResult {
    FdcanLoopbackResult {
        endn: values[0],
        cccr: values[1],
        nbtp: values[2],
        test: values[3],
        psr: values[4],
        ecr: values[5],
        txbto: values[6],
        rxf0s: values[7],
        rx_id: 0,
        rx_dlc: 0,
        rx_data0: 0,
        rx_data1: 0,
        d2ccip1r: values[8],
        apb1henr: values[9],
    }
}

impl FdcanLoopbackResult {
    /// The report from the values read from `reported_regs`, in order.
    pub fn from_captured(values: &Vec<u32>) -> (r: FdcanLoopbackResult)
        requires
            values.len() == 10,
        ensures
            r == loopback_result_from(values@),
    {
        FdcanLoopbackResult {
            endn: values[0],
            cccr: values[1],
            nbtp: values[2],
            test: values[3],
            psr: values[4],
            ecr: values[5],
            txbto: values[6],
            rxf0s: values[7],
            rx_id: 0,
            rx_dlc: 0,
            rx_data0: 0,
            rx_data1: 0,
            d2ccip1r: values[8],
            apb1henr: values[9],
        }
    }
}

/// The nominal bit timing of the CAN bus, in time quanta.
#[derive(Clone, Copy, Debug, PartialEq, Eq, Structural)]
pub struct NominalBitTiming {
    /// Kernel clock cycles per time quantum.
    pub prescaler: u32,
    /// Time quanta of the propagation and first phase segment.
    pub tseg1: u32,
    /// Time quanta of the second phase segment.
    pub tseg2: u32,
    /// Time quanta of the resynchronization jump width.
    pub sjw: u32,
}

impl NominalBitTiming {
    /// Whether every value fits its `FDCAN_NBTP` field.
    pub open spec fn valid(self) -> bool {
        &&& 1 <= self.prescaler <= 512
        &&& 1 <= self.tseg1 <= 256
        &&& 1 <= self.tseg2 <= 128
        &&& 1 <= self.sjw <= 128
    }

    /// Time quanta of one bit: the sync segment and both phase segments.
    pub open spec fn quanta_per_bit(self) -> nat {
        (1 + self.tseg1 + self.tseg2) as nat
    }

    /// The bit rate from a kernel clock, in bit/s.
    pub open spec fn bitrate(self, kernel_hz: nat) -> nat {
        kernel_hz / (self.prescaler as nat * self.quanta_per_bit())
    }

    /// The `FDCAN_NBTP` value: each value minus one in its field (NSJW
    /// 31:25, NBRP 24:16, NTSEG1 15:8, NTSEG2 6:0).
    pub open spec fn nbtp_spec(self) -> u32 {
        (((self.sjw - 1) as u32) << 25u32) | (((self.prescaler - 1) as u32) << 16u32) | (((self.tseg1
            - 1) as u32) << 8u32) | ((self.tseg2 - 1) as u32)
    }

    /// The `FDCAN_NBTP` value of the timing.
    pub fn nbtp(&self) -> (bits: u32)
        requires
            self.valid(),
        ensures
            bits == self.nbtp_spec(),
    {
        ((self.sjw - 1) << 25u32) | ((self.prescaler - 1) << 16u32) | ((self.tseg1 - 1) << 8u32) | (
        self.tseg2 - 1)
    }

    /// 500 kbit/s from an 80 MHz kernel clock: prescaler 10, TSEG1 13,
    /// TSEG2 2, SJW 2.
    pub fn can_500k() -> (t: NominalBitTiming)
        ensures
            t == (NominalBitTiming { prescaler: 10, tseg1: 13, tseg2: 2, sjw: 2 }),
    {
        NominalBitTiming { prescaler: 10, tseg1: 13, tseg2: 2, sjw: 2 }
    }
}

/// The bit timing that an `FDCAN_NBTP` value holds.
pub open spec fn decode_nbtp(bits: u32) -> NominalBitTiming {
    NominalBitTiming {
        prescaler: (((bits >> 16u32) & 0x1FFu32) + 1) as u32,
        tseg1: (((bits >> 8u32) & 0xFFu32) + 1) as u32,
        tseg2: ((bits & 0x7Fu32) + 1) as u32,
        sjw: (((bits >> 25u32) & 0x7Fu32) + 1) as u32,
    }
}

/// Word `T0` of a TX buffer element: the standard identifier in bits 28:18,
/// RTR, XTD and ESI clear.
pub open spec fn tx_t0_spec(std_id: u16) -> u32 {
    (std_id as u32) << 18u32
}

/// Word `T1` of a TX buffer element: the data length code in bits 19:16,
/// BRS, FDF and EFC clear.
pub open spec fn tx_t1_spec(dlc: u32) -> u32 {
    dlc << 16u32
}

/// Word `T0` of a TX buffer element for a standard identifier.
pub fn tx_t0(std_id: u16) -> (t0: u32)
    requires
        std_id < 0x800,
    ensures
        t0 == tx_t0_spec(std_id),
{
    (std_id as u32) << 18u32
}

/// Word `T1` of a TX buffer element for a data length code.
pub fn tx_t1(dlc: u32) -> (t1: u32)
    requires
        dlc <= 15,
    ensures
        t1 == tx_t1_spec(dlc),
{
    dlc << 16u32
}

/// The address of a message RAM word.
pub fn message_ram_address(offset: u32) -> (addr: usize)
    requires
        offset < MESSAGE_RAM_SIZE,
    ensures
        addr == MESSAGE_RAM_BASE + offset,
{
    MESSAGE_RAM_BASE + offset as usize
}

/// Kernel clock, peripheral clock, pins PA11/PA12 and peripheral reset.
pub open spec fn clock_and_pins_ops() -> Seq<RegOp> {
    seq![
        RegOp::Modify { reg: Reg::RccD2ccip1r, clear: FDCANSEL_FIELD, set: FDCANSEL_PLL1Q },
        RegOp::Check {
            reg: Reg::RccD2ccip1r,
            mask: FDCANSEL_FIELD,
            expected: FDCANSEL_PLL1Q,
            error: SetupError::FdcanselWriteFailed,
        },
        RegOp::Modify { reg: Reg::RccApb1henr, clear: FDCAN_ENABLE_BIT, set: FDCAN_ENABLE_BIT },
        RegOp::Touch { reg: Reg::RccApb1henr },
        RegOp::Modify { reg: Reg::RccAhb4enr, clear: GPIOA_ENABLE_BIT, set: GPIOA_ENABLE_BIT },
        RegOp::Touch { reg: Reg::RccAhb4enr },
        RegOp::Modify { reg: Reg::GpioaModer, clear: PA11_PA12_FIELDS, set: PA11_PA12_ALTERNATE },
        RegOp::Modify { reg: Reg::GpioaOtyper, clear: PA11_PA12_OTYPE, set: 0 },
        RegOp::Modify { reg: Reg::GpioaOspeedr, clear: PA11_PA12_FIELDS, set: PA11_PA12_FIELDS },
        RegOp::Modify { reg: Reg::GpioaPupdr, clear: PA11_PA12_FIELDS, set: 0 },
        RegOp::Modify { reg: Reg::GpioaAfrh, clear: PA11_PA12_AF_FIELDS, set: PA11_PA12_AF9 },
        RegOp::Modify { reg: Reg::RccApb1hrstr, clear: FDCAN_ENABLE_BIT, set: FDCAN_ENABLE_BIT },
        RegOp::Fence { barrier: Barrier::Nop },
        RegOp::Fence { barrier: Barrier::Nop },
        RegOp::Modify { reg: Reg::RccApb1hrstr, clear: FDCAN_ENABLE_BIT, set: 0 },
        RegOp::Touch { reg: Reg::RccApb1hrstr },
    ]
}

/// Initialization mode, configuration change, Classic CAN, bit timing,
/// no loopback, filters and message RAM sections.
pub open spec fn core_config_ops(nbtp: u32) -> Seq<RegOp> {
    seq![
        RegOp::Modify { reg: Reg::FdcanCccr, clear: CCCR_INIT, set: CCCR_INIT },
        RegOp::WaitUntil {
            reg: Reg::FdcanCccr,
            mask: CCCR_INIT,
            expected: CCCR_INIT,
            error: SetupError::FdcanInitTimeout,
        },
        RegOp::Modify { reg: Reg::FdcanCccr, clear: CCCR_CCE, set: CCCR_CCE },
        RegOp::WaitUntil {
            reg: Reg::FdcanCccr,
            mask: CCCR_CCE,
            expected: CCCR_CCE,
            error: SetupError::FdcanCceTimeout,
        },
        RegOp::Modify { reg: Reg::FdcanCccr, clear: CCCR_MON_FDOE_BRSE, set: 0 },
        RegOp::Write { reg: Reg::FdcanNbtp, value: nbtp },
        RegOp::Modify { reg: Reg::FdcanCccr, clear: CCCR_TEST, set: 0 },
        RegOp::Modify { reg: Reg::FdcanTest, clear: TEST_LBCK, set: 0 },
        RegOp::Write { reg: Reg::FdcanGfc, value: 0 },
        RegOp::Write { reg: Reg::FdcanSidfc, value: 0 },
        RegOp::Write { reg: Reg::FdcanXidfc, value: 0 },
        RegOp::Write { reg: Reg::FdcanRxf0c, value: RXF0C_VALUE },
        RegOp::Write { reg: Reg::FdcanRxesc, value: 0 },
        RegOp::Write { reg: Reg::FdcanTxbc, value: TXBC_VALUE },
        RegOp::Write { reg: Reg::FdcanTxesc, value: 0 },
    ]
}

/// Zero every word of the used message RAM.
pub open spec fn ram_clear_ops() -> Seq<RegOp> {
    Seq::new(
        (MESSAGE_RAM_USED / 4) as nat,
        |i: int| RegOp::Write { reg: Reg::MessageRam((4 * i) as u32), value: 0 },
    )
}

/// Load TX buffer 0 with the test frame.
pub open spec fn tx_load_ops() -> Seq<RegOp> {
    seq![
        RegOp::Fence { barrier: Barrier::Dmb },
        RegOp::Write { reg: Reg::MessageRam(TX_BUFFER0_OFFSET), value: tx_t0_spec(TEST_CAN_ID) },
        RegOp::Write { reg: Reg::MessageRam((TX_BUFFER0_OFFSET + 4) as u32), value: tx_t1_spec(TEST_DLC) },
        RegOp::Write { reg: Reg::MessageRam((TX_BUFFER0_OFFSET + 8) as u32), value: TEST_DATA0 },
        RegOp::Write { reg: Reg::MessageRam((TX_BUFFER0_OFFSET + 12) as u32), value: TEST_DATA1 },
        RegOp::Fence { barrier: Barrier::Dmb },
    ]
}

/// The registers whose values the bring-up reports, in order.
pub open spec fn reported_regs() -> Seq<Reg> {
    seq![
        Reg::FdcanEndn,
        Reg::FdcanCccr,
        Reg::FdcanNbtp,
        Reg::FdcanTest,
        Reg::FdcanPsr,
        Reg::FdcanEcr,
        Reg::FdcanTxbto,
        Reg::FdcanRxf0s,
        Reg::RccD2ccip1r,
        Reg::RccApb1henr,
    ]
}

/// Clear interrupt flags, leave initialization and request transmission.
pub open spec fn start_head_ops() -> Seq<RegOp> {
    seq![
        RegOp::Write { reg: Reg::FdcanIr, value: IR_ALL },
        RegOp::Modify { reg: Reg::FdcanCccr, clear: CCCR_INIT, set: 0 },
        RegOp::WaitUntil {
            reg: Reg::FdcanCccr,
            mask: CCCR_INIT,
            expected: 0,
            error: SetupError::FdcanStartTimeout,
        },
        RegOp::Write { reg: Reg::FdcanTxbar, value: TXBAR_BUFFER0 },
    ]
}

/// Record the status registers.
pub open spec fn report_ops() -> Seq<RegOp> {
    reported_regs().map_values(|r: Reg| RegOp::Capture { reg: r })
}

/// Clear interrupt flags, leave initialization, request transmission and
/// record the status registers.
pub open spec fn start_ops() -> Seq<RegOp> {
    start_head_ops() + report_ops()
}

/// The whole FDCAN1 bring-up.
pub open spec fn fdcan_program() -> Seq<RegOp> {
    clock_and_pins_ops() + core_config_ops(0x0209_0C01) + ram_clear_ops() + tx_load_ops()
        + start_ops()
}

fn clock_and_pins() -> (ops: Vec<RegOp>)
    ensures
        ops@ == clock_and_pins_ops(),
{
    let sel: u32 = fdcansel_pll1_q() as u32;
    let sel_bits: u32 = sel << FDCANSEL_SHIFT;
    assert(sel_bits == FDCANSEL_PLL1Q) by (bit_vector)
        requires
            sel == 1,
            sel_bits == sel << 28u32,
    ;
    let ops = vec![
        RegOp::Modify { reg: Reg::RccD2ccip1r, clear: FDCANSEL_FIELD, set: sel_bits },
        RegOp::Check {
            reg: Reg::RccD2ccip1r,
            mask: FDCANSEL_FIELD,
            expected: sel_bits,
            error: SetupError::FdcanselWriteFailed,
        },
        RegOp::Modify { reg: Reg::RccApb1henr, clear: FDCAN_ENABLE_BIT, set: FDCAN_ENABLE_BIT },
        RegOp::Touch { reg: Reg::RccApb1henr },
        RegOp::Modify { reg: Reg::RccAhb4enr, clear: GPIOA_ENABLE_BIT, set: GPIOA_ENABLE_BIT },
        RegOp::Touch { reg: Reg::RccAhb4enr },
        RegOp::Modify { reg: Reg::GpioaModer, clear: PA11_PA12_FIELDS, set: PA11_PA12_ALTERNATE },
        RegOp::Modify { reg: Reg::GpioaOtyper, clear: PA11_PA12_OTYPE, set: 0 },
        RegOp::Modify { reg: Reg::GpioaOspeedr, clear: PA11_PA12_FIELDS, set: PA11_PA12_FIELDS },
        RegOp::Modify { reg: Reg::GpioaPupdr, clear: PA11_PA12_FIELDS, set: 0 },
        RegOp::Modify { reg: Reg::GpioaAfrh, clear: PA11_PA12_AF_FIELDS, set: PA11_PA12_AF9 },
        RegOp::Modify { reg: Reg::RccApb1hrstr, clear: FDCAN_ENABLE_BIT, set: FDCAN_ENABLE_BIT },
        RegOp::Fence { barrier: Barrier::Nop },
        RegOp::Fence { barrier: Barrier::Nop },
        RegOp::Modify { reg: Reg::RccApb1hrstr, clear: FDCAN_ENABLE_BIT, set: 0 },
        RegOp::Touch { reg: Reg::RccApb1hrstr },
    ];
    assert(ops@ =~= clock_and_pins_ops());
    ops
}

fn core_config(nbtp: u32) -> (ops: Vec<RegOp>)
    ensures
        ops@ == core_config_ops(nbtp),
{
    let ops = vec![
        RegOp::Modify { reg: Reg::FdcanCccr, clear: CCCR_INIT, set: CCCR_INIT },
        RegOp::WaitUntil {
            reg: Reg::FdcanCccr,
            mask: CCCR_INIT,
            expected: CCCR_INIT,
            error: SetupError::FdcanInitTimeout,
        },
        RegOp::Modify { reg: Reg::FdcanCccr, clear: CCCR_CCE, set: CCCR_CCE },
        RegOp::WaitUntil {
            reg: Reg::FdcanCccr,
            mask: CCCR_CCE,
            expected: CCCR_CCE,
            error: SetupError::FdcanCceTimeout,
        },
        RegOp::Modify { reg: Reg::FdcanCccr, clear: CCCR_MON_FDOE_BRSE, set: 0 },
        RegOp::Write { reg: Reg::FdcanNbtp, value: nbtp },
        RegOp::Modify { reg: Reg::FdcanCccr, clear: CCCR_TEST, set: 0 },
        RegOp::Modify { reg: Reg::FdcanTest, clear: TEST_LBCK, set: 0 },
        RegOp::Write { reg: Reg::FdcanGfc, value: 0 },
        RegOp::Write { reg: Reg::FdcanSidfc, value: 0 },
        RegOp::Write { reg: Reg::FdcanXidfc, value: 0 },
        RegOp::Write { reg: Reg::FdcanRxf0c, value: RXF0C_VALUE },
        RegOp::Write { reg: Reg::FdcanRxesc, value: 0 },
        RegOp::Write { reg: Reg::FdcanTxbc, value: TXBC_VALUE },
        RegOp::Write { reg: Reg::FdcanTxesc, value: 0 },
    ];
    assert(ops@ =~= core_config_ops(nbtp));
    ops
}

fn ram_clear() -> (ops: Vec<RegOp>)
    ensures
        ops@ == ram_clear_ops(),
{
    let mut ops: Vec<RegOp> = Vec::new();
    let mut offset: u32 = 0;
    while offset < MESSAGE_RAM_USED
        invariant
            offset % 4 == 0,
            offset <= MESSAGE_RAM_USED,
            ops@.len() == offset / 4,
            forall|i: int|
                0 <= i < ops@.len() ==> #[trigger] ops@[i] == (RegOp::Write {
                    reg: Reg::MessageRam((4 * i) as u32),
                    value: 0,
                }),
        decreases MESSAGE_RAM_USED - offset,
    {
        ops.push(RegOp::Write { reg: Reg::MessageRam(offset), value: 0 });
        offset = offset + 4;
    }
    assert(ops@ =~= ram_clear_ops());
    ops
}

fn tx_load() -> (ops: Vec<RegOp>)
    ensures
        ops@ == tx_load_ops(),
{
    let ops = vec![
        RegOp::Fence { barrier: Barrier::Dmb },
        RegOp::Write { reg: Reg::MessageRam(TX_BUFFER0_OFFSET), value: tx_t0(TEST_CAN_ID) },
        RegOp::Write { reg: Reg::MessageRam(TX_BUFFER0_OFFSET + 4), value: tx_t1(TEST_DLC) },
        RegOp::Write { reg: Reg::MessageRam(TX_BUFFER0_OFFSET + 8), value: TEST_DATA0 },
        RegOp::Write { reg: Reg::MessageRam(TX_BUFFER0_OFFSET + 12), value: TEST_DATA1 },
        RegOp::Fence { barrier: Barrier::Dmb },
    ];
    assert(ops@ =~= tx_load_ops());
    ops
}

fn start() -> (ops: Vec<RegOp>)
    ensures
        ops@ == start_ops(),
{
    let ops = vec![
        RegOp::Write { reg: Reg::FdcanIr, value: IR_ALL },
        RegOp::Modify { reg: Reg::FdcanCccr, clear: CCCR_INIT, set: 0 },
        RegOp::WaitUntil {
            reg: Reg::FdcanCccr,
            mask: CCCR_INIT,
            expected: 0,
            error: SetupError::FdcanStartTimeout,
        },
        RegOp::Write { reg: Reg::FdcanTxbar, value: TXBAR_BUFFER0 },
        RegOp::Capture { reg: Reg::FdcanEndn },
        RegOp::Capture { reg: Reg::FdcanCccr },
        RegOp::Capture { reg: Reg::FdcanNbtp },
        RegOp::Capture { reg: Reg::FdcanTest },
        RegOp::Capture { reg: Reg::FdcanPsr },
        RegOp::Capture { reg: Reg::FdcanEcr },
        RegOp::Capture { reg: Reg::FdcanTxbto },
        RegOp::Capture { reg: Reg::FdcanRxf0s },
        RegOp::Capture { reg: Reg::RccD2ccip1r },
        RegOp::Capture { reg: Reg::RccApb1henr },
    ];
    assert(ops@ =~= start_ops());
    ops
}

/// The bring-up records exactly the values of `reported_regs`.
pub proof fn lemma_fdcan_program_captures()
    ensures
        capture_count(fdcan_program()) == reported_regs().len(),
{
    let a = clock_and_pins_ops();
    let b = core_config_ops(0x0209_0C01);
    let c = ram_clear_ops();
    let d = tx_load_ops();
    let head = start_head_ops();
    let tail = report_ops();
    lemma_capture_count_none(a);
    lemma_capture_count_none(b);
    lemma_capture_count_none(c);
    lemma_capture_count_none(d);
    lemma_capture_count_none(head);
    lemma_capture_count_all(tail);
    assert(start_ops() == head + tail);
    lemma_capture_count_concat(head, tail);
    lemma_capture_count_concat(a, b);
    lemma_capture_count_concat(a + b, c);
    lemma_capture_count_concat(a + b + c, d);
    lemma_capture_count_concat(a + b + c + d, start_ops());
}

/// The `FDCAN_NBTP` value that the bring-up writes.
pub open spec fn nbtp_500k() -> u32 {
    0x0209_0C01
}

/// What the bring-up leaves in one register, segment by segment.
proof fn lemma_fdcan_segments(reg: Reg, v: u32)
    ensures
        value_after(fdcan_program(), reg, v) == value_after(
            start_ops(),
            reg,
            value_after(
                tx_load_ops(),
                reg,
                value_after(
                    ram_clear_ops(),
                    reg,
                    value_after(
                        core_config_ops(nbtp_500k()),
                        reg,
                        value_after(clock_and_pins_ops(), reg, v),
                    ),
                ),
            ),
        ),
{
    let a = clock_and_pins_ops();
    let b = core_config_ops(nbtp_500k());
    let c = ram_clear_ops();
    let d = tx_load_ops();
    let e = start_ops();
    lemma_value_after_concat(a + b + c + d, e, reg, v);
    lemma_value_after_concat(a + b + c, d, reg, v);
    lemma_value_after_concat(a + b, c, reg, v);
    lemma_value_after_concat(a, b, reg, v);
}

/// What the bring-up leaves in one register of a register file.
proof fn lemma_fdcan_value(regs: RegFile, reg: Reg)
    ensures
        apply_program(regs, fdcan_program())(reg) == value_after(
            start_ops(),
            reg,
            value_after(
                tx_load_ops(),
                reg,
                value_after(
                    ram_clear_ops(),
                    reg,
                    value_after(
                        core_config_ops(nbtp_500k()),
                        reg,
                        value_after(clock_and_pins_ops(), reg, regs(reg)),
                    ),
                ),
            ),
        ),
{
    lemma_value_after(regs, fdcan_program(), reg);
    lemma_fdcan_segments(reg, regs(reg));
}

/// The registers that the kernel-clock, pin and reset steps store into.
pub open spec fn stored_by_clock_and_pins(reg: Reg) -> bool {
    ||| reg == Reg::RccD2ccip1r
    ||| reg == Reg::RccApb1henr
    ||| reg == Reg::RccAhb4enr
    ||| reg == Reg::GpioaModer
    ||| reg == Reg::GpioaOtyper
    ||| reg == Reg::GpioaOspeedr
    ||| reg == Reg::GpioaPupdr
    ||| reg == Reg::GpioaAfrh
    ||| reg == Reg::RccApb1hrstr
}

/// The registers that the core configuration steps store into.
pub open spec fn stored_by_core_config(reg: Reg) -> bool {
    ||| reg == Reg::FdcanCccr
    ||| reg == Reg::FdcanNbtp
    ||| reg == Reg::FdcanTest
    ||| reg == Reg::FdcanGfc
    ||| reg == Reg::FdcanSidfc
    ||| reg == Reg::FdcanXidfc
    ||| reg == Reg::FdcanRxf0c
    ||| reg == Reg::FdcanRxesc
    ||| reg == Reg::FdcanTxbc
    ||| reg == Reg::FdcanTxesc
}

/// The registers that the start steps store into.
pub open spec fn stored_by_start(reg: Reg) -> bool {
    ||| reg == Reg::FdcanIr
    ||| reg == Reg::FdcanCccr
    ||| reg == Reg::FdcanTxbar
}

proof fn lemma_clock_and_pins_untouched(reg: Reg, v: u32)
    requires
        !stored_by_clock_and_pins(reg),
    ensures
        value_after(clock_and_pins_ops(), reg, v) == v,
{
    reveal_with_fuel(value_after, 17);
}

proof fn lemma_core_config_untouched(reg: Reg, v: u32)
    requires
        !stored_by_core_config(reg),
    ensures
        value_after(core_config_ops(nbtp_500k()), reg, v) == v,
{
    reveal_with_fuel(value_after, 16);
}

proof fn lemma_ram_clear_untouched(reg: Reg, v: u32)
    requires
        !(reg is MessageRam),
    ensures
        value_after(ram_clear_ops(), reg, v) == v,
{
    reveal_with_fuel(value_after, 9);
}

proof fn lemma_tx_load_untouched(reg: Reg, v: u32)
    requires
        !(reg is MessageRam),
    ensures
        value_after(tx_load_ops(), reg, v) == v,
{
    reveal_with_fuel(value_after, 7);
}

proof fn lemma_start_untouched(reg: Reg, v: u32)
    requires
        !stored_by_start(reg),
    ensures
        value_after(start_ops(), reg, v) == v,
{
    reveal_with_fuel(value_after, 15);
}

/// What the bring-up leaves in a register that only the kernel-clock, pin
/// and reset steps store into.
proof fn lemma_fdcan_clock_and_pins_reg(regs: RegFile, reg: Reg)
    requires
        stored_by_clock_and_pins(reg),
    ensures
        apply_program(regs, fdcan_program())(reg) == value_after(clock_and_pins_ops(), reg, regs(reg)),
{
    lemma_fdcan_value(regs, reg);
    let v = value_after(clock_and_pins_ops(), reg, regs(reg));
    lemma_core_config_untouched(reg, v);
    lemma_ram_clear_untouched(reg, v);
    lemma_tx_load_untouched(reg, v);
    lemma_start_untouched(reg, v);
}

/// Whether pins PA11 (FDCAN1_RX) and PA12 (FDCAN1_TX) are set up for FDCAN1
/// in `after`: alternate function 9, push-pull, very high speed, no pull;
/// every other pin of port A as in `before`.
pub open spec fn can_pins_configured(before: RegFile, after: RegFile) -> bool {
    &&& forall|pin: u32|
        pin == 11 || pin == 12 ==> {
            &&& #[trigger] pin_mode(after(Reg::GpioaModer), pin) == 2
            &&& pin_otype(after(Reg::GpioaOtyper), pin) == 0
            &&& pin_speed(after(Reg::GpioaOspeedr), pin) == 3
            &&& pin_pull(after(Reg::GpioaPupdr), pin) == 0
            &&& pin_af_high(after(Reg::GpioaAfrh), pin) == 9
        }
    &&& forall|pin: u32|
        pin < 16 && pin != 11 && pin != 12 ==> {
            &&& #[trigger] pin_mode(after(Reg::GpioaModer), pin) == pin_mode(
                before(Reg::GpioaModer),
                pin,
            )
            &&& pin_otype(after(Reg::GpioaOtyper), pin) == pin_otype(before(Reg::GpioaOtyper), pin)
            &&& pin_speed(after(Reg::GpioaOspeedr), pin) == pin_speed(
                before(Reg::GpioaOspeedr),
                pin,
            )
            &&& pin_pull(after(Reg::GpioaPupdr), pin) == pin_pull(before(Reg::GpioaPupdr), pin)
        }
    &&& forall|pin: u32|
        8 <= pin < 16 && pin != 11 && pin != 12 ==> #[trigger] pin_af_high(after(Reg::GpioaAfrh), pin)
            == pin_af_high(before(Reg::GpioaAfrh), pin)
}

proof fn lemma_fdcan_pin_registers(regs: RegFile)
    ensures
        ({
            let after = apply_program(regs, fdcan_program());
            &&& after(Reg::GpioaModer) == modified(
                regs(Reg::GpioaModer),
                PA11_PA12_FIELDS,
                PA11_PA12_ALTERNATE,
            )
            &&& after(Reg::GpioaOtyper) == modified(regs(Reg::GpioaOtyper), PA11_PA12_OTYPE, 0)
            &&& after(Reg::GpioaOspeedr) == modified(
                regs(Reg::GpioaOspeedr),
                PA11_PA12_FIELDS,
                PA11_PA12_FIELDS,
            )
            &&& after(Reg::GpioaPupdr) == modified(regs(Reg::GpioaPupdr), PA11_PA12_FIELDS, 0)
            &&& after(Reg::GpioaAfrh) == modified(
                regs(Reg::GpioaAfrh),
                PA11_PA12_AF_FIELDS,
                PA11_PA12_AF9,
            )
        }),
{
    lemma_fdcan_clock_and_pins_reg(regs, Reg::GpioaModer);
    lemma_fdcan_clock_and_pins_reg(regs, Reg::GpioaOtyper);
    lemma_fdcan_clock_and_pins_reg(regs, Reg::GpioaOspeedr);
    lemma_fdcan_clock_and_pins_reg(regs, Reg::GpioaPupdr);
    lemma_fdcan_clock_and_pins_reg(regs, Reg::GpioaAfrh);
    reveal_with_fuel(value_after, 17);
}

/// The FDCAN1 bring-up sets up pins PA11 and PA12 for FDCAN1 and leaves
/// every other pin of port A as it was.
pub proof fn lemma_fdcan_pins(regs: RegFile)
    ensures
        can_pins_configured(regs, apply_program(regs, fdcan_program())),
{
    let after = apply_program(regs, fdcan_program());
    lemma_fdcan_pin_registers(regs);
    let m = regs(Reg::GpioaModer);
    let o = regs(Reg::GpioaOtyper);
    let sp = regs(Reg::GpioaOspeedr);
    let pu = regs(Reg::GpioaPupdr);
    let af = regs(Reg::GpioaAfrh);
    assert forall|pin: u32| pin < 16 && pin != 11 && pin != 12 implies {
        &&& #[trigger] pin_mode(after(Reg::GpioaModer), pin) == pin_mode(m, pin)
        &&& pin_otype(after(Reg::GpioaOtyper), pin) == pin_otype(o, pin)
        &&& pin_speed(after(Reg::GpioaOspeedr), pin) == pin_speed(sp, pin)
        &&& pin_pull(after(Reg::GpioaPupdr), pin) == pin_pull(pu, pin)
    } by {
        assert({
            &&& (((m & !0x03C0_0000u32) | 0x0280_0000u32) >> ((2 * pin) as u32)) & 3 == (m >> ((2
                * pin) as u32)) & 3
            &&& (((o & !0x1800u32) | 0u32) >> pin) & 1 == (o >> pin) & 1
            &&& (((sp & !0x03C0_0000u32) | 0x03C0_0000u32) >> ((2 * pin) as u32)) & 3 == (sp >> ((2
                * pin) as u32)) & 3
            &&& (((pu & !0x03C0_0000u32) | 0u32) >> ((2 * pin) as u32)) & 3 == (pu >> ((2
                * pin) as u32)) & 3
        }) by (bit_vector)
            requires
                pin < 16 && pin != 11 && pin != 12,
        ;
    }
    assert forall|pin: u32| 8 <= pin < 16 && pin != 11 && pin != 12 implies #[trigger] pin_af_high(
        after(Reg::GpioaAfrh),
        pin,
    ) == pin_af_high(af, pin) by {
        assert((((af & !0x000F_F000u32) | 0x0009_9000u32) >> ((4 * (pin - 8)) as u32)) & 0xF == (af
            >> ((4 * (pin - 8)) as u32)) & 0xF) by (bit_vector)
            requires
                8 <= pin < 16 && pin != 11 && pin != 12,
        ;
    }
    assert forall|pin: u32| pin == 11 || pin == 12 implies {
        &&& #[trigger] pin_mode(after(Reg::GpioaModer), pin) == 2
        &&& pin_otype(after(Reg::GpioaOtyper), pin) == 0
        &&& pin_speed(after(Reg::GpioaOspeedr), pin) == 3
        &&& pin_pull(after(Reg::GpioaPupdr), pin) == 0
        &&& pin_af_high(after(Reg::GpioaAfrh), pin) == 9
    } by {
        assert({
            &&& (((m & !0x03C0_0000u32) | 0x0280_0000u32) >> ((2 * pin) as u32)) & 3 == 2
            &&& (((o & !0x1800u32) | 0u32) >> pin) & 1 == 0
            &&& (((sp & !0x03C0_0000u32) | 0x03C0_0000u32) >> ((2 * pin) as u32)) & 3 == 3
            &&& (((pu & !0x03C0_0000u32) | 0u32) >> ((2 * pin) as u32)) & 3 == 0
            &&& (((af & !0x000F_F000u32) | 0x0009_9000u32) >> ((4 * (pin - 8)) as u32)) & 0xF == 9
        }) by (bit_vector)
            requires
                pin == 11 || pin == 12,
        ;
    }
}

/// What the bring-up leaves in a register that only the core configuration
/// steps store into.
proof fn lemma_fdcan_core_config_reg(regs: RegFile, reg: Reg)
    requires
        stored_by_core_config(reg),
        !stored_by_start(reg),
    ensures
        apply_program(regs, fdcan_program())(reg) == value_after(
            core_config_ops(nbtp_500k()),
            reg,
            regs(reg),
        ),
{
    lemma_fdcan_value(regs, reg);
    lemma_clock_and_pins_untouched(reg, regs(reg));
    let v = value_after(core_config_ops(nbtp_500k()), reg, regs(reg));
    lemma_ram_clear_untouched(reg, v);
    lemma_tx_load_untouched(reg, v);
    lemma_start_untouched(reg, v);
}

/// Whether the FDCAN1 peripheral, its clocks and its message RAM are set up
/// in `after` as the bring-up intends, from `before`.
pub open spec fn fdcan_configured(before: RegFile, after: RegFile) -> bool {
    // kernel clock PLL1Q, other kernel clock selections kept
    &&& field(after(Reg::RccD2ccip1r), FDCANSEL_SHIFT, 3) == 1
    &&& after(Reg::RccD2ccip1r) & !FDCANSEL_FIELD == before(Reg::RccD2ccip1r) & !FDCANSEL_FIELD
    // peripheral and port clocks on, reset released, other bits kept
    &&& after(Reg::RccApb1henr) & FDCAN_ENABLE_BIT == FDCAN_ENABLE_BIT
    &&& after(Reg::RccApb1henr) & !FDCAN_ENABLE_BIT == before(Reg::RccApb1henr) & !FDCAN_ENABLE_BIT
    &&& after(Reg::RccAhb4enr) & GPIOA_ENABLE_BIT == GPIOA_ENABLE_BIT
    &&& after(Reg::RccAhb4enr) & !GPIOA_ENABLE_BIT == before(Reg::RccAhb4enr) & !GPIOA_ENABLE_BIT
    &&& after(Reg::RccApb1hrstr) & FDCAN_ENABLE_BIT == 0
    // pins
    &&& can_pins_configured(before, after)
    // running, Classic CAN, no monitoring, no test mode, no loopback
    &&& after(Reg::FdcanCccr) & (CCCR_INIT | CCCR_MON_FDOE_BRSE | CCCR_TEST) == 0
    &&& after(Reg::FdcanTest) & TEST_LBCK == 0
    // 500 kbit/s timing
    &&& after(Reg::FdcanNbtp) == nbtp_500k()
    &&& decode_nbtp(after(Reg::FdcanNbtp)) == (NominalBitTiming {
        prescaler: 10,
        tseg1: 13,
        tseg2: 2,
        sjw: 2,
    })
    // every frame accepted into FIFO0, no filters
    &&& after(Reg::FdcanGfc) == 0
    &&& after(Reg::FdcanSidfc) == 0
    &&& after(Reg::FdcanXidfc) == 0
    // message RAM sections: FIFO0 of one element at RX_FIFO0_OFFSET,
    // one dedicated TX buffer at TX_BUFFER0_OFFSET, 8-byte data fields
    &&& field(after(Reg::FdcanRxf0c), 2, 0x3FFF) * 4 == RX_FIFO0_OFFSET
    &&& field(after(Reg::FdcanRxf0c), 16, 0x7F) == 1
    &&& field(after(Reg::FdcanTxbc), 2, 0x3FFF) * 4 == TX_BUFFER0_OFFSET
    &&& field(after(Reg::FdcanTxbc), 16, 0x3F) == 1
    &&& field(after(Reg::FdcanTxbc), 24, 0x3F) == 0
    &&& after(Reg::FdcanRxesc) == 0
    &&& after(Reg::FdcanTxesc) == 0
    // the RX element cleared, TX buffer 0 holding the test frame
    &&& forall|k: u32| 0 <= k < 4 ==> #[trigger] after(Reg::MessageRam((RX_FIFO0_OFFSET + 4 * k) as u32)) == 0
    &&& after(Reg::MessageRam(TX_BUFFER0_OFFSET)) == tx_t0_spec(TEST_CAN_ID)
    &&& after(Reg::MessageRam((TX_BUFFER0_OFFSET + 4) as u32)) == tx_t1_spec(TEST_DLC)
    &&& after(Reg::MessageRam((TX_BUFFER0_OFFSET + 8) as u32)) == TEST_DATA0
    &&& after(Reg::MessageRam((TX_BUFFER0_OFFSET + 12) as u32)) == TEST_DATA1
    // transmission of buffer 0 requested
    &&& after(Reg::FdcanTxbar) == TXBAR_BUFFER0
}

proof fn lemma_fdcan_rcc_registers(regs: RegFile)
    ensures
        ({
            let after = apply_program(regs, fdcan_program());
            &&& after(Reg::RccD2ccip1r) == modified(
                regs(Reg::RccD2ccip1r),
                FDCANSEL_FIELD,
                FDCANSEL_PLL1Q,
            )
            &&& after(Reg::RccApb1henr) == modified(
                regs(Reg::RccApb1henr),
                FDCAN_ENABLE_BIT,
                FDCAN_ENABLE_BIT,
            )
            &&& after(Reg::RccAhb4enr) == modified(
                regs(Reg::RccAhb4enr),
                GPIOA_ENABLE_BIT,
                GPIOA_ENABLE_BIT,
            )
            &&& after(Reg::RccApb1hrstr) == modified(
                modified(regs(Reg::RccApb1hrstr), FDCAN_ENABLE_BIT, FDCAN_ENABLE_BIT),
                FDCAN_ENABLE_BIT,
                0,
            )
        }),
{
    lemma_fdcan_clock_and_pins_reg(regs, Reg::RccD2ccip1r);
    lemma_fdcan_clock_and_pins_reg(regs, Reg::RccApb1henr);
    lemma_fdcan_clock_and_pins_reg(regs, Reg::RccAhb4enr);
    lemma_fdcan_clock_and_pins_reg(regs, Reg::RccApb1hrstr);
    reveal_with_fuel(value_after, 17);
}

proof fn lemma_fdcan_core_registers(regs: RegFile)
    ensures
        ({
            let after = apply_program(regs, fdcan_program());
            &&& after(Reg::FdcanNbtp) == nbtp_500k()
            &&& after(Reg::FdcanTest) == modified(regs(Reg::FdcanTest), TEST_LBCK, 0)
            &&& after(Reg::FdcanGfc) == 0
            &&& after(Reg::FdcanSidfc) == 0
            &&& after(Reg::FdcanXidfc) == 0
            &&& after(Reg::FdcanRxf0c) == RXF0C_VALUE
            &&& after(Reg::FdcanRxesc) == 0
            &&& after(Reg::FdcanTxbc) == TXBC_VALUE
            &&& after(Reg::FdcanTxesc) == 0
        }),
{
    lemma_fdcan_core_config_reg(regs, Reg::FdcanNbtp);
    lemma_fdcan_core_config_reg(regs, Reg::FdcanTest);
    lemma_fdcan_core_config_reg(regs, Reg::FdcanGfc);
    lemma_fdcan_core_config_reg(regs, Reg::FdcanSidfc);
    lemma_fdcan_core_config_reg(regs, Reg::FdcanXidfc);
    lemma_fdcan_core_config_reg(regs, Reg::FdcanRxf0c);
    lemma_fdcan_core_config_reg(regs, Reg::FdcanRxesc);
    lemma_fdcan_core_config_reg(regs, Reg::FdcanTxbc);
    lemma_fdcan_core_config_reg(regs, Reg::FdcanTxesc);
    reveal_with_fuel(value_after, 16);
}

proof fn lemma_fdcan_cccr(regs: RegFile)
    ensures
        apply_program(regs, fdcan_program())(Reg::FdcanCccr) == modified(
            modified(
                modified(
                    modified(
                        modified(regs(Reg::FdcanCccr), CCCR_INIT, CCCR_INIT),
                        CCCR_CCE,
                        CCCR_CCE,
                    ),
                    CCCR_MON_FDOE_BRSE,
                    0,
                ),
                CCCR_TEST,
                0,
            ),
            CCCR_INIT,
            0,
        ),
{
    let reg = Reg::FdcanCccr;
    lemma_fdcan_value(regs, reg);
    lemma_clock_and_pins_untouched(reg, regs(reg));
    let v = value_after(core_config_ops(nbtp_500k()), reg, regs(reg));
    lemma_ram_clear_untouched(reg, v);
    lemma_tx_load_untouched(reg, v);
    reveal_with_fuel(value_after, 16);
}

proof fn lemma_fdcan_ram_and_start(regs: RegFile)
    ensures
        ({
            let after = apply_program(regs, fdcan_program());
            &&& forall|k: u32| 0 <= k < 4 ==> #[trigger] after(Reg::MessageRam((RX_FIFO0_OFFSET + 4 * k) as u32)) == 0
            &&& after(Reg::MessageRam(TX_BUFFER0_OFFSET)) == tx_t0_spec(TEST_CAN_ID)
            &&& after(Reg::MessageRam((TX_BUFFER0_OFFSET + 4) as u32)) == tx_t1_spec(TEST_DLC)
            &&& after(Reg::MessageRam((TX_BUFFER0_OFFSET + 8) as u32)) == TEST_DATA0
            &&& after(Reg::MessageRam((TX_BUFFER0_OFFSET + 12) as u32)) == TEST_DATA1
            &&& after(Reg::FdcanTxbar) == TXBAR_BUFFER0
        }),
{
    let after = apply_program(regs, fdcan_program());
    assert forall|k: u32| 0 <= k < 4 implies #[trigger] after(Reg::MessageRam((RX_FIFO0_OFFSET + 4 * k) as u32))
        == 0 by {
        let reg = Reg::MessageRam((RX_FIFO0_OFFSET + 4 * k) as u32);
        lemma_fdcan_value(regs, reg);
        lemma_clock_and_pins_untouched(reg, regs(reg));
        lemma_core_config_untouched(reg, regs(reg));
        reveal_with_fuel(value_after, 9);
        assert(value_after(ram_clear_ops(), reg, regs(reg)) == 0);
        reveal_with_fuel(value_after, 7);
        assert(value_after(tx_load_ops(), reg, 0) == 0);
        lemma_start_untouched(reg, 0);
    }
    let words = seq![
        TX_BUFFER0_OFFSET,
        (TX_BUFFER0_OFFSET + 4) as u32,
        (TX_BUFFER0_OFFSET + 8) as u32,
        (TX_BUFFER0_OFFSET + 12) as u32,
    ];
    let values = seq![tx_t0_spec(TEST_CAN_ID), tx_t1_spec(TEST_DLC), TEST_DATA0, TEST_DATA1];
    assert forall|k: int| 0 <= k < 4 implies after(Reg::MessageRam(#[trigger] words[k])) == values[k] by {
        let reg = Reg::MessageRam(words[k]);
        lemma_fdcan_value(regs, reg);
        lemma_clock_and_pins_untouched(reg, regs(reg));
        lemma_core_config_untouched(reg, regs(reg));
        reveal_with_fuel(value_after, 9);
        let v = value_after(ram_clear_ops(), reg, regs(reg));
        reveal_with_fuel(value_after, 7);
        assert(value_after(tx_load_ops(), reg, v) == values[k]);
        lemma_start_untouched(reg, values[k]);
    }
    assert(after(Reg::MessageRam(words[0])) == values[0]);
    assert(after(Reg::MessageRam(words[1])) == values[1]);
    assert(after(Reg::MessageRam(words[2])) == values[2]);
    assert(after(Reg::MessageRam(words[3])) == values[3]);
    let reg = Reg::FdcanTxbar;
    lemma_fdcan_value(regs, reg);
    lemma_clock_and_pins_untouched(reg, regs(reg));
    lemma_core_config_untouched(reg, regs(reg));
    lemma_ram_clear_untouched(reg, regs(reg));
    lemma_tx_load_untouched(reg, regs(reg));
    reveal_with_fuel(value_after, 15);
}

/// The FDCAN1 bring-up, run on any register file, leaves FDCAN1 configured
/// for Classic CAN at the 500 kbit/s timing with the test frame queued,
/// and leaves the bits it does not own as they were.
pub proof fn lemma_fdcan_program_configures(regs: RegFile)
    ensures
        fdcan_configured(regs, apply_program(regs, fdcan_program())),
{
    let after = apply_program(regs, fdcan_program());
    lemma_fdcan_pins(regs);
    lemma_fdcan_rcc_registers(regs);
    lemma_fdcan_core_registers(regs);
    lemma_fdcan_cccr(regs);
    lemma_fdcan_ram_and_start(regs);
    let d = regs(Reg::RccD2ccip1r);
    let e = regs(Reg::RccApb1henr);
    let g = regs(Reg::RccAhb4enr);
    let r = regs(Reg::RccApb1hrstr);
    let c = regs(Reg::FdcanCccr);
    let t = regs(Reg::FdcanTest);
    assert({
        &&& (((d & !0x3000_0000u32) | 0x1000_0000u32) >> 28u32) & 3 == 1
        &&& ((d & !0x3000_0000u32) | 0x1000_0000u32) & !0x3000_0000u32 == d & !0x3000_0000u32
        &&& ((e & !0x100u32) | 0x100u32) & 0x100u32 == 0x100u32
        &&& ((e & !0x100u32) | 0x100u32) & !0x100u32 == e & !0x100u32
        &&& ((g & !1u32) | 1u32) & 1u32 == 1u32
        &&& ((g & !1u32) | 1u32) & !1u32 == g & !1u32
        &&& ((((r & !0x100u32) | 0x100u32) & !0x100u32) | 0u32) & 0x100u32 == 0
        &&& ((((((((((c & !1u32) | 1u32) & !2u32) | 2u32) & !0x320u32) | 0u32) & !0x80u32) | 0u32)
            & !1u32) | 0u32) & (1u32 | 0x320u32 | 0x80u32) == 0
        &&& ((t & !0x10u32) | 0u32) & 0x10u32 == 0
    }) by (bit_vector);
    let n: u32 = 0x0209_0C01u32;
    assert(((n >> 16u32) & 0x1FFu32) == 9 && ((n >> 8u32) & 0xFFu32) == 12 && (n & 0x7Fu32) == 1
        && ((n >> 25u32) & 0x7Fu32) == 1) by (bit_vector)
        requires
            n == 0x0209_0C01u32,
    ;
    let rx: u32 = 0x0001_0000u32;
    let tx: u32 = 0x0001_0010u32;
    assert((rx >> 2u32) & 0x3FFFu32 == 0 && (rx >> 16u32) & 0x7Fu32 == 1) by (bit_vector)
        requires
            rx == 0x0001_0000u32,
    ;
    assert((tx >> 2u32) & 0x3FFFu32 == 4 && (tx >> 16u32) & 0x3Fu32 == 1 && (tx >> 24u32) & 0x3Fu32
        == 0) by (bit_vector)
        requires
            tx == 0x0001_0010u32,
    ;
}

/// The result of the FDCAN1 bring-up once its sequencer has stopped: the
/// report of the captured registers when it completed, its error when it
/// failed.
pub fn init_normal_500k_result(seq: &Sequencer, prog: &Vec<RegOp>) -> (r: Result<
    FdcanLoopbackResult,
    SetupError,
>)
    requires
        prog@ == fdcan_program(),
        state_wf(seq@, prog@),
        next_action(seq@, prog@) is Done || next_action(seq@, prog@) is Fail,
    ensures
        next_action(seq@, prog@) is Done ==> r == Ok::<FdcanLoopbackResult, SetupError>(
            loopback_result_from(seq@.captured),
        ),
        next_action(seq@, prog@) matches Action::Fail(e) ==> r == Err::<FdcanLoopbackResult, SetupError>(
            e,
        ),
{
    match seq.outcome(prog) {
        Ok(()) => {
            proof {
                lemma_fdcan_program_captures();
            }
            Ok(FdcanLoopbackResult::from_captured(seq.captured()))
        },
        Err(e) => Err(e),
    }
}

/// Encoding a valid bit timing into `FDCAN_NBTP` and decoding it gives the
/// timing back.
pub proof fn lemma_nbtp_round_trip(t: NominalBitTiming)
    requires
        t.valid(),
    ensures
        decode_nbtp(t.nbtp_spec()) == t,
{
    let p = (t.prescaler - 1) as u32;
    let a = (t.tseg1 - 1) as u32;
    let b = (t.tseg2 - 1) as u32;
    let j = (t.sjw - 1) as u32;
    let bits = t.nbtp_spec();
    assert(bits == (j << 25u32) | (p << 16u32) | (a << 8u32) | b);
    assert(((bits >> 16u32) & 0x1FFu32) == p && ((bits >> 8u32) & 0xFFu32) == a && (bits & 0x7Fu32)
        == b && ((bits >> 25u32) & 0x7Fu32) == j) by (bit_vector)
        requires
            bits == (j << 25u32) | (p << 16u32) | (a << 8u32) | b,
            p < 512 && a < 256 && b < 128 && j < 128,
    ;
}

/// The 500 kbit/s timing is the `FDCAN_NBTP` value 0x02090C01 and gives
/// 500 kbit/s from the 80 MHz kernel clock: 80 MHz / 10 / (1 + 13 + 2).
pub proof fn lemma_500k_timing()
    ensures
        ({
            let t = NominalBitTiming { prescaler: 10, tseg1: 13, tseg2: 2, sjw: 2 };
            &&& t.valid()
            &&& t.nbtp_spec() == nbtp_500k()
            &&& t.bitrate(80_000_000) == 500_000
        }),
{
    let t = NominalBitTiming { prescaler: 10, tseg1: 13, tseg2: 2, sjw: 2 };
    assert(t.nbtp_spec() == (1u32 << 25u32) | (9u32 << 16u32) | (12u32 << 8u32) | 1u32);
    assert((1u32 << 25u32) | (9u32 << 16u32) | (12u32 << 8u32) | 1u32 == 0x0209_0C01u32)
        by (bit_vector);
    assert(t.quanta_per_bit() == 16);
    assert(80_000_000nat / (10nat * 16nat) == 500_000nat) by (nonlinear_arith);
}

/// A TX buffer header holds the standard identifier in bits 28:18 and the
/// data length code in bits 19:16 of the second word, with the remote,
/// extended, error-state, bit-rate-switch, FD-format and event-FIFO bits
/// clear.
pub proof fn lemma_tx_header_fields(std_id: u16, dlc: u32)
    requires
        std_id < 0x800,
        dlc <= 15,
    ensures
        field(tx_t0_spec(std_id), 18, 0x7FF) == std_id,
        tx_t0_spec(std_id) & 0xE000_0000 == 0,
        field(tx_t1_spec(dlc), 16, 0xF) == dlc,
        tx_t1_spec(dlc) & 0x00B0_0000 == 0,
{
    let id = std_id as u32;
    assert(((id << 18u32) >> 18u32) & 0x7FFu32 == id && (id << 18u32) & 0xE000_0000u32 == 0)
        by (bit_vector)
        requires
            id < 0x800,
    ;
    assert(((dlc << 16u32) >> 16u32) & 0xFu32 == dlc && (dlc << 16u32) & 0x00B0_0000u32 == 0)
        by (bit_vector)
        requires
            dlc <= 15,
    ;
}

/// The RX FIFO0 element and TX buffer 0 do not overlap, and both lie in
/// the message RAM that the bring-up clears.
pub proof fn lemma_message_ram_layout()
    ensures
        RX_FIFO0_OFFSET + ELEMENT_SIZE <= TX_BUFFER0_OFFSET,
        TX_BUFFER0_OFFSET + ELEMENT_SIZE <= MESSAGE_RAM_USED,
        MESSAGE_RAM_USED <= MESSAGE_RAM_SIZE,
        RX_FIFO0_OFFSET % 4 == 0 && TX_BUFFER0_OFFSET % 4 == 0,
{
}

/// The FDCAN1 bring-up leaves every register that it does not store into as
/// it was.
pub proof fn lemma_fdcan_preserves(regs: RegFile, reg: Reg)
    requires
        !stored_by_clock_and_pins(reg),
        !stored_by_core_config(reg),
        !stored_by_start(reg),
        !(reg is MessageRam),
    ensures
        apply_program(regs, fdcan_program())(reg) == regs(reg),
{
    lemma_fdcan_value(regs, reg);
    lemma_clock_and_pins_untouched(reg, regs(reg));
    lemma_core_config_untouched(reg, regs(reg));
    lemma_ram_clear_untouched(reg, regs(reg));
    lemma_tx_load_untouched(reg, regs(reg));
    lemma_start_untouched(reg, regs(reg));
}

/// The clock configuration of the Cortex-M7 followed by the FDCAN1 bring-up
/// of the Cortex-M4 runs the CAN bus at 500 kbit/s: the FDCAN kernel clock
/// is PLL1Q at 80 MHz and the bit timing divides it by 10 x 16.
pub proof fn lemma_board_can_bitrate(regs: RegFile)
    requires
        field(regs(Reg::RccCr), 3, 3) == 0,
    ensures
        ({
            let after = apply_program(apply_program(regs, crate::clock::clock_program()), fdcan_program());
            &&& crate::clock::fdcan_kernel_hz(after) == 80_000_000
            &&& decode_nbtp(after(Reg::FdcanNbtp)).bitrate(crate::clock::fdcan_kernel_hz(after))
                == 500_000
        }),
{
    let mid = apply_program(regs, crate::clock::clock_program());
    let after = apply_program(mid, fdcan_program());
    crate::clock::lemma_clock_program_frequencies(regs);
    lemma_fdcan_program_configures(mid);
    lemma_fdcan_preserves(mid, Reg::RccCr);
    lemma_fdcan_preserves(mid, Reg::RccPllckselr);
    lemma_fdcan_preserves(mid, Reg::RccPllcfgr);
    lemma_fdcan_preserves(mid, Reg::RccPll1divr);
    lemma_fdcan_preserves(mid, Reg::RccPll1fracr);
    assert(crate::clock::pll1_q_hz(after) == crate::clock::pll1_q_hz(mid));
    lemma_500k_timing();
}

proof fn lemma_clock_and_pins_conditions(regs: RegFile)
    ensures
        conditions_hold(memory_device(), regs, clock_and_pins_ops()),
{
    let v = regs(Reg::RccD2ccip1r);
    assert(((v & !0x3000_0000u32) | 0x1000_0000u32) & 0x3000_0000u32 == 0x1000_0000u32)
        by (bit_vector);
    reveal_with_fuel(conditions_hold, 17);
}

proof fn lemma_core_config_conditions(regs: RegFile)
    ensures
        conditions_hold(memory_device(), regs, core_config_ops(nbtp_500k())),
{
    let v = regs(Reg::FdcanCccr);
    assert(((v & !1u32) | 1u32) & 1u32 == 1u32) by (bit_vector);
    assert(((((v & !1u32) | 1u32) & !2u32) | 2u32) & 2u32 == 2u32) by (bit_vector);
    reveal_with_fuel(conditions_hold, 16);
}

proof fn lemma_ram_and_tx_conditions(regs: RegFile)
    ensures
        conditions_hold(memory_device(), regs, ram_clear_ops()),
        conditions_hold(memory_device(), regs, tx_load_ops()),
{
    reveal_with_fuel(conditions_hold, 9);
}

proof fn lemma_start_conditions(regs: RegFile)
    ensures
        conditions_hold(memory_device(), regs, start_ops()),
{
    let v = regs(Reg::FdcanCccr);
    assert(((v & !1u32) | 0u32) & 1u32 == 0u32) by (bit_vector);
    reveal_with_fuel(conditions_hold, 15);
}

/// Every wait and check of the FDCAN1 bring-up is met by a device whose
/// registers hold what was last stored in them.
pub proof fn lemma_fdcan_conditions(regs: RegFile)
    ensures
        conditions_hold(memory_device(), regs, fdcan_program()),
{
    let dev = memory_device();
    let a = clock_and_pins_ops();
    let b = core_config_ops(nbtp_500k());
    let c = ram_clear_ops();
    let d = tx_load_ops();
    let e = start_ops();
    lemma_clock_and_pins_conditions(regs);
    lemma_core_config_conditions(apply_program_on(dev, regs, a));
    lemma_conditions_concat(dev, regs, a, b);
    lemma_ram_and_tx_conditions(apply_program_on(dev, regs, a + b));
    lemma_conditions_concat(dev, regs, a + b, c);
    lemma_ram_and_tx_conditions(apply_program_on(dev, regs, a + b + c));
    lemma_conditions_concat(dev, regs, a + b + c, d);
    lemma_start_conditions(apply_program_on(dev, regs, a + b + c + d));
    lemma_conditions_concat(dev, regs, a + b + c + d, e);
}

/// The values that the bring-up records are those of `reported_regs` after
/// all of its stores.
pub proof fn lemma_fdcan_captured(regs: RegFile)
    ensures
        captured_values(memory_device(), regs, fdcan_program()) == reported_regs().map_values(
            |r: Reg| apply_program(regs, fdcan_program())(r),
        ),
{
    let dev = memory_device();
    let a = clock_and_pins_ops();
    let b = core_config_ops(nbtp_500k());
    let c = ram_clear_ops();
    let d = tx_load_ops();
    let head = start_head_ops();
    let tail = report_ops();
    let stores = a + b + c + d + head;
    assert(fdcan_program() =~= stores + tail);
    lemma_captured_none(dev, regs, a);
    lemma_captured_none(dev, apply_program_on(dev, regs, a), b);
    lemma_captured_concat(dev, regs, a, b);
    lemma_captured_none(dev, apply_program_on(dev, regs, a + b), c);
    lemma_captured_concat(dev, regs, a + b, c);
    lemma_captured_none(dev, apply_program_on(dev, regs, a + b + c), d);
    lemma_captured_concat(dev, regs, a + b + c, d);
    lemma_captured_none(dev, apply_program_on(dev, regs, a + b + c + d), head);
    lemma_captured_concat(dev, regs, a + b + c + d, head);
    let mid = apply_program_on(dev, regs, stores);
    lemma_captured_all(dev, mid, reported_regs());
    lemma_apply_on_concat(dev, regs, stores, tail);
    lemma_captured_concat(dev, regs, stores, tail);
    lemma_apply_on_memory(regs, fdcan_program());
    assert(captured_values(dev, regs, stores) =~= Seq::<u32>::empty());
    assert(captured_values(dev, regs, fdcan_program()) =~= reported_regs().map_values(
        |r: Reg| mid(r),
    ));
    assert(apply_program(regs, fdcan_program()) == mid);
}

/// Run by the sequencer against a device whose registers hold what was last
/// stored in them, the FDCAN1 bring-up completes, leaves FDCAN1 configured
/// as `fdcan_configured` states, and reports the final values of the
/// reported registers.
pub proof fn lemma_fdcan_bring_up_on_device(regs: RegFile)
    ensures
        ({
            let (t, after) = drive(
                memory_device(),
                initial_state(),
                fdcan_program(),
                regs,
                program_steps(fdcan_program()),
            );
            &&& next_action(t, fdcan_program()) == Action::Done
            &&& after == apply_program(regs, fdcan_program())
            &&& fdcan_configured(regs, after)
            &&& t.captured == reported_regs().map_values(|r: Reg| after(r))
            &&& loopback_result_from(t.captured) == (FdcanLoopbackResult {
                endn: after(Reg::FdcanEndn),
                cccr: after(Reg::FdcanCccr),
                nbtp: after(Reg::FdcanNbtp),
                test: after(Reg::FdcanTest),
                psr: after(Reg::FdcanPsr),
                ecr: after(Reg::FdcanEcr),
                txbto: after(Reg::FdcanTxbto),
                rxf0s: after(Reg::FdcanRxf0s),
                rx_id: 0,
                rx_dlc: 0,
                rx_data0: 0,
                rx_data1: 0,
                d2ccip1r: after(Reg::RccD2ccip1r),
                apb1henr: after(Reg::RccApb1henr),
            })
        }),
{
    lemma_fdcan_conditions(regs);
    lemma_sequencer_runs_program(memory_device(), fdcan_program(), regs);
    lemma_apply_on_memory(regs, fdcan_program());
    lemma_fdcan_captured(regs);
    lemma_fdcan_program_configures(regs);
}

/// On a device where the kernel-clock selection does not take (the
/// `RCC_D2CCIP1R` read after the read-modify-write shows an FDCANSEL other
/// than PLL1Q), the bring-up run by the sequencer stops at its check with
/// `FdcanselWriteFailed`: after that modify it stores nothing more and
/// records nothing, however many accesses the firmware goes on to offer.
pub proof fn lemma_fdcansel_failure_on_device(dev: Device, regs: RegFile, steps: nat)
    requires
        steps >= 3,
        dev(
            Reg::RccD2ccip1r,
            modified(dev(Reg::RccD2ccip1r, regs(Reg::RccD2ccip1r)), FDCANSEL_FIELD, FDCANSEL_PLL1Q),
        ) & FDCANSEL_FIELD != FDCANSEL_PLL1Q,
    ensures
        ({
            let written = modified(
                dev(Reg::RccD2ccip1r, regs(Reg::RccD2ccip1r)),
                FDCANSEL_FIELD,
                FDCANSEL_PLL1Q,
            );
            let (t, after) = drive(dev, initial_state(), fdcan_program(), regs, steps);
            &&& next_action(t, fdcan_program()) == Action::Fail(SetupError::FdcanselWriteFailed)
            &&& after == store(regs, Reg::RccD2ccip1r, written)
            &&& t.captured == Seq::<u32>::empty()
        }),
{
    let prog = fdcan_program();
    assert(prog[0] == clock_and_pins_ops()[0]);
    assert(prog[1] == clock_and_pins_ops()[1]);
    reveal_with_fuel(drive, 4);
}

/// The FDCAN1 bring-up stores into no shared SRAM4 word and not into
/// `RCC_GCR`.
pub proof fn lemma_fdcan_no_sram4_stores()
    ensures
        forall|i: int, a: u32|
            0 <= i < fdcan_program().len() ==> !(#[trigger] op_stores(fdcan_program()[i], Reg::Sram4(a))),
        forall|i: int|
            0 <= i < fdcan_program().len() ==> !(#[trigger] op_stores(fdcan_program()[i], Reg::RccGcr)),
{
    let a = clock_and_pins_ops();
    let b = core_config_ops(nbtp_500k());
    let c = ram_clear_ops();
    let d = tx_load_ops();
    let e = start_ops();
    let p = fdcan_program();
    assert forall|i: int, reg: Reg|
        0 <= i < p.len() && (reg is Sram4 || reg == Reg::RccGcr) implies !(#[trigger] op_stores(
        p[i],
        reg,
    )) by {
        if i < 16 {
            assert(p[i] == a[i]);
        } else if i < 31 {
            assert(p[i] == b[i - 16]);
        } else if i < 39 {
            assert(p[i] == c[i - 31]);
        } else if i < 45 {
            assert(p[i] == d[i - 39]);
        } else {
            assert(p[i] == e[i - 45]);
            if i - 45 >= 4 {
                assert(e[i - 45] == report_ops()[i - 49]);
            }
        }
    }
    assert forall|i: int, x: u32| 0 <= i < p.len() implies !(#[trigger] op_stores(p[i], Reg::Sram4(x))) by {
        assert(Reg::Sram4(x) is Sram4);
    }
}

/// The register procedure of the FDCAN1 bring-up (`init_normal_500k`).
pub fn init_normal_500k_program() -> (ops: Vec<RegOp>)
    ensures
        ops@ == fdcan_program(),
{
    let timing = NominalBitTiming::can_500k();
    let nbtp: u32 = timing.nbtp();
    assert(nbtp == 0x0209_0C01) by (bit_vector)
        requires
            nbtp == (1u32 << 25u32) | (9u32 << 16u32) | (12u32 << 8u32) | 1u32,
    ;
    let mut ops = clock_and_pins();
    let mut part = core_config(nbtp);
    ops.append(&mut part);
    let mut part = ram_clear();
    ops.append(&mut part);
    let mut part = tx_load();
    ops.append(&mut part);
    let mut part = start();
    ops.append(&mut part);
    ops
}

} // verus!
