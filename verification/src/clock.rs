//! The Cortex-M7 clock tree: direct SMPS supply, voltage scale 1, flash
//! wait states, PLL1 from HSI (64 MHz / 4 = 16 MHz reference, x50), SYSCLK
//! 400 MHz, HCLK 200 MHz, APB clocks 100 MHz, PLL1Q 80 MHz for FDCAN, and
//! SYSCLK / 5 on MCO2 (pin PC9).

use vstd::prelude::*;
use crate::regs::{
    Reg, Barrier, SetupError, RegOp, RegFile, apply_program, value_after, lemma_value_after,
    modified, field, pin_mode, pin_otype, pin_speed, pin_pull, pin_af_high, Device, memory_device,
    apply_program_on, lemma_apply_on_memory, value_after_on, lemma_value_after_on, op_stores,
    lemma_value_after_on_concat,
};
use crate::sequencer::{
    Sequencer, Action, state_wf, next_action, lemma_capture_count_all, conditions_hold, drive,
    initial_state, program_steps, lemma_conditions_concat, lemma_captured_all,
    lemma_sequencer_runs_program,
};
use crate::pac::fdcansel_pll1_q;

verus! {

/// Frequency of the HSI oscillator before its divider, in Hz.
pub const HSI_HZ: u32 = 64_000_000;

/// `PWR_CR3.SCUEN`: supply configuration update enable.
pub const PWR_CR3_SCUEN: u32 = 0x4;

/// `PWR_CSR1.ACTVOSRDY` (bit 13).
pub const PWR_CSR1_ACTVOSRDY: u32 = 0x2000;

/// `PWR_D3CR.VOS` (bits 15:14).
pub const PWR_D3CR_VOS: u32 = 0xC000;

/// `PWR_D3CR.VOSRDY` (bit 13).
pub const PWR_D3CR_VOSRDY: u32 = 0x2000;

/// `FLASH_ACR.LATENCY` and `WRHIGHFREQ` (bits 5:0).
pub const FLASH_ACR_FIELDS: u32 = 0x3F;

/// Four wait states, `WRHIGHFREQ` = 2.
pub const FLASH_ACR_200MHZ: u32 = 0x24;

/// `RCC_D1CFGR.D1CPRE`, `D1PPRE` and `HPRE`.
pub const D1CFGR_FIELDS: u32 = 0xF7F;

/// CPU clock /1, APB3 /2, HCLK /2.
pub const D1CFGR_VALUE: u32 = 0x48;

/// `RCC_D2CFGR.D2PPRE2` and `D2PPRE1`.
pub const D2CFGR_FIELDS: u32 = 0x770;

/// APB2 /2, APB1 /2.
pub const D2CFGR_VALUE: u32 = 0x440;

/// `RCC_D3CFGR.D3PPRE`.
pub const D3CFGR_FIELDS: u32 = 0x70;

/// APB4 /2.
pub const D3CFGR_VALUE: u32 = 0x40;

/// `RCC_CR.PLL1ON` (bit 24).
pub const CR_PLL1ON: u32 = 0x0100_0000;

/// `RCC_CR.PLL1RDY` (bit 25).
pub const CR_PLL1RDY: u32 = 0x0200_0000;

/// `RCC_PLLCKSELR.PLLSRC` and `DIVM1`.
pub const PLLCKSELR_FIELDS: u32 = 0x3F3;

/// Source HSI, DIVM1 = 4.
pub const PLLCKSELR_VALUE: u32 = 0x40;

/// `RCC_PLLCFGR` fields of PLL1: `PLL1FRACEN`, `PLL1VCOSEL`, `PLL1RGE`,
/// `DIVP1EN`, `DIVQ1EN`, `DIVR1EN`.
pub const PLLCFGR_FIELDS: u32 = 0x0007_000F;

/// Integer mode, wide VCO range, 8–16 MHz input, P and Q outputs enabled.
pub const PLLCFGR_VALUE: u32 = 0x0003_000C;

/// `RCC_PLL1DIVR`: DIVN1 = 50, DIVP1 = 2, DIVQ1 = 10, DIVR1 = 2.
pub const PLL1DIVR_VALUE: u32 = 0x0109_0231;

/// `RCC_CFGR.SW` (bits 2:0).
pub const CFGR_SW: u32 = 0x7;

/// `SW` selecting PLL1.
pub const CFGR_SW_PLL1: u32 = 0x3;

/// `RCC_CFGR.SWS` (bits 5:3).
pub const CFGR_SWS: u32 = 0x38;

/// `SWS` reporting PLL1.
pub const CFGR_SWS_PLL1: u32 = 0x18;

/// `RCC_CFGR.MCO2SEL` and `MCO2PRE` (bits 31:25).
pub const CFGR_MCO2_FIELDS: u32 = 0xFE00_0000;

/// MCO2 from SYSCLK, divided by 5.
pub const CFGR_MCO2_SYSCLK_DIV5: u32 = 0x0A00_0000;

/// `RCC_AHB4ENR.GPIOCEN` (bit 2).
pub const GPIOC_ENABLE_BIT: u32 = 0x4;

/// The two-bit fields of pin 9 (`MODER`, `OSPEEDR`, `PUPDR`).
pub const PC9_FIELD: u32 = 0x000C_0000;

/// Alternate-function mode (0b10) for pin 9.
pub const PC9_ALTERNATE: u32 = 0x0008_0000;

/// The bit of pin 9 in `OTYPER`.
pub const PC9_OTYPE: u32 = 0x200;

/// The `AFRH` field of pin 9.
pub const PC9_AF_FIELD: u32 = 0xF0;

/// The registers that the clock report holds.
#[derive(Clone, Copy, Debug, PartialEq, Eq, Structural)]
pub struct ClockDebug {
    pub rcc_cr: u32,
    pub rcc_cfgr: u32,
    pub pllckselr: u32,
    pub pllcfgr: u32,
    pub pll1divr: u32,
    pub d1cfgr: u32,
    pub d2cfgr: u32,
    pub d3cfgr: u32,
    pub pwr_cr3: u32,
    pub pwr_csr1: u32,
    pub pwr_d3cr: u32,
    pub syscfg_pwrcr: u32,
    pub flash_acr: u32,
}

/// The registers of the clock report, in the order of its fields.
pub open spec fn clock_debug_regs() -> Seq<Reg> {
    seq![
        Reg::RccCr,
        Reg::RccCfgr,
        Reg::RccPllckselr,
        Reg::RccPllcfgr,
        Reg::RccPll1divr,
        Reg::RccD1cfgr,
        Reg::RccD2cfgr,
        Reg::RccD3cfgr,
        Reg::PwrCr3,
        Reg::PwrCsr1,
        Reg::PwrD3cr,
        Reg::SyscfgPwrcr,
        Reg::FlashAcr,
    ]
}

/// Reading every register of the clock report.
pub open spec fn debug_registers_ops() -> Seq<RegOp> {
    clock_debug_regs().map_values(|r: Reg| RegOp::Capture { reg: r })
}

/// The clock report from the values read from `clock_debug_regs`, in order.
pub open spec fn clock_debug_from(values: Seq<u32>) -> ClockDebug {
    ClockDebug {
        rcc_cr: values[0],
        rcc_cfgr: values[1],
        pllckselr: values[2],
        pllcfgr: values[3],
        pll1divr: values[4],
        d1cfgr: values[5],
        d2cfgr: values[6],
        d3cfgr: values[7],
        pwr_cr3: values[8],
        pwr_csr1: values[9],
        pwr_d3cr: values[10],
        syscfg_pwrcr: values[11],
        flash_acr: values[12],
    }
}

/// The register procedure that reads the clock report (`debug_registers`).
pub fn debug_registers_program() -> (ops: Vec<RegOp>)
    ensures
        ops@ == debug_registers_ops(),
{
    let ops = vec![
        RegOp::Capture { reg: Reg::RccCr },
        RegOp::Capture { reg: Reg::RccCfgr },
        RegOp::Capture { reg: Reg::RccPllckselr },
        RegOp::Capture { reg: Reg::RccPllcfgr },
        RegOp::Capture { reg: Reg::RccPll1divr },
        RegOp::Capture { reg: Reg::RccD1cfgr },
        RegOp::Capture { reg: Reg::RccD2cfgr },
        RegOp::Capture { reg: Reg::RccD3cfgr },
        RegOp::Capture { reg: Reg::PwrCr3 },
        RegOp::Capture { reg: Reg::PwrCsr1 },
        RegOp::Capture { reg: Reg::PwrD3cr },
        RegOp::Capture { reg: Reg::SyscfgPwrcr },
        RegOp::Capture { reg: Reg::FlashAcr },
    ];
    assert(ops@ =~= debug_registers_ops());
    ops
}

/// The clock report once the sequencer has completed the report procedure.
pub fn debug_registers_result(seq: &Sequencer, prog: &Vec<RegOp>) -> (r: ClockDebug)
    requires
        prog@ == debug_registers_ops(),
        state_wf(seq@, prog@),
        next_action(seq@, prog@) is Done,
    ensures
        r == clock_debug_from(seq@.captured),
{
    proof {
        assert(prog@.take(prog@.len() as int) =~= prog@);
        lemma_capture_count_all(debug_registers_ops());
    }
    let v = seq.captured();
    ClockDebug {
        rcc_cr: v[0],
        rcc_cfgr: v[1],
        pllckselr: v[2],
        pllcfgr: v[3],
        pll1divr: v[4],
        d1cfgr: v[5],
        d2cfgr: v[6],
        d3cfgr: v[7],
        pwr_cr3: v[8],
        pwr_csr1: v[9],
        pwr_d3cr: v[10],
        syscfg_pwrcr: v[11],
        flash_acr: v[12],
    }
}

/// On any device and from any register file, the report procedure run by
/// the sequencer completes without storing anything, and every field of the
/// clock report is, bit for bit, what the device showed for its register.
pub proof fn lemma_clock_report_reads_registers(dev: Device, regs: RegFile)
    ensures
        ({
            let (t, after) = drive(
                dev,
                initial_state(),
                debug_registers_ops(),
                regs,
                program_steps(debug_registers_ops()),
            );
            &&& next_action(t, debug_registers_ops()) == Action::Done
            &&& after == regs
            &&& clock_debug_from(t.captured) == (ClockDebug {
                rcc_cr: dev(Reg::RccCr, regs(Reg::RccCr)),
                rcc_cfgr: dev(Reg::RccCfgr, regs(Reg::RccCfgr)),
                pllckselr: dev(Reg::RccPllckselr, regs(Reg::RccPllckselr)),
                pllcfgr: dev(Reg::RccPllcfgr, regs(Reg::RccPllcfgr)),
                pll1divr: dev(Reg::RccPll1divr, regs(Reg::RccPll1divr)),
                d1cfgr: dev(Reg::RccD1cfgr, regs(Reg::RccD1cfgr)),
                d2cfgr: dev(Reg::RccD2cfgr, regs(Reg::RccD2cfgr)),
                d3cfgr: dev(Reg::RccD3cfgr, regs(Reg::RccD3cfgr)),
                pwr_cr3: dev(Reg::PwrCr3, regs(Reg::PwrCr3)),
                pwr_csr1: dev(Reg::PwrCsr1, regs(Reg::PwrCsr1)),
                pwr_d3cr: dev(Reg::PwrD3cr, regs(Reg::PwrD3cr)),
                syscfg_pwrcr: dev(Reg::SyscfgPwrcr, regs(Reg::SyscfgPwrcr)),
                flash_acr: dev(Reg::FlashAcr, regs(Reg::FlashAcr)),
            })
        }),
{
    lemma_captured_all(dev, regs, clock_debug_regs());
    lemma_sequencer_runs_program(dev, debug_registers_ops(), regs);
    let caps = clock_debug_regs().map_values(|r: Reg| dev(r, regs(r)));
    assert(caps[0] == dev(Reg::RccCr, regs(Reg::RccCr)));
    assert(caps[1] == dev(Reg::RccCfgr, regs(Reg::RccCfgr)));
    assert(caps[2] == dev(Reg::RccPllckselr, regs(Reg::RccPllckselr)));
    assert(caps[3] == dev(Reg::RccPllcfgr, regs(Reg::RccPllcfgr)));
    assert(caps[4] == dev(Reg::RccPll1divr, regs(Reg::RccPll1divr)));
    assert(caps[5] == dev(Reg::RccD1cfgr, regs(Reg::RccD1cfgr)));
    assert(caps[6] == dev(Reg::RccD2cfgr, regs(Reg::RccD2cfgr)));
    assert(caps[7] == dev(Reg::RccD3cfgr, regs(Reg::RccD3cfgr)));
    assert(caps[8] == dev(Reg::PwrCr3, regs(Reg::PwrCr3)));
    assert(caps[9] == dev(Reg::PwrCsr1, regs(Reg::PwrCsr1)));
    assert(caps[10] == dev(Reg::PwrD3cr, regs(Reg::PwrD3cr)));
    assert(caps[11] == dev(Reg::SyscfgPwrcr, regs(Reg::SyscfgPwrcr)));
    assert(caps[12] == dev(Reg::FlashAcr, regs(Reg::FlashAcr)));
}

/// Supply, voltage scale, flash wait states and bus prescalers.
pub open spec fn supply_and_bus_ops() -> Seq<RegOp> {
    seq![
        RegOp::Write { reg: Reg::PwrCr3, value: PWR_CR3_SCUEN },
        RegOp::Write { reg: Reg::PwrCr3, value: 0 },
        RegOp::WaitUntil {
            reg: Reg::PwrCsr1,
            mask: PWR_CSR1_ACTVOSRDY,
            expected: PWR_CSR1_ACTVOSRDY,
            error: SetupError::ActvosrdyTimeout,
        },
        RegOp::Modify { reg: Reg::PwrD3cr, clear: PWR_D3CR_VOS, set: PWR_D3CR_VOS },
        RegOp::WaitUntil {
            reg: Reg::PwrD3cr,
            mask: PWR_D3CR_VOSRDY,
            expected: PWR_D3CR_VOSRDY,
            error: SetupError::Vos1Timeout,
        },
        RegOp::Modify { reg: Reg::FlashAcr, clear: FLASH_ACR_FIELDS, set: FLASH_ACR_200MHZ },
        RegOp::Modify { reg: Reg::RccD1cfgr, clear: D1CFGR_FIELDS, set: D1CFGR_VALUE },
        RegOp::Modify { reg: Reg::RccD2cfgr, clear: D2CFGR_FIELDS, set: D2CFGR_VALUE },
        RegOp::Modify { reg: Reg::RccD3cfgr, clear: D3CFGR_FIELDS, set: D3CFGR_VALUE },
    ]
}

/// PLL1 off, reprogrammed, on, and selected as SYSCLK.
pub open spec fn pll_ops() -> Seq<RegOp> {
    seq![
        RegOp::Modify { reg: Reg::RccCr, clear: CR_PLL1ON, set: 0 },
        RegOp::WaitUntil {
            reg: Reg::RccCr,
            mask: CR_PLL1RDY,
            expected: 0,
            error: SetupError::Pll1DisableTimeout,
        },
        RegOp::Modify { reg: Reg::RccPllckselr, clear: PLLCKSELR_FIELDS, set: PLLCKSELR_VALUE },
        RegOp::Modify { reg: Reg::RccPllcfgr, clear: PLLCFGR_FIELDS, set: PLLCFGR_VALUE },
        RegOp::Write { reg: Reg::RccPll1divr, value: PLL1DIVR_VALUE },
        RegOp::Modify {
            reg: Reg::RccD2ccip1r,
            clear: crate::fdcan::FDCANSEL_FIELD,
            set: crate::fdcan::FDCANSEL_PLL1Q,
        },
        RegOp::Write { reg: Reg::RccPll1fracr, value: 0 },
        RegOp::Modify { reg: Reg::RccCr, clear: CR_PLL1ON, set: CR_PLL1ON },
        RegOp::WaitUntil {
            reg: Reg::RccCr,
            mask: CR_PLL1RDY,
            expected: CR_PLL1RDY,
            error: SetupError::Pll1LockTimeout,
        },
        RegOp::Modify { reg: Reg::RccCfgr, clear: CFGR_SW, set: CFGR_SW_PLL1 },
        RegOp::WaitUntil {
            reg: Reg::RccCfgr,
            mask: CFGR_SWS,
            expected: CFGR_SWS_PLL1,
            error: SetupError::SysclkSwitchTimeout,
        },
        RegOp::Fence { barrier: Barrier::Dsb },
        RegOp::Fence { barrier: Barrier::Isb },
    ]
}

/// The whole clock configuration.
pub open spec fn clock_program() -> Seq<RegOp> {
    supply_and_bus_ops() + pll_ops()
}

/// The register procedure of the clock configuration (`configure_400mhz`).
pub fn configure_400mhz_program() -> (ops: Vec<RegOp>)
    ensures
        ops@ == clock_program(),
{
    let sel: u32 = fdcansel_pll1_q() as u32;
    let sel_bits: u32 = sel << crate::fdcan::FDCANSEL_SHIFT;
    assert(sel_bits == crate::fdcan::FDCANSEL_PLL1Q) by (bit_vector)
        requires
            sel == 1,
            sel_bits == sel << 28u32,
    ;
    let mut ops = vec![
        RegOp::Write { reg: Reg::PwrCr3, value: PWR_CR3_SCUEN },
        RegOp::Write { reg: Reg::PwrCr3, value: 0 },
        RegOp::WaitUntil {
            reg: Reg::PwrCsr1,
            mask: PWR_CSR1_ACTVOSRDY,
            expected: PWR_CSR1_ACTVOSRDY,
            error: SetupError::ActvosrdyTimeout,
        },
        RegOp::Modify { reg: Reg::PwrD3cr, clear: PWR_D3CR_VOS, set: PWR_D3CR_VOS },
        RegOp::WaitUntil {
            reg: Reg::PwrD3cr,
            mask: PWR_D3CR_VOSRDY,
            expected: PWR_D3CR_VOSRDY,
            error: SetupError::Vos1Timeout,
        },
        RegOp::Modify { reg: Reg::FlashAcr, clear: FLASH_ACR_FIELDS, set: FLASH_ACR_200MHZ },
        RegOp::Modify { reg: Reg::RccD1cfgr, clear: D1CFGR_FIELDS, set: D1CFGR_VALUE },
        RegOp::Modify { reg: Reg::RccD2cfgr, clear: D2CFGR_FIELDS, set: D2CFGR_VALUE },
        RegOp::Modify { reg: Reg::RccD3cfgr, clear: D3CFGR_FIELDS, set: D3CFGR_VALUE },
    ];
    let mut pll = vec![
        RegOp::Modify { reg: Reg::RccCr, clear: CR_PLL1ON, set: 0 },
        RegOp::WaitUntil {
            reg: Reg::RccCr,
            mask: CR_PLL1RDY,
            expected: 0,
            error: SetupError::Pll1DisableTimeout,
        },
        RegOp::Modify { reg: Reg::RccPllckselr, clear: PLLCKSELR_FIELDS, set: PLLCKSELR_VALUE },
        RegOp::Modify { reg: Reg::RccPllcfgr, clear: PLLCFGR_FIELDS, set: PLLCFGR_VALUE },
        RegOp::Write { reg: Reg::RccPll1divr, value: PLL1DIVR_VALUE },
        RegOp::Modify {
            reg: Reg::RccD2ccip1r,
            clear: crate::fdcan::FDCANSEL_FIELD,
            set: sel_bits,
        },
        RegOp::Write { reg: Reg::RccPll1fracr, value: 0 },
        RegOp::Modify { reg: Reg::RccCr, clear: CR_PLL1ON, set: CR_PLL1ON },
        RegOp::WaitUntil {
            reg: Reg::RccCr,
            mask: CR_PLL1RDY,
            expected: CR_PLL1RDY,
            error: SetupError::Pll1LockTimeout,
        },
        RegOp::Modify { reg: Reg::RccCfgr, clear: CFGR_SW, set: CFGR_SW_PLL1 },
        RegOp::WaitUntil {
            reg: Reg::RccCfgr,
            mask: CFGR_SWS,
            expected: CFGR_SWS_PLL1,
            error: SetupError::SysclkSwitchTimeout,
        },
        RegOp::Fence { barrier: Barrier::Dsb },
        RegOp::Fence { barrier: Barrier::Isb },
    ];
    assert(ops@ =~= supply_and_bus_ops());
    assert(pll@ =~= pll_ops());
    ops.append(&mut pll);
    ops
}

/// Pin PC9 as MCO2 and MCO2 = SYSCLK / 5.
pub open spec fn mco2_ops() -> Seq<RegOp> {
    seq![
        RegOp::Modify { reg: Reg::RccAhb4enr, clear: GPIOC_ENABLE_BIT, set: GPIOC_ENABLE_BIT },
        RegOp::Touch { reg: Reg::RccAhb4enr },
        RegOp::Modify { reg: Reg::GpiocModer, clear: PC9_FIELD, set: PC9_ALTERNATE },
        RegOp::Modify { reg: Reg::GpiocOtyper, clear: PC9_OTYPE, set: 0 },
        RegOp::Modify { reg: Reg::GpiocOspeedr, clear: PC9_FIELD, set: PC9_FIELD },
        RegOp::Modify { reg: Reg::GpiocPupdr, clear: PC9_FIELD, set: 0 },
        RegOp::Modify { reg: Reg::GpiocAfrh, clear: PC9_AF_FIELD, set: 0 },
        RegOp::Modify { reg: Reg::RccCfgr, clear: CFGR_MCO2_FIELDS, set: CFGR_MCO2_SYSCLK_DIV5 },
    ]
}

/// The register procedure that puts SYSCLK / 5 on pin PC9 (`enable_mco2_pc9`).
pub fn enable_mco2_pc9_program() -> (ops: Vec<RegOp>)
    ensures
        ops@ == mco2_ops(),
{
    let ops = vec![
        RegOp::Modify { reg: Reg::RccAhb4enr, clear: GPIOC_ENABLE_BIT, set: GPIOC_ENABLE_BIT },
        RegOp::Touch { reg: Reg::RccAhb4enr },
        RegOp::Modify { reg: Reg::GpiocModer, clear: PC9_FIELD, set: PC9_ALTERNATE },
        RegOp::Modify { reg: Reg::GpiocOtyper, clear: PC9_OTYPE, set: 0 },
        RegOp::Modify { reg: Reg::GpiocOspeedr, clear: PC9_FIELD, set: PC9_FIELD },
        RegOp::Modify { reg: Reg::GpiocPupdr, clear: PC9_FIELD, set: 0 },
        RegOp::Modify { reg: Reg::GpiocAfrh, clear: PC9_AF_FIELD, set: 0 },
        RegOp::Modify { reg: Reg::RccCfgr, clear: CFGR_MCO2_FIELDS, set: CFGR_MCO2_SYSCLK_DIV5 },
    ];
    assert(ops@ =~= mco2_ops());
    ops
}

/// The divider of an AHB-side prescaler code (`D1CPRE`, `HPRE`).
pub open spec fn ahb_divider(code: u32) -> nat {
    if code < 8 {
        1
    } else if code == 8 {
        2
    } else if code == 9 {
        4
    } else if code == 10 {
        8
    } else if code == 11 {
        16
    } else if code == 12 {
        64
    } else if code == 13 {
        128
    } else if code == 14 {
        256
    } else {
        512
    }
}

/// The divider of an APB prescaler code (`D1PPRE`, `D2PPRE1`, `D2PPRE2`, `D3PPRE`).
pub open spec fn apb_divider(code: u32) -> nat {
    if code < 4 {
        1
    } else if code == 4 {
        2
    } else if code == 5 {
        4
    } else if code == 6 {
        8
    } else {
        16
    }
}

/// The divider of the HSI oscillator (`RCC_CR.HSIDIV`, bits 4:3).
pub open spec fn hsi_divider(code: u32) -> nat {
    if code == 0 {
        1
    } else if code == 1 {
        2
    } else if code == 2 {
        4
    } else {
        8
    }
}

/// HSI frequency after its divider.
pub open spec fn hsi_hz(regs: RegFile) -> nat {
    HSI_HZ as nat / hsi_divider(field(regs(Reg::RccCr), 3, 3))
}

/// PLL1 reference frequency: HSI / DIVM1 when HSI feeds the PLLs; sources
/// other than HSI are outside this model and give 0.
pub open spec fn pll1_ref_hz(regs: RegFile) -> nat {
    let m = field(regs(Reg::RccPllckselr), 4, 0x3F);
    if field(regs(Reg::RccPllckselr), 0, 3) == 0 && m != 0 {
        hsi_hz(regs) / (m as nat)
    } else {
        0
    }
}

/// PLL1 VCO frequency: reference x (DIVN1 + 1), plus FRACN1 / 8192 of the
/// reference in fractional mode.
pub open spec fn pll1_vco_hz(regs: RegFile) -> nat {
    let n = field(regs(Reg::RccPll1divr), 0, 0x1FF) as nat + 1;
    if field(regs(Reg::RccPllcfgr), 0, 1) == 0 {
        pll1_ref_hz(regs) * n
    } else {
        pll1_ref_hz(regs) * n + pll1_ref_hz(regs) * (field(regs(Reg::RccPll1fracr), 3, 0x1FFF) as nat)
            / 8192
    }
}

/// PLL1 P output: VCO / (DIVP1 + 1) when enabled.
pub open spec fn pll1_p_hz(regs: RegFile) -> nat {
    if field(regs(Reg::RccPllcfgr), 16, 1) == 1 {
        pll1_vco_hz(regs) / (field(regs(Reg::RccPll1divr), 9, 0x7F) as nat + 1)
    } else {
        0
    }
}

/// PLL1 Q output: VCO / (DIVQ1 + 1) when enabled.
pub open spec fn pll1_q_hz(regs: RegFile) -> nat {
    if field(regs(Reg::RccPllcfgr), 17, 1) == 1 {
        pll1_vco_hz(regs) / (field(regs(Reg::RccPll1divr), 16, 0x7F) as nat + 1)
    } else {
        0
    }
}

/// SYSCLK as `RCC_CFGR.SW` selects it: HSI or PLL1 P; the other sources are
/// outside this model and give 0.
pub open spec fn sysclk_hz(regs: RegFile) -> nat {
    let sw = field(regs(Reg::RccCfgr), 0, 7);
    if sw == 0 {
        hsi_hz(regs)
    } else if sw == 3 {
        pll1_p_hz(regs)
    } else {
        0
    }
}

/// The Cortex-M7 clock: SYSCLK / D1CPRE.
pub open spec fn cpu_hz(regs: RegFile) -> nat {
    sysclk_hz(regs) / ahb_divider(field(regs(Reg::RccD1cfgr), 8, 0xF))
}

/// HCLK: the CPU clock / HPRE.
pub open spec fn hclk_hz(regs: RegFile) -> nat {
    cpu_hz(regs) / ahb_divider(field(regs(Reg::RccD1cfgr), 0, 0xF))
}

/// APB3: HCLK / D1PPRE.
pub open spec fn apb3_hz(regs: RegFile) -> nat {
    hclk_hz(regs) / apb_divider(field(regs(Reg::RccD1cfgr), 4, 7))
}

/// APB1: HCLK / D2PPRE1.
pub open spec fn apb1_hz(regs: RegFile) -> nat {
    hclk_hz(regs) / apb_divider(field(regs(Reg::RccD2cfgr), 4, 7))
}

/// APB2: HCLK / D2PPRE2.
pub open spec fn apb2_hz(regs: RegFile) -> nat {
    hclk_hz(regs) / apb_divider(field(regs(Reg::RccD2cfgr), 8, 7))
}

/// APB4: HCLK / D3PPRE.
pub open spec fn apb4_hz(regs: RegFile) -> nat {
    hclk_hz(regs) / apb_divider(field(regs(Reg::RccD3cfgr), 4, 7))
}

/// The FDCAN kernel clock as `RCC_D2CCIP1R.FDCANSEL` selects it: PLL1 Q;
/// the other sources are outside this model and give 0.
pub open spec fn fdcan_kernel_hz(regs: RegFile) -> nat {
    if field(regs(Reg::RccD2ccip1r), crate::fdcan::FDCANSEL_SHIFT, 3) == 1 {
        pll1_q_hz(regs)
    } else {
        0
    }
}

/// The MCO2 output: SYSCLK / MCO2PRE when `MCO2SEL` selects SYSCLK; the
/// other sources are outside this model and give 0.
pub open spec fn mco2_hz(regs: RegFile) -> nat {
    let pre = field(regs(Reg::RccCfgr), 25, 0xF);
    if field(regs(Reg::RccCfgr), 29, 7) == 0 && pre != 0 {
        sysclk_hz(regs) / (pre as nat)
    } else {
        0
    }
}

/// Whether the clock tree of `after` runs at the frequencies of the board
/// configuration, with the supply and flash set up for them.
pub open spec fn clocks_at_400mhz(after: RegFile) -> bool {
    &&& pll1_ref_hz(after) == 16_000_000
    &&& pll1_vco_hz(after) == 800_000_000
    &&& sysclk_hz(after) == 400_000_000
    &&& cpu_hz(after) == 400_000_000
    &&& hclk_hz(after) == 200_000_000
    &&& apb1_hz(after) == 100_000_000
    &&& apb2_hz(after) == 100_000_000
    &&& apb3_hz(after) == 100_000_000
    &&& apb4_hz(after) == 100_000_000
    &&& pll1_q_hz(after) == 80_000_000
    &&& fdcan_kernel_hz(after) == 80_000_000
    // PLL1 input range 8-16 MHz, wide VCO range
    &&& field(after(Reg::RccPllcfgr), 2, 3) == 3
    &&& field(after(Reg::RccPllcfgr), 1, 1) == 0
    // PLL1 on
    &&& after(Reg::RccCr) & CR_PLL1ON == CR_PLL1ON
    // direct SMPS supply, voltage scale 1
    &&& after(Reg::PwrCr3) == 0
    &&& field(after(Reg::PwrD3cr), 14, 3) == 3
    // four flash wait states, WRHIGHFREQ 2
    &&& field(after(Reg::FlashAcr), 0, 0xF) == 4
    &&& field(after(Reg::FlashAcr), 4, 3) == 2
}

/// The registers that the supply and bus steps store into.
pub open spec fn stored_by_supply_and_bus(reg: Reg) -> bool {
    ||| reg == Reg::PwrCr3
    ||| reg == Reg::PwrD3cr
    ||| reg == Reg::FlashAcr
    ||| reg == Reg::RccD1cfgr
    ||| reg == Reg::RccD2cfgr
    ||| reg == Reg::RccD3cfgr
}

/// The registers that the PLL steps store into.
pub open spec fn stored_by_pll(reg: Reg) -> bool {
    ||| reg == Reg::RccCr
    ||| reg == Reg::RccPllckselr
    ||| reg == Reg::RccPllcfgr
    ||| reg == Reg::RccPll1divr
    ||| reg == Reg::RccD2ccip1r
    ||| reg == Reg::RccPll1fracr
    ||| reg == Reg::RccCfgr
}

proof fn lemma_supply_untouched(dev: Device, reg: Reg, v: u32)
    requires
        !stored_by_supply_and_bus(reg),
    ensures
        value_after_on(dev, supply_and_bus_ops(), reg, v) == v,
{
    reveal_with_fuel(value_after_on, 10);
}

proof fn lemma_pll_untouched(dev: Device, reg: Reg, v: u32)
    requires
        !stored_by_pll(reg),
    ensures
        value_after_on(dev, pll_ops(), reg, v) == v,
{
    reveal_with_fuel(value_after_on, 14);
}

/// What the clock procedure stores on a device, register by register: each
/// modify builds on the value it read from the device.
proof fn lemma_clock_regs_on(dev: Device, regs: RegFile)
    ensures
        ({
            let after = apply_program_on(dev, regs, clock_program());
            &&& after(Reg::PwrCr3) == 0
            &&& after(Reg::PwrD3cr) == modified(
                dev(Reg::PwrD3cr, regs(Reg::PwrD3cr)),
                PWR_D3CR_VOS,
                PWR_D3CR_VOS,
            )
            &&& after(Reg::FlashAcr) == modified(
                dev(Reg::FlashAcr, regs(Reg::FlashAcr)),
                FLASH_ACR_FIELDS,
                FLASH_ACR_200MHZ,
            )
            &&& after(Reg::RccD1cfgr) == modified(
                dev(Reg::RccD1cfgr, regs(Reg::RccD1cfgr)),
                D1CFGR_FIELDS,
                D1CFGR_VALUE,
            )
            &&& after(Reg::RccD2cfgr) == modified(
                dev(Reg::RccD2cfgr, regs(Reg::RccD2cfgr)),
                D2CFGR_FIELDS,
                D2CFGR_VALUE,
            )
            &&& after(Reg::RccD3cfgr) == modified(
                dev(Reg::RccD3cfgr, regs(Reg::RccD3cfgr)),
                D3CFGR_FIELDS,
                D3CFGR_VALUE,
            )
            &&& after(Reg::RccCr) == modified(
                dev(Reg::RccCr, modified(dev(Reg::RccCr, regs(Reg::RccCr)), CR_PLL1ON, 0)),
                CR_PLL1ON,
                CR_PLL1ON,
            )
            &&& after(Reg::RccPllckselr) == modified(
                dev(Reg::RccPllckselr, regs(Reg::RccPllckselr)),
                PLLCKSELR_FIELDS,
                PLLCKSELR_VALUE,
            )
            &&& after(Reg::RccPllcfgr) == modified(
                dev(Reg::RccPllcfgr, regs(Reg::RccPllcfgr)),
                PLLCFGR_FIELDS,
                PLLCFGR_VALUE,
            )
            &&& after(Reg::RccPll1divr) == PLL1DIVR_VALUE
            &&& after(Reg::RccD2ccip1r) == modified(
                dev(Reg::RccD2ccip1r, regs(Reg::RccD2ccip1r)),
                crate::fdcan::FDCANSEL_FIELD,
                crate::fdcan::FDCANSEL_PLL1Q,
            )
            &&& after(Reg::RccPll1fracr) == 0
            &&& after(Reg::RccCfgr) == modified(
                dev(Reg::RccCfgr, regs(Reg::RccCfgr)),
                CFGR_SW,
                CFGR_SW_PLL1,
            )
        }),
{
    let supply = seq![
        Reg::PwrCr3,
        Reg::PwrD3cr,
        Reg::FlashAcr,
        Reg::RccD1cfgr,
        Reg::RccD2cfgr,
        Reg::RccD3cfgr,
    ];
    let pll = seq![
        Reg::RccCr,
        Reg::RccPllckselr,
        Reg::RccPllcfgr,
        Reg::RccPll1divr,
        Reg::RccD2ccip1r,
        Reg::RccPll1fracr,
        Reg::RccCfgr,
    ];
    let after = apply_program_on(dev, regs, clock_program());
    assert forall|k: int| 0 <= k < 6 implies after(#[trigger] supply[k]) == value_after_on(
        dev,
        supply_and_bus_ops(),
        supply[k],
        regs(supply[k]),
    ) by {
        let reg = supply[k];
        lemma_value_after_on(dev, regs, clock_program(), reg);
        lemma_value_after_on_concat(dev, supply_and_bus_ops(), pll_ops(), reg, regs(reg));
        lemma_pll_untouched(dev, reg, value_after_on(dev, supply_and_bus_ops(), reg, regs(reg)));
    }
    assert forall|k: int| 0 <= k < 7 implies after(#[trigger] pll[k]) == value_after_on(
        dev,
        pll_ops(),
        pll[k],
        regs(pll[k]),
    ) by {
        let reg = pll[k];
        lemma_value_after_on(dev, regs, clock_program(), reg);
        lemma_value_after_on_concat(dev, supply_and_bus_ops(), pll_ops(), reg, regs(reg));
        lemma_supply_untouched(dev, reg, regs(reg));
    }
    assert(supply[0] == Reg::PwrCr3 && supply[1] == Reg::PwrD3cr && supply[2] == Reg::FlashAcr
        && supply[3] == Reg::RccD1cfgr && supply[4] == Reg::RccD2cfgr && supply[5] == Reg::RccD3cfgr);
    assert(pll[0] == Reg::RccCr && pll[1] == Reg::RccPllckselr && pll[2] == Reg::RccPllcfgr
        && pll[3] == Reg::RccPll1divr && pll[4] == Reg::RccD2ccip1r && pll[5] == Reg::RccPll1fracr
        && pll[6] == Reg::RccCfgr);
    reveal_with_fuel(value_after_on, 14);
}

/// Whether the registers that the clock procedure owns hold its values: the
/// supply, voltage scale, flash, prescaler and PLL1 fields, PLL1 on, PLL1Q
/// as the FDCAN kernel clock, and PLL1 as the system clock.
pub open spec fn clock_fields_configured(after: RegFile) -> bool {
    &&& after(Reg::PwrCr3) == 0
    &&& after(Reg::PwrD3cr) & PWR_D3CR_VOS == PWR_D3CR_VOS
    &&& after(Reg::FlashAcr) & FLASH_ACR_FIELDS == FLASH_ACR_200MHZ
    &&& after(Reg::RccD1cfgr) & D1CFGR_FIELDS == D1CFGR_VALUE
    &&& after(Reg::RccD2cfgr) & D2CFGR_FIELDS == D2CFGR_VALUE
    &&& after(Reg::RccD3cfgr) & D3CFGR_FIELDS == D3CFGR_VALUE
    &&& after(Reg::RccCr) & CR_PLL1ON == CR_PLL1ON
    &&& after(Reg::RccPllckselr) & PLLCKSELR_FIELDS == PLLCKSELR_VALUE
    &&& after(Reg::RccPllcfgr) & PLLCFGR_FIELDS == PLLCFGR_VALUE
    &&& after(Reg::RccPll1divr) == PLL1DIVR_VALUE
    &&& after(Reg::RccPll1fracr) == 0
    &&& after(Reg::RccD2ccip1r) & crate::fdcan::FDCANSEL_FIELD == crate::fdcan::FDCANSEL_PLL1Q
    &&& after(Reg::RccCfgr) & CFGR_SW == CFGR_SW_PLL1
}

/// Whatever a device shows on reads, the clock procedure leaves the fields
/// it owns at its values.
pub proof fn lemma_clock_program_fields(dev: Device, regs: RegFile)
    ensures
        clock_fields_configured(apply_program_on(dev, regs, clock_program())),
{
    lemma_clock_regs_on(dev, regs);
    assert(forall|x: u32, c: u32, t: u32| #![auto] t & !c == 0 ==> ((x & !c) | t) & c == t)
        by (bit_vector);
    assert(0xC000u32 & !0xC000u32 == 0 && 0x24u32 & !0x3Fu32 == 0 && 0x48u32 & !0xF7Fu32 == 0
        && 0x440u32 & !0x770u32 == 0 && 0x40u32 & !0x70u32 == 0 && 0x0100_0000u32 & !0x0100_0000u32
        == 0 && 0x40u32 & !0x3F3u32 == 0 && 0x0003_000Cu32 & !0x0007_000Fu32 == 0 && 0x1000_0000u32
        & !0x3000_0000u32 == 0 && 3u32 & !7u32 == 0) by (bit_vector);
}

/// The clock tree of a register file whose clock fields are configured and
/// whose HSI divider is /1.
proof fn lemma_clocks_from_fields(after: RegFile)
    requires
        clock_fields_configured(after),
        field(after(Reg::RccCr), 3, 3) == 0,
    ensures
        clocks_at_400mhz(after),
{
    let cksel = after(Reg::RccPllckselr);
    let pcfg = after(Reg::RccPllcfgr);
    let cfgr = after(Reg::RccCfgr);
    let d1 = after(Reg::RccD1cfgr);
    let d2 = after(Reg::RccD2cfgr);
    let d3 = after(Reg::RccD3cfgr);
    let d3cr = after(Reg::PwrD3cr);
    let acr = after(Reg::FlashAcr);
    let sel = after(Reg::RccD2ccip1r);
    let divr = after(Reg::RccPll1divr);
    assert({
        &&& (cksel >> 0u32) & 3u32 == 0 && (cksel >> 4u32) & 0x3Fu32 == 4
        &&& (pcfg >> 0u32) & 1u32 == 0 && (pcfg >> 1u32) & 1u32 == 0 && (pcfg >> 2u32) & 3u32 == 3
        &&& (pcfg >> 16u32) & 1u32 == 1 && (pcfg >> 17u32) & 1u32 == 1
        &&& (divr >> 0u32) & 0x1FFu32 == 49 && (divr >> 9u32) & 0x7Fu32 == 1 && (divr >> 16u32)
            & 0x7Fu32 == 9
        &&& (cfgr >> 0u32) & 7u32 == 3
        &&& (d1 >> 8u32) & 0xFu32 == 0 && (d1 >> 0u32) & 0xFu32 == 8 && (d1 >> 4u32) & 7u32 == 4
        &&& (d2 >> 4u32) & 7u32 == 4 && (d2 >> 8u32) & 7u32 == 4
        &&& (d3 >> 4u32) & 7u32 == 4
        &&& (d3cr >> 14u32) & 3u32 == 3
        &&& (acr >> 0u32) & 0xFu32 == 4 && (acr >> 4u32) & 3u32 == 2
        &&& (sel >> 28u32) & 3u32 == 1
    }) by (bit_vector)
        requires
            cksel & 0x3F3u32 == 0x40u32,
            pcfg & 0x0007_000Fu32 == 0x0003_000Cu32,
            divr == 0x0109_0231u32,
            cfgr & 7u32 == 3u32,
            d1 & 0xF7Fu32 == 0x48u32,
            d2 & 0x770u32 == 0x440u32,
            d3 & 0x70u32 == 0x40u32,
            d3cr & 0xC000u32 == 0xC000u32,
            acr & 0x3Fu32 == 0x24u32,
            sel & 0x3000_0000u32 == 0x1000_0000u32,
    ;
    assert(hsi_hz(after) == 64_000_000);
    assert(field(cksel, 4, 0x3F) == 4 && field(cksel, 0, 3) == 0);
    assert(64_000_000nat / 4nat == 16_000_000nat);
    assert(pll1_ref_hz(after) == 16_000_000);
    assert(pll1_vco_hz(after) == 800_000_000);
    assert(field(after(Reg::RccPll1divr), 9, 0x7F) as nat + 1 == 2);
    assert(field(after(Reg::RccPll1divr), 16, 0x7F) as nat + 1 == 10);
    assert(800_000_000nat / 2nat == 400_000_000nat);
    assert(800_000_000nat / 10nat == 80_000_000nat);
    assert(pll1_p_hz(after) == 400_000_000);
    assert(pll1_q_hz(after) == 80_000_000);
    assert(sysclk_hz(after) == 400_000_000);
    assert(ahb_divider(field(after(Reg::RccD1cfgr), 8, 0xF)) == 1);
    assert(ahb_divider(field(after(Reg::RccD1cfgr), 0, 0xF)) == 2);
    assert(400_000_000nat / 1nat == 400_000_000nat);
    assert(400_000_000nat / 2nat == 200_000_000nat);
    assert(200_000_000nat / 2nat == 100_000_000nat);
    assert(cpu_hz(after) == 400_000_000);
    assert(hclk_hz(after) == 200_000_000);
}

/// The clock configuration, run on any register file whose HSI divider is
/// at its reset value (/1), gives SYSCLK 400 MHz, CPU 400 MHz, HCLK
/// 200 MHz, every APB clock 100 MHz and PLL1Q (the FDCAN kernel clock)
/// 80 MHz.
pub proof fn lemma_clock_program_frequencies(regs: RegFile)
    requires
        field(regs(Reg::RccCr), 3, 3) == 0,
    ensures
        clocks_at_400mhz(apply_program(regs, clock_program())),
{
    let after = apply_program(regs, clock_program());
    lemma_apply_on_memory(regs, clock_program());
    lemma_clock_program_fields(memory_device(), regs);
    lemma_clock_regs_on(memory_device(), regs);
    let cr = regs(Reg::RccCr);
    assert((((((cr & !0x0100_0000u32) | 0u32) & !0x0100_0000u32) | 0x0100_0000u32) >> 3u32) & 3u32
        == (cr >> 3u32) & 3u32) by (bit_vector);
    lemma_clocks_from_fields(after);
}

/// A device on which the flags that the clock procedure waits for follow
/// their controls, as on the silicon: `PWR_CSR1.ACTVOSRDY` and
/// `PWR_D3CR.VOSRDY` read as set, `RCC_CR.PLL1RDY` reads as `PLL1ON`, and
/// `RCC_CFGR.SWS` reads as `SW`.
pub open spec fn clock_flags_device() -> Device {
    |reg: Reg, held: u32|
        if reg == Reg::PwrCsr1 {
            held | PWR_CSR1_ACTVOSRDY
        } else if reg == Reg::PwrD3cr {
            held | PWR_D3CR_VOSRDY
        } else if reg == Reg::RccCr {
            (held & !CR_PLL1RDY) | ((held & CR_PLL1ON) << 1u32)
        } else if reg == Reg::RccCfgr {
            (held & !CFGR_SWS) | ((held & CFGR_SW) << 3u32)
        } else {
            held
        }
}

proof fn lemma_clock_flags_conditions(regs: RegFile)
    ensures
        conditions_hold(clock_flags_device(), regs, clock_program()),
{
    let dev = clock_flags_device();
    let c1 = regs(Reg::PwrCsr1);
    let d = regs(Reg::PwrD3cr);
    assert((c1 | 0x2000u32) & 0x2000u32 == 0x2000u32 && ((((d | 0x2000u32) & !0xC000u32)
        | 0xC000u32) | 0x2000u32) & 0x2000u32 == 0x2000u32) by (bit_vector);
    reveal_with_fuel(conditions_hold, 10);
    assert(conditions_hold(dev, regs, supply_and_bus_ops()));
    let mid = apply_program_on(dev, regs, supply_and_bus_ops());
    let cr = mid(Reg::RccCr);
    let cfgr = mid(Reg::RccCfgr);
    assert({
        let r1 = (cr & !0x0200_0000u32) | ((cr & 0x0100_0000u32) << 1u32);
        let off = (r1 & !0x0100_0000u32) | 0u32;
        let r2 = (off & !0x0200_0000u32) | ((off & 0x0100_0000u32) << 1u32);
        let on = (r2 & !0x0100_0000u32) | 0x0100_0000u32;
        let r3 = (on & !0x0200_0000u32) | ((on & 0x0100_0000u32) << 1u32);
        let g = (cfgr & !0x38u32) | ((cfgr & 7u32) << 3u32);
        let sw = (g & !7u32) | 3u32;
        &&& r2 & 0x0200_0000u32 == 0
        &&& r3 & 0x0200_0000u32 == 0x0200_0000u32
        &&& ((sw & !0x38u32) | ((sw & 7u32) << 3u32)) & 0x38u32 == 0x18u32
    }) by (bit_vector);
    reveal_with_fuel(conditions_hold, 14);
    assert(conditions_hold(dev, mid, pll_ops()));
    lemma_conditions_concat(dev, regs, supply_and_bus_ops(), pll_ops());
}

/// Whether a clock report shows the configured clock tree: PLL1 locked and
/// reported as the system clock, and the supply, flash, prescaler and PLL1
/// fields at the values of the clock procedure.
pub open spec fn report_shows_400mhz(r: ClockDebug) -> bool {
    &&& (r.rcc_cfgr >> 3u32) & 7u32 == 3
    &&& r.rcc_cr & CR_PLL1RDY != 0
    &&& r.pll1divr == PLL1DIVR_VALUE
    &&& r.pllckselr & PLLCKSELR_FIELDS == PLLCKSELR_VALUE
    &&& r.pllcfgr & PLLCFGR_FIELDS == PLLCFGR_VALUE
    &&& r.d1cfgr & D1CFGR_FIELDS == D1CFGR_VALUE
    &&& r.d2cfgr & D2CFGR_FIELDS == D2CFGR_VALUE
    &&& r.d3cfgr & D3CFGR_FIELDS == D3CFGR_VALUE
    &&& r.flash_acr & FLASH_ACR_FIELDS == FLASH_ACR_200MHZ
    &&& (r.pwr_d3cr >> 14u32) & 3u32 == 3
}

/// On hardware whose flags follow their controls, the clock configuration
/// run by the sequencer completes, leaves the clock tree at 400/200/100/80
/// MHz when the HSI divider was /1, and a clock report read afterwards shows
/// PLL1 locked and selected with every configured field in place.
pub proof fn lemma_clock_bring_up_on_device(regs: RegFile)
    requires
        field(regs(Reg::RccCr), 3, 3) == 0,
    ensures
        ({
            let dev = clock_flags_device();
            let (t, after) = drive(dev, initial_state(), clock_program(), regs, program_steps(clock_program()));
            let (u, _) = drive(dev, initial_state(), debug_registers_ops(), after, program_steps(debug_registers_ops()));
            &&& next_action(t, clock_program()) == Action::Done
            &&& clock_fields_configured(after)
            &&& clocks_at_400mhz(after)
            &&& next_action(u, debug_registers_ops()) == Action::Done
            &&& report_shows_400mhz(clock_debug_from(u.captured))
        }),
{
    let dev = clock_flags_device();
    lemma_clock_flags_conditions(regs);
    lemma_sequencer_runs_program(dev, clock_program(), regs);
    let after = apply_program_on(dev, regs, clock_program());
    lemma_clock_program_fields(dev, regs);
    lemma_clock_regs_on(dev, regs);
    let cr = regs(Reg::RccCr);
    assert({
        let r1 = (cr & !0x0200_0000u32) | ((cr & 0x0100_0000u32) << 1u32);
        let off = (r1 & !0x0100_0000u32) | 0u32;
        let r2 = (off & !0x0200_0000u32) | ((off & 0x0100_0000u32) << 1u32);
        let on = (r2 & !0x0100_0000u32) | 0x0100_0000u32;
        (on >> 3u32) & 3u32 == (cr >> 3u32) & 3u32
    }) by (bit_vector);
    lemma_clocks_from_fields(after);
    lemma_captured_all(dev, after, clock_debug_regs());
    lemma_sequencer_runs_program(dev, debug_registers_ops(), after);
    let a_cr = after(Reg::RccCr);
    let a_cfgr = after(Reg::RccCfgr);
    let a_d3cr = after(Reg::PwrD3cr);
    assert({
        &&& (((a_cfgr & !0x38u32) | ((a_cfgr & 7u32) << 3u32)) >> 3u32) & 7u32 == 3
        &&& ((a_cr & !0x0200_0000u32) | ((a_cr & 0x0100_0000u32) << 1u32)) & 0x0200_0000u32 != 0
        &&& ((a_d3cr | 0x2000u32) >> 14u32) & 3u32 == 3
    }) by (bit_vector)
        requires
            a_cfgr & 7u32 == 3u32,
            a_cr & 0x0100_0000u32 == 0x0100_0000u32,
            a_d3cr & 0xC000u32 == 0xC000u32,
    ;
    let caps = clock_debug_regs().map_values(|r: Reg| dev(r, after(r)));
    assert(caps[0] == dev(Reg::RccCr, a_cr));
    assert(caps[1] == dev(Reg::RccCfgr, a_cfgr));
    assert(caps[2] == after(Reg::RccPllckselr));
    assert(caps[3] == after(Reg::RccPllcfgr));
    assert(caps[4] == after(Reg::RccPll1divr));
    assert(caps[5] == after(Reg::RccD1cfgr));
    assert(caps[6] == after(Reg::RccD2cfgr));
    assert(caps[7] == after(Reg::RccD3cfgr));
    assert(caps[10] == dev(Reg::PwrD3cr, a_d3cr));
    assert(caps[12] == after(Reg::FlashAcr));
}

/// Whether pin PC9 outputs MCO2 in `after` (alternate function 0,
/// push-pull, very high speed, no pull), every other pin of port C as in
/// `before`.
pub open spec fn mco2_pin_configured(before: RegFile, after: RegFile) -> bool {
    &&& pin_mode(after(Reg::GpiocModer), 9) == 2
    &&& pin_otype(after(Reg::GpiocOtyper), 9) == 0
    &&& pin_speed(after(Reg::GpiocOspeedr), 9) == 3
    &&& pin_pull(after(Reg::GpiocPupdr), 9) == 0
    &&& pin_af_high(after(Reg::GpiocAfrh), 9) == 0
    &&& forall|pin: u32|
        pin < 16 && pin != 9 ==> {
            &&& #[trigger] pin_mode(after(Reg::GpiocModer), pin) == pin_mode(
                before(Reg::GpiocModer),
                pin,
            )
            &&& pin_otype(after(Reg::GpiocOtyper), pin) == pin_otype(before(Reg::GpiocOtyper), pin)
            &&& pin_speed(after(Reg::GpiocOspeedr), pin) == pin_speed(
                before(Reg::GpiocOspeedr),
                pin,
            )
            &&& pin_pull(after(Reg::GpiocPupdr), pin) == pin_pull(before(Reg::GpiocPupdr), pin)
        }
    &&& forall|pin: u32|
        8 <= pin < 16 && pin != 9 ==> #[trigger] pin_af_high(after(Reg::GpiocAfrh), pin)
            == pin_af_high(before(Reg::GpiocAfrh), pin)
}

proof fn lemma_mco2_regs(regs: RegFile)
    ensures
        ({
            let after = apply_program(regs, mco2_ops());
            &&& after(Reg::RccAhb4enr) == modified(
                regs(Reg::RccAhb4enr),
                GPIOC_ENABLE_BIT,
                GPIOC_ENABLE_BIT,
            )
            &&& after(Reg::GpiocModer) == modified(regs(Reg::GpiocModer), PC9_FIELD, PC9_ALTERNATE)
            &&& after(Reg::GpiocOtyper) == modified(regs(Reg::GpiocOtyper), PC9_OTYPE, 0)
            &&& after(Reg::GpiocOspeedr) == modified(regs(Reg::GpiocOspeedr), PC9_FIELD, PC9_FIELD)
            &&& after(Reg::GpiocPupdr) == modified(regs(Reg::GpiocPupdr), PC9_FIELD, 0)
            &&& after(Reg::GpiocAfrh) == modified(regs(Reg::GpiocAfrh), PC9_AF_FIELD, 0)
            &&& after(Reg::RccCfgr) == modified(
                regs(Reg::RccCfgr),
                CFGR_MCO2_FIELDS,
                CFGR_MCO2_SYSCLK_DIV5,
            )
            &&& after(Reg::RccCr) == regs(Reg::RccCr)
            &&& after(Reg::RccPllckselr) == regs(Reg::RccPllckselr)
            &&& after(Reg::RccPllcfgr) == regs(Reg::RccPllcfgr)
            &&& after(Reg::RccPll1divr) == regs(Reg::RccPll1divr)
            &&& after(Reg::RccPll1fracr) == regs(Reg::RccPll1fracr)
            &&& after(Reg::RccD1cfgr) == regs(Reg::RccD1cfgr)
        }),
{
    let regs_list = seq![
        Reg::RccAhb4enr,
        Reg::GpiocModer,
        Reg::GpiocOtyper,
        Reg::GpiocOspeedr,
        Reg::GpiocPupdr,
        Reg::GpiocAfrh,
        Reg::RccCfgr,
        Reg::RccCr,
        Reg::RccPllckselr,
        Reg::RccPllcfgr,
        Reg::RccPll1divr,
        Reg::RccPll1fracr,
        Reg::RccD1cfgr,
    ];
    assert forall|k: int| 0 <= k < 13 implies apply_program(regs, mco2_ops())(
        #[trigger] regs_list[k],
    ) == value_after(mco2_ops(), regs_list[k], regs(regs_list[k])) by {
        lemma_value_after(regs, mco2_ops(), regs_list[k]);
    }
    assert(regs_list[0] == Reg::RccAhb4enr);
    assert(regs_list[1] == Reg::GpiocModer);
    assert(regs_list[2] == Reg::GpiocOtyper);
    assert(regs_list[3] == Reg::GpiocOspeedr);
    assert(regs_list[4] == Reg::GpiocPupdr);
    assert(regs_list[5] == Reg::GpiocAfrh);
    assert(regs_list[6] == Reg::RccCfgr);
    assert(regs_list[7] == Reg::RccCr);
    assert(regs_list[8] == Reg::RccPllckselr);
    assert(regs_list[9] == Reg::RccPllcfgr);
    assert(regs_list[10] == Reg::RccPll1divr);
    assert(regs_list[11] == Reg::RccPll1fracr);
    assert(regs_list[12] == Reg::RccD1cfgr);
    reveal_with_fuel(value_after, 9);
}

/// Putting SYSCLK / 5 on MCO2 configures pin PC9 for it, leaves the other
/// pins of port C and SYSCLK as they were, and gives SYSCLK / 5 on MCO2.
pub proof fn lemma_mco2_program(regs: RegFile)
    ensures
        mco2_pin_configured(regs, apply_program(regs, mco2_ops())),
        sysclk_hz(apply_program(regs, mco2_ops())) == sysclk_hz(regs),
        mco2_hz(apply_program(regs, mco2_ops())) == sysclk_hz(regs) / 5,
{
    let after = apply_program(regs, mco2_ops());
    lemma_mco2_regs(regs);
    let m = regs(Reg::GpiocModer);
    let o = regs(Reg::GpiocOtyper);
    let sp = regs(Reg::GpiocOspeedr);
    let pu = regs(Reg::GpiocPupdr);
    let af = regs(Reg::GpiocAfrh);
    let c = regs(Reg::RccCfgr);
    assert({
        &&& (((m & !0x000C_0000u32) | 0x0008_0000u32) >> 18u32) & 3u32 == 2
        &&& (((o & !0x200u32) | 0u32) >> 9u32) & 1u32 == 0
        &&& (((sp & !0x000C_0000u32) | 0x000C_0000u32) >> 18u32) & 3u32 == 3
        &&& (((pu & !0x000C_0000u32) | 0u32) >> 18u32) & 3u32 == 0
        &&& (((af & !0xF0u32) | 0u32) >> 4u32) & 0xFu32 == 0
    }) by (bit_vector);
    assert(pin_mode(after(Reg::GpiocModer), 9) == 2);
    assert(pin_af_high(after(Reg::GpiocAfrh), 9) == 0);
    assert forall|pin: u32| pin < 16 && pin != 9 implies {
        &&& #[trigger] pin_mode(after(Reg::GpiocModer), pin) == pin_mode(m, pin)
        &&& pin_otype(after(Reg::GpiocOtyper), pin) == pin_otype(o, pin)
        &&& pin_speed(after(Reg::GpiocOspeedr), pin) == pin_speed(sp, pin)
        &&& pin_pull(after(Reg::GpiocPupdr), pin) == pin_pull(pu, pin)
    } by {
        assert({
            &&& (((m & !0x000C_0000u32) | 0x0008_0000u32) >> ((2 * pin) as u32)) & 3u32 == (m >> ((2
                * pin) as u32)) & 3u32
            &&& (((o & !0x200u32) | 0u32) >> pin) & 1u32 == (o >> pin) & 1u32
            &&& (((sp & !0x000C_0000u32) | 0x000C_0000u32) >> ((2 * pin) as u32)) & 3u32 == (sp >> ((2
                * pin) as u32)) & 3u32
            &&& (((pu & !0x000C_0000u32) | 0u32) >> ((2 * pin) as u32)) & 3u32 == (pu >> ((2
                * pin) as u32)) & 3u32
        }) by (bit_vector)
            requires
                pin < 16 && pin != 9,
        ;
    }
    assert forall|pin: u32| 8 <= pin < 16 && pin != 9 implies #[trigger] pin_af_high(
        after(Reg::GpiocAfrh),
        pin,
    ) == pin_af_high(af, pin) by {
        assert((((af & !0xF0u32) | 0u32) >> ((4 * (pin - 8)) as u32)) & 0xFu32 == (af >> ((4 * (pin
            - 8)) as u32)) & 0xFu32) by (bit_vector)
            requires
                8 <= pin < 16 && pin != 9,
        ;
    }
    assert({
        let v = (c & !0xFE00_0000u32) | 0x0A00_0000u32;
        &&& (v >> 0u32) & 7u32 == (c >> 0u32) & 7u32
        &&& (v >> 29u32) & 7u32 == 0
        &&& (v >> 25u32) & 0xFu32 == 5
    }) by (bit_vector);
    assert(field(after(Reg::RccCfgr), 0, 7) == field(c, 0, 7));
    assert(sysclk_hz(after) == sysclk_hz(regs));
}

/// After the clock configuration, MCO2 on pin PC9 runs at 80 MHz
/// (400 MHz SYSCLK / 5).
pub proof fn lemma_mco2_at_80mhz(regs: RegFile)
    requires
        field(regs(Reg::RccCr), 3, 3) == 0,
    ensures
        mco2_hz(apply_program(apply_program(regs, clock_program()), mco2_ops())) == 80_000_000,
{
    lemma_clock_program_frequencies(regs);
    lemma_mco2_program(apply_program(regs, clock_program()));
    assert(400_000_000nat / 5nat == 80_000_000nat);
}

/// Putting SYSCLK / 5 on MCO2 a second time changes nothing: two runs of
/// the procedure leave every register as one run does.
pub proof fn lemma_mco2_idempotent(regs: RegFile)
    ensures
        apply_program(apply_program(regs, mco2_ops()), mco2_ops()) == apply_program(regs, mco2_ops()),
{
    let once = apply_program(regs, mco2_ops());
    let twice = apply_program(once, mco2_ops());
    assert(forall|x: u32, c: u32, t: u32|
        #![auto]
        ((((x & !c) | t) & !c) | t) == ((x & !c) | t)) by (bit_vector);
    assert forall|reg: Reg| #[trigger] twice(reg) == once(reg) by {
        lemma_value_after(regs, mco2_ops(), reg);
        lemma_value_after(once, mco2_ops(), reg);
        reveal_with_fuel(value_after, 9);
    }
    assert(twice =~= once);
}

/// The clock configuration stores only into the supply, flash and RCC
/// registers it owns.
pub proof fn lemma_clock_program_no_foreign_stores()
    ensures
        forall|i: int, reg: Reg|
            0 <= i < clock_program().len() && #[trigger] op_stores(clock_program()[i], reg)
                ==> stored_by_supply_and_bus(reg) || stored_by_pll(reg),
{
    let a = supply_and_bus_ops();
    let b = pll_ops();
    assert forall|i: int, reg: Reg|
        0 <= i < clock_program().len() && #[trigger] op_stores(clock_program()[i], reg) implies
        stored_by_supply_and_bus(reg) || stored_by_pll(reg) by {
        if i < a.len() {
            assert(clock_program()[i] == a[i]);
            assert(0 <= i < 9);
        } else {
            assert(clock_program()[i] == b[i - a.len()]);
            assert(0 <= i - 9 < 13);
        }
    }
}

} // verus!
