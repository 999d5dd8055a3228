//! Registers, register operations and their meaning on a register file.

use vstd::prelude::*;

verus! {

/// A 32-bit register, or a word of the FDCAN message RAM, that the firmware
/// reads or writes.
#[derive(Clone, Copy, Debug, PartialEq, Eq, Hash, Structural)]
pub enum Reg {
    RccCr,
    RccCfgr,
    RccD1cfgr,
    RccD2cfgr,
    RccD3cfgr,
    RccPllckselr,
    RccPllcfgr,
    RccPll1divr,
    RccPll1fracr,
    RccD2ccip1r,
    RccAhb4enr,
    RccApb1henr,
    RccApb1hrstr,
    PwrCr3,
    PwrCsr1,
    PwrD3cr,
    FlashAcr,
    SyscfgPwrcr,
    GpioaModer,
    GpioaOtyper,
    GpioaOspeedr,
    GpioaPupdr,
    GpioaAfrh,
    GpiocModer,
    GpiocOtyper,
    GpiocOspeedr,
    GpiocPupdr,
    GpiocAfrh,
    FdcanEndn,
    FdcanTest,
    FdcanCccr,
    FdcanNbtp,
    FdcanEcr,
    FdcanPsr,
    FdcanIr,
    FdcanGfc,
    FdcanSidfc,
    FdcanXidfc,
    FdcanRxf0c,
    FdcanRxf0s,
    FdcanRxesc,
    FdcanTxbc,
    FdcanTxesc,
    FdcanTxbar,
    FdcanTxbto,
    /// The word of the FDCAN message RAM at this byte offset.
    MessageRam(u32),
    /// `RCC_GCR`, the global control register (Cortex-M4 boot).
    RccGcr,
    /// The word of the shared SRAM4 at this address.
    Sram4(u32),
}

/// A memory barrier or a no-operation instruction of the Cortex-M core.
#[derive(Clone, Copy, Debug, PartialEq, Eq, Structural)]
pub enum Barrier {
    Nop,
    Dmb,
    Dsb,
    Isb,
    /// Send an event to the other core.
    Sev,
}

/// The ways in which bringing up the clock tree or FDCAN1 fails.
#[derive(Clone, Copy, Debug, PartialEq, Eq, Structural)]
pub enum SetupError {
    /// `RCC_D2CCIP1R.FDCANSEL` did not read back as PLL1Q.
    FdcanselWriteFailed,
    /// `FDCAN_CCCR.INIT` never became set.
    FdcanInitTimeout,
    /// `FDCAN_CCCR.CCE` never became set.
    FdcanCceTimeout,
    /// `FDCAN_CCCR.INIT` never became clear again.
    FdcanStartTimeout,
    /// `PWR_CSR1.ACTVOSRDY` never became set.
    ActvosrdyTimeout,
    /// `PWR_D3CR.VOSRDY` never became set.
    Vos1Timeout,
    /// `RCC_CR.PLL1RDY` never became clear.
    Pll1DisableTimeout,
    /// `RCC_CR.PLL1RDY` never became set.
    Pll1LockTimeout,
    /// `RCC_CFGR.SWS` never reported PLL1.
    SysclkSwitchTimeout,
}

impl SetupError {
    /// The text by which the firmware reports the error.
    pub open spec fn text(self) -> Seq<char> {
        match self {
            SetupError::FdcanselWriteFailed => "FDCANSEL write failed"@,
            SetupError::FdcanInitTimeout => "FDCAN INIT timeout"@,
            SetupError::FdcanCceTimeout => "FDCAN CCE timeout"@,
            SetupError::FdcanStartTimeout => "FDCAN start timeout"@,
            SetupError::ActvosrdyTimeout => "ACTVOSRDY timeout"@,
            SetupError::Vos1Timeout => "VOS1 timeout"@,
            SetupError::Pll1DisableTimeout => "PLL1 disable timeout"@,
            SetupError::Pll1LockTimeout => "PLL1 lock timeout"@,
            SetupError::SysclkSwitchTimeout => "SYSCLK switch timeout"@,
        }
    }

    /// The text by which the firmware reports the error.
    pub fn message(&self) -> (text: &'static str)
        ensures
            text@ == self.text(),
    {
        match self {
            SetupError::FdcanselWriteFailed => "FDCANSEL write failed",
            SetupError::FdcanInitTimeout => "FDCAN INIT timeout",
            SetupError::FdcanCceTimeout => "FDCAN CCE timeout",
            SetupError::FdcanStartTimeout => "FDCAN start timeout",
            SetupError::ActvosrdyTimeout => "ACTVOSRDY timeout",
            SetupError::Vos1Timeout => "VOS1 timeout",
            SetupError::Pll1DisableTimeout => "PLL1 disable timeout",
            SetupError::Pll1LockTimeout => "PLL1 lock timeout",
            SetupError::SysclkSwitchTimeout => "SYSCLK switch timeout",
        }
    }
}

/// One step of a register-level procedure.
#[derive(Clone, Copy, Debug, PartialEq, Eq, Structural)]
pub enum RegOp {
    /// Store `value` in `reg`.
    Write { reg: Reg, value: u32 },
    /// Read `reg`, clear the bits of `clear`, set the bits of `set`, store it back.
    Modify { reg: Reg, clear: u32, set: u32 },
    /// Read `reg` and discard the value (completes an earlier write).
    Touch { reg: Reg },
    /// Read `reg` until `value & mask == expected`; give up with `error`
    /// after `POLL_LIMIT` reads that do not match.
    WaitUntil { reg: Reg, mask: u32, expected: u32, error: SetupError },
    /// Read `reg` once; fail with `error` unless `value & mask == expected`.
    Check { reg: Reg, mask: u32, expected: u32, error: SetupError },
    /// Read `reg` and record the value.
    Capture { reg: Reg },
    /// Execute a barrier instruction.
    Fence { barrier: Barrier },
}

/// The number of non-matching reads after which a `WaitUntil` gives up.
pub const POLL_LIMIT: u32 = 10_000_000;

/// The value that a read-modify-write stores: the bits of `clear` cleared,
/// then the bits of `set` set.
pub open spec fn modified(old: u32, clear: u32, set: u32) -> u32 {
    (old & !clear) | set
}

/// The value that a read-modify-write stores.
pub fn modify_value(old: u32, clear: u32, set: u32) -> (new: u32)
    ensures
        new == modified(old, clear, set),
{
    (old & !clear) | set
}

/// Whether a read value satisfies a `mask`/`expected` condition.
pub open spec fn masked_equals(value: u32, mask: u32, expected: u32) -> bool {
    value & mask == expected
}

/// Whether a modify only sets bits inside the field that it clears.
pub open spec fn field_write(clear: u32, set: u32) -> bool {
    set & !clear == 0
}

/// The field of `width_mask` bits at `shift` of a register value.
pub open spec fn field(value: u32, shift: u32, width_mask: u32) -> u32 {
    (value >> shift) & width_mask
}

/// The mode of a GPIO pin (`MODER`): 0 input, 1 output, 2 alternate, 3 analog.
pub open spec fn pin_mode(moder: u32, pin: u32) -> u32 {
    field(moder, (2 * pin) as u32, 3)
}

/// The output type of a GPIO pin (`OTYPER`): 0 push-pull, 1 open-drain.
pub open spec fn pin_otype(otyper: u32, pin: u32) -> u32 {
    field(otyper, pin, 1)
}

/// The speed of a GPIO pin (`OSPEEDR`): 3 is very high.
pub open spec fn pin_speed(ospeedr: u32, pin: u32) -> u32 {
    field(ospeedr, (2 * pin) as u32, 3)
}

/// The pull of a GPIO pin (`PUPDR`): 0 none, 1 up, 2 down.
pub open spec fn pin_pull(pupdr: u32, pin: u32) -> u32 {
    field(pupdr, (2 * pin) as u32, 3)
}

/// The alternate function of a GPIO pin 8..15 (`AFRH`).
pub open spec fn pin_af_high(afrh: u32, pin: u32) -> u32 {
    field(afrh, (4 * (pin - 8)) as u32, 0xF)
}

/// A register file: the value of every register.
pub type RegFile = spec_fn(Reg) -> u32;

/// The register file with `reg` holding `value`.
pub open spec fn store(regs: RegFile, reg: Reg, value: u32) -> RegFile {
    |r: Reg| if r == reg { value } else { regs(r) }
}

/// What one operation does to a register file whose registers hold what
/// was last written to them.
pub open spec fn op_effect(regs: RegFile, op: RegOp) -> RegFile {
    match op {
        RegOp::Write { reg, value } => store(regs, reg, value),
        RegOp::Modify { reg, clear, set } => store(regs, reg, modified(regs(reg), clear, set)),
        _ => regs,
    }
}

/// What a whole procedure does to such a register file.
pub open spec fn apply_program(regs: RegFile, prog: Seq<RegOp>) -> RegFile
    decreases prog.len(),
{
    if prog.len() == 0 {
        regs
    } else {
        apply_program(op_effect(regs, prog[0]), prog.drop_first())
    }
}

/// Whether the operation stores into `reg`.
pub open spec fn op_stores(op: RegOp, reg: Reg) -> bool {
    match op {
        RegOp::Write { reg: r, .. } => r == reg,
        RegOp::Modify { reg: r, .. } => r == reg,
        _ => false,
    }
}

/// A read-modify-write sets exactly the bits of `set` inside the cleared
/// field and keeps every bit outside it, for every old value; applying it a
/// second time changes nothing.
pub proof fn lemma_modify_field(old: u32, clear: u32, set: u32)
    requires
        field_write(clear, set),
    ensures
        modified(old, clear, set) & clear == set,
        modified(old, clear, set) & !clear == old & !clear,
        modified(modified(old, clear, set), clear, set) == modified(old, clear, set),
{
    assert(((old & !clear) | set) & clear == set) by (bit_vector)
        requires
            set & !clear == 0,
    ;
    assert(((old & !clear) | set) & !clear == old & !clear) by (bit_vector)
        requires
            set & !clear == 0,
    ;
    assert(((((old & !clear) | set) & !clear) | set) == ((old & !clear) | set)) by (bit_vector);
}

/// A procedure leaves every register that none of its operations stores
/// into as it was.
pub proof fn lemma_untouched_register(regs: RegFile, prog: Seq<RegOp>, reg: Reg)
    requires
        forall|i: int| 0 <= i < prog.len() ==> !op_stores(#[trigger] prog[i], reg),
    ensures
        apply_program(regs, prog)(reg) == regs(reg),
    decreases prog.len(),
{
    if prog.len() > 0 {
        assert(!op_stores(prog[0], reg));
        assert(op_effect(regs, prog[0])(reg) == regs(reg));
        assert forall|i: int| 0 <= i < prog.drop_first().len() implies !op_stores(
            #[trigger] prog.drop_first()[i],
            reg,
        ) by {
            assert(prog.drop_first()[i] == prog[i + 1]);
        }
        lemma_untouched_register(op_effect(regs, prog[0]), prog.drop_first(), reg);
    }
}

/// The value that one operation leaves in `reg`, which held `v`.
pub open spec fn op_value(op: RegOp, reg: Reg, v: u32) -> u32 {
    match op {
        RegOp::Write { reg: r, value } => if r == reg {
            value
        } else {
            v
        },
        RegOp::Modify { reg: r, clear, set } => if r == reg {
            modified(v, clear, set)
        } else {
            v
        },
        _ => v,
    }
}

/// The value that a procedure leaves in `reg`, which held `v`.
pub open spec fn value_after(prog: Seq<RegOp>, reg: Reg, v: u32) -> u32
    decreases prog.len(),
{
    if prog.len() == 0 {
        v
    } else {
        value_after(prog.drop_first(), reg, op_value(prog[0], reg, v))
    }
}

/// What a procedure leaves in one register depends only on that register.
pub proof fn lemma_value_after(regs: RegFile, prog: Seq<RegOp>, reg: Reg)
    ensures
        apply_program(regs, prog)(reg) == value_after(prog, reg, regs(reg)),
    decreases prog.len(),
{
    if prog.len() > 0 {
        lemma_value_after(op_effect(regs, prog[0]), prog.drop_first(), reg);
    }
}

/// Running two procedures one after the other, seen from one register.
pub proof fn lemma_value_after_concat(p1: Seq<RegOp>, p2: Seq<RegOp>, reg: Reg, v: u32)
    ensures
        value_after(p1 + p2, reg, v) == value_after(p2, reg, value_after(p1, reg, v)),
    decreases p1.len(),
{
    if p1.len() == 0 {
        assert(p1 + p2 =~= p2);
    } else {
        assert((p1 + p2)[0] == p1[0]);
        assert((p1 + p2).drop_first() =~= p1.drop_first() + p2);
        lemma_value_after_concat(p1.drop_first(), p2, reg, op_value(p1[0], reg, v));
    }
}

/// Running two procedures one after the other has the effect of running
/// their concatenation.
pub proof fn lemma_apply_concat(regs: RegFile, p1: Seq<RegOp>, p2: Seq<RegOp>)
    ensures
        apply_program(regs, p1 + p2) == apply_program(apply_program(regs, p1), p2),
    decreases p1.len(),
{
    if p1.len() == 0 {
        assert(p1 + p2 =~= p2);
    } else {
        assert((p1 + p2)[0] == p1[0]);
        assert((p1 + p2).drop_first() =~= p1.drop_first() + p2);
        lemma_apply_concat(op_effect(regs, p1[0]), p1.drop_first(), p2);
    }
}

/// What a read of a register returns, given the value the register holds:
/// hardware may show status bits that no write put there.
pub type Device = spec_fn(Reg, u32) -> u32;

/// A device whose registers read back exactly what they hold.
pub open spec fn memory_device() -> Device {
    |reg: Reg, held: u32| held
}

/// What one operation does to the register file of a device; a modify
/// stores what it built from the value it read.
pub open spec fn op_effect_on(dev: Device, regs: RegFile, op: RegOp) -> RegFile {
    match op {
        RegOp::Write { reg, value } => store(regs, reg, value),
        RegOp::Modify { reg, clear, set } => store(
            regs,
            reg,
            modified(dev(reg, regs(reg)), clear, set),
        ),
        _ => regs,
    }
}

/// What a whole procedure does to the register file of a device.
pub open spec fn apply_program_on(dev: Device, regs: RegFile, prog: Seq<RegOp>) -> RegFile
    decreases prog.len(),
{
    if prog.len() == 0 {
        regs
    } else {
        apply_program_on(dev, op_effect_on(dev, regs, prog[0]), prog.drop_first())
    }
}

/// On a device that reads back what it holds, a procedure does what
/// `apply_program` says.
pub proof fn lemma_apply_on_memory(regs: RegFile, prog: Seq<RegOp>)
    ensures
        apply_program_on(memory_device(), regs, prog) == apply_program(regs, prog),
    decreases prog.len(),
{
    if prog.len() > 0 {
        assert(op_effect_on(memory_device(), regs, prog[0]) =~= op_effect(regs, prog[0]));
        lemma_apply_on_memory(op_effect(regs, prog[0]), prog.drop_first());
    }
}

/// Running two procedures one after the other on a device.
pub proof fn lemma_apply_on_concat(dev: Device, regs: RegFile, p1: Seq<RegOp>, p2: Seq<RegOp>)
    ensures
        apply_program_on(dev, regs, p1 + p2) == apply_program_on(
            dev,
            apply_program_on(dev, regs, p1),
            p2,
        ),
    decreases p1.len(),
{
    if p1.len() == 0 {
        assert(p1 + p2 =~= p2);
    } else {
        assert((p1 + p2)[0] == p1[0]);
        assert((p1 + p2).drop_first() =~= p1.drop_first() + p2);
        lemma_apply_on_concat(dev, op_effect_on(dev, regs, p1[0]), p1.drop_first(), p2);
    }
}

/// The value that one operation leaves in `reg` of a device, which held `v`.
pub open spec fn op_value_on(dev: Device, op: RegOp, reg: Reg, v: u32) -> u32 {
    match op {
        RegOp::Write { reg: r, value } => if r == reg {
            value
        } else {
            v
        },
        RegOp::Modify { reg: r, clear, set } => if r == reg {
            modified(dev(reg, v), clear, set)
        } else {
            v
        },
        _ => v,
    }
}

/// The value that a procedure leaves in `reg` of a device, which held `v`.
pub open spec fn value_after_on(dev: Device, prog: Seq<RegOp>, reg: Reg, v: u32) -> u32
    decreases prog.len(),
{
    if prog.len() == 0 {
        v
    } else {
        value_after_on(dev, prog.drop_first(), reg, op_value_on(dev, prog[0], reg, v))
    }
}

/// What a procedure leaves in one register of a device depends only on that
/// register.
pub proof fn lemma_value_after_on(dev: Device, regs: RegFile, prog: Seq<RegOp>, reg: Reg)
    ensures
        apply_program_on(dev, regs, prog)(reg) == value_after_on(dev, prog, reg, regs(reg)),
    decreases prog.len(),
{
    if prog.len() > 0 {
        lemma_value_after_on(dev, op_effect_on(dev, regs, prog[0]), prog.drop_first(), reg);
    }
}

/// Two procedures one after the other on a device, seen from one register.
pub proof fn lemma_value_after_on_concat(dev: Device, p1: Seq<RegOp>, p2: Seq<RegOp>, reg: Reg, v: u32)
    ensures
        value_after_on(dev, p1 + p2, reg, v) == value_after_on(
            dev,
            p2,
            reg,
            value_after_on(dev, p1, reg, v),
        ),
    decreases p1.len(),
{
    if p1.len() == 0 {
        assert(p1 + p2 =~= p2);
    } else {
        assert((p1 + p2)[0] == p1[0]);
        assert((p1 + p2).drop_first() =~= p1.drop_first() + p2);
        lemma_value_after_on_concat(dev, p1.drop_first(), p2, reg, op_value_on(dev, p1[0], reg, v));
    }
}

} // verus!
