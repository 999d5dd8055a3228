//! The step-by-step executor of register procedures.
//!
//! The firmware asks the sequencer for the next `Action`, performs it on the
//! hardware and reports back: the value it read (`on_read`) or that a write
//! or barrier is done (`on_ack`). The sequencer decides everything else:
//! which register comes next, what a read-modify-write stores, when a poll
//! has waited long enough and when the procedure has failed.

use vstd::prelude::*;
use crate::regs::{
    Reg, Barrier, SetupError, RegOp, POLL_LIMIT, modified, modify_value, masked_equals, RegFile,
    store, Device, op_effect_on, apply_program_on,
};

verus! {

/// What the firmware must do next.
#[derive(Clone, Copy, Debug, PartialEq, Eq, Structural)]
pub enum Action {
    /// Read the register and report the value with `on_read`.
    Read(Reg),
    /// Store the value in the register and report with `on_ack`.
    Write(Reg, u32),
    /// Execute the barrier and report with `on_ack`.
    Fence(Barrier),
    /// The procedure has completed.
    Done,
    /// The procedure has failed.
    Fail(SetupError),
}

/// The abstract state of a sequencer.
pub ghost struct SeqState {
    /// Index of the current operation.
    pub pc: nat,
    /// Reads that the current `WaitUntil` may still spend.
    pub polls_left: nat,
    /// The value that the current `Modify` is about to store, once read.
    pub staged: Option<u32>,
    /// The error with which the procedure stopped, if it did.
    pub failed: Option<SetupError>,
    /// The values read by `Capture` operations so far.
    pub captured: Seq<u32>,
}

/// The state of a procedure that has not started yet.
pub open spec fn initial_state() -> SeqState {
    SeqState { pc: 0, polls_left: POLL_LIMIT as nat, staged: None, failed: None, captured: seq![] }
}

/// The number of `Capture` operations in a procedure.
pub open spec fn capture_count(prog: Seq<RegOp>) -> nat
    decreases prog.len(),
{
    if prog.len() == 0 {
        0
    } else {
        capture_count(prog.drop_last()) + if prog.last() is Capture {
            1nat
        } else {
            0nat
        }
    }
}

/// Counting the captures of one more operation.
pub proof fn lemma_capture_count_step(prog: Seq<RegOp>, pc: int)
    requires
        0 <= pc < prog.len(),
    ensures
        capture_count(prog.take(pc + 1)) == capture_count(prog.take(pc)) + if prog[pc] is Capture {
            1nat
        } else {
            0nat
        },
{
    assert(prog.take(pc + 1).drop_last() =~= prog.take(pc));
}

/// A procedure without `Capture` operations records nothing.
pub proof fn lemma_capture_count_none(prog: Seq<RegOp>)
    requires
        forall|i: int| 0 <= i < prog.len() ==> !(#[trigger] prog[i] is Capture),
    ensures
        capture_count(prog) == 0,
    decreases prog.len(),
{
    if prog.len() > 0 {
        lemma_capture_count_none(prog.drop_last());
    }
}

/// A procedure of `Capture` operations only records one value per operation.
pub proof fn lemma_capture_count_all(prog: Seq<RegOp>)
    requires
        forall|i: int| 0 <= i < prog.len() ==> #[trigger] prog[i] is Capture,
    ensures
        capture_count(prog) == prog.len(),
    decreases prog.len(),
{
    if prog.len() > 0 {
        lemma_capture_count_all(prog.drop_last());
    }
}

/// The captures of two procedures run one after the other add up.
pub proof fn lemma_capture_count_concat(a: Seq<RegOp>, b: Seq<RegOp>)
    ensures
        capture_count(a + b) == capture_count(a) + capture_count(b),
    decreases b.len(),
{
    if b.len() == 0 {
        assert(a + b =~= a);
    } else {
        assert((a + b).drop_last() =~= a + b.drop_last());
        lemma_capture_count_concat(a, b.drop_last());
    }
}

/// Whether a state can be reached on a procedure.
pub open spec fn state_wf(s: SeqState, prog: Seq<RegOp>) -> bool {
    &&& s.pc <= prog.len()
    &&& s.captured.len() == capture_count(prog.take(s.pc as int))
    &&& 1 <= s.polls_left <= POLL_LIMIT
    &&& s.staged is Some ==> s.pc < prog.len() && prog[s.pc as int] is Modify && s.failed is None
    &&& s.failed is Some ==> s.pc < prog.len()
}

/// The action that a state asks for.
pub open spec fn next_action(s: SeqState, prog: Seq<RegOp>) -> Action {
    if s.failed is Some {
        Action::Fail(s.failed->0)
    } else if s.pc >= prog.len() {
        Action::Done
    } else {
        match prog[s.pc as int] {
            RegOp::Write { reg, value } => Action::Write(reg, value),
            RegOp::Modify { reg, .. } => match s.staged {
                Some(v) => Action::Write(reg, v),
                None => Action::Read(reg),
            },
            RegOp::Touch { reg } => Action::Read(reg),
            RegOp::WaitUntil { reg, .. } => Action::Read(reg),
            RegOp::Check { reg, .. } => Action::Read(reg),
            RegOp::Capture { reg } => Action::Read(reg),
            RegOp::Fence { barrier } => Action::Fence(barrier),
        }
    }
}

/// The state that moves on to the next operation.
pub open spec fn advanced(s: SeqState) -> SeqState {
    SeqState { pc: s.pc + 1, polls_left: POLL_LIMIT as nat, staged: None, ..s }
}

/// The state after the firmware reported `value` for the read asked for.
pub open spec fn after_read(s: SeqState, prog: Seq<RegOp>, value: u32) -> SeqState {
    match prog[s.pc as int] {
        RegOp::Modify { clear, set, .. } => SeqState { staged: Some(modified(value, clear, set)), ..s },
        RegOp::WaitUntil { mask, expected, error, .. } => if masked_equals(value, mask, expected) {
            advanced(s)
        } else if s.polls_left <= 1 {
            SeqState { failed: Some(error), ..s }
        } else {
            SeqState { polls_left: (s.polls_left - 1) as nat, ..s }
        },
        RegOp::Check { mask, expected, error, .. } => if masked_equals(value, mask, expected) {
            advanced(s)
        } else {
            SeqState { failed: Some(error), ..s }
        },
        RegOp::Capture { .. } => SeqState { captured: s.captured.push(value), ..advanced(s) },
        _ => advanced(s),
    }
}

/// The state after the firmware reported a write or a barrier as done.
pub open spec fn after_ack(s: SeqState) -> SeqState {
    advanced(s)
}

/// Runs a register procedure one hardware access at a time.
pub struct Sequencer {
    pc: usize,
    polls_left: u32,
    staged: Option<u32>,
    failed: Option<SetupError>,
    captured: Vec<u32>,
}

impl View for Sequencer {
    type V = SeqState;

    closed spec fn view(&self) -> SeqState {
        SeqState {
            pc: self.pc as nat,
            polls_left: self.polls_left as nat,
            staged: self.staged,
            failed: self.failed,
            captured: self.captured@,
        }
    }
}

impl Sequencer {
    /// A sequencer at the start of a procedure.
    pub fn new() -> (s: Sequencer)
        ensures
            s@ == initial_state(),
    {
        Sequencer { pc: 0, polls_left: POLL_LIMIT, staged: None, failed: None, captured: Vec::new() }
    }

    /// What the firmware must do next.
    pub fn action(&self, prog: &Vec<RegOp>) -> (a: Action)
        requires
            state_wf(self@, prog@),
        ensures
            a == next_action(self@, prog@),
    {
        if let Some(e) = self.failed {
            return Action::Fail(e);
        }
        if self.pc >= prog.len() {
            return Action::Done;
        }
        match prog[self.pc] {
            RegOp::Write { reg, value } => Action::Write(reg, value),
            RegOp::Modify { reg, .. } => match self.staged {
                Some(v) => Action::Write(reg, v),
                None => Action::Read(reg),
            },
            RegOp::Touch { reg } => Action::Read(reg),
            RegOp::WaitUntil { reg, .. } => Action::Read(reg),
            RegOp::Check { reg, .. } => Action::Read(reg),
            RegOp::Capture { reg } => Action::Read(reg),
            RegOp::Fence { barrier } => Action::Fence(barrier),
        }
    }

    fn advance(&mut self)
        requires
            old(self).pc < usize::MAX,
        ensures
            final(self)@ == advanced(old(self)@),
    {
        self.pc = self.pc + 1;
        self.polls_left = POLL_LIMIT;
        self.staged = None;
    }

    /// Takes the value that the firmware read for the `Read` action.
    pub fn on_read(&mut self, prog: &Vec<RegOp>, value: u32)
        requires
            state_wf(old(self)@, prog@),
            next_action(old(self)@, prog@) is Read,
        ensures
            final(self)@ == after_read(old(self)@, prog@, value),
            state_wf(final(self)@, prog@),
    {
        let len = prog.len();
        proof {
            assert(self.failed is None && self.pc < len);
            lemma_capture_count_step(prog@, self.pc as int);
        }
        match prog[self.pc] {
            RegOp::Modify { clear, set, .. } => {
                self.staged = Some(modify_value(value, clear, set));
            },
            RegOp::WaitUntil { mask, expected, error, .. } => {
                if value & mask == expected {
                    self.advance();
                } else if self.polls_left <= 1 {
                    self.failed = Some(error);
                } else {
                    self.polls_left = self.polls_left - 1;
                }
            },
            RegOp::Check { mask, expected, error, .. } => {
                if value & mask == expected {
                    self.advance();
                } else {
                    self.failed = Some(error);
                }
            },
            RegOp::Capture { .. } => {
                self.captured.push(value);
                self.advance();
            },
            _ => {
                self.advance();
            },
        }
    }

    /// Takes the report that the `Write` or `Fence` action is done.
    pub fn on_ack(&mut self, prog: &Vec<RegOp>)
        requires
            state_wf(old(self)@, prog@),
            next_action(old(self)@, prog@) is Write || next_action(old(self)@, prog@) is Fence,
        ensures
            final(self)@ == after_ack(old(self)@),
            state_wf(final(self)@, prog@),
    {
        let len = prog.len();
        proof {
            assert(self.failed is None && self.pc < len);
            lemma_capture_count_step(prog@, self.pc as int);
        }
        self.advance();
    }

    /// How the procedure ended: `Ok` once it completed, the error once it failed.
    pub fn outcome(&self, prog: &Vec<RegOp>) -> (r: Result<(), SetupError>)
        requires
            state_wf(self@, prog@),
            next_action(self@, prog@) is Done || next_action(self@, prog@) is Fail,
        ensures
            next_action(self@, prog@) is Done ==> r == Ok::<(), SetupError>(()) && self@.pc == prog@.len()
                && self@.captured.len() == capture_count(prog@),
            next_action(self@, prog@) matches Action::Fail(e) ==> r == Err::<(), SetupError>(e),
    {
        match self.failed {
            Some(e) => Err(e),
            None => {
                proof {
                    assert(prog@.take(prog@.len() as int) =~= prog@);
                }
                Ok(())
            },
        }
    }

    /// The values read by the `Capture` operations so far, in order.
    pub fn captured(&self) -> (values: &Vec<u32>)
        ensures
            values@ == self@.captured,
    {
        &self.captured
    }
}

/// The state after the firmware reported each of `reads`, in order.
pub open spec fn feed_reads(s: SeqState, prog: Seq<RegOp>, reads: Seq<u32>) -> SeqState
    decreases reads.len(),
{
    if reads.len() == 0 {
        s
    } else {
        feed_reads(after_read(s, prog, reads[0]), prog, reads.drop_first())
    }
}

/// A `WaitUntil` gives up after exactly as many non-matching reads as it
/// has polls left: with fewer it keeps polling the same register, with that
/// many it fails with its error. A fresh wait has `POLL_LIMIT` polls.
pub proof fn lemma_wait_timeout(s: SeqState, prog: Seq<RegOp>, reads: Seq<u32>)
    requires
        state_wf(s, prog),
        s.pc < prog.len(),
        s.failed is None,
        prog[s.pc as int] matches RegOp::WaitUntil { mask, expected, .. } && forall|i: int|
            0 <= i < reads.len() ==> !masked_equals(#[trigger] reads[i], mask, expected),
        reads.len() <= s.polls_left,
    ensures
        prog[s.pc as int] matches RegOp::WaitUntil { reg, error, .. } && ({
            let t = feed_reads(s, prog, reads);
            &&& reads.len() < s.polls_left ==> t == SeqState {
                polls_left: (s.polls_left - reads.len()) as nat,
                ..s
            } && next_action(t, prog) == Action::Read(reg)
            &&& reads.len() == s.polls_left ==> t == SeqState {
                failed: Some(error),
                polls_left: 1,
                ..s
            }
                && next_action(t, prog) == Action::Fail(error)
        }),
    decreases reads.len(),
{
    let mask = prog[s.pc as int]->WaitUntil_mask;
    let expected = prog[s.pc as int]->WaitUntil_expected;
    let error = prog[s.pc as int]->WaitUntil_error;
    if reads.len() > 0 {
        assert(!masked_equals(reads[0], mask, expected));
        let s1 = after_read(s, prog, reads[0]);
        assert(feed_reads(s, prog, reads) == feed_reads(s1, prog, reads.drop_first()));
        if s.polls_left > 1 {
            assert(s1 == SeqState { polls_left: (s.polls_left - 1) as nat, ..s });
            assert forall|i: int| 0 <= i < reads.drop_first().len() implies !masked_equals(
                #[trigger] reads.drop_first()[i],
                prog[s.pc as int]->WaitUntil_mask,
                prog[s.pc as int]->WaitUntil_expected,
            ) by {
                assert(reads.drop_first()[i] == reads[i + 1]);
            }
            lemma_wait_timeout(s1, prog, reads.drop_first());
        } else {
            assert(s1 == SeqState { failed: Some(error), ..s });
            assert(reads.drop_first().len() == 0);
            assert(feed_reads(s1, prog, reads.drop_first()) == s1);
        }
    } else {
        assert(s.staged is None);
        assert(SeqState { polls_left: (s.polls_left - reads.len()) as nat, ..s } == s);
    }
}

/// A `Check` decides on the bits of its mask alone: a read whose masked
/// bits differ from the expected ones stops the procedure with the check's
/// error, at the same operation and with nothing recorded; a read whose
/// masked bits match moves on to the next operation, whatever its other
/// bits hold.
pub proof fn lemma_check_outcome(s: SeqState, prog: Seq<RegOp>, value: u32)
    requires
        state_wf(s, prog),
        s.pc < prog.len(),
        s.failed is None,
        prog[s.pc as int] is Check,
    ensures
        ({
            let mask = prog[s.pc as int]->Check_mask;
            let expected = prog[s.pc as int]->Check_expected;
            let error = prog[s.pc as int]->Check_error;
            let t = after_read(s, prog, value);
            &&& next_action(s, prog) == Action::Read(prog[s.pc as int]->Check_reg)
            &&& value & mask != expected ==> t.failed == Some(error) && t.pc == s.pc && t.captured
                == s.captured && next_action(t, prog) == Action::Fail(error)
            &&& value & mask == expected ==> t.failed is None && t.pc == s.pc + 1 && t.captured
                == s.captured && t.staged is None
        }),
{
}

/// Whether every `WaitUntil` and `Check` of a procedure is satisfied on a
/// device whose register file changes only by the procedure's own stores.
pub open spec fn conditions_hold(dev: Device, regs: RegFile, prog: Seq<RegOp>) -> bool
    decreases prog.len(),
{
    if prog.len() == 0 {
        true
    } else {
        &&& match prog[0] {
            RegOp::WaitUntil { reg, mask, expected, .. } => masked_equals(dev(reg, regs(reg)), mask, expected),
            RegOp::Check { reg, mask, expected, .. } => masked_equals(dev(reg, regs(reg)), mask, expected),
            _ => true,
        }
        &&& conditions_hold(dev, op_effect_on(dev, regs, prog[0]), prog.drop_first())
    }
}

/// The values that the `Capture` operations of a procedure read from such a
/// device.
pub open spec fn captured_values(dev: Device, regs: RegFile, prog: Seq<RegOp>) -> Seq<u32>
    decreases prog.len(),
{
    if prog.len() == 0 {
        seq![]
    } else {
        let rest = captured_values(dev, op_effect_on(dev, regs, prog[0]), prog.drop_first());
        match prog[0] {
            RegOp::Capture { reg } => seq![dev(reg, regs(reg))] + rest,
            _ => rest,
        }
    }
}

/// The hardware accesses that a procedure takes when nothing fails.
pub open spec fn program_steps(prog: Seq<RegOp>) -> nat
    decreases prog.len(),
{
    if prog.len() == 0 {
        0
    } else {
        program_steps(prog.drop_first()) + if prog[0] is Modify {
            2nat
        } else {
            1nat
        }
    }
}

/// The firmware loop, run for `steps` accesses against a device: reads give
/// what the device shows for the register, writes store into it.
pub open spec fn drive(dev: Device, s: SeqState, prog: Seq<RegOp>, regs: RegFile, steps: nat) -> (
    SeqState,
    RegFile,
)
    decreases steps,
{
    if steps == 0 {
        (s, regs)
    } else {
        match next_action(s, prog) {
            Action::Read(r) => drive(dev, after_read(s, prog, dev(r, regs(r))), prog, regs, (steps - 1) as nat),
            Action::Write(r, v) => drive(dev, after_ack(s), prog, store(regs, r, v), (steps - 1) as nat),
            Action::Fence(_) => drive(dev, after_ack(s), prog, regs, (steps - 1) as nat),
            _ => (s, regs),
        }
    }
}

proof fn lemma_drive_from(dev: Device, s: SeqState, prog: Seq<RegOp>, regs: RegFile)
    requires
        s.pc <= prog.len(),
        s.staged is None,
        s.failed is None,
        conditions_hold(dev, regs, prog.skip(s.pc as int)),
    ensures
        ({
            let (t, after) = drive(dev, s, prog, regs, program_steps(prog.skip(s.pc as int)));
            &&& t.pc == prog.len()
            &&& t.staged is None
            &&& t.failed is None
            &&& t.captured == s.captured + captured_values(dev, regs, prog.skip(s.pc as int))
            &&& after == apply_program_on(dev, regs, prog.skip(s.pc as int))
        }),
    decreases prog.len() - s.pc,
{
    let rest = prog.skip(s.pc as int);
    if s.pc == prog.len() {
        assert(rest.len() == 0);
        assert(s.captured + seq![] =~= s.captured);
    } else {
        let op = prog[s.pc as int];
        assert(rest[0] == op);
        assert(rest.drop_first() =~= prog.skip(s.pc as int + 1));
        let next = advanced(s);
        let steps = program_steps(rest);
        let tail_steps = program_steps(prog.skip(s.pc as int + 1));
        match op {
            RegOp::Modify { reg, clear, set } => {
                let read = dev(reg, regs(reg));
                let s1 = after_read(s, prog, read);
                assert(next_action(s1, prog) == Action::Write(reg, modified(read, clear, set)));
                assert(after_ack(s1) == next);
                let regs1 = store(regs, reg, modified(read, clear, set));
                assert(regs1 == op_effect_on(dev, regs, op));
                assert(drive(dev, s, prog, regs, steps) == drive(dev, s1, prog, regs, (steps - 1) as nat));
                assert(drive(dev, s1, prog, regs, (steps - 1) as nat) == drive(dev, next, prog, regs1, tail_steps));
                lemma_drive_from(dev, next, prog, regs1);
            },
            RegOp::Write { reg, value } => {
                let regs1 = store(regs, reg, value);
                assert(regs1 == op_effect_on(dev, regs, op));
                assert(drive(dev, s, prog, regs, steps) == drive(dev, next, prog, regs1, tail_steps));
                lemma_drive_from(dev, next, prog, regs1);
            },
            RegOp::Fence { .. } => {
                assert(drive(dev, s, prog, regs, steps) == drive(dev, next, prog, regs, tail_steps));
                lemma_drive_from(dev, next, prog, regs);
            },
            RegOp::Capture { reg } => {
                let s1 = after_read(s, prog, dev(reg, regs(reg)));
                assert(drive(dev, s, prog, regs, steps) == drive(dev, s1, prog, regs, tail_steps));
                lemma_drive_from(dev, s1, prog, regs);
                assert(s.captured + captured_values(dev, regs, rest) =~= s1.captured + captured_values(
                    dev,
                    regs,
                    prog.skip(s.pc as int + 1),
                ));
            },
            RegOp::Touch { reg } => {
                assert(after_read(s, prog, dev(reg, regs(reg))) == next);
                assert(drive(dev, s, prog, regs, steps) == drive(dev, next, prog, regs, tail_steps));
                lemma_drive_from(dev, next, prog, regs);
            },
            RegOp::WaitUntil { reg, .. } => {
                assert(after_read(s, prog, dev(reg, regs(reg))) == next);
                assert(drive(dev, s, prog, regs, steps) == drive(dev, next, prog, regs, tail_steps));
                lemma_drive_from(dev, next, prog, regs);
            },
            RegOp::Check { reg, .. } => {
                assert(after_read(s, prog, dev(reg, regs(reg))) == next);
                assert(drive(dev, s, prog, regs, steps) == drive(dev, next, prog, regs, tail_steps));
                lemma_drive_from(dev, next, prog, regs);
            },
        }
    }
}

/// Driven against a device on which every wait and check of the procedure
/// is satisfied, the sequencer completes the procedure in `program_steps`
/// accesses, leaves the device as `apply_program_on` says, and records the
/// values that the procedure's captures read.
pub proof fn lemma_sequencer_runs_program(dev: Device, prog: Seq<RegOp>, regs: RegFile)
    requires
        conditions_hold(dev, regs, prog),
    ensures
        ({
            let (t, after) = drive(dev, initial_state(), prog, regs, program_steps(prog));
            &&& next_action(t, prog) == Action::Done
            &&& after == apply_program_on(dev, regs, prog)
            &&& t.captured == captured_values(dev, regs, prog)
        }),
{
    assert(prog.skip(0) =~= prog);
    lemma_drive_from(dev, initial_state(), prog, regs);
    assert(seq![] + captured_values(dev, regs, prog) =~= captured_values(dev, regs, prog));
}

/// The conditions of two procedures run one after the other.
pub proof fn lemma_conditions_concat(dev: Device, regs: RegFile, a: Seq<RegOp>, b: Seq<RegOp>)
    ensures
        conditions_hold(dev, regs, a + b) == (conditions_hold(dev, regs, a) && conditions_hold(
            dev,
            apply_program_on(dev, regs, a),
            b,
        )),
    decreases a.len(),
{
    if a.len() == 0 {
        assert(a + b =~= b);
    } else {
        assert((a + b)[0] == a[0]);
        assert((a + b).drop_first() =~= a.drop_first() + b);
        lemma_conditions_concat(dev, op_effect_on(dev, regs, a[0]), a.drop_first(), b);
    }
}

/// The captures of two procedures run one after the other.
pub proof fn lemma_captured_concat(dev: Device, regs: RegFile, a: Seq<RegOp>, b: Seq<RegOp>)
    ensures
        captured_values(dev, regs, a + b) == captured_values(dev, regs, a) + captured_values(
            dev,
            apply_program_on(dev, regs, a),
            b,
        ),
    decreases a.len(),
{
    if a.len() == 0 {
        assert(a + b =~= b);
        assert(seq![] + captured_values(dev, regs, b) =~= captured_values(dev, regs, b));
    } else {
        assert((a + b)[0] == a[0]);
        assert((a + b).drop_first() =~= a.drop_first() + b);
        lemma_captured_concat(dev, op_effect_on(dev, regs, a[0]), a.drop_first(), b);
        let rest_a = captured_values(dev, op_effect_on(dev, regs, a[0]), a.drop_first());
        let rest_b = captured_values(dev, apply_program_on(dev, regs, a), b);
        match a[0] {
            RegOp::Capture { reg } => {
                let v = dev(reg, regs(reg));
                assert(seq![v] + (rest_a + rest_b) =~= (seq![v] + rest_a) + rest_b);
            },
            _ => {},
        }
    }
}

/// A procedure without captures records nothing.
pub proof fn lemma_captured_none(dev: Device, regs: RegFile, prog: Seq<RegOp>)
    requires
        forall|i: int| 0 <= i < prog.len() ==> !(#[trigger] prog[i] is Capture),
    ensures
        captured_values(dev, regs, prog) == Seq::<u32>::empty(),
    decreases prog.len(),
{
    if prog.len() > 0 {
        assert(!(prog[0] is Capture));
        assert forall|i: int| 0 <= i < prog.drop_first().len() implies !(
        #[trigger] prog.drop_first()[i] is Capture) by {
            assert(prog.drop_first()[i] == prog[i + 1]);
        }
        lemma_captured_none(dev, op_effect_on(dev, regs, prog[0]), prog.drop_first());
    }
}

/// A procedure of captures only records what the device shows for the
/// registers it names, in order, and changes nothing.
pub proof fn lemma_captured_all(dev: Device, regs: RegFile, names: Seq<Reg>)
    ensures
        captured_values(dev, regs, names.map_values(|r: Reg| RegOp::Capture { reg: r }))
            == names.map_values(|r: Reg| dev(r, regs(r))),
        apply_program_on(dev, regs, names.map_values(|r: Reg| RegOp::Capture { reg: r })) == regs,
        conditions_hold(dev, regs, names.map_values(|r: Reg| RegOp::Capture { reg: r })),
    decreases names.len(),
{
    let prog = names.map_values(|r: Reg| RegOp::Capture { reg: r });
    if names.len() == 0 {
        assert(names.map_values(|r: Reg| dev(r, regs(r))) =~= Seq::<u32>::empty());
    } else {
        assert(prog.drop_first() =~= names.drop_first().map_values(|r: Reg| RegOp::Capture { reg: r }));
        assert(prog[0] == RegOp::Capture { reg: names[0] });
        assert(op_effect_on(dev, regs, prog[0]) == regs);
        lemma_captured_all(dev, regs, names.drop_first());
        assert(names.map_values(|r: Reg| dev(r, regs(r))) =~= seq![dev(names[0], regs(names[0]))]
            + names.drop_first().map_values(|r: Reg| dev(r, regs(r))));
    }
}

} // verus!
