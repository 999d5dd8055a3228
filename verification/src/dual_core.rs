//! What the two cores share: the SRAM4 status words, the boot of the
//! Cortex-M4 through `RCC_GCR.BOOT_C2`, and the Cortex-M7 monitor of the
//! Cortex-M4 heartbeat.

use vstd::prelude::*;
use crate::fdcan::FdcanLoopbackResult;
use crate::regs::{
    Reg, Barrier, RegOp, RegFile, SetupError, Device, apply_program, apply_program_on, op_stores,
    store, modified, lemma_apply_concat, op_effect, lemma_untouched_register,
};
use crate::clock::{clock_program, clocks_at_400mhz};
use crate::regs::field;
use vstd::arithmetic::div_mod::{lemma_add_mod_noop, lemma_small_mod, lemma_mod_self_0};

verus! {

/// Start of SRAM4, which both cores reach.
pub const SRAM4_BASE: u32 = 0x3800_0000;

/// Size of SRAM4 in bytes.
pub const SRAM4_SIZE: u32 = 0x1_0000;

/// Magic word that the Cortex-M7 writes at boot.
pub const CM7_MAGIC_ADDR: u32 = 0x3800_0000;

/// Magic word that the Cortex-M4 writes at boot and in every heartbeat.
pub const CM4_MAGIC_ADDR: u32 = 0x3800_0004;

/// Heartbeat counter of the Cortex-M7.
pub const CM7_COUNT_ADDR: u32 = 0x3800_0008;

/// Heartbeat counter of the Cortex-M4.
pub const CM4_COUNT_ADDR: u32 = 0x3800_000C;

/// Outcome word of the FDCAN1 bring-up (`FDCAN_OK` or `FDCAN_FAIL`).
pub const FDCAN_RESULT_ADDR: u32 = 0x3800_0010;
pub const FDCAN_ENDN_ADDR: u32 = 0x3800_0014;
pub const FDCAN_CCCR_ADDR: u32 = 0x3800_0018;
pub const FDCAN_NBTP_ADDR: u32 = 0x3800_001C;
pub const FDCAN_PSR_ADDR: u32 = 0x3800_0020;
/// Holds `RCC_APB1HENR`.
pub const FDCAN_RCC_ADDR: u32 = 0x3800_0024;
pub const FDCAN_D2CCIP1R_ADDR: u32 = 0x3800_0028;
pub const FDCAN_TEST_ADDR: u32 = 0x3800_002C;
pub const FDCAN_ECR_ADDR: u32 = 0x3800_0030;
pub const FDCAN_TXBTO_ADDR: u32 = 0x3800_0034;
pub const FDCAN_RXF0S_ADDR: u32 = 0x3800_0038;
pub const FDCAN_RX_ID_ADDR: u32 = 0x3800_003C;
pub const FDCAN_RX_DLC_ADDR: u32 = 0x3800_0040;
pub const FDCAN_RX_DATA0_ADDR: u32 = 0x3800_0044;
pub const FDCAN_RX_DATA1_ADDR: u32 = 0x3800_0048;

/// The Cortex-M7 magic value.
pub const CM7_MAGIC: u32 = 0xC07C_07C7;

/// The Cortex-M4 magic value.
pub const CM4_MAGIC: u32 = 0xC04C_04C4;

/// Outcome word of a completed FDCAN1 bring-up.
pub const FDCAN_OK: u32 = 0xFDC0_0001;

/// Outcome word of a failed FDCAN1 bring-up.
pub const FDCAN_FAIL: u32 = 0xFDC0_DEAD;

/// Address of `RCC_GCR`.
pub const RCC_GCR_ADDR: u32 = 0x5802_44A0;

/// `RCC_GCR.BOOT_C2`: the Cortex-M4 may boot.
pub const RCC_GCR_BOOT_C2: u32 = 0x8;

/// Heartbeat iterations of the Cortex-M7 between two status reports.
pub const STATUS_PERIOD: u32 = 1_000_000;

/// A counter advanced by one, wrapping to 0 after `u32::MAX`.
pub open spec fn wrapping_next(c: u32) -> u32 {
    if c == u32::MAX {
        0
    } else {
        (c + 1) as u32
    }
}

/// A heartbeat counter advanced by one, wrapping to 0 after `u32::MAX`.
pub fn next_heartbeat(c: u32) -> (n: u32)
    ensures
        n == wrapping_next(c),
{
    c.wrapping_add(1)
}

/// `RCC_GCR` with `BOOT_C2` set: the Cortex-M4 may boot.
pub fn gcr_with_boot_c2(gcr: u32) -> (g: u32)
    ensures
        g == gcr | RCC_GCR_BOOT_C2,
{
    gcr | RCC_GCR_BOOT_C2
}

/// Whether `RCC_GCR` lets the Cortex-M4 boot.
pub fn boot_c2_enabled(gcr: u32) -> (on: bool)
    ensures
        on == (gcr & RCC_GCR_BOOT_C2 != 0),
{
    gcr & RCC_GCR_BOOT_C2 != 0
}

/// Setting `BOOT_C2` lets the Cortex-M4 boot, keeps every other bit of
/// `RCC_GCR`, and setting it again changes nothing.
pub proof fn lemma_boot_c2(gcr: u32)
    ensures
        (gcr | RCC_GCR_BOOT_C2) & RCC_GCR_BOOT_C2 != 0,
        (gcr | RCC_GCR_BOOT_C2) & !RCC_GCR_BOOT_C2 == gcr & !RCC_GCR_BOOT_C2,
        (gcr | RCC_GCR_BOOT_C2) | RCC_GCR_BOOT_C2 == gcr | RCC_GCR_BOOT_C2,
{
    assert((gcr | 8u32) & 8u32 != 0 && (gcr | 8u32) & !8u32 == gcr & !8u32 && ((gcr | 8u32) | 8u32)
        == gcr | 8u32) by (bit_vector);
}

/// The SRAM4 words that the Cortex-M7 writes.
pub open spec fn cm7_words() -> Set<u32> {
    set![CM7_MAGIC_ADDR, CM7_COUNT_ADDR]
}

/// The FDCAN status words, in the order in which the Cortex-M4 writes the
/// fields of a report.
pub open spec fn fdcan_status_addrs() -> Seq<u32> {
    seq![
        FDCAN_ENDN_ADDR,
        FDCAN_CCCR_ADDR,
        FDCAN_NBTP_ADDR,
        FDCAN_PSR_ADDR,
        FDCAN_RCC_ADDR,
        FDCAN_D2CCIP1R_ADDR,
        FDCAN_TEST_ADDR,
        FDCAN_ECR_ADDR,
        FDCAN_TXBTO_ADDR,
        FDCAN_RXF0S_ADDR,
        FDCAN_RX_ID_ADDR,
        FDCAN_RX_DLC_ADDR,
        FDCAN_RX_DATA0_ADDR,
        FDCAN_RX_DATA1_ADDR,
    ]
}

/// The words that the Cortex-M4 clears at boot, in order: the FDCAN outcome
/// word, then the FDCAN status words.
pub open spec fn fdcan_cleared_addrs() -> Seq<u32> {
    seq![FDCAN_RESULT_ADDR] + fdcan_status_addrs()
}

/// The SRAM4 words that the Cortex-M4 writes.
pub open spec fn cm4_words() -> Set<u32> {
    set![CM4_MAGIC_ADDR, CM4_COUNT_ADDR] + fdcan_cleared_addrs().to_set()
}

/// The writes of the Cortex-M7 at boot: its magic, its counter at zero.
pub open spec fn cm7_boot_writes_spec() -> Seq<(u32, u32)> {
    seq![(CM7_MAGIC_ADDR, CM7_MAGIC), (CM7_COUNT_ADDR, 0u32)]
}

/// The writes of the Cortex-M4 at boot: its magic, its counter at zero, and
/// every FDCAN word at zero.
pub open spec fn cm4_boot_writes_spec() -> Seq<(u32, u32)> {
    seq![(CM4_MAGIC_ADDR, CM4_MAGIC), (CM4_COUNT_ADDR, 0u32)] + fdcan_cleared_addrs().map_values(
        |a: u32| (a, 0u32),
    )
}

/// The SRAM4 writes of the Cortex-M7 at boot, in order.
pub fn cm7_boot_writes() -> (w: Vec<(u32, u32)>)
    ensures
        w@ == cm7_boot_writes_spec(),
{
    let w = vec![(CM7_MAGIC_ADDR, CM7_MAGIC), (CM7_COUNT_ADDR, 0u32)];
    assert(w@ =~= cm7_boot_writes_spec());
    w
}

/// The SRAM4 writes of the Cortex-M4 at boot, in order.
pub fn cm4_boot_writes() -> (w: Vec<(u32, u32)>)
    ensures
        w@ == cm4_boot_writes_spec(),
{
    let w = vec![
        (CM4_MAGIC_ADDR, CM4_MAGIC),
        (CM4_COUNT_ADDR, 0u32),
        (FDCAN_RESULT_ADDR, 0u32),
        (FDCAN_ENDN_ADDR, 0u32),
        (FDCAN_CCCR_ADDR, 0u32),
        (FDCAN_NBTP_ADDR, 0u32),
        (FDCAN_PSR_ADDR, 0u32),
        (FDCAN_RCC_ADDR, 0u32),
        (FDCAN_D2CCIP1R_ADDR, 0u32),
        (FDCAN_TEST_ADDR, 0u32),
        (FDCAN_ECR_ADDR, 0u32),
        (FDCAN_TXBTO_ADDR, 0u32),
        (FDCAN_RXF0S_ADDR, 0u32),
        (FDCAN_RX_ID_ADDR, 0u32),
        (FDCAN_RX_DLC_ADDR, 0u32),
        (FDCAN_RX_DATA0_ADDR, 0u32),
        (FDCAN_RX_DATA1_ADDR, 0u32),
    ];
    assert(w@ =~= cm4_boot_writes_spec());
    w
}

/// The values of a report, in the order of `fdcan_status_addrs`.
pub open spec fn fdcan_status_values(r: FdcanLoopbackResult) -> Seq<u32> {
    seq![
        r.endn,
        r.cccr,
        r.nbtp,
        r.psr,
        r.apb1henr,
        r.d2ccip1r,
        r.test,
        r.ecr,
        r.txbto,
        r.rxf0s,
        r.rx_id,
        r.rx_dlc,
        r.rx_data0,
        r.rx_data1,
    ]
}

/// The status writes that publish the outcome of the FDCAN1 bring-up,
/// before the outcome word: every field of a report, nothing for an error.
pub open spec fn fdcan_status_writes_spec(result: Result<FdcanLoopbackResult, SetupError>) -> Seq<
    (u32, u32),
> {
    match result {
        Ok(r) => Seq::new(14, |i: int| (fdcan_status_addrs()[i], fdcan_status_values(r)[i])),
        Err(_) => seq![],
    }
}

/// The outcome word of the FDCAN1 bring-up.
pub open spec fn fdcan_result_word_spec(result: Result<FdcanLoopbackResult, SetupError>) -> u32 {
    match result {
        Ok(_) => FDCAN_OK,
        Err(_) => FDCAN_FAIL,
    }
}

/// The status writes that publish the outcome of the FDCAN1 bring-up; the
/// outcome word (`fdcan_result_word`) follows them, after a barrier.
pub fn fdcan_status_writes(result: &Result<FdcanLoopbackResult, SetupError>) -> (w: Vec<(u32, u32)>)
    ensures
        w@ == fdcan_status_writes_spec(*result),
{
    match result {
        Ok(r) => {
            let w = vec![
                (FDCAN_ENDN_ADDR, r.endn),
                (FDCAN_CCCR_ADDR, r.cccr),
                (FDCAN_NBTP_ADDR, r.nbtp),
                (FDCAN_PSR_ADDR, r.psr),
                (FDCAN_RCC_ADDR, r.apb1henr),
                (FDCAN_D2CCIP1R_ADDR, r.d2ccip1r),
                (FDCAN_TEST_ADDR, r.test),
                (FDCAN_ECR_ADDR, r.ecr),
                (FDCAN_TXBTO_ADDR, r.txbto),
                (FDCAN_RXF0S_ADDR, r.rxf0s),
                (FDCAN_RX_ID_ADDR, r.rx_id),
                (FDCAN_RX_DLC_ADDR, r.rx_dlc),
                (FDCAN_RX_DATA0_ADDR, r.rx_data0),
                (FDCAN_RX_DATA1_ADDR, r.rx_data1),
            ];
            assert(w@ =~= fdcan_status_writes_spec(*result));
            w
        },
        Err(_) => {
            let w: Vec<(u32, u32)> = Vec::new();
            assert(w@ =~= fdcan_status_writes_spec(*result));
            w
        },
    }
}

/// The outcome word of the FDCAN1 bring-up: `FDCAN_OK` or `FDCAN_FAIL`.
pub fn fdcan_result_word(result: &Result<FdcanLoopbackResult, SetupError>) -> (word: u32)
    ensures
        word == fdcan_result_word_spec(*result),
{
    match result {
        Ok(_) => FDCAN_OK,
        Err(_) => FDCAN_FAIL,
    }
}

/// The shared words are distinct, word-aligned words of SRAM4, and the
/// words of one core are never written by the other: the Cortex-M7 keeps
/// what the Cortex-M4 wrote, even when the Cortex-M4 ran first.
pub proof fn lemma_sram4_layout()
    ensures
        cm7_words().disjoint(cm4_words()),
        forall|a: u32|
            cm7_words().contains(a) || cm4_words().contains(a) ==> SRAM4_BASE <= a < SRAM4_BASE
                + SRAM4_SIZE && a % 4 == 0,
        fdcan_cleared_addrs().no_duplicates(),
        forall|i: int|
            0 <= i < cm7_boot_writes_spec().len() ==> cm7_words().contains(
                #[trigger] cm7_boot_writes_spec()[i].0,
            ),
        forall|i: int|
            0 <= i < cm4_boot_writes_spec().len() ==> cm4_words().contains(
                #[trigger] cm4_boot_writes_spec()[i].0,
            ),
{
    let f = fdcan_cleared_addrs();
    assert forall|i: int| 0 <= i < f.len() implies 0x3800_0010 <= #[trigger] f[i] <= 0x3800_0048
        && f[i] % 4 == 0 && f[i] == 0x3800_0010 + 4 * i by {
    }
    assert forall|a: u32| f.to_set().contains(a) implies 0x3800_0010 <= a <= 0x3800_0048 && a % 4
        == 0 by {
        let i = f.index_of(a);
        assert(f[i] == a);
    }
    assert(cm7_words().disjoint(cm4_words()));
    assert forall|i: int, j: int| 0 <= i < f.len() && 0 <= j < f.len() && i != j implies f[i] != f[j] by {
    }
    let w7 = cm7_boot_writes_spec();
    let w4 = cm4_boot_writes_spec();
    assert forall|i: int| 0 <= i < w4.len() implies cm4_words().contains(#[trigger] w4[i].0) by {
        if i >= 2 {
            assert(w4[i].0 == f[i - 2]);
            assert(f.to_set().contains(f[i - 2]));
        }
    }
}

/// Publishing a report writes each of its fields to its own status word,
/// field by field and unchanged; publishing an error writes no field.
pub proof fn lemma_fdcan_status_publication(result: Result<FdcanLoopbackResult, SetupError>)
    ensures
        result is Ok ==> fdcan_status_writes_spec(result).len() == 14,
        result is Err ==> fdcan_status_writes_spec(result).len() == 0,
        forall|i: int|
            0 <= i < fdcan_status_writes_spec(result).len() ==> #[trigger] fdcan_status_writes_spec(
                result,
            )[i].0 == fdcan_status_addrs()[i],
        result matches Ok(r) ==> {
            let w = fdcan_status_writes_spec(result);
            &&& w[0] == (FDCAN_ENDN_ADDR, r.endn)
            &&& w[1] == (FDCAN_CCCR_ADDR, r.cccr)
            &&& w[2] == (FDCAN_NBTP_ADDR, r.nbtp)
            &&& w[3] == (FDCAN_PSR_ADDR, r.psr)
            &&& w[4] == (FDCAN_RCC_ADDR, r.apb1henr)
            &&& w[5] == (FDCAN_D2CCIP1R_ADDR, r.d2ccip1r)
            &&& w[6] == (FDCAN_TEST_ADDR, r.test)
            &&& w[7] == (FDCAN_ECR_ADDR, r.ecr)
            &&& w[8] == (FDCAN_TXBTO_ADDR, r.txbto)
            &&& w[9] == (FDCAN_RXF0S_ADDR, r.rxf0s)
            &&& w[10] == (FDCAN_RX_ID_ADDR, r.rx_id)
            &&& w[11] == (FDCAN_RX_DLC_ADDR, r.rx_dlc)
            &&& w[12] == (FDCAN_RX_DATA0_ADDR, r.rx_data0)
            &&& w[13] == (FDCAN_RX_DATA1_ADDR, r.rx_data1)
        },
        fdcan_result_word_spec(result) == if result is Ok {
            FDCAN_OK
        } else {
            FDCAN_FAIL
        },
{
}

/// What the Cortex-M7 has learned of the Cortex-M4 heartbeat.
#[derive(Clone, Copy, Debug, PartialEq, Eq, Structural)]
pub struct HeartbeatMonitor {
    /// The Cortex-M7 heartbeat counter.
    pub cm7_counter: u32,
    /// Observations since the last status report.
    pub print_divider: u32,
    /// Whether the Cortex-M4 magic has been seen.
    pub cm4_detected: bool,
    /// The Cortex-M4 counter at the last observation after detection.
    pub previous_cm4_counter: u32,
    /// Consecutive observations in which the Cortex-M4 counter did not change.
    pub stale_count: u32,
}

/// What one observation of the Cortex-M4 words calls for.
#[derive(Clone, Copy, Debug, PartialEq, Eq, Structural)]
pub struct IdleReport {
    /// The Cortex-M4 magic was seen for the first time.
    pub newly_detected: bool,
    /// A status report is due.
    pub status_due: bool,
}

/// The monitor after one observation of the Cortex-M4 magic and counter.
pub open spec fn observed(m: HeartbeatMonitor, cm4_magic: u32, cm4_counter: u32) -> HeartbeatMonitor {
    let newly = !m.cm4_detected && cm4_magic == CM4_MAGIC;
    let detected = m.cm4_detected || newly;
    let previous = if newly {
        cm4_counter
    } else {
        m.previous_cm4_counter
    };
    let stale = if newly {
        0u32
    } else {
        m.stale_count
    };
    let divider = wrapping_next(m.print_divider);
    HeartbeatMonitor {
        cm7_counter: m.cm7_counter,
        print_divider: if divider >= STATUS_PERIOD {
            0
        } else {
            divider
        },
        cm4_detected: detected,
        previous_cm4_counter: if detected {
            cm4_counter
        } else {
            previous
        },
        stale_count: if detected {
            if cm4_counter == previous {
                wrapping_next(stale)
            } else {
                0
            }
        } else {
            stale
        },
    }
}

/// What one observation calls for.
pub open spec fn observation_report(m: HeartbeatMonitor, cm4_magic: u32) -> IdleReport {
    IdleReport {
        newly_detected: !m.cm4_detected && cm4_magic == CM4_MAGIC,
        status_due: wrapping_next(m.print_divider) >= STATUS_PERIOD,
    }
}

impl HeartbeatMonitor {
    /// The monitor at boot: nothing seen, counters at zero.
    pub fn new() -> (m: HeartbeatMonitor)
        ensures
            m == (HeartbeatMonitor {
                cm7_counter: 0,
                print_divider: 0,
                cm4_detected: false,
                previous_cm4_counter: 0,
                stale_count: 0,
            }),
    {
        HeartbeatMonitor {
            cm7_counter: 0,
            print_divider: 0,
            cm4_detected: false,
            previous_cm4_counter: 0,
            stale_count: 0,
        }
    }

    /// Advances the Cortex-M7 heartbeat; returns the value to publish.
    pub fn tick(&mut self) -> (c: u32)
        ensures
            c == wrapping_next(old(self).cm7_counter),
            *final(self) == (HeartbeatMonitor { cm7_counter: c, ..*old(self) }),
    {
        self.cm7_counter = next_heartbeat(self.cm7_counter);
        self.cm7_counter
    }

    /// Takes one reading of the Cortex-M4 magic and counter.
    pub fn observe(&mut self, cm4_magic: u32, cm4_counter: u32) -> (r: IdleReport)
        ensures
            *final(self) == observed(*old(self), cm4_magic, cm4_counter),
            r == observation_report(*old(self), cm4_magic),
    {
        let newly = !self.cm4_detected && cm4_magic == CM4_MAGIC;
        if newly {
            self.cm4_detected = true;
            self.previous_cm4_counter = cm4_counter;
            self.stale_count = 0;
        }
        if self.cm4_detected {
            if cm4_counter == self.previous_cm4_counter {
                self.stale_count = next_heartbeat(self.stale_count);
            } else {
                self.stale_count = 0;
                self.previous_cm4_counter = cm4_counter;
            }
        }
        self.print_divider = next_heartbeat(self.print_divider);
        let status_due = self.print_divider >= STATUS_PERIOD;
        if status_due {
            self.print_divider = 0;
        }
        IdleReport { newly_detected: newly, status_due }
    }
}

/// The monitor never forgets the Cortex-M4, detects it only by its magic,
/// counts an unchanged counter as stale and a changed one as fresh, and
/// asks for a status report on every `STATUS_PERIOD`-th observation.
pub proof fn lemma_monitor_observation(m: HeartbeatMonitor, cm4_magic: u32, cm4_counter: u32)
    requires
        m.print_divider < STATUS_PERIOD,
    ensures
        ({
            let n = observed(m, cm4_magic, cm4_counter);
            let r = observation_report(m, cm4_magic);
            &&& m.cm4_detected ==> n.cm4_detected
            &&& n.cm4_detected <==> (m.cm4_detected || cm4_magic == CM4_MAGIC)
            &&& n.cm4_detected ==> n.previous_cm4_counter == cm4_counter
            &&& m.cm4_detected && cm4_counter != m.previous_cm4_counter ==> n.stale_count == 0
            &&& m.cm4_detected && cm4_counter == m.previous_cm4_counter ==> n.stale_count
                == wrapping_next(m.stale_count)
            &&& r.newly_detected ==> n.stale_count == 1
            &&& !n.cm4_detected ==> n.stale_count == m.stale_count && n.previous_cm4_counter
                == m.previous_cm4_counter
            &&& n.print_divider < STATUS_PERIOD
            &&& r.status_due <==> m.print_divider == STATUS_PERIOD - 1
            &&& r.status_due ==> n.print_divider == 0
            &&& !r.status_due ==> n.print_divider == m.print_divider + 1
            &&& n.cm7_counter == m.cm7_counter
        }),
{
}

/// A write of one SRAM4 word.
pub open spec fn sram4_write(w: (u32, u32)) -> RegOp {
    RegOp::Write { reg: Reg::Sram4(w.0), value: w.1 }
}

/// The Cortex-M7 boot words, then a barrier that completes them.
pub open spec fn cm7_boot_words_ops() -> Seq<RegOp> {
    cm7_boot_writes_spec().map_values(|w: (u32, u32)| sram4_write(w)) + seq![
        RegOp::Fence { barrier: Barrier::Dsb },
    ]
}

/// Letting the Cortex-M4 boot (`boot_cm4`): set `BOOT_C2` by a
/// read-modify-write of `RCC_GCR`, complete it, then wake the other core.
pub open spec fn boot_cm4_ops() -> Seq<RegOp> {
    seq![
        RegOp::Modify { reg: Reg::RccGcr, clear: RCC_GCR_BOOT_C2, set: RCC_GCR_BOOT_C2 },
        RegOp::Fence { barrier: Barrier::Dsb },
        RegOp::Fence { barrier: Barrier::Isb },
        RegOp::Fence { barrier: Barrier::Sev },
    ]
}

/// The Cortex-M7 start-up: the clock configuration, the Cortex-M7 boot
/// words, then the boot of the Cortex-M4.
pub open spec fn cm7_startup_ops() -> Seq<RegOp> {
    clock_program() + cm7_boot_words_ops() + boot_cm4_ops()
}

/// The register procedure that lets the Cortex-M4 boot (`boot_cm4`).
pub fn boot_cm4_program() -> (ops: Vec<RegOp>)
    ensures
        ops@ == boot_cm4_ops(),
{
    let ops = vec![
        RegOp::Modify { reg: Reg::RccGcr, clear: RCC_GCR_BOOT_C2, set: RCC_GCR_BOOT_C2 },
        RegOp::Fence { barrier: Barrier::Dsb },
        RegOp::Fence { barrier: Barrier::Isb },
        RegOp::Fence { barrier: Barrier::Sev },
    ];
    assert(ops@ =~= boot_cm4_ops());
    ops
}

/// The register procedure of the Cortex-M7 start-up: clocks first, then
/// the Cortex-M7 boot words, then the Cortex-M4 boot.
pub fn cm7_startup_program() -> (ops: Vec<RegOp>)
    ensures
        ops@ == cm7_startup_ops(),
{
    let mut ops = crate::clock::configure_400mhz_program();
    let mut words = vec![
        RegOp::Write { reg: Reg::Sram4(CM7_MAGIC_ADDR), value: CM7_MAGIC },
        RegOp::Write { reg: Reg::Sram4(CM7_COUNT_ADDR), value: 0 },
        RegOp::Fence { barrier: Barrier::Dsb },
    ];
    assert(words@ =~= cm7_boot_words_ops());
    let mut boot = boot_cm4_program();
    ops.append(&mut words);
    ops.append(&mut boot);
    ops
}

/// Booting the Cortex-M4 stores only into `RCC_GCR`: the value read with
/// `BOOT_C2` set, every other bit as read; on a device that reads back
/// what it holds, that is `gcr_with_boot_c2` of the value held.
pub proof fn lemma_boot_cm4_effect(dev: Device, regs: RegFile)
    ensures
        apply_program_on(dev, regs, boot_cm4_ops()) == store(
            regs,
            Reg::RccGcr,
            dev(Reg::RccGcr, regs(Reg::RccGcr)) | RCC_GCR_BOOT_C2,
        ),
        apply_program(regs, boot_cm4_ops()) == store(
            regs,
            Reg::RccGcr,
            regs(Reg::RccGcr) | RCC_GCR_BOOT_C2,
        ),
        forall|i: int|
            0 <= i < boot_cm4_ops().len() && #[trigger] op_stores(boot_cm4_ops()[i], Reg::RccGcr)
                ==> i == 0,
{
    let g = dev(Reg::RccGcr, regs(Reg::RccGcr));
    let h = regs(Reg::RccGcr);
    assert(((g & !8u32) | 8u32) == g | 8u32 && ((h & !8u32) | 8u32) == h | 8u32) by (bit_vector);
    reveal_with_fuel(apply_program_on, 5);
    reveal_with_fuel(apply_program, 5);
    assert(apply_program_on(dev, regs, boot_cm4_ops()) =~= store(regs, Reg::RccGcr, g | RCC_GCR_BOOT_C2));
    assert(apply_program(regs, boot_cm4_ops()) =~= store(regs, Reg::RccGcr, h | RCC_GCR_BOOT_C2));
}

/// The order of the Cortex-M7 start-up: the clock configuration comes
/// first; then the Cortex-M7 magic and counter words, a DSB, the one store
/// into `RCC_GCR`, and DSB, ISB, SEV in that order. No store touches a
/// Cortex-M4 word, and the clock tree is at 400 MHz (HSI divider /1) when
/// `BOOT_C2` is set.
pub proof fn lemma_cm7_startup_order(regs: RegFile)
    ensures
        ({
            let ops = cm7_startup_ops();
            let k = clock_program().len() as int;
            &&& ops.len() == k + 7
            &&& ops.take(k) == clock_program()
            &&& ops[k] == RegOp::Write { reg: Reg::Sram4(CM7_MAGIC_ADDR), value: CM7_MAGIC }
            &&& ops[k + 1] == RegOp::Write { reg: Reg::Sram4(CM7_COUNT_ADDR), value: 0u32 }
            &&& ops[k + 2] == RegOp::Fence { barrier: Barrier::Dsb }
            &&& ops[k + 3] == RegOp::Modify {
                reg: Reg::RccGcr,
                clear: RCC_GCR_BOOT_C2,
                set: RCC_GCR_BOOT_C2,
            }
            &&& ops[k + 4] == RegOp::Fence { barrier: Barrier::Dsb }
            &&& ops[k + 5] == RegOp::Fence { barrier: Barrier::Isb }
            &&& ops[k + 6] == RegOp::Fence { barrier: Barrier::Sev }
            &&& forall|i: int| 0 <= i < ops.len() && #[trigger] op_stores(ops[i], Reg::RccGcr) ==> i == k + 3
            &&& forall|i: int, a: u32|
                0 <= i < ops.len() && #[trigger] op_stores(ops[i], Reg::Sram4(a)) ==> cm7_words().contains(a)
            &&& field(regs(Reg::RccCr), 3, 3) == 0 ==> clocks_at_400mhz(apply_program(regs, ops.take(k + 3)))
        }),
{
    let ops = cm7_startup_ops();
    let c = clock_program();
    let w = cm7_boot_words_ops();
    let b = boot_cm4_ops();
    let k = c.len() as int;
    assert(w =~= seq![
        RegOp::Write { reg: Reg::Sram4(CM7_MAGIC_ADDR), value: CM7_MAGIC },
        RegOp::Write { reg: Reg::Sram4(CM7_COUNT_ADDR), value: 0u32 },
        RegOp::Fence { barrier: Barrier::Dsb },
    ]);
    assert(ops.take(k) =~= c);
    crate::clock::lemma_clock_program_no_foreign_stores();
    assert forall|i: int| 0 <= i < ops.len() && #[trigger] op_stores(ops[i], Reg::RccGcr) implies i == k + 3 by {
        if i < k {
            assert(ops[i] == c[i]);
        }
    }
    assert forall|i: int, a: u32|
        0 <= i < ops.len() && #[trigger] op_stores(ops[i], Reg::Sram4(a)) implies cm7_words().contains(a) by {
        if i < k {
            assert(ops[i] == c[i]);
        }
    }
    if field(regs(Reg::RccCr), 3, 3) == 0 {
        let after_clock = apply_program(regs, c);
        crate::clock::lemma_clock_program_frequencies(regs);
        assert(ops.take(k + 3) =~= c + w);
        lemma_apply_concat(regs, c, w);
        reveal_with_fuel(apply_program, 4);
        let after_words = apply_program(after_clock, w);
        assert(after_words =~= store(
            store(after_clock, Reg::Sram4(CM7_MAGIC_ADDR), CM7_MAGIC),
            Reg::Sram4(CM7_COUNT_ADDR),
            0u32,
        ));
        assert(clocks_at_400mhz(after_words));
    }
}

/// The writes of a list of SRAM4 words, in order.
fn sram4_writes(words: &Vec<(u32, u32)>) -> (ops: Vec<RegOp>)
    ensures
        ops@ == words@.map_values(|w: (u32, u32)| sram4_write(w)),
{
    let mut ops: Vec<RegOp> = Vec::new();
    let mut i: usize = 0;
    while i < words.len()
        invariant
            i <= words.len(),
            ops@ == words@.take(i as int).map_values(|w: (u32, u32)| sram4_write(w)),
        decreases words.len() - i,
    {
        let (addr, value) = words[i];
        ops.push(RegOp::Write { reg: Reg::Sram4(addr), value });
        proof {
            assert(words@.take(i + 1) =~= words@.take(i as int).push(words@[i as int]));
        }
        i = i + 1;
        proof {
            assert(ops@ =~= words@.take(i as int).map_values(|w: (u32, u32)| sram4_write(w)));
        }
    }
    assert(words@.take(words.len() as int) =~= words@);
    ops
}

/// The Cortex-M4 boot words: its magic, its counter at zero, every FDCAN
/// word at zero.
pub open spec fn cm4_boot_ops() -> Seq<RegOp> {
    cm4_boot_writes_spec().map_values(|w: (u32, u32)| sram4_write(w))
}

/// Publishing the outcome of the FDCAN1 bring-up: the status words, a DMB,
/// then the outcome word last.
pub open spec fn publish_ops(result: Result<FdcanLoopbackResult, SetupError>) -> Seq<RegOp> {
    fdcan_status_writes_spec(result).map_values(|w: (u32, u32)| sram4_write(w)) + seq![
        RegOp::Fence { barrier: Barrier::Dmb },
        sram4_write((FDCAN_RESULT_ADDR, fdcan_result_word_spec(result))),
    ]
}

/// The Cortex-M4 start-up with a given outcome of the bring-up: boot words,
/// the FDCAN1 bring-up, then the publication of its outcome.
pub open spec fn cm4_init_ops(result: Result<FdcanLoopbackResult, SetupError>) -> Seq<RegOp> {
    cm4_boot_ops() + crate::fdcan::fdcan_program() + publish_ops(result)
}

/// The register procedure of the Cortex-M4 boot words.
pub fn cm4_boot_program() -> (ops: Vec<RegOp>)
    ensures
        ops@ == cm4_boot_ops(),
{
    let words = cm4_boot_writes();
    sram4_writes(&words)
}

/// The register procedure that publishes the outcome of the bring-up.
pub fn publish_program(result: &Result<FdcanLoopbackResult, SetupError>) -> (ops: Vec<RegOp>)
    ensures
        ops@ == publish_ops(*result),
{
    let words = fdcan_status_writes(result);
    let mut ops = sram4_writes(&words);
    ops.push(RegOp::Fence { barrier: Barrier::Dmb });
    ops.push(RegOp::Write { reg: Reg::Sram4(FDCAN_RESULT_ADDR), value: fdcan_result_word(result) });
    assert(ops@ =~= publish_ops(*result));
    ops
}

/// A run of SRAM4 writes to distinct words leaves each word holding the
/// value written to it.
proof fn lemma_sram4_writes_land(regs: RegFile, w: Seq<(u32, u32)>, i: int)
    requires
        0 <= i < w.len(),
        forall|j: int, k: int| 0 <= j < w.len() && 0 <= k < w.len() && j != k ==> w[j].0 != w[k].0,
    ensures
        apply_program(regs, w.map_values(|x: (u32, u32)| sram4_write(x)))(Reg::Sram4(w[i].0))
            == w[i].1,
    decreases w.len(),
{
    let ops = w.map_values(|x: (u32, u32)| sram4_write(x));
    let rest = w.drop_first();
    let tail = ops.drop_first();
    assert(tail =~= rest.map_values(|x: (u32, u32)| sram4_write(x)));
    let regs1 = op_effect(regs, ops[0]);
    if i == 0 {
        assert forall|k: int| 0 <= k < tail.len() implies !op_stores(
            #[trigger] tail[k],
            Reg::Sram4(w[0].0),
        ) by {
            assert(tail[k] == sram4_write(w[k + 1]));
            assert(w[k + 1].0 != w[0].0);
        }
        lemma_untouched_register(regs1, tail, Reg::Sram4(w[0].0));
    } else {
        assert(rest[i - 1] == w[i]);
        lemma_sram4_writes_land(regs1, rest, i - 1);
    }
}

/// Publishing the outcome of the bring-up, whatever SRAM4 held before: after
/// a report, each status word holds its field of the report, unchanged, and
/// the outcome word holds `FDCAN_OK`; after an error, every status word
/// keeps what it held and the outcome word holds `FDCAN_FAIL`.
pub proof fn lemma_publish_effect(regs: RegFile, result: Result<FdcanLoopbackResult, SetupError>)
    ensures
        ({
            let after = apply_program(regs, publish_ops(result));
            &&& result is Ok ==> after(Reg::Sram4(FDCAN_RESULT_ADDR)) == FDCAN_OK
            &&& result is Err ==> after(Reg::Sram4(FDCAN_RESULT_ADDR)) == FDCAN_FAIL
            &&& result matches Ok(r) ==> {
                &&& after(Reg::Sram4(FDCAN_ENDN_ADDR)) == r.endn
                &&& after(Reg::Sram4(FDCAN_CCCR_ADDR)) == r.cccr
                &&& after(Reg::Sram4(FDCAN_NBTP_ADDR)) == r.nbtp
                &&& after(Reg::Sram4(FDCAN_PSR_ADDR)) == r.psr
                &&& after(Reg::Sram4(FDCAN_RCC_ADDR)) == r.apb1henr
                &&& after(Reg::Sram4(FDCAN_D2CCIP1R_ADDR)) == r.d2ccip1r
                &&& after(Reg::Sram4(FDCAN_TEST_ADDR)) == r.test
                &&& after(Reg::Sram4(FDCAN_ECR_ADDR)) == r.ecr
                &&& after(Reg::Sram4(FDCAN_TXBTO_ADDR)) == r.txbto
                &&& after(Reg::Sram4(FDCAN_RXF0S_ADDR)) == r.rxf0s
                &&& after(Reg::Sram4(FDCAN_RX_ID_ADDR)) == r.rx_id
                &&& after(Reg::Sram4(FDCAN_RX_DLC_ADDR)) == r.rx_dlc
                &&& after(Reg::Sram4(FDCAN_RX_DATA0_ADDR)) == r.rx_data0
                &&& after(Reg::Sram4(FDCAN_RX_DATA1_ADDR)) == r.rx_data1
            }
            &&& result is Err ==> forall|i: int|
                0 <= i < 14 ==> after(Reg::Sram4(#[trigger] fdcan_status_addrs()[i])) == regs(
                    Reg::Sram4(fdcan_status_addrs()[i]),
                )
        }),
{
    let st = fdcan_status_writes_spec(result);
    let wops = st.map_values(|x: (u32, u32)| sram4_write(x));
    let last = seq![
        RegOp::Fence { barrier: Barrier::Dmb },
        sram4_write((FDCAN_RESULT_ADDR, fdcan_result_word_spec(result))),
    ];
    assert(publish_ops(result) =~= wops + last);
    lemma_apply_concat(regs, wops, last);
    let mid = apply_program(regs, wops);
    let after = apply_program(regs, publish_ops(result));
    reveal_with_fuel(apply_program, 3);
    assert(after == store(mid, Reg::Sram4(FDCAN_RESULT_ADDR), fdcan_result_word_spec(result)));
    let a = fdcan_status_addrs();
    assert forall|i: int| 0 <= i < 14 implies #[trigger] a[i] == 0x3800_0014 + 4 * i by {}
    lemma_fdcan_status_publication(result);
    match result {
        Ok(r) => {
            assert forall|i: int| 0 <= i < 14 implies mid(Reg::Sram4(#[trigger] st[i].0))
                == st[i].1 by {
                assert forall|j: int, k: int|
                    0 <= j < st.len() && 0 <= k < st.len() && j != k implies st[j].0 != st[k].0 by {
                    assert(st[j].0 == a[j] && st[k].0 == a[k]);
                }
                lemma_sram4_writes_land(regs, st, i);
            }
            assert(mid(Reg::Sram4(st[0].0)) == st[0].1);
            assert(mid(Reg::Sram4(st[1].0)) == st[1].1);
            assert(mid(Reg::Sram4(st[2].0)) == st[2].1);
            assert(mid(Reg::Sram4(st[3].0)) == st[3].1);
            assert(mid(Reg::Sram4(st[4].0)) == st[4].1);
            assert(mid(Reg::Sram4(st[5].0)) == st[5].1);
            assert(mid(Reg::Sram4(st[6].0)) == st[6].1);
            assert(mid(Reg::Sram4(st[7].0)) == st[7].1);
            assert(mid(Reg::Sram4(st[8].0)) == st[8].1);
            assert(mid(Reg::Sram4(st[9].0)) == st[9].1);
            assert(mid(Reg::Sram4(st[10].0)) == st[10].1);
            assert(mid(Reg::Sram4(st[11].0)) == st[11].1);
            assert(mid(Reg::Sram4(st[12].0)) == st[12].1);
            assert(mid(Reg::Sram4(st[13].0)) == st[13].1);
        },
        Err(_) => {
            assert(wops =~= Seq::<RegOp>::empty());
            assert(mid == regs);
        },
    }
}

/// The order of the Cortex-M4 start-up: the outcome word is cleared before
/// the bring-up and written last, right after a DMB that follows every
/// status word; the bring-up stores into no SRAM4 word; every SRAM4 store
/// is to a Cortex-M4 word. A core that reads `FDCAN_OK` therefore reads the
/// final status words.
pub proof fn lemma_cm4_init_order(result: Result<FdcanLoopbackResult, SetupError>)
    ensures
        ({
            let ops = cm4_init_ops(result);
            let b = cm4_boot_ops().len() as int;
            let f = crate::fdcan::fdcan_program().len() as int;
            let n = ops.len() as int;
            &&& b == 17
            &&& ops[2] == sram4_write((FDCAN_RESULT_ADDR, 0u32))
            &&& ops.subrange(b, b + f) == crate::fdcan::fdcan_program()
            &&& ops[n - 2] == RegOp::Fence { barrier: Barrier::Dmb }
            &&& ops[n - 1] == sram4_write((FDCAN_RESULT_ADDR, fdcan_result_word_spec(result)))
            &&& forall|i: int|
                0 <= i < n && #[trigger] op_stores(ops[i], Reg::Sram4(FDCAN_RESULT_ADDR)) ==> i == 2 || i
                    == n - 1
            &&& forall|i: int, a: u32|
                0 <= i < n && #[trigger] op_stores(ops[i], Reg::Sram4(a)) ==> cm4_words().contains(a)
                    && (i < b || b + f <= i < n - 2 || i == n - 1)
        }),
{
    let ops = cm4_init_ops(result);
    let a = cm4_boot_ops();
    let fd = crate::fdcan::fdcan_program();
    let p = publish_ops(result);
    let st = fdcan_status_writes_spec(result);
    let b = a.len() as int;
    let f = fd.len() as int;
    let n = ops.len() as int;
    lemma_sram4_layout();
    lemma_fdcan_status_publication(result);
    crate::fdcan::lemma_fdcan_no_sram4_stores();
    assert(ops.subrange(b, b + f) =~= fd);
    let cl = fdcan_cleared_addrs();
    assert forall|i: int| 0 <= i < n && #[trigger] op_stores(ops[i], Reg::Sram4(FDCAN_RESULT_ADDR)) implies i
        == 2 || i == n - 1 by {
        if i < b {
            assert(ops[i] == a[i]);
            if i >= 2 {
                assert(a[i] == sram4_write((cl[i - 2], 0u32)));
                assert(cl[i - 2] == FDCAN_RESULT_ADDR + 4 * (i - 2));
            }
        } else if i < b + f {
            assert(ops[i] == fd[i - b]);
        } else {
            assert(ops[i] == p[i - b - f]);
            if i - b - f < st.len() {
                assert(p[i - b - f] == sram4_write(st[i - b - f]));
                assert(st[i - b - f].0 == fdcan_status_addrs()[i - b - f]);
                assert(fdcan_status_addrs()[i - b - f] == cl[i - b - f + 1]);
            }
        }
    }
    assert forall|i: int, x: u32| 0 <= i < n && #[trigger] op_stores(ops[i], Reg::Sram4(x)) implies
        cm4_words().contains(x) && (i < b || b + f <= i < n - 2 || i == n - 1) by {
        if i < b {
            assert(ops[i] == a[i]);
            assert(cm4_words().contains(cm4_boot_writes_spec()[i].0));
        } else if i < b + f {
            assert(ops[i] == fd[i - b]);
        } else {
            assert(ops[i] == p[i - b - f]);
            if i - b - f < st.len() {
                assert(p[i - b - f] == sram4_write(st[i - b - f]));
                assert(st[i - b - f].0 == fdcan_status_addrs()[i - b - f]);
                assert(fdcan_status_addrs()[i - b - f] == cl[i - b - f + 1]);
                assert(cl.to_set().contains(cl[i - b - f + 1]));
            } else if i == n - 1 {
                assert(cl[0] == FDCAN_RESULT_ADDR);
                assert(cl.to_set().contains(cl[0]));
            }
        }
    }
}

/// The NOPs with which the Cortex-M4 paces its heartbeat.
pub const CM4_IDLE_NOPS: u32 = 1000;

/// One iteration of the Cortex-M4 heartbeat: its magic, its counter, then
/// `CM4_IDLE_NOPS` NOPs.
pub open spec fn cm4_heartbeat_ops(counter: u32) -> Seq<RegOp> {
    seq![sram4_write((CM4_MAGIC_ADDR, CM4_MAGIC)), sram4_write((CM4_COUNT_ADDR, counter))]
        + Seq::new(CM4_IDLE_NOPS as nat, |i: int| RegOp::Fence { barrier: Barrier::Nop })
}

/// The register procedure of one Cortex-M4 heartbeat iteration.
pub fn cm4_heartbeat_program(counter: u32) -> (ops: Vec<RegOp>)
    ensures
        ops@ == cm4_heartbeat_ops(counter),
{
    let mut ops = vec![
        RegOp::Write { reg: Reg::Sram4(CM4_MAGIC_ADDR), value: CM4_MAGIC },
        RegOp::Write { reg: Reg::Sram4(CM4_COUNT_ADDR), value: counter },
    ];
    let mut n: u32 = 0;
    while n < CM4_IDLE_NOPS
        invariant
            n <= CM4_IDLE_NOPS,
            ops@.len() == 2 + n,
            ops@[0] == sram4_write((CM4_MAGIC_ADDR, CM4_MAGIC)),
            ops@[1] == sram4_write((CM4_COUNT_ADDR, counter)),
            forall|j: int| 2 <= j < ops@.len() ==> #[trigger] ops@[j] == (RegOp::Fence { barrier: Barrier::Nop }),
        decreases CM4_IDLE_NOPS - n,
    {
        ops.push(RegOp::Fence { barrier: Barrier::Nop });
        n = n + 1;
    }
    assert(ops@ =~= cm4_heartbeat_ops(counter));
    ops
}

/// One iteration of the Cortex-M7 monitor: its counter, then a read of the
/// Cortex-M4 magic and counter.
pub open spec fn cm7_idle_ops(counter: u32) -> Seq<RegOp> {
    seq![
        sram4_write((CM7_COUNT_ADDR, counter)),
        RegOp::Capture { reg: Reg::Sram4(CM4_MAGIC_ADDR) },
        RegOp::Capture { reg: Reg::Sram4(CM4_COUNT_ADDR) },
    ]
}

/// The register procedure of one Cortex-M7 monitor iteration.
pub fn cm7_idle_program(counter: u32) -> (ops: Vec<RegOp>)
    ensures
        ops@ == cm7_idle_ops(counter),
{
    let ops = vec![
        RegOp::Write { reg: Reg::Sram4(CM7_COUNT_ADDR), value: counter },
        RegOp::Capture { reg: Reg::Sram4(CM4_MAGIC_ADDR) },
        RegOp::Capture { reg: Reg::Sram4(CM4_COUNT_ADDR) },
    ];
    assert(ops@ =~= cm7_idle_ops(counter));
    ops
}

/// A heartbeat counter after `k` advances from zero.
pub open spec fn heartbeat_after(k: nat) -> u32
    decreases k,
{
    if k == 0 {
        0
    } else {
        wrapping_next(heartbeat_after((k - 1) as nat))
    }
}

/// Counting one more, modulo `m`.
proof fn lemma_mod_step(k: int, m: int)
    requires
        m > 1,
        k >= 1,
    ensures
        k % m == if (k - 1) % m + 1 == m {
            0
        } else {
            (k - 1) % m + 1
        },
{
    lemma_add_mod_noop(k - 1, 1, m);
    lemma_small_mod(1, m as nat);
    let r = (k - 1) % m;
    if r + 1 == m {
        lemma_mod_self_0(m);
    } else {
        lemma_small_mod((r + 1) as nat, m as nat);
    }
}

/// A heartbeat counter after `k` advances is `k` modulo 2^32.
pub proof fn lemma_heartbeat_after(k: nat)
    ensures
        heartbeat_after(k) as int == (k as int) % 0x1_0000_0000,
    decreases k,
{
    if k > 0 {
        lemma_heartbeat_after((k - 1) as nat);
        lemma_mod_step(k as int, 0x1_0000_0000);
    }
}

/// The `k`-th iteration (from 1) of the Cortex-M4 heartbeat writes its magic
/// and then `k` modulo 2^32 to its counter, and stores nothing else.
pub proof fn lemma_cm4_heartbeat_iteration(k: nat)
    requires
        k >= 1,
    ensures
        ({
            let ops = cm4_heartbeat_ops(heartbeat_after(k));
            &&& heartbeat_after(k) as int == (k as int) % 0x1_0000_0000
            &&& ops[0] == sram4_write((CM4_MAGIC_ADDR, CM4_MAGIC))
            &&& ops[1] == sram4_write((CM4_COUNT_ADDR, heartbeat_after(k)))
            &&& ops.len() == 2 + CM4_IDLE_NOPS
            &&& forall|i: int| 2 <= i < ops.len() ==> #[trigger] ops[i] == RegOp::Fence { barrier: Barrier::Nop }
            &&& forall|i: int, reg: Reg|
                0 <= i < ops.len() && #[trigger] op_stores(ops[i], reg) ==> (i == 0 && reg == Reg::Sram4(
                    CM4_MAGIC_ADDR,
                )) || (i == 1 && reg == Reg::Sram4(CM4_COUNT_ADDR))
        }),
{
    lemma_heartbeat_after(k);
    let ops = cm4_heartbeat_ops(heartbeat_after(k));
    assert forall|i: int, reg: Reg| 0 <= i < ops.len() && #[trigger] op_stores(ops[i], reg) implies (i == 0
        && reg == Reg::Sram4(CM4_MAGIC_ADDR)) || (i == 1 && reg == Reg::Sram4(CM4_COUNT_ADDR)) by {
        if i >= 2 {
            assert(ops[i] == RegOp::Fence { barrier: Barrier::Nop });
        }
    }
}

/// A Cortex-M7 monitor iteration stores only the Cortex-M7 counter, then
/// reads the Cortex-M4 magic and counter.
pub proof fn lemma_cm7_idle_iteration(counter: u32)
    ensures
        forall|i: int, reg: Reg|
            0 <= i < cm7_idle_ops(counter).len() && #[trigger] op_stores(cm7_idle_ops(counter)[i], reg)
                ==> i == 0 && reg == Reg::Sram4(CM7_COUNT_ADDR),
{
}

/// The monitor at boot.
pub open spec fn initial_monitor() -> HeartbeatMonitor {
    HeartbeatMonitor {
        cm7_counter: 0,
        print_divider: 0,
        cm4_detected: false,
        previous_cm4_counter: 0,
        stale_count: 0,
    }
}

/// The monitor with its own heartbeat advanced.
pub open spec fn ticked(m: HeartbeatMonitor) -> HeartbeatMonitor {
    HeartbeatMonitor { cm7_counter: wrapping_next(m.cm7_counter), ..m }
}

/// One iteration of the Cortex-M7 idle loop: advance the heartbeat, then
/// observe the Cortex-M4 magic and counter.
pub open spec fn idle_iteration(m: HeartbeatMonitor, cm4_magic: u32, cm4_counter: u32) -> HeartbeatMonitor {
    observed(ticked(m), cm4_magic, cm4_counter)
}

/// The monitor after one iteration per reading of (magic, counter), from boot.
pub open spec fn monitor_after(reads: Seq<(u32, u32)>) -> HeartbeatMonitor
    decreases reads.len(),
{
    if reads.len() == 0 {
        initial_monitor()
    } else {
        idle_iteration(monitor_after(reads.drop_last()), reads.last().0, reads.last().1)
    }
}

/// Whether the Cortex-M4 magic was read in one of the readings.
pub open spec fn magic_seen(reads: Seq<(u32, u32)>) -> bool {
    exists|j: int| 0 <= j < reads.len() && (#[trigger] reads[j]).0 == CM4_MAGIC
}

/// After `k` iterations from boot: the Cortex-M7 counter is `k` modulo
/// 2^32, the Cortex-M4 counts as detected exactly when its magic was read in
/// one of them, the status divider is `k` modulo `STATUS_PERIOD`, and once
/// detected the monitor remembers the last Cortex-M4 counter it read.
pub proof fn lemma_monitor_run(reads: Seq<(u32, u32)>)
    ensures
        ({
            let m = monitor_after(reads);
            &&& m.cm7_counter == heartbeat_after(reads.len())
            &&& m.cm7_counter as int == (reads.len() as int) % 0x1_0000_0000
            &&& m.cm4_detected == magic_seen(reads)
            &&& m.print_divider as int == (reads.len() as int) % (STATUS_PERIOD as int)
            &&& m.cm4_detected ==> m.previous_cm4_counter == reads.last().1
        }),
    decreases reads.len(),
{
    lemma_heartbeat_after(reads.len());
    if reads.len() > 0 {
        let prev = reads.drop_last();
        lemma_monitor_run(prev);
        lemma_mod_step(reads.len() as int, STATUS_PERIOD as int);
        if magic_seen(prev) {
            let j = choose|j: int| 0 <= j < prev.len() && (#[trigger] prev[j]).0 == CM4_MAGIC;
            assert(reads[j] == prev[j]);
        }
        if reads.last().0 == CM4_MAGIC {
            assert(reads[reads.len() - 1].0 == CM4_MAGIC);
        }
        if magic_seen(reads) && !magic_seen(prev) {
            let j = choose|j: int| 0 <= j < reads.len() && (#[trigger] reads[j]).0 == CM4_MAGIC;
            if j < prev.len() {
                assert(prev[j] == reads[j]);
            }
        }
    }
}

/// Iteration `i` (from 0) of the Cortex-M7 idle loop: it announces the
/// Cortex-M4 exactly in the first iteration that reads its magic (so the
/// banner appears once); it asks for a status report exactly when `i + 1` is
/// a multiple of `STATUS_PERIOD`; the stale count is 1 on detection and
/// afterwards counts the iterations since the Cortex-M4 counter last
/// changed; the Cortex-M7 counter it publishes is `i + 1` modulo 2^32.
pub proof fn lemma_idle_iteration(reads: Seq<(u32, u32)>, i: int)
    requires
        0 <= i < reads.len(),
    ensures
        ({
            let before = monitor_after(reads.take(i));
            let after = monitor_after(reads.take(i + 1));
            let r = observation_report(ticked(before), reads[i].0);
            &&& after == idle_iteration(before, reads[i].0, reads[i].1)
            &&& after.cm7_counter as int == (i + 1) % 0x1_0000_0000
            &&& r.newly_detected <==> (reads[i].0 == CM4_MAGIC && !magic_seen(reads.take(i)))
            &&& r.status_due <==> (i + 1) % (STATUS_PERIOD as int) == 0
            &&& r.newly_detected ==> after.stale_count == 1
            &&& magic_seen(reads.take(i)) ==> i > 0 && after.stale_count == if reads[i].1 == reads[i
                - 1].1 {
                wrapping_next(before.stale_count)
            } else {
                0
            }
        }),
{
    let pre = reads.take(i);
    let cur = reads.take(i + 1);
    assert(cur.drop_last() =~= pre);
    assert(cur.last() == reads[i]);
    lemma_monitor_run(pre);
    lemma_monitor_run(cur);
    lemma_mod_step(i + 1, STATUS_PERIOD as int);
    lemma_monitor_observation(ticked(monitor_after(pre)), reads[i].0, reads[i].1);
    if magic_seen(pre) {
        let j = choose|j: int| 0 <= j < pre.len() && (#[trigger] pre[j]).0 == CM4_MAGIC;
        assert(i > 0);
        assert(pre.last() == reads[i - 1]);
    }
}

} // verus!
