use h757_dual::clock::configure_400mhz_program;
use h757_dual::dual_core::{
    boot_cm4_program, cm4_boot_program, cm4_heartbeat_program, cm7_idle_program,
    cm7_startup_program, publish_program, FDCAN_RESULT_ADDR,
    boot_c2_enabled, cm4_boot_writes, cm7_boot_writes, fdcan_result_word, fdcan_status_writes,
    gcr_with_boot_c2, next_heartbeat, HeartbeatMonitor, IdleReport, CM4_MAGIC, CM7_MAGIC,
    FDCAN_FAIL, FDCAN_OK, STATUS_PERIOD,
};
use h757_dual::fdcan::FdcanLoopbackResult;
use h757_dual::regs::{Barrier, Reg, RegOp, SetupError};

#[test]
fn sram4_layout_matches_readme() {
    assert_eq!(
        cm7_boot_writes(),
        vec![(0x3800_0000, 0xC07C_07C7), (0x3800_0008, 0)]
    );
    let w = cm4_boot_writes();
    assert_eq!(w[0], (0x3800_0004, 0xC04C_04C4));
    assert_eq!(w[1], (0x3800_000C, 0));
    assert_eq!(w.len(), 17);
    for (i, (addr, value)) in w[2..].iter().enumerate() {
        assert_eq!(*addr, 0x3800_0010 + 4 * i as u32);
        assert_eq!(*value, 0);
    }
    assert_eq!(CM7_MAGIC, 0xC07C_07C7);
    assert_eq!(CM4_MAGIC, 0xC04C_04C4);
}

#[test]
fn cm7_never_writes_cm4_words() {
    let cm7 = cm7_boot_writes();
    let cm4 = cm4_boot_writes();
    for (a, _) in cm7.iter() {
        assert!(cm4.iter().all(|(b, _)| a != b));
    }
}

#[test]
fn boot_c2_is_bit_3_of_gcr() {
    assert_eq!(gcr_with_boot_c2(0), 0x8);
    assert_eq!(gcr_with_boot_c2(0x0000_0001), 0x0000_0009);
    assert_eq!(gcr_with_boot_c2(0xFFFF_FFF7), 0xFFFF_FFFF);
    assert!(boot_c2_enabled(gcr_with_boot_c2(0x1234_0000)));
    assert!(!boot_c2_enabled(0x0000_0007));
    assert!(boot_c2_enabled(0x0000_0008));
}

#[test]
fn heartbeat_wraps() {
    assert_eq!(next_heartbeat(0), 1);
    assert_eq!(next_heartbeat(41), 42);
    assert_eq!(next_heartbeat(u32::MAX), 0);
}

#[test]
fn status_publication_of_a_report() {
    let r = FdcanLoopbackResult {
        endn: 1,
        cccr: 2,
        nbtp: 3,
        test: 4,
        psr: 5,
        ecr: 6,
        txbto: 7,
        rxf0s: 8,
        rx_id: 9,
        rx_dlc: 10,
        rx_data0: 11,
        rx_data1: 12,
        d2ccip1r: 13,
        apb1henr: 14,
    };
    let ok: Result<FdcanLoopbackResult, SetupError> = Ok(r);
    let w = fdcan_status_writes(&ok);
    assert_eq!(
        w,
        vec![
            (0x3800_0014, 1),
            (0x3800_0018, 2),
            (0x3800_001C, 3),
            (0x3800_0020, 5),
            (0x3800_0024, 14),
            (0x3800_0028, 13),
            (0x3800_002C, 4),
            (0x3800_0030, 6),
            (0x3800_0034, 7),
            (0x3800_0038, 8),
            (0x3800_003C, 9),
            (0x3800_0040, 10),
            (0x3800_0044, 11),
            (0x3800_0048, 12),
        ]
    );
    assert_eq!(fdcan_result_word(&ok), FDCAN_OK);
    assert_eq!(FDCAN_OK, 0xFDC0_0001);
}

#[test]
fn status_publication_of_an_error() {
    let err: Result<FdcanLoopbackResult, SetupError> = Err(SetupError::FdcanInitTimeout);
    assert!(fdcan_status_writes(&err).is_empty());
    assert_eq!(fdcan_result_word(&err), FDCAN_FAIL);
    assert_eq!(FDCAN_FAIL, 0xFDC0_DEAD);
}

#[test]
fn monitor_detects_cm4_by_magic_only() {
    let mut m = HeartbeatMonitor::new();
    assert_eq!(m.tick(), 1);
    let r = m.observe(0, 5);
    assert_eq!(r, IdleReport { newly_detected: false, status_due: false });
    assert!(!m.cm4_detected);
    assert_eq!(m.stale_count, 0);
    let r = m.observe(CM4_MAGIC, 5);
    assert!(r.newly_detected);
    assert!(m.cm4_detected);
    assert_eq!(m.previous_cm4_counter, 5);
    // the detecting observation already counts as one without change
    assert_eq!(m.stale_count, 1);
    // once detected, the magic no longer matters
    let r = m.observe(0, 5);
    assert!(!r.newly_detected);
    assert!(m.cm4_detected);
    assert_eq!(m.stale_count, 2);
    m.observe(0, 6);
    assert_eq!(m.stale_count, 0);
    assert_eq!(m.previous_cm4_counter, 6);
}

#[test]
fn monitor_reports_status_every_period() {
    let mut m = HeartbeatMonitor::new();
    let mut reports = 0u32;
    for i in 1..=(2 * STATUS_PERIOD + 10) {
        m.tick();
        let r = m.observe(CM4_MAGIC, i);
        if r.status_due {
            reports += 1;
            assert!(i % STATUS_PERIOD == 0);
        }
        assert_eq!(m.stale_count, if i == 1 { 1 } else { 0 });
    }
    assert_eq!(reports, 2);
    assert_eq!(m.print_divider, 10);
    assert_eq!(m.cm7_counter, 2 * STATUS_PERIOD + 10);
}

#[test]
fn boot_cm4_sets_boot_c2_then_dsb_isb_sev() {
    assert_eq!(
        boot_cm4_program(),
        vec![
            RegOp::Modify { reg: Reg::RccGcr, clear: 8, set: 8 },
            RegOp::Fence { barrier: Barrier::Dsb },
            RegOp::Fence { barrier: Barrier::Isb },
            RegOp::Fence { barrier: Barrier::Sev },
        ]
    );
}

#[test]
fn cm7_startup_configures_clocks_before_booting_cm4() {
    let clock = configure_400mhz_program();
    let ops = cm7_startup_program();
    let k = clock.len();
    assert_eq!(ops.len(), k + 7);
    assert_eq!(&ops[..k], &clock[..]);
    assert_eq!(ops[k], RegOp::Write { reg: Reg::Sram4(0x3800_0000), value: 0xC07C_07C7 });
    assert_eq!(ops[k + 1], RegOp::Write { reg: Reg::Sram4(0x3800_0008), value: 0 });
    assert_eq!(ops[k + 2], RegOp::Fence { barrier: Barrier::Dsb });
    assert_eq!(ops[k + 3], RegOp::Modify { reg: Reg::RccGcr, clear: 8, set: 8 });
    assert_eq!(ops[k + 6], RegOp::Fence { barrier: Barrier::Sev });
}

#[test]
fn cm4_clears_then_publishes_outcome_last() {
    let boot = cm4_boot_program();
    assert_eq!(boot.len(), 17);
    assert_eq!(boot[2], RegOp::Write { reg: Reg::Sram4(FDCAN_RESULT_ADDR), value: 0 });
    let err: Result<FdcanLoopbackResult, SetupError> = Err(SetupError::FdcanCceTimeout);
    assert_eq!(
        publish_program(&err),
        vec![
            RegOp::Fence { barrier: Barrier::Dmb },
            RegOp::Write { reg: Reg::Sram4(0x3800_0010), value: 0xFDC0_DEAD },
        ]
    );
    let r = FdcanLoopbackResult {
        endn: 1,
        cccr: 2,
        nbtp: 3,
        test: 4,
        psr: 5,
        ecr: 6,
        txbto: 7,
        rxf0s: 8,
        rx_id: 0,
        rx_dlc: 0,
        rx_data0: 0,
        rx_data1: 0,
        d2ccip1r: 9,
        apb1henr: 10,
    };
    let ops = publish_program(&Ok(r));
    assert_eq!(ops.len(), 16);
    assert_eq!(ops[0], RegOp::Write { reg: Reg::Sram4(0x3800_0014), value: 1 });
    assert_eq!(ops[14], RegOp::Fence { barrier: Barrier::Dmb });
    assert_eq!(ops[15], RegOp::Write { reg: Reg::Sram4(0x3800_0010), value: 0xFDC0_0001 });
}

#[test]
fn heartbeat_iterations() {
    let ops = cm4_heartbeat_program(7);
    assert_eq!(ops.len(), 1002);
    assert_eq!(ops[0], RegOp::Write { reg: Reg::Sram4(0x3800_0004), value: 0xC04C_04C4 });
    assert_eq!(ops[1], RegOp::Write { reg: Reg::Sram4(0x3800_000C), value: 7 });
    assert!(ops[2..].iter().all(|op| *op == RegOp::Fence { barrier: Barrier::Nop }));
    assert_eq!(
        cm7_idle_program(3),
        vec![
            RegOp::Write { reg: Reg::Sram4(0x3800_0008), value: 3 },
            RegOp::Capture { reg: Reg::Sram4(0x3800_0004) },
            RegOp::Capture { reg: Reg::Sram4(0x3800_000C) },
        ]
    );
}

#[test]
fn banner_once_and_stale_counting_over_a_run() {
    let mut m = HeartbeatMonitor::new();
    let reads = [(0, 0), (CM4_MAGIC, 4), (0, 4), (CM4_MAGIC, 4), (0, 5), (CM4_MAGIC, 5)];
    let mut banners = 0;
    let mut stale = Vec::new();
    for (magic, counter) in reads.iter() {
        m.tick();
        if m.observe(*magic, *counter).newly_detected {
            banners += 1;
        }
        stale.push(m.stale_count);
    }
    assert_eq!(banners, 1);
    assert_eq!(stale, vec![0, 1, 2, 3, 0, 1]);
    assert_eq!(m.cm7_counter, 6);
}
