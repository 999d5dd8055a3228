use h757_dual::regs::{modify_value, Barrier, Reg, RegOp, SetupError, POLL_LIMIT};
use h757_dual::sequencer::{Action, Sequencer};

#[test]
fn modify_clears_then_sets() {
    assert_eq!(modify_value(0xFFFF_FFFF, 0x0000_00F0, 0x0000_0050), 0xFFFF_FF5F);
    assert_eq!(modify_value(0, 0x3, 0x1), 0x1);
    assert_eq!(modify_value(0x1234_5678, 0, 0), 0x1234_5678);
}

#[test]
fn modify_reads_then_writes() {
    let prog = vec![RegOp::Modify { reg: Reg::FdcanCccr, clear: 0x3, set: 0x1 }];
    let mut s = Sequencer::new();
    assert_eq!(s.action(&prog), Action::Read(Reg::FdcanCccr));
    s.on_read(&prog, 0xF2);
    assert_eq!(s.action(&prog), Action::Write(Reg::FdcanCccr, 0xF1));
    s.on_ack(&prog);
    assert_eq!(s.action(&prog), Action::Done);
    assert_eq!(s.outcome(&prog), Ok(()));
}

#[test]
fn check_fails_on_a_mismatch() {
    let prog = vec![
        RegOp::Check {
            reg: Reg::RccD2ccip1r,
            mask: 0x3000_0000,
            expected: 0x1000_0000,
            error: SetupError::FdcanselWriteFailed,
        },
        RegOp::Write { reg: Reg::FdcanNbtp, value: 1 },
    ];
    let mut s = Sequencer::new();
    s.on_read(&prog, 0x2000_0000);
    assert_eq!(s.action(&prog), Action::Fail(SetupError::FdcanselWriteFailed));
    let mut s = Sequencer::new();
    s.on_read(&prog, 0x1FFF_FFFF);
    assert_eq!(s.action(&prog), Action::Write(Reg::FdcanNbtp, 1));
}

#[test]
fn wait_gives_up_after_the_poll_limit() {
    let prog = vec![
        RegOp::WaitUntil {
            reg: Reg::PwrCsr1,
            mask: 0x2000,
            expected: 0x2000,
            error: SetupError::ActvosrdyTimeout,
        },
        RegOp::Fence { barrier: Barrier::Dsb },
    ];
    let mut s = Sequencer::new();
    for _ in 0..POLL_LIMIT - 1 {
        assert_eq!(s.action(&prog), Action::Read(Reg::PwrCsr1));
        s.on_read(&prog, 0);
    }
    // one poll left: a match still succeeds
    let mut t = Sequencer::new();
    for _ in 0..POLL_LIMIT - 1 {
        t.on_read(&prog, 0);
    }
    t.on_read(&prog, 0x2000);
    assert_eq!(t.action(&prog), Action::Fence(Barrier::Dsb));
    s.on_read(&prog, 0);
    assert_eq!(s.action(&prog), Action::Fail(SetupError::ActvosrdyTimeout));
    assert_eq!(s.outcome(&prog), Err(SetupError::ActvosrdyTimeout));
}

#[test]
fn captures_are_recorded_in_order() {
    let prog = vec![
        RegOp::Capture { reg: Reg::FdcanPsr },
        RegOp::Touch { reg: Reg::FdcanEcr },
        RegOp::Capture { reg: Reg::FdcanEcr },
    ];
    let mut s = Sequencer::new();
    assert_eq!(s.action(&prog), Action::Read(Reg::FdcanPsr));
    s.on_read(&prog, 7);
    s.on_read(&prog, 8);
    s.on_read(&prog, 9);
    assert_eq!(s.action(&prog), Action::Done);
    assert_eq!(s.captured(), &vec![7, 9]);
}
