use usb_test::power::{PowerState, SuspendResumeCoordinator};

// Sub-devices [A, B] registered in that order: a suspend cycle suspends A
// then B, blocks, then resumes B then A.
#[test]
fn suspend_then_resume_in_reverse() {
    const A: u32 = 1;
    const B: u32 = 2;
    let mut coord = SuspendResumeCoordinator::new();
    assert_eq!(coord.state(), PowerState::Running);
    coord.register(A);
    coord.register(B);

    let suspend_order = coord.begin_suspend();
    assert_eq!(suspend_order, vec![A, B]);
    assert_eq!(coord.state(), PowerState::SuspendPending);

    coord.enter_suspended();
    assert_eq!(coord.state(), PowerState::Suspended);

    let resume_order = coord.finish_resume();
    assert_eq!(resume_order, vec![B, A]);
    assert_eq!(coord.state(), PowerState::Running);
}

#[test]
fn resume_order_reverses_longer_registrations() {
    let mut coord = SuspendResumeCoordinator::new();
    for d in [10u32, 20, 30, 40] {
        coord.register(d);
    }
    assert_eq!(coord.begin_suspend(), vec![10, 20, 30, 40]);
    coord.enter_suspended();
    assert_eq!(coord.finish_resume(), vec![40, 30, 20, 10]);
}
