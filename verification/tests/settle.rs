use pms7003::settle::SettleGate;

const SECOND: u128 = 1_000_000_000;

#[test]
fn no_settle_time_reports_from_the_first_frame() {
    let mut gate = SettleGate::new(0);
    assert!(gate.is_waiting_for_first());
    assert!(gate.should_report(17 * SECOND));
    assert!(!gate.is_waiting_for_first());
    assert!(gate.should_report(17 * SECOND));
}

#[test]
fn frames_inside_the_window_are_held_back() {
    let mut gate = SettleGate::new(30 * SECOND);
    assert!(!gate.should_report(100 * SECOND));
    assert!(!gate.should_report(101 * SECOND));
    assert!(!gate.should_report(130 * SECOND - 1));
    assert!(gate.should_report(130 * SECOND));
    assert!(gate.should_report(500 * SECOND));
}

#[test]
fn window_is_measured_from_the_first_frame_only() {
    let mut gate = SettleGate::new(10 * SECOND);
    assert!(!gate.should_report(5 * SECOND));
    assert!(!gate.should_report(14 * SECOND));
    // ten seconds after the second frame would be 24 s: the first counts.
    assert!(gate.should_report(15 * SECOND));
}

#[test]
fn clock_set_back_ends_the_window() {
    let mut gate = SettleGate::new(10 * SECOND);
    assert!(!gate.should_report(50 * SECOND));
    assert!(gate.should_report(49 * SECOND));
    assert!(!gate.should_report(51 * SECOND));
}

#[test]
fn largest_times_do_not_overflow() {
    let mut gate = SettleGate::new(u128::MAX);
    assert!(!gate.should_report(0));
    assert!(!gate.should_report(u128::MAX - 1));
    assert!(gate.should_report(u128::MAX));
}
