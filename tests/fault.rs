use packet_marshal::fault::{FaultEvent, FaultState};

#[test]
fn starts_running_and_stays_running_on_statuses() {
    let s = FaultState::initial();
    assert_eq!(s, FaultState::Running);
    let s = s.step(FaultEvent::StatusReported).step(FaultEvent::StatusReported);
    assert_eq!(s, FaultState::Running);
    assert!(s.may_continue());
}

#[test]
fn unrecoverable_fault_halts_for_good() {
    let s = FaultState::initial().step(FaultEvent::UnrecoverableFault);
    assert_eq!(s, FaultState::Halted);
    assert!(!s.may_continue());
    assert_eq!(s.step(FaultEvent::StatusReported), FaultState::Halted);
    assert_eq!(s.step(FaultEvent::UnrecoverableFault), FaultState::Halted);
}
