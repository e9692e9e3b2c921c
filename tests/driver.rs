use antenna_relay::driver::{Supervisor, Verdict};
use antenna_relay::relay::RelayError;

#[test]
fn one_failure_fails_the_group_at_once() {
    let mut s = Supervisor::new(3);
    match s.record(Err(RelayError::Transport("gone".to_string()))) {
        Verdict::Failed(RelayError::Transport(m)) => assert_eq!(m, "gone"),
        other => panic!("unexpected {:?}", other),
    }
    assert!(s.is_stopped());
    assert_eq!(s.pending(), 2);
}

#[test]
fn failure_after_completions() {
    let mut s = Supervisor::new(3);
    assert!(matches!(s.record(Ok(())), Verdict::Waiting));
    assert!(matches!(
        s.record(Err(RelayError::Delivery("x".to_string()))),
        Verdict::Failed(RelayError::Delivery(_))
    ));
    assert!(s.is_stopped());
}

#[test]
fn all_completed_succeeds() {
    let mut s = Supervisor::new(2);
    assert!(matches!(s.record(Ok(())), Verdict::Waiting));
    assert!(!s.is_stopped());
    assert!(matches!(s.record(Ok(())), Verdict::Succeeded));
    assert!(s.is_stopped());
}

#[test]
fn no_tasks_is_done() {
    let s = Supervisor::new(0);
    assert!(s.is_stopped());
    assert_eq!(s.pending(), 0);
}
