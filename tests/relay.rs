use antenna_relay::relay::{RelayAction, RelayError, RelayEvent, RelayPhase, RelayTask};

fn task() -> RelayTask {
    RelayTask::new("https://example.test/".to_string())
}

fn note(id: &str) -> RelayEvent {
    RelayEvent::NoteArrived(id.to_string())
}

fn deliver_text(a: RelayAction) -> String {
    match a {
        RelayAction::Deliver(t) => t,
        other => panic!("expected a delivery, got {:?}", other),
    }
}

#[test]
fn three_notes_are_delivered_in_order() {
    let mut t = task();
    let mut delivered = Vec::new();
    assert!(matches!(t.step(RelayEvent::Subscribed), RelayAction::PullNext));
    for id in ["e1", "e2", "e3"] {
        assert!(!t.accepts(&RelayEvent::Delivered));
        let link = deliver_text(t.step(note(id)));
        assert_eq!(t.phase(), RelayPhase::Delivering);
        assert!(!t.accepts(&note("other")));
        delivered.push(link);
        assert!(matches!(t.step(RelayEvent::Delivered), RelayAction::PullNext));
    }
    assert_eq!(
        delivered,
        vec![
            "https://example.test/notes/e1".to_string(),
            "https://example.test/notes/e2".to_string(),
            "https://example.test/notes/e3".to_string(),
        ]
    );
    assert_eq!(t.phase(), RelayPhase::Awaiting);
}

#[test]
fn stream_failure_after_first_note_stops() {
    let mut t = task();
    t.step(RelayEvent::Subscribed);
    let link = deliver_text(t.step(note("e1")));
    assert_eq!(link, "https://example.test/notes/e1");
    assert!(matches!(t.step(RelayEvent::Delivered), RelayAction::PullNext));
    match t.step(RelayEvent::StreamFailed("connection closed".to_string())) {
        RelayAction::Fail(RelayError::Transport(m)) => assert_eq!(m, "connection closed"),
        other => panic!("unexpected {:?}", other),
    }
    assert_eq!(t.phase(), RelayPhase::Failed);
    assert!(!t.accepts(&note("e2")));
}

#[test]
fn subscription_failure() {
    let mut t = task();
    assert_eq!(t.phase(), RelayPhase::Subscribing);
    match t.step(RelayEvent::SubscribeFailed("no such antenna".to_string())) {
        RelayAction::Fail(RelayError::Subscription(m)) => assert_eq!(m, "no such antenna"),
        other => panic!("unexpected {:?}", other),
    }
    assert_eq!(t.phase(), RelayPhase::Failed);
}

#[test]
fn delivery_failure_stops_without_retry() {
    let mut t = task();
    t.step(RelayEvent::Subscribed);
    t.step(note("e1"));
    match t.step(RelayEvent::DeliveryFailed("404".to_string())) {
        RelayAction::Fail(RelayError::Delivery(m)) => assert_eq!(m, "404"),
        other => panic!("unexpected {:?}", other),
    }
    assert!(!t.accepts(&RelayEvent::Delivered));
    assert!(!t.accepts(&note("e2")));
}

#[test]
fn stream_end_completes() {
    let mut t = task();
    t.step(RelayEvent::Subscribed);
    assert!(matches!(t.step(RelayEvent::StreamEnded), RelayAction::Complete));
    assert_eq!(t.phase(), RelayPhase::Completed);
}

#[test]
fn malformed_base_fails_on_first_note() {
    let mut t = RelayTask::new("not a url".to_string());
    t.step(RelayEvent::Subscribed);
    assert!(matches!(
        t.step(note("e1")),
        RelayAction::Fail(RelayError::UrlConstruction(_))
    ));
    assert_eq!(t.phase(), RelayPhase::Failed);
}
