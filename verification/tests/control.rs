//! The state that the interface observes, and the answer to a PIN.
use rgsp_cast::control::{
    is_pending, submit_pin, wait_until_resolved, ControlHandle, PendingEntry, PinResult, PinStage,
    PinStep, RpcError, Subscriber, NOT_READY_CODE, REJECTED_CODE,
};

fn entry(id: &str) -> PendingEntry {
    PendingEntry { id: id.to_string(), name: None, address: None }
}

fn refusal(code: i32, message: &str) -> PinStep {
    PinStep::Refuse(RpcError { code, message: message.to_string() })
}

#[test]
fn subscribe_delivers_a_snapshot_immediately() {
    let h = ControlHandle::new();
    let first = Subscriber::new().next(&h).expect("no snapshot");
    assert!(!first.casting, "a fresh handle is not casting");
    assert!(first.pending.is_empty());
}

#[test]
fn a_change_pushes_without_polling() {
    let mut h = ControlHandle::new();
    let mut sub = Subscriber::new();
    sub.next(&h).expect("snapshot");
    assert_eq!(sub.next(&h), None, "nothing changed");
    h.set_casting(true);
    let pushed = sub.next(&h).expect("no push");
    assert!(pushed.casting, "the change should have been pushed");
}

#[test]
fn two_changes_at_once_are_one_push_of_both() {
    let mut h = ControlHandle::new();
    let mut sub = Subscriber::new();
    sub.next(&h);
    h.set_client(Some("tv".to_string()));
    h.set_casting(true);
    h.set_pending(vec![entry("a")]);
    let s = sub.next(&h).unwrap();
    assert!(s.casting);
    assert_eq!(s.client.as_deref(), Some("tv"));
    assert_eq!(s.pending, vec![entry("a")]);
    assert_eq!(sub.next(&h), None);
}

#[test]
fn submit_pin_accepts_the_spec_object_shape() {
    // A handle with no pairing layer has nothing to pair with.
    let h = ControlHandle::new();
    assert_eq!(
        submit_pin(PinStage::Lookup, h.pairing_available()),
        refusal(NOT_READY_CODE, "pairing not available")
    );
}

#[test]
fn a_pin_goes_through_its_stages() {
    let mut h = ControlHandle::new();
    h.set_client_manager();
    assert_eq!(submit_pin(PinStage::Lookup, h.pairing_available()), PinStep::Register);
    assert_eq!(
        submit_pin(PinStage::Registered, false),
        refusal(REJECTED_CODE, "unknown client")
    );
    assert_eq!(submit_pin(PinStage::Registered, true), PinStep::Wait);
    assert_eq!(
        submit_pin(PinStage::Resolved, false),
        refusal(REJECTED_CODE, "pairing did not complete; check the PIN")
    );
    assert_eq!(
        submit_pin(PinStage::Resolved, true),
        PinStep::Answer(PinResult { paired: true })
    );
}

#[test]
fn an_already_resolved_state_answers_without_waiting() {
    assert_eq!(wait_until_resolved(false, false), Some(true));
}

#[test]
fn a_state_that_never_resolves_times_out() {
    assert_eq!(wait_until_resolved(true, false), None);
    assert_eq!(wait_until_resolved(true, true), Some(false));
}

#[test]
fn resolving_while_waiting_is_seen() {
    assert_eq!(wait_until_resolved(true, false), None);
    assert_eq!(wait_until_resolved(false, false), Some(true));
    // Even when time ran out in the same instant.
    assert_eq!(wait_until_resolved(false, true), Some(true));
}

#[test]
fn an_unrelated_change_does_not_end_the_wait() {
    for _ in 0..4 {
        assert_eq!(wait_until_resolved(true, false), None);
    }
    assert_eq!(wait_until_resolved(true, true), Some(false));
}

#[test]
fn a_pending_client_is_found_by_its_id() {
    let list = vec![entry("a"), entry("b")];
    assert!(is_pending(&list, "b"));
    assert!(!is_pending(&list, "c"));
    assert!(!is_pending(&vec![], "a"));
}

#[test]
fn every_change_is_counted_and_the_last_one_is_shown() {
    let mut h = ControlHandle::new();
    assert_eq!(h.change_count(), 0);
    let mut sub = Subscriber::new();
    h.set_casting(true);
    h.set_casting(false);
    h.set_client(Some("tv".to_string()));
    assert_eq!(h.change_count(), 3);
    assert_eq!(sub.next(&h), Some(h.snapshot()));
    assert_eq!(h.change_count(), 3, "looking changes nothing");
}
