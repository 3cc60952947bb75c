//! What the daemon's replies mean to the interface.
use rgsp_cast::rpc::{CastState, Control, PinOutcome, PinReply, PinResult, StatePoll};

fn submitted(reply: PinReply) -> (Result<PinOutcome, String>, bool) {
    let mut control = Control::connect();
    control.start_submit_pin();
    assert!(control.is_waiting());
    let r = control.poll_submit_pin(Some(reply)).expect("a reply came");
    assert!(!control.is_waiting());
    (r, control.is_connected())
}

#[test]
fn snapshot_arrives_on_subscribe_and_submit_pin_round_trips() {
    let mut control = Control::connect();
    assert!(control.is_connected());
    assert_eq!(control.poll_state(StatePoll::Nothing), None);
    let state = CastState { casting: false, client: None, pending: Vec::new() };
    let snapshot = control.poll_state(StatePoll::State(state)).expect("snapshot");
    assert!(!snapshot.casting);
    assert!(snapshot.pending.is_empty());

    let (outcome, connected) = submitted(PinReply::Answered(PinResult { paired: true }));
    assert_eq!(outcome, Ok(PinOutcome::Paired));
    assert!(connected);
}

#[test]
fn a_transport_failure_marks_the_connection_dead() {
    let (result, connected) = submitted(PinReply::Broken("closed".to_string()));
    assert!(result.is_err(), "a dead server must not look like a successful (or even a rejected) pairing");
    assert!(!connected, "a transport failure, unlike an RPC error, must mark the client disconnected");
    assert!(!submitted(PinReply::TimedOut).1);
    assert!(!submitted(PinReply::TaskFailed("x".to_string())).1);

    let mut control = Control::connect();
    assert_eq!(control.poll_state(StatePoll::Ended), None);
    assert!(!control.is_connected());
    // It does not heal.
    let state = CastState { casting: true, client: None, pending: Vec::new() };
    control.poll_state(StatePoll::State(state));
    assert!(!control.is_connected());
}

#[test]
fn submit_pin_distinguishes_not_ready_from_rejected() {
    let (outcome, connected) = submitted(PinReply::Refused {
        code: -32000,
        message: "pairing not available".to_string(),
    });
    assert_eq!(outcome, Ok(PinOutcome::NotReady));
    assert!(connected, "a live daemon's answer must not look like a dead connection");

    let (outcome, connected) = submitted(PinReply::Refused {
        code: -32001,
        message: "unknown client or bad pin".to_string(),
    });
    assert_eq!(outcome, Ok(PinOutcome::Rejected));
    assert!(connected, "a live daemon's answer must not look like a dead connection");
}

#[test]
fn answers_that_make_no_sense_are_errors_of_a_live_daemon() {
    let (r, connected) = submitted(PinReply::Answered(PinResult { paired: false }));
    assert_eq!(r, Err("submit_pin succeeded but reported paired: false".to_string()));
    assert!(connected);
    let (r, connected) = submitted(PinReply::Refused { code: 7, message: "what".to_string() });
    assert_eq!(r, Err("what".to_string()));
    assert!(connected);
}

#[test]
fn every_transport_failure_has_its_text() {
    assert_eq!(
        submitted(PinReply::TimedOut).0,
        Err("submit_pin timed out after 5s".to_string())
    );
    assert_eq!(
        submitted(PinReply::TaskFailed("boom".to_string())).0,
        Err("submit_pin task did not complete: boom".to_string())
    );
    assert_eq!(submitted(PinReply::Broken("cut".to_string())).0, Err("cut".to_string()));
}

#[test]
fn a_reply_that_nobody_waits_for_is_ignored() {
    let mut control = Control::connect();
    assert_eq!(control.poll_submit_pin(Some(PinReply::TimedOut)), None);
    control.start_submit_pin();
    assert_eq!(control.poll_submit_pin(None), None);
    assert!(control.is_waiting());
    control.cancel_submit_pin();
    assert_eq!(control.poll_submit_pin(Some(PinReply::TimedOut)), None);
    assert!(control.is_connected());
}
