//! The interface from frame to frame.
use rgsp_cast::control::{CastState, PendingEntry};
use rgsp_cast::flow::{
    ask_unpair, awaits_pin, awaits_unpair, busy_frame, draw, pak_dir, should_reconnect,
    state_after_attempt, step,
    FlowAction, FrameInput, PairedEntry, Reconnect, Screen, RECONNECT_INTERVAL,
};
use rgsp_cast::rpc::PinOutcome;
use rgsp_cast::ui::{Buttons, Draw};

const MS: u64 = 1_000_000;

#[test]
fn first_attempt_is_never_throttled() {
    assert!(should_reconnect(None, 0));
}

#[test]
fn an_attempt_right_after_the_last_one_is_throttled() {
    let last = 77 * MS;
    assert!(!should_reconnect(Some(last), last));
}

#[test]
fn an_attempt_just_shy_of_the_interval_is_still_throttled() {
    let last = 77 * MS;
    let almost = last + RECONNECT_INTERVAL - MS;
    assert!(!should_reconnect(Some(last), almost));
}

#[test]
fn an_attempt_at_or_past_the_interval_is_allowed() {
    let last = 77 * MS;
    assert!(should_reconnect(Some(last), last + RECONNECT_INTERVAL));
    assert!(should_reconnect(Some(last), last + RECONNECT_INTERVAL + MS));
}

#[test]
fn attempts_are_noted() {
    let mut r = Reconnect::new(0);
    assert!(!r.due(false, RECONNECT_INTERVAL - 1));
    assert!(!r.due(true, RECONNECT_INTERVAL));
    assert!(r.due(false, RECONNECT_INTERVAL));
    assert!(!r.due(false, RECONNECT_INTERVAL + 1));
    r.retry_at_once();
    assert!(r.due(false, RECONNECT_INTERVAL + 2));
}

#[test]
fn the_package_directory_falls_back() {
    assert_eq!(pak_dir(None), "/mnt/SDCARD/Tools/h700/Cast.pak");
    assert_eq!(pak_dir(Some("/x".into())), "/x");
}

fn a() -> Buttons {
    Buttons { a: true, ..Default::default() }
}

fn b() -> Buttons {
    Buttons { b: true, ..Default::default() }
}

fn down() -> Buttons {
    Buttons { down: true, ..Default::default() }
}

fn state() -> CastState {
    CastState {
        casting: false,
        client: None,
        pending: vec![PendingEntry {
            id: "AA".into(),
            name: Some("tv".into()),
            address: Some("10.0.0.7".into()),
        }],
    }
}

fn frame() -> FrameInput {
    FrameInput { connected: true, has_control: true, pin_answer: None, unpair_answer: None }
}

fn message(s: &Screen) -> String {
    match &draw(s, &state(), true)[0] {
        Draw::FullScreen(text) => text.clone(),
        other => panic!("not a message: {other:?}"),
    }
}

fn pin_entry() -> Screen {
    let (s, _) = step(Screen::first(), &down(), &state(), &frame());
    let (s, action) = step(s, &a(), &state(), &frame());
    assert_eq!(action, FlowAction::Nothing);
    assert!(matches!(s, Screen::Pin(_)));
    s
}

fn pairing() -> Screen {
    let (s, _) = step(pin_entry(), &down(), &state(), &frame());
    let (s, action) = step(s, &a(), &state(), &frame());
    assert_eq!(action, FlowAction::SubmitPin { id: "AA".into(), pin: "9000".into() });
    assert!(matches!(s, Screen::Pairing(_)));
    s
}

fn answered(answer: Result<PinOutcome, String>) -> Screen {
    let f = FrameInput { pin_answer: Some(answer), ..frame() };
    let (s, action) = step(pairing(), &Buttons::default(), &state(), &f);
    assert_eq!(action, FlowAction::Nothing);
    s
}

#[test]
fn the_service_row_starts_and_stops_the_service() {
    let (s, action) = step(Screen::first(), &a(), &state(), &frame());
    assert_eq!(action, FlowAction::Toggle { start: false });
    let f = FrameInput { connected: false, ..frame() };
    let (s, action) = step(s, &a(), &state(), &f);
    assert_eq!(action, FlowAction::Toggle { start: true });
    assert!(matches!(s, Screen::Home(_)));
}

#[test]
fn only_home_exits() {
    assert_eq!(step(Screen::first(), &b(), &state(), &frame()).1, FlowAction::Exit);
    let (s, action) = step(pin_entry(), &b(), &state(), &frame());
    assert_eq!(action, FlowAction::Nothing);
    assert!(matches!(s, Screen::Home(_)));
}

#[test]
fn pin_entry_names_the_client() {
    match &draw(&pin_entry(), &state(), true)[0] {
        Draw::Header(text) => assert_eq!(text, "Pair with tv"),
        other => panic!("{other:?}"),
    }
}

#[test]
fn a_pin_without_a_connection_is_not_submitted() {
    let f = FrameInput { has_control: false, ..frame() };
    let (s, action) = step(pin_entry(), &a(), &state(), &f);
    assert_eq!(action, FlowAction::Nothing);
    assert_eq!(message(&s), "Not connected to the service.");
}

#[test]
fn every_answer_to_a_pin_has_its_screen() {
    assert_eq!(message(&answered(Ok(PinOutcome::Paired))), "Paired with tv.");
    assert_eq!(
        message(&answered(Ok(PinOutcome::Rejected))),
        "Wrong PIN. Pair again from Moonlight."
    );
    assert_eq!(message(&answered(Err("x".into()))), "Connection lost.");
    let (s, _) = step(pairing(), &Buttons::default(), &state(), &frame());
    assert_eq!(message(&s), "Pairing...");
}

#[test]
fn a_pin_survives_not_ready() {
    let s = answered(Ok(PinOutcome::NotReady));
    match &s {
        Screen::Pin(p) => {
            assert_eq!(p.digits(), [9, 0, 0, 0]);
            assert_eq!(p.error.as_deref(), Some("Not ready yet, try again"));
        }
        _ => panic!("the entry is gone"),
    }
    let (_, action) = step(s, &a(), &state(), &frame());
    assert_eq!(action, FlowAction::SubmitPin { id: "AA".into(), pin: "9000".into() });
}

#[test]
fn cancelling_comes_before_an_answer() {
    assert!(awaits_pin(&pairing(), &Buttons::default()));
    assert!(!awaits_pin(&pairing(), &b()));
    assert!(!awaits_pin(&pin_entry(), &Buttons::default()));
    let f = FrameInput { pin_answer: Some(Ok(PinOutcome::Paired)), ..frame() };
    let (s, action) = step(pairing(), &b(), &state(), &f);
    assert_eq!(action, FlowAction::CancelPin);
    assert!(matches!(s, Screen::Home(_)));
}

fn question() -> Screen {
    let paired = vec![PairedEntry {
        fingerprint: "ff00".into(),
        name: None,
        address: Some("10.0.0.9".into()),
    }];
    ask_unpair(&paired, "ff00".into())
}

fn unpairing() -> Screen {
    let (s, action) = step(question(), &a(), &state(), &frame());
    assert_eq!(action, FlowAction::Unpair { fingerprint: "ff00".into() });
    s
}

#[test]
fn unpairing_is_always_confirmed() {
    assert_eq!(message(&question()), "Unpair 10.0.0.9?");
    let (s, action) = step(question(), &b(), &state(), &frame());
    assert_eq!(action, FlowAction::Nothing);
    assert!(matches!(s, Screen::Home(_)));
    let f = FrameInput { has_control: false, ..frame() };
    let (s, action) = step(question(), &a(), &state(), &f);
    assert_eq!(action, FlowAction::Nothing);
    assert_eq!(message(&s), "Not connected to the service.");
    assert_eq!(message(&ask_unpair(&vec![], "0123456789".into())), "Unpair 01234567?");
}

#[test]
fn every_answer_to_an_unpairing_has_its_screen() {
    let done = |answer: Option<Result<bool, String>>| {
        let f = FrameInput { unpair_answer: answer, ..frame() };
        message(&step(unpairing(), &Buttons::default(), &state(), &f).0)
    };
    assert_eq!(done(None), "Unpairing...");
    assert_eq!(done(Some(Ok(true))), "Unpaired 10.0.0.9.");
    assert_eq!(done(Some(Ok(false))), "10.0.0.9 was already unpaired.");
    assert_eq!(done(Some(Err("x".into()))), "Connection lost.");
    assert!(awaits_unpair(&unpairing(), &Buttons::default()));
    assert!(!awaits_unpair(&unpairing(), &b()));
    let (s, action) = step(unpairing(), &b(), &state(), &frame());
    assert_eq!(action, FlowAction::CancelUnpair);
    assert!(matches!(s, Screen::Home(_)));
}

#[test]
fn a_message_leads_home() {
    let (s, _) = step(answered(Ok(PinOutcome::Paired)), &a(), &state(), &frame());
    assert_eq!(message(&s), "Paired with tv.");
    let (s, action) = step(s, &b(), &state(), &frame());
    assert_eq!(action, FlowAction::Nothing);
    assert!(matches!(s, Screen::Home(_)));
}

#[test]
fn the_busy_frame_says_which_way() {
    let row = |v: Vec<Draw>| match &v[2] {
        Draw::Row { value, .. } => value.clone().unwrap(),
        other => panic!("{other:?}"),
    };
    assert_eq!(row(busy_frame(true)), "Starting...");
    assert_eq!(row(busy_frame(false)), "Stopping...");
}

#[test]
fn a_client_without_a_name_keeps_its_address_through_pairing() {
    let mut s = state();
    s.pending = vec![PendingEntry {
        id: "A1B2C3D4E5F60718".into(),
        name: None,
        address: Some("10.0.0.7".into()),
    }];
    let (screen, _) = step(Screen::first(), &down(), &s, &frame());
    let (screen, _) = step(screen, &a(), &s, &frame());
    match &draw(&screen, &s, true)[0] {
        Draw::Header(title) => assert_eq!(title, "Pair with 10.0.0.7"),
        other => panic!("unexpected {other:?}"),
    }
    let (screen, _) = step(screen, &a(), &s, &frame());
    let f = FrameInput { pin_answer: Some(Ok(PinOutcome::Paired)), ..frame() };
    let (screen, _) = step(screen, &Buttons::default(), &s, &f);
    assert_eq!(message(&screen), "Paired with 10.0.0.7.");
}

#[test]
fn a_failed_attempt_shows_nothing_and_one_that_worked_changes_nothing() {
    let mut shown = state();
    shown.casting = true;
    assert_eq!(state_after_attempt(true, shown.clone()), shown);
    let idle = state_after_attempt(false, shown);
    assert!(!idle.casting);
    assert_eq!(idle.client, None);
    assert!(idle.pending.is_empty());
}
