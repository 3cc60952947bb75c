//! The screens of the interface.
use rgsp_cast::control::{CastState, PendingEntry};
use rgsp_cast::screens::client_label;
use rgsp_cast::screens::confirm::{Confirm, ConfirmAction};
use rgsp_cast::screens::home::{visible_row_count, Home, HomeAction};
use rgsp_cast::screens::message::Message;
use rgsp_cast::screens::pairing::{self, PairingAction};
use rgsp_cast::screens::pin::{Pin, PinAction};
use rgsp_cast::screens::unpairing::{self, UnpairingAction};
use rgsp_cast::ui::{a_b_hints, one_hint, Buttons, Draw, MAIN_ROW_COUNT};

fn up() -> Buttons {
    Buttons { up: true, ..Default::default() }
}

fn down() -> Buttons {
    Buttons { down: true, ..Default::default() }
}

fn left() -> Buttons {
    Buttons { left: true, ..Default::default() }
}

fn right() -> Buttons {
    Buttons { right: true, ..Default::default() }
}

fn a() -> Buttons {
    Buttons { a: true, ..Default::default() }
}

fn b() -> Buttons {
    Buttons { b: true, ..Default::default() }
}

#[test]
fn a_confirms() {
    let confirm = Confirm::new("ff00".into(), "phone".into());
    assert_eq!(confirm.update(&a()), ConfirmAction::Confirm);
}

#[test]
fn confirm_b_cancels() {
    let confirm = Confirm::new("ff00".into(), "phone".into());
    assert_eq!(confirm.update(&b()), ConfirmAction::Cancel);
}

#[test]
fn confirm_anything_else_is_a_no_op() {
    let confirm = Confirm::new("ff00".into(), "phone".into());
    assert_eq!(confirm.update(&Buttons::default()), ConfirmAction::Nothing);
}

#[test]
fn the_fingerprint_is_reported_back_for_unpair() {
    let confirm = Confirm::new("ff00".into(), "phone".into());
    assert_eq!(confirm.fingerprint(), "ff00");
}

#[test]
fn the_question_names_the_client() {
    let confirm = Confirm::new("ff00".into(), "phone".into());
    assert_eq!(confirm.label(), "phone");
    assert_eq!(
        confirm.draw(),
        vec![Draw::FullScreen("Unpair phone?".into()), a_b_hints("Unpair", "Cancel")]
    );
}

#[test]
fn selection_moves_across_service_row_and_pending_rows() {
    let state = CastState {
        casting: true,
        client: None,
        pending: vec![
            PendingEntry { id: "AA".into(), name: Some("eric-mbp".into()), address: None },
            PendingEntry { id: "BB".into(), name: None, address: None },
        ],
    };
    let mut home = Home::new();
    assert_eq!(home.update(&down(), &state), HomeAction::Nothing);
    assert_eq!(home.update(&a(), &state), HomeAction::Pair("AA".into()));
}

#[test]
fn a_on_the_service_row_toggles() {
    let state = CastState { casting: false, client: None, pending: vec![] };
    let mut home = Home::new();
    assert_eq!(home.update(&a(), &state), HomeAction::Toggle);
}

#[test]
fn selection_clamps_when_pending_clients_disappear() {
    let two = CastState {
        casting: true,
        client: None,
        pending: vec![
            PendingEntry { id: "AA".into(), name: None, address: None },
            PendingEntry { id: "BB".into(), name: None, address: None },
        ],
    };
    let none = CastState { casting: true, client: None, pending: vec![] };
    let mut home = Home::new();
    home.update(&down(), &two);
    home.update(&down(), &two);
    // the list shrank under the cursor; A must not panic or pair a ghost
    assert_eq!(home.update(&a(), &none), HomeAction::Toggle);
}

#[test]
fn selection_does_not_move_past_the_service_row_when_pending_is_empty() {
    let state = CastState { casting: false, client: None, pending: vec![] };
    let mut home = Home::new();
    home.update(&down(), &state);
    assert_eq!(home.update(&a(), &state), HomeAction::Toggle);
}

#[test]
fn a_hint_tracks_the_selection_and_connectivity() {
    let state = CastState {
        casting: true,
        client: None,
        pending: vec![PendingEntry { id: "AA".into(), name: None, address: None }],
    };
    let mut home = Home::new();
    // service row selected, connected: A stops the daemon
    assert_eq!(home.a_hint(true), "Stop");
    // service row selected, disconnected: A starts it, regardless of `casting`
    assert_eq!(home.a_hint(false), "Start");

    home.update(&down(), &state);
    // pending row selected: A pairs here, not toggles the service
    assert_eq!(home.a_hint(true), "Pair");
}

#[test]
fn b_exits() {
    let state = CastState { casting: false, client: None, pending: vec![] };
    let mut home = Home::new();
    assert_eq!(home.update(&b(), &state), HomeAction::Exit);
}

#[test]
fn connected_and_not_casting_reads_running_and_offers_stop() {
    let state = CastState { casting: false, client: None, pending: vec![] };
    let mut home = Home::new();
    assert_eq!(Home::status_text(&state, true), "Running");
    assert_eq!(home.update(&a(), &state), HomeAction::Toggle);
    assert_eq!(home.a_hint(true), "Stop");
}

#[test]
fn connected_and_casting_reads_casting_with_the_client_name() {
    // `casting` on top of a live socket is a third state ("Casting"), not the
    // same row text as an idle but connected daemon.
    let anonymous = CastState { casting: true, client: None, pending: vec![] };
    let named = CastState { casting: true, client: Some("eric-mbp".into()), pending: vec![] };
    assert_eq!(Home::status_text(&anonymous, true), "Casting");
    assert_eq!(Home::status_text(&named, true), "Casting (eric-mbp)");
}

#[test]
fn disconnected_reads_stopped_and_offers_start_regardless_of_stale_casting_state() {
    // The socket being down means "stopped", even if the last state before the
    // connection was lost said `casting: true`.
    let stale = CastState { casting: true, client: Some("eric-mbp".into()), pending: vec![] };
    let mut home = Home::new();
    assert_eq!(Home::status_text(&stale, false), "Stopped");
    assert_eq!(home.update(&a(), &stale), HomeAction::Toggle);
    assert_eq!(home.a_hint(false), "Start");
}

#[test]
fn visible_row_count_caps_at_main_row_count() {
    let cap = MAIN_ROW_COUNT as usize;
    let plenty: Vec<PendingEntry> = (0..cap)
        .map(|i| PendingEntry { id: format!("id{i}"), name: None, address: None })
        .collect();
    let over_cap = CastState { casting: false, client: None, pending: plenty };
    assert_eq!(visible_row_count(&over_cap), cap, "service row + cap - 1 pending rows, not more");

    let one = CastState {
        casting: false,
        client: None,
        pending: vec![PendingEntry { id: "AA".into(), name: None, address: None }],
    };
    assert_eq!(visible_row_count(&one), 2, "well under the cap: service row + the one pending row");
}

#[test]
fn selection_and_pairing_never_cross_the_visible_row_cap() {
    // More pending clients than there are rows. `A` must never pair a client
    // whose row was never visible.
    let cap = MAIN_ROW_COUNT as usize - 1; // pending rows that fit
    let pending: Vec<PendingEntry> = (0..cap + 3)
        .map(|i| PendingEntry { id: format!("id{i}"), name: None, address: None })
        .collect();
    let state = CastState { casting: false, client: None, pending };
    let mut home = Home::new();

    for _ in 0..cap + 5 {
        home.update(&down(), &state);
    }

    // The cursor stops at the last row that is actually drawn: the service row
    // plus `cap` pending rows, so the last pending row is index `cap - 1`.
    assert_eq!(home.update(&a(), &state), HomeAction::Pair(format!("id{}", cap - 1)));
}

#[test]
fn up_leads_back_and_stops_at_the_service_row() {
    let state = CastState {
        casting: false,
        client: None,
        pending: vec![PendingEntry { id: "AA".into(), name: None, address: None }],
    };
    let mut home = Home::default();
    home.update(&down(), &state);
    home.update(&up(), &state);
    home.update(&up(), &state);
    assert_eq!(home.update(&a(), &state), HomeAction::Toggle);
}

#[test]
fn home_draws_the_rows_that_fit() {
    let entry = |id: &str, address: Option<&str>| PendingEntry {
        id: id.into(),
        name: None,
        address: address.map(str::to_string),
    };
    let state = CastState {
        casting: false,
        client: None,
        pending: vec![entry("A1B2C3D4E5", None), entry("BB", Some("10.0.0.7"))],
    };
    let mut home = Home::new();
    home.update(&down(), &state);
    let row = |label: &str, value: Option<&str>, index: i32, selected: bool| Draw::Row {
        label: label.into(),
        value: value.map(str::to_string),
        index,
        selected,
    };
    assert_eq!(
        home.draw(&state, true),
        vec![
            Draw::HardwareGroup,
            Draw::Header("Cast".into()),
            row("Service", Some("Running"), 0, false),
            row("A1B2C3D4", None, 1, true),
            row("10.0.0.7", None, 2, false),
            a_b_hints("Pair", "Exit"),
        ]
    );
    let crowd = CastState {
        casting: false,
        client: None,
        pending: (0..40).map(|i| entry(&format!("{i}"), None)).collect(),
    };
    assert_eq!(home.draw(&crowd, true).len(), MAIN_ROW_COUNT as usize + 3);
}

#[test]
fn b_returns_home() {
    let message = Message::new("Wrong PIN");
    assert!(message.update(&b()));
}

#[test]
fn anything_else_stays() {
    let message = Message::new("Wrong PIN");
    assert!(!message.update(&Buttons::default()));
}

#[test]
fn a_message_fills_the_screen() {
    assert_eq!(
        Message::new("Wrong PIN").draw(),
        vec![Draw::FullScreen("Wrong PIN".into()), one_hint("B", "Back")]
    );
}

#[test]
fn long_id_truncates_to_eight_characters() {
    assert_eq!(client_label(None, None, "A1B2C3D4E5F60718"), "A1B2C3D4");
}

#[test]
fn short_id_is_returned_intact() {
    assert_eq!(client_label(None, None, "AB"), "AB");
}

#[test]
fn a_present_name_always_wins_over_the_address_and_id() {
    assert_eq!(
        client_label(Some("eric-mbp"), Some("192.168.180.44"), "A1B2C3D4E5F60718"),
        "eric-mbp"
    );
}

#[test]
fn no_name_falls_back_to_the_address() {
    assert_eq!(
        client_label(None, Some("192.168.180.44"), "A1B2C3D4E5F60718"),
        "192.168.180.44"
    );
}

#[test]
fn no_name_or_address_falls_back_to_the_truncated_id() {
    assert_eq!(client_label(None, None, "A1B2C3D4E5F60718"), "A1B2C3D4");
}

#[test]
fn an_id_is_cut_between_characters() {
    assert_eq!(client_label(None, None, "ééééééééé"), "éééééééé");
    assert_eq!(client_label(None, None, "éééééééé"), "éééééééé");
}

#[test]
fn pairing_b_cancels() {
    assert_eq!(pairing::update(&b()), PairingAction::Cancel);
}

#[test]
fn pairing_anything_else_is_a_no_op() {
    assert_eq!(pairing::update(&Buttons::default()), PairingAction::Nothing);
}

#[test]
fn left_and_right_move_the_cursor_without_wrapping() {
    let mut p = Pin::new("AA".into(), None);
    assert_eq!(p.cursor(), 0);
    p.update(&left());
    assert_eq!(p.cursor(), 0, "cursor stops at the first digit");
    p.update(&right());
    assert_eq!(p.cursor(), 1);
}

#[test]
fn up_and_down_wrap_the_digit() {
    let mut p = Pin::new("AA".into(), None);
    p.update(&down());
    assert_eq!(p.digits()[0], 9, "0 down wraps to 9");
    p.update(&up());
    assert_eq!(p.digits()[0], 0);
}

#[test]
fn a_submits_all_four_digits_in_order() {
    let mut p = Pin::new("AA".into(), None);
    p.update(&up()); // 1
    p.update(&right());
    p.update(&up());
    p.update(&up()); // 2
    p.update(&right());
    p.update(&right());
    assert_eq!(p.update(&a()), PinAction::Submit("1200".into()));
}

#[test]
fn b_goes_back() {
    let mut p = Pin::new("AA".into(), None);
    assert_eq!(p.update(&b()), PinAction::Back);
}

#[test]
fn cursor_does_not_overshoot_the_last_digit() {
    let mut p = Pin::new("AA".into(), None);
    for _ in 0..10 {
        p.update(&right());
    }
    assert_eq!(p.cursor(), 3);
}

#[test]
fn editing_clears_a_previously_set_error() {
    let mut p = Pin::new("AA".into(), None);
    p.set_error("PIN rejected");
    p.update(&up());
    assert!(p.error.is_none());
}

#[test]
fn an_error_stays_until_an_edit() {
    let mut p = Pin::new("AA".into(), Some("tv".into()));
    p.set_error("PIN rejected");
    p.update(&left());
    p.update(&a());
    assert_eq!(p.error.as_deref(), Some("PIN rejected"));
    assert_eq!(
        p.draw(),
        vec![
            Draw::Header("Pair with tv".into()),
            Draw::Row { label: "PIN rejected".into(), value: None, index: 0, selected: false },
            Draw::PinEntry { digits: [0; 4], cursor: 0 },
            a_b_hints("Submit", "Back"),
        ]
    );
    p.update(&right());
    assert_eq!(p.error, None);
    assert_eq!(p.draw().len(), 3);
}

#[test]
fn client_id_is_reported_back_for_submit_pin() {
    let p = Pin::new("client-123".into(), Some("phone".into()));
    assert_eq!(p.client_id(), "client-123");
}

#[test]
fn label_falls_back_to_a_truncated_id_without_a_name() {
    let p = Pin::new("A1B2C3D4E5F60718".into(), None);
    assert_eq!(p.label(), "A1B2C3D4");
}

#[test]
fn label_falls_back_to_the_address_as_on_home() {
    let id = || "A1B2C3D4E5F60718".to_string();
    let address = || Some("192.168.180.44".to_string());
    assert_eq!(Pin::for_client(id(), None, address()).label(), "192.168.180.44");
    assert_eq!(Pin::for_client(id(), Some("phone".into()), address()).label(), "phone");
    assert_eq!(Pin::for_client(id(), None, None).label(), "A1B2C3D4");
    let mut p = Pin::for_client(id(), None, address());
    p.update(&Buttons { up: true, ..Buttons::default() });
    p.set_error("x");
    assert_eq!(p.label(), "192.168.180.44", "editing keeps the client");
}

#[test]
fn label_prefers_the_name_when_present() {
    let p = Pin::new("A1B2C3D4E5F60718".into(), Some("phone".into()));
    assert_eq!(p.label(), "phone");
}

#[test]
fn unpairing_b_cancels() {
    assert_eq!(unpairing::update(&b()), UnpairingAction::Cancel);
}

#[test]
fn unpairing_anything_else_is_a_no_op() {
    assert_eq!(unpairing::update(&Buttons::default()), UnpairingAction::Nothing);
}

#[test]
fn waiting_screens_say_what_they_wait_for() {
    assert_eq!(
        pairing::draw(),
        vec![Draw::FullScreen("Pairing...".into()), one_hint("B", "Cancel")]
    );
    assert_eq!(
        unpairing::draw(),
        vec![Draw::FullScreen("Unpairing...".into()), one_hint("B", "Cancel")]
    );
}
