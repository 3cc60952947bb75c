//! The virtual pad's reports.
use rgsp_cast::input::{
    axis_list, capability_list, device_id, device_name, key_code, Capability, InputEvent, PadState,
    VirtualPad, EV_ABS, EV_KEY, EV_SYN, KEY_COUNT,
};

fn event(type_: u16, code: u16, value: i32) -> InputEvent {
    InputEvent { type_, code, value }
}

#[test]
fn nothing_changed_means_no_report() {
    let pad = VirtualPad::new();
    assert_eq!(pad.apply(PadState::default()), vec![]);
}

#[test]
fn a_report_lists_keys_then_axes_then_its_end() {
    let mut pad = VirtualPad::new();
    let mut state = PadState::default();
    state.set_key(315, true);
    state.set_key(304, true);
    state.hat_x = -1;
    state.rz = 200;
    assert_eq!(
        pad.apply(state),
        vec![
            event(EV_KEY, 304, 1),
            event(EV_KEY, 315, 1),
            event(EV_ABS, 16, -1),
            event(EV_ABS, 5, 200),
            event(EV_SYN, 0, 0)
        ]
    );
    // Until it is committed, the same change is reported again.
    assert_eq!(pad.apply(state).len(), 5);
    pad.commit(state);
    assert_eq!(pad.apply(state), vec![]);
}

#[test]
fn only_what_changed_is_repeated() {
    let mut pad = VirtualPad::new();
    let mut state = PadState::default();
    state.set_key(304, true);
    pad.commit(state);
    state.set_key(305, true);
    assert_eq!(pad.apply(state), vec![event(EV_KEY, 305, 1), event(EV_SYN, 0, 0)]);
}

#[test]
fn releasing_everything_undoes_a_press() {
    let mut pad = VirtualPad::new();
    let mut state = PadState::default();
    state.set_key(304, true);
    state.hat_y = 1;
    pad.commit(state);
    assert_eq!(
        pad.release_all(),
        vec![event(EV_KEY, 304, 0), event(EV_ABS, 17, 0), event(EV_SYN, 0, 0)]
    );
}

#[test]
fn a_report_carries_the_whole_change() {
    let before = PadState { keys: 0x1234, hat_x: 1, hat_y: 0, rx: 5, ry: -5, rz: 0 };
    let now = PadState { keys: 0x4321, hat_x: 0, hat_y: -1, rx: 5, ry: 6, rz: 7 };
    let mut pad = VirtualPad::new();
    pad.commit(before);
    let mut seen = before;
    for e in pad.apply(now) {
        match (e.type_, e.code) {
            (EV_KEY, code) => seen.set_key(code, e.value == 1),
            (EV_ABS, 16) => seen.hat_x = e.value,
            (EV_ABS, 17) => seen.hat_y = e.value,
            (EV_ABS, 3) => seen.rx = e.value,
            (EV_ABS, 4) => seen.ry = e.value,
            (EV_ABS, 5) => seen.rz = e.value,
            _ => {}
        }
    }
    assert!(seen == now);
}

#[test]
fn an_unknown_key_changes_nothing() {
    let mut state = PadState::default();
    state.set_key(313, true);
    state.set_key(316, true);
    assert_eq!(state.keys, 0);
}

#[test]
fn every_key_has_a_bit_of_its_own() {
    for i in 0..KEY_COUNT {
        let mut state = PadState::default();
        state.set_key(key_code(i), true);
        assert_eq!(state.keys, 1 << i);
        assert!(state.key_down(i));
        state.set_key(key_code(i), false);
        assert_eq!(state.keys, 0);
    }
}

#[test]
fn the_device_declares_what_it_reports() {
    let caps = capability_list();
    assert_eq!(caps.len(), 3 + KEY_COUNT + 5);
    assert_eq!(caps[0], Capability::Event(EV_KEY));
    assert_eq!(caps[3], Capability::Key(1));
    assert_eq!(caps[17], Capability::Key(354));
    assert_eq!(caps[18], Capability::Abs(3));
    assert_eq!(caps[22], Capability::Abs(17));
    let axes = axis_list();
    assert_eq!((axes[0].min, axes[0].max), (-32768, 32767));
    assert_eq!((axes[2].min, axes[2].max), (0, 255));
    assert_eq!((axes[4].min, axes[4].max), (-1, 1));
    assert_eq!(device_name(), "rgsp-cast remote pad");
    assert_eq!((device_id().vendor, device_id().product), (0x1209, 0x5350));
}
