//! Input packets on concrete bytes.
use rgsp_cast::input::PadState;
use rgsp_cast::input_decode::{
    apply_packet, A_FLAG, BTN_NORTH, BTN_SOUTH, BTN_TL2, CONTROLLER_MAGIC, DOWN_FLAG,
    KEY_DOWN_MAGIC, KEY_UP_MAGIC, LEFT_FLAG, MULTI_CONTROLLER_MAGIC, MULTI_CONTROLLER_MAGIC_GEN5,
    RIGHT_FLAG, VK_DOWN, VK_LEFT,
};

/// Build a multi-controller packet with the given flags, triggers and
/// left-stick position, laid out per NV_MULTI_CONTROLLER_PACKET.
fn packet(flags: u16, left_trigger: u8, right_trigger: u8, x: i16, y: i16) -> Vec<u8> {
    let mut p = Vec::new();
    p.extend_from_slice(&MULTI_CONTROLLER_MAGIC.to_le_bytes()); // 0
    p.extend_from_slice(&0x001Au16.to_le_bytes()); // 4  headerB
    p.extend_from_slice(&0u16.to_le_bytes()); // 6  controllerNumber
    p.extend_from_slice(&1u16.to_le_bytes()); // 8  activeGamepadMask
    p.extend_from_slice(&0x0014u16.to_le_bytes()); // 10 midB
    p.extend_from_slice(&flags.to_le_bytes()); // 12 buttonFlags
    p.push(left_trigger); // 14
    p.push(right_trigger); // 15
    p.extend_from_slice(&x.to_le_bytes()); // 16 leftStickX
    p.extend_from_slice(&y.to_le_bytes()); // 18 leftStickY
    p.extend_from_slice(&0i16.to_le_bytes()); // 20 rightStickX
    p.extend_from_slice(&0i16.to_le_bytes()); // 22 rightStickY
    p
}

#[test]
fn a_button_maps_to_btn_south() {
    let mut state = PadState::default();
    assert!(apply_packet(&packet(A_FLAG, 0, 0, 0, 0), &mut state));

    let mut expected = PadState::default();
    expected.set_key(BTN_SOUTH, true);
    assert_eq!(state.keys, expected.keys, "A should press BTN_SOUTH and nothing else");
}

#[test]
fn releasing_clears_the_button() {
    let mut state = PadState::default();
    apply_packet(&packet(A_FLAG, 0, 0, 0, 0), &mut state);
    apply_packet(&packet(0, 0, 0, 0, 0), &mut state);
    assert_eq!(state.keys, 0, "an empty packet must release everything");
}

#[test]
fn dpad_becomes_a_hat_and_opposites_cancel() {
    let mut state = PadState::default();

    apply_packet(&packet(LEFT_FLAG, 0, 0, 0, 0), &mut state);
    assert_eq!((state.hat_x, state.hat_y), (-1, 0));

    apply_packet(&packet(DOWN_FLAG, 0, 0, 0, 0), &mut state);
    assert_eq!((state.hat_x, state.hat_y), (0, 1), "left released, down held");

    apply_packet(&packet(LEFT_FLAG | RIGHT_FLAG, 0, 0, 0, 0), &mut state);
    assert_eq!(state.hat_x, 0, "opposing directions cancel, as on a physical hat");
}

#[test]
fn triggers_and_sticks_are_read_from_the_right_offsets() {
    let mut state = PadState::default();
    apply_packet(&packet(0, 255, 200, -20000, 15000), &mut state);

    let mut with_l2 = PadState::default();
    with_l2.set_key(BTN_TL2, true);
    assert_eq!(state.keys, with_l2.keys, "a full left trigger presses BTN_TL2");
    assert_eq!(state.rz, 200, "the right trigger drives ABS_RZ");
    assert_eq!((state.rx, state.ry), (-20000, 15000), "sticks keep their sign");
}

/// magic(4), flags(1), keyCode(2), modifiers(1), zero2(2), packed.
fn key_packet(magic: u32, vk: u16) -> Vec<u8> {
    let mut p = magic.to_le_bytes().to_vec();
    p.push(0); // flags
    p.extend_from_slice(&vk.to_le_bytes());
    p.push(0); // modifiers
    p.extend_from_slice(&0u16.to_le_bytes());
    p
}

#[test]
fn keyboard_z_presses_a_and_releases_it() {
    let mut state = PadState::default();
    assert!(apply_packet(&key_packet(KEY_DOWN_MAGIC, 0x5A), &mut state));
    let mut expected = PadState::default();
    expected.set_key(BTN_SOUTH, true);
    assert_eq!(state.keys, expected.keys, "Z should press BTN_SOUTH");

    assert!(apply_packet(&key_packet(KEY_UP_MAGIC, 0x5A), &mut state));
    assert_eq!(state.keys, 0, "releasing Z must release BTN_SOUTH");
}

#[test]
fn arrow_keys_drive_the_hat() {
    let mut state = PadState::default();

    apply_packet(&key_packet(KEY_DOWN_MAGIC, VK_LEFT), &mut state);
    assert_eq!(state.hat_x, -1, "left arrow moves the hat left");

    apply_packet(&key_packet(KEY_UP_MAGIC, VK_LEFT), &mut state);
    assert_eq!(state.hat_x, 0, "releasing it centres the hat");

    apply_packet(&key_packet(KEY_DOWN_MAGIC, VK_DOWN), &mut state);
    assert_eq!((state.hat_x, state.hat_y), (0, 1));
}

#[test]
fn an_unmapped_key_changes_nothing() {
    let mut state = PadState::default();
    state.set_key(BTN_SOUTH, true);
    let before = state;
    assert!(!apply_packet(&key_packet(KEY_DOWN_MAGIC, 0x70), &mut state), "F1 is unmapped");
    assert_eq!(state.keys, before.keys);
}

#[test]
fn legacy_controller_packet_reads_buttons_after_headerb() {
    // NV_CONTROLLER_PACKET: magic(4), headerB(2), buttonFlags(2), ...
    let mut p = CONTROLLER_MAGIC.to_le_bytes().to_vec();
    p.extend_from_slice(&0x1400u16.to_le_bytes());
    p.extend_from_slice(&A_FLAG.to_le_bytes());
    p.extend_from_slice(&[0; 12]);

    let mut state = PadState::default();
    assert!(apply_packet(&p, &mut state));
    let mut expected = PadState::default();
    expected.set_key(BTN_SOUTH, true);
    assert_eq!(state.keys, expected.keys, "buttons sit at offset 6, not 4");
}

#[test]
fn a_haptics_packet_is_not_mistaken_for_controller_state() {
    // ENABLE_HAPTICS_MAGIC shares 0x0D with MULTI_CONTROLLER_MAGIC and is
    // 6 bytes; misreading it would inject whatever lies at offset 12.
    let mut haptics = MULTI_CONTROLLER_MAGIC.to_le_bytes().to_vec();
    haptics.extend_from_slice(&1u16.to_le_bytes());
    assert_eq!(haptics.len(), 6);

    let mut state = PadState::default();
    state.set_key(BTN_SOUTH, true);
    let before = state;
    assert!(!apply_packet(&haptics, &mut state));
    assert_eq!(state.keys, before.keys, "haptics must not disturb the pad");
}

#[test]
fn the_high_flag_byte_is_masked_off() {
    // A real client's down arrow arrives as 0x8028.
    let raw: [u8; 10] = [0x03, 0, 0, 0, 0, 0x28, 0x80, 0, 0, 0];
    let mut state = PadState::default();
    assert!(apply_packet(&raw, &mut state), "0x8028 must decode as VK_DOWN");
    assert_eq!(state.hat_y, 1, "down arrow presses the hat down");

    // And 'A' as 0x8041.
    let raw_a: [u8; 10] = [0x03, 0, 0, 0, 0, 0x41, 0x80, 0, 0, 0];
    let mut state = PadState::default();
    assert!(apply_packet(&raw_a, &mut state));
    let mut expected = PadState::default();
    expected.set_key(BTN_NORTH, true);
    assert_eq!(state.keys, expected.keys, "'A' maps to BTN_NORTH");
}

#[test]
fn non_controller_packets_are_ignored() {
    let mut state = PadState::default();
    state.set_key(BTN_SOUTH, true);
    let before = state;

    // A mouse-move packet (MOUSE_MOVE_REL_MAGIC) must not touch the pad.
    let mut mouse = 0x0000_0006u32.to_le_bytes().to_vec();
    mouse.extend_from_slice(&[0; 8]);
    assert!(!apply_packet(&mouse, &mut state));
    assert_eq!(state.keys, before.keys);
}

#[test]
fn a_truncated_packet_is_rejected_rather_than_read_past() {
    let mut state = PadState::default();
    assert!(!apply_packet(&[], &mut state));
    assert!(!apply_packet(&MULTI_CONTROLLER_MAGIC.to_le_bytes(), &mut state));
}

#[test]
fn a_whole_packet_decides_everything_it_reports() {
    let p = packet(A_FLAG | LEFT_FLAG, 200, 7, 5, -5);
    let mut fresh = PadState::default();
    let mut busy = PadState { keys: 0x7ed8, hat_x: 1, hat_y: 1, rx: 9, ry: 9, rz: 9 };
    assert!(apply_packet(&p, &mut fresh));
    assert!(apply_packet(&p, &mut busy));
    assert!(fresh == busy);
}

#[test]
fn keys_that_a_packet_does_not_report_stay() {
    let mut state = PadState::default();
    state.set_key(114, true);
    apply_packet(&packet(0, 0, 0, 0, 0), &mut state);
    let mut expected = PadState::default();
    expected.set_key(114, true);
    assert_eq!(state.keys, expected.keys);
}

#[test]
fn a_short_packet_of_the_fifth_generation_leaves_what_it_lacks() {
    let mut p = MULTI_CONTROLLER_MAGIC_GEN5.to_le_bytes().to_vec();
    p.extend_from_slice(&[0; 8]);
    p.extend_from_slice(&A_FLAG.to_le_bytes());
    let mut state = PadState { keys: 0, hat_x: 0, hat_y: 0, rx: 3, ry: 4, rz: 5 };
    assert!(apply_packet(&p, &mut state));
    assert_eq!((state.rx, state.ry, state.rz), (3, 4, 5));
    assert_ne!(state.keys, 0);
}

#[test]
fn a_trigger_at_half_does_not_press() {
    let mut state = PadState::default();
    apply_packet(&packet(0, 127, 0, 0, 0), &mut state);
    assert_eq!(state.keys, 0);
    apply_packet(&packet(0, 128, 0, 0, 0), &mut state);
    assert_ne!(state.keys, 0);
}
