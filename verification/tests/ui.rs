//! Scaling, buttons and layout.
use rgsp_cast::sys::{
    scale1, scale2, scale3, scale4, BTN_A, BTN_B, BTN_DPAD_DOWN, BTN_DPAD_LEFT, BTN_DPAD_RIGHT,
    BTN_DPAD_UP, FIXED_SCALE, PILL_SIZE,
};
use rgsp_cast::ui::{
    digit_shown, hints, is_drawable, pin_bar, pin_digit, row_layout, row_y, Buttons, Hint, Rect,
    RowLayout, Ui, UiError, UiRelease, MAIN_ROW_COUNT, PADDING, PANEL_H, PANEL_W,
};

#[test]
fn fixed_scale_is_two_on_h700() {
    assert_eq!(FIXED_SCALE, 2, "h700 scales by 2");
}

#[test]
fn scale_helpers_match_the_c_macros() {
    assert_eq!(scale1(30), 60);
    assert_eq!(scale2(10, 16), (20, 32));
}

#[test]
fn scaling_works_on_every_coordinate() {
    assert_eq!(scale3(1, -2, 3), (2, -4, 6));
    assert_eq!(scale4(1, 2, 3, 4), (2, 4, 6, 8));
}

#[test]
fn buttons_decode_the_bitmask() {
    let b = Buttons::from_mask(BTN_A as i32 | BTN_DPAD_UP as i32);
    assert!(b.a);
    assert!(b.up);
    assert!(!b.b);
    assert!(!b.down);
}

#[test]
fn every_set_of_buttons_reads_back() {
    for bits in 0..64u32 {
        let on = |i: u32| bits >> i & 1 == 1;
        let b = Buttons { up: on(0), down: on(1), left: on(2), right: on(3), a: on(4), b: on(5) };
        let mut mask = 0;
        for (bit, fired) in [
            (BTN_DPAD_UP, b.up),
            (BTN_DPAD_DOWN, b.down),
            (BTN_DPAD_LEFT, b.left),
            (BTN_DPAD_RIGHT, b.right),
            (BTN_A, b.a),
            (BTN_B, b.b),
        ] {
            mask = Buttons::add_to_mask(mask, bit, fired);
        }
        assert_eq!(Buttons::from_mask(mask), b);
    }
}

#[test]
fn row_y_starts_below_the_header_band() {
    // The title and the status pill share a band as high as one pill. Row 0
    // starts at its bottom edge.
    let header_band_bottom = scale1(PADDING) + scale1(PILL_SIZE as i32);
    assert_eq!(row_y(0), header_band_bottom);
}

#[test]
fn row_y_positions_step_by_a_scaled_pill() {
    assert_eq!(row_y(1) - row_y(0), scale1(PILL_SIZE as i32));
}

#[test]
fn rows_fit_the_panel() {
    assert_eq!(row_y(MAIN_ROW_COUNT - 1) + scale1(PILL_SIZE), 440);
    assert!(440 <= PANEL_H);
}

#[test]
fn a_row_with_a_value_makes_room_for_it() {
    assert_eq!(
        row_layout(720, 0, true, 31, Some(100)),
        RowLayout {
            pill: Some(Rect { x: 20, y: 80, w: 680, h: 60 }),
            text_y: 94,
            label_x: 40,
            label_max_width: 520,
            value_x: Some(580),
        }
    );
    assert_eq!(
        row_layout(720, 1, false, 61, None),
        RowLayout { pill: None, text_y: 140, label_x: 40, label_max_width: 640, value_x: None }
    );
}

#[test]
fn the_pin_is_centred_on_the_panel() {
    // Four cells of 20 pixels, the digit centred in its cell.
    assert_eq!(pin_digit(720, 480, 0, 20, 32), (320, 194));
    assert_eq!(pin_digit(720, 480, 3, 10, 32), (385, 194));
    assert_eq!(pin_bar(720, 480, 2), Rect { x: 360, y: 232, w: 20, h: 0 });
    assert!(digit_shown(9) && !digit_shown(10));
}

#[test]
fn text_that_cannot_be_drawn_is_left_out_as_a_pair() {
    assert!(is_drawable("A") && is_drawable("") && !is_drawable("a\0b"));
    let hint = |b: &str, l: &str| Hint { button: b.into(), label: l.into() };
    assert_eq!(
        hints(&vec![hint("A", "Ok"), hint("B", "\0"), hint("X\0", "no"), hint("Y", "yes")]),
        vec![hint("A", "Ok"), hint("Y", "yes")]
    );
}

#[test]
fn a_display_closes_what_it_opened() {
    let mut ui = Ui::new();
    assert_eq!(ui.teardown(), vec![UiRelease::QuitSettings]);
    assert_eq!(ui.on_screen(None), Err(UiError::NoScreen));
    assert_eq!(ui.teardown(), vec![UiRelease::QuitSettings]);

    let mut ui = Ui::new();
    let e = ui.on_screen(Some((640, 480))).unwrap_err();
    assert_eq!(e, UiError::WrongSize { w: 640, h: 480 });
    assert!(e.to_string().starts_with("panel reported 640x480, expected 720x480 for the RGSP — set"));
    assert_eq!(UiError::NoScreen.to_string(), "GFX_init returned null");
    assert_eq!(ui.teardown(), vec![UiRelease::QuitScreen, UiRelease::QuitSettings]);

    let mut ui = Ui::new();
    ui.on_screen(Some((PANEL_W, PANEL_H))).unwrap();
    ui.on_input();
    ui.on_power();
    assert_eq!(ui.size(), (720, 480));
    assert_eq!(
        ui.teardown(),
        vec![
            UiRelease::QuitPower,
            UiRelease::QuitInput,
            UiRelease::QuitScreen,
            UiRelease::QuitSettings
        ]
    );
}
