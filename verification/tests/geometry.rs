//! Pillarbox geometry on concrete sizes.
use rgsp_cast::geometry::Pillarbox;

#[test]
fn the_real_case_720x480_panel_into_a_720p_stream() {
    // The VE stretches input geometry to destination geometry with no
    // regard for aspect ratio, and GameStream requires the stream to be
    // exactly the size the client negotiated - so the padding happens on
    // the input side. 720x480 (3:2) into 1280x720 (16:9) gives 848x480
    // with 64px bars either side, which the VE then scales evenly.
    let p = Pillarbox::for_target(720, 480, 1280, 720);
    assert_eq!((p.pad_w, p.pad_h), (848, 480));
    assert_eq!((p.pad_x, p.pad_y), (64, 0));
    assert!(p.padded);
}

#[test]
fn a_matching_aspect_ratio_needs_no_bars() {
    let p = Pillarbox::for_target(720, 480, 1440, 960);
    assert_eq!((p.pad_w, p.pad_h), (720, 480));
    assert!(!p.padded);
}

#[test]
fn zero_destination_means_no_scaling() {
    let p = Pillarbox::for_target(720, 480, 0, 0);
    assert_eq!((p.pad_w, p.pad_h), (720, 480));
    assert_eq!((p.pad_x, p.pad_y), (0, 0));
    assert!(!p.padded);
}

#[test]
fn a_taller_destination_letterboxes_instead() {
    // 720x480 into 480x800: the destination is narrower than the source,
    // so the input grows vertically and the bars are top and bottom.
    let p = Pillarbox::for_target(720, 480, 480, 800);
    assert_eq!((p.pad_w, p.pad_h), (720, 1200));
    assert_eq!((p.pad_x, p.pad_y), (0, 360));
    assert!(p.padded);
}

#[test]
fn padded_dimensions_are_always_16_aligned() {
    // The VE wants 16-aligned dimensions.
    for dst_w in [640u32, 1280, 1920, 854] {
        for dst_h in [360u32, 720, 1080, 480] {
            let p = Pillarbox::for_target(720, 480, dst_w, dst_h);
            assert_eq!(p.pad_w % 16, 0, "{dst_w}x{dst_h} pad_w={}", p.pad_w);
            assert_eq!(p.pad_h % 16, 0, "{dst_w}x{dst_h} pad_h={}", p.pad_h);
        }
    }
}

#[test]
fn the_panel_image_is_never_cropped() {
    // Only widening or heightening, never cropping: the whole panel is
    // always visible.
    for dst_w in [320u32, 640, 1280, 1920] {
        for dst_h in [240u32, 480, 720, 1080] {
            let p = Pillarbox::for_target(720, 480, dst_w, dst_h);
            assert!(p.pad_w >= 720, "{dst_w}x{dst_h}");
            assert!(p.pad_h >= 480, "{dst_w}x{dst_h}");
            assert!(p.pad_x + 720 <= p.pad_w);
            assert!(p.pad_y + 480 <= p.pad_h);
        }
    }
}

#[test]
fn rounding_is_to_nearest_16_not_next_16() {
    // The alignment error becomes residual aspect distortion, and rounding
    // to nearest halves it. src 480x720 into dst 1280x720: want = h *
    // dst_w / dst_h = 720 * 1280 / 720 = 1280, already 16-aligned, so this
    // exercises the branch where rounding is a no-op.
    let p = Pillarbox::for_target(480, 720, 1280, 720);
    assert_eq!(p.pad_w, 1280);
    assert_eq!(p.pad_x, 400);
}

#[test]
fn a_rounding_that_would_crop_goes_up_instead() {
    // 721 wide is not aligned; the nearest multiple to what is wanted lies
    // below the panel.
    let p = Pillarbox::for_target(721, 480, 722, 480);
    assert_eq!((p.pad_w, p.pad_x), (736, 7));
    assert!(p.padded);
}

#[test]
fn the_panel_is_centred() {
    for (dw, dh) in [(1280u32, 720u32), (1920, 1080), (480, 800), (640, 640)] {
        let p = Pillarbox::for_target(720, 480, dw, dh);
        assert!(p.pad_w - 720 - 2 * p.pad_x <= 1);
        assert!(p.pad_h - 480 - 2 * p.pad_y <= 1);
    }
}

#[test]
fn a_surface_past_32_bits_does_not_fit() {
    assert!(Pillarbox::fits(720, 480, 1280, 720));
    assert!(Pillarbox::fits(720, 480, 0, 0));
    assert!(Pillarbox::fits(u32::MAX, 1, u32::MAX, 1));
    assert!(!Pillarbox::fits(720, 480, u32::MAX, 480));
    assert!(!Pillarbox::fits(720, 480, 720, u32::MAX));
}

#[test]
fn a_shape_that_alignment_cannot_follow_gets_no_bars() {
    let p = Pillarbox::for_target(720, 480, 724, 480);
    assert_eq!((p.pad_w, p.pad_h), (720, 480));
    assert_eq!((p.pad_x, p.pad_y), (0, 0));
    assert!(!p.padded);
    // And from the other side.
    assert!(!Pillarbox::for_target(720, 480, 720, 484).padded);
}
