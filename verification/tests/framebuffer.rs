//! Framebuffer geometry and read results.
use rgsp_cast::framebuffer::{read_outcome, validate_geometry, FbGeometry, GeometryError, ReadError};

#[test]
fn rejects_an_unsupported_bit_depth() {
    assert!(validate_geometry(720, 480, 24, 0, 0).is_err());
}

#[test]
fn accepts_32_and_16_bpp() {
    assert!(validate_geometry(720, 480, 32, 0, 0).is_ok());
    assert!(validate_geometry(720, 480, 16, 0, 0).is_ok());
}

#[test]
fn rejects_a_requested_size_that_is_not_the_panel() {
    // The encoder path has only ever run at the panel's native geometry,
    // and asking the VE to scale the *input* is an untested path. Callers
    // that pass a size say what they expect; disagreeing with the panel is
    // an error, not a resize.
    let e = validate_geometry(720, 480, 32, 1280, 720).unwrap_err();
    assert!(e.to_string().contains("scaling is not supported"));
}

#[test]
fn zero_means_whatever_the_panel_is() {
    assert!(validate_geometry(720, 480, 32, 0, 0).is_ok());
    assert!(validate_geometry(720, 480, 32, 720, 480).is_ok());
}

#[test]
fn the_depth_is_judged_before_the_size() {
    let e = validate_geometry(720, 480, 24, 1280, 720).unwrap_err();
    assert_eq!(e, GeometryError::UnsupportedDepth { bpp: 24 });
    assert_eq!(e.to_string(), "unsupported bpp 24");
}

#[test]
fn a_size_mismatch_names_both_sizes() {
    let e = validate_geometry(720, 480, 32, 1280, 720).unwrap_err();
    assert_eq!(
        e.to_string(),
        "requested 1280x720 but the framebuffer is 720x480; scaling is not supported"
    );
}

#[test]
fn a_device_geometry_is_taken_as_reported() {
    let g = FbGeometry::from_device(720, 480, 32, 2880, 720, 960, 0x4000_0000, 99).unwrap();
    assert_eq!((g.w, g.h, g.bpp, g.pitch), (720, 480, 32, 2880));
    assert_eq!((g.xres_virtual, g.yres_virtual, g.smem_start, g.smem_len), (720, 960, 0x4000_0000, 99));
    assert!(FbGeometry::from_device(720, 480, 8, 720, 720, 480, 0, 0).is_err());
}

#[test]
fn the_visible_half_is_read() {
    let g = FbGeometry::from_device(720, 480, 32, 2880, 720, 960, 0, 0).unwrap();
    assert_eq!(g.visible_offset(Some(480)), 480 * 2880);
    assert_eq!(g.visible_offset(Some(0)), 0);
    assert_eq!(g.visible_offset(None), 0);
}

#[test]
fn a_read_of_nothing_is_an_error_and_a_short_one_is_not() {
    assert_eq!(read_outcome(12, "x".to_string()), Ok(12));
    assert_eq!(read_outcome(0, "x".to_string()), Err(ReadError::EndOfFile));
    let message = "Bad file descriptor".to_string();
    assert_eq!(read_outcome(-1, message.clone()), Err(ReadError::Os { message }));
}
