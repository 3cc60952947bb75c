//! The capture tool's own arithmetic and text.
use rgsp_cast::cli::{frame_limit, frame_rate, header_line, hexdump, more_frames, Tally};

#[test]
fn a_frame_count_goes_before_a_duration() {
    assert_eq!(frame_limit(0, 10, 30), 300);
    assert_eq!(frame_limit(-1, 10, 30), 300);
    assert_eq!(frame_limit(7, 10, 30), 7);
}

#[test]
fn the_limit_counts_as_unsigned() {
    assert!(more_frames(6, 7));
    assert!(!more_frames(7, 7));
    assert!(!more_frames(0, 0));
    assert!(more_frames(u32::MAX - 1, -1));
    assert!(!more_frames(u32::MAX, -1));
}

#[test]
fn frames_are_counted() {
    let mut t = Tally::new();
    t.count(10, true);
    t.count(5, false);
    assert_eq!(t, Tally { bytes_out: 15, frames: 2, keyframes: 1 });
}

#[test]
fn a_header_is_dumped_up_to_a_line() {
    assert_eq!(hexdump("x", &[0, 0xab, 0x7f]), "[rgsp-cast] x: 00 ab 7f");
    assert_eq!(header_line(&[1, 2]), "[rgsp-cast] sps/pps: 01 02");
    let long = vec![0u8; 40];
    assert_eq!(header_line(&long).len(), "[rgsp-cast] sps/pps:".len() + 3 * 32);
}

#[test]
fn no_rate_asked_for_is_thirty() {
    assert_eq!(frame_rate(0), 30);
    assert_eq!(frame_rate(-2), 30);
    assert_eq!(frame_rate(25), 25);
}
