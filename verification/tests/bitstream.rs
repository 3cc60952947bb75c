//! Annex-B and AVCC handling on concrete bytes.
use rgsp_cast::bitstream::{
    append_avcc_as_annexb, avcc_record_to_annexb, first_slice_is_idr, nal_types,
    starts_with_parameter_sets,
};

#[test]
fn passes_through_data_that_is_already_annexb() {
    let d = [0, 0, 0, 1, 0x65, 0xaa, 0xbb];
    let mut out = Vec::new();
    assert_eq!(append_avcc_as_annexb(&mut out, &d), d.len());
    assert_eq!(out, d);
}

#[test]
fn rejects_a_length_prefix_that_overruns_the_buffer() {
    let d = [0, 0, 0, 99, 0x65];
    let mut out = Vec::new();
    assert_eq!(append_avcc_as_annexb(&mut out, &d), 0);
    assert!(out.is_empty(), "a rejected buffer must not leave partial output");
}

#[test]
fn rejects_a_zero_length_prefix() {
    let d = [0, 0, 0, 0, 0x65];
    let mut out = Vec::new();
    assert_eq!(append_avcc_as_annexb(&mut out, &d), 0);
}

#[test]
fn converts_two_concatenated_nals() {
    let d = [0, 0, 0, 2, 0x67, 0x01, 0, 0, 0, 1, 0x68];
    let mut out = Vec::new();
    assert_eq!(append_avcc_as_annexb(&mut out, &d), 11);
    assert_eq!(out, vec![0, 0, 0, 1, 0x67, 0x01, 0, 0, 0, 1, 0x68]);
}

#[test]
fn recognizes_a_three_byte_start_code() {
    // 0x65 = type 5, IDR slice.
    assert!(first_slice_is_idr(&[0, 0, 1, 0x65]));
}

#[test]
fn skips_sei_and_aud_before_the_first_slice() {
    // type 9 (AUD), type 6 (SEI), then type 5 (IDR).
    let d = [0, 0, 0, 1, 0x09, 0, 0, 0, 1, 0x06, 0, 0, 0, 1, 0x65];
    assert!(first_slice_is_idr(&d));
    assert!(!starts_with_parameter_sets(&d));
}

#[test]
fn a_non_idr_slice_is_not_a_keyframe() {
    assert!(!first_slice_is_idr(&[0, 0, 0, 1, 0x41]));
}

#[test]
fn a_leading_parameter_set_is_detected() {
    assert!(starts_with_parameter_sets(&[0, 0, 0, 1, 0x67, 0, 0, 0, 1, 0x65]));
}

#[test]
fn a_malformed_avcc_record_yields_nothing() {
    assert!(avcc_record_to_annexb(&[0x02, 1, 2, 3, 4, 5, 6, 7, 8]).is_empty());
    assert!(avcc_record_to_annexb(&[0x01, 1, 2]).is_empty());
}

#[test]
fn an_avcc_record_truncated_mid_sps_yields_what_parsed() {
    // version, profile/compat/level, ff, e1 (1 SPS), len=10, but only 2 bytes follow.
    let r = [0x01, 0x64, 0x00, 0x33, 0xff, 0xe1, 0x00, 0x0a, 0x67, 0x4d];
    assert!(avcc_record_to_annexb(&r).is_empty());
}

#[test]
fn a_single_byte_first_unit_passes_for_annexb() {
    // Its length prefix is the start code itself.
    let d = [0, 0, 0, 1, 0x65, 0, 0, 0, 2, 0x41, 0x42];
    let mut out = Vec::new();
    assert_eq!(append_avcc_as_annexb(&mut out, &d), d.len());
    assert_eq!(out, d);
}

#[test]
fn a_conversion_appends_after_what_is_there() {
    let mut out = vec![9, 9];
    assert_eq!(append_avcc_as_annexb(&mut out, &[0, 0, 0, 2, 0x41, 0x42]), 6);
    assert_eq!(out, vec![9, 9, 0, 0, 0, 1, 0x41, 0x42]);
}

#[test]
fn a_malformed_tail_leaves_nothing_of_the_front() {
    let d = [0, 0, 0, 2, 0x41, 0x42, 0, 0, 0, 9, 0x41];
    let mut out = vec![7];
    assert_eq!(append_avcc_as_annexb(&mut out, &d), 0);
    assert_eq!(out, vec![7]);
}

#[test]
fn up_to_three_bytes_left_over_are_ignored() {
    let d = [0, 0, 0, 2, 0x41, 0x42, 0, 0, 0];
    let mut out = Vec::new();
    assert_eq!(append_avcc_as_annexb(&mut out, &d), 6);
    assert_eq!(out, vec![0, 0, 0, 1, 0x41, 0x42]);
}

#[test]
fn converting_twice_changes_nothing_more() {
    let d = [0, 0, 0, 2, 0x67, 0x01, 0, 0, 0, 3, 0x65, 1, 2];
    let mut once = Vec::new();
    append_avcc_as_annexb(&mut once, &d);
    let mut twice = Vec::new();
    append_avcc_as_annexb(&mut twice, &once);
    assert_eq!(once, twice);
}

#[test]
fn headers_are_found_behind_both_kinds_of_start_code() {
    let d = [0, 0, 1, 0x67, 5, 0, 0, 0, 1, 0x68, 0, 0, 1];
    assert_eq!(nal_types(&d), vec![(3, 7), (9, 8)]);
    assert_eq!(nal_types(&[0, 0, 0, 1]), vec![]);
    assert_eq!(nal_types(&[]), vec![]);
}

#[test]
fn a_record_gives_back_its_sets() {
    let r = [
        0x01, 0x64, 0x00, 0x33, 0xff, 0xe1, 0x00, 0x03, 0x67, 0x4d, 0x01, 0x01, 0x00, 0x02, 0x68,
        0xee,
    ];
    let sets = avcc_record_to_annexb(&r);
    assert_eq!(sets, vec![0, 0, 0, 1, 0x67, 0x4d, 0x01, 0, 0, 0, 1, 0x68, 0xee]);
    assert!(starts_with_parameter_sets(&sets));
}

#[test]
fn a_record_cut_short_in_its_second_set_keeps_the_first() {
    let r = [0x01, 0x64, 0x00, 0x33, 0xff, 0xe2, 0x00, 0x01, 0x67, 0x00, 0x09, 0x67];
    assert_eq!(avcc_record_to_annexb(&r), vec![0, 0, 0, 1, 0x67]);
}

#[test]
fn a_record_cut_short_in_its_picture_sets_keeps_the_others() {
    let r = [0x01, 0x64, 0x00, 0x33, 0xff, 0xe1, 0x00, 0x01, 0x67, 0x01, 0x00];
    assert_eq!(avcc_record_to_annexb(&r), vec![0, 0, 0, 1, 0x67]);
}

#[test]
fn sets_in_front_of_a_frame_lead_it_and_keep_its_kind() {
    let sets = [0, 0, 0, 1, 0x67, 1, 0, 0, 0, 1, 0x68];
    for (frame, key) in [(vec![0, 0, 0, 1, 0x65, 9], true), (vec![0, 0, 0, 1, 0x41, 9], false)] {
        let mut whole = sets.to_vec();
        whole.extend_from_slice(&frame);
        assert!(starts_with_parameter_sets(&whole));
        assert_eq!(first_slice_is_idr(&whole), key);
        assert_eq!(first_slice_is_idr(&frame), key);
    }
}

#[test]
fn the_encoders_own_record_gives_its_two_sets() {
    let record = [
        0x01, 0x64, 0x00, 0x33, 0xff, 0x01, 0x00, 0x0a, 0x67, 0x4d, 0x00, 0x29, 0x96, 0x54, 0x05,
        0xa1, 0xe8, 0x80, 0x01, 0x00, 0x04, 0x68, 0xee, 0x3c, 0x80,
    ];
    assert_eq!(
        avcc_record_to_annexb(&record),
        vec![
            0, 0, 0, 1, 0x67, 0x4d, 0x00, 0x29, 0x96, 0x54, 0x05, 0xa1, 0xe8, 0x80, 0, 0, 0, 1,
            0x68, 0xee, 0x3c, 0x80,
        ]
    );
}
