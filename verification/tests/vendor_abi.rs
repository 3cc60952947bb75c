//! The vendor interface's plain values.
use rgsp_cast::vendor_abi::index::{BITRATE, FORCE_KEY_FRAME, H264_SPS_PPS, MAX_KEY_INTERVAL};
use rgsp_cast::vendor_abi::{
    pixel_fmt, VencAllocateBufferParam, VencBaseConfig, VencCodecType, VencHeaderData,
    VencInputBuffer, VencOutputBuffer, VencPixelFmt,
};

#[test]
fn output_buffer_tail_is_256_bytes() {
    let b = VencOutputBuffer::default();
    assert_eq!(b._tail.len(), 256, "measured +0 spill, but the slack is the standing rule");
}

#[test]
fn every_tail_has_its_size_and_is_zero() {
    assert_eq!(VencBaseConfig::default()._tail, [0; 128]);
    assert_eq!(VencInputBuffer::default()._tail, [0; 256]);
    assert_eq!(VencAllocateBufferParam::default()._tail, [0; 64]);
    assert_eq!(VencHeaderData::default()._tail, [0; 496]);
}

#[test]
fn pixel_formats_go_by_their_numbers() {
    for v in -3..40 {
        match pixel_fmt(v) {
            Some(f) => assert_eq!(f.code(), v),
            None => assert!(![0, 12, 13, 14, 15].contains(&v)),
        }
    }
    assert_eq!(pixel_fmt(12), Some(VencPixelFmt::Argb));
    assert_eq!(VencPixelFmt::default(), VencPixelFmt::Yuv420Sp);
    assert!(!VencPixelFmt::Yuv420Sp.is_rgb());
    assert!(VencPixelFmt::Bgra.is_rgb());
    assert_eq!(VencCodecType::default().code(), 0);
}

#[test]
fn parameter_numbers() {
    assert_eq!((BITRATE, MAX_KEY_INTERVAL, FORCE_KEY_FRAME, H264_SPS_PPS), (0, 2, 6, 0x101));
}
