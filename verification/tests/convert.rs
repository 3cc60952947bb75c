//! Colour conversion on concrete pixels.
use rgsp_cast::convert::{
    bgra_to_nv12, clamp8, rgb565_in_order_to_nv12, rgb565_probed_to_nv12, rgb565_to_nv12, rgb_u,
    rgb_v, rgb_y, ByteOrder,
};

#[test]
fn black_and_white_land_on_the_limited_range_endpoints() {
    // BT.601 limited range: black is Y=16, white is Y=235, and neutral
    // colour is U=V=128 at both ends.
    assert_eq!(rgb_y(0, 0, 0), 16);
    assert_eq!(rgb_y(255, 255, 255), 235);
    assert_eq!(rgb_u(0, 0, 0), 128);
    assert_eq!(rgb_v(0, 0, 0), 128);
    assert_eq!(rgb_u(255, 255, 255), 128);
    assert_eq!(rgb_v(255, 255, 255), 128);
}

#[test]
fn primaries_push_chroma_to_the_expected_side() {
    // Blue is the positive end of U (Cb), red the positive end of V (Cr);
    // 128 is the neutral point either way.
    assert!(rgb_u(0, 0, 255) > 200);
    assert!(rgb_v(0, 0, 255) < 128);
    assert!(rgb_v(255, 0, 0) > 200);
    assert!(rgb_u(255, 0, 0) < 128);
    // Green carries most of the luma weight, then red, then blue.
    assert!(rgb_y(0, 255, 0) > rgb_y(255, 0, 0));
    assert!(rgb_y(255, 0, 0) > rgb_y(0, 0, 255));
}

#[test]
fn clamping_holds_at_both_ends() {
    assert_eq!(clamp8(-1), 0);
    assert_eq!(clamp8(256), 255);
    assert_eq!(clamp8(128), 128);
}

#[test]
fn bgra_white_converts_to_flat_luma_and_neutral_chroma() {
    let (w, h) = (4usize, 4usize);
    let pitch = w * 4;
    let src = vec![0xffu8; pitch * h];
    let mut dy = vec![0u8; w * h];
    let mut duv = vec![0u8; w * h / 2];
    bgra_to_nv12(&src, pitch, w, h, &mut dy, &mut duv);
    assert!(dy.iter().all(|&y| y == 235), "{dy:?}");
    assert!(duv.iter().all(|&c| c == 128), "{duv:?}");
}

#[test]
fn bgra_reads_the_channels_in_framebuffer_order() {
    // /dev/fb0 lays a pixel out as B,G,R,A. A pure-red pixel is therefore
    // 00 00 ff ff, and must come back as red, not blue.
    let (w, h) = (2usize, 2usize);
    let pitch = w * 4;
    let mut src = vec![0u8; pitch * h];
    for p in src.chunks_mut(4) {
        p.copy_from_slice(&[0x00, 0x00, 0xff, 0xff]);
    }
    let mut dy = vec![0u8; w * h];
    let mut duv = vec![0u8; w * h / 2];
    bgra_to_nv12(&src, pitch, w, h, &mut dy, &mut duv);
    assert_eq!(dy[0], rgb_y(255, 0, 0));
    assert_eq!(duv[0], rgb_u(255, 0, 0));
    assert_eq!(duv[1], rgb_v(255, 0, 0));
}

#[test]
fn rgb565_white_converts_to_flat_luma_and_neutral_chroma() {
    // 5/6-bit channels are expanded by shifting left, not by replicating
    // the high bits, so 0xffff is (248, 252, 248) rather than white -
    // Y=231, not the 235 an 8-bit white gives, and chroma lands one step
    // off neutral at 127 because green expands further than red and blue.
        let (w, h) = (4usize, 4usize);
    let pitch = w * 2;
    let mut src = vec![0u8; pitch * h];
    for p in src.chunks_mut(2) {
        p.copy_from_slice(&0xffffu16.to_ne_bytes());
    }
    let mut dy = vec![0u8; w * h];
    let mut duv = vec![0u8; w * h / 2];
    rgb565_to_nv12(&src, pitch, w, h, &mut dy, &mut duv);
    assert!(dy.iter().all(|&y| y == 231), "{dy:?}");
    assert!(duv.iter().all(|&c| c == 127), "{duv:?}");
}

#[test]
fn rgb565_black_is_the_luma_floor() {
    let (w, h) = (2usize, 2usize);
    let pitch = w * 2;
    let src = vec![0u8; pitch * h];
    let mut dy = vec![0u8; w * h];
    let mut duv = vec![0u8; w * h / 2];
    rgb565_to_nv12(&src, pitch, w, h, &mut dy, &mut duv);
    assert!(dy.iter().all(|&y| y == 16));
    assert!(duv.iter().all(|&c| c == 128));
}

#[test]
fn chroma_averages_a_2x2_block_rather_than_point_sampling() {
    // Two white pixels and two black ones in a 2x2 block average to a mid
    // grey; point-sampling the top-left would give white's chroma and, more
    // visibly, the wrong luma weighting on dithered gradients.
    let (w, h) = (2usize, 2usize);
    let pitch = w * 4;
    let mut src = vec![0u8; pitch * h];
    // Top row white, bottom row black (BGRA).
    src[0..8].copy_from_slice(&[0xff; 8]);
    let mut dy = vec![0u8; w * h];
    let mut duv = vec![0u8; w * h / 2];
    bgra_to_nv12(&src, pitch, w, h, &mut dy, &mut duv);
    assert_eq!(dy[0], 235);
    assert_eq!(dy[2], 16);
    // (255 + 255 + 0 + 0) >> 2 == 127 in each channel.
    assert_eq!(duv[0], rgb_u(127, 127, 127));
    assert_eq!(duv[1], rgb_v(127, 127, 127));
}

#[test]
fn grey_is_neutral_at_every_brightness() {
    for v in 0..=255 {
        assert_eq!(rgb_u(v, v, v), 128);
        assert_eq!(rgb_v(v, v, v), 128);
    }
}

#[test]
fn exact_samples_of_the_primaries() {
    assert_eq!((rgb_y(255, 0, 0), rgb_u(255, 0, 0), rgb_v(255, 0, 0)), (82, 90, 240));
    assert_eq!((rgb_y(0, 255, 0), rgb_u(0, 255, 0), rgb_v(0, 255, 0)), (144, 54, 34));
    assert_eq!((rgb_y(0, 0, 255), rgb_u(0, 0, 255), rgb_v(0, 0, 255)), (41, 240, 110));
}

#[test]
fn bytes_outside_the_picture_stay() {
    let src = vec![0xffu8; 16];
    let mut dy = vec![7u8; 6];
    let mut duv = vec![7u8; 4];
    bgra_to_nv12(&src, 8, 2, 2, &mut dy, &mut duv);
    assert_eq!(dy, vec![235, 235, 235, 235, 7, 7]);
    assert_eq!(duv, vec![128, 128, 7, 7]);
}

#[test]
fn an_odd_width_writes_one_chroma_byte_past_its_last_row() {
    let src = vec![0xffu8; 3 * 4 * 2];
    let mut dy = vec![0u8; 6];
    let mut duv = vec![7u8; 5];
    bgra_to_nv12(&src, 12, 3, 2, &mut dy, &mut duv);
    assert_eq!(duv, vec![128, 128, 128, 128, 7]);
}

#[test]
fn the_alpha_byte_of_the_last_pixel_is_never_read() {
    let src = [0u8, 0, 0xff];
    let mut dy = vec![0u8; 1];
    let mut duv = vec![0u8; 2];
    bgra_to_nv12(&src, 4, 1, 1, &mut dy, &mut duv);
    assert_eq!(dy[0], rgb_y(255, 0, 0));
}

#[test]
fn sixteen_bit_pixels_follow_their_byte_order() {
    // 0xf800 is red, 0x00f8 is not.
    let src = [0x00u8, 0xf8];
    let (mut dy, mut duv) = (vec![0u8; 1], vec![0u8; 2]);
    rgb565_in_order_to_nv12(ByteOrder::Little, &src, 2, 1, 1, &mut dy, &mut duv);
    assert_eq!(dy[0], rgb_y(248, 0, 0));
    rgb565_in_order_to_nv12(ByteOrder::Big, &src, 2, 1, 1, &mut dy, &mut duv);
    assert_eq!(dy[0], rgb_y(0, 28, 192));
}

#[test]
fn the_native_order_is_one_of_the_two() {
    let red = 0xf800u16.to_ne_bytes();
    let (mut dy, mut duv) = (vec![0u8; 1], vec![0u8; 2]);
    rgb565_to_nv12(&red, 2, 1, 1, &mut dy, &mut duv);
    assert_eq!(dy[0], rgb_y(248, 0, 0));
    assert_eq!((duv[0], duv[1]), (rgb_u(248, 0, 0), rgb_v(248, 0, 0)));
}

#[test]
fn a_flat_picture_stays_flat() {
    let src: Vec<u8> = [10u8, 20, 30, 0].iter().copied().cycle().take(4 * 4 * 2).collect();
    let (mut dy, mut duv) = (vec![0u8; 8], vec![0u8; 4]);
    bgra_to_nv12(&src, 16, 4, 2, &mut dy, &mut duv);
    assert!(dy.iter().all(|&v| v == rgb_y(30, 20, 10)));
    let (u, v) = (rgb_u(30, 20, 10), rgb_v(30, 20, 10));
    assert_eq!(duv, vec![u, v, u, v]);
}

#[test]
fn the_probe_decides_the_byte_order() {
    let src = [0x00u8, 0xf8];
    let (mut dy, mut duv) = (vec![0u8; 1], vec![0u8; 2]);
    rgb565_probed_to_nv12(1, &src, 2, 1, 1, &mut dy, &mut duv);
    assert_eq!(dy[0], rgb_y(248, 0, 0));
    rgb565_probed_to_nv12(256, &src, 2, 1, 1, &mut dy, &mut duv);
    assert_eq!(dy[0], rgb_y(0, 28, 192));
}
