//! Frame numbers, timestamps and forced key frames.
use rgsp_cast::capture::{CaptureError, CaptureSlot, Frame};
use rgsp_cast::video::{
    rtp_timestamp_for, RunEvent, RunStep, VideoConfig, VideoStream, BITRATE_CEILING,
    MIN_IDR_INTERVAL, PANEL_HEIGHT, PANEL_WIDTH,
};

fn stream(bitrate: u32) -> VideoStream {
    VideoStream::new(VideoConfig { width: 1280, height: 720, fps: 30, bitrate })
}

#[test]
fn rtp_timestamp_advances_at_90khz() {
    // The video uses a 90 kHz RTP clock. At 30 fps that is 3000 ticks
    // per frame; drift here shows up as stutter on the client.
    assert_eq!(rtp_timestamp_for(0, 30), 0);
    assert_eq!(rtp_timestamp_for(1, 30), 3000);
    assert_eq!(rtp_timestamp_for(30, 30), 90_000);
    assert_eq!(rtp_timestamp_for(60, 60), 90_000);
}

#[test]
fn timestamps_wrap_and_do_not_drift() {
    assert_eq!(rtp_timestamp_for(1 << 32, 1), ((90_000u64 << 32) % (1 << 32)) as u32);
    for n in [0u64, 7, 59, 1_000_003] {
        let a = rtp_timestamp_for(n, 59);
        let b = rtp_timestamp_for(n + 59, 59);
        assert_eq!(b, a.wrapping_add(90_000));
    }
}

#[test]
fn the_bitrate_has_a_ceiling() {
    assert_eq!(stream(1_000).encoder_bitrate(), 1_000);
    assert_eq!(stream(20_000_000).encoder_bitrate(), BITRATE_CEILING);
}

#[test]
fn the_capture_is_the_panel_at_the_negotiated_size() {
    let mut slot = CaptureSlot::new();
    let c = stream(20_000_000).open_capture(&mut slot).unwrap();
    assert_eq!(
        stream(20_000_000).open_capture(&mut slot).err(),
        Some(CaptureError::AlreadyOpen)
    );
    let s = c.snapshot();
    assert_eq!((s.width, s.height), (PANEL_WIDTH, PANEL_HEIGHT));
    assert_eq!((s.dst_w, s.dst_h), (1280, 720));
    assert_eq!((s.fps, s.bitrate), (30, 6_000_000));
}

#[test]
fn frames_are_numbered_from_one() {
    let mut v = stream(0);
    let data = [1u8, 2];
    let f = v.next_frame(Frame { data: &data, is_keyframe: true });
    assert_eq!((f.frame_number, f.rtp_timestamp, f.is_keyframe), (1, 3000, true));
    assert_eq!(f.data, &data);
    let f = v.next_frame(Frame { data: &[], is_keyframe: false });
    assert_eq!((f.frame_number, f.rtp_timestamp), (2, 6000));
}

#[test]
fn the_first_request_for_a_key_frame_counts_at_once() {
    let mut v = stream(0);
    let (mut idr, mut reset) = (v.idr_requester(), v.reset_requester());
    assert!(!v.steer(&mut idr, &mut reset, 5));
    idr.request();
    assert!(v.steer(&mut idr, &mut reset, 6));
    assert!(!v.steer(&mut idr, &mut reset, 7), "the request was taken");
}

#[test]
fn requests_within_the_interval_fall_on_the_floor() {
    let mut v = stream(0);
    let (mut idr, mut reset) = (v.idr_requester(), v.reset_requester());
    idr.request();
    assert!(v.steer(&mut idr, &mut reset, 0));
    idr.request();
    assert!(!v.steer(&mut idr, &mut reset, MIN_IDR_INTERVAL - 1));
    assert!(!v.steer(&mut idr, &mut reset, MIN_IDR_INTERVAL), "dropped, not deferred");
    idr.request();
    assert!(v.steer(&mut idr, &mut reset, MIN_IDR_INTERVAL));
}

#[test]
fn a_reset_always_counts_and_starts_over() {
    let mut v = stream(0);
    let (mut idr, mut reset) = (v.idr_requester(), v.reset_requester());
    v.next_frame(Frame { data: &[], is_keyframe: true });
    idr.request();
    assert!(v.steer(&mut idr, &mut reset, 0));
    reset.request();
    idr.request();
    assert!(v.steer(&mut idr, &mut reset, 1));
    assert_eq!(v.next_frame(Frame { data: &[], is_keyframe: true }).frame_number, 1);
    // The key frame request stood, and comes too soon after the reset.
    assert!(!v.steer(&mut idr, &mut reset, 2));
}

#[test]
fn the_frame_number_is_that_of_the_last_frame() {
    let mut v = stream(1_000);
    assert_eq!(v.frame_number(), 0);
    let f = v.next_frame(Frame { data: &[1, 2], is_keyframe: true });
    assert_eq!(f.frame_number, 1);
    assert_eq!(v.frame_number(), 1);
}

#[test]
fn numbers_have_no_gap_until_a_reset() {
    let mut v = stream(0);
    let (mut idr, mut reset) = (v.idr_requester(), v.reset_requester());
    let mut numbers = Vec::new();
    for k in 0..7 {
        if k == 4 {
            reset.request();
        }
        if k % 2 == 1 {
            idr.request();
        }
        v.steer(&mut idr, &mut reset, k);
        numbers.push(v.next_frame(Frame { data: &[], is_keyframe: false }).frame_number);
    }
    assert_eq!(numbers, vec![1, 2, 3, 4, 1, 2, 3]);
}

#[test]
fn a_run_ends_with_its_first_failure() {
    let v = stream(0);
    assert_eq!(v.run(RunEvent::Opened), RunStep::Capture);
    assert_eq!(v.run(RunEvent::Captured), RunStep::Send);
    assert_eq!(v.run(RunEvent::Sent), RunStep::Capture);
    let end = |text: &str| RunStep::End(text.to_string());
    assert_eq!(
        v.run(RunEvent::OpenFailed("a capture is already open".to_string())),
        end("Capture::open: a capture is already open")
    );
    assert_eq!(v.run(RunEvent::CaptureFailed("ops NULL".to_string())), end("ops NULL"));
    assert_eq!(v.run(RunEvent::SendFailed("gone".to_string())), end("gone"));
}
