//! The capture pipeline, driven step by step with made-up vendor answers.
use rgsp_cast::capture::{
    header_address, header_usable, parameter_sets, segment_plan, Call, Capture, CaptureError,
    CaptureSlot, Phase, Release, SegmentPlan, Stats, GUARD_FILL, SPS_PPS_CAP,
};
use rgsp_cast::framebuffer::{FbGeometry, ReadError};
use rgsp_cast::vendor_abi::{VencOutputBuffer, VencPixelFmt};

const SETS: [u8; 13] = [0, 0, 0, 1, 0x67, 0x4d, 1, 0, 0, 0, 1, 0x68, 0xee];
const IDR_AVCC: [u8; 7] = [0, 0, 0, 3, 0x65, 1, 2];
const P_AVCC: [u8; 6] = [0, 0, 0, 2, 0x41, 9];

fn panel() -> FbGeometry {
    FbGeometry::from_device(720, 480, 32, 2880, 720, 960, 0, 0).unwrap()
}

fn open(width: u32, height: u32, fps: i32, bitrate: i32) -> Capture {
    Capture::open(&mut CaptureSlot::new(), width, height, fps, bitrate).unwrap()
}

fn open_scaled(w: u32, h: u32, dst_w: u32, dst_h: u32, fps: i32, bitrate: i32) -> Capture {
    Capture::open_scaled(&mut CaptureSlot::new(), w, h, dst_w, dst_h, fps, bitrate).unwrap()
}

fn open_scaled_ex(dst: (u32, u32), in_fmt: VencPixelFmt, stride_bytes: bool) -> Capture {
    let mut slot = CaptureSlot::new();
    Capture::open_scaled_ex(&mut slot, 0, 0, dst.0, dst.1, 30, 0, in_fmt, stride_bytes).unwrap()
}

fn given_up(c: Capture) -> Vec<Release> {
    c.teardown(&mut CaptureSlot::new())
}

/// Takes a piece in one run.
fn whole(c: &mut Capture, piece: &[u8]) {
    let mut b = VencOutputBuffer::default();
    b.p_data0 = 0x1000;
    b.n_total_size = piece.len() as u32;
    c.take_piece(&b, piece, &[]);
}

/// Takes a piece in two runs; an empty second one is not there.
fn split(c: &mut Capture, first: &[u8], second: &[u8]) {
    let mut b = VencOutputBuffer::default();
    b.p_data0 = 0x1000;
    b.n_size0 = first.len() as u32;
    b.n_total_size = (first.len() + second.len()) as u32;
    if !second.is_empty() {
        b.p_data1 = 0x2000;
        b.n_size1 = second.len() as u32;
    }
    c.take_piece(&b, first, second);
}

/// Takes a piece without data.
fn nothing(c: &mut Capture) {
    c.take_piece(&VencOutputBuffer::default(), &[], &[]);
}

/// Opens a capture with every vendor call succeeding.
fn opened(mut c: Capture) -> Capture {
    c.on_framebuffer(panel()).unwrap();
    c.on_ops(1, 2, true).unwrap();
    c.on_mem_open(0).unwrap();
    c.on_encoder(true).unwrap();
    if c.snapshot().phase == Phase::Bitrate {
        c.on_bitrate(Some(0)).unwrap();
    }
    c.on_init(0).unwrap();
    c.on_buffers(0).unwrap();
    assert!(c.on_key_interval(Some(0)));
    c.on_first_input(0, 1_000).unwrap();
    c
}

/// Takes a frame up to the drain of its bitstream.
fn encoded(c: &mut Capture, now: i64) {
    c.begin_frame(now).unwrap();
    c.on_read(Ok(c.snapshot().frame_bytes as u64)).unwrap();
    c.on_converted(0, 5);
    c.on_submitted(0).unwrap();
    c.on_encoded(0, 7).unwrap();
}

/// Drains one piece and completes the frame.
fn finished(c: &mut Capture, piece: &[u8]) -> bool {
    assert!(c.on_bitstream_count(1));
    assert!(c.on_bitstream(0).unwrap());
    whole(c, piece);
    assert!(!c.on_bitstream_count(0));
    c.on_recycled(0).unwrap()
}

#[test]
fn the_guard_fill_is_not_zero() {
    assert_ne!(GUARD_FILL, 0);
    assert_eq!(GUARD_FILL, 0xAA, "the overspill test measures against 0xAA");
}

#[test]
fn capture_api_captures_annexb_frames_starting_with_a_keyframe() {
    let mut c = opened(open(720, 480, 30, 2_000_000));

    encoded(&mut c, 1_000);
    assert_eq!(c.snapshot().phase, Phase::Header);
    c.on_header(Some(0), 1, SETS.len() as u32, &SETS);
    finished(&mut c, &IDR_AVCC);
    let frame = c.frame();
    assert!(frame.data.len() > 4);
    assert_eq!(&frame.data[..4], &[0, 0, 0, 1], "annex-b start code");
    // Frame 0 must be a keyframe because the encoder emits SPS/PPS + IDR first.
    assert!(frame.is_keyframe);
    assert_eq!(&frame.data[..SETS.len()], &SETS[..]);
    assert_eq!(frame.data.len(), SETS.len() + 7);

    for i in 0..30 {
        encoded(&mut c, 2_000 + i);
        let key = finished(&mut c, &P_AVCC);
        assert!(!c.frame().data.is_empty());
        assert!(!key);
    }

    c.request_idr();
    c.begin_frame(9_000).unwrap();
    c.on_read(Ok(c.snapshot().frame_bytes as u64)).unwrap();
    assert!(c.on_converted(0, 0).force_key_frame);
    c.on_submitted(0).unwrap();
    c.on_encoded(0, 0).unwrap();
    assert!(finished(&mut c, &IDR_AVCC));
    // A bare forced key frame gets the sets in front.
    assert_eq!(&c.frame().data[..SETS.len()], &SETS[..]);

    encoded(&mut c, 10_000);
    assert!(!c.snapshot().force_idr, "a request is good for one frame");
}

#[test]
fn capture_api_single_instance_guard_enforces_one_capture_per_process() {
    let mut slot = CaptureSlot::new();
    let first = Capture::open(&mut slot, 720, 480, 30, 2_000_000).expect("first open");
    match Capture::open(&mut slot, 720, 480, 30, 2_000_000) {
        Err(e) => assert!(e.to_string().contains("already open"), "got: {}", e.to_string()),
        Ok(_) => panic!("second open should fail while first is held"),
    }
    first.teardown(&mut slot);
    assert!(
        Capture::open(&mut slot, 720, 480, 30, 2_000_000).is_ok(),
        "open should succeed after the first is dropped"
    );
}

#[test]
fn every_way_to_open_takes_the_slot() {
    let mut slot = CaptureSlot::new();
    let c = Capture::open_scaled(&mut slot, 720, 480, 1280, 720, 30, 0).unwrap();
    let fmt = VencPixelFmt::Argb;
    assert_eq!(
        Capture::open_scaled_ex(&mut slot, 0, 0, 0, 0, 30, 0, fmt, false).err(),
        Some(CaptureError::AlreadyOpen)
    );
    assert_eq!(
        Capture::open_scaled(&mut slot, 0, 0, 0, 0, 30, 0).err(),
        Some(CaptureError::AlreadyOpen)
    );
    assert_eq!(CaptureError::AlreadyOpen.to_string(), "a capture is already open");
    c.teardown(&mut slot);
    assert!(Capture::open_scaled_ex(&mut slot, 0, 0, 0, 0, 30, 0, fmt, false).is_ok());
}

#[test]
fn a_failed_capture_is_terminal() {
    let mut c = opened(open(720, 480, 30, 2_000_000));
    c.begin_frame(1_000).unwrap();
    let original = c.on_read(Err(ReadError::Os { message: "Input/output error".to_string() }));
    let original = original.unwrap_err();
    assert_eq!(original.to_string(), "pread(/dev/fb0): Input/output error");
    for now in 0..8 {
        let again = c.begin_frame(now).unwrap_err();
        assert_eq!(again, original, "a later call must repeat the original diagnosis");
        assert_eq!(again.to_string(), original.to_string());
    }
}

#[test]
fn a_requested_size_that_is_not_the_panel_is_rejected() {
    let mut slot = CaptureSlot::new();
    let mut c = Capture::open(&mut slot, 1920, 1080, 30, 2_000_000).unwrap();
    let e = c.on_framebuffer(panel()).unwrap_err();
    assert!(e.to_string().contains("scaling is not supported"), "got: {}", e.to_string());
    // The failed open must have released the single-capture slot.
    assert_eq!(c.teardown(&mut slot), vec![Release::FreeSlot]);
    assert!(
        Capture::open(&mut slot, 0, 0, 30, 2_000_000).is_ok(),
        "the slot is free again after a failed open"
    );
}

#[test]
fn no_frame_rate_means_thirty() {
    assert_eq!(open(0, 0, 0, 0).snapshot().fps, 30);
    assert_eq!(open(0, 0, -5, 0).snapshot().fps, 30);
    assert_eq!(open(0, 0, 60, 0).snapshot().fps, 60);
}

#[test]
fn every_failure_of_opening_has_its_error_and_its_teardown() {
    let fresh = || {
        let mut c = open(720, 480, 30, 5);
        c.on_framebuffer(panel()).unwrap();
        c
    };
    let with_memory = || {
        let mut c = fresh();
        c.on_ops(1, 2, true).unwrap();
        c.on_mem_open(0).unwrap();
        c
    };
    let configured = || {
        let mut c = with_memory();
        c.on_encoder(true).unwrap();
        c.on_bitrate(Some(0)).unwrap();
        c
    };

    let mut c = fresh();
    assert_eq!(c.on_ops(0, 2, true), Err(CaptureError::OpsNull));
    assert_eq!(given_up(c), vec![Release::FreeSlot]);
    assert_eq!(fresh().on_ops(1, 0, true), Err(CaptureError::OpsNull));
    assert_eq!(fresh().on_ops(1, 2, false), Err(CaptureError::MemOpenMissing));

    let mut c = fresh();
    c.on_ops(1, 2, true).unwrap();
    assert_eq!(c.on_mem_open(-1), Err(CaptureError::MemOpenFailed));
    assert_eq!(given_up(c), vec![Release::FreeSlot]);

    let mut c = with_memory();
    assert_eq!(c.on_encoder(false), Err(CaptureError::CreateFailed));
    assert_eq!(given_up(c), vec![Release::CloseMemory, Release::FreeSlot]);

    let mut c = with_memory();
    c.on_encoder(true).unwrap();
    assert_eq!(c.on_bitrate(None), Err(CaptureError::BitrateUnsupported));
    let mut c = with_memory();
    c.on_encoder(true).unwrap();
    let e = c.on_bitrate(Some(1)).unwrap_err();
    assert_eq!(e.to_string(), "VideoEncSetParameter(bitrate=5) failed");
    assert_eq!(
        given_up(c),
        vec![Release::DestroyEncoder, Release::CloseMemory, Release::FreeSlot]
    );

    let mut c = configured();
    assert_eq!(c.on_init(3), Err(CaptureError::InitFailed));
    let mut c = configured();
    c.on_init(0).unwrap();
    assert_eq!(c.on_buffers(3), Err(CaptureError::AllocFailed));
    let mut c = configured();
    c.on_init(0).unwrap();
    c.on_buffers(0).unwrap();
    assert!(!c.on_key_interval(None), "no way to set it is no failure");
    assert_eq!(c.on_first_input(1, 0), Err(CaptureError::NoInputBuffer));
    assert_eq!(
        given_up(c),
        vec![
            Release::FreeBuffers,
            Release::UninitEncoder,
            Release::DestroyEncoder,
            Release::CloseMemory,
            Release::FreeSlot
        ]
    );
}

#[test]
fn a_running_capture_gives_everything_back() {
    let c = opened(open(720, 480, 30, 0));
    assert_eq!(
        given_up(c),
        vec![
            Release::ReturnInput,
            Release::FreeBuffers,
            Release::UninitEncoder,
            Release::DestroyEncoder,
            Release::CloseMemory,
            Release::FreeSlot
        ]
    );
}

#[test]
fn the_encoder_gets_the_padded_surface() {
    let mut c = open_scaled(720, 480, 1280, 720, 30, 0);
    c.on_framebuffer(panel()).unwrap();
    c.on_ops(11, 22, true).unwrap();
    c.on_mem_open(0).unwrap();
    c.on_encoder(true).unwrap();
    let b = c.base_config();
    assert_eq!((b.n_input_width, b.n_input_height), (848, 480));
    assert_eq!((b.n_dst_width, b.n_dst_height), (1280, 720));
    assert_eq!(b.n_stride, 848);
    assert_eq!((b.memops, b.ve_ops_s, b.p_ve_ops_self), (22, 11, 0));
    assert_eq!(b.b_enc_h264_nalu, 1);
    assert_eq!(b.e_input_format, VencPixelFmt::Argb);
    c.on_init(0).unwrap();
    let p = c.buffer_request();
    assert_eq!((p.n_buffer_num, p.n_size_y, p.n_size_c), (1, 848 * 480 * 4, 0));
    assert_eq!(c.key_interval(), 1800);
}

#[test]
fn an_unpadded_stride_is_the_width_or_the_pitch() {
    for (bytes, stride) in [(false, 720), (true, 2880)] {
        let mut c = open_scaled_ex((0, 0), VencPixelFmt::Yuv420Sp, bytes);
        c.on_framebuffer(panel()).unwrap();
        c.on_ops(1, 2, true).unwrap();
        c.on_mem_open(0).unwrap();
        c.on_encoder(true).unwrap();
        let b = c.base_config();
        assert_eq!(b.n_stride, stride);
        assert_eq!((b.n_dst_width, b.n_dst_height), (720, 480));
        c.on_init(0).unwrap();
        let p = c.buffer_request();
        assert_eq!((p.n_size_y, p.n_size_c), (720 * 480, 720 * 240));
    }
}

#[test]
fn pacing_sleeps_to_the_deadline_and_drops_a_backlog() {
    let mut c = opened(open(720, 480, 50, 0));
    let interval = 20_000_000;
    assert_eq!(c.snapshot().frame_ns, interval);
    // Due at once, then one interval after that.
    assert_eq!(c.begin_frame(1_000), Ok(0));
    assert_eq!(c.snapshot().deadline, 1_000 + interval);

    let mut c = opened(open(720, 480, 50, 0));
    assert_eq!(c.begin_frame(400), Ok(600));

    // A stall of many intervals: the next is due an interval from now.
    let mut c = opened(open(720, 480, 50, 0));
    let late = 1_000 + 10 * interval;
    assert_eq!(c.begin_frame(late), Ok(0));
    assert_eq!(c.snapshot().deadline, late + interval);
}

#[test]
fn short_reads_are_counted_and_not_fatal() {
    let mut c = opened(open(720, 480, 30, 0));
    c.begin_frame(0).unwrap();
    c.on_read(Ok(12)).unwrap();
    assert_eq!(c.stats().short_reads, 1);
    c.on_converted(10, 25);
    c.on_submitted(0).unwrap();
    c.on_encoded(0, 40).unwrap();
    assert_eq!(c.stats(), Stats { convert_ns: 15, encode_ns: 40, short_reads: 1 });
    assert_eq!(Stats::default(), Stats { convert_ns: 0, encode_ns: 0, short_reads: 0 });
}

#[test]
fn every_failure_of_a_frame_names_it() {
    let mut c = opened(open(720, 480, 30, 0));
    c.begin_frame(0).unwrap();
    let e = c.on_read(Err(ReadError::EndOfFile)).unwrap_err();
    assert_eq!(e.to_string(), "pread(/dev/fb0): end of file");
    assert_eq!(c.stats().short_reads, 1);

    let mut c = opened(open(720, 480, 30, 0));
    c.begin_frame(0).unwrap();
    c.on_read(Ok(1)).unwrap();
    c.on_converted(0, 0);
    let e = c.on_submitted(1).unwrap_err();
    assert_eq!(e.to_string(), "AddOneInputBuffer failed at frame 0");

    let mut c = opened(open(720, 480, 30, 0));
    c.begin_frame(0).unwrap();
    c.on_read(Ok(1)).unwrap();
    c.on_converted(0, 0);
    c.on_submitted(0).unwrap();
    let e = c.on_encoded(1, 9).unwrap_err();
    assert_eq!(e.to_string(), "VideoEncodeOneFrame failed at frame 0");
    assert_eq!(c.stats().encode_ns, 0);

    let mut c = opened(open(720, 480, 30, 0));
    encoded(&mut c, 0);
    c.on_header(None, 0, 0, &[]);
    assert!(c.on_bitstream_count(1));
    let e = c.on_bitstream(1).unwrap_err();
    assert_eq!(e.to_string(), "GetOneBitstreamFrame failed at frame 0");

    let mut c = opened(open(720, 480, 30, 0));
    encoded(&mut c, 0);
    c.on_header(None, 0, 0, &[]);
    assert!(!c.on_bitstream_count(0));
    let e = c.on_recycled(1).unwrap_err();
    assert_eq!(e.to_string(), "GetOneAllocInputBuffer failed at frame 0");
    assert!(!given_up(c).contains(&Release::ReturnInput), "no buffer is held then");
}

#[test]
fn a_refusal_after_the_first_piece_ends_the_frame() {
    let mut c = opened(open(720, 480, 30, 0));
    encoded(&mut c, 0);
    c.on_header(Some(0), 1, SETS.len() as u32, &SETS);
    assert!(c.on_bitstream_count(2));
    assert!(c.on_bitstream(0).unwrap());
    split(&mut c, &IDR_AVCC, &[]);
    assert!(c.on_bitstream_count(1));
    assert!(!c.on_bitstream(1).unwrap());
    assert_eq!(c.on_recycled(0), Ok(true));
}

#[test]
fn pieces_are_taken_split_whole_or_not_at_all() {
    let mut c = opened(open(720, 480, 30, 0));
    encoded(&mut c, 0);
    c.on_header(None, 0, 0, &[]);
    c.on_bitstream_count(1);
    c.on_bitstream(0).unwrap();
    split(&mut c, &P_AVCC, &IDR_AVCC);
    c.on_bitstream_count(1);
    c.on_bitstream(0).unwrap();
    // Not AVCC: goes out as it is.
    whole(&mut c, &[1, 2, 3, 4, 5]);
    c.on_bitstream_count(1);
    c.on_bitstream(0).unwrap();
    nothing(&mut c);
    c.on_bitstream_count(0);
    c.on_recycled(0).unwrap();
    assert_eq!(
        c.frame().data,
        [0, 0, 0, 1, 0x41, 9, 0, 0, 0, 1, 0x65, 1, 2, 1, 2, 3, 4, 5]
    );
}

#[test]
fn an_answer_without_sets_keeps_none() {
    let record = [0x01, 0x64, 0x00, 0x33, 0xff, 0xe1, 0x00, 0x01, 0x67, 0x01, 0x00, 0x01, 0x68];
    let asked = |rc: Option<i32>, address: u64, raw: &[u8]| {
        let mut c = opened(open(720, 480, 30, 0));
        encoded(&mut c, 0);
        c.on_header(rc, address, raw.len() as u32, raw);
        assert!(c.snapshot().sps_pps_fetched);
        c.param_sets().to_vec()
    };
    assert_eq!(asked(Some(0), 1, &record), vec![0, 0, 0, 1, 0x67, 0, 0, 0, 1, 0x68]);
    assert_eq!(asked(Some(0), 1, &SETS), SETS.to_vec());
    assert_eq!(asked(Some(1), 1, &SETS), vec![]);
    assert_eq!(asked(Some(0), 0, &SETS), vec![]);
    assert_eq!(asked(None, 1, &SETS), vec![]);
}

#[test]
fn a_frame_says_whether_it_is_a_key_frame() {
    let mut c = opened(open(720, 480, 30, 0));
    for (now, piece, key) in [(0, &IDR_AVCC[..], true), (1, &P_AVCC[..], false)] {
        encoded(&mut c, now);
        if c.snapshot().phase == Phase::Header {
            c.on_header(Some(0), 1, SETS.len() as u32, &SETS);
        }
        assert_eq!(finished(&mut c, piece), key);
        assert_eq!(c.frame().is_keyframe, key);
    }
}

#[test]
fn four_pixels_of_target_width_make_no_bar() {
    let mut c = open_scaled(720, 480, 724, 480, 30, 0);
    c.on_framebuffer(panel()).unwrap();
    let pad = c.snapshot().pad;
    assert_eq!((pad.pad_w, pad.pad_h, pad.pad_x, pad.pad_y), (720, 480, 0, 0));
    assert!(!pad.padded);
}

#[test]
fn a_split_is_trusted_only_when_it_adds_up() {
    let mut b = VencOutputBuffer::default();
    assert_eq!(segment_plan(&b), SegmentPlan::Nothing);
    b.p_data0 = 1;
    b.n_total_size = 10;
    assert_eq!(segment_plan(&b), SegmentPlan::Whole { len: 10 });
    b.n_size0 = 7;
    assert_eq!(segment_plan(&b), SegmentPlan::Whole { len: 10 });
    b.n_size1 = 3;
    assert_eq!(segment_plan(&b), SegmentPlan::Split { len0: 7, len1: None });
    b.p_data1 = 2;
    assert_eq!(segment_plan(&b), SegmentPlan::Split { len0: 7, len1: Some(3) });
    b.p_data0 = 0;
    assert_eq!(segment_plan(&b), SegmentPlan::Nothing);
}

#[test]
fn a_key_frame_with_its_own_sets_is_left_alone() {
    let mut c = opened(open(720, 480, 30, 0));
    encoded(&mut c, 0);
    c.on_header(Some(0), 1, SETS.len() as u32, &SETS);
    finished(&mut c, &P_AVCC);
    encoded(&mut c, 1);
    let own = [0, 0, 0, 2, 0x67, 7, 0, 0, 0, 2, 0x65, 8];
    assert!(finished(&mut c, &own));
    assert_eq!(c.frame().data, [0, 0, 0, 1, 0x67, 7, 0, 0, 0, 1, 0x65, 8]);
}

#[test]
fn timestamps_follow_the_frame_rate() {
    let mut c = opened(open(720, 480, 30, 0));
    c.begin_frame(0).unwrap();
    c.on_read(Ok(1)).unwrap();
    let first = c.on_converted(0, 0);
    assert_eq!((first.n_pts, first.b_is_first_frame), (0, 1));
    c.on_submitted(0).unwrap();
    c.on_encoded(0, 0).unwrap();
    c.on_header(None, 0, 0, &[]);
    finished(&mut c, &P_AVCC);
    c.begin_frame(1).unwrap();
    c.on_read(Ok(1)).unwrap();
    let second = c.on_converted(0, 0);
    assert_eq!((second.n_pts, second.b_is_first_frame), (33_333, 0));
    assert_eq!(c.param_sets(), &[] as &[u8]);
}

#[test]
fn a_header_is_taken_within_its_bounds() {
    assert!(header_usable(0, 1, 1));
    assert!(header_usable(0, 1, SPS_PPS_CAP as u32));
    assert!(!header_usable(0, 1, SPS_PPS_CAP as u32 + 1));
    assert!(!header_usable(0, 1, 0));
    assert!(!header_usable(0, 0, 1));
    assert!(!header_usable(1, 1, 1));
    assert_eq!(header_address(5, None), 5);
    assert_eq!(header_address(5, Some(0)), 5);
    assert_eq!(header_address(5, Some(9)), 9);
}

#[test]
fn parameter_sets_come_from_a_record_or_as_they_are() {
    let record = [0x01, 0x64, 0x00, 0x33, 0xff, 0xe1, 0x00, 0x01, 0x67, 0x01, 0x00, 0x01, 0x68];
    assert_eq!(parameter_sets(&record), vec![0, 0, 0, 1, 0x67, 0, 0, 0, 1, 0x68]);
    assert_eq!(parameter_sets(&SETS), SETS.to_vec());
    assert_eq!(parameter_sets(&[1, 2]), vec![1, 2]);
}

/// A capture of a tiny panel, at the point where a picture is handed over.
fn tiny(dst: (u32, u32), fmt: VencPixelFmt) -> Capture {
    let g = FbGeometry::from_device(16, 16, 32, 64, 16, 16, 0, 0).unwrap();
    let mut c = open_scaled_ex(dst, fmt, false);
    c.on_framebuffer(g).unwrap();
    c.on_ops(1, 2, true).unwrap();
    c.on_mem_open(0).unwrap();
    c.on_encoder(true).unwrap();
    c.on_init(0).unwrap();
    c.on_buffers(0).unwrap();
    c.on_key_interval(None);
    c.on_first_input(0, 0).unwrap();
    c.begin_frame(0).unwrap();
    c.on_read(Ok(1024)).unwrap();
    c
}

#[test]
fn a_padded_picture_is_centred_and_its_bars_stay_black() {
    // 16x16 into 3:1 gives a 48x16 surface with 16 pixels either side.
    let mut c = tiny((48, 16), VencPixelFmt::Argb);
    assert_eq!((c.snapshot().pad.pad_w, c.snapshot().pad.pad_x), (48, 16));
    let fb = vec![5u8; 1024];
    let mut y = vec![9u8; 48 * 16 * 4];
    let mut uv = Vec::new();
    c.convert_into_input_buffer(&fb, &mut y, &mut uv);
    assert!(c.snapshot().bars_cleared);
    for row in 0..16 {
        for col in 0..192 {
            let expected = if (64..128).contains(&col) { 5 } else { 0 };
            assert_eq!(y[row * 192 + col], expected);
        }
    }
    let next = vec![6u8; 1024];
    c.convert_into_input_buffer(&next, &mut y, &mut uv);
    assert_eq!((y[0], y[63], y[64], y[127], y[128]), (0, 0, 6, 6, 0));
}

#[test]
fn an_unpadded_picture_is_copied_or_converted() {
    let mut c = tiny((0, 0), VencPixelFmt::Argb);
    let fb: Vec<u8> = (0..1024).map(|i| i as u8).collect();
    let mut y = vec![1u8; 1030];
    c.convert_into_input_buffer(&fb, &mut y, &mut []);
    assert_eq!(&y[..1024], &fb[..]);
    assert_eq!(&y[1024..], &[1; 6]);

    let mut c = tiny((0, 0), VencPixelFmt::Yuv420Sp);
    let white = vec![0xffu8; 1024];
    let (mut y, mut uv) = (vec![0u8; 256], vec![0u8; 128]);
    c.convert_into_input_buffer(&white, &mut y, &mut uv);
    assert!(y.iter().all(|&v| v == 235));
    assert!(uv.iter().all(|&v| v == 128));
}

#[test]
fn opening_asks_for_one_thing_after_the_other() {
    let mut c = open(0, 0, 30, 5_000);
    let mut calls = vec![c.next()];
    c.on_framebuffer(panel()).unwrap();
    calls.push(c.next());
    c.on_ops(1, 2, true).unwrap();
    calls.push(c.next());
    c.on_mem_open(0).unwrap();
    calls.push(c.next());
    c.on_encoder(true).unwrap();
    calls.push(c.next());
    c.on_bitrate(Some(0)).unwrap();
    calls.push(c.next());
    c.on_init(0).unwrap();
    calls.push(c.next());
    c.on_buffers(0).unwrap();
    calls.push(c.next());
    c.on_key_interval(None);
    calls.push(c.next());
    c.on_first_input(0, 0).unwrap();
    calls.push(c.next());
    assert_eq!(
        calls,
        vec![
            Call::OpenPanel,
            Call::LookUpOps,
            Call::OpenMemory,
            Call::CreateEncoder,
            Call::SetBitrate(5_000),
            Call::InitEncoder,
            Call::AllocBuffers,
            Call::SetKeyInterval,
            Call::GetFirstInput,
            Call::BeginFrame,
        ]
    );
}

#[test]
fn a_frame_asks_for_one_thing_after_the_other() {
    let mut c = opened(open(0, 0, 30, 0));
    c.begin_frame(0).unwrap();
    let mut calls = vec![c.next()];
    c.on_read(Ok(1)).unwrap();
    calls.push(c.next());
    c.on_converted(0, 0);
    calls.push(c.next());
    c.on_submitted(0).unwrap();
    calls.push(c.next());
    c.on_encoded(0, 0).unwrap();
    calls.push(c.next());
    c.on_header(Some(0), 1, SETS.len() as u32, &SETS);
    calls.push(c.next());
    c.on_bitstream_count(1);
    calls.push(c.next());
    c.on_bitstream(0).unwrap();
    calls.push(c.next());
    nothing(&mut c);
    calls.push(c.next());
    c.on_bitstream_count(0);
    calls.push(c.next());
    c.on_recycled(-1).unwrap_err();
    calls.push(c.next());
    assert_eq!(
        calls,
        vec![
            Call::ReadPanel,
            Call::FillInput,
            Call::SubmitInput,
            Call::EncodeFrame,
            Call::FetchHeader,
            Call::CountPieces,
            Call::GetPiece,
            Call::TakePiece,
            Call::CountPieces,
            Call::RecycleInput,
            Call::GiveUp,
        ]
    );
}

#[test]
fn a_frame_is_the_pieces_that_were_drained() {
    let mut c = opened(open(0, 0, 30, 0));
    encoded(&mut c, 0);
    c.on_header(None, 0, 0, &[]);
    c.on_bitstream_count(2);
    c.on_bitstream(0).unwrap();
    split(&mut c, &P_AVCC, &P_AVCC);
    c.on_bitstream_count(1);
    c.on_bitstream(0).unwrap();
    whole(&mut c, &[9, 9]);
    c.on_bitstream_count(0);
    assert!(!c.on_recycled(0).unwrap());
    assert_eq!(
        c.frame().data,
        &[0, 0, 0, 1, 0x41, 9, 0, 0, 0, 1, 0x41, 9, 9, 9]
    );
}

#[test]
fn sizes_that_overflow_are_told_beforehand() {
    let c = open_scaled(720, 480, 1280, 720, 30, 0);
    assert!(c.takes_geometry(&panel()));
    let c = open_scaled(720, 480, u32::MAX, 480, 30, 0);
    assert!(!c.takes_geometry(&panel()));
    // A panel that is refused anyway is taken, and refused.
    let c = open_scaled(640, 480, u32::MAX, 480, 30, 0);
    assert!(c.takes_geometry(&panel()));

    let mut c = open_scaled(720, 480, 1280, 720, 30, 0);
    c.on_framebuffer(panel()).unwrap();
    assert!(c.surface_fits());
    let mut c = open_scaled(720, 480, 1_000_000, 1, 30, 0);
    c.on_framebuffer(panel()).unwrap();
    assert!(!c.surface_fits());
}

#[test]
fn buffers_that_are_too_small_are_told_beforehand() {
    let c = tiny((0, 0), VencPixelFmt::Argb);
    let n = c.snapshot().frame_bytes;
    assert!(c.fill_fits(n, n, 0));
    assert!(!c.fill_fits(n, n - 1, 0));
    assert!(!c.fill_fits(n - 1, n, 0));
}
