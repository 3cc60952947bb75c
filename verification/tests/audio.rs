//! Sound capture.
use rgsp_cast::audio::{
    check_negotiated, peak, LoopbackCapture, Meter, MeterReading, NegotiationError, NoFrames,
    Period, ReadStep, BUFFER_FRAMES, CHANNELS, EPIPE, METER_INTERVAL, PERIOD_FRAMES,
    PERIOD_SAMPLES, SAMPLE_RATE,
};

#[test]
fn parameters_match_what_minarch_plays() {
    // A mismatch on format, rate or channels fails the capture side of the
    // cable with -EIO.
    assert_eq!(SAMPLE_RATE, 48_000);
    assert_eq!(CHANNELS, 2);
}

#[test]
fn sizes_follow_from_the_period() {
    assert_eq!(PERIOD_SAMPLES, PERIOD_FRAMES * CHANNELS as usize);
    assert_eq!(BUFFER_FRAMES, PERIOD_FRAMES * 16);
    assert_eq!(PERIOD_FRAMES as u32 * 1000 / SAMPLE_RATE, 5);
}

#[test]
fn what_was_granted_is_checked_in_order() {
    let s = || "S16_LE".to_string();
    assert_eq!(check_negotiated(48_000, 2, true, s()), Ok(()));
    let e = check_negotiated(44_100, 1, false, s()).unwrap_err();
    assert_eq!(e.to_string(), "rate negotiation failed: requested 48000, got 44100");
    let e = check_negotiated(48_000, 1, false, s()).unwrap_err();
    assert_eq!(e.to_string(), "channel count negotiation failed: requested 2, got 1");
    let e = check_negotiated(48_000, 2, false, "U8".to_string()).unwrap_err();
    assert_eq!(e, NegotiationError::Format { name: "U8".to_string() });
    assert_eq!(e.to_string(), "format negotiation failed: requested S16_LE, got U8");
}

#[test]
fn a_device_that_grants_everything_is_opened() {
    let c = LoopbackCapture::open(48_000, 2, true, "S16_LE".to_string()).unwrap();
    assert_eq!(c.overrun_count(), 0);
    assert_eq!(
        LoopbackCapture::open(44_100, 2, true, "S16_LE".to_string()).unwrap_err(),
        NegotiationError::Rate { got: 44_100 }
    );
}

#[test]
fn overruns_are_recovered_and_logged_sparingly() {
    let mut c = LoopbackCapture::open(48_000, 2, true, "S16_LE".to_string()).unwrap();
    for n in 1..=1001u32 {
        let log = n <= 3 || n == 500 || n == 1000;
        assert_eq!(c.read(Err(EPIPE)), ReadStep::Recover { log });
        assert_eq!(c.overrun_count(), n);
    }
    assert_eq!(c.read(Ok(240)), ReadStep::Frames(240));
    assert_eq!(c.read(Err(5)), ReadStep::Fail);
    assert_eq!(c.overrun_count(), 1001);
}

#[test]
fn a_period_is_filled_by_short_reads() {
    let mut p = Period::new();
    assert_eq!(p.offset(), 0);
    assert_eq!(p.on_frames(100), Ok(false));
    assert_eq!(p.offset(), 200);
    assert_eq!(p.on_frames(140), Ok(true));
    assert_eq!(p.offset(), PERIOD_SAMPLES);
    let e = Period::new().on_frames(0).unwrap_err();
    assert_eq!(e, NoFrames);
    assert_eq!(e.to_string(), "loopback capture returned no frames");
}

#[test]
fn the_peak_is_the_loudest_sample_of_either_sign() {
    assert_eq!(peak(&[]), 0);
    assert_eq!(peak(&[0, 5, -7, 6]), 7);
    assert_eq!(peak(&[i16::MIN, i16::MAX]), 32768);
}

#[test]
fn the_meter_reports_and_starts_over() {
    let mut m = Meter::new();
    assert_eq!(m.on_period(5, 0), None);
    assert_eq!(m.on_period(3, METER_INTERVAL - 1), None);
    assert_eq!(
        m.on_period(4, METER_INTERVAL),
        Some(MeterReading { periods: 3, loudest: 5 })
    );
    assert_eq!(
        m.on_period(1, METER_INTERVAL),
        Some(MeterReading { periods: 1, loudest: 1 })
    );
}

#[test]
fn the_meter_can_be_read_between_reports() {
    let mut m = Meter::new();
    assert_eq!(m.reading(), MeterReading { periods: 0, loudest: 0 });
    assert_eq!(m.on_period(7, 0), None);
    assert_eq!(m.on_period(3, 0), None);
    assert_eq!(m.reading(), MeterReading { periods: 2, loudest: 7 });
}
