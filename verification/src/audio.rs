//! Capturing the game's sound from the loopback cable.
//!
//! The cable fails the capture side when its two ends disagree on format, rate
//! or channels, so what was granted is checked before anything is read.
use crate::text::push_decimal;
use vstd::prelude::*;

verus! {

/// Fixed by what the emulator plays.
pub const SAMPLE_RATE: u32 = 48_000;

pub const CHANNELS: u32 = 2;

/// 5 ms at 48 kHz: small enough that audio latency stays under the video's. It
/// is also one frame of the audio encoder, which drops anything that is not
/// exactly one.
pub const PERIOD_FRAMES: usize = 240;

/// The buffer, in frames: deep enough that a scheduling hiccup on a busy
/// processor does not overrun the capture.
pub const BUFFER_FRAMES: usize = 3840;

/// Samples in one period.
pub const PERIOD_SAMPLES: usize = 480;

/// The error number of an overrun.
pub const EPIPE: i32 = 32;

/// What the device granted is not what was asked for.
#[derive(Debug, PartialEq, Eq)]
pub enum NegotiationError {
    Rate { got: u32 },
    Channels { got: u32 },
    Format { name: String },
}

/// The text of a negotiation error.
pub open spec fn negotiation_error_text(e: NegotiationError) -> Seq<char> {
    match e {
        NegotiationError::Rate { got } => "rate negotiation failed: requested 48000, got "@
            + crate::text::decimal(got as nat),
        NegotiationError::Channels { got } =>
            "channel count negotiation failed: requested 2, got "@ + crate::text::decimal(
            got as nat,
        ),
        NegotiationError::Format { name } =>
            "format negotiation failed: requested S16_LE, got "@ + name@,
    }
}

impl NegotiationError {
    pub fn to_string(&self) -> (s: String)
        ensures
            s@ == negotiation_error_text(*self),
    {
        match self {
            NegotiationError::Rate { got } => {
                let mut s: String = String::from_str(
                    "rate negotiation failed: requested 48000, got ",
                );
                push_decimal(&mut s, *got as u64);
                s
            },
            NegotiationError::Channels { got } => {
                let mut s: String = String::from_str(
                    "channel count negotiation failed: requested 2, got ",
                );
                push_decimal(&mut s, *got as u64);
                s
            },
            NegotiationError::Format { name } => String::from_str(
                "format negotiation failed: requested S16_LE, got ",
            ).concat(name.as_str()),
        }
    }
}

/// The device granted what was asked for.
pub open spec fn granted(rate: u32, channels: u32, is_s16: bool) -> bool {
    rate == SAMPLE_RATE && channels == CHANNELS && is_s16
}

/// The first of the three that was not granted.
pub open spec fn is_refusal(
    e: NegotiationError,
    rate: u32,
    channels: u32,
    is_s16: bool,
    format: String,
) -> bool {
    match e {
        NegotiationError::Rate { got } => rate != SAMPLE_RATE && got == rate,
        NegotiationError::Channels { got } => rate == SAMPLE_RATE && channels != CHANNELS && got
            == channels,
        NegotiationError::Format { name } => rate == SAMPLE_RATE && channels == CHANNELS && !is_s16
            && name == format,
    }
}

/// Checks what the device granted: the rate first, then the channels, then the
/// sample format, of which `is_s16` says whether it is the right one and
/// `format` what it is called.
pub fn check_negotiated(rate: u32, channels: u32, is_s16: bool, format: String) -> (r: Result<
    (),
    NegotiationError,
>)
    ensures
        match r {
            Ok(_) => granted(rate, channels, is_s16),
            Err(e) => is_refusal(e, rate, channels, is_s16, format),
        },
{
    if rate != SAMPLE_RATE {
        return Err(NegotiationError::Rate { got: rate });
    }
    if channels != CHANNELS {
        return Err(NegotiationError::Channels { got: channels });
    }
    if !is_s16 {
        return Err(NegotiationError::Format { name: format });
    }
    Ok(())
}

/// What to do about a read.
#[derive(Clone, Copy, Debug, PartialEq, Eq, Structural)]
pub enum ReadStep {
    /// So many frames came.
    Frames(usize),
    /// Capture fell behind: restart the stream and read again, and say so in
    /// the log where `log` is set.
    Recover { log: bool },
    /// Give up.
    Fail,
}

/// Overruns that are worth a line in the log: the first few, then every 500th.
/// A storm of them would bury everything else.
pub open spec fn is_logged(count: int) -> bool {
    count <= 3 || count % 500 == 0
}

/// The capture end of the cable.
#[derive(Debug, PartialEq, Eq)]
pub struct LoopbackCapture {
    overruns: u32,
}

impl LoopbackCapture {
    pub closed spec fn count(self) -> u32 {
        self.overruns
    }

    /// The device was opened and granted these parameters. A capture that has
    /// overrun nothing, unless they are not what was asked for.
    pub fn open(rate: u32, channels: u32, is_s16: bool, format: String) -> (r: Result<
        LoopbackCapture,
        NegotiationError,
    >)
        ensures
            match r {
                Ok(c) => c.count() == 0 && granted(rate, channels, is_s16),
                Err(e) => is_refusal(e, rate, channels, is_s16, format),
            },
    {
        match check_negotiated(rate, channels, is_s16, format) {
            Ok(_) => Ok(LoopbackCapture { overruns: 0 }),
            Err(e) => Err(e),
        }
    }

    /// A read gave so many frames, or failed with this error number. An
    /// overrun is recovered from rather than tearing down the stream.
    pub fn read(&mut self, got: Result<usize, i32>) -> (step: ReadStep)
        requires
            got == Err::<usize, i32>(EPIPE) ==> old(self).count() < u32::MAX,
        ensures
            match got {
                Ok(n) => step == ReadStep::Frames(n) && final(self).count() == old(self).count(),
                Err(errno) => if errno == EPIPE {
                    &&& final(self).count() == old(self).count() + 1
                    &&& step == (ReadStep::Recover { log: is_logged(old(self).count() + 1) })
                } else {
                    &&& final(self).count() == old(self).count()
                    &&& step == ReadStep::Fail
                },
            },
    {
        match got {
            Ok(n) => ReadStep::Frames(n),
            Err(errno) => {
                if errno == EPIPE {
                    self.overruns = self.overruns + 1;
                    ReadStep::Recover { log: self.overruns <= 3 || self.overruns % 500 == 0 }
                } else {
                    ReadStep::Fail
                }
            },
        }
    }

    /// The number of overruns so far.
    pub fn overrun_count(&self) -> (n: u32)
        ensures
            n == self.count(),
    {
        self.overruns
    }
}

/// The read gave no frames at all.
#[derive(Clone, Copy, Debug, PartialEq, Eq, Structural)]
pub struct NoFrames;

impl NoFrames {
    pub fn to_string(&self) -> (s: String)
        ensures
            s@ == "loopback capture returned no frames"@,
    {
        String::from_str("loopback capture returned no frames")
    }
}

/// One period being filled. Only whole periods are sent on: a read may come
/// back short, notably after an overrun, and the encoder silently drops a
/// chunk that is not exactly one of its frames.
pub struct Period {
    filled: usize,
}

impl Period {
    /// Frames read into the period so far.
    pub closed spec fn frames(self) -> usize {
        self.filled
    }

    pub open spec fn wf(self) -> bool {
        self.frames() <= PERIOD_FRAMES
    }

    /// An empty period.
    pub fn new() -> (p: Self)
        ensures
            p.wf(),
            p.frames() == 0,
    {
        Period { filled: 0 }
    }

    /// The sample that the next read starts at.
    pub fn offset(&self) -> (at: usize)
        requires
            self.wf(),
        ensures
            at == self.frames() * CHANNELS,
            at <= PERIOD_SAMPLES,
    {
        self.filled * CHANNELS as usize
    }

    /// A read gave `frames` frames. Returns whether the period is whole.
    pub fn on_frames(&mut self, frames: usize) -> (r: Result<bool, NoFrames>)
        requires
            old(self).wf(),
            frames <= PERIOD_FRAMES - old(self).frames(),
        ensures
            final(self).wf(),
            final(self).frames() == old(self).frames() + frames,
            match r {
                Ok(whole) => frames > 0 && whole == (final(self).frames() == PERIOD_FRAMES),
                Err(_) => frames == 0,
            },
    {
        if frames == 0 {
            return Err(NoFrames);
        }
        self.filled = self.filled + frames;
        Ok(self.filled == PERIOD_FRAMES)
    }
}

/// The loudness of one sample.
pub open spec fn loudness(s: i16) -> int {
    if s < 0 {
        -s
    } else {
        s as int
    }
}

/// The loudest sample of a buffer, 0 for an empty one.
pub fn peak(buf: &[i16]) -> (p: u16)
    ensures
        forall|i: int| 0 <= i < buf@.len() ==> loudness(#[trigger] buf@[i]) <= p,
        p == 0 || exists|i: int| 0 <= i < buf@.len() && loudness(#[trigger] buf@[i]) == p,
{
    let mut p: u16 = 0;
    let mut k: usize = 0;
    while k < buf.len()
        invariant
            k <= buf@.len(),
            forall|i: int| 0 <= i < k ==> loudness(#[trigger] buf@[i]) <= p,
            p == 0 || exists|i: int| 0 <= i < k && loudness(#[trigger] buf@[i]) == p,
        decreases buf.len() - k,
    {
        let s: i16 = buf[k];
        let a: u16 = if s < 0 {
            (-(s as i32)) as u16
        } else {
            s as u16
        };
        assert(a == loudness(buf@[k as int]));
        if a > p {
            p = a;
        }
        k = k + 1;
    }
    p
}

/// How long the meter gathers before it reports, in nanoseconds.
pub const METER_INTERVAL: u64 = 30_000_000_000;

/// What the meter gathered.
#[derive(Clone, Copy, Debug, PartialEq, Eq, Structural)]
pub struct MeterReading {
    pub periods: u32,
    pub loudest: u16,
}

/// Says from time to time whether there is any sound in what is captured:
/// silence means that the game's sound does not arrive here, anything else
/// that the trouble is further down.
pub struct Meter {
    now: MeterReading,
}

/// The reading with one more period.
pub open spec fn metered(m: MeterReading, peak: u16) -> MeterReading {
    MeterReading {
        periods: (m.periods + 1) as u32,
        loudest: if peak > m.loudest {
            peak
        } else {
            m.loudest
        },
    }
}

impl Meter {
    pub closed spec fn gathered(self) -> MeterReading {
        self.now
    }

    pub fn new() -> (m: Self)
        ensures
            m.gathered() == (MeterReading { periods: 0, loudest: 0 }),
    {
        Meter { now: MeterReading { periods: 0, loudest: 0 } }
    }

    /// What was gathered since the last report.
    pub fn reading(&self) -> (r: MeterReading)
        ensures
            r == self.gathered(),
    {
        self.now
    }

    /// Counts a period with the given peak, `elapsed` nanoseconds after the
    /// last report. Where a report is due it is returned, and gathering starts
    /// over.
    pub fn on_period(&mut self, peak: u16, elapsed: u64) -> (report: Option<MeterReading>)
        requires
            old(self).gathered().periods < u32::MAX,
        ensures
            if elapsed >= METER_INTERVAL {
                &&& report == Some(metered(old(self).gathered(), peak))
                &&& final(self).gathered() == (MeterReading { periods: 0, loudest: 0 })
            } else {
                &&& report is None
                &&& final(self).gathered() == metered(old(self).gathered(), peak)
            },
    {
        let next: MeterReading = MeterReading {
            periods: self.now.periods + 1,
            loudest: if peak > self.now.loudest {
                peak
            } else {
                self.now.loudest
            },
        };
        if elapsed >= METER_INTERVAL {
            self.now = MeterReading { periods: 0, loudest: 0 };
            Some(next)
        } else {
            self.now = next;
            None
        }
    }
}

/// Sound is taken only as 48000 frames a second of two 16-bit channels; every
/// other grant is refused, and for one reason alone.
pub proof fn law_only_one_format_is_taken(
    rate: u32,
    channels: u32,
    is_s16: bool,
    format: String,
    a: NegotiationError,
    b: NegotiationError,
)
    ensures
        granted(rate, channels, is_s16) <==> rate == 48_000 && channels == 2 && is_s16,
        is_refusal(a, rate, channels, is_s16, format) ==> !granted(rate, channels, is_s16),
        is_refusal(a, rate, channels, is_s16, format) && is_refusal(
            b,
            rate,
            channels,
            is_s16,
            format,
        ) ==> a == b,
        rate != 48_000 ==> is_refusal(
            NegotiationError::Rate { got: rate },
            rate,
            channels,
            is_s16,
            format,
        ),
{
}

/// A storm of overruns leaves few lines in the log: among any 500 that follow
/// the third, exactly one is told, and the first three all are.
pub proof fn law_a_storm_leaves_few_lines(from: int, i: int, j: int)
    requires
        from > 3,
        from <= i < from + 500,
        from <= j < from + 500,
    ensures
        is_logged(1) && is_logged(2) && is_logged(3),
        is_logged(i) && is_logged(j) ==> i == j,
        is_logged(500 * ((from + 499) / 500)),
        from <= 500 * ((from + 499) / 500) < from + 500,
{
}

/// A sample is as loud as it is far from silence, on either side.
pub proof fn law_loudness_is_the_distance_from_silence(s: i16)
    ensures
        loudness(s) >= 0,
        loudness(s) == s || loudness(s) == -s,
{
}

/// The meter keeps the loudest of what it was given, and counts every period.
pub proof fn law_the_meter_keeps_the_loudest(m: MeterReading, peak: u16)
    requires
        m.periods < u32::MAX,
    ensures
        metered(m, peak).periods == m.periods + 1,
        metered(m, peak).loudest >= peak,
        metered(m, peak).loudest >= m.loudest,
        metered(m, peak).loudest == peak || metered(m, peak).loudest == m.loudest,
{
}

/// A period is five milliseconds of sound, its samples are those of both
/// channels, and the buffer holds sixteen of them.
pub proof fn law_a_period_is_five_milliseconds()
    ensures
        1_000 * PERIOD_FRAMES == 5 * SAMPLE_RATE,
        PERIOD_SAMPLES == 2 * PERIOD_FRAMES,
        BUFFER_FRAMES == 16 * PERIOD_FRAMES,
        SAMPLE_RATE == 48_000,
{
}

/// A refusal ends with what was granted instead.
pub proof fn law_a_refusal_says_what_was_granted(got: u32, name: String)
    ensures
        crate::text::ends_with(
            negotiation_error_text(NegotiationError::Rate { got }),
            crate::text::decimal(got as nat),
        ),
        crate::text::ends_with(
            negotiation_error_text(NegotiationError::Channels { got }),
            crate::text::decimal(got as nat),
        ),
        crate::text::ends_with(
            negotiation_error_text(NegotiationError::Format { name }),
            name@,
        ),
{
    let n = crate::text::decimal(got as nat);
    crate::text::lemma_put_together("rate negotiation failed: requested 48000, got "@, n);
    crate::text::lemma_put_together("channel count negotiation failed: requested 2, got "@, n);
    crate::text::lemma_put_together("format negotiation failed: requested S16_LE, got "@, name@);
}

} // verus!
