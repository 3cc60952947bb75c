//! The video stream: what the encoder is asked for, when a key frame is
//! forced, and how frames are numbered and stamped.
use crate::capture;
use crate::capture::{Capture, CaptureError, CaptureSlot, Frame};
use crate::vendor_abi::VencPixelFmt;
use vstd::prelude::*;

verus! {

/// Video runs on a 90 kHz RTP clock.
pub const RTP_CLOCK_HZ: u64 = 90_000;

/// Ceiling for the encoder bitrate, whatever the client negotiates. The
/// picture is a 720x480 panel scaled up, so there is no detail to spend more
/// bits on; a higher rate only buys key frames that the handheld's wireless
/// link then drops.
pub const BITRATE_CEILING: u32 = 6_000_000;

/// The panel is fixed at this size, and it is what the capture opens with;
/// the engine scales to what the client negotiated.
pub const PANEL_WIDTH: u32 = 720;

pub const PANEL_HEIGHT: u32 = 480;

/// The least time between two key frames forced for loss recovery, in
/// nanoseconds. A key frame is one to two orders of magnitude larger than
/// another frame. Honouring every request would turn one lost packet into a
/// permanent storm of them; requests in between fall on the floor, and the
/// client asks again if it still needs one.
pub const MIN_IDR_INTERVAL: u64 = 750_000_000;

/// The RTP time of a frame, as a 32-bit number that wraps.
pub open spec fn rtp_time(frame_number: int, fps: int) -> int {
    (frame_number * RTP_CLOCK_HZ) / fps % 0x1_0000_0000
}

/// The RTP timestamp of the frame with the given number.
pub fn rtp_timestamp_for(frame_number: u64, fps: u32) -> (t: u32)
    requires
        fps > 0,
        frame_number * RTP_CLOCK_HZ <= u64::MAX,
    ensures
        t == rtp_time(frame_number as int, fps as int),
{
    let full: u64 = (frame_number * RTP_CLOCK_HZ) / (fps as u64);
    let t: u32 = #[verifier::truncate]
    (full as u32);
    assert(t == full % 0x1_0000_0000) by (bit_vector)
        requires
            t == full as u32,
    ;
    t
}

/// What the client negotiated.
#[derive(Clone, Copy, Debug, PartialEq, Eq, Structural)]
pub struct VideoConfig {
    pub width: u32,
    pub height: u32,
    pub fps: u32,
    pub bitrate: u32,
}

/// One encoded frame with what the packetizer needs to know of it. Borrowed
/// from the capture, and valid until the next frame.
pub struct EncodedFrameRef<'a> {
    pub data: &'a [u8],
    pub is_keyframe: bool,
    pub frame_number: u32,
    pub rtp_timestamp: u32,
}

/// A standing request for a key frame.
pub struct IdrRequester {
    flag: bool,
}

impl IdrRequester {
    pub closed spec fn is_set(self) -> bool {
        self.flag
    }

    /// Asks for a key frame with the next frame.
    pub fn request(&mut self)
        ensures
            final(self).is_set(),
    {
        self.flag = true;
    }

    /// Takes the request, if there is one.
    fn take(&mut self) -> (r: bool)
        ensures
            r == old(self).is_set(),
            !final(self).is_set(),
    {
        let r: bool = self.flag;
        self.flag = false;
        r
    }
}

/// A standing request to start over. A resuming client is a new session that
/// expects frame numbers to start at 1, and needs a decodable first frame.
pub struct ResetRequester {
    flag: bool,
}

impl ResetRequester {
    pub closed spec fn is_set(self) -> bool {
        self.flag
    }

    /// Asks for the frame counter to restart, with a key frame.
    pub fn request(&mut self)
        ensures
            final(self).is_set(),
    {
        self.flag = true;
    }

    /// Takes the request, if there is one.
    fn take(&mut self) -> (r: bool)
        ensures
            r == old(self).is_set(),
            !final(self).is_set(),
    {
        let r: bool = self.flag;
        self.flag = false;
        r
    }
}

/// Where a stream stands between two frames.
#[derive(Clone, Copy, Debug, PartialEq, Eq, Structural)]
pub struct Pacing {
    /// The number of the last frame.
    pub frame_number: u64,
    /// When a key frame was last forced, in nanoseconds.
    pub last_idr: Option<u64>,
}

/// The bitrate that is asked for, up to the ceiling.
pub open spec fn capped(bitrate: u32) -> u32 {
    if bitrate < BITRATE_CEILING {
        bitrate
    } else {
        BITRATE_CEILING
    }
}

/// Time since `last`; a clock that went back counts as no time at all.
pub open spec fn elapsed(last: u64, now: u64) -> int {
    if now >= last {
        now - last
    } else {
        0
    }
}

/// A key frame may be forced for loss recovery at time `now`.
pub open spec fn idr_due(p: Pacing, now: u64) -> bool {
    match p.last_idr {
        None => true,
        Some(last) => elapsed(last, now) >= MIN_IDR_INTERVAL,
    }
}

/// What the requests that stand at time `now` do: whether a key frame is
/// forced, and the pacing after. A reset always counts; it is a new session,
/// not loss recovery. Otherwise a request for a key frame counts when one is
/// due.
pub open spec fn steered(p: Pacing, reset: bool, idr: bool, now: u64) -> (Pacing, bool) {
    if reset {
        (Pacing { frame_number: 0, last_idr: Some(now) }, true)
    } else if idr && idr_due(p, now) {
        (Pacing { last_idr: Some(now), ..p }, true)
    } else {
        (p, false)
    }
}

/// The pacing after one more frame was numbered.
pub open spec fn counted(p: Pacing) -> Pacing {
    Pacing { frame_number: (p.frame_number + 1) as u64, ..p }
}

/// What happened last in a run of the stream. A failure comes with its text.
#[derive(Debug, PartialEq, Eq)]
pub enum RunEvent {
    Opened,
    OpenFailed(String),
    Captured,
    CaptureFailed(String),
    Sent,
    SendFailed(String),
}

/// What a run of the stream does next.
#[derive(Debug, PartialEq, Eq)]
pub enum RunStep {
    /// Look at the requests, capture a frame and number it.
    Capture,
    /// Send the frame.
    Send,
    /// Nothing more: the run is over, for this reason.
    End(String),
}

/// Why a run is over after an event, where it is.
pub open spec fn run_error(e: RunEvent) -> Option<Seq<char>> {
    match e {
        RunEvent::OpenFailed(why) => Some("Capture::open: "@ + why@),
        RunEvent::CaptureFailed(why) => Some(why@),
        RunEvent::SendFailed(why) => Some(why@),
        _ => None,
    }
}

/// Why a run is over after these events: for the first of them that ends it.
pub open spec fn run_result(events: Seq<RunEvent>) -> Option<Seq<char>>
    decreases events.len(),
{
    if events.len() == 0 {
        None
    } else {
        match run_result(events.drop_last()) {
            Some(why) => Some(why),
            None => run_error(events.last()),
        }
    }
}

/// A stream of one session.
pub struct VideoStream {
    cfg: VideoConfig,
    pacing: Pacing,
}

impl VideoStream {
    pub closed spec fn config(self) -> VideoConfig {
        self.cfg
    }

    pub closed spec fn pace(self) -> Pacing {
        self.pacing
    }

    /// A stream that has sent nothing.
    pub fn new(cfg: VideoConfig) -> (v: Self)
        ensures
            v.config() == cfg,
            v.pace() == (Pacing { frame_number: 0, last_idr: None }),
    {
        VideoStream { cfg, pacing: Pacing { frame_number: 0, last_idr: None } }
    }

    /// The number of the last frame, 0 where none was sent yet.
    pub fn frame_number(&self) -> (n: u64)
        ensures
            n == self.pace().frame_number,
    {
        self.pacing.frame_number
    }

    /// A way to ask for key frames. Nothing is asked for yet.
    pub fn idr_requester(&self) -> (r: IdrRequester)
        ensures
            !r.is_set(),
    {
        IdrRequester { flag: false }
    }

    /// A way to ask for a restart. Nothing is asked for yet.
    pub fn reset_requester(&self) -> (r: ResetRequester)
        ensures
            !r.is_set(),
    {
        ResetRequester { flag: false }
    }

    /// The bitrate to encode at: what the client asks for, up to the ceiling.
    pub fn encoder_bitrate(&self) -> (b: u32)
        ensures
            b == capped(self.config().bitrate),
    {
        if self.cfg.bitrate < BITRATE_CEILING {
            self.cfg.bitrate
        } else {
            BITRATE_CEILING
        }
    }

    /// The capture of this stream: the panel, encoded at the negotiated size.
    /// Refused while another capture has the slot.
    pub fn open_capture(&self, slot: &mut CaptureSlot) -> (r: Result<Capture, CaptureError>)
        ensures
            final(slot).is_open(),
            match r {
                Ok(c) => !old(slot).is_open() && c.is_fresh(
                    capture::fresh(
                        PANEL_WIDTH,
                        PANEL_HEIGHT,
                        self.config().width,
                        self.config().height,
                        self.config().fps as i32,
                        capped(self.config().bitrate) as i32,
                        VencPixelFmt::Argb,
                        false,
                    ),
                ),
                Err(e) => old(slot).is_open() && e == CaptureError::AlreadyOpen,
            },
    {
        let bitrate: u32 = self.encoder_bitrate();
        Capture::open_scaled(
            slot,
            PANEL_WIDTH,
            PANEL_HEIGHT,
            self.cfg.width,
            self.cfg.height,
            #[verifier::truncate]
            (self.cfg.fps as i32),
            bitrate as i32,
        )
    }

    /// Captures and sends in turn, until the first failure: neither is tried
    /// again. A dead capture stays dead, and a client that is gone stays gone.
    pub fn run(&self, event: RunEvent) -> (step: RunStep)
        ensures
            match run_error(event) {
                Some(why) => step matches RunStep::End(text) && text@ == why,
                None => step == if event is Captured {
                    RunStep::Send
                } else {
                    RunStep::Capture
                },
            },
    {
        match event {
            RunEvent::Opened => RunStep::Capture,
            RunEvent::OpenFailed(why) => RunStep::End(
                String::from_str("Capture::open: ").concat(why.as_str()),
            ),
            RunEvent::Captured => RunStep::Send,
            RunEvent::CaptureFailed(why) => RunStep::End(why),
            RunEvent::Sent => RunStep::Capture,
            RunEvent::SendFailed(why) => RunStep::End(why),
        }
    }

    /// Looks at the standing requests before a frame is captured at time
    /// `now`. Returns whether to force a key frame. A reset leaves a standing
    /// request for a key frame for the frame after.
    pub fn steer(&mut self, idr: &mut IdrRequester, reset: &mut ResetRequester, now: u64) -> (force:
        bool)
        ensures
            (final(self).pace(), force) == steered(
                old(self).pace(),
                old(reset).is_set(),
                old(idr).is_set(),
                now,
            ),
            final(self).config() == old(self).config(),
            !final(reset).is_set(),
            final(idr).is_set() == (old(reset).is_set() && old(idr).is_set()),
    {
        if reset.take() {
            self.pacing = Pacing { frame_number: 0, last_idr: Some(now) };
            return true;
        }
        if idr.take() {
            let due: bool = match self.pacing.last_idr {
                None => true,
                Some(last) => now >= last && now - last >= MIN_IDR_INTERVAL,
            };
            if due {
                self.pacing.last_idr = Some(now);
                return true;
            }
        }
        false
    }

    /// Numbers and stamps a captured frame. Frame numbers on the wire start at
    /// 1: clients take index 0 for "no frame yet" and would never accept the
    /// first key frame.
    pub fn next_frame<'a>(&mut self, frame: Frame<'a>) -> (f: EncodedFrameRef<'a>)
        requires
            old(self).config().fps > 0,
            (old(self).pace().frame_number + 1) * RTP_CLOCK_HZ <= u64::MAX,
        ensures
            final(self).config() == old(self).config(),
            final(self).pace() == counted(old(self).pace()),
            f.data@ == frame.data@,
            f.is_keyframe == frame.is_keyframe,
            f.frame_number == (old(self).pace().frame_number + 1) % 0x1_0000_0000,
            f.rtp_timestamp == rtp_time(
                old(self).pace().frame_number + 1,
                old(self).config().fps as int,
            ),
    {
        self.pacing.frame_number = self.pacing.frame_number + 1;
        let n: u64 = self.pacing.frame_number;
        let rtp_timestamp: u32 = rtp_timestamp_for(n, self.cfg.fps);
        let frame_number: u32 = #[verifier::truncate]
        (n as u32);
        assert(frame_number == n % 0x1_0000_0000) by (bit_vector)
            requires
                frame_number == n as u32,
        ;
        EncodedFrameRef {
            data: frame.data,
            is_keyframe: frame.is_keyframe,
            frame_number,
            rtp_timestamp,
        }
    }
}

/// A second of frames advances the RTP clock by a second, wherever in the
/// stream it starts: the clock does not drift against the frame rate.
pub proof fn law_rtp_clock_does_not_drift(frame_number: int, fps: int)
    requires
        fps > 0,
    ensures
        rtp_time(frame_number + fps, fps) == (rtp_time(frame_number, fps) + RTP_CLOCK_HZ)
            % 0x1_0000_0000,
{
    let a = frame_number * RTP_CLOCK_HZ;
    assert((frame_number + fps) * RTP_CLOCK_HZ == a + fps * RTP_CLOCK_HZ) by (nonlinear_arith)
        requires
            a == frame_number * RTP_CLOCK_HZ,
    ;
    vstd::arithmetic::div_mod::lemma_hoist_over_denominator(a, RTP_CLOCK_HZ as int, fps as nat);
    assert(fps * RTP_CLOCK_HZ == RTP_CLOCK_HZ * fps) by (nonlinear_arith);
    assert((a + fps * RTP_CLOCK_HZ) / fps == a / fps + RTP_CLOCK_HZ);
    vstd::arithmetic::div_mod::lemma_add_mod_noop(
        a / fps,
        RTP_CLOCK_HZ as int,
        0x1_0000_0000,
    );
    vstd::arithmetic::div_mod::lemma_add_mod_noop(
        (a / fps) % 0x1_0000_0000,
        RTP_CLOCK_HZ as int,
        0x1_0000_0000,
    );
}

/// After a reset the next frame is number 1 and opens with a key frame.
pub proof fn law_a_reset_starts_over(p: Pacing, idr: bool, now: u64)
    ensures
        ({
            let (q, force) = steered(p, true, idr, now);
            force && q.frame_number + 1 == 1
        }),
{
}

/// What stands when a frame is about to be captured.
pub struct Requests {
    pub reset: bool,
    pub idr: bool,
    pub now: u64,
}

/// The pacing after a run of frames, each of them steered and then numbered.
pub open spec fn paced(p: Pacing, run: Seq<Requests>) -> Pacing
    decreases run.len(),
{
    if run.len() == 0 {
        p
    } else {
        let r = run.last();
        counted(steered(paced(p, run.drop_last()), r.reset, r.idr, r.now).0)
    }
}

/// A key frame is forced at frame `k` of a run.
pub open spec fn forced_at(p: Pacing, run: Seq<Requests>, k: int) -> bool {
    steered(paced(p, run.take(k)), run[k].reset, run[k].idr, run[k].now).1
}

/// The number of frame `k` of a run.
pub open spec fn number_at(p: Pacing, run: Seq<Requests>, k: int) -> int {
    paced(p, run.take(k + 1)).frame_number as int
}

/// Numbers grow by at most one with each frame.
proof fn lemma_numbers_are_bounded(p: Pacing, run: Seq<Requests>)
    requires
        p.frame_number + run.len() <= u64::MAX,
    ensures
        paced(p, run).frame_number <= p.frame_number + run.len(),
    decreases run.len(),
{
    if run.len() > 0 {
        lemma_numbers_are_bounded(p, run.drop_last());
    }
}

/// The number of a frame follows from the pacing before it.
proof fn lemma_number_step(p: Pacing, run: Seq<Requests>, k: int)
    requires
        0 <= k < run.len(),
        p.frame_number + run.len() <= u64::MAX,
    ensures
        number_at(p, run, k) == if run[k].reset {
            1
        } else {
            paced(p, run.take(k)).frame_number + 1
        },
{
    let head = run.take(k + 1);
    assert(head.drop_last() =~= run.take(k));
    assert(head.last() == run[k]);
    lemma_numbers_are_bounded(p, run.take(k));
}

/// Frames are numbered without a gap until a reset: frame `j` of a run has a
/// number as much above that of frame `i` as it comes later, where no reset
/// falls between them. A frame after a reset has number 1, and so has the first
/// frame of a stream. The counter is taken not to reach its end.
pub proof fn law_frames_are_numbered_without_a_gap(p: Pacing, run: Seq<Requests>, i: int, j: int)
    requires
        0 <= i <= j < run.len(),
        p.frame_number + run.len() <= u64::MAX,
        forall|k: int| i < k <= j ==> !(#[trigger] run[k]).reset,
    ensures
        number_at(p, run, j) == number_at(p, run, i) + (j - i),
        run[i].reset ==> number_at(p, run, i) == 1,
        p.frame_number == 0 && i == 0 ==> number_at(p, run, i) == 1,
    decreases j - i,
{
    lemma_number_step(p, run, i);
    if i == 0 {
        assert(run.take(0) =~= Seq::<Requests>::empty());
    }
    if i < j {
        law_frames_are_numbered_without_a_gap(p, run, i, j - 1);
        lemma_number_step(p, run, j);
        assert(run.take(j) == run.take((j - 1) + 1));
    }
}

/// A run is over with the first event that ends it, for the reason of that one
/// and whatever follows, and goes on as long as there is none.
pub proof fn law_a_run_ends_with_its_first_error(events: Seq<RunEvent>, k: int)
    requires
        0 <= k <= events.len(),
        forall|j: int| 0 <= j < k ==> run_error(#[trigger] events[j]) is None,
        k < events.len() ==> run_error(events[k]) is Some,
    ensures
        run_result(events) == if k < events.len() {
            run_error(events[k])
        } else {
            None
        },
    decreases events.len(),
{
    if events.len() > 0 {
        let head = events.drop_last();
        assert forall|j: int| 0 <= j < head.len() implies head[j] == events[j] by {}
        law_a_run_ends_with_its_first_error(
            head,
            if k < events.len() {
                k
            } else {
                k - 1
            },
        );
    }
}

/// Time does not go back over a run.
pub open spec fn in_order(run: Seq<Requests>) -> bool {
    forall|i: int, j: int| 0 <= i <= j < run.len() ==> run[i].now <= run[j].now
}

/// A key frame forced at frame `i` is remembered: later in the run the time of
/// the last one is that of `i` or later.
proof fn lemma_last_idr_remembered(p: Pacing, run: Seq<Requests>, i: int, j: int)
    requires
        in_order(run),
        0 <= i < j <= run.len(),
        forced_at(p, run, i),
    ensures
        paced(p, run.take(j)).last_idr matches Some(last) && run[i].now <= last,
    decreases j,
{
    let head = run.take(j);
    assert(head.drop_last() =~= run.take(j - 1));
    assert(head.last() == run[j - 1]);
    if i < j - 1 {
        lemma_last_idr_remembered(p, run, i, j - 1);
    }
}

/// Loss recovery never floods the link: over a whole run, a key frame forced
/// for a client's request comes no sooner than the minimum interval after any
/// key frame forced before it.
pub proof fn law_forced_key_frames_are_spaced(p: Pacing, run: Seq<Requests>, i: int, j: int)
    requires
        in_order(run),
        0 <= i < j < run.len(),
        forced_at(p, run, i),
        forced_at(p, run, j),
        !run[j].reset,
    ensures
        run[j].now - run[i].now >= MIN_IDR_INTERVAL,
{
    lemma_last_idr_remembered(p, run, i, j);
}

/// The RTP clock in numbers: as long as it has not wrapped, the timestamp of a
/// frame, in ticks of which 90000 make a second, is the time at which that frame
/// stands at the frame rate, rounded down to a tick.
pub proof fn law_rtp_time_is_the_frames_time(frame_number: int, fps: int)
    requires
        0 <= frame_number,
        0 < fps,
        frame_number * 90_000 < fps * 0x1_0000_0000,
    ensures
        ({
            let t = rtp_time(frame_number, fps);
            t * fps <= frame_number * 90_000 < t * fps + fps
        }),
{
    let ticks = frame_number * 90_000;
    vstd::arithmetic::div_mod::lemma_fundamental_div_mod(ticks, fps);
    vstd::arithmetic::div_mod::lemma_mod_bound(ticks, fps);
    let q = ticks / fps;
    assert(0 <= q < 0x1_0000_0000) by (nonlinear_arith)
        requires
            fps * q <= ticks < fps * q + fps,
            0 <= ticks < fps * 0x1_0000_0000,
            0 < fps,
    ;
    assert(q * fps == fps * q) by (nonlinear_arith);
}

/// A client that has lost its picture gets it back: a request counts where no
/// key frame was forced before, and where the last one was forced 750
/// milliseconds ago or longer. It is then the last one that was forced.
pub proof fn law_a_due_request_counts(p: Pacing, now: u64)
    requires
        p.last_idr matches Some(last) ==> now - last >= 750_000_000,
    ensures
        ({
            let (q, force) = steered(p, false, true, now);
            force && q.last_idr == Some(now) && q.frame_number == p.frame_number
        }),
{
}

/// A request that comes sooner falls on the floor and leaves no trace, and so
/// does a frame without any request.
pub proof fn law_an_early_request_leaves_no_trace(p: Pacing, last: u64, idr: bool, now: u64)
    requires
        p.last_idr == Some(last),
        now - last < 750_000_000,
    ensures
        steered(p, false, idr, now) == (p, false),
        steered(p, false, false, now) == (p, false),
{
}

/// A reset counts as a forced key frame: a request within 750 milliseconds of
/// it does not count again.
pub proof fn law_a_reset_is_a_key_frame_too(p: Pacing, idr: bool, then: u64, now: u64)
    requires
        now - then < 750_000_000,
    ensures
        !steered(steered(p, true, idr, then).0, false, true, now).1,
{
}

/// The bitrate is what the client asks for, or six million where that is less:
/// never more than either, and one of the two.
pub proof fn law_the_bitrate_is_capped(asked: u32)
    ensures
        capped(asked) <= asked,
        capped(asked) <= 6_000_000,
        capped(asked) == asked || capped(asked) == 6_000_000,
{
}

/// Every failure ends a run and nothing else does, and the reason that is given
/// holds the failure's own text to its end.
pub proof fn law_every_failure_ends_a_run(e: RunEvent, why: String)
    ensures
        run_error(e) is Some <==> e is OpenFailed || e is CaptureFailed || e is SendFailed,
        run_error(RunEvent::CaptureFailed(why)) == Some(why@),
        run_error(RunEvent::SendFailed(why)) == Some(why@),
        run_error(RunEvent::OpenFailed(why)) matches Some(t) && t.len() >= why@.len() && t.skip(
            t.len() - why@.len(),
        ) == why@,
{
    let t = "Capture::open: "@ + why@;
    assert(t.skip(t.len() - why@.len()) =~= why@);
}

} // verus!
