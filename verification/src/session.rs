//! The daemon's life: what it sets up and takes down in which order, how a
//! streaming session begins and ends, and what passes between the streaming
//! layer and the hardware.
use crate::control::{ControlHandle, PendingEntry};
use crate::input::PadState;
use crate::input_decode;
use crate::input_decode::apply_packet;
use crate::text::{join_path, same_text};
use crate::video::{IdrRequester, ResetRequester, VideoConfig};
use vstd::prelude::*;

verus! {

/// The codecs that are offered: H.264 and nothing else, which is all that the
/// engine encodes.
pub const SUPPORTED_CODECS: u32 = 0x0000_0001;

/// The capture end of the loopback cable.
pub const LOOPBACK_CAPTURE_DEVICE: &'static str = "hw:Loopback,1,0";

/// The system's user data directory, on the card rather than the root file
/// system, so that what is in it survives.
pub const DEFAULT_USERDATA: &'static str = "/mnt/SDCARD/.userdata/h700";

/// Where the pid file and the control socket live. The interface and the
/// scripts around it use the same variable with the same fallback.
pub const DEFAULT_RUN_DIR: &'static str = "/tmp/rgsp";

/// How often to look whether a session has started, in nanoseconds.
pub const SESSION_POLL: u64 = 250_000_000;

/// How long the blocking tasks get to finish at the end, in nanoseconds. One
/// that is stuck in a driver must not delay restoring the speaker.
pub const RUNTIME_PATIENCE: u64 = 2_000_000_000;

/// `value`, or `fallback` where it is absent.
fn or_default(value: Option<String>, fallback: &str) -> (s: String)
    ensures
        s@ == match value {
            Some(v) => v@,
            None => fallback@,
        },
{
    match value {
        Some(v) => v,
        None => String::from_str(fallback),
    }
}

/// The directory of the pid file and the control socket, given what the
/// environment says.
pub fn run_dir(from_env: Option<String>) -> (dir: String)
    ensures
        dir@ == match from_env {
            Some(v) => v@,
            None => DEFAULT_RUN_DIR@,
        },
{
    or_default(from_env, DEFAULT_RUN_DIR)
}

/// The user data directory, given what the environment says.
pub fn userdata_dir(from_env: Option<String>) -> (dir: String)
    ensures
        dir@ == match from_env {
            Some(v) => v@,
            None => DEFAULT_USERDATA@,
        },
{
    or_default(from_env, DEFAULT_USERDATA)
}

/// The daemon's own directory in the user data directory.
pub fn config_dir(userdata: &str) -> (dir: String)
    ensures
        dir@ == crate::text::joined(userdata@, "rgsp-cast"@),
{
    join_path(userdata, "rgsp-cast")
}

/// Where pairing state has to go: the daemon's own directory, unless the
/// environment already names a place, which is then left alone.
pub fn data_home(already_set: bool, dir: &str) -> (set: Option<String>)
    ensures
        match set {
            Some(d) => !already_set && d@ == dir@,
            None => already_set,
        },
{
    if already_set {
        None
    } else {
        Some(String::from_str(dir))
    }
}

/// The configuration file, given what the environment says.
pub fn config_path(from_env: Option<String>, dir: &str) -> (path: String)
    ensures
        path@ == match from_env {
            Some(v) => v@,
            None => crate::text::joined(dir@, "config.toml"@),
        },
{
    match from_env {
        Some(v) => v,
        None => join_path(dir, "config.toml"),
    }
}

/// What a first configuration holds beyond the streaming layer's defaults.
#[derive(Debug, PartialEq, Eq)]
pub struct FirstConfig {
    pub name: String,
    pub certificate: String,
    pub private_key: String,
    /// The one entry that clients can select. Launching it does nothing: what
    /// is cast is whatever is on the screen.
    pub application: String,
}

/// The first configuration of a daemon whose directory is `dir`.
pub fn first_config(dir: &str) -> (c: FirstConfig)
    ensures
        c.name@ == "RG SP"@,
        c.certificate@ == crate::text::joined(dir@, "cert.pem"@),
        c.private_key@ == crate::text::joined(dir@, "key.pem"@),
        c.application@ == "RG SP"@,
{
    FirstConfig {
        name: String::from_str("RG SP"),
        certificate: join_path(dir, "cert.pem"),
        private_key: join_path(dir, "key.pem"),
        application: String::from_str("RG SP"),
    }
}

/// A device name as it is worth showing. Streaming clients send the same
/// placeholder on every pairing request; it is no name. Only that constant is
/// dropped.
pub open spec fn real_name(name: Option<Seq<char>>) -> Option<Seq<char>> {
    match name {
        Some(n) => if n == "roth"@ {
            None
        } else {
            Some(n)
        },
        None => None,
    }
}

/// The text of a string that may be absent.
pub open spec fn text_of(t: Option<String>) -> Option<Seq<char>> {
    match t {
        Some(s) => Some(s@),
        None => None,
    }
}

/// Drops the placeholder that clients send for a name.
pub fn normalize_devicename(name: Option<String>) -> (r: Option<String>)
    ensures
        text_of(r) == real_name(text_of(name)),
{
    match name {
        Some(n) => {
            if same_text(n.as_str(), "roth") {
                None
            } else {
                Some(n)
            }
        },
        None => None,
    }
}

/// The entry that is shown for a pending client: its placeholder name dropped,
/// the rest as it is.
pub open spec fn is_shown_as(e: PendingEntry, p: PendingEntry) -> bool {
    &&& e.id == p.id
    &&& text_of(e.name) == real_name(text_of(p.name))
    &&& e.address == p.address
}

/// The entries that are shown for the pending clients of the streaming layer,
/// in its order.
pub fn pending_entries(clients: &Vec<PendingEntry>) -> (v: Vec<PendingEntry>)
    ensures
        v@.len() == clients@.len(),
        forall|k: int|
            0 <= k < v@.len() ==> is_shown_as(#[trigger] v@[k], clients@[k]),
{
    let mut v: Vec<PendingEntry> = Vec::new();
    let mut i: usize = 0;
    while i < clients.len()
        invariant
            i <= clients@.len(),
            v@.len() == i,
            forall|k: int|
                0 <= k < v@.len() ==> is_shown_as(#[trigger] v@[k], clients@[k]),
        decreases clients.len() - i,
    {
        let c: PendingEntry = clients[i].copy();
        v.push(
            PendingEntry { id: c.id, name: normalize_devicename(c.name), address: c.address },
        );
        i = i + 1;
    }
    v
}

/// What a client asks of the encoder.
#[derive(Clone, Copy, Debug, PartialEq, Eq, Structural)]
pub enum EncoderControl {
    /// A key frame.
    Idr,
    /// These frames could not be decoded.
    Invalidate { first: u64, last: u64 },
    /// A session was resumed.
    Reset,
}

/// The standing requests for a key frame and for a restart after a client's.
pub open spec fn forwarded(control: EncoderControl, idr: bool, reset: bool) -> (bool, bool) {
    match control {
        EncoderControl::Reset => (idr, true),
        _ => (true, reset),
    }
}

/// Passes a client's request on. The engine cannot invalidate single reference
/// frames, so losing some of them asks for a whole key frame.
pub fn forward_encoder_control(
    control: EncoderControl,
    idr: &mut IdrRequester,
    reset: &mut ResetRequester,
)
    ensures
        (final(idr).is_set(), final(reset).is_set()) == forwarded(
            control,
            old(idr).is_set(),
            old(reset).is_set(),
        ),
{
    match control {
        EncoderControl::Idr => idr.request(),
        EncoderControl::Invalidate { first, last } => idr.request(),
        EncoderControl::Reset => reset.request(),
    }
}

/// How long between two reports of ignored input, in nanoseconds.
pub const INPUT_REPORT_INTERVAL: u64 = 30_000_000_000;

/// What to do with an input packet.
#[derive(Clone, Copy, Debug, PartialEq, Eq, Structural)]
pub enum InputStep {
    /// Bring the pad to this state.
    Apply(PadState),
    /// Nothing; `report` says to log the counters.
    Ignore { report: bool },
}

/// The input of one session: the running state of the pad, and how many
/// packets there were and how many did not concern it.
pub struct InputFeed {
    state: PadState,
    seen: u32,
    unhandled: u32,
}

impl InputFeed {
    pub closed spec fn pad(self) -> PadState {
        self.state
    }

    pub closed spec fn counts(self) -> (u32, u32) {
        (self.seen, self.unhandled)
    }

    pub open spec fn wf(self) -> bool {
        self.counts().1 <= self.counts().0
    }

    /// A session that has seen no input.
    pub fn new() -> (f: Self)
        ensures
            f.pad() == crate::input::pad_at_rest(),
            f.counts() == (0u32, 0u32),
            f.wf(),
    {
        InputFeed { state: PadState::default(), seen: 0, unhandled: 0 }
    }

    /// The packets seen, and those among them that did not concern the pad.
    pub fn totals(&self) -> (c: (u32, u32))
        ensures
            c == self.counts(),
    {
        (self.seen, self.unhandled)
    }

    /// A packet came, `elapsed` nanoseconds after the last report. Each packet
    /// carries everything held at that instant, so one running state is
    /// updated in place.
    pub fn on_packet(&mut self, payload: &[u8], elapsed: u64) -> (step: InputStep)
        requires
            old(self).wf(),
            old(self).counts().0 < u32::MAX,
        ensures
            final(self).wf(),
            final(self).counts().0 == old(self).counts().0 + 1,
            match input_decode::decoded(payload@, old(self).pad()) {
                Some(s) => {
                    &&& step == InputStep::Apply(s)
                    &&& final(self).pad() == s
                    &&& final(self).counts().1 == old(self).counts().1
                },
                None => {
                    &&& step == (InputStep::Ignore { report: elapsed >= INPUT_REPORT_INTERVAL })
                    &&& final(self).pad() == old(self).pad()
                    &&& final(self).counts().1 == old(self).counts().1 + 1
                },
            },
    {
        self.seen = self.seen + 1;
        if apply_packet(payload, &mut self.state) {
            InputStep::Apply(self.state)
        } else {
            self.unhandled = self.unhandled + 1;
            InputStep::Ignore { report: elapsed >= INPUT_REPORT_INTERVAL }
        }
    }
}

/// A loop that drives hardware for a session.
#[derive(Clone, Copy, Debug, PartialEq, Eq, Structural)]
pub enum HardwareLoop {
    Video,
    Audio,
}

/// The other one of the two loops.
pub open spec fn other_loop(l: HardwareLoop) -> HardwareLoop {
    match l {
        HardwareLoop::Video => HardwareLoop::Audio,
        HardwareLoop::Audio => HardwareLoop::Video,
    }
}

/// How a loop ended.
#[derive(Debug, PartialEq, Eq)]
pub enum LoopEnd {
    Stopped,
    Failed(String),
    Panicked(String),
}

/// How much a line in the log matters.
#[derive(Clone, Copy, Debug, PartialEq, Eq, Structural)]
pub enum Severity {
    Info,
    Warning,
    Error,
}

/// What a loop is called.
pub open spec fn loop_name(l: HardwareLoop) -> Seq<char> {
    match l {
        HardwareLoop::Video => "video capture"@,
        HardwareLoop::Audio => "audio capture"@,
    }
}

/// The line in the log about the end of a loop.
pub fn report(what: HardwareLoop, end: &LoopEnd) -> (line: (Severity, String))
    ensures
        match *end {
            LoopEnd::Stopped => line.0 == Severity::Info && line.1@ == loop_name(what)
                + " stopped"@,
            LoopEnd::Failed(e) => line.0 == Severity::Warning && line.1@ == loop_name(what)
                + " stopped: "@ + e@,
            LoopEnd::Panicked(e) => line.0 == Severity::Error && line.1@ == loop_name(what)
                + " panicked: "@ + e@,
        },
{
    let name: String = match what {
        HardwareLoop::Video => String::from_str("video capture"),
        HardwareLoop::Audio => String::from_str("audio capture"),
    };
    match end {
        LoopEnd::Stopped => (Severity::Info, name.concat(" stopped")),
        LoopEnd::Failed(e) => (Severity::Warning, name.concat(" stopped: ").concat(e.as_str())),
        LoopEnd::Panicked(e) => (
            Severity::Error,
            name.concat(" panicked: ").concat(e.as_str()),
        ),
    }
}

/// What a client negotiated for its session.
#[derive(Clone, Copy, Debug, PartialEq, Eq, Structural)]
pub struct SessionContext {
    pub width: u32,
    pub height: u32,
    pub fps: u32,
    pub bitrate: u64,
    pub is_h264: bool,
}

/// How a session starts.
#[derive(Clone, Copy, Debug, PartialEq, Eq, Structural)]
pub struct SessionStart {
    pub video: VideoConfig,
    /// The frame rate was not usable as negotiated.
    pub fps_clamped: bool,
    /// The client expects a codec that it will not get, and will never show a
    /// picture.
    pub wrong_codec: bool,
}

/// What a session is started with. The frame rate is divided by, so a
/// malformed request for 0 counts as 1; pacing and the RTP clock use the same
/// one value.
pub open spec fn session_start(c: SessionContext) -> SessionStart {
    SessionStart {
        video: VideoConfig {
            width: c.width,
            height: c.height,
            fps: if c.fps == 0 {
                1
            } else {
                c.fps
            },
            bitrate: (c.bitrate % 0x1_0000_0000) as u32,
        },
        fps_clamped: c.fps == 0,
        wrong_codec: !c.is_h264,
    }
}

/// What to do while no session is there.
#[derive(Clone, Copy, Debug, PartialEq, Eq, Structural)]
pub enum PollStep {
    /// The daemon is shutting down.
    Quit,
    /// Look again after `SESSION_POLL`.
    Sleep,
    /// A session is there: ask what was negotiated.
    FetchContext,
}

/// Where the session pump stands.
#[derive(Clone, Copy, Debug, PartialEq, Eq, Structural)]
pub enum PumpPhase {
    /// No session.
    Polling,
    /// A session was seen; what it negotiated is being asked for.
    Starting,
    /// Both loops run.
    Running,
    /// One loop stopped, and the session is told to stop; this one still runs.
    Stopping(HardwareLoop),
    /// The session was told to stop, which closes what this loop feeds; it is
    /// waited for.
    Joining(HardwareLoop),
    /// Both loops are over; what served them is ended.
    Ending,
    /// Over.
    Finished,
}

/// The loop runs in this phase.
pub open spec fn runs(phase: PumpPhase, l: HardwareLoop) -> bool {
    ||| phase == PumpPhase::Running
    ||| phase == PumpPhase::Stopping(l)
    ||| phase == PumpPhase::Joining(l)
}

/// A session is under way in this phase.
pub open spec fn in_session(phase: PumpPhase) -> bool {
    ||| phase == PumpPhase::Running
    ||| phase is Stopping
    ||| phase is Joining
    ||| phase == PumpPhase::Ending
}

/// What the session pump has to do.
#[derive(Clone, Copy, Debug, PartialEq, Eq, Structural)]
pub enum PumpAction {
    /// Look for a session: `poll`.
    Poll,
    /// Ask what the session negotiated: `on_context`. Where it starts, start
    /// both loops and what serves them.
    FetchContext,
    /// Wait until either loop stops: `on_stopped`.
    AwaitEither,
    /// Tell the session to stop: `on_session_stopped`.
    StopSession,
    /// Wait until this loop stops: `on_joined`.
    Await(HardwareLoop),
    /// End what passes the client's requests and input on: `on_ended`. The
    /// virtual pad goes with it, which releases every held button.
    EndTasks,
    /// Nothing more.
    Quit,
}

/// What is due in a phase.
pub open spec fn pump_action(phase: PumpPhase) -> PumpAction {
    match phase {
        PumpPhase::Polling => PumpAction::Poll,
        PumpPhase::Starting => PumpAction::FetchContext,
        PumpPhase::Running => PumpAction::AwaitEither,
        PumpPhase::Stopping(_) => PumpAction::StopSession,
        PumpPhase::Joining(other) => PumpAction::Await(other),
        PumpPhase::Ending => PumpAction::EndTasks,
        PumpPhase::Finished => PumpAction::Quit,
    }
}

/// What the session pump is told.
pub enum PumpEvent {
    Polled { shutdown: bool, session_ready: bool },
    Context { known: bool },
    Stopped(HardwareLoop),
    SessionStopped,
    Joined,
    Ended { shutdown: bool },
}

/// Where the pump stands after an event. One that is not due changes nothing.
pub open spec fn pump_next(phase: PumpPhase, e: PumpEvent) -> PumpPhase {
    match (phase, e) {
        (PumpPhase::Polling, PumpEvent::Polled { shutdown, session_ready }) => if shutdown {
            PumpPhase::Finished
        } else if session_ready {
            PumpPhase::Starting
        } else {
            PumpPhase::Polling
        },
        (PumpPhase::Starting, PumpEvent::Context { known }) => if known {
            PumpPhase::Running
        } else {
            PumpPhase::Polling
        },
        (PumpPhase::Running, PumpEvent::Stopped(which)) => PumpPhase::Stopping(other_loop(which)),
        (PumpPhase::Stopping(other), PumpEvent::SessionStopped) => PumpPhase::Joining(other),
        (PumpPhase::Joining(_), PumpEvent::Joined) => PumpPhase::Ending,
        (PumpPhase::Ending, PumpEvent::Ended { shutdown }) => if shutdown {
            PumpPhase::Finished
        } else {
            PumpPhase::Polling
        },
        _ => phase,
    }
}

/// Where the pump stands after these events, from its beginning.
pub open spec fn pumped(events: Seq<PumpEvent>) -> PumpPhase
    decreases events.len(),
{
    if events.len() == 0 {
        PumpPhase::Polling
    } else {
        pump_next(pumped(events.drop_last()), events.last())
    }
}

/// Drives the hardware while a session is active, and waits for the next one
/// after it ends.
///
/// The capture is opened for each session: there is only one per process, and
/// it holds the video engine, so both loops have to be over before the next
/// session starts.
pub struct SessionPump {
    phase: PumpPhase,
}

impl SessionPump {
    pub closed spec fn at(self) -> PumpPhase {
        self.phase
    }

    /// A pump that waits for the first session.
    pub fn new() -> (p: Self)
        ensures
            p.at() == PumpPhase::Polling,
    {
        SessionPump { phase: PumpPhase::Polling }
    }

    /// What is due.
    pub fn action(&self) -> (a: PumpAction)
        ensures
            a == pump_action(self.at()),
    {
        match self.phase {
            PumpPhase::Polling => PumpAction::Poll,
            PumpPhase::Starting => PumpAction::FetchContext,
            PumpPhase::Running => PumpAction::AwaitEither,
            PumpPhase::Stopping(_) => PumpAction::StopSession,
            PumpPhase::Joining(other) => PumpAction::Await(other),
            PumpPhase::Ending => PumpAction::EndTasks,
            PumpPhase::Finished => PumpAction::Quit,
        }
    }

    /// Looks for a session. A shutdown counts first.
    pub fn poll(&mut self, shutdown: bool, session_ready: bool) -> (step: PollStep)
        requires
            old(self).at() == PumpPhase::Polling,
        ensures
            step == if shutdown {
                PollStep::Quit
            } else if session_ready {
                PollStep::FetchContext
            } else {
                PollStep::Sleep
            },
            final(self).at() == pump_next(
                old(self).at(),
                PumpEvent::Polled { shutdown, session_ready },
            ),
    {
        if shutdown {
            self.phase = PumpPhase::Finished;
            PollStep::Quit
        } else if session_ready {
            self.phase = PumpPhase::Starting;
            PollStep::FetchContext
        } else {
            PollStep::Sleep
        }
    }

    /// What the session negotiated, or that it ended before that could be
    /// asked. A session that starts is announced to the interface.
    pub fn on_context(&mut self, context: Option<SessionContext>, h: &mut ControlHandle) -> (start:
        Option<SessionStart>)
        requires
            old(self).at() == PumpPhase::Starting,
            old(h).version() < u64::MAX - 1,
        ensures
            match context {
                Some(c) => {
                    &&& start == Some(session_start(c))
                    &&& final(h).current().casting
                    &&& final(h).current().client matches Some(n) && n@ == "Moonlight"@
                    &&& final(h).current().pending == old(h).current().pending
                    &&& final(h).version() == old(h).version() + 2
                },
                None => {
                    &&& start is None
                    &&& final(h).current() == old(h).current()
                    &&& final(h).version() == old(h).version()
                },
            },
            final(self).at() == pump_next(
                old(self).at(),
                PumpEvent::Context { known: context is Some },
            ),
            final(h).can_pair() == old(h).can_pair(),
    {
        match context {
            None => {
                self.phase = PumpPhase::Polling;
                None
            },
            Some(c) => {
                let fps: u32 = if c.fps == 0 {
                    1
                } else {
                    c.fps
                };
                h.set_client(Some(String::from_str("Moonlight")));
                h.set_casting(true);
                self.phase = PumpPhase::Running;
                let full: u64 = c.bitrate;
                let bitrate: u32 = (full % 0x1_0000_0000) as u32;
                Some(
                    SessionStart {
                        video: VideoConfig { width: c.width, height: c.height, fps, bitrate },
                        fps_clamped: fps != c.fps,
                        wrong_codec: !c.is_h264,
                    },
                )
            },
        }
    }

    /// One loop stopped, and with it the session. Returns the other loop,
    /// which is waited for once the session was told to stop.
    pub fn on_stopped(&mut self, which: HardwareLoop) -> (other: HardwareLoop)
        requires
            old(self).at() == PumpPhase::Running,
        ensures
            other == other_loop(which),
            final(self).at() == pump_next(old(self).at(), PumpEvent::Stopped(which)),
    {
        let other: HardwareLoop = match which {
            HardwareLoop::Video => HardwareLoop::Audio,
            HardwareLoop::Audio => HardwareLoop::Video,
        };
        self.phase = PumpPhase::Stopping(other);
        other
    }

    /// The session was told to stop. Returns the loop to wait for.
    pub fn on_session_stopped(&mut self) -> (other: HardwareLoop)
        requires
            old(self).at() is Stopping,
        ensures
            old(self).at() == PumpPhase::Stopping(other),
            final(self).at() == pump_next(old(self).at(), PumpEvent::SessionStopped),
    {
        match self.phase {
            PumpPhase::Stopping(other) => {
                self.phase = PumpPhase::Joining(other);
                other
            },
            _ => HardwareLoop::Video,
        }
    }

    /// The other loop stopped too.
    pub fn on_joined(&mut self)
        requires
            old(self).at() is Joining,
        ensures
            final(self).at() == pump_next(old(self).at(), PumpEvent::Joined),
    {
        self.phase = PumpPhase::Ending;
    }

    /// What served the loops is over. The interface is told that nobody
    /// streams. Returns whether to go on and wait for the next session.
    pub fn on_ended(&mut self, shutdown: bool, h: &mut ControlHandle) -> (go_on: bool)
        requires
            old(self).at() == PumpPhase::Ending,
            old(h).version() < u64::MAX - 1,
        ensures
            go_on == !shutdown,
            final(self).at() == pump_next(old(self).at(), PumpEvent::Ended { shutdown }),
            !final(h).current().casting,
            final(h).current().client is None,
            final(h).current().pending == old(h).current().pending,
            final(h).version() == old(h).version() + 2,
            final(h).can_pair() == old(h).can_pair(),
    {
        h.set_client(None);
        h.set_casting(false);
        if shutdown {
            self.phase = PumpPhase::Finished;
            false
        } else {
            self.phase = PumpPhase::Polling;
            true
        }
    }
}

/// The session was told to stop with event `k`, while that was due and the loop
/// still ran, and the loop has been waited for ever since.
pub open spec fn waited_since(events: Seq<PumpEvent>, l: HardwareLoop, k: int) -> bool {
    &&& 0 <= k < events.len()
    &&& events[k] == PumpEvent::SessionStopped
    &&& pumped(events.take(k)) == PumpPhase::Stopping(l)
    &&& forall|j: int|
        k < j <= events.len() ==> pumped(#[trigger] events.take(j)) == PumpPhase::Joining(l)
}

proof fn lemma_waited_on(events: Seq<PumpEvent>, l: HardwareLoop, k: int)
    requires
        events.len() > 0,
        waited_since(events.drop_last(), l, k),
        pumped(events) == PumpPhase::Joining(l),
    ensures
        waited_since(events, l, k),
{
    let head = events.drop_last();
    assert(events.take(k) =~= head.take(k));
    assert forall|j: int| k < j <= events.len() implies pumped(#[trigger] events.take(j))
        == PumpPhase::Joining(l) by {
        if j < events.len() {
            assert(events.take(j) =~= head.take(j));
        } else {
            assert(events.take(j) =~= events);
        }
    }
}

/// A loop is waited for only once the session was told to stop, whatever led
/// up to it. Without that, what the loop feeds would stay open and the wait
/// need not end.
pub proof fn law_the_session_stops_before_a_loop_is_awaited(
    events: Seq<PumpEvent>,
    l: HardwareLoop,
)
    requires
        pump_action(pumped(events)) == PumpAction::Await(l),
    ensures
        exists|k: int| waited_since(events, l, k),
    decreases events.len(),
{
    let head = events.drop_last();
    assert(pumped(events) == pump_next(pumped(head), events.last()));
    if pumped(head) == PumpPhase::Joining(l) {
        law_the_session_stops_before_a_loop_is_awaited(head, l);
        let k = choose|k: int| waited_since(head, l, k);
        lemma_waited_on(events, l, k);
    } else {
        let k = events.len() - 1;
        assert(events.take(k) =~= head);
        assert(events.take(k + 1) =~= events);
        assert(waited_since(events, l, k));
    }
}

/// The next session is looked for only after both loops of the last one are
/// over: from a running session, the pump is back at looking only by way of a
/// loop that stopped, the session that was told to, the other loop and the end
/// of what served them.
pub proof fn law_a_session_ends_in_order(which: HardwareLoop, shutdown: bool)
    ensures
        ({
            let stopping = pump_next(PumpPhase::Running, PumpEvent::Stopped(which));
            let joining = pump_next(stopping, PumpEvent::SessionStopped);
            let ending = pump_next(joining, PumpEvent::Joined);
            let over = pump_next(ending, PumpEvent::Ended { shutdown });
            &&& pump_action(stopping) == PumpAction::StopSession
            &&& pump_action(joining) == PumpAction::Await(other_loop(which))
            &&& pump_action(ending) == PumpAction::EndTasks
            &&& pump_action(over) == if shutdown {
                PumpAction::Quit
            } else {
                PumpAction::Poll
            }
        }),
        forall|phase: PumpPhase, e: PumpEvent|
            in_session(phase) && !in_session(#[trigger] pump_next(phase, e)) ==> phase
                == PumpPhase::Ending,
        forall|phase: PumpPhase, e: PumpEvent|
            phase != PumpPhase::Ending && #[trigger] pump_next(phase, e) == PumpPhase::Ending
                ==> phase is Joining,
        forall|phase: PumpPhase, e: PumpEvent|
            !(phase is Joining) && #[trigger] pump_next(phase, e) is Joining ==> phase is Stopping,
        forall|phase: PumpPhase, e: PumpEvent|
            !(phase is Stopping) && #[trigger] pump_next(phase, e) is Stopping ==> phase
                == PumpPhase::Running,
{
}

/// No loop of one session runs when the next one may start: outside a session
/// neither does, and after one loop has stopped only the other does.
pub proof fn law_both_loops_end_with_their_session(phase: PumpPhase, l: HardwareLoop)
    ensures
        !in_session(phase) ==> !runs(phase, l),
        !runs(PumpPhase::Ending, l),
        !runs(PumpPhase::Stopping(other_loop(l)), l),
        !runs(PumpPhase::Joining(other_loop(l)), l),
        runs(PumpPhase::Joining(other_loop(l)), other_loop(l)),
{
}

/// A session that starts has a frame rate that can be divided by.
pub proof fn law_a_started_session_has_a_frame_rate(c: SessionContext)
    ensures
        session_start(c).video.fps > 0,
        c.fps > 0 ==> session_start(c).video.fps == c.fps && !session_start(c).fps_clamped,
{
}

/// A step in the daemon's life.
#[derive(Clone, Copy, Debug, PartialEq, Eq, Structural)]
pub enum DaemonStep {
    /// Take the pid file: before anything with a side effect.
    AcquirePid,
    /// Route sound into the loopback. From here on the speaker is silent.
    EngageRouting,
    LoadConfig,
    StartRuntime,
    /// Serve the control socket: only once the pid file is held, because
    /// binding it removes whatever is at its path.
    ServeControl,
    /// Stream, until told to stop.
    Serve,
    /// Ask the control socket to wind down while there is still something to
    /// ask.
    StopControl,
    /// Give the hardware loops `RUNTIME_PATIENCE`, and no more.
    StopRuntime,
    ReleaseRouting,
    ReleasePid,
    /// Leave, with success or without.
    Exit { success: bool },
}

/// What follows a step, given whether it went well and whether all did so far.
pub open spec fn daemon_next(done: DaemonStep, ok: bool, success: bool) -> (DaemonStep, bool) {
    match done {
        DaemonStep::AcquirePid => if ok {
            (DaemonStep::EngageRouting, success)
        } else {
            (DaemonStep::Exit { success: false }, false)
        },
        DaemonStep::EngageRouting => if ok {
            (DaemonStep::LoadConfig, success)
        } else {
            (DaemonStep::ReleasePid, false)
        },
        DaemonStep::LoadConfig => if ok {
            (DaemonStep::StartRuntime, success)
        } else {
            (DaemonStep::ReleaseRouting, false)
        },
        DaemonStep::StartRuntime => if ok {
            (DaemonStep::ServeControl, success)
        } else {
            (DaemonStep::ReleaseRouting, false)
        },
        DaemonStep::ServeControl => if ok {
            (DaemonStep::Serve, success)
        } else {
            (DaemonStep::ReleaseRouting, false)
        },
        DaemonStep::Serve => (DaemonStep::StopControl, success && ok),
        DaemonStep::StopControl => (DaemonStep::StopRuntime, success),
        DaemonStep::StopRuntime => (DaemonStep::ReleaseRouting, success),
        DaemonStep::ReleaseRouting => (DaemonStep::ReleasePid, success),
        DaemonStep::ReleasePid => (DaemonStep::Exit { success }, success),
        DaemonStep::Exit { success: s } => (DaemonStep::Exit { success: s }, success),
    }
}

/// The daemon's life, step by step.
pub struct Daemon {
    step: DaemonStep,
    success: bool,
}

impl Daemon {
    /// The step to take now.
    pub closed spec fn due(self) -> DaemonStep {
        self.step
    }

    /// No step has failed so far that decides the exit.
    pub closed spec fn succeeding(self) -> bool {
        self.success
    }

    pub fn new() -> (d: Self)
        ensures
            d.due() == DaemonStep::AcquirePid,
            d.succeeding(),
    {
        Daemon { step: DaemonStep::AcquirePid, success: true }
    }

    /// The step to take now.
    pub fn current(&self) -> (s: DaemonStep)
        ensures
            s == self.due(),
    {
        self.step
    }

    /// The step at hand was taken; returns the next.
    pub fn on_done(&mut self, ok: bool) -> (next: DaemonStep)
        ensures
            (next, final(self).succeeding()) == daemon_next(
                old(self).due(),
                ok,
                old(self).succeeding(),
            ),
            final(self).due() == next,
    {
        let next: DaemonStep = match self.step {
            DaemonStep::AcquirePid => {
                if ok {
                    DaemonStep::EngageRouting
                } else {
                    self.success = false;
                    DaemonStep::Exit { success: false }
                }
            },
            DaemonStep::EngageRouting => {
                if ok {
                    DaemonStep::LoadConfig
                } else {
                    self.success = false;
                    DaemonStep::ReleasePid
                }
            },
            DaemonStep::LoadConfig => {
                if ok {
                    DaemonStep::StartRuntime
                } else {
                    self.success = false;
                    DaemonStep::ReleaseRouting
                }
            },
            DaemonStep::StartRuntime => {
                if ok {
                    DaemonStep::ServeControl
                } else {
                    self.success = false;
                    DaemonStep::ReleaseRouting
                }
            },
            DaemonStep::ServeControl => {
                if ok {
                    DaemonStep::Serve
                } else {
                    self.success = false;
                    DaemonStep::ReleaseRouting
                }
            },
            DaemonStep::Serve => {
                self.success = self.success && ok;
                DaemonStep::StopControl
            },
            DaemonStep::StopControl => DaemonStep::StopRuntime,
            DaemonStep::StopRuntime => DaemonStep::ReleaseRouting,
            DaemonStep::ReleaseRouting => DaemonStep::ReleasePid,
            DaemonStep::ReleasePid => DaemonStep::Exit { success: self.success },
            DaemonStep::Exit { success } => DaemonStep::Exit { success },
        };
        self.step = next;
        next
    }
}

/// Sound is routed into the loopback when this step is due.
pub open spec fn routing_engaged(due: DaemonStep) -> bool {
    match due {
        DaemonStep::LoadConfig | DaemonStep::StartRuntime | DaemonStep::ServeControl
        | DaemonStep::Serve | DaemonStep::StopControl | DaemonStep::StopRuntime
        | DaemonStep::ReleaseRouting => true,
        _ => false,
    }
}

/// The pid file is held when this step is due.
pub open spec fn pid_held(due: DaemonStep) -> bool {
    routing_engaged(due) || due == DaemonStep::EngageRouting || due == DaemonStep::ReleasePid
}

/// Every way out restores the speaker and then gives up the pid file: the
/// routing ends only by releasing it, the pid file only by releasing it or by
/// never having had it, and nothing is held at the exit.
pub proof fn law_every_exit_restores_the_speaker(due: DaemonStep, ok: bool, success: bool)
    ensures
        ({
            let next = daemon_next(due, ok, success).0;
            &&& routing_engaged(due) && !routing_engaged(next) ==> due
                == DaemonStep::ReleaseRouting
            &&& !routing_engaged(due) && routing_engaged(next) ==> due
                == DaemonStep::EngageRouting && ok
            &&& pid_held(due) && !pid_held(next) ==> due == DaemonStep::ReleasePid
            &&& next is Exit ==> !routing_engaged(next) && !pid_held(next)
        }),
{
}

/// The step that is due after the steps so far went as `oks` says, and whether
/// the daemon is still to succeed.
pub open spec fn life(oks: Seq<bool>) -> (DaemonStep, bool)
    decreases oks.len(),
{
    if oks.len() == 0 {
        (DaemonStep::AcquirePid, true)
    } else {
        let (due, success) = life(oks.drop_last());
        daemon_next(due, oks.last(), success)
    }
}

/// The routing was engaged with the step after `i` of a life.
pub open spec fn engages_at(oks: Seq<bool>, i: int) -> bool {
    life(oks.take(i)).0 == DaemonStep::EngageRouting && oks[i]
}

/// From engaging on, the routing stays engaged until it is released.
proof fn lemma_engaged_until_released(oks: Seq<bool>, i: int, n: int)
    requires
        0 <= i < n <= oks.len(),
        engages_at(oks, i),
    ensures
        routing_engaged(life(oks.take(n)).0) || exists|j: int|
            i < j < n && (#[trigger] life(oks.take(j))).0 == DaemonStep::ReleaseRouting,
    decreases n,
{
    let head = oks.take(n);
    assert(head.drop_last() =~= oks.take(n - 1));
    assert(head.last() == oks[n - 1]);
    if i < n - 1 {
        lemma_engaged_until_released(oks, i, n - 1);
        let before = life(oks.take(n - 1)).0;
        if routing_engaged(before) && before == DaemonStep::ReleaseRouting {
            assert(life(oks.take(n - 1)).0 == DaemonStep::ReleaseRouting);
        }
    }
}

/// However a life goes, one that silenced the speaker restores it before the
/// exit.
pub proof fn law_a_life_restores_the_speaker(oks: Seq<bool>, i: int)
    requires
        0 <= i < oks.len(),
        engages_at(oks, i),
        life(oks).0 is Exit,
    ensures
        exists|j: int|
            i < j < oks.len() && (#[trigger] life(oks.take(j))).0 == DaemonStep::ReleaseRouting,
{
    lemma_engaged_until_released(oks, i, oks.len() as int);
    assert(oks.take(oks.len() as int) =~= oks);
}

/// How many steps are left at most.
pub open spec fn steps_left(due: DaemonStep) -> int {
    match due {
        DaemonStep::AcquirePid => 10,
        DaemonStep::EngageRouting => 9,
        DaemonStep::LoadConfig => 8,
        DaemonStep::StartRuntime => 7,
        DaemonStep::ServeControl => 6,
        DaemonStep::Serve => 5,
        DaemonStep::StopControl => 4,
        DaemonStep::StopRuntime => 3,
        DaemonStep::ReleaseRouting => 2,
        DaemonStep::ReleasePid => 1,
        DaemonStep::Exit { success } => 0,
    }
}

/// Every life comes to its exit: each step leaves fewer, and no step is taken
/// twice.
pub proof fn law_every_life_ends(due: DaemonStep, ok: bool, success: bool)
    ensures
        steps_left(due) == 0 <==> due is Exit,
        !(due is Exit) ==> steps_left(daemon_next(due, ok, success).0) < steps_left(due),
{
}

/// A failed step that matters fails the exit, and nothing makes up for it.
pub proof fn law_failure_decides_the_exit(due: DaemonStep, ok: bool, success: bool)
    ensures
        !success ==> !daemon_next(due, ok, success).1,
        due == DaemonStep::Serve && !ok ==> !daemon_next(due, ok, success).1,
        due == DaemonStep::ReleasePid ==> daemon_next(due, ok, success).0 == (DaemonStep::Exit {
            success,
        }),
{
}

/// A step of serving clients.
#[derive(Clone, Copy, Debug, PartialEq, Eq, Structural)]
pub enum ServeStep {
    Certificate,
    SessionManager,
    ClientManager,
    UniqueId,
    /// From here on PINs can be paired.
    EnablePairing,
    Rtsp,
    Webserver,
    Discovery,
    /// Keep the list of pending clients current.
    WatchPending,
    /// Drive the hardware while there is a session.
    StartPump,
    AwaitShutdown,
    StopWatching,
    /// Stop the session before the streaming layer is dropped, which would
    /// otherwise block inside an asynchronous context and take the teardown
    /// with it.
    StopSession,
    AbortPump,
}

/// The place of a step in the order.
pub open spec fn serve_rank(s: ServeStep) -> int {
    match s {
        ServeStep::Certificate => 0,
        ServeStep::SessionManager => 1,
        ServeStep::ClientManager => 2,
        ServeStep::UniqueId => 3,
        ServeStep::EnablePairing => 4,
        ServeStep::Rtsp => 5,
        ServeStep::Webserver => 6,
        ServeStep::Discovery => 7,
        ServeStep::WatchPending => 8,
        ServeStep::StartPump => 9,
        ServeStep::AwaitShutdown => 10,
        ServeStep::StopWatching => 11,
        ServeStep::StopSession => 12,
        ServeStep::AbortPump => 13,
    }
}

/// What follows a step of serving.
#[derive(Debug, PartialEq, Eq)]
pub enum ServeNext {
    Do(ServeStep),
    Fail(String),
    Finished,
}

/// Why serving failed, for the steps whose failure ends it.
pub open spec fn serve_error(s: ServeStep) -> Option<Seq<char>> {
    match s {
        ServeStep::Certificate => Some("failed to load or create the TLS certificate"@),
        ServeStep::SessionManager => Some("failed to create the session manager"@),
        ServeStep::ClientManager => Some("failed to create the client manager"@),
        ServeStep::UniqueId => Some("failed to read the server's unique id"@),
        ServeStep::Webserver => Some("failed to start the webserver"@),
        _ => None,
    }
}

pub open spec fn fails_with(next: ServeNext, error: Seq<char>) -> bool {
    next matches ServeNext::Fail(e) && e@ == error
}

/// What follows a step of serving that went well or not: the next in the
/// order, the end after the last, or the failure where it matters.
pub fn serve_next(done: ServeStep, ok: bool) -> (next: ServeNext)
    ensures
        !ok && serve_error(done) is Some ==> fails_with(next, serve_error(done)->0),
        ok || serve_error(done) is None ==> match next {
            ServeNext::Do(s) => serve_rank(s) == serve_rank(done) + 1,
            ServeNext::Finished => serve_rank(done) == 13,
            ServeNext::Fail(_) => false,
        },
{
    match done {
        ServeStep::Certificate => {
            if ok {
                ServeNext::Do(ServeStep::SessionManager)
            } else {
                ServeNext::Fail(String::from_str("failed to load or create the TLS certificate"))
            }
        },
        ServeStep::SessionManager => {
            if ok {
                ServeNext::Do(ServeStep::ClientManager)
            } else {
                ServeNext::Fail(String::from_str("failed to create the session manager"))
            }
        },
        ServeStep::ClientManager => {
            if ok {
                ServeNext::Do(ServeStep::UniqueId)
            } else {
                ServeNext::Fail(String::from_str("failed to create the client manager"))
            }
        },
        ServeStep::UniqueId => {
            if ok {
                ServeNext::Do(ServeStep::EnablePairing)
            } else {
                ServeNext::Fail(String::from_str("failed to read the server's unique id"))
            }
        },
        ServeStep::EnablePairing => ServeNext::Do(ServeStep::Rtsp),
        ServeStep::Rtsp => ServeNext::Do(ServeStep::Webserver),
        ServeStep::Webserver => {
            if ok {
                ServeNext::Do(ServeStep::Discovery)
            } else {
                ServeNext::Fail(String::from_str("failed to start the webserver"))
            }
        },
        ServeStep::Discovery => ServeNext::Do(ServeStep::WatchPending),
        ServeStep::WatchPending => ServeNext::Do(ServeStep::StartPump),
        ServeStep::StartPump => ServeNext::Do(ServeStep::AwaitShutdown),
        ServeStep::AwaitShutdown => ServeNext::Do(ServeStep::StopWatching),
        ServeStep::StopWatching => ServeNext::Do(ServeStep::StopSession),
        ServeStep::StopSession => ServeNext::Do(ServeStep::AbortPump),
        ServeStep::AbortPump => ServeNext::Finished,
    }
}

/// The order of serving is one order: no two steps share a place, so what
/// follows each is fixed.
pub proof fn law_serving_has_one_order(a: ServeStep, b: ServeStep)
    ensures
        serve_rank(a) == serve_rank(b) ==> a == b,
        serve_rank(ServeStep::EnablePairing) < serve_rank(ServeStep::WatchPending),
        serve_rank(ServeStep::StopSession) < serve_rank(ServeStep::AbortPump),
{
}

/// A session is started with what was negotiated: its size, its frame rate, but
/// at least one, and its bitrate, where that fits 32 bits. A client that expects
/// another codec is noticed.
pub proof fn law_a_session_starts_as_negotiated(c: SessionContext)
    ensures
        ({
            let s = session_start(c);
            &&& s.video.width == c.width && s.video.height == c.height
            &&& c.fps >= 1 ==> s.video.fps == c.fps
            &&& s.video.fps >= 1
            &&& c.fps == 0 <==> s.fps_clamped
            &&& c.bitrate <= u32::MAX ==> s.video.bitrate == c.bitrate
            &&& s.wrong_codec <==> !c.is_h264
        }),
{
}

/// A name is kept exactly as it is, except for the one placeholder.
pub proof fn law_only_the_placeholder_is_dropped(n: Seq<char>)
    ensures
        n == seq!['r', 'o', 't', 'h'] ==> real_name(Some(n)) is None,
        n != seq!['r', 'o', 't', 'h'] ==> real_name(Some(n)) == Some(n),
        real_name(None) is None,
{
    reveal_strlit("roth");
    assert("roth"@ =~= seq!['r', 'o', 't', 'h']);
}

/// A life in which all goes well takes every step in turn and ends well: each
/// step that goes well leaves exactly one fewer.
pub proof fn law_a_smooth_life_takes_every_step(due: DaemonStep, success: bool)
    ensures
        !(due is Exit) ==> steps_left(daemon_next(due, true, success).0) == steps_left(due) - 1,
        daemon_next(due, true, success).1 == success,
{
}

/// A step that fails on the way up is told at the exit and skips to what has to
/// be undone: without the pid file nothing is undone, without the routing only
/// the pid file is given up, and otherwise the speaker comes first. Another
/// daemon's pid file is never given up.
pub proof fn law_a_failed_step_undoes_what_was_done(due: DaemonStep, success: bool)
    ensures
        ({
            let (next, still) = daemon_next(due, false, success);
            &&& steps_left(due) >= 5 ==> !still
            &&& due == DaemonStep::AcquirePid ==> next == (DaemonStep::Exit { success: false })
            &&& due == DaemonStep::EngageRouting ==> next == DaemonStep::ReleasePid
            &&& due == DaemonStep::LoadConfig || due == DaemonStep::StartRuntime || due
                == DaemonStep::ServeControl ==> next == DaemonStep::ReleaseRouting
            &&& pid_held(next) && !pid_held(due) ==> false
        }),
{
}

/// A shutdown ends the wait for a session, whatever else is there; otherwise a
/// session that is there is taken up, and one that is not is waited for.
pub proof fn law_a_shutdown_counts_first(shutdown: bool, ready: bool)
    ensures
        ({
            let next = pump_next(
                PumpPhase::Polling,
                PumpEvent::Polled { shutdown, session_ready: ready },
            );
            &&& pump_action(next) == PumpAction::Quit <==> shutdown
            &&& pump_action(next) == PumpAction::FetchContext <==> ready && !shutdown
            &&& pump_action(next) == PumpAction::Poll <==> !ready && !shutdown
        }),
{
}

/// Whatever a client asks of the encoder ends in a key frame: at the next frame
/// where it resumed, which also starts the numbers over, and otherwise as soon
/// as one is due, with the numbers going on. No request takes another back.
pub proof fn law_every_request_ends_in_a_key_frame(
    control: EncoderControl,
    idr: bool,
    reset: bool,
    p: crate::video::Pacing,
    now: u64,
)
    requires
        p.last_idr matches Some(last) ==> now - last >= 750_000_000,
    ensures
        ({
            let (i, r) = forwarded(control, idr, reset);
            let (q, force) = crate::video::steered(p, r, i, now);
            &&& force
            &&& control is Reset ==> q.frame_number == 0
            &&& !(control is Reset) && !reset ==> q.frame_number == p.frame_number
            &&& idr ==> i
            &&& reset ==> r
            &&& r ==> reset || control is Reset
        }),
{
}

/// A session runs once what it negotiated is known, and one that is gone before
/// that is passed over.
pub proof fn law_only_a_known_session_runs(known: bool)
    ensures
        ({
            let next = pump_next(PumpPhase::Starting, PumpEvent::Context { known });
            &&& pump_action(next) == PumpAction::AwaitEither <==> known
            &&& pump_action(next) == PumpAction::Poll <==> !known
        }),
{
}

/// The order of serving: what clients are paired with is there before a client
/// can come, the device is announced once it can be connected to, the hardware
/// is driven once sessions can start, and at the end the session is stopped
/// before what drives it is given up.
pub proof fn law_serving_is_ready_before_it_is_announced()
    ensures
        serve_rank(ServeStep::Certificate) == 0,
        serve_rank(ServeStep::Certificate) < serve_rank(ServeStep::ClientManager),
        serve_rank(ServeStep::SessionManager) < serve_rank(ServeStep::ClientManager),
        serve_rank(ServeStep::ClientManager) < serve_rank(ServeStep::UniqueId),
        serve_rank(ServeStep::UniqueId) < serve_rank(ServeStep::EnablePairing),
        serve_rank(ServeStep::EnablePairing) < serve_rank(ServeStep::Rtsp),
        serve_rank(ServeStep::Rtsp) < serve_rank(ServeStep::Webserver),
        serve_rank(ServeStep::Webserver) < serve_rank(ServeStep::Discovery),
        serve_rank(ServeStep::Discovery) < serve_rank(ServeStep::WatchPending),
        serve_rank(ServeStep::WatchPending) < serve_rank(ServeStep::StartPump),
        serve_rank(ServeStep::StartPump) < serve_rank(ServeStep::AwaitShutdown),
        serve_rank(ServeStep::AwaitShutdown) < serve_rank(ServeStep::StopWatching),
        serve_rank(ServeStep::StopWatching) < serve_rank(ServeStep::StopSession),
        serve_rank(ServeStep::StopSession) < serve_rank(ServeStep::AbortPump),
        serve_rank(ServeStep::AbortPump) == 13,
{
}

/// Only what serving cannot do without ends it when it fails: the certificate,
/// the two managers, the device's id and the webserver, each with words of its
/// own.
pub proof fn law_only_the_necessary_ends_serving(a: ServeStep, b: ServeStep)
    ensures
        serve_error(a) is Some <==> a == ServeStep::Certificate || a == ServeStep::SessionManager
            || a == ServeStep::ClientManager || a == ServeStep::UniqueId || a
            == ServeStep::Webserver,
        serve_error(a) is Some && serve_error(a) == serve_error(b) ==> a == b,
{
    reveal_strlit("failed to load or create the TLS certificate");
    reveal_strlit("failed to create the session manager");
    reveal_strlit("failed to create the client manager");
    reveal_strlit("failed to read the server's unique id");
    reveal_strlit("failed to start the webserver");
    let (c, s, m, u, w) = (
        "failed to load or create the TLS certificate"@,
        "failed to create the session manager"@,
        "failed to create the client manager"@,
        "failed to read the server's unique id"@,
        "failed to start the webserver"@,
    );
    assert(c.len() == 44 && s.len() == 36 && m.len() == 35 && u.len() == 37 && w.len() == 29);
}

} // verus!
