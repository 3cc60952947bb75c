//! What the daemon tells the on-device interface, and how it answers a PIN.
//!
//! The interface learns it over a socket rather than from a state file: a file
//! outlives the process that wrote it, so a killed daemon would leave a stale
//! "casting" behind. A failed connect is the liveness answer.
use vstd::prelude::*;

verus! {

/// A client that waits to be paired.
#[derive(Clone, Debug, PartialEq, Eq)]
pub struct PendingEntry {
    pub id: String,
    pub name: Option<String>,
    pub address: Option<String>,
}

/// Everything the interface shows. Always sent whole, never as a change.
#[derive(Clone, Debug, PartialEq, Eq)]
pub struct CastState {
    /// A client is streaming right now. This is not "the daemon is running":
    /// it is false for a healthy idle daemon.
    pub casting: bool,
    pub client: Option<String>,
    pub pending: Vec<PendingEntry>,
}

/// The outcome of a pairing: not that a PIN was taken, but that the handshake
/// finished.
#[derive(Clone, Copy, Debug, PartialEq, Eq, Structural)]
pub struct PinResult {
    pub paired: bool,
}

/// How long a PIN may take to pair before it counts as wrong, in nanoseconds.
/// The exchange takes two round trips on the local network; what is later than
/// this is a client that gave up. It stays under the interface's own patience,
/// so that a wrong PIN is told from a lost connection.
pub const PAIRING_TIMEOUT: u64 = 3_000_000_000;

/// The answer where pairing is not set up yet.
pub const NOT_READY_CODE: i32 = -32000;

/// The answer where the pairing did not complete.
pub const REJECTED_CODE: i32 = -32001;

/// A copy of a text that may be absent.
pub fn copy_text(t: &Option<String>) -> (r: Option<String>)
    ensures
        r == *t,
{
    match t {
        Some(s) => Some(s.clone()),
        None => None,
    }
}

impl PendingEntry {
    /// A copy of the entry.
    pub fn copy(&self) -> (e: PendingEntry)
        ensures
            e == *self,
    {
        PendingEntry {
            id: self.id.clone(),
            name: copy_text(&self.name),
            address: copy_text(&self.address),
        }
    }
}

/// A copy of a list of entries.
pub fn copy_entries(entries: &Vec<PendingEntry>) -> (r: Vec<PendingEntry>)
    ensures
        r@ == entries@,
{
    let mut r: Vec<PendingEntry> = Vec::new();
    let mut i: usize = 0;
    while i < entries.len()
        invariant
            i <= entries@.len(),
            r@ == entries@.take(i as int),
        decreases entries.len() - i,
    {
        r.push(entries[i].copy());
        assert(entries@.take(i + 1) =~= entries@.take(i as int).push(entries@[i as int]));
        i = i + 1;
    }
    assert(entries@.take(i as int) =~= entries@);
    r
}

/// What a state shows.
pub struct Shown {
    pub casting: bool,
    pub client: Option<String>,
    pub pending: Seq<PendingEntry>,
}

/// What the state shows.
pub open spec fn shown_by(s: CastState) -> Shown {
    Shown { casting: s.casting, client: s.client, pending: s.pending@ }
}

/// The two states show the same.
pub open spec fn same_state(a: CastState, b: CastState) -> bool {
    shown_by(a) == shown_by(b)
}

impl CastState {
    /// What is shown where nothing is known: not casting, nobody waiting.
    pub fn idle() -> (s: CastState)
        ensures
            !s.casting,
            s.client is None,
            s.pending@ == Seq::<PendingEntry>::empty(),
    {
        CastState { casting: false, client: None, pending: Vec::new() }
    }

    /// A copy of the state.
    pub fn copy(&self) -> (s: CastState)
        ensures
            same_state(s, *self),
    {
        CastState {
            casting: self.casting,
            client: copy_text(&self.client),
            pending: copy_entries(&self.pending),
        }
    }
}

/// The state that the interface observes. Each change counts, so that a
/// subscriber can tell whether it has seen the latest.
pub struct ControlHandle {
    state: CastState,
    changes: u64,
    pairing_available: bool,
}

impl ControlHandle {
    pub closed spec fn current(self) -> CastState {
        self.state
    }

    /// How many changes there were.
    pub closed spec fn version(self) -> u64 {
        self.changes
    }

    pub closed spec fn can_pair(self) -> bool {
        self.pairing_available
    }

    /// Idle, and not ready to pair.
    pub fn new() -> (h: Self)
        ensures
            !h.current().casting,
            h.current().client is None,
            h.current().pending@ == Seq::<PendingEntry>::empty(),
            h.version() == 0,
            !h.can_pair(),
    {
        ControlHandle { state: CastState::idle(), changes: 0, pairing_available: false }
    }

    /// Pairing is set up. PINs sent before this are answered with "not ready".
    pub fn set_client_manager(&mut self)
        ensures
            final(self).can_pair(),
            final(self).current() == old(self).current(),
            final(self).version() == old(self).version(),
    {
        self.pairing_available = true;
    }

    /// Whether pairing is set up.
    pub fn pairing_available(&self) -> (r: bool)
        ensures
            r == self.can_pair(),
    {
        self.pairing_available
    }

    /// How many changes there were.
    pub fn change_count(&self) -> (n: u64)
        ensures
            n == self.version(),
    {
        self.changes
    }

    /// The state as it is now.
    pub fn snapshot(&self) -> (s: CastState)
        ensures
            same_state(s, self.current()),
    {
        self.state.copy()
    }

    /// A client started or stopped streaming.
    pub fn set_casting(&mut self, casting: bool)
        requires
            old(self).version() < u64::MAX,
        ensures
            final(self).current() == (CastState { casting, ..old(self).current() }),
            final(self).version() == old(self).version() + 1,
            final(self).can_pair() == old(self).can_pair(),
            forall|s: Subscriber, shown: Option<Shown>| #[trigger]
                feed_of(*final(self), s, shown) == fed(
                    feed_of(*old(self), s, shown),
                    FeedEvent::Change(shown_by(final(self).current())),
                ),
    {
        self.state.casting = casting;
        self.changes = self.changes + 1;
    }

    /// Which client is streaming, if any.
    pub fn set_client(&mut self, client: Option<String>)
        requires
            old(self).version() < u64::MAX,
        ensures
            final(self).current() == (CastState { client, ..old(self).current() }),
            final(self).version() == old(self).version() + 1,
            final(self).can_pair() == old(self).can_pair(),
            forall|s: Subscriber, shown: Option<Shown>| #[trigger]
                feed_of(*final(self), s, shown) == fed(
                    feed_of(*old(self), s, shown),
                    FeedEvent::Change(shown_by(final(self).current())),
                ),
    {
        self.state.client = client;
        self.changes = self.changes + 1;
    }

    /// Which clients wait to be paired: a full replacement.
    pub fn set_pending(&mut self, pending: Vec<PendingEntry>)
        requires
            old(self).version() < u64::MAX,
        ensures
            final(self).current() == (CastState { pending, ..old(self).current() }),
            final(self).version() == old(self).version() + 1,
            final(self).can_pair() == old(self).can_pair(),
            forall|s: Subscriber, shown: Option<Shown>| #[trigger]
                feed_of(*final(self), s, shown) == fed(
                    feed_of(*old(self), s, shown),
                    FeedEvent::Change(shown_by(final(self).current())),
                ),
    {
        self.state.pending = pending;
        self.changes = self.changes + 1;
    }
}

/// One connection that the state is pushed over. It remembers which change it
/// sent last.
pub struct Subscriber {
    sent: Option<u64>,
}

impl Subscriber {
    /// The version sent last, if any was.
    pub closed spec fn seen(self) -> Option<u64> {
        self.sent
    }

    /// A subscriber that has been sent nothing.
    pub fn new() -> (s: Self)
        ensures
            s.seen() is None,
    {
        Subscriber { sent: None }
    }

    /// What to send now, if anything: the state at once for a new subscriber,
    /// which must not wait for the next change, and afterwards the state
    /// whenever it changed since the last send. Changes in between are covered
    /// by the one state that is sent, so none is ever lost.
    pub fn next(&mut self, h: &ControlHandle) -> (m: Option<CastState>)
        ensures
            match m {
                Some(s) => old(self).seen() != Some(h.version()) && same_state(s, h.current()),
                None => old(self).seen() == Some(h.version()),
            },
            final(self).seen() == Some(h.version()),
            forall|shown: Option<Shown>| #[trigger]
                fed(feed_of(*h, *old(self), shown), FeedEvent::Look) == feed_of(
                    *h,
                    *final(self),
                    match m {
                        Some(s) => Some(shown_by(s)),
                        None => shown,
                    },
                ),
    {
        let stale: bool = match self.sent {
            Some(v) => v != h.changes,
            None => true,
        };
        self.sent = Some(h.changes);
        if stale {
            Some(h.snapshot())
        } else {
            None
        }
    }
}

/// Something that happens to the state and a subscriber to it.
pub enum FeedEvent {
    /// The state became one that shows this.
    Change(Shown),
    /// The subscriber looked, and was sent the state where it had to be.
    Look,
}

/// The state and what a subscriber was last sent.
pub struct Feed {
    pub version: int,
    pub state: Shown,
    pub seen: Option<int>,
    pub shown: Option<Shown>,
}

/// The state of a handle and a subscriber to it, which was last sent `shown`.
pub open spec fn feed_of(h: ControlHandle, s: Subscriber, shown: Option<Shown>) -> Feed {
    Feed {
        version: h.version() as int,
        state: shown_by(h.current()),
        seen: match s.seen() {
            Some(v) => Some(v as int),
            None => None,
        },
        shown,
    }
}

/// What an event does: a change counts, and a look sends the state unless the
/// subscriber has already seen this version.
pub open spec fn fed(f: Feed, e: FeedEvent) -> Feed {
    match e {
        FeedEvent::Change(s) => Feed { version: f.version + 1, state: s, ..f },
        FeedEvent::Look => if f.seen != Some(f.version) {
            Feed { seen: Some(f.version), shown: Some(f.state), ..f }
        } else {
            f
        },
    }
}

/// What a run of events does.
pub open spec fn fed_all(f: Feed, events: Seq<FeedEvent>) -> Feed
    decreases events.len(),
{
    if events.len() == 0 {
        f
    } else {
        fed(fed_all(f, events.drop_last()), events.last())
    }
}

/// What was shown is the state, where the subscriber has seen its version, and
/// no version was seen that is still to come.
pub open spec fn feed_inv(f: Feed) -> bool {
    match f.seen {
        Some(v) => v <= f.version && f.shown is Some && (v == f.version ==> f.shown == Some(
            f.state,
        )),
        None => true,
    }
}

proof fn lemma_feed_inv(f: Feed, events: Seq<FeedEvent>)
    requires
        feed_inv(f),
    ensures
        feed_inv(fed_all(f, events)),
    decreases events.len(),
{
    if events.len() > 0 {
        lemma_feed_inv(f, events.drop_last());
    }
}

/// No change is ever lost on a subscriber: however the changes that a handle's
/// setters make and the looks of `Subscriber::next` fall between each other,
/// after a look it has been shown the state as it is.
pub proof fn law_a_look_shows_the_latest(f: Feed, events: Seq<FeedEvent>)
    requires
        f.seen is None,
        events.len() > 0,
        events.last() is Look,
    ensures
        fed_all(f, events).shown == Some(fed_all(f, events).state),
{
    lemma_feed_inv(f, events.drop_last());
}

/// Whether a wait for a pairing is over: `Some(true)` when the client is no
/// longer pending, `Some(false)` when it still is and time is up, `None` when
/// there is reason to go on. A change that leaves the client pending is no
/// answer.
pub open spec fn wait_verdict(still_pending: bool, time_up: bool) -> Option<bool> {
    if !still_pending {
        Some(true)
    } else if time_up {
        Some(false)
    } else {
        None
    }
}

/// Judges one look at the pending clients. The last look is taken after time
/// is up: the state can have changed in the instant before.
pub fn wait_until_resolved(still_pending: bool, time_up: bool) -> (r: Option<bool>)
    ensures
        r == wait_verdict(still_pending, time_up),
{
    if !still_pending {
        Some(true)
    } else if time_up {
        Some(false)
    } else {
        None
    }
}

/// One look at the pending clients during a wait.
pub struct Look {
    pub still_pending: bool,
    pub time_up: bool,
}

/// The verdict of a wait: that of the first look that has one.
pub open spec fn wait_result(looks: Seq<Look>) -> Option<bool>
    decreases looks.len(),
{
    if looks.len() == 0 {
        None
    } else {
        match wait_result(looks.drop_last()) {
            Some(r) => Some(r),
            None => wait_verdict(looks.last().still_pending, looks.last().time_up),
        }
    }
}

/// A wait that ends with success saw the client gone. A wait that ends without
/// saw it pending every time, and pending still when time was up.
pub proof fn law_a_wait_ends_with_what_was_seen(looks: Seq<Look>)
    ensures
        wait_result(looks) == Some(true) ==> exists|k: int|
            0 <= k < looks.len() && !(#[trigger] looks[k]).still_pending,
        wait_result(looks) == Some(false) ==> exists|k: int|
            0 <= k < looks.len() && (#[trigger] looks[k]).still_pending && looks[k].time_up
                && forall|j: int| 0 <= j <= k ==> (#[trigger] looks[j]).still_pending,
        wait_result(looks) is None ==> forall|k: int|
            0 <= k < looks.len() ==> (#[trigger] looks[k]).still_pending && !looks[k].time_up,
    decreases looks.len(),
{
    if looks.len() > 0 {
        let head = looks.drop_last();
        law_a_wait_ends_with_what_was_seen(head);
        let last = looks.len() - 1;
        assert forall|k: int| 0 <= k < head.len() implies head[k] == looks[k] by {}
        match wait_result(head) {
            Some(true) => {
                let k = choose|k: int| 0 <= k < head.len() && !(#[trigger] head[k]).still_pending;
                assert(!looks[k].still_pending);
            },
            Some(false) => {
                let k = choose|k: int|
                    0 <= k < head.len() && (#[trigger] head[k]).still_pending && head[k].time_up
                        && forall|j: int| 0 <= j <= k ==> (#[trigger] head[j]).still_pending;
                assert(looks[k].still_pending && looks[k].time_up);
                assert forall|j: int| 0 <= j <= k implies (#[trigger] looks[j]).still_pending by {
                    assert(head[j].still_pending);
                }
            },
            None => {
                assert forall|j: int| 0 <= j < last implies (#[trigger] looks[j]).still_pending
                    && !looks[j].time_up by {
                    assert(head[j].still_pending);
                }
                assert(looks[last] == looks.last());
            },
        }
    }
}

/// A client with this id is in the list.
pub open spec fn lists(entries: Seq<PendingEntry>, id: Seq<char>) -> bool {
    exists|k: int| 0 <= k < entries.len() && (#[trigger] entries[k]).id@ == id
}

/// Whether a client with this id is in the list.
pub fn is_pending(entries: &Vec<PendingEntry>, id: &str) -> (r: bool)
    ensures
        r == lists(entries@, id@),
{
    let mut i: usize = 0;
    while i < entries.len()
        invariant
            i <= entries@.len(),
            forall|k: int| 0 <= k < i ==> (#[trigger] entries@[k]).id@ != id@,
        decreases entries.len() - i,
    {
        if crate::text::same_text(entries[i].id.as_str(), id) {
            return true;
        }
        i = i + 1;
    }
    false
}

/// An error as it goes over the socket.
#[derive(Debug, PartialEq, Eq)]
pub struct RpcError {
    pub code: i32,
    pub message: String,
}

/// What to do next for a submitted PIN.
#[derive(Debug, PartialEq, Eq)]
pub enum PinStep {
    /// Hand the PIN to the pairing layer.
    Register,
    /// Watch the pending clients until this one is gone, or for as long as
    /// `PAIRING_TIMEOUT`.
    Wait,
    /// Answer.
    Answer(PinResult),
    /// Refuse.
    Refuse(RpcError),
}

/// Where a submitted PIN stands.
#[derive(Clone, Copy, Debug, PartialEq, Eq, Structural)]
pub enum PinStage {
    /// Is pairing set up?
    Lookup,
    /// Did the pairing layer know the client?
    Registered,
    /// Did the handshake finish?
    Resolved,
}

/// The step refuses with this code and text.
pub open spec fn refuses(step: PinStep, code: i32, message: Seq<char>) -> bool {
    step matches PinStep::Refuse(e) && e.code == code && e.message@ == message
}

/// The step that follows a stage that went well or not.
pub open spec fn is_pin_step(stage: PinStage, ok: bool, step: PinStep) -> bool {
    match (stage, ok) {
        (PinStage::Lookup, true) => step == PinStep::Register,
        (PinStage::Lookup, false) => refuses(step, NOT_READY_CODE, "pairing not available"@),
        (PinStage::Registered, true) => step == PinStep::Wait,
        (PinStage::Registered, false) => refuses(step, REJECTED_CODE, "unknown client"@),
        (PinStage::Resolved, true) => step == PinStep::Answer(PinResult { paired: true }),
        (PinStage::Resolved, false) => refuses(
            step,
            REJECTED_CODE,
            "pairing did not complete; check the PIN"@,
        ),
    }
}

/// Takes a submitted PIN one stage further, given whether the stage went well.
///
/// Handing over a PIN checks nothing about it; a wrong one is taken as happily
/// as a right one. Only the client leaving the pending list means that pairing
/// completed, so that is what the answer waits for.
pub fn submit_pin(stage: PinStage, ok: bool) -> (step: PinStep)
    ensures
        is_pin_step(stage, ok, step),
{
    match stage {
        PinStage::Lookup => {
            if ok {
                PinStep::Register
            } else {
                PinStep::Refuse(
                    RpcError {
                        code: NOT_READY_CODE,
                        message: String::from_str("pairing not available"),
                    },
                )
            }
        },
        PinStage::Registered => {
            if ok {
                PinStep::Wait
            } else {
                PinStep::Refuse(
                    RpcError { code: REJECTED_CODE, message: String::from_str("unknown client") },
                )
            }
        },
        PinStage::Resolved => {
            if ok {
                PinStep::Answer(PinResult { paired: true })
            } else {
                PinStep::Refuse(
                    RpcError {
                        code: REJECTED_CODE,
                        message: String::from_str("pairing did not complete; check the PIN"),
                    },
                )
            }
        },
    }
}

/// A subscriber that looks again without a change in between is sent nothing,
/// and a change in between is sent with the next look.
pub proof fn law_a_second_look_sends_nothing(f: Feed, s: Shown, shown: Option<Shown>)
    ensures
        fed(fed(f, FeedEvent::Look), FeedEvent::Look) == fed(f, FeedEvent::Look),
        fed(fed(fed(f, FeedEvent::Look), FeedEvent::Change(s)), FeedEvent::Look).shown == Some(s),
        fed(Feed { shown, seen: Some(f.version), ..f }, FeedEvent::Look).shown == shown,
{
}

/// A client that is no longer pending ends the wait with success even when time
/// is up; time that is up ends it without; and nothing else ends it.
pub proof fn law_success_counts_even_late(time_up: bool)
    ensures
        wait_verdict(false, time_up) == Some(true),
        wait_verdict(true, true) == Some(false),
        wait_verdict(true, false) is None,
{
}

} // verus!
