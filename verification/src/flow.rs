//! The interface from frame to frame: which screen follows which, what is
//! asked of the daemon, and when a lost connection is tried again.
use crate::control::{copy_text, CastState, PendingEntry};
use crate::rpc::PinOutcome;
use crate::screens;
use crate::screens::client_label;
use crate::screens::confirm;
use crate::screens::confirm::{Confirm, ConfirmAction};
use crate::screens::home;
use crate::screens::home::{Home, HomeAction};
use crate::screens::message::Message;
use crate::screens::pairing;
use crate::screens::pairing::PairingAction;
use crate::screens::pin;
use crate::screens::pin::{Pin, PinAction};
use crate::screens::unpairing;
use crate::screens::unpairing::UnpairingAction;
use crate::text::same_text;
use crate::ui;
use crate::ui::{Buttons, Draw, Hint};
use vstd::prelude::*;

verus! {

/// The least time between two attempts to connect while the daemon is down, in
/// nanoseconds. An attempt is too costly for every frame on a battery-powered
/// device, and this is far below what a person notices.
pub const RECONNECT_INTERVAL: u64 = 500_000_000;

/// Where the package is installed by default.
pub const DEFAULT_PAK_DIR: &'static str = "/mnt/SDCARD/Tools/h700/Cast.pak";

/// Enough time has passed since the last attempt, or there was none.
pub open spec fn reconnect_due(last_attempt: Option<u64>, now: u64) -> bool {
    match last_attempt {
        None => true,
        Some(t) => now - t >= RECONNECT_INTERVAL,
    }
}

/// Whether to try to connect again at time `now`.
pub fn should_reconnect(last_attempt: Option<u64>, now: u64) -> (r: bool)
    ensures
        r == reconnect_due(last_attempt, now),
{
    match last_attempt {
        None => true,
        Some(t) => now >= t && now - t >= RECONNECT_INTERVAL,
    }
}

/// The package's directory, given what the environment says.
pub fn pak_dir(from_env: Option<String>) -> (dir: String)
    ensures
        dir@ == match from_env {
            Some(v) => v@,
            None => DEFAULT_PAK_DIR@,
        },
{
    match from_env {
        Some(v) => v,
        None => String::from_str(DEFAULT_PAK_DIR),
    }
}

/// When the connection was last tried.
pub struct Reconnect {
    last_attempt: Option<u64>,
}

impl Reconnect {
    pub closed spec fn last(self) -> Option<u64> {
        self.last_attempt
    }

    /// The first attempt was made at time `now`.
    pub fn new(now: u64) -> (r: Self)
        ensures
            r.last() == Some(now),
    {
        Reconnect { last_attempt: Some(now) }
    }

    /// Whether to try to connect in this frame. An attempt is noted.
    pub fn due(&mut self, connected: bool, now: u64) -> (r: bool)
        ensures
            r == (!connected && reconnect_due(old(self).last(), now)),
            final(self).last() == if r {
                Some(now)
            } else {
                old(self).last()
            },
    {
        if !connected && should_reconnect(self.last_attempt, now) {
            self.last_attempt = Some(now);
            true
        } else {
            false
        }
    }

    /// Try again with the next frame: the service was just started or stopped,
    /// and what is shown must not lag behind.
    pub fn retry_at_once(&mut self)
        ensures
            final(self).last() is None,
    {
        self.last_attempt = None;
    }
}

/// Attempts are never closer than the interval, unless one was asked for.
pub proof fn law_attempts_are_spaced(last: u64, now: u64)
    requires
        reconnect_due(Some(last), now),
    ensures
        now - last >= RECONNECT_INTERVAL,
{
}

/// What is shown after an attempt to connect, which left the interface
/// `connected` or not. After one that failed, nothing is known: the service
/// reads as stopped, and clients that waited are not shown on.
pub fn state_after_attempt(connected: bool, state: CastState) -> (s: CastState)
    ensures
        connected ==> s == state,
        !connected ==> !s.casting && s.client is None && s.pending@ == Seq::<PendingEntry>::empty(),
{
    if connected {
        state
    } else {
        CastState::idle()
    }
}

/// The screen that has the buttons and is drawn.
pub enum Screen {
    Home(Home),
    Pin(Pin),
    /// A PIN was submitted. The entry is kept, so that an answer of "not
    /// ready" can return to it with the digits in place.
    Pairing(Pin),
    /// Something ended and there is nothing to do but say so.
    Message(Message),
    Confirm(Confirm),
    /// An unpairing was asked for. The label names the client in the outcome.
    Unpairing { fingerprint: String, label: String },
}

/// What to do for a frame, besides drawing.
#[derive(Debug, PartialEq, Eq)]
pub enum FlowAction {
    Nothing,
    /// Start the service, or stop it. Either blocks, so `busy_frame` is drawn
    /// before, on both buffers.
    Toggle { start: bool },
    SubmitPin { id: String, pin: String },
    CancelPin,
    Unpair { fingerprint: String },
    CancelUnpair,
    Exit,
}

/// What a frame knows besides the buttons.
pub struct FrameInput {
    /// The daemon answers.
    pub connected: bool,
    /// There is a connection to submit to, working or not.
    pub has_control: bool,
    /// The answer to a submitted PIN, if it came.
    pub pin_answer: Option<Result<PinOutcome, String>>,
    /// The answer to an unpairing, if it came: whether there was anything to
    /// unpair.
    pub unpair_answer: Option<Result<bool, String>>,
}

pub open spec fn is_home(s: Screen, at: int) -> bool {
    s matches Screen::Home(h) && h.cursor() == at
}

pub open spec fn is_message(s: Screen, text: Seq<char>) -> bool {
    s matches Screen::Message(m) && m.says() == text
}

/// The place of the first client with this id.
pub open spec fn is_first_with_id(pending: Seq<PendingEntry>, id: Seq<char>, k: int) -> bool {
    &&& 0 <= k < pending.len()
    &&& pending[k].id@ == id
    &&& forall|j: int| 0 <= j < k ==> (#[trigger] pending[j]).id@ != id
}

/// A fresh PIN entry for the client with this id, under the name and address
/// that the list has for it.
pub open spec fn is_fresh_pin(s: Screen, pending: Seq<PendingEntry>, id: Seq<char>) -> bool {
    &&& s matches Screen::Pin(p)
    &&& p.wf()
    &&& p.id() == id
    &&& p.entry().digits == seq![0u8, 0u8, 0u8, 0u8]
    &&& p.entry().cursor == 0
    &&& p.note() is None
    &&& exists|k: int| #[trigger]
        is_first_with_id(pending, id, k) && p.name() == screens::string_view(pending[k].name)
            && p.address() == screens::string_view(pending[k].address)
}

/// The same entry for the same client.
pub open spec fn same_pin(a: Pin, b: Pin) -> bool {
    &&& a.id() == b.id()
    &&& a.name() == b.name()
    &&& a.address() == b.address()
    &&& a.entry() == b.entry()
    &&& a.note() == b.note()
}

/// The entry for the same client after a frame's buttons.
pub open spec fn is_edited(q: Pin, p: Pin, b: Buttons) -> bool {
    &&& q.wf()
    &&& q.id() == p.id()
    &&& q.name() == p.name()
    &&& q.address() == p.address()
    &&& q.entry() == pin::entered(p.entry(), b)
    &&& q.note() == if pin::edits(p.entry(), b) {
        None
    } else {
        p.note()
    }
}

/// What the home screen does with a frame.
pub open spec fn home_step(
    h: Home,
    b: Buttons,
    state: CastState,
    f: FrameInput,
    next: Screen,
    action: FlowAction,
) -> bool {
    let at = home::moved(h.cursor(), home::row_count(state), b);
    if b.b {
        is_home(next, at) && action == FlowAction::Exit
    } else if !b.a {
        is_home(next, at) && action == FlowAction::Nothing
    } else if at == 0 {
        is_home(next, at) && action == (FlowAction::Toggle { start: !f.connected })
    } else {
        is_fresh_pin(next, state.pending@, state.pending@[at - 1].id@) && action
            == FlowAction::Nothing
    }
}

/// What PIN entry does with a frame.
pub open spec fn pin_step(
    p: Pin,
    b: Buttons,
    f: FrameInput,
    next: Screen,
    action: FlowAction,
) -> bool {
    if b.b {
        is_home(next, 0) && action == FlowAction::Nothing
    } else if !b.a {
        &&& next matches Screen::Pin(q) && is_edited(q, p, b)
        &&& action == FlowAction::Nothing
    } else if f.has_control {
        &&& next matches Screen::Pairing(q) && is_edited(q, p, b)
        &&& action matches FlowAction::SubmitPin { id, pin } && id@ == p.id() && pin@
            == pin::pin_text(pin::entered(p.entry(), b).digits)
    } else {
        is_message(next, "Not connected to the service."@) && action == FlowAction::Nothing
    }
}

/// What waiting for the answer to a PIN does with a frame.
pub open spec fn pairing_step(
    p: Pin,
    b: Buttons,
    f: FrameInput,
    next: Screen,
    action: FlowAction,
) -> bool {
    if b.b {
        is_home(next, 0) && action == FlowAction::CancelPin
    } else {
        &&& action == FlowAction::Nothing
        &&& match f.pin_answer {
            None => next matches Screen::Pairing(q) && q.wf() && same_pin(q, p),
            Some(Ok(PinOutcome::Paired)) => is_message(
                next,
                "Paired with "@ + p.caption() + "."@,
            ),
            Some(Ok(PinOutcome::NotReady)) => next matches Screen::Pin(q) && q.wf() && q.id()
                == p.id() && q.name() == p.name() && q.address() == p.address() && q.entry()
                == p.entry() && q.note() == Some("Not ready yet, try again"@),
            Some(Ok(PinOutcome::Rejected)) => is_message(
                next,
                "Wrong PIN. Pair again from Moonlight."@,
            ),
            Some(Err(_)) => is_message(next, "Connection lost."@),
        }
    }
}

/// What the question before an unpairing does with a frame.
pub open spec fn confirm_step(
    c: Confirm,
    b: Buttons,
    f: FrameInput,
    next: Screen,
    action: FlowAction,
) -> bool {
    match confirm::confirm_action(b) {
        ConfirmAction::Nothing => {
            &&& next matches Screen::Confirm(d) && d.subject() == c.subject() && d.caption()
                == c.caption()
            &&& action == FlowAction::Nothing
        },
        ConfirmAction::Cancel => is_home(next, 0) && action == FlowAction::Nothing,
        ConfirmAction::Confirm => if f.has_control {
            &&& next matches Screen::Unpairing { fingerprint, label } && fingerprint@
                == c.subject() && label@ == c.caption()
            &&& action matches FlowAction::Unpair { fingerprint } && fingerprint@ == c.subject()
        } else {
            is_message(next, "Not connected to the service."@) && action == FlowAction::Nothing
        },
    }
}

/// What waiting for the answer to an unpairing does with a frame.
pub open spec fn unpairing_step(
    fp: Seq<char>,
    name: Seq<char>,
    b: Buttons,
    f: FrameInput,
    next: Screen,
    action: FlowAction,
) -> bool {
    if b.b {
        is_home(next, 0) && action == FlowAction::CancelUnpair
    } else {
        &&& action == FlowAction::Nothing
        &&& match f.unpair_answer {
            None => next matches Screen::Unpairing { fingerprint, label } && fingerprint@ == fp
                && label@ == name,
            Some(Ok(true)) => is_message(next, "Unpaired "@ + name + "."@),
            Some(Ok(false)) => is_message(next, name + " was already unpaired."@),
            Some(Err(_)) => is_message(next, "Connection lost."@),
        }
    }
}

/// What a frame does to the screen.
pub open spec fn flow_step(
    s: Screen,
    b: Buttons,
    state: CastState,
    f: FrameInput,
    next: Screen,
    action: FlowAction,
) -> bool {
    match s {
        Screen::Home(h) => home_step(h, b, state, f, next, action),
        Screen::Pin(p) => pin_step(p, b, f, next, action),
        Screen::Pairing(p) => pairing_step(p, b, f, next, action),
        Screen::Message(m) => {
            &&& action == FlowAction::Nothing
            &&& if b.b {
                is_home(next, 0)
            } else {
                is_message(next, m.says())
            }
        },
        Screen::Confirm(c) => confirm_step(c, b, f, next, action),
        Screen::Unpairing { fingerprint, label } => unpairing_step(
            fingerprint@,
            label@,
            b,
            f,
            next,
            action,
        ),
    }
}

impl Screen {
    /// PIN entry is in order, on the screens that have it.
    pub open spec fn wf(self) -> bool {
        match self {
            Screen::Pin(p) => p.wf(),
            Screen::Pairing(p) => p.wf(),
            _ => true,
        }
    }

    /// The first screen.
    pub fn first() -> (s: Screen)
        ensures
            is_home(s, 0),
            s.wf(),
    {
        Screen::Home(Home::new())
    }
}

/// Whether this frame looks for the answer to a PIN. One that cancels does
/// not.
pub fn awaits_pin(screen: &Screen, buttons: &Buttons) -> (r: bool)
    ensures
        r == (screen is Pairing && !buttons.b),
{
    match screen {
        Screen::Pairing(_) => !buttons.b,
        _ => false,
    }
}

/// Whether this frame looks for the answer to an unpairing.
pub fn awaits_unpair(screen: &Screen, buttons: &Buttons) -> (r: bool)
    ensures
        r == (screen is Unpairing && !buttons.b),
{
    match screen {
        Screen::Unpairing { fingerprint, label } => !buttons.b,
        _ => false,
    }
}

/// The name and the address that the list has for the client with this id:
/// those of the first such client.
fn known_of(pending: &Vec<PendingEntry>, id: &str) -> (known: (Option<String>, Option<String>))
    requires
        exists|k: int| 0 <= k < pending@.len() && (#[trigger] pending@[k]).id@ == id@,
    ensures
        exists|k: int| #[trigger]
            is_first_with_id(pending@, id@, k) && screens::string_view(known.0)
                == screens::string_view(pending@[k].name) && screens::string_view(known.1)
                == screens::string_view(pending@[k].address),
{
    let ghost w = choose|k: int| 0 <= k < pending@.len() && (#[trigger] pending@[k]).id@ == id@;
    let mut i: usize = 0;
    while i < pending.len()
        invariant
            i <= pending@.len(),
            0 <= w < pending@.len(),
            pending@[w].id@ == id@,
            forall|j: int| 0 <= j < i ==> (#[trigger] pending@[j]).id@ != id@,
        decreases pending.len() - i,
    {
        if same_text(pending[i].id.as_str(), id) {
            assert(is_first_with_id(pending@, id@, i as int));
            return (copy_text(&pending[i].name), copy_text(&pending[i].address));
        }
        i = i + 1;
    }
    assert(false);
    (None, None)
}

/// One frame: the screen that follows, and what to do.
pub fn step(screen: Screen, buttons: &Buttons, state: &CastState, f: &FrameInput) -> (r: (
    Screen,
    FlowAction,
))
    requires
        screen.wf(),
    ensures
        flow_step(screen, *buttons, *state, *f, r.0, r.1),
        r.0.wf(),
{
    match screen {
        Screen::Home(h) => {
            let mut h: Home = h;
            match h.update(buttons, state) {
                HomeAction::Nothing => (Screen::Home(h), FlowAction::Nothing),
                HomeAction::Toggle => (
                    Screen::Home(h),
                    FlowAction::Toggle { start: !f.connected },
                ),
                HomeAction::Pair(id) => {
                    let (name, address): (Option<String>, Option<String>) = known_of(
                        &state.pending,
                        id.as_str(),
                    );
                    (Screen::Pin(Pin::for_client(id, name, address)), FlowAction::Nothing)
                },
                HomeAction::Exit => (Screen::Home(h), FlowAction::Exit),
            }
        },
        Screen::Pin(p) => {
            let mut p: Pin = p;
            match p.update(buttons) {
                PinAction::Nothing => (Screen::Pin(p), FlowAction::Nothing),
                PinAction::Back => (Screen::Home(Home::new()), FlowAction::Nothing),
                PinAction::Submit(code) => {
                    if f.has_control {
                        let id: String = String::from_str(p.client_id());
                        (Screen::Pairing(p), FlowAction::SubmitPin { id, pin: code })
                    } else {
                        (
                            Screen::Message(Message::new("Not connected to the service.")),
                            FlowAction::Nothing,
                        )
                    }
                },
            }
        },
        Screen::Pairing(p) => match pairing::update(buttons) {
            PairingAction::Cancel => (Screen::Home(Home::new()), FlowAction::CancelPin),
            PairingAction::Nothing => {
                let next: Screen = match &f.pin_answer {
                    None => Screen::Pairing(p),
                    Some(Ok(PinOutcome::Paired)) => {
                        let label: String = p.label();
                        let text: String = String::from_str("Paired with ").concat(
                            label.as_str(),
                        ).concat(".");
                        Screen::Message(Message::new(text.as_str()))
                    },
                    Some(Ok(PinOutcome::NotReady)) => {
                        let mut p: Pin = p;
                        p.set_error("Not ready yet, try again");
                        Screen::Pin(p)
                    },
                    Some(Ok(PinOutcome::Rejected)) => Screen::Message(
                        Message::new("Wrong PIN. Pair again from Moonlight."),
                    ),
                    Some(Err(_)) => Screen::Message(Message::new("Connection lost.")),
                };
                (next, FlowAction::Nothing)
            },
        },
        Screen::Message(m) => {
            if m.update(buttons) {
                (Screen::Home(Home::new()), FlowAction::Nothing)
            } else {
                (Screen::Message(m), FlowAction::Nothing)
            }
        },
        Screen::Confirm(c) => match c.update(buttons) {
            ConfirmAction::Nothing => (Screen::Confirm(c), FlowAction::Nothing),
            ConfirmAction::Cancel => (Screen::Home(Home::new()), FlowAction::Nothing),
            ConfirmAction::Confirm => {
                if f.has_control {
                    let fingerprint: String = String::from_str(c.fingerprint());
                    let label: String = String::from_str(c.label());
                    let asked: String = String::from_str(c.fingerprint());
                    (
                        Screen::Unpairing { fingerprint, label },
                        FlowAction::Unpair { fingerprint: asked },
                    )
                } else {
                    (
                        Screen::Message(Message::new("Not connected to the service.")),
                        FlowAction::Nothing,
                    )
                }
            },
        },
        Screen::Unpairing { fingerprint, label } => match unpairing::update(buttons) {
            UnpairingAction::Cancel => (Screen::Home(Home::new()), FlowAction::CancelUnpair),
            UnpairingAction::Nothing => {
                let next: Screen = match &f.unpair_answer {
                    None => Screen::Unpairing { fingerprint, label },
                    Some(Ok(gone)) => {
                        let text: String = if *gone {
                            String::from_str("Unpaired ").concat(label.as_str()).concat(".")
                        } else {
                            label.concat(" was already unpaired.")
                        };
                        Screen::Message(Message::new(text.as_str()))
                    },
                    Some(Err(_)) => Screen::Message(Message::new("Connection lost.")),
                };
                (next, FlowAction::Nothing)
            },
        },
    }
}

/// A client that is paired.
#[derive(Debug, PartialEq, Eq)]
pub struct PairedEntry {
    pub fingerprint: String,
    pub name: Option<String>,
    pub address: Option<String>,
}

/// The place of the first paired client with this fingerprint.
pub open spec fn is_first_paired(paired: Seq<PairedEntry>, fp: Seq<char>, k: int) -> bool {
    &&& 0 <= k < paired.len()
    &&& paired[k].fingerprint@ == fp
    &&& forall|j: int| 0 <= j < k ==> (#[trigger] paired[j]).fingerprint@ != fp
}

/// The label of a paired client. One that is gone from the list already goes
/// by the start of its fingerprint, never by nothing.
pub open spec fn is_paired_label(label: Seq<char>, paired: Seq<PairedEntry>, fp: Seq<char>) -> bool {
    ||| exists|k: int| #[trigger]
        is_first_paired(paired, fp, k) && label == screens::label_of(
            screens::string_view(paired[k].name),
            screens::string_view(paired[k].address),
            fp,
        )
    ||| (forall|k: int| 0 <= k < paired.len() ==> (#[trigger] paired[k]).fingerprint@ != fp)
        && label == screens::label_of(None, None, fp)
}

/// The question before the client with this fingerprint is unpaired.
pub fn ask_unpair(paired: &Vec<PairedEntry>, fingerprint: String) -> (s: Screen)
    ensures
        s matches Screen::Confirm(c) && c.subject() == fingerprint@ && is_paired_label(
            c.caption(),
            paired@,
            fingerprint@,
        ),
        s.wf(),
{
    let mut i: usize = 0;
    while i < paired.len()
        invariant
            i <= paired@.len(),
            forall|j: int| 0 <= j < i ==> (#[trigger] paired@[j]).fingerprint@ != fingerprint@,
        decreases paired.len() - i,
    {
        if same_text(paired[i].fingerprint.as_str(), fingerprint.as_str()) {
            let name: Option<&str> = match &paired[i].name {
                Some(n) => Some(n.as_str()),
                None => None,
            };
            let address: Option<&str> = match &paired[i].address {
                Some(a) => Some(a.as_str()),
                None => None,
            };
            assert(is_first_paired(paired@, fingerprint@, i as int));
            let label: String = client_label(name, address, fingerprint.as_str());
            return Screen::Confirm(Confirm::new(fingerprint, label));
        }
        i = i + 1;
    }
    let label: String = client_label(None, None, fingerprint.as_str());
    Screen::Confirm(Confirm::new(fingerprint, label))
}

/// `v` draws the screen.
pub open spec fn is_drawn(s: Screen, state: CastState, connected: bool, v: Seq<Draw>) -> bool {
    match s {
        Screen::Home(h) => h.is_drawn(state, connected, v),
        Screen::Pin(p) => p.is_drawn(v),
        Screen::Pairing(_) => pairing::is_drawn(v),
        Screen::Message(m) => m.is_drawn(v),
        Screen::Confirm(c) => c.is_drawn(v),
        Screen::Unpairing { fingerprint, label } => unpairing::is_drawn(v),
    }
}

/// What to draw for the screen. The panel has two buffers, so every frame is
/// drawn in full.
pub fn draw(screen: &Screen, state: &CastState, connected: bool) -> (v: Vec<Draw>)
    ensures
        is_drawn(*screen, *state, connected, v@),
{
    match screen {
        Screen::Home(h) => h.draw(state, connected),
        Screen::Pin(p) => p.draw(),
        Screen::Pairing(_) => pairing::draw(),
        Screen::Message(m) => m.draw(),
        Screen::Confirm(c) => c.draw(),
        Screen::Unpairing { fingerprint, label } => unpairing::draw(),
    }
}

/// What is drawn before the service is started or stopped, which blocks.
pub fn busy_frame(starting: bool) -> (v: Vec<Draw>)
    ensures
        v@.len() == 4,
        v@[0] == Draw::HardwareGroup,
        ui::draws_header(v@[1], "Cast"@),
        ui::draws_row(
            v@[2],
            "Service"@,
            Some(
                if starting {
                    "Starting..."@
                } else {
                    "Stopping..."@
                },
            ),
            0,
            true,
        ),
        v@[3] matches Draw::Hints(h) && h@.len() == 0,
{
    let mut v: Vec<Draw> = Vec::new();
    v.push(Draw::HardwareGroup);
    v.push(Draw::Header(String::from_str("Cast")));
    let text: String = if starting {
        String::from_str("Starting...")
    } else {
        String::from_str("Stopping...")
    };
    v.push(
        Draw::Row {
            label: String::from_str("Service"),
            value: Some(text),
            index: 0,
            selected: true,
        },
    );
    let none: Vec<Hint> = Vec::new();
    v.push(Draw::Hints(none));
    v
}

/// Home and PIN entry cannot drift apart: the client that a fresh entry is for
/// has the same label on both.
pub proof fn law_home_and_pin_entry_share_a_label(
    s: Screen,
    pending: Seq<PendingEntry>,
    id: Seq<char>,
    k: int,
)
    requires
        is_fresh_pin(s, pending, id),
        is_first_with_id(pending, id, k),
    ensures
        s matches Screen::Pin(p) && p.caption() == home::entry_label(pending[k]),
{
    if let Screen::Pin(p) = s {
        let j = choose|j: int| #[trigger]
            is_first_with_id(pending, id, j) && p.name() == screens::string_view(pending[j].name)
                && p.address() == screens::string_view(pending[j].address);
        assert(j == k) by {
            if j < k {
                assert(pending[j].id@ != id);
            }
            if k < j {
                assert(pending[k].id@ != id);
            }
        }
    }
}

/// Unpairing is only ever asked of the daemon from the question about it, with
/// A, and for the client that the question named.
pub proof fn law_unpairing_is_always_confirmed(
    s: Screen,
    b: Buttons,
    state: CastState,
    f: FrameInput,
    next: Screen,
    action: FlowAction,
)
    requires
        flow_step(s, b, state, f, next, action),
        action is Unpair,
    ensures
        b.a,
        s matches Screen::Confirm(c) && action->Unpair_fingerprint@ == c.subject(),
{
}

/// A PIN that the daemon was not ready for is not lost: the entry comes back
/// as it was submitted, so A submits the same PIN again.
pub proof fn law_a_pin_survives_not_ready(
    p: Pin,
    b: Buttons,
    state: CastState,
    f: FrameInput,
    next: Screen,
    action: FlowAction,
)
    requires
        flow_step(Screen::Pairing(p), b, state, f, next, action),
        !b.b,
        f.pin_answer == Some(Ok::<PinOutcome, String>(PinOutcome::NotReady)),
    ensures
        next matches Screen::Pin(q) && q.id() == p.id() && q.entry() == p.entry() && pin::pin_text(
            q.entry().digits,
        ) == pin::pin_text(p.entry().digits),
{
}

/// The program is left only from the home screen, with B.
pub proof fn law_only_home_exits(
    s: Screen,
    b: Buttons,
    state: CastState,
    f: FrameInput,
    next: Screen,
    action: FlowAction,
)
    requires
        flow_step(s, b, state, f, next, action),
        action is Exit,
    ensures
        s is Home,
        b.b,
{
}

/// What the hint bar says of A is what A does: it starts or stops the service on
/// the service row, and opens PIN entry on a client's row.
pub proof fn law_the_hint_says_what_a_does(
    h: Home,
    b: Buttons,
    state: CastState,
    f: FrameInput,
    next: Screen,
    action: FlowAction,
)
    requires
        flow_step(Screen::Home(h), b, state, f, next, action),
        b.a && !b.b && !b.up && !b.down,
        0 <= h.cursor() < home::row_count(state),
    ensures
        action == (FlowAction::Toggle { start: true }) <==> home::a_text(h.cursor(), f.connected)
            == "Start"@,
        action == (FlowAction::Toggle { start: false }) <==> home::a_text(h.cursor(), f.connected)
            == "Stop"@,
        next is Pin <==> home::a_text(h.cursor(), f.connected) == "Pair"@,
        action is Toggle <==> h.cursor() == 0,
        action matches FlowAction::Toggle { start } ==> start == !f.connected,
{
    reveal_strlit("Start");
    reveal_strlit("Stop");
    reveal_strlit("Pair");
    assert("Start"@.len() == 5 && "Stop"@.len() == 4 && "Pair"@.len() == 4);
    assert("Stop"@[0] == 'S' && "Pair"@[0] == 'P');
}

/// A on a client's row pairs the client whose row is highlighted on the screen:
/// the entry that opens is for the id of the client under the cursor, and the
/// highlighted row bears that client's label.
pub proof fn law_a_pairs_the_highlighted_client(
    h: Home,
    b: Buttons,
    state: CastState,
    f: FrameInput,
    next: Screen,
    action: FlowAction,
    v: Seq<Draw>,
    i: int,
)
    requires
        flow_step(Screen::Home(h), b, state, f, next, action),
        is_drawn(Screen::Home(h), state, f.connected, v),
        b.a && !b.b && !b.up && !b.down,
        0 < h.cursor() < home::row_count(state),
        0 <= i < v.len(),
        v[i] matches Draw::Row { label, value, index, selected } && selected,
    ensures
        next matches Screen::Pin(p) && p.id() == state.pending@[h.cursor() - 1].id@,
        v[i] matches Draw::Row { label, value, index, selected } && label@ == home::entry_label(
            state.pending@[h.cursor() - 1],
        ),
        action == FlowAction::Nothing,
{
    if i >= 3 && i < v.len() - 1 {
        assert(v[2 + (i - 2)] == v[i]);
    }
}

/// What is submitted is what the screen shows: four characters, each that of
/// the digit in its place, for the client that the entry is for.
pub proof fn law_the_pin_on_screen_is_submitted(
    p: Pin,
    b: Buttons,
    state: CastState,
    f: FrameInput,
    next: Screen,
    action: FlowAction,
    i: int,
)
    requires
        p.wf(),
        flow_step(Screen::Pin(p), b, state, f, next, action),
        action is SubmitPin,
        0 <= i < 4,
    ensures
        action->SubmitPin_id@ == p.id(),
        action->SubmitPin_pin@.len() == 4,
        next matches Screen::Pairing(q) && q.id() == p.id() && action->SubmitPin_pin@[i] as int
            - '0' as int == q.entry().digits[i],
        b.a && !b.b && f.has_control,
{
    if let Screen::Pairing(q) = next {
        assert forall|k: int| 0 <= k < 4 implies (#[trigger] q.entry().digits[k]) < 10 by {}
        pin::law_a_pin_reads_in_order(q.entry().digits, i);
    }
}

/// A PIN is submitted wherever A is pressed on its entry and there is a
/// connection, and only there.
pub proof fn law_a_submits_where_there_is_a_connection(
    s: Screen,
    b: Buttons,
    state: CastState,
    f: FrameInput,
    next: Screen,
    action: FlowAction,
)
    requires
        flow_step(s, b, state, f, next, action),
    ensures
        action is SubmitPin <==> s is Pin && b.a && !b.b && f.has_control,
        s is Pin && b.a && !b.b && !f.has_control ==> next is Message,
        action is Unpair <==> s is Confirm && b.a && f.has_control,
        s is Confirm && b.a && !f.has_control ==> next is Message,
        action is CancelPin <==> s is Pairing && b.b,
        action is CancelUnpair <==> s is Unpairing && b.b,
        action is Toggle ==> s is Home && b.a,
{
}

/// B leads back: from every screen the next one is home, at the service row but
/// for home itself, and from home it leaves. In the question about unpairing, A
/// counts first.
pub proof fn law_b_leads_back(
    s: Screen,
    b: Buttons,
    state: CastState,
    f: FrameInput,
    next: Screen,
    action: FlowAction,
)
    requires
        flow_step(s, b, state, f, next, action),
        b.b && !b.a,
    ensures
        next is Home,
        !(s is Home) ==> is_home(next, 0) && !(action is Exit),
        s is Home ==> action is Exit,
{
}

/// Nothing happens by itself: with no button pressed and no answer come, the
/// screen stays what it is and nothing is asked of anyone.
pub proof fn law_nothing_happens_by_itself(
    s: Screen,
    b: Buttons,
    state: CastState,
    f: FrameInput,
    next: Screen,
    action: FlowAction,
)
    requires
        s.wf(),
        flow_step(s, b, state, f, next, action),
        !b.a && !b.b && !b.up && !b.down && !b.left && !b.right,
        f.pin_answer is None,
        f.unpair_answer is None,
    ensures
        action == FlowAction::Nothing,
        match s {
            Screen::Home(h) => next is Home && (0 <= h.cursor() < home::row_count(state) ==> is_home(
                next,
                h.cursor(),
            )),
            Screen::Pin(p) => next matches Screen::Pin(q) && same_pin(q, p),
            Screen::Pairing(p) => next matches Screen::Pairing(q) && same_pin(q, p),
            Screen::Message(m) => is_message(next, m.says()),
            Screen::Confirm(c) => next matches Screen::Confirm(d) && d.subject() == c.subject(),
            Screen::Unpairing { fingerprint, label } => next is Unpairing,
        },
{
    if let Screen::Pin(p) = s {
        if let Screen::Pin(q) = next {
            assert(q.entry().digits =~= p.entry().digits);
        }
    }
}

/// The answers to a PIN are told apart, and each is told: success and a wrong
/// PIN and a lost connection end in messages of which no two are the same, and
/// success names the client.
pub proof fn law_answers_to_a_pin_are_told_apart(
    p: Pin,
    b: Buttons,
    state: CastState,
    f: FrameInput,
    g: FrameInput,
    next: Screen,
    other: Screen,
    action: FlowAction,
)
    requires
        !b.b,
        flow_step(Screen::Pairing(p), b, state, f, next, action),
        flow_step(Screen::Pairing(p), b, state, g, other, action),
        f.pin_answer matches Some(x) && g.pin_answer matches Some(y) && match (x, y) {
            (Ok(PinOutcome::Paired), Ok(PinOutcome::Rejected)) => true,
            (Ok(PinOutcome::Paired), Err(_)) => true,
            (Ok(PinOutcome::Rejected), Err(_)) => true,
            _ => false,
        },
    ensures
        next matches Screen::Message(m) && other matches Screen::Message(n) && m.says() != n.says(),
        f.pin_answer == Some(Ok::<PinOutcome, String>(PinOutcome::Paired)) ==> {
            next matches Screen::Message(m) && exists|at: int|
                0 <= at <= m.says().len() - p.caption().len() && #[trigger] m.says().subrange(
                    at,
                    at + p.caption().len(),
                ) == p.caption()
        },
{
    reveal_strlit("Paired with ");
    reveal_strlit(".");
    reveal_strlit("Wrong PIN. Pair again from Moonlight.");
    reveal_strlit("Connection lost.");
    let (paired, wrong, lost) = (
        "Paired with "@ + p.caption() + "."@,
        "Wrong PIN. Pair again from Moonlight."@,
        "Connection lost."@,
    );
    assert(paired[0] == 'P' && wrong[0] == 'W' && lost[0] == 'C');
    if let Screen::Message(m) = next {
        if f.pin_answer == Some(Ok::<PinOutcome, String>(PinOutcome::Paired)) {
            assert(m.says() == paired);
            assert(paired.subrange(12, 12int + p.caption().len()) =~= p.caption());
        }
    }
}

/// A lost connection is tried again after half a second, and at once where it
/// was not tried yet; not before.
pub proof fn law_a_lost_connection_is_tried_again(last: u64, now: u64)
    ensures
        reconnect_due(None, now),
        now - last >= 500_000_000 ==> reconnect_due(Some(last), now),
        now - last < 500_000_000 ==> !reconnect_due(Some(last), now),
{
}

/// The answers to an unpairing are told apart, and both name the client.
pub proof fn law_answers_to_an_unpairing_are_told_apart(
    fingerprint: String,
    label: String,
    b: Buttons,
    state: CastState,
    f: FrameInput,
    g: FrameInput,
    next: Screen,
    other: Screen,
    action: FlowAction,
)
    requires
        !b.b,
        flow_step(Screen::Unpairing { fingerprint, label }, b, state, f, next, action),
        flow_step(Screen::Unpairing { fingerprint, label }, b, state, g, other, action),
        f.unpair_answer == Some(Ok::<bool, String>(true)),
        g.unpair_answer == Some(Ok::<bool, String>(false)),
    ensures
        next matches Screen::Message(m) && other matches Screen::Message(n) && {
            &&& m.says() != n.says()
            &&& m.says().subrange(9, 9 + label@.len() as int) == label@
            &&& n.says().take(label@.len() as int) == label@
        },
{
    reveal_strlit("Unpaired ");
    reveal_strlit(".");
    reveal_strlit(" was already unpaired.");
    if let Screen::Message(m) = next {
        if let Screen::Message(n) = other {
            assert(m.says().len() == label@.len() + 10);
            assert(n.says().len() == label@.len() + 22);
            assert(m.says().subrange(9, 9 + label@.len() as int) =~= label@);
            assert(n.says().take(label@.len() as int) =~= label@);
        }
    }
}

/// A acts on the row that up or down led to in the same frame.
pub proof fn law_a_acts_where_the_cursor_came_to(
    h: Home,
    b: Buttons,
    state: CastState,
    f: FrameInput,
    next: Screen,
    action: FlowAction,
)
    requires
        flow_step(Screen::Home(h), b, state, f, next, action),
        b.a && b.down && !b.b,
        0 <= h.cursor() < home::row_count(state) - 1,
    ensures
        next matches Screen::Pin(p) && p.id() == state.pending@[h.cursor()].id@,
{
}

/// Of several clients that send the same id, the first in the list is meant.
pub proof fn law_the_first_of_equals_is_meant(
    s: Screen,
    pending: Seq<PendingEntry>,
    id: Seq<char>,
    k: int,
)
    requires
        is_fresh_pin(s, pending, id),
        0 <= k < pending.len(),
        pending[k].id@ == id,
        forall|j: int| 0 <= j < k ==> (#[trigger] pending[j]).id@ != id,
    ensures
        s matches Screen::Pin(p) && {
            &&& p.id() == id
            &&& p.name() == screens::string_view(pending[k].name)
            &&& p.address() == screens::string_view(pending[k].address)
            &&& p.entry().cursor == 0
            &&& forall|i: int| 0 <= i < 4 ==> (#[trigger] p.entry().digits[i]) == 0
        },
{
    assert(is_first_with_id(pending, id, k));
    if let Screen::Pin(p) = s {
        let j = choose|j: int| #[trigger]
            is_first_with_id(pending, id, j) && p.name() == screens::string_view(pending[j].name)
                && p.address() == screens::string_view(pending[j].address);
        if j < k {
            assert(pending[j].id@ != id);
        }
        if k < j {
            assert(pending[k].id@ != id);
        }
    }
}

} // verus!
