//! The interface's end of the control socket: what an answer means, and which
//! failures mean that the connection is gone.
pub use crate::control::{CastState, PendingEntry, PinResult};
use crate::control;
use crate::control::{PinStage, PinStep, NOT_READY_CODE, REJECTED_CODE};
use vstd::prelude::*;

verus! {

/// How long the interface waits for the answer to a PIN, in nanoseconds.
pub const SUBMIT_PIN_TIMEOUT: u64 = 5_000_000_000;

/// The daemon's patience with a pairing ends before the interface's patience
/// with the daemon, so a wrong PIN is answered rather than lost.
pub proof fn law_the_daemon_answers_first()
    ensures
        crate::control::PAIRING_TIMEOUT < SUBMIT_PIN_TIMEOUT,
{
}

/// The daemon's answer to a PIN, once it has answered.
#[derive(Clone, Copy, Debug, PartialEq, Eq, Structural)]
pub enum PinOutcome {
    /// Pairing succeeded.
    Paired,
    /// The daemon is not ready to pair yet: retry.
    NotReady,
    /// The daemon rejected the client or the PIN: have it entered again.
    Rejected,
}

/// How a request to submit a PIN ended.
#[derive(Debug, PartialEq, Eq)]
pub enum PinReply {
    /// The task that made the request died, with this text.
    TaskFailed(String),
    /// Nothing came within `SUBMIT_PIN_TIMEOUT`.
    TimedOut,
    /// The daemon answered.
    Answered(PinResult),
    /// The daemon answered with an error.
    Refused { code: i32, message: String },
    /// The request did not get through, with this text.
    Broken(String),
}

/// What one look at the state subscription gave.
#[derive(Debug, PartialEq, Eq)]
pub enum StatePoll {
    /// A new state.
    State(CastState),
    /// The subscription ended or gave something unreadable.
    Ended,
    /// Nothing this frame.
    Nothing,
}

/// The reply means that the connection itself is gone: the daemon never
/// answered. Any answer, even one that makes no sense, comes from a live
/// daemon.
pub open spec fn is_transport_failure(r: PinReply) -> bool {
    r is TaskFailed || r is TimedOut || r is Broken
}

/// The outcome that a reply stands for, where it stands for one.
pub open spec fn outcome_of(r: PinReply) -> Option<PinOutcome> {
    match r {
        PinReply::Answered(p) => if p.paired {
            Some(PinOutcome::Paired)
        } else {
            None
        },
        PinReply::Refused { code, message } => if code == NOT_READY_CODE {
            Some(PinOutcome::NotReady)
        } else if code == REJECTED_CODE {
            Some(PinOutcome::Rejected)
        } else {
            None
        },
        _ => None,
    }
}

/// The error text of a reply that stands for no outcome.
pub open spec fn reply_error(r: PinReply) -> Seq<char> {
    match r {
        PinReply::TaskFailed(e) => "submit_pin task did not complete: "@ + e@,
        PinReply::TimedOut => "submit_pin timed out after 5s"@,
        PinReply::Answered(p) => "submit_pin succeeded but reported paired: false"@,
        PinReply::Refused { code, message } => message@,
        PinReply::Broken(e) => e@,
    }
}

/// `r` is what a reply stands for.
pub open spec fn is_reading_of(r: Result<PinOutcome, String>, reply: PinReply) -> bool {
    match outcome_of(reply) {
        Some(o) => r == Ok::<PinOutcome, String>(o),
        None => r matches Err(e) && e@ == reply_error(reply),
    }
}

/// A connection to the daemon.
///
/// It does not heal: once a transport failure is seen it stays disconnected,
/// and a new connection is how to try again. The connect itself is the
/// liveness check.
pub struct Control {
    connected: bool,
    pending_pin: bool,
}

impl Control {
    pub closed spec fn alive(self) -> bool {
        self.connected
    }

    /// A PIN was submitted and its answer is outstanding.
    pub closed spec fn waiting(self) -> bool {
        self.pending_pin
    }

    /// A connection that was just made.
    pub fn connect() -> (c: Self)
        ensures
            c.alive(),
            !c.waiting(),
    {
        Control { connected: true, pending_pin: false }
    }

    /// True until a transport failure is seen.
    pub fn is_connected(&self) -> (r: bool)
        ensures
            r == self.alive(),
    {
        self.connected
    }

    /// Takes one look at the subscription. An end of it is a transport
    /// failure.
    pub fn poll_state(&mut self, poll: StatePoll) -> (s: Option<CastState>)
        ensures
            s == match poll {
                StatePoll::State(st) => Some(st),
                _ => None,
            },
            final(self).alive() == (old(self).alive() && !(poll is Ended)),
            final(self).waiting() == old(self).waiting(),
    {
        match poll {
            StatePoll::State(s) => Some(s),
            StatePoll::Ended => {
                self.connected = false;
                None
            },
            StatePoll::Nothing => None,
        }
    }

    /// A PIN was sent off. The frame loop goes on while the answer is
    /// outstanding.
    pub fn start_submit_pin(&mut self)
        ensures
            final(self).waiting(),
            final(self).alive() == old(self).alive(),
    {
        self.pending_pin = true;
    }

    /// Whether a PIN's answer is outstanding.
    pub fn is_waiting(&self) -> (r: bool)
        ensures
            r == self.waiting(),
    {
        self.pending_pin
    }

    /// Takes the reply to the outstanding PIN, if it has come.
    pub fn poll_submit_pin(&mut self, reply: Option<PinReply>) -> (r: Option<
        Result<PinOutcome, String>,
    >)
        ensures
            match (old(self).waiting(), reply) {
                (true, Some(reply)) => {
                    &&& r matches Some(o) && is_reading_of(o, reply)
                    &&& !final(self).waiting()
                    &&& final(self).alive() == (old(self).alive() && !is_transport_failure(reply))
                },
                _ => {
                    &&& r is None
                    &&& final(self).waiting() == old(self).waiting()
                    &&& final(self).alive() == old(self).alive()
                },
            },
    {
        if !self.pending_pin {
            return None;
        }
        match reply {
            None => None,
            Some(reply) => {
                self.pending_pin = false;
                Some(self.interpret_submit_pin(reply))
            },
        }
    }

    /// Stops waiting for the answer. This does not take the PIN back: the
    /// daemon may still complete the pairing.
    pub fn cancel_submit_pin(&mut self)
        ensures
            !final(self).waiting(),
            final(self).alive() == old(self).alive(),
    {
        self.pending_pin = false;
    }

    /// Reads a reply, and notes whether it means that the connection is gone.
    pub fn interpret_submit_pin(&mut self, reply: PinReply) -> (r: Result<PinOutcome, String>)
        ensures
            is_reading_of(r, reply),
            final(self).alive() == (old(self).alive() && !is_transport_failure(reply)),
            final(self).waiting() == old(self).waiting(),
    {
        match reply {
            PinReply::TaskFailed(e) => {
                self.connected = false;
                Err(String::from_str("submit_pin task did not complete: ").concat(e.as_str()))
            },
            PinReply::TimedOut => {
                self.connected = false;
                Err(String::from_str("submit_pin timed out after 5s"))
            },
            PinReply::Answered(p) => {
                if p.paired {
                    Ok(PinOutcome::Paired)
                } else {
                    Err(String::from_str("submit_pin succeeded but reported paired: false"))
                }
            },
            PinReply::Refused { code, message } => {
                if code == NOT_READY_CODE {
                    Ok(PinOutcome::NotReady)
                } else if code == REJECTED_CODE {
                    Ok(PinOutcome::Rejected)
                } else {
                    Err(message)
                }
            },
            PinReply::Broken(e) => {
                self.connected = false;
                Err(e)
            },
        }
    }
}

/// What the daemon refuses a PIN with is read as what it meant.
pub proof fn law_refusals_are_told_apart(message: String)
    ensures
        outcome_of(PinReply::Refused { code: NOT_READY_CODE, message }) == Some(
            PinOutcome::NotReady,
        ),
        outcome_of(PinReply::Refused { code: REJECTED_CODE, message }) == Some(
            PinOutcome::Rejected,
        ),
        outcome_of(PinReply::Answered(PinResult { paired: true })) == Some(PinOutcome::Paired),
        !is_transport_failure(PinReply::Refused { code: NOT_READY_CODE, message }),
        !is_transport_failure(PinReply::Refused { code: REJECTED_CODE, message }),
{
}

/// Only silence means that the connection is gone: a reply that the daemon gave
/// never does, whatever it says, and no reply that it did not give stands for
/// an outcome.
pub proof fn law_only_silence_breaks_the_connection(r: PinReply)
    ensures
        is_transport_failure(r) <==> !(r is Answered) && !(r is Refused),
        is_transport_failure(r) ==> outcome_of(r) is None,
        outcome_of(r) == Some(PinOutcome::Paired) <==> (r matches PinReply::Answered(p) && p.paired),
{
}

/// What the daemon does with a PIN reaches the interface as it was meant. One
/// that it cannot take yet is to be tried again; one for a client that it does
/// not know, or that did not complete, is rejected; one that completed is
/// paired; and it answers at no other point.
pub proof fn law_the_daemons_word_is_read_as_meant(stage: PinStage, ok: bool, step: PinStep)
    requires
        control::is_pin_step(stage, ok, step),
    ensures
        match step {
            PinStep::Refuse(e) => !ok && outcome_of(
                PinReply::Refused { code: e.code, message: e.message },
            ) == Some(
                if stage == PinStage::Lookup {
                    PinOutcome::NotReady
                } else {
                    PinOutcome::Rejected
                },
            ),
            PinStep::Answer(p) => ok && stage == PinStage::Resolved && outcome_of(
                PinReply::Answered(p),
            ) == Some(PinOutcome::Paired),
            PinStep::Register => ok && stage == PinStage::Lookup,
            PinStep::Wait => ok && stage == PinStage::Registered,
        },
{
}

} // verus!
