//! Status lines for the on-screen overlay.
//!
//! The device has no console while a game is running, so a line of text drawn
//! by the overlay is the only way the user learns what the daemon is doing.
use crate::text::push_decimal;
use vstd::prelude::*;

verus! {

/// Where the overlay reads its commands from by default.
pub const DEFAULT_FIFO: &'static str = "/tmp/show2.fifo";

/// What the daemon is doing.
#[derive(Clone, Debug, PartialEq, Eq)]
pub enum Status {
    Starting,
    AwaitingPairing { url: String },
    Ready { addr: String },
    Connected { client: String, width: u32, height: u32, fps: u32 },
    Stopped,
}

/// The text of a status.
pub open spec fn status_text(s: Status) -> Seq<char> {
    match s {
        Status::Starting => "Starting..."@,
        Status::AwaitingPairing { url } => "Pair at "@ + url@,
        Status::Ready { addr } => "Ready - "@ + addr@,
        Status::Connected { client, width, height, fps } => "Connected - "@ + client@ + " "@
            + crate::text::decimal(width as nat) + "x"@ + crate::text::decimal(height as nat)
            + " "@ + crate::text::decimal(fps as nat) + "fps"@,
        Status::Stopped => "Casting stopped"@,
    }
}

impl Status {
    /// The line to show.
    pub fn line(&self) -> (s: String)
        ensures
            s@ == status_text(*self),
    {
        match self {
            Status::Starting => String::from_str("Starting..."),
            Status::AwaitingPairing { url } => String::from_str("Pair at ").concat(url.as_str()),
            Status::Ready { addr } => String::from_str("Ready - ").concat(addr.as_str()),
            Status::Connected { client, width, height, fps } => {
                let mut s: String = String::from_str("Connected - ");
                s.append(client.as_str());
                s.append(" ");
                push_decimal(&mut s, *width as u64);
                s.append("x");
                push_decimal(&mut s, *height as u64);
                s.append(" ");
                push_decimal(&mut s, *fps as u64);
                s.append("fps");
                s
            },
            Status::Stopped => String::from_str("Casting stopped"),
        }
    }
}

/// Speaks to the overlay. It may not be running, so whoever writes does so
/// without blocking and ignores failures: a status line is never worth
/// stalling the stream for.
#[derive(Clone, Debug)]
pub struct StatusWriter {
    fifo: String,
}

impl StatusWriter {
    pub closed spec fn target(self) -> Seq<char> {
        self.fifo@
    }

    pub fn new(fifo: String) -> (w: StatusWriter)
        ensures
            w.target() == fifo@,
    {
        StatusWriter { fifo }
    }

    /// Where the commands go.
    pub fn fifo(&self) -> (p: &str)
        ensures
            p@ == self.target(),
    {
        self.fifo.as_str()
    }

    /// The command that shows a status.
    pub fn publish(&self, s: &Status) -> (command: String)
        ensures
            command@ == "TEXT:"@ + status_text(*s) + "\n"@,
    {
        let mut command: String = String::from_str("TEXT:");
        let line: String = s.line();
        command.append(line.as_str());
        command.append("\n");
        command
    }
}

/// A status line says where to pair or connect, at its end, and of a client in
/// full: its name, the size and the rate that it is sent.
pub proof fn law_a_status_line_says_where(
    url: String,
    client: String,
    width: u32,
    height: u32,
    fps: u32,
)
    ensures
        crate::text::ends_with(status_text(Status::AwaitingPairing { url }), url@),
        crate::text::ends_with(status_text(Status::Ready { addr: url }), url@),
        ({
            let t = status_text(Status::Connected { client, width, height, fps });
            let size = crate::text::decimal(width as nat) + "x"@ + crate::text::decimal(
                height as nat,
            );
            let n = "Connected - "@.len() as int;
            &&& t.subrange(n, n + client@.len()) == client@
            &&& crate::text::ends_with(
                t,
                size + " "@ + crate::text::decimal(fps as nat) + "fps"@,
            )
        }),
{
    crate::text::lemma_put_together("Pair at "@, url@);
    crate::text::lemma_put_together("Ready - "@, url@);
    let t = status_text(Status::Connected { client, width, height, fps });
    let size = crate::text::decimal(width as nat) + "x"@ + crate::text::decimal(height as nat);
    let tail = size + " "@ + crate::text::decimal(fps as nat) + "fps"@;
    let front = "Connected - "@ + client@ + " "@;
    assert(t =~= front + tail);
    crate::text::lemma_put_together(front, tail);
    let n = "Connected - "@.len() as int;
    assert(t.subrange(n, n + client@.len()) =~= client@);
}

} // verus!
