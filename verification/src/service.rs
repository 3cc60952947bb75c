//! Starting and stopping the daemon from the interface.
//!
//! The daemon is up when its control socket takes a connection, and only then:
//! it writes its pid file before it serves. The pid file says whom to signal,
//! and the lock on it says whether that process is still the daemon.
use crate::daemon;
use crate::daemon::parse_pid;
use crate::text::{join_path, push_duration, push_signed, quoted};
use vstd::prelude::*;

verus! {

/// How long a start waits for the socket, in nanoseconds.
pub const DEFAULT_START_TIMEOUT: u64 = 5_000_000_000;

/// How long a stop waits for the socket to go, in nanoseconds.
pub const DEFAULT_STOP_TIMEOUT: u64 = 15_000_000_000;

/// How often the socket is tried meanwhile, in nanoseconds.
pub const POLL_INTERVAL: u64 = 20_000_000;

/// The error number of a process that is not there.
pub const ESRCH: i32 = 3;

/// Why the daemon could not be started or stopped.
#[derive(Debug, PartialEq, Eq)]
pub enum ServiceError {
    /// There is no daemon to start.
    BinaryMissing { bin: String },
    /// It may not be executed.
    NotExecutable { bin: String },
    /// The shell that starts it failed.
    LaunchFailed { bin: String, status: String },
    /// It never answered.
    NeverServed { bin: String, socket: String, waited: u64 },
    /// The pid file holds this and no pid.
    BadPid { pidfile: String, contents: String },
    /// The signal could not be sent, which the system describes like this.
    SignalFailed { pid: i32, message: String },
    /// It went on answering.
    NeverStopped { pid: i32, socket: String, waited: u64 },
}

/// What is said of a pid file that holds no pid but what is `quoted`.
pub open spec fn bad_pid(pidfile: Seq<char>, quoted: Seq<char>) -> Seq<char> {
    pidfile + " does not contain a valid pid: "@ + quoted
}

/// What is said of a pid file that holds no pid, given its contents in quotes.
pub fn bad_pid_text(pidfile: &str, quoted: &str) -> (s: String)
    ensures
        s@ == bad_pid(pidfile@, quoted@),
{
    String::from_str(pidfile).concat(" does not contain a valid pid: ").concat(quoted)
}

/// The text of a service error.
pub open spec fn service_error_text(e: ServiceError) -> Seq<char> {
    match e {
        ServiceError::BinaryMissing { bin } => bin@ + " does not exist"@,
        ServiceError::NotExecutable { bin } => bin@ + " is not executable"@,
        ServiceError::LaunchFailed { bin, status } => "failed to launch "@ + bin@
            + ": shell exited with "@ + status@,
        ServiceError::NeverServed { bin, socket, waited } => bin@
            + " did not start accepting connections on "@ + socket@ + " within "@
            + crate::text::duration_text(waited as nat),
        ServiceError::BadPid { pidfile, contents } => bad_pid(
            pidfile@,
            crate::text::debug_form(contents@),
        ),
        ServiceError::SignalFailed { pid, message } => "sending SIGTERM to pid "@
            + crate::text::signed_decimal(pid as int) + ": "@ + message@,
        ServiceError::NeverStopped { pid, socket, waited } => "pid "@
            + crate::text::signed_decimal(pid as int) + " did not stop answering on "@ + socket@
            + " within "@ + crate::text::duration_text(waited as nat),
    }
}

impl ServiceError {
    pub fn to_string(&self) -> (s: String)
        ensures
            s@ == service_error_text(*self),
    {
        match self {
            ServiceError::BinaryMissing { bin } => bin.clone().concat(" does not exist"),
            ServiceError::NotExecutable { bin } => bin.clone().concat(" is not executable"),
            ServiceError::LaunchFailed { bin, status } => {
                let mut s: String = String::from_str("failed to launch ");
                s.append(bin.as_str());
                s.append(": shell exited with ");
                s.append(status.as_str());
                s
            },
            ServiceError::NeverServed { bin, socket, waited } => {
                let mut s: String = bin.clone();
                s.append(" did not start accepting connections on ");
                s.append(socket.as_str());
                s.append(" within ");
                push_duration(&mut s, *waited);
                s
            },
            ServiceError::BadPid { pidfile, contents } => bad_pid_text(
                pidfile.as_str(),
                quoted(contents.as_str()).as_str(),
            ),
            ServiceError::SignalFailed { pid, message } => {
                let mut s: String = String::from_str("sending SIGTERM to pid ");
                push_signed(&mut s, *pid as i64);
                s.append(": ");
                s.append(message.as_str());
                s
            },
            ServiceError::NeverStopped { pid, socket, waited } => {
                let mut s: String = String::from_str("pid ");
                push_signed(&mut s, *pid as i64);
                s.append(" did not stop answering on ");
                s.append(socket.as_str());
                s.append(" within ");
                push_duration(&mut s, *waited);
                s
            },
        }
    }
}

/// A failure that the system reported: its number, and how it describes it.
#[derive(Debug, PartialEq, Eq)]
pub struct SystemError {
    pub errno: i32,
    pub message: String,
}

/// What to do after the socket was tried.
#[derive(Clone, Copy, Debug, PartialEq, Eq, Structural)]
pub enum ProbeStep {
    /// It is as wanted.
    Done,
    /// Try again after `POLL_INTERVAL`.
    Sleep,
}

/// What to do about the process in a pid file.
#[derive(Clone, Copy, Debug, PartialEq, Eq, Structural)]
pub enum StopPlan {
    /// There is no pid file: nothing to stop.
    NotRunning,
    /// The file is stale: its process is not the daemon any more, if it is
    /// there at all. Nobody is signalled; the socket is still waited for.
    Stale { pid: i32 },
    /// Signal this process, and wait for the socket to go.
    Signal { pid: i32 },
}

/// What to do about a pid file with the given contents, where `lock_held` says
/// whether some process holds the file's lock. The daemon holds it as long as
/// it lives, so a file that nobody has locked is a leftover, and the process
/// that has its pid now is an innocent bystander. `None` is a file that holds
/// no pid.
pub open spec fn stop_plan_of(contents: Option<Seq<char>>, lock_held: bool) -> Option<StopPlan> {
    match contents {
        None => Some(StopPlan::NotRunning),
        Some(text) => match daemon::pid_in(text) {
            None => None,
            Some(pid) => if lock_held {
                Some(StopPlan::Signal { pid })
            } else {
                Some(StopPlan::Stale { pid })
            },
        },
    }
}

/// Starts and stops the daemon of a package installed in one directory,
/// through its pid file, socket and log in another.
pub struct Service {
    pak_dir: String,
    run_dir: String,
    start_timeout: u64,
    stop_timeout: u64,
}

impl Service {
    pub closed spec fn pak(self) -> Seq<char> {
        self.pak_dir@
    }

    pub closed spec fn run(self) -> Seq<char> {
        self.run_dir@
    }

    /// How long a start and a stop wait.
    pub closed spec fn patience(self) -> (u64, u64) {
        (self.start_timeout, self.stop_timeout)
    }

    pub open spec fn socket(self) -> Seq<char> {
        crate::text::joined(self.run(), "control.sock"@)
    }

    pub open spec fn pidfile(self) -> Seq<char> {
        crate::text::joined(self.run(), "daemon.pid"@)
    }

    pub open spec fn binary(self) -> Seq<char> {
        crate::text::joined(self.pak(), "rgsp-host"@)
    }

    /// With the usual waits.
    pub fn new(pak_dir: String, run_dir: String) -> (s: Service)
        ensures
            s.pak() == pak_dir@,
            s.run() == run_dir@,
            s.patience() == (DEFAULT_START_TIMEOUT, DEFAULT_STOP_TIMEOUT),
    {
        Service::new_with_timeouts(pak_dir, run_dir, DEFAULT_START_TIMEOUT, DEFAULT_STOP_TIMEOUT)
    }

    /// With other waits, in nanoseconds.
    pub fn new_with_timeouts(
        pak_dir: String,
        run_dir: String,
        start_timeout: u64,
        stop_timeout: u64,
    ) -> (s: Service)
        ensures
            s.pak() == pak_dir@,
            s.run() == run_dir@,
            s.patience() == (start_timeout, stop_timeout),
    {
        Service { pak_dir, run_dir, start_timeout, stop_timeout }
    }

    /// The directory of the pid file, the socket and the log.
    pub fn run_path(&self) -> (p: &str)
        ensures
            p@ == self.run(),
    {
        self.run_dir.as_str()
    }

    pub fn pidfile_path(&self) -> (p: String)
        ensures
            p@ == self.pidfile(),
    {
        join_path(self.run_dir.as_str(), "daemon.pid")
    }

    pub fn socket_path(&self) -> (p: String)
        ensures
            p@ == self.socket(),
    {
        join_path(self.run_dir.as_str(), "control.sock")
    }

    pub fn log_path(&self) -> (p: String)
        ensures
            p@ == crate::text::joined(self.run(), "daemon.log"@),
    {
        join_path(self.run_dir.as_str(), "daemon.log")
    }

    pub fn binary_path(&self) -> (p: String)
        ensures
            p@ == self.binary(),
    {
        join_path(self.pak_dir.as_str(), "rgsp-host")
    }

    /// Looks at the daemon's program before it is launched, so that a broken
    /// installation is told at once and not after a wait.
    pub fn check_binary(&self, exists: bool, executable: bool) -> (r: Result<(), ServiceError>)
        ensures
            match r {
                Ok(_) => exists && executable,
                Err(ServiceError::BinaryMissing { bin }) => !exists && bin@ == self.binary(),
                Err(ServiceError::NotExecutable { bin }) => exists && !executable && bin@
                    == self.binary(),
                Err(_) => false,
            },
    {
        if !exists {
            return Err(ServiceError::BinaryMissing { bin: self.binary_path() });
        }
        if !executable {
            return Err(ServiceError::NotExecutable { bin: self.binary_path() });
        }
        Ok(())
    }

    /// The shell that launches the daemon ended, with success or with the
    /// given status.
    pub fn on_launched(&self, success: bool, status: String) -> (r: Result<(), ServiceError>)
        ensures
            match r {
                Ok(_) => success,
                Err(ServiceError::LaunchFailed { bin, status: st }) => !success && bin@
                    == self.binary() && st == status,
                Err(_) => false,
            },
    {
        if success {
            Ok(())
        } else {
            Err(ServiceError::LaunchFailed { bin: self.binary_path(), status })
        }
    }

    /// When a start that begins now gives up.
    pub fn start_deadline(&self, now: u64) -> (t: u64)
        requires
            now + self.patience().0 <= u64::MAX,
        ensures
            t == now + self.patience().0,
    {
        now + self.start_timeout
    }

    /// When a stop that begins now gives up.
    pub fn stop_deadline(&self, now: u64) -> (t: u64)
        requires
            now + self.patience().1 <= u64::MAX,
        ensures
            t == now + self.patience().1,
    {
        now + self.stop_timeout
    }

    /// The socket was tried at time `now` during a start. An answer counts
    /// even past the deadline.
    pub fn start(&self, answers: bool, now: u64, deadline: u64) -> (r: Result<
        ProbeStep,
        ServiceError,
    >)
        ensures
            match r {
                Ok(ProbeStep::Done) => answers,
                Ok(ProbeStep::Sleep) => !answers && now < deadline,
                Err(ServiceError::NeverServed { bin, socket, waited }) => !answers && now
                    >= deadline && bin@ == self.binary() && socket@ == self.socket() && waited
                    == self.patience().0,
                Err(_) => false,
            },
    {
        if answers {
            return Ok(ProbeStep::Done);
        }
        if now >= deadline {
            return Err(
                ServiceError::NeverServed {
                    bin: self.binary_path(),
                    socket: self.socket_path(),
                    waited: self.start_timeout,
                },
            );
        }
        Ok(ProbeStep::Sleep)
    }

    /// What to do about the pid file, given its contents (`None` where there
    /// is no file) and whether some process holds its lock. A file that holds
    /// no pid is an error: silently ignoring it would leave a live daemon
    /// unsignalled.
    pub fn stop_plan(&self, contents: Option<&str>, lock_held: bool) -> (r: Result<
        StopPlan,
        ServiceError,
    >)
        ensures
            match (
                stop_plan_of(
                    match contents {
                        Some(s) => Some(s@),
                        None => None,
                    },
                    lock_held,
                ),
                r,
            ) {
                (Some(plan), Ok(p)) => p == plan,
                (None, Err(ServiceError::BadPid { pidfile, contents: held })) => pidfile@
                    == self.pidfile() && (contents matches Some(s) && held@ == s@),
                _ => false,
            },
    {
        match contents {
            None => Ok(StopPlan::NotRunning),
            Some(text) => match parse_pid(text) {
                None => Err(
                    ServiceError::BadPid {
                        pidfile: self.pidfile_path(),
                        contents: String::from_str(text),
                    },
                ),
                Some(pid) => {
                    if lock_held {
                        Ok(StopPlan::Signal { pid })
                    } else {
                        Ok(StopPlan::Stale { pid })
                    }
                },
            },
        }
    }

    /// The signal was sent, or failed. A process that is already gone is no
    /// failure: the socket will agree.
    pub fn on_signalled(&self, pid: i32, failure: Option<SystemError>) -> (r: Result<
        (),
        ServiceError,
    >)
        ensures
            match failure {
                Some(e) => if e.errno == ESRCH {
                    r is Ok
                } else {
                    r == Err::<(), ServiceError>(
                        ServiceError::SignalFailed { pid, message: e.message },
                    )
                },
                None => r is Ok,
            },
    {
        match failure {
            Some(e) => {
                if e.errno == ESRCH {
                    Ok(())
                } else {
                    Err(ServiceError::SignalFailed { pid, message: e.message })
                }
            },
            None => Ok(()),
        }
    }

    /// The socket was tried at time `now` during a stop. Silence counts even
    /// past the deadline.
    pub fn stop(&self, pid: i32, answers: bool, now: u64, deadline: u64) -> (r: Result<
        ProbeStep,
        ServiceError,
    >)
        ensures
            match r {
                Ok(ProbeStep::Done) => !answers,
                Ok(ProbeStep::Sleep) => answers && now < deadline,
                Err(ServiceError::NeverStopped { pid: p, socket, waited }) => answers && now
                    >= deadline && p == pid && socket@ == self.socket() && waited
                    == self.patience().1,
                Err(_) => false,
            },
    {
        if !answers {
            return Ok(ProbeStep::Done);
        }
        if now >= deadline {
            return Err(
                ServiceError::NeverStopped {
                    pid,
                    socket: self.socket_path(),
                    waited: self.stop_timeout,
                },
            );
        }
        Ok(ProbeStep::Sleep)
    }
}

/// A step of a start.
#[derive(Clone, Copy, Debug, PartialEq, Eq, Structural)]
pub enum StartStep {
    /// Make the run directory.
    MakeRunDir,
    /// Look at the daemon's program.
    CheckBinary,
    /// Have a shell launch it.
    Launch,
    /// Try the socket.
    Probe { deadline: u64 },
    /// Wait for `POLL_INTERVAL`.
    Sleep { deadline: u64 },
    /// The daemon is up.
    Done,
    /// It is not, and was given up.
    Failed,
}

/// What came of a step of a start.
#[derive(Debug, PartialEq, Eq)]
pub enum StartEvent {
    RunDirMade,
    Checked { exists: bool, executable: bool },
    Launched { success: bool, status: String, now: u64 },
    Probed { answers: bool, now: u64 },
    Slept,
}

/// The step that follows, with so much patience. An event that is not waited
/// for changes nothing.
pub open spec fn start_next(patience: u64, step: StartStep, e: StartEvent) -> StartStep {
    match (step, e) {
        (StartStep::MakeRunDir, StartEvent::RunDirMade) => StartStep::CheckBinary,
        (StartStep::CheckBinary, StartEvent::Checked { exists, executable }) => if exists
            && executable {
            StartStep::Launch
        } else {
            StartStep::Failed
        },
        (StartStep::Launch, StartEvent::Launched { success, status, now }) => if success {
            StartStep::Probe { deadline: (now + patience) as u64 }
        } else {
            StartStep::Failed
        },
        (StartStep::Probe { deadline }, StartEvent::Probed { answers, now }) => if answers {
            StartStep::Done
        } else if now >= deadline {
            StartStep::Failed
        } else {
            StartStep::Sleep { deadline }
        },
        (StartStep::Sleep { deadline }, StartEvent::Slept) => StartStep::Probe { deadline },
        _ => step,
    }
}

/// Why a start is given up at a step.
pub open spec fn is_start_error(
    s: Service,
    step: StartStep,
    e: StartEvent,
    err: ServiceError,
) -> bool {
    match (step, e, err) {
        (
            StartStep::CheckBinary,
            StartEvent::Checked { exists, executable },
            ServiceError::BinaryMissing { bin },
        ) => !exists && bin@ == s.binary(),
        (
            StartStep::CheckBinary,
            StartEvent::Checked { exists, executable },
            ServiceError::NotExecutable { bin },
        ) => exists && !executable && bin@ == s.binary(),
        (
            StartStep::Launch,
            StartEvent::Launched { success, status, now },
            ServiceError::LaunchFailed { bin, status: told },
        ) => !success && bin@ == s.binary() && told == status,
        (
            StartStep::Probe { deadline },
            StartEvent::Probed { answers, now },
            ServiceError::NeverServed { bin, socket, waited },
        ) => !answers && now >= deadline && bin@ == s.binary() && socket@ == s.socket() && waited
            == s.patience().0,
        _ => false,
    }
}

/// A start of the daemon, step by step.
pub struct Start {
    step: StartStep,
}

impl Start {
    /// The step to take now.
    pub closed spec fn due(self) -> StartStep {
        self.step
    }

    /// A start that has done nothing yet.
    pub fn new() -> (s: Self)
        ensures
            s.due() == StartStep::MakeRunDir,
    {
        Start { step: StartStep::MakeRunDir }
    }

    /// The step to take now.
    pub fn current(&self) -> (step: StartStep)
        ensures
            step == self.due(),
    {
        self.step
    }

    /// A step was taken. Returns the next one, or why the start is given up.
    pub fn on_done(&mut self, service: &Service, e: StartEvent) -> (r: Result<
        StartStep,
        ServiceError,
    >)
        requires
            e matches StartEvent::Launched { success, status, now } ==> now + service.patience().0
                <= u64::MAX,
        ensures
            final(self).due() == start_next(service.patience().0, old(self).due(), e),
            match r {
                Ok(step) => step == final(self).due() && (step is Failed ==> old(
                    self,
                ).due() is Failed),
                Err(err) => final(self).due() is Failed && is_start_error(
                    *service,
                    old(self).due(),
                    e,
                    err,
                ),
            },
    {
        let step: StartStep = self.step;
        let next: Result<StartStep, ServiceError> = match (step, e) {
            (StartStep::MakeRunDir, StartEvent::RunDirMade) => Ok(StartStep::CheckBinary),
            (StartStep::CheckBinary, StartEvent::Checked { exists, executable }) => {
                match service.check_binary(exists, executable) {
                    Ok(_) => Ok(StartStep::Launch),
                    Err(err) => Err(err),
                }
            },
            (StartStep::Launch, StartEvent::Launched { success, status, now }) => {
                match service.on_launched(success, status) {
                    Ok(_) => Ok(StartStep::Probe { deadline: service.start_deadline(now) }),
                    Err(err) => Err(err),
                }
            },
            (StartStep::Probe { deadline }, StartEvent::Probed { answers, now }) => {
                match service.start(answers, now, deadline) {
                    Ok(ProbeStep::Done) => Ok(StartStep::Done),
                    Ok(ProbeStep::Sleep) => Ok(StartStep::Sleep { deadline }),
                    Err(err) => Err(err),
                }
            },
            (StartStep::Sleep { deadline }, StartEvent::Slept) => Ok(
                StartStep::Probe { deadline },
            ),
            _ => Ok(step),
        };
        self.step = match &next {
            Ok(step) => *step,
            Err(_) => StartStep::Failed,
        };
        next
    }
}

/// A step of a stop.
#[derive(Clone, Copy, Debug, PartialEq, Eq, Structural)]
pub enum StopStep {
    /// Read the pid file, and see whether its lock is held.
    ReadPid,
    /// Ask this process to end.
    Signal { pid: i32 },
    /// Try the socket.
    Probe { pid: i32, deadline: u64 },
    /// Wait for `POLL_INTERVAL`.
    Sleep { pid: i32, deadline: u64 },
    /// The daemon is down.
    Done,
    /// It is not, and was given up.
    Failed,
}

/// What came of a step of a stop.
#[derive(Debug, PartialEq, Eq)]
pub enum StopEvent {
    Read { contents: Option<String>, lock_held: bool, now: u64 },
    Signalled { failure: Option<SystemError>, now: u64 },
    Probed { answers: bool, now: u64 },
    Slept,
}

/// What is planned about a pid file with these contents.
pub open spec fn planned(contents: Option<String>, lock_held: bool) -> Option<StopPlan> {
    stop_plan_of(
        match contents {
            Some(s) => Some(s@),
            None => None,
        },
        lock_held,
    )
}

/// The signal counts as sent: it was, or there is nobody left to take it.
pub open spec fn counts_as_sent(failure: Option<SystemError>) -> bool {
    failure matches Some(e) ==> e.errno == ESRCH
}

/// The step that follows, with so much patience. An event that is not waited
/// for changes nothing.
pub open spec fn stop_next(patience: u64, step: StopStep, e: StopEvent) -> StopStep {
    match (step, e) {
        (StopStep::ReadPid, StopEvent::Read { contents, lock_held, now }) => match planned(
            contents,
            lock_held,
        ) {
            None => StopStep::Failed,
            Some(StopPlan::NotRunning) => StopStep::Done,
            Some(StopPlan::Stale { pid }) => StopStep::Probe {
                pid,
                deadline: (now + patience) as u64,
            },
            Some(StopPlan::Signal { pid }) => StopStep::Signal { pid },
        },
        (StopStep::Signal { pid }, StopEvent::Signalled { failure, now }) => if counts_as_sent(
            failure,
        ) {
            StopStep::Probe { pid, deadline: (now + patience) as u64 }
        } else {
            StopStep::Failed
        },
        (StopStep::Probe { pid, deadline }, StopEvent::Probed { answers, now }) => if !answers {
            StopStep::Done
        } else if now >= deadline {
            StopStep::Failed
        } else {
            StopStep::Sleep { pid, deadline }
        },
        (StopStep::Sleep { pid, deadline }, StopEvent::Slept) => StopStep::Probe { pid, deadline },
        _ => step,
    }
}

/// Why a stop is given up at a step.
pub open spec fn is_stop_error(
    s: Service,
    step: StopStep,
    e: StopEvent,
    err: ServiceError,
) -> bool {
    match (step, e, err) {
        (
            StopStep::ReadPid,
            StopEvent::Read { contents, lock_held, now },
            ServiceError::BadPid { pidfile, contents: held },
        ) => planned(contents, lock_held) is None && pidfile@ == s.pidfile() && (
        contents matches Some(text) && held@ == text@),
        (
            StopStep::Signal { pid },
            StopEvent::Signalled { failure, now },
            ServiceError::SignalFailed { pid: p, message },
        ) => p == pid && (failure matches Some(f) && f.errno != ESRCH && message == f.message),
        (
            StopStep::Probe { pid, deadline },
            StopEvent::Probed { answers, now },
            ServiceError::NeverStopped { pid: p, socket, waited },
        ) => answers && now >= deadline && p == pid && socket@ == s.socket() && waited
            == s.patience().1,
        _ => false,
    }
}

/// A stop of the daemon, step by step.
pub struct Stop {
    step: StopStep,
}

impl Stop {
    /// The step to take now.
    pub closed spec fn due(self) -> StopStep {
        self.step
    }

    /// A stop that has done nothing yet.
    pub fn new() -> (s: Self)
        ensures
            s.due() == StopStep::ReadPid,
    {
        Stop { step: StopStep::ReadPid }
    }

    /// The step to take now.
    pub fn current(&self) -> (step: StopStep)
        ensures
            step == self.due(),
    {
        self.step
    }

    /// A step was taken. Returns the next one, or why the stop is given up.
    pub fn on_done(&mut self, service: &Service, e: StopEvent) -> (r: Result<
        StopStep,
        ServiceError,
    >)
        requires
            e matches StopEvent::Read { contents, lock_held, now } ==> now + service.patience().1
                <= u64::MAX,
            e matches StopEvent::Signalled { failure, now } ==> now + service.patience().1
                <= u64::MAX,
        ensures
            final(self).due() == stop_next(service.patience().1, old(self).due(), e),
            match r {
                Ok(step) => step == final(self).due() && (step is Failed ==> old(
                    self,
                ).due() is Failed),
                Err(err) => final(self).due() is Failed && is_stop_error(
                    *service,
                    old(self).due(),
                    e,
                    err,
                ),
            },
    {
        let step: StopStep = self.step;
        let next: Result<StopStep, ServiceError> = match (step, e) {
            (StopStep::ReadPid, StopEvent::Read { contents, lock_held, now }) => {
                let text: Option<&str> = match &contents {
                    Some(s) => Some(s.as_str()),
                    None => None,
                };
                match service.stop_plan(text, lock_held) {
                    Ok(StopPlan::NotRunning) => Ok(StopStep::Done),
                    Ok(StopPlan::Stale { pid }) => Ok(
                        StopStep::Probe { pid, deadline: service.stop_deadline(now) },
                    ),
                    Ok(StopPlan::Signal { pid }) => Ok(StopStep::Signal { pid }),
                    Err(err) => Err(err),
                }
            },
            (StopStep::Signal { pid }, StopEvent::Signalled { failure, now }) => {
                match service.on_signalled(pid, failure) {
                    Ok(_) => Ok(StopStep::Probe { pid, deadline: service.stop_deadline(now) }),
                    Err(err) => Err(err),
                }
            },
            (StopStep::Probe { pid, deadline }, StopEvent::Probed { answers, now }) => {
                match service.stop(pid, answers, now, deadline) {
                    Ok(ProbeStep::Done) => Ok(StopStep::Done),
                    Ok(ProbeStep::Sleep) => Ok(StopStep::Sleep { pid, deadline }),
                    Err(err) => Err(err),
                }
            },
            (StopStep::Sleep { pid, deadline }, StopEvent::Slept) => Ok(
                StopStep::Probe { pid, deadline },
            ),
            _ => Ok(step),
        };
        self.step = match &next {
            Ok(step) => *step,
            Err(_) => StopStep::Failed,
        };
        next
    }
}

/// Where a start stands after these events, from its beginning.
pub open spec fn started(patience: u64, events: Seq<StartEvent>) -> StartStep
    decreases events.len(),
{
    if events.len() == 0 {
        StartStep::MakeRunDir
    } else {
        start_next(patience, started(patience, events.drop_last()), events.last())
    }
}

/// Where a stop stands after these events, from its beginning.
pub open spec fn stopped(patience: u64, events: Seq<StopEvent>) -> StopStep
    decreases events.len(),
{
    if events.len() == 0 {
        StopStep::ReadPid
    } else {
        stop_next(patience, stopped(patience, events.drop_last()), events.last())
    }
}

/// The program was found in order.
pub open spec fn found_in_order(e: StartEvent) -> bool {
    e matches StartEvent::Checked { exists, executable } && exists && executable
}

/// The program was launched.
pub open spec fn was_launched(e: StartEvent) -> bool {
    e matches StartEvent::Launched { success, status, now } && success
}

proof fn lemma_launch_was_checked(patience: u64, events: Seq<StartEvent>)
    requires
        started(patience, events) is Launch,
    ensures
        exists|i: int| 0 <= i < events.len() && found_in_order(#[trigger] events[i]),
    decreases events.len(),
{
    let head = events.drop_last();
    if started(patience, head) is Launch {
        lemma_launch_was_checked(patience, head);
        let i = choose|i: int| 0 <= i < head.len() && found_in_order(#[trigger] head[i]);
        assert(found_in_order(events[i]));
    } else {
        assert(found_in_order(events[events.len() - 1]));
    }
}

/// The socket is tried, and the daemon counted as up, only after its program
/// was found in order and then launched.
pub proof fn law_only_a_launched_daemon_is_waited_for(patience: u64, events: Seq<StartEvent>)
    requires
        ({
            let step = started(patience, events);
            step is Probe || step is Sleep || step is Done
        }),
    ensures
        exists|i: int, j: int|
            0 <= i < j < events.len() && found_in_order(#[trigger] events[i]) && was_launched(
                #[trigger] events[j],
            ),
    decreases events.len(),
{
    let head = events.drop_last();
    let before = started(patience, head);
    if before is Launch {
        lemma_launch_was_checked(patience, head);
        let i = choose|i: int| 0 <= i < head.len() && found_in_order(#[trigger] head[i]);
        assert(found_in_order(events[i]));
        assert(was_launched(events[events.len() - 1]));
    } else {
        law_only_a_launched_daemon_is_waited_for(patience, head);
        let (i, j) = choose|i: int, j: int|
            0 <= i < j < head.len() && found_in_order(#[trigger] head[i]) && was_launched(
                #[trigger] head[j],
            );
        assert(found_in_order(events[i]));
        assert(was_launched(events[j]));
    }
}

/// A program that is missing or may not be executed is told at once: the start
/// is given up right there, whatever would have come after.
pub proof fn law_a_broken_installation_is_never_waited_for(
    patience: u64,
    before: Seq<StartEvent>,
    checked: StartEvent,
    after: Seq<StartEvent>,
)
    requires
        started(patience, before) is CheckBinary,
        checked is Checked,
        !found_in_order(checked),
    ensures
        started(patience, before.push(checked) + after) is Failed,
    decreases after.len(),
{
    let events = before.push(checked) + after;
    if after.len() == 0 {
        assert(events.drop_last() =~= before);
    } else {
        assert(events.drop_last() =~= before.push(checked) + after.drop_last());
        law_a_broken_installation_is_never_waited_for(
            patience,
            before,
            checked,
            after.drop_last(),
        );
    }
}

/// The pid file was read, and this is planned about it.
pub open spec fn read_as(e: StopEvent, plan: StopPlan) -> bool {
    e matches StopEvent::Read { contents, lock_held, now } && planned(contents, lock_held) == Some(
        plan,
    )
}

/// The signal was sent, or nobody was left to take it.
pub open spec fn was_signalled(e: StopEvent) -> bool {
    e matches StopEvent::Signalled { failure, now } && counts_as_sent(failure)
}

/// A process is signalled only after the pid file was read and names it, with
/// its lock held.
pub proof fn law_a_signal_follows_the_plan(patience: u64, events: Seq<StopEvent>, pid: i32)
    requires
        stopped(patience, events) == (StopStep::Signal { pid }),
    ensures
        exists|i: int|
            0 <= i < events.len() && read_as(#[trigger] events[i], StopPlan::Signal { pid }),
    decreases events.len(),
{
    let head = events.drop_last();
    if stopped(patience, head) == (StopStep::Signal { pid }) {
        law_a_signal_follows_the_plan(patience, head, pid);
        let i = choose|i: int|
            0 <= i < head.len() && read_as(#[trigger] head[i], StopPlan::Signal { pid });
        assert(read_as(events[i], StopPlan::Signal { pid }));
    } else {
        assert(read_as(events[events.len() - 1], StopPlan::Signal { pid }));
    }
}

/// A stop waits for the socket of a process only after the pid file was read
/// and names it, and, unless that file is stale, after the process was
/// signalled.
pub proof fn law_a_stop_signals_before_it_waits(
    patience: u64,
    events: Seq<StopEvent>,
    pid: i32,
    deadline: u64,
)
    requires
        ({
            let step = stopped(patience, events);
            step == (StopStep::Probe { pid, deadline }) || step == (StopStep::Sleep {
                pid,
                deadline,
            })
        }),
    ensures
        (exists|i: int|
            0 <= i < events.len() && read_as(#[trigger] events[i], StopPlan::Stale { pid })) || (
        exists|i: int, j: int|
            0 <= i < j < events.len() && read_as(#[trigger] events[i], StopPlan::Signal { pid })
                && was_signalled(#[trigger] events[j])),
    decreases events.len(),
{
    let head = events.drop_last();
    let last = events.len() - 1;
    let before = stopped(patience, head);
    if before is ReadPid {
        assert(read_as(events[last], StopPlan::Stale { pid }));
    } else if before is Signal {
        law_a_signal_follows_the_plan(patience, head, pid);
        let i = choose|i: int|
            0 <= i < head.len() && read_as(#[trigger] head[i], StopPlan::Signal { pid });
        assert(read_as(events[i], StopPlan::Signal { pid }));
        assert(was_signalled(events[last]));
    } else {
        law_a_stop_signals_before_it_waits(patience, head, pid, deadline);
        if exists|i: int|
            0 <= i < head.len() && read_as(#[trigger] head[i], StopPlan::Stale { pid }) {
            let i = choose|i: int|
                0 <= i < head.len() && read_as(#[trigger] head[i], StopPlan::Stale { pid });
            assert(read_as(events[i], StopPlan::Stale { pid }));
        } else {
            let (i, j) = choose|i: int, j: int|
                0 <= i < j < head.len() && read_as(#[trigger] head[i], StopPlan::Signal { pid })
                    && was_signalled(#[trigger] head[j]);
            assert(read_as(events[i], StopPlan::Signal { pid }));
            assert(was_signalled(events[j]));
        }
    }
}

/// Only the daemon is ever signalled: the pid comes from the pid file, and
/// some process holds that file's lock.
pub proof fn law_only_a_confirmed_daemon_is_signalled(
    contents: Option<Seq<char>>,
    lock_held: bool,
    pid: i32,
)
    requires
        stop_plan_of(contents, lock_held) == Some(StopPlan::Signal { pid }),
    ensures
        lock_held,
        contents matches Some(text) && daemon::pid_in(text) == Some(pid),
{
}

/// A daemon that wrote its pid and holds the lock is the one that is
/// signalled.
pub proof fn law_a_running_daemon_is_signalled(pid: u32)
    requires
        pid <= i32::MAX,
    ensures
        stop_plan_of(Some(crate::text::decimal(pid as nat)), true) == Some(
            StopPlan::Signal { pid: pid as i32 },
        ),
{
    daemon::law_a_pid_reads_back(pid);
}

/// A start waits as long as its patience, from when the daemon was launched: an
/// answer counts at any time, silence is waited through until then, and given
/// up from then on.
pub proof fn law_a_start_waits_as_long_as_its_patience(
    patience: u64,
    status: String,
    launched: u64,
    now: u64,
)
    requires
        launched + patience <= u64::MAX,
    ensures
        ({
            let probe = start_next(
                patience,
                StartStep::Launch,
                StartEvent::Launched { success: true, status, now: launched },
            );
            let silent = start_next(
                patience,
                probe,
                StartEvent::Probed { answers: false, now },
            );
            &&& start_next(patience, probe, StartEvent::Probed { answers: true, now }) is Done
            &&& now - launched < patience ==> start_next(patience, silent, StartEvent::Slept)
                == probe
            &&& now - launched >= patience ==> silent is Failed
        }),
{
}

/// A stop waits as long as its patience, from when the daemon was signalled:
/// silence counts at any time, an answer is waited through until then, and given
/// up from then on. A process that is gone counts as signalled; any other
/// failure to signal it ends the stop.
pub proof fn law_a_stop_waits_as_long_as_its_patience(
    patience: u64,
    pid: i32,
    failure: Option<SystemError>,
    signalled: u64,
    now: u64,
)
    requires
        signalled + patience <= u64::MAX,
    ensures
        ({
            let probe = stop_next(
                patience,
                StopStep::Signal { pid },
                StopEvent::Signalled { failure, now: signalled },
            );
            let up = stop_next(patience, probe, StopEvent::Probed { answers: true, now });
            let sent = failure matches Some(e) ==> e.errno == 3;
            &&& !sent ==> probe is Failed
            &&& sent ==> {
                &&& stop_next(patience, probe, StopEvent::Probed { answers: false, now }) is Done
                &&& now - signalled < patience ==> stop_next(patience, up, StopEvent::Slept)
                    == probe
                &&& now - signalled >= patience ==> up is Failed
            }
        }),
{
}

/// What a pid file leads to: without one the daemon is down already, one that
/// names no pid is an error, and one that does is signalled exactly where its
/// lock is held.
pub proof fn law_a_pid_file_decides_a_stop(text: Seq<char>, lock_held: bool)
    ensures
        stop_plan_of(None, lock_held) == Some(StopPlan::NotRunning),
        daemon::pid_in(text) is None <==> stop_plan_of(Some(text), lock_held) is None,
        daemon::pid_in(text) matches Some(pid) ==> {
            &&& lock_held ==> stop_plan_of(Some(text), lock_held) == Some(StopPlan::Signal { pid })
            &&& !lock_held ==> stop_plan_of(Some(text), lock_held) == Some(StopPlan::Stale { pid })
        },
{
}

/// An error says what it is about: the program, or the pid file, that it begins
/// with, and at its end how long was waited, what the file held, or how the
/// system describes the failure.
pub proof fn law_an_error_says_what_it_is_about(
    bin: String,
    socket: String,
    status: String,
    waited: u64,
    pid: i32,
)
    ensures
        crate::text::begins_with(
            service_error_text(ServiceError::BinaryMissing { bin }),
            bin@,
        ),
        crate::text::begins_with(
            service_error_text(ServiceError::NotExecutable { bin }),
            bin@,
        ),
        crate::text::ends_with(
            service_error_text(ServiceError::LaunchFailed { bin, status }),
            status@,
        ),
        ({
            let t = service_error_text(ServiceError::NeverServed { bin, socket, waited });
            crate::text::begins_with(t, bin@) && crate::text::ends_with(
                t,
                crate::text::duration_text(waited as nat),
            )
        }),
        ({
            let t = service_error_text(ServiceError::BadPid { pidfile: bin, contents: status });
            crate::text::begins_with(t, bin@) && crate::text::ends_with(
                t,
                crate::text::debug_form(status@),
            )
        }),
        crate::text::ends_with(
            service_error_text(ServiceError::SignalFailed { pid, message: status }),
            status@,
        ),
        crate::text::ends_with(
            service_error_text(ServiceError::NeverStopped { pid, socket, waited }),
            crate::text::duration_text(waited as nat),
        ),
{
    let d = crate::text::duration_text(waited as nat);
    crate::text::lemma_put_together(bin@, " does not exist"@);
    crate::text::lemma_put_together(bin@, " is not executable"@);
    let launch = "failed to launch "@ + bin@ + ": shell exited with "@;
    crate::text::lemma_put_together(launch, status@);
    let served = bin@ + " did not start accepting connections on "@ + socket@ + " within "@;
    crate::text::lemma_put_together(served, d);
    assert((served + d).take(bin@.len() as int) =~= bin@);
    let bad = bin@ + " does not contain a valid pid: "@;
    crate::text::lemma_put_together(bad, crate::text::debug_form(status@));
    assert((bad + crate::text::debug_form(status@)).take(bin@.len() as int) =~= bin@);
    let number = crate::text::signed_decimal(pid as int);
    let signal = "sending SIGTERM to pid "@ + number + ": "@;
    crate::text::lemma_put_together(signal, status@);
    let stopped = "pid "@ + number + " did not stop answering on "@ + socket@ + " within "@;
    crate::text::lemma_put_together(stopped, d);
}

} // verus!
