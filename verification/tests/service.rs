//! Starting and stopping the daemon.
use rgsp_cast::service::{
    bad_pid_text, ProbeStep, Service, ServiceError, Start, StartEvent, StartStep, Stop, StopEvent,
    StopPlan, StopStep, SystemError, DEFAULT_START_TIMEOUT, DEFAULT_STOP_TIMEOUT, ESRCH,
};

const MS: u64 = 1_000_000;

fn service() -> Service {
    Service::new_with_timeouts("/pak".to_string(), "/run".to_string(), 500 * MS, 300 * MS)
}

#[test]
fn start_fails_when_the_daemon_never_serves() {
    // A daemon that wrote its pid file but never answers is not up.
    let s = service();
    s.check_binary(true, true).unwrap();
    s.on_launched(true, "exit status: 0".to_string()).unwrap();
    let deadline = s.start_deadline(1_000);
    assert_eq!(s.start(false, 1_000, deadline), Ok(ProbeStep::Sleep));
    let e = s.start(false, deadline, deadline).unwrap_err();
    assert_eq!(
        e.to_string(),
        "/pak/rgsp-host did not start accepting connections on /run/control.sock within 500ms"
    );
}

#[test]
fn start_succeeds_once_the_daemon_binds_the_socket() {
    let s = service();
    let deadline = s.start_deadline(0);
    assert_eq!(s.start(false, 0, deadline), Ok(ProbeStep::Sleep));
    assert_eq!(s.start(true, 20 * MS, deadline), Ok(ProbeStep::Done));
    assert_eq!(s.start(true, deadline + 1, deadline), Ok(ProbeStep::Done));
}

#[test]
fn start_fails_fast_when_the_binary_is_missing() {
    let e = service().check_binary(false, false).unwrap_err();
    let message = e.to_string();
    assert!(
        message.contains("does not exist"),
        "a missing binary's error should say so, not read like a stuck daemon: {message:?}"
    );
    assert!(
        !message.contains("did not start accepting connections"),
        "a missing binary must not be reported as the generic accept-timeout: {message:?}"
    );
}

#[test]
fn start_fails_fast_when_the_binary_is_not_executable() {
    let e = service().check_binary(true, false).unwrap_err();
    let message = e.to_string();
    assert!(
        message.contains("not executable"),
        "a non-executable binary's error should say so, not read like a stuck daemon: {message:?}"
    );
    assert!(
        !message.contains("did not start accepting connections"),
        "a non-executable binary must not be reported as the generic accept-timeout: {message:?}"
    );
}

#[test]
fn a_failed_launch_names_the_status() {
    let e = service().on_launched(false, "exit status: 127".to_string()).unwrap_err();
    assert_eq!(
        e.to_string(),
        "failed to launch /pak/rgsp-host: shell exited with exit status: 127"
    );
}

#[test]
fn stop_signals_the_pid_from_the_pidfile() {
    let s = service();
    assert_eq!(s.stop_plan(Some("4242\n"), true), Ok(StopPlan::Signal { pid: 4242 }));
    s.on_signalled(4242, None).unwrap();
    assert_eq!(s.stop(4242, false, 0, s.stop_deadline(0)), Ok(ProbeStep::Done));
}

#[test]
fn stop_times_out_against_a_daemon_that_ignores_sigterm() {
    let s = service();
    let deadline = s.stop_deadline(0);
    assert_eq!(s.stop(7, true, 0, deadline), Ok(ProbeStep::Sleep));
    let e = s.stop(7, true, deadline, deadline).unwrap_err();
    assert_eq!(e.to_string(), "pid 7 did not stop answering on /run/control.sock within 300ms");
}

#[test]
fn stop_is_a_no_op_when_there_is_no_pidfile() {
    assert_eq!(service().stop_plan(None, false), Ok(StopPlan::NotRunning));
}

#[test]
fn stop_fails_on_a_malformed_pidfile() {
    let e = service().stop_plan(Some("not-a-pid"), false).unwrap_err();
    assert_eq!(
        e,
        ServiceError::BadPid {
            pidfile: "/run/daemon.pid".to_string(),
            contents: "not-a-pid".to_string()
        }
    );
    assert_eq!(e.to_string(), "/run/daemon.pid does not contain a valid pid: \"not-a-pid\"");
    assert!(service().stop_plan(Some("not-a-pid"), true).is_err());
}

#[test]
fn stop_succeeds_on_a_stale_pidfile_whose_process_is_gone() {
    let s = service();
    assert_eq!(s.stop_plan(Some("999999"), false), Ok(StopPlan::Stale { pid: 999999 }));
    assert_eq!(s.stop(999999, false, 0, 1), Ok(ProbeStep::Done));
    // And where the process went away between the look and the signal.
    let failure = |errno: i32, message: &str| SystemError { errno, message: message.to_string() };
    s.on_signalled(999999, Some(failure(ESRCH, "No such process"))).unwrap();
    let e = s.on_signalled(999999, Some(failure(1, "Operation not permitted"))).unwrap_err();
    assert_eq!(e.to_string(), "sending SIGTERM to pid 999999: Operation not permitted");
}

#[test]
fn stop_does_not_signal_a_live_pid_the_pidfile_lock_does_not_confirm() {
    // The pid is alive, but nobody holds the file's lock: a bystander.
    let plan = service().stop_plan(Some("4242"), false).unwrap();
    assert!(!matches!(plan, StopPlan::Signal { .. }));
}

#[test]
fn paths_lie_in_their_directories() {
    let s = Service::new("/pak/".to_string(), "run".to_string());
    assert_eq!(s.binary_path(), "/pak/rgsp-host");
    assert_eq!(s.pidfile_path(), "run/daemon.pid");
    assert_eq!(s.socket_path(), "run/control.sock");
    assert_eq!(s.log_path(), "run/daemon.log");
    assert_eq!(s.run_path(), "run");
    assert_eq!(s.start_deadline(1), 1 + DEFAULT_START_TIMEOUT);
    assert_eq!(s.stop_deadline(1), 1 + DEFAULT_STOP_TIMEOUT);
}

#[test]
fn what_a_pid_file_holds_is_quoted_and_escaped() {
    let e = service().stop_plan(Some("a\"b\n\u{7}é"), true).unwrap_err();
    assert_eq!(
        e.to_string(),
        "/run/daemon.pid does not contain a valid pid: \"a\\\"b\\n\\u{7}é\""
    );
    assert_eq!(bad_pid_text("/p", "\"x\""), "/p does not contain a valid pid: \"x\"");
}

/// A start up to the look at the program.
fn asked() -> Start {
    let mut start = Start::new();
    assert_eq!(start.current(), StartStep::MakeRunDir);
    let next = start.on_done(&service(), StartEvent::RunDirMade);
    assert_eq!(next, Ok(StartStep::CheckBinary));
    start
}

fn launched(success: bool) -> StartEvent {
    StartEvent::Launched { success, status: "exit status: 1".to_string(), now: 100 }
}

#[test]
fn a_start_goes_from_step_to_step() {
    let s = service();
    let deadline = 100 + 500 * MS;
    let mut start = asked();
    let found = StartEvent::Checked { exists: true, executable: true };
    assert_eq!(start.on_done(&s, found), Ok(StartStep::Launch));
    assert_eq!(start.on_done(&s, launched(true)), Ok(StartStep::Probe { deadline }));
    let silent = |now: u64| StartEvent::Probed { answers: false, now };
    assert_eq!(start.on_done(&s, silent(200)), Ok(StartStep::Sleep { deadline }));
    assert_eq!(start.on_done(&s, silent(300)), Ok(StartStep::Sleep { deadline }), "not due");
    assert_eq!(start.on_done(&s, StartEvent::Slept), Ok(StartStep::Probe { deadline }));
    let up = StartEvent::Probed { answers: true, now: deadline + 1 };
    assert_eq!(start.on_done(&s, up), Ok(StartStep::Done));
    assert_eq!(start.current(), StartStep::Done);
}

#[test]
fn a_broken_installation_is_told_without_a_launch() {
    let s = service();
    for (exists, executable, text) in [
        (false, false, "/pak/rgsp-host does not exist"),
        (true, false, "/pak/rgsp-host is not executable"),
    ] {
        let mut start = asked();
        let e = start.on_done(&s, StartEvent::Checked { exists, executable }).unwrap_err();
        assert_eq!(e.to_string(), text);
        assert_eq!(start.current(), StartStep::Failed);
        assert_eq!(start.on_done(&s, launched(true)), Ok(StartStep::Failed));
    }
}

#[test]
fn a_start_is_given_up_at_a_failed_launch_or_at_the_deadline() {
    let s = service();
    let checked = || {
        let mut start = asked();
        start.on_done(&s, StartEvent::Checked { exists: true, executable: true }).unwrap();
        start
    };
    let e = checked().on_done(&s, launched(false)).unwrap_err();
    assert_eq!(
        e.to_string(),
        "failed to launch /pak/rgsp-host: shell exited with exit status: 1"
    );
    let mut start = checked();
    start.on_done(&s, launched(true)).unwrap();
    let late = StartEvent::Probed { answers: false, now: 100 + 500 * MS };
    let e = start.on_done(&s, late).unwrap_err();
    assert!(matches!(e, ServiceError::NeverServed { .. }));
    assert_eq!(start.current(), StartStep::Failed);
}

fn read(contents: Option<&str>, lock_held: bool) -> StopEvent {
    StopEvent::Read { contents: contents.map(str::to_string), lock_held, now: 100 }
}

#[test]
fn a_stop_goes_from_step_to_step() {
    let s = service();
    let deadline = 100 + 300 * MS;
    let mut stop = Stop::new();
    assert_eq!(stop.current(), StopStep::ReadPid);
    assert_eq!(stop.on_done(&s, read(Some("42"), true)), Ok(StopStep::Signal { pid: 42 }));
    let sent = StopEvent::Signalled { failure: None, now: 100 };
    assert_eq!(stop.on_done(&s, sent), Ok(StopStep::Probe { pid: 42, deadline }));
    let up = StopEvent::Probed { answers: true, now: 200 };
    assert_eq!(stop.on_done(&s, up), Ok(StopStep::Sleep { pid: 42, deadline }));
    assert_eq!(stop.on_done(&s, StopEvent::Slept), Ok(StopStep::Probe { pid: 42, deadline }));
    let down = StopEvent::Probed { answers: false, now: deadline };
    assert_eq!(stop.on_done(&s, down), Ok(StopStep::Done));
}

#[test]
fn a_stop_without_anyone_to_signal_sends_nothing() {
    let s = service();
    assert_eq!(Stop::new().on_done(&s, read(None, false)), Ok(StopStep::Done));
    assert_eq!(
        Stop::new().on_done(&s, read(Some("42"), false)),
        Ok(StopStep::Probe { pid: 42, deadline: 100 + 300 * MS })
    );
}

#[test]
fn a_stop_is_given_up_where_its_parts_are() {
    let s = service();
    let mut stop = Stop::new();
    let e = stop.on_done(&s, read(Some("x"), true)).unwrap_err();
    assert!(matches!(e, ServiceError::BadPid { .. }));
    assert_eq!(stop.current(), StopStep::Failed);

    let signalled = |errno: i32| {
        let mut stop = Stop::new();
        stop.on_done(&s, read(Some("42"), true)).unwrap();
        let failure = Some(SystemError { errno, message: "no".to_string() });
        stop.on_done(&s, StopEvent::Signalled { failure, now: 100 })
    };
    assert_eq!(
        signalled(1),
        Err(ServiceError::SignalFailed { pid: 42, message: "no".to_string() })
    );
    assert_eq!(
        signalled(ESRCH),
        Ok(StopStep::Probe { pid: 42, deadline: 100 + 300 * MS })
    );

    let mut stop = Stop::new();
    stop.on_done(&s, read(Some("42"), false)).unwrap();
    let e = stop.on_done(&s, StopEvent::Probed { answers: true, now: u64::MAX }).unwrap_err();
    assert!(matches!(e, ServiceError::NeverStopped { pid: 42, .. }));
}
