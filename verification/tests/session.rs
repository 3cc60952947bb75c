//! The daemon's life and its sessions.
use rgsp_cast::control::{ControlHandle, PendingEntry};
use rgsp_cast::input::PadState;
use rgsp_cast::session::{
    config_dir, config_path, data_home, first_config, forward_encoder_control,
    normalize_devicename, pending_entries, report, run_dir, serve_next, userdata_dir, Daemon,
    DaemonStep, EncoderControl, HardwareLoop, InputFeed, InputStep, LoopEnd, PollStep, ServeNext,
    PumpAction, ServeStep, SessionContext, SessionPump, Severity, INPUT_REPORT_INTERVAL,
};
use rgsp_cast::video::{VideoConfig, VideoStream};

#[test]
fn roth_placeholder_is_dropped() {
    assert_eq!(normalize_devicename(Some("roth".to_string())), None);
}

#[test]
fn a_real_name_is_kept() {
    assert_eq!(
        normalize_devicename(Some("Steam Deck".to_string())),
        Some("Steam Deck".to_string())
    );
}

#[test]
fn no_name_stays_none() {
    assert_eq!(normalize_devicename(None), None);
}

#[test]
fn pending_clients_keep_their_order_and_lose_the_placeholder() {
    let entry = |id: &str, name: Option<&str>| PendingEntry {
        id: id.to_string(),
        name: name.map(str::to_string),
        address: Some("10.0.0.1".to_string()),
    };
    let shown = pending_entries(&vec![entry("a", Some("roth")), entry("b", Some("phone"))]);
    assert_eq!(shown, vec![entry("a", None), entry("b", Some("phone"))]);
}

#[test]
fn losing_frames_asks_for_a_key_frame_and_resuming_for_a_reset() {
    let v = VideoStream::new(VideoConfig { width: 1, height: 1, fps: 1, bitrate: 1 });
    let asks = |c: EncoderControl| {
        let mut v = VideoStream::new(VideoConfig { width: 1, height: 1, fps: 1, bitrate: 1 });
        let (mut idr, mut reset) = (v.idr_requester(), v.reset_requester());
        forward_encoder_control(c, &mut idr, &mut reset);
        let (mut no_idr, mut no_reset) = (v.idr_requester(), v.reset_requester());
        let by_idr = v.steer(&mut idr, &mut no_reset, 0);
        let by_reset = v.steer(&mut no_idr, &mut reset, 0);
        (by_idr, by_reset)
    };
    let _ = v;
    assert_eq!(asks(EncoderControl::Idr), (true, false));
    assert_eq!(asks(EncoderControl::Invalidate { first: 3, last: 9 }), (true, false));
    assert_eq!(asks(EncoderControl::Reset), (false, true));
}

#[test]
fn input_is_applied_or_counted() {
    let mut feed = InputFeed::new();
    let down = [0x03, 0, 0, 0, 0, 0x5A, 0, 0, 0, 0];
    let mut expected = PadState::default();
    expected.set_key(304, true);
    assert_eq!(feed.on_packet(&down, 0), InputStep::Apply(expected));
    assert_eq!(feed.on_packet(&[6, 0, 0, 0], 0), InputStep::Ignore { report: false });
    assert_eq!(
        feed.on_packet(&[], INPUT_REPORT_INTERVAL),
        InputStep::Ignore { report: true }
    );
    assert_eq!(feed.totals(), (3, 2));
}

#[test]
fn the_end_of_a_loop_is_told_by_how_it_ended() {
    assert_eq!(
        report(HardwareLoop::Video, &LoopEnd::Stopped),
        (Severity::Info, "video capture stopped".to_string())
    );
    assert_eq!(
        report(HardwareLoop::Audio, &LoopEnd::Failed("gone".to_string())),
        (Severity::Warning, "audio capture stopped: gone".to_string())
    );
    assert_eq!(
        report(HardwareLoop::Audio, &LoopEnd::Panicked("oops".to_string())),
        (Severity::Error, "audio capture panicked: oops".to_string())
    );
}

fn context(fps: u32) -> SessionContext {
    SessionContext { width: 1280, height: 720, fps, bitrate: 5_000_000, is_h264: true }
}

#[test]
fn a_session_runs_until_both_loops_are_over() {
    let mut h = ControlHandle::new();
    let mut pump = SessionPump::new();
    assert_eq!(pump.poll(false, false), PollStep::Sleep);
    assert_eq!(pump.poll(false, true), PollStep::FetchContext);
    let start = pump.on_context(Some(context(60)), &mut h).unwrap();
    assert_eq!(
        start.video,
        VideoConfig { width: 1280, height: 720, fps: 60, bitrate: 5_000_000 }
    );
    assert!(!start.fps_clamped && !start.wrong_codec);
    let s = h.snapshot();
    assert!(s.casting);
    assert_eq!(s.client.as_deref(), Some("Moonlight"));

    assert_eq!(pump.on_stopped(HardwareLoop::Audio), HardwareLoop::Video);
    assert!(h.snapshot().casting, "the other loop still runs");
    assert_eq!(pump.on_session_stopped(), HardwareLoop::Video);
    pump.on_joined();
    assert!(pump.on_ended(false, &mut h));
    let s = h.snapshot();
    assert!(!s.casting);
    assert_eq!(s.client, None);

    assert_eq!(pump.poll(true, true), PollStep::Quit, "a shutdown counts first");
}

#[test]
fn a_session_gone_before_it_started_is_waited_past() {
    let mut h = ControlHandle::new();
    let mut pump = SessionPump::new();
    pump.poll(false, true);
    assert_eq!(pump.on_context(None, &mut h), None);
    assert!(!h.snapshot().casting);
    assert_eq!(pump.poll(false, false), PollStep::Sleep);
}

#[test]
fn no_frame_rate_counts_as_one_and_a_wrong_codec_is_noticed() {
    let mut h = ControlHandle::new();
    let mut pump = SessionPump::new();
    pump.poll(false, true);
    let mut c = context(0);
    c.is_h264 = false;
    c.bitrate = (1 << 32) + 7;
    let start = pump.on_context(Some(c), &mut h).unwrap();
    assert_eq!((start.video.fps, start.video.bitrate), (1, 7));
    assert!(start.fps_clamped && start.wrong_codec);
    pump.on_stopped(HardwareLoop::Video);
    pump.on_session_stopped();
    pump.on_joined();
    assert!(!pump.on_ended(true, &mut h), "a shutdown ends the pump");
}

#[test]
fn the_session_is_stopped_before_the_other_loop_is_awaited() {
    for (first, other) in [
        (HardwareLoop::Video, HardwareLoop::Audio),
        (HardwareLoop::Audio, HardwareLoop::Video),
    ] {
        let mut h = ControlHandle::new();
        let mut pump = SessionPump::new();
        let mut actions = vec![pump.action()];
        pump.poll(false, true);
        actions.push(pump.action());
        pump.on_context(Some(context(30)), &mut h);
        actions.push(pump.action());
        pump.on_stopped(first);
        actions.push(pump.action());
        pump.on_session_stopped();
        actions.push(pump.action());
        pump.on_joined();
        actions.push(pump.action());
        pump.on_ended(true, &mut h);
        actions.push(pump.action());
        assert_eq!(
            actions,
            vec![
                PumpAction::Poll,
                PumpAction::FetchContext,
                PumpAction::AwaitEither,
                PumpAction::StopSession,
                PumpAction::Await(other),
                PumpAction::EndTasks,
                PumpAction::Quit,
            ]
        );
    }
}

fn life(fails_at: Option<DaemonStep>) -> Vec<DaemonStep> {
    let mut d = Daemon::new();
    let mut steps = vec![d.current()];
    loop {
        let step = d.on_done(Some(d.current()) != fails_at);
        steps.push(step);
        if matches!(step, DaemonStep::Exit { .. }) {
            return steps;
        }
    }
}

#[test]
fn a_smooth_life_takes_every_step_once() {
    assert_eq!(
        life(None),
        vec![
            DaemonStep::AcquirePid,
            DaemonStep::EngageRouting,
            DaemonStep::LoadConfig,
            DaemonStep::StartRuntime,
            DaemonStep::ServeControl,
            DaemonStep::Serve,
            DaemonStep::StopControl,
            DaemonStep::StopRuntime,
            DaemonStep::ReleaseRouting,
            DaemonStep::ReleasePid,
            DaemonStep::Exit { success: true }
        ]
    );
}

#[test]
fn every_failure_restores_what_was_engaged() {
    for step in [DaemonStep::LoadConfig, DaemonStep::StartRuntime, DaemonStep::ServeControl] {
        let steps = life(Some(step));
        let n = steps.len();
        assert_eq!(
            &steps[n - 3..],
            &[
                DaemonStep::ReleaseRouting,
                DaemonStep::ReleasePid,
                DaemonStep::Exit { success: false }
            ]
        );
    }
    assert_eq!(
        life(Some(DaemonStep::EngageRouting))[2..],
        [DaemonStep::ReleasePid, DaemonStep::Exit { success: false }]
    );
    assert_eq!(
        life(Some(DaemonStep::AcquirePid))[1..],
        [DaemonStep::Exit { success: false }]
    );
    let steps = life(Some(DaemonStep::Serve));
    assert_eq!(steps.len(), 11);
    assert_eq!(steps[10], DaemonStep::Exit { success: false });
}

#[test]
fn serving_has_one_order_and_stops_the_session_before_the_pump() {
    let mut step = ServeStep::Certificate;
    let mut seen = vec![step];
    while let ServeNext::Do(next) = serve_next(step, true) {
        step = next;
        seen.push(step);
    }
    assert_eq!(seen.len(), 14);
    let at = |s: ServeStep| seen.iter().position(|&x| x == s).unwrap();
    assert!(at(ServeStep::EnablePairing) < at(ServeStep::WatchPending));
    assert!(at(ServeStep::AwaitShutdown) < at(ServeStep::StopSession));
    assert!(at(ServeStep::StopSession) < at(ServeStep::AbortPump));
    assert_eq!(
        serve_next(ServeStep::Webserver, false),
        ServeNext::Fail("failed to start the webserver".to_string())
    );
    assert_eq!(
        serve_next(ServeStep::Certificate, false),
        ServeNext::Fail("failed to load or create the TLS certificate".to_string())
    );
    assert_eq!(
        serve_next(ServeStep::SessionManager, false),
        ServeNext::Fail("failed to create the session manager".to_string())
    );
    assert_eq!(
        serve_next(ServeStep::ClientManager, false),
        ServeNext::Fail("failed to create the client manager".to_string())
    );
    assert_eq!(
        serve_next(ServeStep::UniqueId, false),
        ServeNext::Fail("failed to read the server's unique id".to_string())
    );
    // The end of a session that was already over is no failure.
    assert_eq!(serve_next(ServeStep::StopSession, false), ServeNext::Do(ServeStep::AbortPump));
}

#[test]
fn directories_fall_back() {
    assert_eq!(run_dir(None), "/tmp/rgsp");
    assert_eq!(run_dir(Some("/run/x".to_string())), "/run/x");
    assert_eq!(userdata_dir(None), "/mnt/SDCARD/.userdata/h700");
    assert_eq!(config_dir("/u"), "/u/rgsp-cast");
    assert_eq!(config_path(None, "/u/rgsp-cast"), "/u/rgsp-cast/config.toml");
    assert_eq!(config_path(Some("/c".to_string()), "/u"), "/c");
    assert_eq!(data_home(false, "/u"), Some("/u".to_string()));
    assert_eq!(data_home(true, "/u"), None);
    let c = first_config("/u/rgsp-cast");
    assert_eq!(c.name, "RG SP");
    assert_eq!(c.certificate, "/u/rgsp-cast/cert.pem");
    assert_eq!(c.private_key, "/u/rgsp-cast/key.pem");
    assert_eq!(c.application, "RG SP");
}
