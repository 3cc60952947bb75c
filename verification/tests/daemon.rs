//! The pid file.
use rgsp_cast::daemon::{parse_pid, pid_text, PidFile};

#[test]
fn second_acquire_fails_while_first_is_held() {
    let path = "/run/daemon.pid".to_string();
    let first = PidFile::acquire(path.clone(), None, false)
        .expect("first acquire works");
    let contents = pid_text(4242);

    assert_eq!(PidFile::holder(Some(&contents)), Some(4242));
    let second = PidFile::acquire(path.clone(), Some(&contents), true);
    let e = second.unwrap_err();
    assert_eq!(e.pid, 4242);
    assert_eq!(e.to_string(), "rgsp-host already running as pid 4242");

    assert_eq!(first.release(), path);
    // Once released, the slot is free again.
    PidFile::acquire(path, None, false).expect("acquire after release works");
}

#[test]
fn stale_pidfile_is_reclaimed() {
    // PID 999999 is above the default pid_max and cannot be running.
    assert_eq!(PidFile::holder(Some("999999")), Some(999999));
    PidFile::acquire("/run/stale.pid".to_string(), Some("999999"), false)
        .expect("stale pidfile is reclaimed");
}

#[test]
fn a_file_without_a_pid_is_reclaimed() {
    assert_eq!(PidFile::holder(Some("garbage")), None);
    PidFile::acquire("/p".to_string(), Some("garbage"), true).expect("nobody holds it");
}

#[test]
fn pids_are_read_as_the_standard_library_reads_them() {
    for s in [
        "", " ", "1", " 12\n", "\t007\r\n", "+5", "-5", "+", "-", "--5", "1 2", "12x", "x12",
        "2147483647", "2147483648", "-2147483648", "-2147483649", "99999999999999999999",
        "\u{a0}42\u{3000}", "\u{2003}8", "٣", "1_000", "0x10", "00000000000000000000012",
        "not-a-pid",
    ] {
        assert_eq!(parse_pid(s), s.trim().parse::<i32>().ok(), "{s:?}");
    }
}

#[test]
fn a_pid_reads_back() {
    for pid in [0u32, 1, 9, 10, 4242, 999_999, i32::MAX as u32] {
        assert_eq!(pid_text(pid), pid.to_string());
        assert_eq!(parse_pid(&pid_text(pid)), Some(pid as i32));
    }
}
