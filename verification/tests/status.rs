//! Status lines.
use rgsp_cast::status::{Status, StatusWriter, DEFAULT_FIFO};

#[test]
fn status_lines_lead_with_what_the_user_needs() {
    assert_eq!(
        Status::AwaitingPairing { url: "http://192.168.1.50:47990/pin".into() }.line(),
        "Pair at http://192.168.1.50:47990/pin"
    );
    assert_eq!(Status::Ready { addr: "192.168.1.50".into() }.line(), "Ready - 192.168.1.50");
    assert_eq!(
        Status::Connected { client: "Apple TV".into(), width: 720, height: 480, fps: 30 }.line(),
        "Connected - Apple TV 720x480 30fps"
    );
    assert_eq!(Status::Stopped.line(), "Casting stopped");
}

#[test]
fn a_status_goes_out_as_a_command() {
    let w = StatusWriter::new(DEFAULT_FIFO.to_string());
    assert_eq!(w.fifo(), "/tmp/show2.fifo");
    assert_eq!(w.publish(&Status::Starting), "TEXT:Starting...\n");
}
