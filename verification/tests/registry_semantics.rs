// Registry semantics that hold without any live session: unknown ids are
// tolerated everywhere, close is idempotent, and failures carry their
// messages.

use pty_sessions::registry::PtyError;
use pty_sessions::registry::Registry;

#[test]
fn read_unknown_id_is_empty_not_an_error() {
    let mut reg = Registry::new();
    assert_eq!(reg.read_from_pty("missing"), String::new());
    assert_eq!(reg.read_from_pty("missing"), String::new());
}

#[test]
fn write_unknown_id_is_silent_noop() {
    let mut reg = Registry::new();
    assert!(reg.write_to_pty("missing", "echo hi\n").is_ok());
}

#[test]
fn resize_unknown_id_is_silent_noop() {
    let mut reg = Registry::new();
    assert!(reg.resize_pty("missing", 40, 100).is_ok());
}

#[test]
fn close_unknown_id_never_errors() {
    let mut reg = Registry::new();
    reg.close_shell("missing");
    reg.close_shell("missing");
    assert!(!reg.has_session("missing"));
}

#[test]
fn empty_registry_reports_no_sessions() {
    let reg = Registry::new();
    assert!(!reg.has_session("t1"));
    assert_eq!(reg.dimensions("t1"), None);
}

#[test]
fn error_messages_carry_their_detail() {
    let a = PtyError::AllocationFailure(String::from("no pty left"));
    let s = PtyError::SpawnFailure(String::from("shell not found"));
    let w = PtyError::WriteFailure(String::from("broken pipe"));
    let r = PtyError::ResizeFailure(String::from("bad geometry"));
    assert_eq!(a.message().as_str(), "no pty left");
    assert_eq!(s.message().as_str(), "shell not found");
    assert_eq!(w.message().as_str(), "broken pipe");
    assert_eq!(r.message().as_str(), "bad geometry");
}
