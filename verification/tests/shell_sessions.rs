// Scenarios against live shell sessions: these allocate real OS pty pairs
// and spawn the configured shell, so they exercise the trusted boundary as
// well as the verified registry.

use pty_sessions::registry::Registry;

// Accumulate reads on `id` until the output contains `needle`. Each read is
// one bounded OS read that waits for the shell to produce data, so the loop
// advances as soon as output arrives.
fn poll_for(reg: &mut Registry, id: &str, needle: &str, max_reads: usize) -> String {
    let mut acc = String::new();
    let mut reads: usize = 0;
    while reads < max_reads {
        let chunk = reg.read_from_pty(id);
        acc.push_str(&chunk);
        if acc.contains(needle) {
            return acc;
        }
        reads += 1;
    }
    panic!("output never contained {:?}; saw {:?}", needle, acc);
}

#[test]
fn create_uses_default_geometry() {
    let mut reg = Registry::new();
    reg.create_shell("tab-default").expect("create_shell failed");
    assert!(reg.has_session("tab-default"));
    assert_eq!(reg.dimensions("tab-default"), Some((30, 120)));
    reg.close_shell("tab-default");
}

#[test]
fn resize_to_creation_geometry_is_noop() {
    let mut reg = Registry::new();
    reg.create_shell_sized("tab-geom", 42, 99).expect("create_shell_sized failed");
    assert_eq!(reg.dimensions("tab-geom"), Some((42, 99)));
    reg.resize_pty("tab-geom", 42, 99).expect("resize_pty failed");
    assert_eq!(reg.dimensions("tab-geom"), Some((42, 99)));
    reg.close_shell("tab-geom");
}

#[test]
fn resize_changes_recorded_geometry() {
    let mut reg = Registry::new();
    reg.create_shell("tab-resize").expect("create_shell failed");
    reg.resize_pty("tab-resize", 50, 150).expect("resize_pty failed");
    assert_eq!(reg.dimensions("tab-resize"), Some((50, 150)));
    reg.close_shell("tab-resize");
}

#[test]
fn written_bytes_reach_the_shell() {
    let mut reg = Registry::new();
    reg.create_shell("t-echo").expect("create_shell failed");
    reg.write_to_pty("t-echo", "echo hi\n").expect("write_to_pty failed");
    let out = poll_for(&mut reg, "t-echo", "hi", 200);
    assert!(out.contains("hi"));
    reg.close_shell("t-echo");
}

#[test]
fn pwd_scenario_then_recreate_replaces_the_session() {
    let mut reg = Registry::new();
    reg.create_shell("t1").expect("create_shell failed");
    reg.write_to_pty("t1", "pwd\n").expect("write_to_pty failed");
    let out = poll_for(&mut reg, "t1", "/", 200);
    assert!(out.contains("/"));

    // Re-create while live: the predecessor is replaced, and the new session
    // starts from the requested geometry and answers on its own.
    reg.create_shell_sized("t1", 50, 150).expect("re-create failed");
    assert_eq!(reg.dimensions("t1"), Some((50, 150)));
    reg.write_to_pty("t1", "echo again\n").expect("write after re-create failed");
    let out2 = poll_for(&mut reg, "t1", "again", 200);
    assert!(out2.contains("again"));
    reg.close_shell("t1");
}

#[test]
fn distinct_sessions_see_only_their_own_bytes() {
    let mut reg = Registry::new();
    reg.create_shell("iso-a").expect("create iso-a failed");
    reg.create_shell("iso-b").expect("create iso-b failed");
    reg.write_to_pty("iso-a", "echo alpha_only\n").expect("write iso-a failed");
    reg.write_to_pty("iso-b", "echo beta_only\n").expect("write iso-b failed");
    let out_a = poll_for(&mut reg, "iso-a", "alpha_only", 200);
    assert!(!out_a.contains("beta_only"));
    let out_b = poll_for(&mut reg, "iso-b", "beta_only", 200);
    assert!(!out_b.contains("alpha_only"));
    reg.close_shell("iso-a");
    reg.close_shell("iso-b");
}

#[test]
fn three_sessions_see_only_their_own_bytes() {
    let mut reg = Registry::new();
    reg.create_shell("n-1").expect("create n-1 failed");
    reg.create_shell("n-2").expect("create n-2 failed");
    reg.create_shell("n-3").expect("create n-3 failed");
    reg.write_to_pty("n-1", "echo first_marker\n").expect("write n-1 failed");
    reg.write_to_pty("n-2", "echo second_marker\n").expect("write n-2 failed");
    reg.write_to_pty("n-3", "echo third_marker\n").expect("write n-3 failed");
    let out_1 = poll_for(&mut reg, "n-1", "first_marker", 200);
    assert!(!out_1.contains("second_marker") && !out_1.contains("third_marker"));
    let out_2 = poll_for(&mut reg, "n-2", "second_marker", 200);
    assert!(!out_2.contains("first_marker") && !out_2.contains("third_marker"));
    let out_3 = poll_for(&mut reg, "n-3", "third_marker", 200);
    assert!(!out_3.contains("first_marker") && !out_3.contains("second_marker"));
    reg.close_shell("n-1");
    reg.close_shell("n-2");
    reg.close_shell("n-3");
}

#[test]
fn closed_session_is_unobservable() {
    let mut reg = Registry::new();
    reg.create_shell("gone").expect("create_shell failed");
    reg.write_to_pty("gone", "echo x\n").expect("write_to_pty failed");
    reg.close_shell("gone");
    assert_eq!(reg.read_from_pty("gone"), String::new());
    assert!(reg.write_to_pty("gone", "echo y\n").is_ok());
    assert!(reg.resize_pty("gone", 40, 100).is_ok());
    assert_eq!(reg.dimensions("gone"), None);
    assert!(!reg.has_session("gone"));
}

#[test]
fn close_is_idempotent_on_a_live_session() {
    let mut reg = Registry::new();
    reg.create_shell("twice").expect("create_shell failed");
    reg.close_shell("twice");
    reg.close_shell("twice");
    assert!(!reg.has_session("twice"));
}
