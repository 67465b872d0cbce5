use wispr_flow_linux_helper::backend::tool::{
    captured_text, exit_result, next_wait_step, Seen, WaitStep, DEADLINE_MS, POLL_MS,
};

#[test]
fn captured_text_replaces_what_is_no_text() {
    assert_eq!(captured_text("né".as_bytes()), "né");
    assert_eq!(captured_text(b"a\xff\xfeb"), "a\u{fffd}\u{fffd}b");
    assert_eq!(captured_text(b""), "");
}

#[test]
fn failed_programs_are_named() {
    assert_eq!(exit_result("xclip", true, "exit status: 0"), Ok(()));
    assert_eq!(
        exit_result("xclip", false, "exit status: 1"),
        Err("xclip exited with exit status: 1".to_string())
    );
}

#[test]
fn waiting_polls_until_the_deadline() {
    assert_eq!((DEADLINE_MS, POLL_MS), (1500, 20));
    assert!(matches!(next_wait_step("wl-paste", &Seen::Running, 0), WaitStep::Poll));
    assert!(matches!(next_wait_step("wl-paste", &Seen::Running, 1499), WaitStep::Poll));
    match next_wait_step("wl-paste", &Seen::Running, 1500) {
        WaitStep::Kill(e) => assert_eq!(e, "wl-paste timed out after 1.5s"),
        other => panic!("{other:?}"),
    }
}

#[test]
fn ended_programs_are_collected_or_fail() {
    let ended = |success| Seen::Ended { success, status: "exit status: 3".to_string() };
    assert!(matches!(next_wait_step("p", &ended(true), 9000), WaitStep::Collect));
    match next_wait_step("p", &ended(false), 0) {
        WaitStep::Fail(e) => assert_eq!(e, "p exited with exit status: 3"),
        other => panic!("{other:?}"),
    }
    match next_wait_step("p", &Seen::Lost("gone".to_string()), 0) {
        WaitStep::Fail(e) => assert_eq!(e, "wait p: gone"),
        other => panic!("{other:?}"),
    }
}
