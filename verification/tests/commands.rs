use engram_dashboard_daemon::commands::{admit_input, lease_refusal, lease_target, NoInputLeases, CONNECTIONLESS_LEASE_TAIL};
use engram_dashboard_daemon::error::{ErrorCode, RetryMode};
use engram_dashboard_daemon::multiview::{MultiViewState, INPUT_LOCKED_REFUSAL};

fn held_by(agent: u128, conn: u64) -> MultiViewState {
    let mut mv = MultiViewState::new();
    mv.acquire(agent, conn);
    mv
}

#[test]
fn every_entrance_refuses_a_non_holder_with_the_same_code_and_head() {
    let mv = held_by(5, 7);
    let answers = [
        admit_input(&mv, 5, Some(2)).expect_err("another connection"),
        admit_input(&mv, 5, None).expect_err("a connectionless caller"),
    ];
    for e in &answers {
        assert_eq!(e.code, ErrorCode::Conflict);
        assert!(e.message.starts_with(INPUT_LOCKED_REFUSAL));
        assert_eq!(e.retry, RetryMode::Never);
    }
    assert_eq!(answers[0].message, INPUT_LOCKED_REFUSAL, "a connected caller gets the viewer's words");
    assert!(answers[1].message.contains(CONNECTIONLESS_LEASE_TAIL), "a connectionless caller is told what to wait for");
    assert!(!answers[1].message.contains("to see the roster"));
}

#[test]
fn the_holder_and_a_free_agent_pass_every_entrance() {
    let mv = held_by(5, 7);
    assert!(admit_input(&mv, 5, Some(7)).is_ok(), "the holder passes");
    assert!(admit_input(&mv, 6, Some(2)).is_ok(), "nobody holds this agent");
    assert!(admit_input(&mv, 6, None).is_ok(), "a connectionless caller passes a free agent");
    assert!(admit_input(&NoInputLeases, 5, None).is_ok());
}

#[test]
fn the_refusal_words_follow_the_caller_kind() {
    assert_eq!(lease_refusal(Some(3)).message, INPUT_LOCKED_REFUSAL);
    assert_eq!(lease_refusal(None).message, format!("{INPUT_LOCKED_REFUSAL}{CONNECTIONLESS_LEASE_TAIL}"));
    assert_eq!(lease_refusal(None).code, ErrorCode::Conflict);
}

#[test]
fn only_a_non_blank_string_target_is_checked_against_the_lease() {
    assert_eq!(lease_target(Some("alpha")), Some("alpha".to_string()));
    assert_eq!(lease_target(Some(" alpha ")), Some(" alpha ".to_string()));
    assert_eq!(lease_target(Some("   ")), None);
    assert_eq!(lease_target(Some("")), None);
    assert_eq!(lease_target(None), None);
}
