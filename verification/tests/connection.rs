use engram_dashboard_daemon::connection::{
    activation_mode, after_replay, answer_of, epoch_matches, error_line, input_gate, kind_to_action, lease_answer,
    note_claimed_owner, profile_not_found, rename_answer, reparent_answer, replay_drop_notice,
    resize_target, roster_answer, stop_daemon_refusal, stop_daemon_step, subscribe_ack_shape, subscribe_missing_agent, ClaimNote, ConnectionSession,
    DispatchFlow, FrameAnswer, RenameOutcome, ReplayEnd, ReplayKind, SinkError, SpawnMode, SubscribeAction,
};
use engram_dashboard_daemon::error::{CommandError, ErrorCode};
use engram_dashboard_daemon::multiview::{LeaseChange, MultiViewState, INPUT_LOCKED_REFUSAL};

#[test]
fn a_claim_of_our_token_shape_is_warned_when_the_real_owner_is_not_derived() {
    let mut session = ConnectionSession::new(7);
    let note = note_claimed_owner(&mut session, "conn-7", Some("shell-a1"));
    assert_eq!(note, ClaimNote::Warn);
    assert_eq!(note_claimed_owner(&mut session, "conn-7", Some("shell-a1")), ClaimNote::Silent, "once per connection");
}

#[test]
fn a_claim_that_matches_the_real_owner_is_silent() {
    let mut session = ConnectionSession::new(7);
    assert_eq!(note_claimed_owner(&mut session, "conn-9", Some("conn-9")), ClaimNote::Silent);
}

#[test]
fn a_claim_of_our_token_shape_is_warned_when_nothing_is_attached() {
    let mut session = ConnectionSession::new(7);
    assert_eq!(note_claimed_owner(&mut session, "conn-7", None), ClaimNote::Warn);
}

#[test]
fn an_ordinary_mismatch_is_a_debug_line_and_a_blank_claim_nothing() {
    let mut session = ConnectionSession::new(7);
    assert_eq!(note_claimed_owner(&mut session, "whatever-the-client-thinks", Some("conn-7")), ClaimNote::Debug);
    assert_eq!(note_claimed_owner(&mut session, "", Some("conn-7")), ClaimNote::Silent);
    // a harmless packet first does not lock out the later warning
    assert_eq!(note_claimed_owner(&mut session, "conn-3", Some("conn-7")), ClaimNote::Warn);
}

#[test]
fn kind_to_action_maps_all_variants() {
    assert_eq!(kind_to_action(ReplayKind::FromOldest), SubscribeAction::Reset);
    assert_eq!(kind_to_action(ReplayKind::Truncated), SubscribeAction::TruncatedReplay);
    assert_eq!(kind_to_action(ReplayKind::Resumed), SubscribeAction::Resume);
}

#[test]
fn write_stdin_denied_when_lease_held_by_other() {
    let mut mv = MultiViewState::new();
    assert_eq!(mv.acquire(5, 1), LeaseChange::Changed);
    assert_eq!(input_gate(&mv, 5, 2), Err(INPUT_LOCKED_REFUSAL.to_string()));
    assert_eq!(input_gate(&mv, 5, 1), Ok(()));
    assert_eq!(input_gate(&mv, 6, 2), Ok(()));
}

#[test]
fn acquire_input_acks_and_broadcasts() {
    assert_eq!(lease_answer(LeaseChange::Changed, true), (Ok(()), Some(true)));
    assert_eq!(lease_answer(LeaseChange::Unchanged, true), (Ok(()), None));
    assert_eq!(lease_answer(LeaseChange::HeldByOther, true), (Err("input held by another viewer".to_string()), None));
    assert_eq!(lease_answer(LeaseChange::Changed, false), (Ok(()), Some(false)));
    assert_eq!(lease_answer(LeaseChange::HeldByOther, false), (Err("input lease held by another viewer".to_string()), None));
}

#[test]
fn a_resize_lands_on_the_smallest_viewport() {
    let mut mv = MultiViewState::new();
    let mut a = ConnectionSession::new(1);
    let mut b = ConnectionSession::new(2);
    assert_eq!(resize_target(&mut mv, &mut a, 9, Some("main".to_string()), 120, 40), (120, 40));
    assert_eq!(resize_target(&mut mv, &mut b, 9, Some("popup".to_string()), 80, 50), (80, 40));
    assert_eq!(resize_target(&mut mv, &mut a, 9, Some("main".to_string()), 100, 30), (80, 30));
    assert_eq!(resize_target(&mut mv, &mut a, 9, None, 200, 60), (200, 60), "no viewport id: the size as asked");
    assert_eq!(a.owned_viewports().len(), 1, "a viewport is recorded once");
    let after = mv.remove_conn_viewports(b.owned_viewports());
    assert_eq!(after, vec![(9, Some((100, 30)))]);
}

#[test]
fn stop_daemon_refuses_without_force_while_agents_run() {
    assert_eq!(
        stop_daemon_refusal(false, 2),
        Some("active agents present (2); use force=true to stop the daemon".to_string())
    );
    assert_eq!(stop_daemon_refusal(true, 2), None);
    assert_eq!(stop_daemon_refusal(false, 0), None);
}

#[test]
fn activation_resumes_when_a_session_exists_or_is_asked_for() {
    assert_eq!(activation_mode(false, false), SpawnMode::Fresh);
    assert_eq!(activation_mode(false, true), SpawnMode::Resume);
    assert_eq!(activation_mode(true, false), SpawnMode::Resume);
}

#[test]
fn profile_answers_name_the_profile() {
    let id = uuid::Uuid::new_v4();
    assert_eq!(profile_not_found(id.as_u128()), format!("profile not found: {id}"));
    assert_eq!(rename_answer(RenameOutcome::Renamed, id.as_u128()), Ok(()));
    assert_eq!(rename_answer(RenameOutcome::Unchanged, id.as_u128()), Ok(()));
    assert_eq!(rename_answer(RenameOutcome::NotFound, id.as_u128()), Err(format!("profile not found: {id}")));
    assert_eq!(
        rename_answer(RenameOutcome::Exhausted, id.as_u128()),
        Err(format!("name suffix space exhausted \u{2014} cannot assign a unique name: {id}"))
    );
    assert_eq!(
        reparent_answer(false, id.as_u128()),
        Err(format!("reparent rejected (missing/self-parent/cycle/2-level): child={id}"))
    );
    assert_eq!(reparent_answer(true, id.as_u128()), Ok(()));
}

#[test]
fn subscription_answers() {
    let id = uuid::Uuid::new_v4();
    assert!(epoch_matches(Some(3), 3));
    assert!(!epoch_matches(Some(2), 3));
    assert!(!epoch_matches(None, 3));
    assert_eq!(subscribe_missing_agent(id.as_u128()), format!("subscribe failed: agent {id} not found"));
    assert_eq!(replay_drop_notice(ReplayKind::Truncated, true, id.as_u128()), None);
    assert_eq!(replay_drop_notice(ReplayKind::Resumed, false, id.as_u128()), None);
    assert_eq!(
        replay_drop_notice(ReplayKind::Resumed, true, id.as_u128()),
        Some(format!("replay truncated for agent {id}: output dropped during replay; please refresh"))
    );
}

#[test]
fn a_session_keeps_its_subscriptions_and_latches() {
    let mut s = ConnectionSession::new(4);
    assert_eq!(s.conn_id(), 4);
    assert_eq!(s.owner_token(), "conn-4");
    assert_eq!(s.record_subscription(1, 10), None);
    assert_eq!(s.record_subscription(1, 10), None, "the same sink is not released");
    assert_eq!(s.record_subscription(1, 11), Some(10));
    assert_eq!(s.take_subscription(1), Some(11));
    assert_eq!(s.take_subscription(1), None);
    assert!(s.first_stray_outcome());
    assert!(!s.first_stray_outcome());
}

#[test]
fn a_typed_failure_becomes_one_line_with_its_code() {
    let e = CommandError::of(ErrorCode::Conflict, "taken".to_string());
    assert_eq!(error_line(&e), "CONFLICT: taken");
    assert_eq!(SinkError.describe(), "outbound sink enqueue failed");
}

#[test]
fn every_frame_with_a_request_id_is_answered() {
    assert_eq!(answer_of(3, Ok(())), FrameAnswer::Ack { request_id: 3 });
    assert_eq!(
        answer_of(3, Err("profile not found: x".to_string())),
        FrameAnswer::Error { request_id: Some(3), message: "profile not found: x".to_string() }
    );
    assert_eq!(roster_answer(4, Ok(())), FrameAnswer::Ack { request_id: 4 });
    assert_eq!(
        roster_answer(4, Err(CommandError::of(ErrorCode::Conflict, "name taken".to_string()))),
        FrameAnswer::Error { request_id: Some(4), message: "CONFLICT: name taken".to_string() }
    );
}

#[test]
fn a_stop_without_running_agents_acknowledges_signals_and_closes() {
    let plan = stop_daemon_step(9, false, true, 0);
    assert!(plan.stop_agents);
    assert_eq!(plan.answer, FrameAnswer::Ack { request_id: 9 });
    assert!(plan.signal_shutdown);
    assert_eq!(plan.flow, DispatchFlow::Close);
}

#[test]
fn a_stop_with_running_agents_is_refused_and_the_connection_goes_on() {
    let plan = stop_daemon_step(9, false, true, 2);
    assert!(!plan.stop_agents);
    assert_eq!(
        plan.answer,
        FrameAnswer::Error {
            request_id: Some(9),
            message: "active agents present (2); use force=true to stop the daemon".to_string()
        }
    );
    assert!(!plan.signal_shutdown);
    assert_eq!(plan.flow, DispatchFlow::Continue);
    assert_eq!(stop_daemon_step(9, true, false, 2).flow, DispatchFlow::Close, "force stops anyway");
}

#[test]
fn a_subscription_acknowledges_first_and_completes_last() {
    assert_eq!(subscribe_ack_shape(ReplayKind::Truncated), (SubscribeAction::TruncatedReplay, true));
    assert_eq!(subscribe_ack_shape(ReplayKind::Resumed), (SubscribeAction::Resume, false));
    let id: u128 = 0x0123_4567_89ab_cdef_0123_4567_89ab_cdef;
    let ends = after_replay(ReplayKind::Resumed, true, id, 3);
    assert_eq!(ends.len(), 2);
    assert_eq!(
        ends[0],
        ReplayEnd::Notice {
            message: "replay truncated for agent 01234567-89ab-cdef-0123-456789abcdef: output dropped during replay; please refresh".to_string()
        }
    );
    assert_eq!(ends[1], ReplayEnd::Complete { agent_id: id, epoch: 3 });
    assert_eq!(after_replay(ReplayKind::Truncated, true, id, 3), vec![ReplayEnd::Complete { agent_id: id, epoch: 3 }]);
}
