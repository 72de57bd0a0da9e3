use engram_dashboard_daemon::delivery::{
    caller_gone_reply, hand_over_refusal, owner_gone_reply, hand_over_verdict, lower_retry, refused_seat_reply,
    shutdown_reply, timeout_reply, HandOverFault, CALLER_ALREADY_GONE,
};
use engram_dashboard_daemon::error::{CommandError, CommandReply, ErrorCode, RetryMode};
use engram_dashboard_daemon::seats::Seat;

fn failure(r: &CommandReply) -> (ErrorCode, String, RetryMode) {
    match &r.outcome {
        Err(e) => (e.code, e.message.clone(), e.retry),
        Ok(_) => panic!("a failure was expected"),
    }
}

#[test]
fn a_refused_seat_is_answered_by_what_it_means() {
    let id = uuid::Uuid::new_v4();
    let n = id.as_u128();
    assert!(refused_seat_reply(&Seat::Opened { token: 0 }, n, true).is_none());
    assert!(refused_seat_reply(&Seat::Coalesced, n, true).is_none());
    let r = refused_seat_reply(&Seat::Conflict, n, true).expect("answered");
    assert_eq!(
        failure(&r),
        (ErrorCode::RequestIdConflict, format!("request_id {id} is already in flight for a different command"), RetryMode::Never)
    );
    let r = refused_seat_reply(&Seat::Taken { holder: 2 }, n, true).expect("answered");
    assert_eq!(failure(&r).0, ErrorCode::RequestIdConflict);
    let r = refused_seat_reply(&Seat::Taken { holder: 2 }, n, false).expect("answered");
    assert_eq!(failure(&r).0, ErrorCode::OutcomeUnknown, "a departed holder may already have run it");
    let r = refused_seat_reply(&Seat::Closed, n, true).expect("answered");
    assert_eq!(failure(&r).1, "the daemon is shutting down and no longer takes commands");
}

#[test]
fn a_hand_over_stops_at_its_first_fault() {
    assert_eq!(hand_over_verdict(false, false, false, false, false), Some(HandOverFault::SecondAttempt));
    assert_eq!(hand_over_verdict(true, false, true, true, true), Some(HandOverFault::CallerGone));
    assert_eq!(hand_over_verdict(true, true, false, true, true), Some(HandOverFault::OwnerGone));
    assert_eq!(hand_over_verdict(true, true, true, false, true), Some(HandOverFault::EncodeFailed));
    assert_eq!(hand_over_verdict(true, true, true, true, false), Some(HandOverFault::OwnerQueueRefused));
    assert_eq!(hand_over_verdict(true, true, true, true, true), None);
    let e = hand_over_refusal(HandOverFault::CallerGone, "tab.create");
    assert_eq!((e.code, e.message.as_str()), (ErrorCode::Conflict, CALLER_ALREADY_GONE));
    let e = hand_over_refusal(HandOverFault::OwnerGone, "tab.create");
    assert_eq!(e.code, ErrorCode::OutcomeUnknown);
    assert_eq!(e.message, "the owner of 'tab.create' went away while the envelope was being handed over");
}

#[test]
fn this_module_can_only_build_do_not_retry_failures() {
    for r in [timeout_reply(1), shutdown_reply(1), caller_gone_reply(1)] {
        assert_eq!(failure(&r).2, RetryMode::Never);
    }
    assert_eq!(failure(&timeout_reply(1)).0, ErrorCode::Timeout);
    for f in [HandOverFault::SecondAttempt, HandOverFault::CallerGone, HandOverFault::OwnerGone, HandOverFault::EncodeFailed, HandOverFault::OwnerQueueRefused] {
        assert_eq!(hand_over_refusal(f, "x").retry, RetryMode::Never);
    }
}

#[test]
fn a_relayed_failure_keeps_its_words_and_loses_only_its_retry_hint() {
    let relayed = CommandReply::err(9, CommandError::of(ErrorCode::OutcomeUnknown, "slow down".to_string()));
    assert_eq!(failure(&relayed).2, RetryMode::SameRequestId);
    let out = lower_retry(relayed);
    assert_eq!(failure(&out), (ErrorCode::OutcomeUnknown, "slow down".to_string(), RetryMode::Never));
    let ok = lower_retry(CommandReply::ok(9, serde_json::Value::Bool(true)));
    assert!(matches!(ok.outcome, Ok(serde_json::Value::Bool(true))));
}

#[test]
fn a_lost_owner_is_answered_outcome_unknown_and_final() {
    let r = owner_gone_reply(4);
    assert_eq!(r.request_id, 4);
    assert_eq!(
        failure(&r),
        (ErrorCode::OutcomeUnknown, "the owner's connection went away before it answered".to_string(), RetryMode::Never)
    );
}

#[test]
fn an_owners_own_error_object_survives_the_relay_with_only_the_retry_lowered() {
    let raw: serde_json::Value =
        serde_json::from_str(r#"{"code":"RATE_LIMITED","message":"slow down","retry":"same-request-id","hint":"5s"}"#).unwrap();
    let relayed = CommandReply::err(
        9,
        CommandError::relayed(ErrorCode::read("RATE_LIMITED"), "slow down".to_string(), RetryMode::SameRequestId, raw.clone()),
    );
    let out = lower_retry(relayed);
    assert_eq!(failure(&out), (ErrorCode::Internal, "slow down".to_string(), RetryMode::Never));
    match out.outcome {
        Err(e) => assert_eq!(e.received, Some(raw)),
        Ok(_) => panic!("a failure stays a failure"),
    }
}

#[test]
fn a_known_wire_code_reads_as_itself() {
    for c in [ErrorCode::InvalidArgument, ErrorCode::UnknownCommand, ErrorCode::NotFound, ErrorCode::Conflict, ErrorCode::Internal, ErrorCode::OutcomeUnknown, ErrorCode::Timeout, ErrorCode::RequestIdConflict] {
        assert_eq!(ErrorCode::read(c.as_str()), c);
    }
    assert_eq!(ErrorCode::read("RATE_LIMITED"), ErrorCode::Internal);
}

#[test]
fn a_retry_word_reads_back_and_an_unknown_one_means_never() {
    for r in [RetryMode::Never, RetryMode::SameRequestId, RetryMode::NewRequestId] {
        assert_eq!(RetryMode::read(r.as_str()), r);
    }
    assert_eq!(RetryMode::SameRequestId.as_str(), "same-request-id");
    assert_eq!(RetryMode::read("later"), RetryMode::Never);
}
