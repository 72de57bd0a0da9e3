use engram_dashboard_daemon::ingress::{
    admit_send, contract_unsupported_by_envelope, needs_new_id, parse_reply_by,
    reply_to_has_single_recipient, send_answer, sender_display_name, validate_contract,
    message_not_found, message_query_key, message_report, open_items_report, BoundIdentity,
    LedgerRow, MessageState, OpenItem, LEDGER_ROTATED_HINT, ControlCommand, ControlQueryResult,
    ControlResult, EnvelopeFormat, SendContract, SendMeta, SendReject, SendRow, SendStatus,
};
use std::time::Duration;

fn dur(r: Result<u64, String>) -> Result<Duration, String> {
    r.map(Duration::from_secs)
}

fn ident() -> BoundIdentity {
    BoundIdentity { agent_id: uuid::Uuid::new_v4().as_u128(), epoch: 0 }
}

fn owned(v: &[&str]) -> Vec<String> {
    v.iter().map(|s| s.to_string()).collect()
}

#[test]
fn reply_to_requires_exactly_one_non_group_recipient() {
    let one = |v: &[&str]| reply_to_has_single_recipient(&owned(v));
    assert!(one(&["bob"]));
    assert!(!one(&["bob", "carol"]));
    assert!(!one(&["@all"]));
    assert!(!one(&["@all", "bob"]));
    assert!(!one(&[]));
}

#[test]
fn parse_reply_by_accepts_integer_plus_unit() {
    assert_eq!(dur(parse_reply_by("10m")).expect("10m"), Duration::from_secs(600));
    assert_eq!(dur(parse_reply_by("1h")).expect("1h"), Duration::from_secs(3600));
    assert_eq!(dur(parse_reply_by("60s")).expect("60s"), Duration::from_secs(60));
    assert_eq!(dur(parse_reply_by("120s")).expect("120s"), Duration::from_secs(120));
    assert_eq!(dur(parse_reply_by("720h")).expect("720h = 30d"), Duration::from_secs(30 * 24 * 3600));
}

#[test]
fn parse_reply_by_rejects_below_one_minute_floor() {
    for bad in ["1s", "30s", "59s"] {
        let err = parse_reply_by(bad).expect_err("below the floor");
        assert!(err.contains("1-minute minimum"), "the hint names the floor: {err}");
    }
    assert!(parse_reply_by("60s").is_ok());
    assert!(parse_reply_by("1m").is_ok());
}

#[test]
fn parse_reply_by_rejects_malformed_forms() {
    for bad in [
        "", "s", "m", "10", "10 m", " 10m", "10m ", "10M", "1H", "10x", "-5m", "1.5h", "1h30m", "0s",
        "0m", "0h", "십분", "10초",
    ] {
        assert!(parse_reply_by(bad).is_err(), "'{bad}' must be refused");
    }
}

#[test]
fn parse_reply_by_rejects_overflow_and_beyond_cap() {
    assert!(parse_reply_by("721h").is_err());
    assert!(parse_reply_by("18446744073709551615s").is_err());
    assert!(parse_reply_by("99999999999999999999s").is_err());
    assert!(parse_reply_by("18446744073709551615h").is_err());
}

#[test]
fn parse_reply_by_names_each_fault_in_its_hint() {
    assert_eq!(
        parse_reply_by("s").unwrap_err(),
        "reply_by 's' is not a duration; use an integer with a unit like 5m, 10m, or 1h (minimum 1 minute)."
    );
    assert_eq!(
        parse_reply_by("10x").unwrap_err(),
        "reply_by '10x' has an unknown unit; use s (seconds), m (minutes), or h (hours) \u{2014} e.g. 10m."
    );
    assert_eq!(
        parse_reply_by("1.5h").unwrap_err(),
        "reply_by '1.5h' must be a plain integer plus one unit (no spaces or signs) \u{2014} e.g. 5m, 10m, 1h."
    );
    assert_eq!(
        parse_reply_by("99999999999999999999s").unwrap_err(),
        "reply_by '99999999999999999999s' is out of range; use at most 30d worth (e.g. 24h)."
    );
    assert_eq!(
        parse_reply_by("0m").unwrap_err(),
        "reply_by '0m' must be greater than zero; drop the flag if you don't want a deadline."
    );
    assert!(parse_reply_by("721h").unwrap_err().contains("exceeds the 30-day maximum"));
    // a single multi-byte character is two bytes or more: its last byte is not a unit
    assert!(parse_reply_by("십").unwrap_err().contains("unknown unit"));
    // the hour count overflows only after multiplying
    assert!(parse_reply_by("5124095576030432h").unwrap_err().contains("out of range"));
}

#[test]
fn control_command_carries_identity_not_payload_from() {
    let from = ident();
    let cmd = ControlCommand { from, to: owned(&["bob"]), body: "hi".to_string(), contract: Default::default() };
    assert_eq!(cmd.from.agent_id, from.agent_id);
}

fn req_meta() -> SendMeta {
    SendMeta { request: true, reply_by_raw: Some("10m".to_string()), reply_by: Some(600), reply_to: None }
}

fn reply_meta() -> SendMeta {
    SendMeta { request: false, reply_by_raw: None, reply_by: None, reply_to: Some("m-7f3k".to_string()) }
}

#[test]
fn contract_fields_are_rejected_under_colon_envelope() {
    for meta in [req_meta(), reply_meta()] {
        let hint = contract_unsupported_by_envelope(&meta, EnvelopeFormat::Colon, false)
            .expect("colon drops the contract");
        assert!(hint.contains("XML envelope"), "{hint}");
    }
    assert_eq!(contract_unsupported_by_envelope(&SendMeta::default(), EnvelopeFormat::Colon, false), None);
    assert_eq!(contract_unsupported_by_envelope(&req_meta(), EnvelopeFormat::Xml, false), None);
}

#[test]
fn contract_fields_are_rejected_when_wrap_template_env_is_active() {
    let under_template = contract_unsupported_by_envelope(&req_meta(), EnvelopeFormat::Xml, true);
    let plain_under_template = contract_unsupported_by_envelope(&SendMeta::default(), EnvelopeFormat::Xml, true);
    let under_empty = contract_unsupported_by_envelope(&req_meta(), EnvelopeFormat::Xml, false);
    assert!(under_template.is_some());
    assert_eq!(plain_under_template, None);
    assert_eq!(under_empty, None);
}

#[test]
fn contract_default_is_plain_notice_message() {
    let m = validate_contract(&SendContract::default()).expect("a notice is always valid");
    assert!(!m.request);
    assert_eq!(m.reply_by, None);
    assert_eq!(m.reply_to, None);
}

#[test]
fn contract_request_and_reply_to_together_is_rejected() {
    let c = SendContract { request: true, reply_by: None, reply_to: Some("m-7f3k".to_string()) };
    let e = validate_contract(&c).expect_err("mutually exclusive");
    assert!(e.contains("mutually exclusive"), "{e}");
}

#[test]
fn contract_reply_by_without_request_is_rejected() {
    let c = SendContract { request: false, reply_by: Some("10m".to_string()), reply_to: None };
    let e = validate_contract(&c).expect_err("reply_by needs request");
    assert!(e.contains("request"), "{e}");
}

#[test]
fn contract_bad_reply_by_notation_is_rejected_with_form_hint() {
    let c = SendContract { request: true, reply_by: Some("ten minutes".to_string()), reply_to: None };
    let e = validate_contract(&c).expect_err("bad notation");
    assert!(e.contains("10m"), "{e}");
    for example in ["30s", "1s", "59s"] {
        assert!(!e.contains(example), "the hint must not suggest '{example}': {e}");
    }
}

#[test]
fn contract_empty_reply_to_is_rejected_and_whitespace_is_trimmed() {
    let empty = SendContract { request: false, reply_by: None, reply_to: Some("   ".to_string()) };
    assert!(validate_contract(&empty).is_err());
    let padded = SendContract { request: false, reply_by: None, reply_to: Some("  m-7f3k  ".to_string()) };
    let m = validate_contract(&padded).expect("valid once trimmed");
    assert_eq!(m.reply_to.as_deref(), Some("m-7f3k"));
}

#[test]
fn valid_request_contract_carries_both_raw_and_parsed_deadline() {
    let c = SendContract { request: true, reply_by: Some("10m".to_string()), reply_to: None };
    let m = validate_contract(&c).expect("valid");
    assert!(m.request);
    assert_eq!(m.reply_by_raw.as_deref(), Some("10m"));
    assert_eq!(m.reply_by.map(Duration::from_secs), Some(Duration::from_secs(600)));
}

fn refusal(r: &ControlResult) -> (&'static str, String) {
    match r {
        ControlResult::Error { code, hint } => (code, hint.clone()),
        other => panic!("a refusal was expected: {other:?}"),
    }
}

fn send(to: &[&str], body: &str, contract: SendContract) -> ControlCommand {
    ControlCommand { from: ident(), to: owned(to), body: body.to_string(), contract }
}

#[test]
fn a_send_is_checked_contract_first_then_recipients_then_body() {
    let bad_contract = SendContract { request: true, reply_by: None, reply_to: Some("m-1".to_string()) };
    let r = admit_send(&send(&[], &"x".repeat(70_000), bad_contract), EnvelopeFormat::Xml, false)
        .expect_err("refused");
    let (code, hint) = refusal(&r);
    assert_eq!(code, "INVALID_SEND_ARGS");
    assert!(hint.contains("mutually exclusive"), "the contract is judged first: {hint}");

    let r = admit_send(&send(&["  ", ""], "hi", SendContract::default()), EnvelopeFormat::Xml, false)
        .expect_err("no recipient");
    assert!(refusal(&r).1.starts_with("to must name at least one recipient"));

    let reply = SendContract { request: false, reply_by: None, reply_to: Some("m-1".to_string()) };
    let r = admit_send(&send(&["bob", "carol"], "hi", reply), EnvelopeFormat::Xml, false).expect_err("two recipients");
    assert!(refusal(&r).1.starts_with("A reply goes to exactly one recipient"));

    let r = admit_send(&send(&["bob"], &"x".repeat(65_537), SendContract::default()), EnvelopeFormat::Xml, false)
        .expect_err("too large");
    assert_eq!(
        refusal(&r),
        ("BODY_TOO_LARGE", "Message body exceeds the 65536-byte limit; shorten it and retry.".to_string())
    );
    // exactly at the limit passes; multi-byte characters count by their bytes
    assert!(admit_send(&send(&["bob"], &"x".repeat(65_536), SendContract::default()), EnvelopeFormat::Xml, false).is_ok());
    assert!(admit_send(&send(&["bob"], &"가".repeat(21_846), SendContract::default()), EnvelopeFormat::Xml, false).is_err());

    let r = admit_send(&send(&["bob"], "hi", SendContract { request: true, reply_by: None, reply_to: None }), EnvelopeFormat::Colon, false)
        .expect_err("colon drops the contract");
    assert!(refusal(&r).1.contains("XML envelope"));
}

#[test]
fn an_admitted_send_trims_its_recipients_and_keeps_the_contract() {
    let c = SendContract { request: true, reply_by: Some("5m".to_string()), reply_to: None };
    let a = admit_send(&send(&[" bob ", "", "\t@here"], "hi", c), EnvelopeFormat::Xml, false).expect("admitted");
    assert_eq!(a.recipients, owned(&["bob", "@here"]));
    assert!(a.meta.request);
    assert_eq!(a.meta.reply_by, Some(300));
    assert_eq!(a.meta.reply_by_raw.as_deref(), Some("5m"));
}

#[test]
fn the_service_answer_keeps_one_row_per_recipient() {
    let rows = vec![
        SendRow { to: "bob".to_string(), status: SendStatus::Delivered, code: None, hint: None },
        SendRow { to: "ghost".to_string(), status: SendStatus::Failed, code: Some("RECIPIENT_NOT_FOUND"), hint: Some("h".to_string()) },
        SendRow { to: "carol".to_string(), status: SendStatus::Pending, code: None, hint: Some("parked".to_string()) },
    ];
    let r = send_answer("m-1".to_string(), &Ok(rows));
    assert!(r.is_accepted(), "a failed row does not fail the send");
    match r {
        ControlResult::Accepted { id, results } => {
            assert_eq!(id, "m-1");
            let statuses: Vec<&str> = results.iter().map(|r| r.status).collect();
            assert_eq!(statuses, vec!["delivered", "failed", "pending"]);
            assert_eq!(results[1].code, Some("RECIPIENT_NOT_FOUND"));
            assert_eq!(results[2].hint.as_deref(), Some("parked"));
        }
        other => panic!("{other:?}"),
    }
}

#[test]
fn each_service_rejection_has_its_code() {
    let r = send_answer("m".to_string(), &Err(SendReject::GroupNotFound { name: "@team".to_string() }));
    let (code, hint) = refusal(&r);
    assert_eq!(code, "GROUP_NOT_FOUND");
    assert!(hint.starts_with("'@team' is not an address the broker knows."));
    assert!(!r.is_accepted());
    assert_eq!(refusal(&send_answer("m".to_string(), &Err(SendReject::GroupEmpty))).0, "GROUP_EMPTY");
    assert_eq!(refusal(&send_answer("m".to_string(), &Err(SendReject::IdCollision))).0, "INTERNAL_ID_COLLISION");
    assert!(needs_new_id(&Err(SendReject::IdCollision)));
    assert!(!needs_new_id(&Err(SendReject::GroupEmpty)));
    assert!(!needs_new_id(&Ok(vec![])));
}

#[test]
fn a_message_query_trims_its_id_and_names_an_unknown_one() {
    assert_eq!(message_query_key("  m-7f3k ").expect("key"), "m-7f3k");
    match message_query_key("   ") {
        Err(ControlQueryResult::Error { code, hint }) => {
            assert_eq!(code, "MESSAGE_NOT_FOUND");
            assert!(hint.starts_with("Pass the message id"));
        }
        other => panic!("{other:?}"),
    }
    let e = message_not_found("m-zz");
    assert!(!e.is_ok());
    match e {
        ControlQueryResult::Error { code, hint } => {
            assert_eq!(code, "MESSAGE_NOT_FOUND");
            assert!(hint.starts_with("No message 'm-zz' in the ledger."));
        }
        other => panic!("{other:?}"),
    }
}

#[test]
fn a_sender_without_a_name_is_shown_by_the_head_of_its_id() {
    let id = uuid::Uuid::new_v4();
    assert_eq!(sender_display_name(Some("alice".to_string()), Some("x".to_string()), id.as_u128()), "alice");
    assert_eq!(sender_display_name(None, Some("bob".to_string()), id.as_u128()), "bob");
    assert_eq!(sender_display_name(None, None, id.as_u128()), id.to_string()[..8].to_string());
}

fn ledger_row(to: &str, status: &str) -> LedgerRow {
    LedgerRow { to: to.to_string(), status: status.to_string(), age_secs: 42, updated_secs_ago: 40, code: None, hint: None }
}

#[test]
fn a_message_query_marks_a_partial_list_and_only_then() {
    let state = |truncated: bool| MessageState {
        id: "m-7f3k".to_string(),
        from: "alice".to_string(),
        awaiting_reply: false,
        may_be_truncated: truncated,
        rows: vec![ledger_row("bob", "delivered")],
    };
    let whole = message_report(state(false));
    assert_eq!(whole.hint, None);
    assert_eq!(whole.state.rows.len(), 1);
    assert_eq!(whole.state.rows[0].to, "bob");
    assert_eq!(whole.state.rows[0].status, "delivered");
    let partial = message_report(state(true));
    assert_eq!(partial.hint.as_deref(), Some(LEDGER_ROTATED_HINT));
}

#[test]
fn timed_out_is_shown_only_for_items_with_a_deadline_or_already_late() {
    let item = |reply_by: Option<&str>, timed_out: bool| OpenItem {
        direction: "awaiting_reply".to_string(),
        id: "m-1".to_string(),
        from: "me".to_string(),
        to: "bob".to_string(),
        age_secs: 5,
        reply_by: reply_by.map(|s| s.to_string()),
        timed_out,
    };
    let r = open_items_report(
        "me".to_string(),
        vec![item(None, false), item(Some("10m"), false), item(None, true)],
    );
    assert_eq!(r.me, "me");
    let shown: Vec<Option<bool>> = r.open.iter().map(|i| i.timed_out).collect();
    assert_eq!(shown, vec![None, Some(false), Some(true)]);
    assert_eq!(r.open[1].item.reply_by.as_deref(), Some("10m"));
}
