use engram_dashboard_daemon::catalog::{
    caller_request_id, claimed_answer, handle_call, listing, malformed_body, merge, refused, relayed,
    unclaimed_outcome, unknown_name,
    CallOutcome, CallRequest, CommandDecl, CommandListEntry, Effect, LocalCommands, OwnerLookup,
    OwnerLookupSource, RosterEntry, CALLER_REQUEST_ID_FIELD, CATALOG_RECOVERY,
};
use engram_dashboard_daemon::error::{CommandError, CommandReply, ErrorCode};
use engram_dashboard_daemon::ingress::ControlQueryResult;
use engram_dashboard_daemon::routes::CONTROL_COMMANDS_PATH;

struct Holds(&'static str);

impl LocalCommands for Holds {
    fn claim(&self, name: &str) -> Option<Effect> {
        (name == self.0).then_some(Effect::Read)
    }
    fn run(&self, name: &str, _args: &mut serde_json::Value, _entrance: &str) -> Option<Result<serde_json::Value, CommandError>> {
        (name == self.0).then(|| Ok(serde_json::Value::String(format!("ran {name}"))))
    }
    fn decls(&self) -> Vec<CommandDecl> {
        vec![decl(self.0, "{}")]
    }
}

struct NoLocalCommands;

impl LocalCommands for NoLocalCommands {
    fn claim(&self, _name: &str) -> Option<Effect> {
        None
    }
    fn run(&self, _name: &str, _args: &mut serde_json::Value, _entrance: &str) -> Option<Result<serde_json::Value, CommandError>> {
        None
    }
    fn decls(&self) -> Vec<CommandDecl> {
        Vec::new()
    }
}

struct Registered(&'static str);

impl OwnerLookupSource for Registered {
    fn lookup(&self, name: &str) -> OwnerLookup {
        if name == self.0 {
            OwnerLookup::Available("conn-1".to_string())
        } else {
            OwnerLookup::Unknown
        }
    }
}

fn decl(name: &str, help: &str) -> CommandDecl {
    CommandDecl { name: name.to_string(), help: help.to_string() }
}

fn entry(name: &str, help: &str) -> RosterEntry {
    RosterEntry { name: name.to_string(), help: help.to_string(), owner: "conn-1".to_string() }
}

fn names(entries: &[CommandListEntry]) -> Vec<&str> {
    entries.iter().map(|e| e.name.as_str()).collect()
}

fn call_of(name: &str) -> CallRequest {
    CallRequest { name: name.to_string(), ..CallRequest::default() }
}

fn error_of(r: ControlQueryResult) -> (&'static str, String) {
    match r {
        ControlQueryResult::Error { code, hint } => (code, hint),
        other => panic!("a refusal was expected: {other:?}"),
    }
}

#[test]
fn the_recovery_points_at_the_route_that_can_actually_answer_it() {
    assert!(CATALOG_RECOVERY.contains(CONTROL_COMMANDS_PATH), "{CATALOG_RECOVERY}");
}

#[test]
fn the_merge_sorts_both_sources_into_one_list_and_the_daemon_wins_a_clash() {
    let merged = merge(
        vec![decl("agent.list", "mine"), decl("agent.new", "mine")],
        vec![entry("tab.create", "theirs"), entry("agent.list", "stolen")],
    );
    assert_eq!(names(&merged), vec!["agent.list", "agent.new", "tab.create"]);
    assert_eq!(merged.iter().find(|e| e.name == "agent.list").map(|e| e.help.as_str()), Some("mine"));
    assert!(merged.iter().all(|e| e.available));
}

#[test]
fn the_merge_orders_by_code_point() {
    let merged = merge(vec![decl("b", "1"), decl("B", "2")], vec![entry("a", "3"), entry("ab", "4"), entry("é", "5")]);
    let mut expected: Vec<&str> = vec!["b", "B", "a", "ab", "é"];
    expected.sort();
    assert_eq!(names(&merged), expected);
}

#[test]
fn every_name_the_listing_teaches_is_a_name_the_call_route_recognises() {
    let registered = Registered("tab.create");
    let rows = listing(vec![decl("agent.list", "mine")], vec![entry("tab.create", "theirs")]);
    assert_eq!(rows.len(), 2);
    let table = NoLocalCommands;
    for row in &rows {
        assert!(row.callable, "{}", row.name);
        let known = !matches!(
            handle_call(&table, &registered, call_of(&row.name)),
            CallOutcome::Answered(ControlQueryResult::Error { code, .. }) if code == "UNKNOWN_COMMAND"
        );
        assert!(known || row.name == "agent.list", "{}", row.name);
    }
    assert!(matches!(
        handle_call(&table, &registered, call_of("nobody.declares.this")),
        CallOutcome::Answered(ControlQueryResult::Error { code, .. }) if code == "UNKNOWN_COMMAND"
    ));
}

#[test]
fn the_listing_carries_the_help_bytes_untouched() {
    let opaque = "not json at all \u{2014} 임의의 바이트 {[(";
    let rows = listing(vec![decl("agent.list", opaque)], vec![]);
    assert_eq!(rows[0].name, "agent.list");
    assert_eq!(rows[0].help, opaque);
}

#[test]
fn a_caller_supplied_request_id_is_used_as_is_and_a_malformed_one_names_that_field() {
    let table = NoLocalCommands;
    let registered = Registered("tab.create");
    let mine = uuid::Uuid::new_v4();
    let req = CallRequest { name: "tab.create".to_string(), request_id: Some(mine.to_string()), ..CallRequest::default() };
    match handle_call(&table, &registered, req) {
        CallOutcome::Relay { request_id, .. } => assert_eq!(request_id, mine.as_u128()),
        other => panic!("{other:?}"),
    }
    match handle_call(&table, &registered, call_of("tab.create")) {
        CallOutcome::Relay { .. } => {}
        other => panic!("{other:?}"),
    }
    for bad in ["", "not-a-uuid", &"9".repeat(4096)] {
        let req = CallRequest { name: "tab.create".to_string(), request_id: Some(bad.to_string()), ..CallRequest::default() };
        match handle_call(&table, &registered, req) {
            CallOutcome::Answered(ControlQueryResult::Error { code, hint }) => {
                assert_eq!(code, "INVALID_ARGUMENT", "{hint}");
                assert!(hint.contains(CALLER_REQUEST_ID_FIELD), "{hint}");
                assert!(hint.len() < 4096, "{}", hint.len());
            }
            other => panic!("{other:?}"),
        }
    }
}

#[test]
fn a_malformed_request_id_is_refused_even_for_a_name_this_daemon_holds() {
    let req = CallRequest { name: "agent.list".to_string(), request_id: Some("nope".to_string()), ..CallRequest::default() };
    match handle_call(&Holds("agent.list"), &Registered("tab.create"), req) {
        CallOutcome::Answered(ControlQueryResult::Error { code, .. }) => assert_eq!(code, "INVALID_ARGUMENT"),
        other => panic!("{other:?}"),
    }
}

#[test]
fn a_table_that_claims_a_name_but_answers_nothing_is_not_relayed() {
    struct ClaimsButAnswersNothing;
    impl LocalCommands for ClaimsButAnswersNothing {
        fn claim(&self, _name: &str) -> Option<Effect> {
            Some(Effect::Write)
        }
        fn run(&self, _name: &str, _args: &mut serde_json::Value, _entrance: &str) -> Option<Result<serde_json::Value, CommandError>> {
            None
        }
        fn decls(&self) -> Vec<CommandDecl> {
            Vec::new()
        }
    }
    match handle_call(&ClaimsButAnswersNothing, &Registered("tab.create"), call_of("tab.create")) {
        CallOutcome::Answered(ControlQueryResult::Error { code, hint }) => {
            assert_eq!(code, "INTERNAL", "{hint}");
            assert!(hint.contains("tab.create"), "{hint}");
        }
        other => panic!("{other:?}"),
    }
}

#[test]
fn a_name_with_a_connected_owner_goes_to_the_bus_and_an_unknown_one_is_refused() {
    let table = NoLocalCommands;
    let registered = Registered("tab.create");
    match handle_call(&table, &registered, call_of("tab.create")) {
        CallOutcome::Relay { name, args, .. } => {
            assert_eq!(name, "tab.create");
            assert!(args.is_object(), "{args}");
        }
        CallOutcome::Answered(other) => panic!("{other:?}"),
    }
    match handle_call(&table, &registered, call_of("nope.nope")) {
        CallOutcome::Answered(ControlQueryResult::Error { code, hint }) => {
            assert_eq!(code, "UNKNOWN_COMMAND");
            assert!(hint.contains("nope.nope"), "{hint}");
            assert!(hint.contains(CATALOG_RECOVERY), "{hint}");
        }
        other => panic!("{other:?}"),
    }
}

#[test]
fn a_name_this_daemon_holds_runs_here() {
    match handle_call(&Holds("agent.list"), &Registered("tab.create"), call_of("agent.list")) {
        CallOutcome::Answered(ControlQueryResult::Answer(v)) => assert_eq!(v, "ran agent.list"),
        other => panic!("{other:?}"),
    }
}

#[test]
fn a_relayed_outcome_keeps_the_owners_answer() {
    let id = uuid::Uuid::new_v4().as_u128();
    let payload = serde_json::Value::String("t-1".to_string());
    let ok = relayed(CommandReply::ok(id, payload));
    assert!(matches!(&ok, ControlQueryResult::Answer(v) if v == "t-1"), "{ok:?}");
    let failed = relayed(CommandReply::err(id, CommandError::of(ErrorCode::InvalidArgument, "no such window 'ghost'".to_string())));
    let (code, hint) = error_of(failed);
    assert_eq!(code, "INVALID_ARGUMENT");
    assert!(hint.contains("ghost"), "{hint}");
    assert!(hint.contains(CATALOG_RECOVERY), "{hint}");
}

#[test]
fn the_recovery_is_attached_only_to_faults_the_catalog_can_fix() {
    let (_, fixable) = error_of(refused(CommandError::of(ErrorCode::InvalidArgument, "bad field".to_string())));
    let (code, unfixable) = error_of(refused(CommandError::of(ErrorCode::NotFound, "no agent called 'ghost'".to_string())));
    assert!(fixable.contains(CATALOG_RECOVERY), "{fixable}");
    assert!(fixable.contains("bad field"), "{fixable}");
    assert_eq!(code, "NOT_FOUND");
    assert!(!unfixable.contains(CATALOG_RECOVERY), "{unfixable}");
    assert!(unfixable.contains("ghost"), "{unfixable}");
}

#[test]
fn every_refusal_branch_is_reported_within_a_bound() {
    let huge = "k".repeat(500_000);
    let branches = [
        unknown_name(&huge),
        relayed(CommandReply::err(1, CommandError::of(ErrorCode::Conflict, format!("owner said: {huge}")))),
        refused(CommandError::of(ErrorCode::InvalidArgument, format!("not an argument of '{huge}': \u{2026} \u{2014} declared arguments: target, name"))),
        refused(CommandError::of(ErrorCode::NotFound, format!("no agent called '{huge}'"))),
        malformed_body("expected a string", &huge),
    ];
    for branch in branches {
        let (code, hint) = error_of(branch);
        assert!(hint.contains("truncated"), "({code}): {hint}");
        assert!(hint.len() < 4096, "({code}): {} bytes", hint.len());
    }
}

#[test]
fn truncation_keeps_both_ends_so_the_next_step_survives() {
    let refusal = refused(CommandError::of(
        ErrorCode::InvalidArgument,
        format!("not an argument of 'agent.rename': \"{}\" \u{2014} declared arguments: target, name", "n".repeat(500_000)),
    ));
    let (_, hint) = error_of(refusal);
    assert!(hint.contains("truncated"), "{hint}");
    assert!(hint.contains("not an argument of 'agent.rename'"), "{hint}");
    for declared in ["declared arguments", "target", "name"] {
        assert!(hint.contains(declared), "({declared}): {hint}");
    }
}

#[test]
fn a_request_id_is_read_in_every_uuid_form() {
    let id = uuid::Uuid::new_v4();
    assert_eq!(caller_request_id(&id.to_string()).ok(), Some(id.as_u128()));
    assert_eq!(caller_request_id(&id.simple().to_string()).ok(), Some(id.as_u128()));
    assert_eq!(caller_request_id(&id.braced().to_string()).ok(), Some(id.as_u128()));
    assert_eq!(caller_request_id(&id.urn().to_string()).ok(), Some(id.as_u128()));
    assert!(caller_request_id("nope").is_err());
}

#[test]
fn a_claimed_name_answers_with_what_its_table_ran() {
    match claimed_answer("agent.list", Some(Ok(serde_json::Value::Bool(true)))) {
        ControlQueryResult::Answer(v) => assert_eq!(v, serde_json::Value::Bool(true)),
        other => panic!("expected an answer, got {other:?}"),
    }
    let (code, hint) = error_of(claimed_answer(
        "agent.kill",
        Some(Err(CommandError::of(ErrorCode::InvalidArgument, "target is required".to_string()))),
    ));
    assert_eq!(code, "INVALID_ARGUMENT");
    assert_eq!(hint, format!("target is required \u{2014} {CATALOG_RECOVERY}."));
    let (code, hint) = error_of(claimed_answer("agent.list", None));
    assert_eq!(code, "INTERNAL");
    assert_eq!(hint, "this daemon claims 'agent.list' but its own table produced no answer for it");
}

#[test]
fn an_unclaimed_name_is_relayed_untouched_or_refused_as_unknown() {
    let args = serde_json::Value::String("raw".to_string());
    match unclaimed_outcome("tab.create".to_string(), args, 42, OwnerLookup::Available("conn-1".to_string())) {
        CallOutcome::Relay { name, args, request_id } => {
            assert_eq!(name, "tab.create");
            assert_eq!(args, serde_json::Value::String("raw".to_string()));
            assert_eq!(request_id, 42);
        }
        other => panic!("expected a relay, got {other:?}"),
    }
    match unclaimed_outcome("tab.nope".to_string(), serde_json::Value::Null, 7, OwnerLookup::Unknown) {
        CallOutcome::Answered(a) => {
            let (code, hint) = error_of(a);
            assert_eq!(code, "UNKNOWN_COMMAND");
            assert!(hint.starts_with("unknown command 'tab.nope'"));
        }
        other => panic!("expected an answer, got {other:?}"),
    }
}
