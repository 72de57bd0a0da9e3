use std::collections::HashMap;
use std::sync::Mutex;

use engram_dashboard_daemon::hook::{
    handle_session_start, HookSessionStartRequest, SessionIdAdoption, SessionStartOutcome,
    SessionStartRecorder,
};
use engram_dashboard_daemon::ingress::{BoundIdentity, ControlQueryResult};

type AgentId = u128;

#[derive(Default)]
struct FakeProfiles {
    rows: Mutex<HashMap<AgentId, (u32, bool, Option<u128>)>>,
}

impl FakeProfiles {
    fn with(id: AgentId, epoch: u32, assigns: bool, sid: Option<u128>) -> Self {
        let f = Self::default();
        f.rows.lock().unwrap().insert(id, (epoch, assigns, sid));
        f
    }
    fn sid(&self, id: AgentId) -> Option<u128> {
        self.rows.lock().unwrap().get(&id).and_then(|r| r.2)
    }
}

impl SessionStartRecorder for FakeProfiles {
    fn assigns_own_session_id(&self, id: AgentId) -> Option<bool> {
        self.rows.lock().unwrap().get(&id).map(|r| r.1)
    }
    fn adopt(&self, id: AgentId, epoch: u32, sid: u128) -> SessionIdAdoption {
        let mut rows = self.rows.lock().unwrap();
        match rows.get_mut(&id) {
            None => SessionIdAdoption::Vanished,
            Some(row) if row.0 != epoch => SessionIdAdoption::StaleIncarnation,
            Some(row) => match row.2 {
                Some(existing) if existing == sid => SessionIdAdoption::AlreadyKnown,
                Some(_) => SessionIdAdoption::Conflict,
                None => {
                    row.2 = Some(sid);
                    SessionIdAdoption::Adopted
                }
            },
        }
    }
}

fn new_id() -> u128 {
    uuid::Uuid::new_v4().as_u128()
}

fn caller(id: AgentId, epoch: u32) -> BoundIdentity {
    BoundIdentity { agent_id: id, epoch }
}

fn req(sid: &str) -> HookSessionStartRequest {
    HookSessionStartRequest { session_id: sid.to_string() }
}

fn text(id: u128) -> String {
    uuid::Uuid::from_u128(id).to_string()
}

fn code(r: &ControlQueryResult) -> &'static str {
    match r {
        ControlQueryResult::Error { code, .. } => code,
        other => panic!("{other:?}"),
    }
}

#[test]
fn an_empty_slot_takes_the_report() {
    let id = new_id();
    let sid = new_id();
    let profiles = FakeProfiles::with(id, 7, false, None);
    let (outcome, result) = handle_session_start(&profiles, caller(id, 7), &req(&text(sid)));
    assert_eq!(outcome, SessionStartOutcome::Recorded);
    assert!(result.is_ok());
    assert_eq!(profiles.sid(id), Some(sid));
}

#[test]
fn the_same_value_is_a_no_op_success() {
    let id = new_id();
    let sid = new_id();
    let profiles = FakeProfiles::with(id, 7, false, Some(sid));
    let (outcome, result) = handle_session_start(&profiles, caller(id, 7), &req(&text(sid)));
    assert_eq!(outcome, SessionStartOutcome::AlreadyKnown);
    assert!(result.is_ok());
    assert_eq!(profiles.sid(id), Some(sid));
}

#[test]
fn a_different_value_is_refused_and_the_stored_one_survives() {
    let id = new_id();
    let stored = new_id();
    let reported = new_id();
    let profiles = FakeProfiles::with(id, 7, false, Some(stored));
    let (outcome, result) = handle_session_start(&profiles, caller(id, 7), &req(&text(reported)));
    assert_eq!(outcome, SessionStartOutcome::Conflict);
    assert!(!result.is_ok());
    assert_eq!(code(&result), "CONFLICTING_SESSION");
    assert_eq!(profiles.sid(id), Some(stored));
}

#[test]
fn the_first_value_to_land_is_the_one_that_stays() {
    let id = new_id();
    let a = new_id();
    let b = new_id();
    let profiles = FakeProfiles::with(id, 7, false, None);
    handle_session_start(&profiles, caller(id, 7), &req(&text(a)));
    handle_session_start(&profiles, caller(id, 7), &req(&text(b)));
    handle_session_start(&profiles, caller(id, 7), &req(&text(a)));
    assert_eq!(profiles.sid(id), Some(a));
}

#[test]
fn an_agent_whose_session_id_we_issue_is_refused() {
    let id = new_id();
    let stored = new_id();
    let profiles = FakeProfiles::with(id, 7, true, Some(stored));
    let (outcome, result) = handle_session_start(&profiles, caller(id, 7), &req(&text(new_id())));
    assert_eq!(outcome, SessionStartOutcome::NotEligible);
    assert!(!result.is_ok());
    assert_eq!(code(&result), "NOT_ELIGIBLE");
    assert_eq!(profiles.sid(id), Some(stored));
}

#[test]
fn eligibility_is_decided_before_the_value() {
    let id = new_id();
    let profiles = FakeProfiles::with(id, 7, true, None);
    let (outcome, _) = handle_session_start(&profiles, caller(id, 7), &req("this-is-not-a-uuid-either"));
    assert_eq!(outcome, SessionStartOutcome::NotEligible);
    assert_eq!(profiles.sid(id), None);
}

#[test]
fn a_report_from_a_dead_incarnation_writes_nothing() {
    let id = new_id();
    let profiles = FakeProfiles::with(id, 9, false, None);
    let (outcome, _) = handle_session_start(&profiles, caller(id, 7), &req(&text(new_id())));
    assert_eq!(outcome, SessionStartOutcome::NotApplied);
    assert_eq!(profiles.sid(id), None);
}

#[test]
fn a_report_for_a_vanished_profile_ends_quietly() {
    let profiles = FakeProfiles::default();
    let (outcome, result) = handle_session_start(&profiles, caller(new_id(), 7), &req(&text(new_id())));
    assert_eq!(outcome, SessionStartOutcome::NotApplied);
    assert!(result.is_ok());
}

#[test]
fn an_unreadable_session_id_writes_nothing() {
    let id = new_id();
    let profiles = FakeProfiles::with(id, 7, false, None);
    for raw in ["", "   ", "not-a-uuid", "01a0b3bb"] {
        let (outcome, result) = handle_session_start(&profiles, caller(id, 7), &req(raw));
        assert_eq!(outcome, SessionStartOutcome::Unreadable, "raw={raw:?}");
        assert!(!result.is_ok());
        assert_eq!(code(&result), "INVALID_ARGUMENT");
    }
    assert_eq!(profiles.sid(id), None);
}

#[test]
fn surrounding_whitespace_is_tolerated() {
    let id = new_id();
    let sid = new_id();
    let profiles = FakeProfiles::with(id, 7, false, None);
    let (outcome, _) = handle_session_start(&profiles, caller(id, 7), &req(&format!("  {}\n", text(sid))));
    assert_eq!(outcome, SessionStartOutcome::Recorded);
    assert_eq!(profiles.sid(id), Some(sid));
}

#[test]
fn each_outcome_has_its_wire_word_and_code() {
    let all = [
        SessionStartOutcome::Recorded,
        SessionStartOutcome::AlreadyKnown,
        SessionStartOutcome::Conflict,
        SessionStartOutcome::NotEligible,
        SessionStartOutcome::Unreadable,
        SessionStartOutcome::NotApplied,
    ];
    let wires: Vec<&str> = all.iter().map(|o| o.wire()).collect();
    assert_eq!(wires, vec!["recorded", "already_known", "conflict", "not_eligible", "unreadable", "not_applied"]);
    let oks: Vec<bool> = all.iter().map(|o| o.is_ok()).collect();
    assert_eq!(oks, vec![true, true, false, false, false, true]);
    assert_eq!(SessionStartOutcome::Conflict.code(), "CONFLICTING_SESSION");
    assert_eq!(SessionStartOutcome::NotEligible.code(), "NOT_ELIGIBLE");
    assert_eq!(SessionStartOutcome::Unreadable.code(), "INVALID_ARGUMENT");
}

#[test]
fn an_empty_request_has_an_empty_session_id() {
    assert_eq!(HookSessionStartRequest::default().session_id, "");
}
