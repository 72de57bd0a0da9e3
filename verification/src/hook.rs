//! The session-start report a hook posts for the agent that spawned it: "I am now this
//! session". The reporter is taken from its credentials only, and a recorded session id is
//! never overwritten.

use vstd::prelude::*;

use crate::ids::{parse_uuid, uuid_parse, uuid_text, AgentId};
use crate::ingress::{BoundIdentity, ControlQueryResult};
use crate::text::{trim_text, trimmed};

verus! {

/// The body a hook posts: one field.
#[derive(Debug)]
pub struct HookSessionStartRequest {
    pub session_id: String,
}

impl Default for HookSessionStartRequest {
    fn default() -> (r: HookSessionStartRequest)
        ensures
            r.session_id@ == Seq::<char>::empty(),
    {
        HookSessionStartRequest { session_id: String::new() }
    }
}

/// How one report ended.
#[derive(Debug, Clone, Copy, PartialEq, Eq, Structural)]
pub enum SessionStartOutcome {
    /// The slot was empty and now holds the reported id.
    Recorded,
    /// The slot already held that id; nothing changed.
    AlreadyKnown,
    /// The slot holds a different id; it was not overwritten.
    Conflict,
    /// The daemon issues this agent's session ids; reports are not taken.
    NotEligible,
    /// The reported id is blank or not a UUID.
    Unreadable,
    /// The profile vanished or its incarnation changed meanwhile.
    NotApplied,
}

pub open spec fn wire_text(o: SessionStartOutcome) -> Seq<char> {
    match o {
        SessionStartOutcome::Recorded => "recorded"@,
        SessionStartOutcome::AlreadyKnown => "already_known"@,
        SessionStartOutcome::Conflict => "conflict"@,
        SessionStartOutcome::NotEligible => "not_eligible"@,
        SessionStartOutcome::Unreadable => "unreadable"@,
        SessionStartOutcome::NotApplied => "not_applied"@,
    }
}

/// An outcome that answers success: recorded, already known, or nothing left to apply to.
pub open spec fn outcome_ok(o: SessionStartOutcome) -> bool {
    o == SessionStartOutcome::Recorded || o == SessionStartOutcome::AlreadyKnown || o == SessionStartOutcome::NotApplied
}

pub open spec fn code_of(o: SessionStartOutcome) -> Seq<char> {
    match o {
        SessionStartOutcome::Conflict => "CONFLICTING_SESSION"@,
        SessionStartOutcome::NotEligible => "NOT_ELIGIBLE"@,
        _ => "INVALID_ARGUMENT"@,
    }
}

impl SessionStartOutcome {
    pub fn wire(self) -> (s: &'static str)
        ensures
            s@ == wire_text(self),
    {
        match self {
            SessionStartOutcome::Recorded => "recorded",
            SessionStartOutcome::AlreadyKnown => "already_known",
            SessionStartOutcome::Conflict => "conflict",
            SessionStartOutcome::NotEligible => "not_eligible",
            SessionStartOutcome::Unreadable => "unreadable",
            SessionStartOutcome::NotApplied => "not_applied",
        }
    }

    pub fn is_ok(self) -> (r: bool)
        ensures
            r == outcome_ok(self),
    {
        match self {
            SessionStartOutcome::Recorded | SessionStartOutcome::AlreadyKnown | SessionStartOutcome::NotApplied => true,
            _ => false,
        }
    }

    pub fn code(self) -> (s: &'static str)
        ensures
            s@ == code_of(self),
    {
        match self {
            SessionStartOutcome::Conflict => "CONFLICTING_SESSION",
            SessionStartOutcome::NotEligible => "NOT_ELIGIBLE",
            _ => "INVALID_ARGUMENT",
        }
    }
}

/// What writing a reported id into a profile did.
#[derive(Debug, Clone, Copy, PartialEq, Eq, Structural)]
pub enum SessionIdAdoption {
    Adopted,
    AlreadyKnown,
    Conflict,
    StaleIncarnation,
    Vanished,
}

/// The profiles a report is written into, as the assembly provides them. The spec functions
/// name what the recorder answers at the call a report makes; an implementation is held to
/// returning them. Their bodies are the answers of a recorder with no profiles; code generic
/// over the trait never sees them.
pub trait SessionStartRecorder {
    /// What `assigns_own_session_id` answers for `id`.
    open spec fn eligibility_of(&self, id: AgentId) -> Option<bool> {
        None
    }

    /// What `adopt` answers for `(id, epoch, sid)`.
    open spec fn adoption_of(&self, id: AgentId, epoch: u32, sid: u128) -> SessionIdAdoption {
        SessionIdAdoption::Vanished
    }

    /// Whether the daemon issues this agent's session ids; `None` when the profile is gone.
    fn assigns_own_session_id(&self, id: AgentId) -> (r: Option<bool>)
        ensures
            r == self.eligibility_of(id);

    /// Writes `sid` into the agent's slot only if the slot is empty and the incarnation matches.
    fn adopt(&self, id: AgentId, epoch: u32, sid: u128) -> (r: SessionIdAdoption)
        ensures
            r == self.adoption_of(id, epoch, sid);
}

pub const NOT_ELIGIBLE_HINT: &'static str = "this agent's session id is issued by the daemon; reported ids are not accepted";

pub const NO_SUCH_AGENT_HINT: &'static str = "no such agent";

pub const NOT_A_UUID_HINT: &'static str = "session_id is not a uuid";

pub const CONFLICTING_SESSION_HINT: &'static str = "a different session id is already recorded for this agent; not overwriting";

/// What the eligibility answer alone decides: a daemon-issued agent is refused and a vanished
/// profile ends the report; `None` means the value is looked at next.
pub open spec fn eligibility_outcome(assigns: Option<bool>) -> Option<(SessionStartOutcome, Seq<char>)> {
    match assigns {
        Some(true) => Some((SessionStartOutcome::NotEligible, NOT_ELIGIBLE_HINT@)),
        None => Some((SessionStartOutcome::NotApplied, NO_SUCH_AGENT_HINT@)),
        Some(false) => None,
    }
}

/// What an adoption answer means for the report.
pub open spec fn adoption_outcome(a: SessionIdAdoption) -> (SessionStartOutcome, Seq<char>) {
    match a {
        SessionIdAdoption::Adopted => (SessionStartOutcome::Recorded, Seq::empty()),
        SessionIdAdoption::AlreadyKnown => (SessionStartOutcome::AlreadyKnown, Seq::empty()),
        SessionIdAdoption::Conflict => (SessionStartOutcome::Conflict, CONFLICTING_SESSION_HINT@),
        SessionIdAdoption::StaleIncarnation | SessionIdAdoption::Vanished => (SessionStartOutcome::NotApplied, Seq::empty()),
    }
}

/// The JSON object `{ "<key>": "<value>" }` with one string field.
pub uninterp spec fn json_string_object(key: Seq<char>, value: Seq<char>) -> serde_json::Value;

/// The outcome of a report, with its hint, from the recorder's answers: eligibility first (the
/// reported value is not read for an ineligible or vanished agent), then the value (an
/// unreadable one is never handed to `adopt`), then what `adopt` did with the id.
pub open spec fn report_outcome(
    eligible: Option<bool>,
    sid: Option<u128>,
    adopted: spec_fn(u128) -> SessionIdAdoption,
) -> (SessionStartOutcome, Seq<char>) {
    match eligibility_outcome(eligible) {
        Some(decided) => decided,
        None => match sid {
            None => (SessionStartOutcome::Unreadable, NOT_A_UUID_HINT@),
            Some(id) => adoption_outcome(adopted(id)),
        },
    }
}

/// Builds `{ "<key>": "<value>" }`.
///
/// Trusted: inserts the one field into a fresh `serde_json::Map` and wraps it in
/// `serde_json::Value::Object`; the value is named by `json_string_object` over the key and the
/// field's text, and nothing more is said of it (Verus cannot look into a JSON value).
#[verifier::external_body]
fn string_field_object(key: &str, value: &str) -> (v: serde_json::Value)
    ensures
        v == json_string_object(key@, value@),
{
    let mut m = serde_json::Map::new();
    m.insert(key.to_owned(), serde_json::Value::String(value.to_owned()));
    serde_json::Value::Object(m)
}

/// The answer of a report: `{ "outcome": <wire> }` on success, else the outcome's error code
/// with the hint.
pub fn finish(outcome: SessionStartOutcome, hint: &str) -> (r: (SessionStartOutcome, ControlQueryResult))
    ensures
        r.0 == outcome,
        (r.1 is Answer) == outcome_ok(outcome),
        outcome_ok(outcome) ==> r.1 == ControlQueryResult::Answer(json_string_object("outcome"@, wire_text(outcome))),
        !outcome_ok(outcome) ==> r.1.refusal() == Some((code_of(outcome), hint@)),
{
    if outcome.is_ok() {
        (outcome, ControlQueryResult::Answer(string_field_object("outcome", outcome.wire())))
    } else {
        (outcome, ControlQueryResult::Error { code: outcome.code(), hint: hint.to_owned() })
    }
}

/// The answer the eligibility check alone gives: a daemon-issued agent is refused and a vanished
/// profile ends the report; `None` means the reported value is read next.
pub fn eligibility(assigns: Option<bool>) -> (r: Option<(SessionStartOutcome, ControlQueryResult)>)
    ensures
        (r is Some) == (eligibility_outcome(assigns) is Some),
        r matches Some((o, res)) ==> (eligibility_outcome(assigns) matches Some((eo, eh)) && o == eo
            && (res is Answer) == outcome_ok(o)
            && (outcome_ok(o) ==> res == ControlQueryResult::Answer(json_string_object("outcome"@, wire_text(o))))
            && (!outcome_ok(o) ==> res.refusal() == Some((code_of(o), eh)))),
{
    match assigns {
        Some(true) => Some(finish(SessionStartOutcome::NotEligible, NOT_ELIGIBLE_HINT)),
        None => Some(finish(SessionStartOutcome::NotApplied, NO_SUCH_AGENT_HINT)),
        Some(false) => None,
    }
}

/// Reads the reported session id: surrounding whitespace (a hook often appends a newline) is
/// dropped, and the rest must read as a UUID.
pub fn read_session_id(raw: &str) -> (r: Option<u128>)
    ensures
        r == uuid_parse(trimmed(raw@)),
        forall|id: u128| #[trigger] uuid_text(id) == trimmed(raw@) ==> r == Some(id),
{
    let t = trim_text(raw);
    parse_uuid(t.as_str())
}

/// The answer to what `adopt` did with a readable id.
pub fn adoption_answer(a: SessionIdAdoption) -> (r: (SessionStartOutcome, ControlQueryResult))
    ensures
        r.0 == adoption_outcome(a).0,
        (r.1 is Answer) == outcome_ok(r.0),
        outcome_ok(r.0) ==> r.1 == ControlQueryResult::Answer(json_string_object("outcome"@, wire_text(r.0))),
        !outcome_ok(r.0) ==> r.1.refusal() == Some((code_of(r.0), adoption_outcome(a).1)),
{
    match a {
        SessionIdAdoption::Adopted => finish(SessionStartOutcome::Recorded, ""),
        SessionIdAdoption::AlreadyKnown => finish(SessionStartOutcome::AlreadyKnown, ""),
        SessionIdAdoption::Conflict => finish(SessionStartOutcome::Conflict, CONFLICTING_SESSION_HINT),
        SessionIdAdoption::StaleIncarnation | SessionIdAdoption::Vanished => finish(SessionStartOutcome::NotApplied, ""),
    }
}

/// Handles one report for `caller` (the identity of the credentials; the body names nobody).
///
/// Eligibility is decided before the value, so an ineligible caller learns nothing about how
/// its value would have been read; a readable id is then handed to `adopt`, which never
/// overwrites a different id. What the recorder answers is its own: this states what holds
/// whatever it answers.
pub fn handle_session_start<R: SessionStartRecorder>(recorder: &R, caller: BoundIdentity, req: &HookSessionStartRequest) -> (r: (SessionStartOutcome, ControlQueryResult))
    ensures
        (r.1 is Answer) == outcome_ok(r.0),
        outcome_ok(r.0) ==> r.1 == ControlQueryResult::Answer(json_string_object("outcome"@, wire_text(r.0))),
        !outcome_ok(r.0) ==> (r.1.refusal() matches Some((code, _)) && code == code_of(r.0)),
        r.0 == SessionStartOutcome::NotEligible ==> r.1.refusal() == Some((code_of(r.0), NOT_ELIGIBLE_HINT@)),
        r.0 == SessionStartOutcome::Unreadable ==> uuid_parse(trimmed(req.session_id@)) is None
            && r.1.refusal() == Some((code_of(r.0), NOT_A_UUID_HINT@)),
        r.0 == SessionStartOutcome::Conflict ==> r.1.refusal() == Some((code_of(r.0), CONFLICTING_SESSION_HINT@)),
        (r.0 == SessionStartOutcome::Recorded || r.0 == SessionStartOutcome::AlreadyKnown || r.0 == SessionStartOutcome::Conflict)
            ==> uuid_parse(trimmed(req.session_id@)) is Some,
        r.0 == report_outcome(
            recorder.eligibility_of(caller.agent_id),
            uuid_parse(trimmed(req.session_id@)),
            |sid: u128| recorder.adoption_of(caller.agent_id, caller.epoch, sid),
        ).0,
        forall|id: u128| #[trigger] uuid_text(id) == trimmed(req.session_id@) ==> r.0 == report_outcome(
            recorder.eligibility_of(caller.agent_id),
            Some(id),
            |sid: u128| recorder.adoption_of(caller.agent_id, caller.epoch, sid),
        ).0,
        !outcome_ok(r.0) ==> r.1.refusal() == Some((code_of(r.0), report_outcome(
            recorder.eligibility_of(caller.agent_id),
            uuid_parse(trimmed(req.session_id@)),
            |sid: u128| recorder.adoption_of(caller.agent_id, caller.epoch, sid),
        ).1)),
{
    match eligibility(recorder.assigns_own_session_id(caller.agent_id)) {
        Some(answer) => {
            return answer;
        },
        None => {},
    }
    let sid = match read_session_id(req.session_id.as_str()) {
        Some(sid) => sid,
        None => {
            return finish(SessionStartOutcome::Unreadable, NOT_A_UUID_HINT);
        },
    };
    adoption_answer(recorder.adopt(caller.agent_id, caller.epoch, sid))
}

} // verus!
