//! One client connection: what it owns while it lives (viewports, subscriptions, warning
//! latches) and the decisions the dispatcher makes on its frames — the lease gate, the size a
//! resize lands on, the answers to lease requests, the stop-daemon policy, and the replies the
//! daemon words itself.

use std::collections::HashMap;
use vstd::prelude::*;

use crate::error::{code_text, CommandError};
use crate::ids::{format_uuid, uuid_text, AgentId, ConnId, RequestId};
use crate::multiview::{lease_allows, smallest_of, LeaseChange, MultiViewState, ViewKey, INPUT_LOCKED_REFUSAL};
use crate::roster::{owner_of, owner_text, OWNER_TOKEN_PREFIX};
use crate::text::{chars_of, concat3, decimal, decimal_text, push_text, same_text};

verus! {

broadcast use vstd::std_specs::hash::group_hash_axioms;

/// A frame could not be queued for a connection (queue full or closed).
#[derive(Clone, Copy, Debug, PartialEq, Eq, Structural)]
pub struct SinkError;

impl SinkError {
    /// What the failure says when reported.
    pub fn describe(&self) -> (s: &'static str)
        ensures
            s@ == "outbound sink enqueue failed"@,
    {
        "outbound sink enqueue failed"
    }
}

/// Whether a connection goes on after a frame.
#[derive(Clone, Copy, Debug, PartialEq, Eq, Structural)]
pub enum DispatchFlow {
    Continue,
    /// The connection ends — only after a stop-daemon request.
    Close,
}

/// What one connection holds while it lives, released when it goes.
pub struct ConnectionSession {
    conn_id: ConnId,
    /// The output subscription each agent has on this connection.
    subs: HashMap<AgentId, u64>,
    /// The viewports this connection registered.
    owned_viewports: Vec<(AgentId, String)>,
    /// Whether a registration claiming another connection's token was already reported here.
    claimed_owner_warned: bool,
    /// Whether an outcome frame with no round trip to attach it to was already reported here.
    stray_outcome_warned: bool,
}

/// The viewport keys a list of `(agent, viewport)` pairs names.
pub open spec fn view_keys(v: Seq<(AgentId, String)>) -> Seq<ViewKey> {
    v.map_values(|p: (AgentId, String)| (p.0, p.1@))
}

impl ConnectionSession {
    /// The connection's number.
    pub closed spec fn conn(&self) -> ConnId {
        self.conn_id
    }

    pub fn conn_id(&self) -> (c: ConnId)
        ensures
            c == self.conn(),
    {
        self.conn_id
    }

    pub closed spec fn subscriptions(&self) -> Map<AgentId, u64> {
        self.subs@
    }

    pub closed spec fn viewports(&self) -> Seq<ViewKey> {
        view_keys(self.owned_viewports@)
    }

    pub closed spec fn owner_warned(&self) -> bool {
        self.claimed_owner_warned
    }

    pub closed spec fn outcome_warned(&self) -> bool {
        self.stray_outcome_warned
    }

    pub fn new(conn_id: ConnId) -> (s: ConnectionSession)
        ensures
            s.conn() == conn_id,
            s.subscriptions() == Map::<AgentId, u64>::empty(),
            s.viewports() == Seq::<ViewKey>::empty(),
            !s.owner_warned(),
            !s.outcome_warned(),
    {
        let s = ConnectionSession {
            conn_id,
            subs: HashMap::new(),
            owned_viewports: Vec::new(),
            claimed_owner_warned: false,
            stray_outcome_warned: false,
        };
        assert(s.viewports() =~= Seq::<ViewKey>::empty());
        s
    }

    /// The owner token derived from this connection's number. Nothing on the serving path asks
    /// for it: the roster answers the token it stored at attach time.
    pub fn owner_token(&self) -> (t: String)
        ensures
            t@ == owner_text(self.conn()),
    {
        owner_of(self.conn_id)
    }

    /// The viewports this connection registered, each once, in order of first registration.
    pub fn owned_viewports(&self) -> (v: &Vec<(AgentId, String)>)
        ensures
            view_keys(v@) == self.viewports(),
    {
        &self.owned_viewports
    }

    /// Records that this connection registered a viewport (once per key).
    pub fn note_viewport(&mut self, agent: AgentId, viewport_id: &str)
        ensures
            final(self).viewports() == (if old(self).viewports().contains((agent, viewport_id@)) {
                old(self).viewports()
            } else {
                old(self).viewports().push((agent, viewport_id@))
            }),
            final(self).conn() == old(self).conn(),
            final(self).subscriptions() == old(self).subscriptions(),
            final(self).owner_warned() == old(self).owner_warned(),
            final(self).outcome_warned() == old(self).outcome_warned(),
    {
        let ghost keys = self.viewports();
        for i in 0..self.owned_viewports.len()
            invariant
                keys == view_keys(self.owned_viewports@),
                forall|j: int| 0 <= j < i ==> keys[j] != (agent, viewport_id@),
        {
            if self.owned_viewports[i].0 == agent && same_text(self.owned_viewports[i].1.as_str(), viewport_id) {
                assert(keys[i as int] == (agent, viewport_id@));
                return;
            }
        }
        proof {
            if keys.contains((agent, viewport_id@)) {
                let j = choose|j: int| 0 <= j < keys.len() && keys[j] == (agent, viewport_id@);
                assert(keys[j] != (agent, viewport_id@));
            }
        }
        self.owned_viewports.push((agent, viewport_id.to_owned()));
        assert(self.viewports() =~= keys.push((agent, viewport_id@)));
    }

    /// Records the output subscription an agent now has on this connection and answers the one
    /// it replaces, when that one is a different subscription (it must be released).
    pub fn record_subscription(&mut self, agent: AgentId, sink: u64) -> (stale: Option<u64>)
        ensures
            final(self).subscriptions() == old(self).subscriptions().insert(agent, sink),
            stale == (if old(self).subscriptions().contains_key(agent) && old(self).subscriptions()[agent] != sink {
                Some(old(self).subscriptions()[agent])
            } else {
                None
            }),
            final(self).conn() == old(self).conn(),
            final(self).viewports() == old(self).viewports(),
            final(self).owner_warned() == old(self).owner_warned(),
            final(self).outcome_warned() == old(self).outcome_warned(),
    {
        match self.subs.insert(agent, sink) {
            Some(old_sink) => {
                if old_sink != sink {
                    Some(old_sink)
                } else {
                    None
                }
            },
            None => None,
        }
    }

    /// Ends an agent's output subscription on this connection; answers it, to be released.
    pub fn take_subscription(&mut self, agent: AgentId) -> (r: Option<u64>)
        ensures
            final(self).subscriptions() == old(self).subscriptions().remove(agent),
            r == (if old(self).subscriptions().contains_key(agent) {
                Some(old(self).subscriptions()[agent])
            } else {
                None
            }),
            final(self).conn() == old(self).conn(),
            final(self).viewports() == old(self).viewports(),
            final(self).owner_warned() == old(self).owner_warned(),
            final(self).outcome_warned() == old(self).outcome_warned(),
    {
        self.subs.remove(&agent)
    }

    /// Whether an outcome frame with nothing to attach to is the first on this connection (it
    /// is reported at warning level once; the rest go to debug, so a client cannot flood the
    /// default log).
    pub fn first_stray_outcome(&mut self) -> (first: bool)
        ensures
            first == !old(self).outcome_warned(),
            final(self).outcome_warned(),
            final(self).conn() == old(self).conn(),
            final(self).subscriptions() == old(self).subscriptions(),
            final(self).viewports() == old(self).viewports(),
            final(self).owner_warned() == old(self).owner_warned(),
    {
        let first = !self.stray_outcome_warned;
        self.stray_outcome_warned = true;
        first
    }
}

/// The answer to an outcome frame on a connection that has no round trip to attach it to.
pub const STRAY_OUTCOME_REFUSAL: &'static str = "this daemon does not relay commands, so it has nothing to attach this outcome to";

/// How a registration's claimed owner token is logged.
#[derive(Clone, Copy, Debug, PartialEq, Eq, Structural)]
pub enum ClaimNote {
    /// Nothing is logged.
    Silent,
    /// A warning: the claim has this daemon's token shape and is not the stored owner.
    Warn,
    /// A debug line: an ordinary mismatch (a client cannot know its token).
    Debug,
}

pub open spec fn starts_with(t: Seq<char>, prefix: Seq<char>) -> bool {
    prefix.len() <= t.len() && t.take(prefix.len() as int) == prefix
}

/// The note a claimed owner token gets: nothing for a blank claim or the stored owner; a
/// warning, once per connection, for a claim in this daemon's token shape (no honest client
/// writes one); a debug line otherwise. The claim is never used.
pub open spec fn claim_note(claimed: Seq<char>, actual: Option<Seq<char>>, warned: bool) -> ClaimNote {
    if claimed.len() == 0 || actual == Some(claimed) {
        ClaimNote::Silent
    } else if starts_with(claimed, OWNER_TOKEN_PREFIX@) {
        if warned {
            ClaimNote::Silent
        } else {
            ClaimNote::Warn
        }
    } else {
        ClaimNote::Debug
    }
}

/// A connection that claims this daemon's token shape is reported once: after the warning,
/// the same claim is never warned about again on that connection.
pub proof fn lemma_an_impostor_is_warned_once(claimed: Seq<char>, actual: Option<Seq<char>>)
    ensures
        claim_note(claimed, actual, true) != ClaimNote::Warn,
{
}

fn has_prefix(t: &str, prefix: &str) -> (r: bool)
    ensures
        r == starts_with(t@, prefix@),
{
    let tc = chars_of(t);
    let pc = chars_of(prefix);
    if pc.len() > tc.len() {
        return false;
    }
    for i in 0..pc.len()
        invariant
            pc@ == prefix@,
            tc@ == t@,
            pc@.len() <= tc@.len(),
            forall|j: int| 0 <= j < i ==> tc@[j] == pc@[j],
    {
        if tc[i] != pc[i] {
            assert(t@.take(prefix@.len() as int)[i as int] != prefix@[i as int]);
            return false;
        }
    }
    assert(t@.take(prefix@.len() as int) =~= prefix@);
    true
}

/// Decides how a registration's claimed owner is logged and latches the once-per-connection
/// warning (see `claim_note`). `actual` is the owner token the roster stored for this
/// connection, `None` when it is not attached.
pub fn note_claimed_owner(session: &mut ConnectionSession, claimed: &str, actual: Option<&str>) -> (n: ClaimNote)
    ensures
        n == claim_note(claimed@, match actual { Some(a) => Some(a@), None => None }, old(session).owner_warned()),
        final(session).owner_warned() == (old(session).owner_warned() || n == ClaimNote::Warn),
        final(session).conn() == old(session).conn(),
        final(session).subscriptions() == old(session).subscriptions(),
        final(session).viewports() == old(session).viewports(),
        final(session).outcome_warned() == old(session).outcome_warned(),
{
    let same = match actual {
        Some(a) => same_text(a, claimed),
        None => false,
    };
    if claimed.is_empty() || same {
        return ClaimNote::Silent;
    }
    if has_prefix(claimed, OWNER_TOKEN_PREFIX) {
        if session.claimed_owner_warned {
            ClaimNote::Silent
        } else {
            session.claimed_owner_warned = true;
            ClaimNote::Warn
        }
    } else {
        ClaimNote::Debug
    }
}

// ---------------------------------------------------------------------------------------------
// Decisions on frames.
// ---------------------------------------------------------------------------------------------

/// The lease gate for frames that type into an agent (write, interrupt): allowed when nobody
/// holds its lease or this connection does.
pub fn input_gate(mv: &MultiViewState, agent: AgentId, conn: ConnId) -> (r: Result<(), String>)
    ensures
        (r is Ok) == lease_allows(mv@.leases, agent, conn),
        r matches Err(e) ==> e@ == INPUT_LOCKED_REFUSAL@,
{
    if mv.check_input(agent, conn) {
        Ok(())
    } else {
        Err(INPUT_LOCKED_REFUSAL.to_owned())
    }
}

pub const LEASE_HELD_REFUSAL: &'static str = "input held by another viewer";

pub const LEASE_RELEASE_REFUSAL: &'static str = "input lease held by another viewer";

/// The answer to a lease request and whether every viewer is told of a change: a change is
/// broadcast (held after an acquire, free after a release); a no-op is acknowledged quietly; a
/// lease held by another connection is refused.
pub fn lease_answer(change: LeaseChange, acquiring: bool) -> (r: (Result<(), String>, Option<bool>))
    ensures
        (r.0 is Ok) == (change != LeaseChange::HeldByOther),
        r.0 matches Err(e) ==> e@ == (if acquiring { LEASE_HELD_REFUSAL@ } else { LEASE_RELEASE_REFUSAL@ }),
        r.1 == (if change == LeaseChange::Changed { Some(acquiring) } else { None::<bool> }),
{
    match change {
        LeaseChange::Changed => (Ok(()), Some(acquiring)),
        LeaseChange::Unchanged => (Ok(()), None),
        LeaseChange::HeldByOther => {
            if acquiring {
                (Err(LEASE_HELD_REFUSAL.to_owned()), None)
            } else {
                (Err(LEASE_RELEASE_REFUSAL.to_owned()), None)
            }
        },
    }
}

/// The size a resize lands on. With a viewport id the viewport is recorded (for this connection
/// too, so it is dropped when the connection goes) and the agent takes the smallest of its
/// viewports; without one (an older client) the requested size is used as it is.
pub fn resize_target(
    mv: &mut MultiViewState,
    session: &mut ConnectionSession,
    agent: AgentId,
    viewport_id: Option<String>,
    cols: u16,
    rows: u16,
) -> (r: (u16, u16))
    requires
        old(mv).well_formed(),
    ensures
        final(mv).well_formed(),
        final(mv)@.leases == old(mv)@.leases,
        final(session).conn() == old(session).conn(),
        final(session).subscriptions() == old(session).subscriptions(),
        final(session).owner_warned() == old(session).owner_warned(),
        final(session).outcome_warned() == old(session).outcome_warned(),
        match viewport_id {
            None => r == (cols, rows) && final(mv)@.sizes == old(mv)@.sizes
                && final(session).viewports() == old(session).viewports(),
            Some(v) => {
                &&& final(mv)@.sizes == old(mv)@.sizes.insert((agent, v@), (cols, rows))
                &&& smallest_of(final(mv)@.sizes, agent, Some(r))
                &&& final(session).viewports() == (if old(session).viewports().contains((agent, v@)) {
                    old(session).viewports()
                } else {
                    old(session).viewports().push((agent, v@))
                })
            },
        },
{
    match viewport_id {
        Some(v) => {
            session.note_viewport(agent, v.as_str());
            proof {
                if !old(session).viewports().contains((agent, v@)) {
                    assert(session.viewports()[session.viewports().len() - 1] == (agent, v@));
                }
            }
            match mv.set_viewport(agent, v, cols, rows) {
                Some(size) => size,
                None => (cols, rows),
            }
        },
        None => (cols, rows),
    }
}

/// How an agent is started from a stored profile.
#[derive(Clone, Copy, Debug, PartialEq, Eq, Structural)]
pub enum SpawnMode {
    Fresh,
    Resume,
}

/// Activating a profile resumes its session when it has one, or when the client asks to; a
/// fresh start is only for a profile with no session and no such request.
pub fn activation_mode(resume: bool, has_session: bool) -> (m: SpawnMode)
    ensures
        (m == SpawnMode::Resume) == (resume || has_session),
{
    if resume || has_session {
        SpawnMode::Resume
    } else {
        SpawnMode::Fresh
    }
}

pub open spec fn stop_refusal_text(running: u64) -> Seq<char> {
    "active agents present ("@ + decimal(running as nat) + "); use force=true to stop the daemon"@
}

/// The stop-daemon policy: without `force`, a daemon with running agents refuses to stop (it
/// would kill their sessions); agents that already ended do not count.
pub fn stop_daemon_refusal(force: bool, running: u64) -> (r: Option<String>)
    ensures
        (r is Some) == (!force && running > 0),
        r matches Some(m) ==> m@ == stop_refusal_text(running),
{
    if !force && running > 0 {
        Some(concat3("active agents present (", decimal_text(running).as_str(), "); use force=true to stop the daemon"))
    } else {
        None
    }
}

/// What a stop-daemon frame does, in the order the connection carries it out: stop every agent,
/// send the answer, signal the daemon to shut down, and go on or close.
#[derive(Debug, Clone, PartialEq, Eq)]
pub struct StopPlan {
    /// Stop every agent first (their sessions die with the daemon anyway).
    pub stop_agents: bool,
    pub answer: FrameAnswer,
    /// Tell the daemon to shut down, after the answer went out.
    pub signal_shutdown: bool,
    pub flow: DispatchFlow,
}

/// `p` is what a stop-daemon frame with this request id does: refused (with the number of
/// running agents) and the connection goes on when `force` is off and agents run; otherwise
/// every agent is stopped, the frame acknowledged, shutdown signalled and the connection closed.
pub open spec fn stops_as_planned(p: StopPlan, request_id: RequestId, force: bool, running: u64) -> bool {
    &&& (!force && running > 0) ==> {
        &&& p.answer matches FrameAnswer::Error { request_id: Some(r), message }
        &&& r == request_id && message@ == stop_refusal_text(running)
        &&& !p.stop_agents && !p.signal_shutdown
        &&& p.flow == DispatchFlow::Continue
    }
    &&& !(!force && running > 0) ==> p == (StopPlan {
        stop_agents: true,
        answer: FrameAnswer::Ack { request_id },
        signal_shutdown: true,
        flow: DispatchFlow::Close,
    })
}

/// The stop-daemon step: refused without `force` while agents run (the connection goes on), else
/// every agent is stopped, the frame acknowledged, shutdown signalled and the connection closed.
/// `kill_agents` changes nothing: the agents' processes cannot outlive the daemon.
pub fn stop_daemon_step(request_id: RequestId, force: bool, kill_agents: bool, running: u64) -> (p: StopPlan)
    ensures
        stops_as_planned(p, request_id, force, running),
{
    match stop_daemon_refusal(force, running) {
        Some(message) => StopPlan {
            stop_agents: false,
            answer: FrameAnswer::Error { request_id: Some(request_id), message },
            signal_shutdown: false,
            flow: DispatchFlow::Continue,
        },
        None => StopPlan {
            stop_agents: true,
            answer: FrameAnswer::Ack { request_id },
            signal_shutdown: true,
            flow: DispatchFlow::Close,
        },
    }
}

/// Only a stop-daemon frame closes a connection, and only when the daemon shuts down.
pub proof fn lemma_a_connection_closes_only_when_the_daemon_stops(request_id: RequestId, force: bool, running: u64, p: StopPlan)
    requires
        stops_as_planned(p, request_id, force, running),
    ensures
        (p.flow == DispatchFlow::Close) == p.signal_shutdown,
        p.signal_shutdown ==> p.stop_agents && p.answer == (FrameAnswer::Ack { request_id }),
{
}

pub open spec fn profile_not_found_text(id: AgentId) -> Seq<char> {
    "profile not found: "@ + uuid_text(id)
}

/// The error for a profile id the manager does not hold.
pub fn profile_not_found(id: AgentId) -> (m: String)
    ensures
        m@ == profile_not_found_text(id),
{
    let mut m = "profile not found: ".to_owned();
    push_text(&mut m, format_uuid(id).as_str());
    m
}

/// How renaming a profile came out.
#[derive(Clone, Copy, Debug, PartialEq, Eq, Structural)]
pub enum RenameOutcome {
    Renamed,
    Unchanged,
    NotFound,
    /// No unique name could be formed: every numbered variant is taken.
    Exhausted,
}

pub open spec fn rename_exhausted_text(id: AgentId) -> Seq<char> {
    "name suffix space exhausted \u{2014} cannot assign a unique name: "@ + uuid_text(id)
}

/// The answer to a rename; a success (renamed or unchanged) is followed by a profile-list
/// broadcast.
pub fn rename_answer(outcome: RenameOutcome, id: AgentId) -> (r: Result<(), String>)
    ensures
        (r is Ok) == (outcome == RenameOutcome::Renamed || outcome == RenameOutcome::Unchanged),
        r matches Err(m) ==> m@ == (if outcome == RenameOutcome::NotFound {
            profile_not_found_text(id)
        } else {
            rename_exhausted_text(id)
        }),
{
    match outcome {
        RenameOutcome::Renamed | RenameOutcome::Unchanged => Ok(()),
        RenameOutcome::NotFound => Err(profile_not_found(id)),
        RenameOutcome::Exhausted => {
            let mut m = "name suffix space exhausted \u{2014} cannot assign a unique name: ".to_owned();
            push_text(&mut m, format_uuid(id).as_str());
            Err(m)
        },
    }
}

pub open spec fn reparent_refusal_text(child: AgentId) -> Seq<char> {
    "reparent rejected (missing/self-parent/cycle/2-level): child="@ + uuid_text(child)
}

/// The answer to moving a profile under another; the manager refuses a missing profile, a
/// self-parent, a cycle and a third level alike.
pub fn reparent_answer(accepted: bool, child: AgentId) -> (r: Result<(), String>)
    ensures
        (r is Ok) == accepted,
        r matches Err(m) ==> m@ == reparent_refusal_text(child),
{
    if accepted {
        Ok(())
    } else {
        let mut m = "reparent rejected (missing/self-parent/cycle/2-level): child=".to_owned();
        push_text(&mut m, format_uuid(child).as_str());
        Err(m)
    }
}

/// A typed failure as one line of an `Error` event, which has no typed field: `CODE: message`,
/// so a client can tell the code without parsing the prose.
pub open spec fn error_line_text(code: Seq<char>, message: Seq<char>) -> Seq<char> {
    code + ": "@ + message
}

pub fn error_line(e: &CommandError) -> (m: String)
    ensures
        m@ == error_line_text(code_text(e.code), e.message@),
{
    concat3(e.code.as_str(), ": ", e.message.as_str())
}

/// How a frame that names a request id is answered: an acknowledgement, or an error event that
/// carries the id back.
#[derive(Debug, Clone, PartialEq, Eq)]
pub enum FrameAnswer {
    Ack { request_id: RequestId },
    Error { request_id: Option<RequestId>, message: String },
}

/// The answer to a frame from how it went: `Ok` is acknowledged, a failure's message goes back
/// in an error event under the same request id — every such frame is answered, so the sender
/// never waits on a request id for nothing.
pub fn answer_of(request_id: RequestId, result: Result<(), String>) -> (a: FrameAnswer)
    ensures
        match result {
            Ok(_) => a == (FrameAnswer::Ack { request_id }),
            Err(m) => a matches FrameAnswer::Error { request_id: Some(r), message } && r == request_id && message@ == m@,
        },
{
    match result {
        Ok(()) => FrameAnswer::Ack { request_id },
        Err(message) => FrameAnswer::Error { request_id: Some(request_id), message },
    }
}

/// The answer to a roster frame (register, update): as `answer_of`, with a typed failure sent as
/// its `CODE: message` line so the code reaches the sender.
pub fn roster_answer(request_id: RequestId, result: Result<(), CommandError>) -> (a: FrameAnswer)
    ensures
        match result {
            Ok(_) => a == (FrameAnswer::Ack { request_id }),
            Err(e) => a matches FrameAnswer::Error { request_id: Some(r), message } && r == request_id
                && message@ == error_line_text(code_text(e.code), e.message@),
        },
{
    match result {
        Ok(()) => FrameAnswer::Ack { request_id },
        Err(e) => FrameAnswer::Error { request_id: Some(request_id), message: error_line(&e) },
    }
}

// ---------------------------------------------------------------------------------------------
// Subscriptions.
// ---------------------------------------------------------------------------------------------

/// How the output replay of a subscription starts, as the core reports it.
#[derive(Clone, Copy, Debug, PartialEq, Eq, Structural)]
pub enum ReplayKind {
    /// From the oldest output held (another epoch, or no position given).
    FromOldest,
    /// The position asked for was already evicted.
    Truncated,
    /// Right after the position asked for.
    Resumed,
}

/// What the client is told to do with its view, in the subscribe acknowledgement.
#[derive(Clone, Copy, Debug, PartialEq, Eq, Structural)]
pub enum SubscribeAction {
    Reset,
    TruncatedReplay,
    Resume,
}

pub open spec fn action_for(kind: ReplayKind) -> SubscribeAction {
    match kind {
        ReplayKind::FromOldest => SubscribeAction::Reset,
        ReplayKind::Truncated => SubscribeAction::TruncatedReplay,
        ReplayKind::Resumed => SubscribeAction::Resume,
    }
}

pub fn kind_to_action(kind: ReplayKind) -> (a: SubscribeAction)
    ensures
        a == action_for(kind),
{
    match kind {
        ReplayKind::FromOldest => SubscribeAction::Reset,
        ReplayKind::Truncated => SubscribeAction::TruncatedReplay,
        ReplayKind::Resumed => SubscribeAction::Resume,
    }
}

/// A replay position is only meaningful in the epoch it was taken in.
pub fn epoch_matches(requested: Option<u32>, current: u32) -> (r: bool)
    ensures
        r == (requested == Some(current)),
{
    match requested {
        Some(e) => e == current,
        None => false,
    }
}

pub open spec fn missing_agent_text(agent: AgentId) -> Seq<char> {
    "subscribe failed: agent "@ + uuid_text(agent) + " not found"@
}

/// The error for a subscription to an agent the manager does not know; no acknowledgement goes
/// out for it.
pub fn subscribe_missing_agent(agent: AgentId) -> (m: String)
    ensures
        m@ == missing_agent_text(agent),
{
    concat3("subscribe failed: agent ", format_uuid(agent).as_str(), " not found")
}

pub open spec fn replay_dropped_text(agent: AgentId) -> Seq<char> {
    "replay truncated for agent "@ + uuid_text(agent) + ": output dropped during replay; please refresh"@
}

/// The extra notice after a replay: only when frames were dropped while replaying and the
/// acknowledgement did not already say the replay was truncated.
pub fn replay_drop_notice(kind: ReplayKind, dropped: bool, agent: AgentId) -> (r: Option<String>)
    ensures
        (r is Some) == (kind != ReplayKind::Truncated && dropped),
        r matches Some(m) ==> m@ == replay_dropped_text(agent),
{
    if kind != ReplayKind::Truncated && dropped {
        Some(concat3(
            "replay truncated for agent ",
            format_uuid(agent).as_str(),
            ": output dropped during replay; please refresh",
        ))
    } else {
        None
    }
}

/// What a subscription sends after its replay has been written.
#[derive(Debug, Clone, PartialEq, Eq)]
pub enum ReplayEnd {
    /// An error event without a request id.
    Notice { message: String },
    /// The end of the replay: live output follows.
    Complete { agent_id: AgentId, epoch: u32 },
}

/// The acknowledgement of a subscription, sent before any replayed output: what the client does
/// with its view, and whether the replay was already known to be cut.
pub fn subscribe_ack_shape(kind: ReplayKind) -> (r: (SubscribeAction, bool))
    ensures
        r == (action_for(kind), kind == ReplayKind::Truncated),
{
    (kind_to_action(kind), match kind {
        ReplayKind::Truncated => true,
        _ => false,
    })
}

/// The events that close a subscription once its replay went out, in order: a notice when output
/// was dropped during a replay the acknowledgement did not already call cut, then the completion
/// in the agent's current epoch, always last.
pub fn after_replay(kind: ReplayKind, dropped: bool, agent: AgentId, epoch: u32) -> (v: Vec<ReplayEnd>)
    ensures
        v.len() == (if kind != ReplayKind::Truncated && dropped { 2int } else { 1int }),
        v@.last() == (ReplayEnd::Complete { agent_id: agent, epoch }),
        v.len() == 2 ==> (v@[0] matches ReplayEnd::Notice { message } && message@ == replay_dropped_text(agent)),
{
    let mut v: Vec<ReplayEnd> = Vec::new();
    match replay_drop_notice(kind, dropped, agent) {
        Some(message) => v.push(ReplayEnd::Notice { message }),
        None => {},
    }
    v.push(ReplayEnd::Complete { agent_id: agent, epoch });
    v
}

} // verus!
