//! The input-lease gate every entrance of this daemon's own command table goes through: a
//! command that moves a live agent's input reaches it only when the caller may type to it.

use vstd::prelude::*;

use crate::error::{no_retry, CommandError, ErrorCode, RetryMode};
use crate::ids::{AgentId, ConnId};
use crate::multiview::{lease_allows, MultiViewState, INPUT_LOCKED_REFUSAL};
use crate::text::{push_text, trim_text, trimmed};

verus! {

/// Whether a command that moves an agent's input may reach it. `caller` is the connection that
/// asked; `None` is a connectionless caller (the CLI routes), which never holds a lease: it
/// passes only when nobody holds one.
pub trait InputLease {
    /// Who holds the input lease of which agent.
    spec fn held_leases(&self) -> Map<AgentId, ConnId>;

    fn permits(&self, agent_id: AgentId, caller: Option<ConnId>) -> (r: bool)
        ensures
            r == lease_permits(self.held_leases(), agent_id, caller);
}

/// The lease port of an assembly no viewer can attach to: nothing is ever held.
pub struct NoInputLeases;

impl InputLease for NoInputLeases {
    open spec fn held_leases(&self) -> Map<AgentId, ConnId> {
        Map::empty()
    }

    fn permits(&self, agent_id: AgentId, caller: Option<ConnId>) -> (r: bool) {
        true
    }
}

/// The lease rule every entrance shares: a connection passes when nobody holds the agent's
/// lease or it does; a connectionless caller passes only when nobody does.
pub open spec fn lease_permits(leases: Map<AgentId, ConnId>, agent: AgentId, caller: Option<ConnId>) -> bool {
    match caller {
        Some(conn) => lease_allows(leases, agent, conn),
        None => !leases.contains_key(agent),
    }
}

impl InputLease for MultiViewState {
    open spec fn held_leases(&self) -> Map<AgentId, ConnId> {
        self@.leases
    }

    fn permits(&self, agent_id: AgentId, caller: Option<ConnId>) -> (r: bool) {
        match caller {
            Some(conn) => self.check_input(agent_id, conn),
            None => self.lease_is_free(agent_id),
        }
    }
}

/// What a connectionless caller is told after the common refusal: it cannot acquire, so it is
/// told who holds the lease and what to wait for.
pub const CONNECTIONLESS_LEASE_TAIL: &'static str = " \u{2014} a connected viewer holds this agent's input; retry after it releases";

pub open spec fn lease_refusal_text(caller: Option<ConnId>) -> Seq<char> {
    match caller {
        Some(_) => INPUT_LOCKED_REFUSAL@,
        None => INPUT_LOCKED_REFUSAL@ + CONNECTIONLESS_LEASE_TAIL@,
    }
}

/// The refusal of a caller without the lease: `CONFLICT` with the same words on every entrance,
/// plus the tail for a connectionless caller.
pub fn lease_refusal(caller: Option<ConnId>) -> (e: CommandError)
    ensures
        e.code == ErrorCode::Conflict,
        e.message@ == lease_refusal_text(caller),
        e.retry == RetryMode::Never,
{
    match caller {
        Some(_) => no_retry(ErrorCode::Conflict, INPUT_LOCKED_REFUSAL.to_owned()),
        None => {
            let mut m = INPUT_LOCKED_REFUSAL.to_owned();
            push_text(&mut m, CONNECTIONLESS_LEASE_TAIL);
            no_retry(ErrorCode::Conflict, m)
        },
    }
}

/// The target a lease check resolves: a string `target` that is not blank. Anything else is
/// left to the command, which refuses it naming the field.
pub fn lease_target(target: Option<&str>) -> (r: Option<String>)
    ensures
        match target {
            None => r is None,
            Some(t) => if trimmed(t@).len() == 0 {
                r is None
            } else {
                r matches Some(s) && s@ == t@
            },
        },
{
    match target {
        None => None,
        Some(t) => {
            let trimmed_t = trim_text(t);
            if trimmed_t.as_str().is_empty() {
                None
            } else {
                Some(t.to_owned())
            }
        },
    }
}

/// The lease gate for a resolved agent: `Ok` to run, or the refusal.
pub fn admit_input<L: InputLease>(lease: &L, agent: AgentId, caller: Option<ConnId>) -> (r: Result<(), CommandError>)
    ensures
        (r is Ok) == lease_permits(lease.held_leases(), agent, caller),
        r matches Err(e) ==> e.code == ErrorCode::Conflict && e.message@ == lease_refusal_text(caller),
{
    if lease.permits(agent, caller) {
        Ok(())
    } else {
        Err(lease_refusal(caller))
    }
}

} // verus!
