//! The request correlation table of command delivery: `request_id` → the connection that asked,
//! its deadline, and the seat its single reply is handed out from.
//!
//! Exactly one reply goes out per `request_id`. The seat is the mechanism: it is opened before
//! anything else happens, its waiter is handed out at most once (by `complete`, `expire` or
//! `drain`), and it is released only after the reply frame was written — so a repeat arriving in
//! between folds into the round trip already under way instead of sending the envelope again.
//!
//! Time is a plain millisecond count supplied by the caller; the waiter type `W` is whatever the
//! caller wakes its delivery task with.

use std::collections::HashMap;
use vstd::prelude::*;
use vstd::std_specs::iter::IteratorSpec;

use crate::ids::{ConnId, RequestId};
use crate::text::same_text;

verus! {

broadcast use vstd::std_specs::hash::group_hash_axioms;

/// Numbers seats in the order they were opened; a release names its seat by this, not by key.
pub type SeatToken = u64;

/// Where a seat's answer stands.
pub enum SeatState<W> {
    /// Waiting for the owner's outcome; the waiter is this round trip's reply ticket.
    Awaiting(W),
    /// The outcome arrived and its frame is being written; not yet released.
    Fulfilled,
    /// Folded without an outcome (deadline passed). A repeat must start a fresh attempt.
    Void,
}

/// One round trip in flight.
pub struct Pending<W> {
    /// The connection the reply goes back to.
    pub origin: ConnId,
    /// The connection the envelope was handed to, once it was.
    pub owner: Option<ConnId>,
    /// When the round trip times out, in the caller's milliseconds.
    pub deadline: u64,
    pub token: SeatToken,
    /// The name of the command that opened the seat.
    pub name: String,
    /// The JSON text of its arguments.
    pub args: String,
    pub state: SeatState<W>,
}

impl<W> SeatState<W> {
    pub fn is_fulfilled(&self) -> (r: bool)
        ensures
            r == (*self is Fulfilled),
    {
        match self {
            SeatState::Fulfilled => true,
            _ => false,
        }
    }

    pub fn is_awaiting(&self) -> (r: bool)
        ensures
            r == (*self is Awaiting),
    {
        match self {
            SeatState::Awaiting(_) => true,
            _ => false,
        }
    }
}

/// The abstract content of one seat.
pub struct SeatView<W> {
    pub origin: ConnId,
    pub owner: Option<ConnId>,
    pub deadline: u64,
    pub token: SeatToken,
    pub name: Seq<char>,
    pub args: Seq<char>,
    pub state: SeatState<W>,
}

impl<W> Pending<W> {
    pub open spec fn view(&self) -> SeatView<W> {
        SeatView {
            origin: self.origin,
            owner: self.owner,
            deadline: self.deadline,
            token: self.token,
            name: self.name@,
            args: self.args@,
            state: self.state,
        }
    }
}

/// What opening a seat decided.
#[derive(Debug, PartialEq, Eq, Structural)]
pub enum Seat {
    /// A new round trip holds the key; its release must name this token.
    Opened { token: SeatToken },
    /// The same connection asked the same thing again: the round trip under way answers both.
    Coalesced,
    /// The key is held by a different command (other name or arguments).
    Conflict,
    /// Another connection holds the key with the same command.
    Taken { holder: ConnId },
    /// The table was drained for shutdown and takes no new round trips.
    Closed,
}

/// The abstract table.
pub struct TableView<W> {
    pub seats: Map<RequestId, SeatView<W>>,
    pub next_token: SeatToken,
    pub closed: bool,
    /// How long a round trip may wait, in milliseconds.
    pub span: u64,
}

/// Every seat's token was handed out before the next one.
pub open spec fn well_formed<W>(t: TableView<W>) -> bool {
    forall|k: RequestId| #[trigger] t.seats.contains_key(k) ==> t.seats[k].token < t.next_token
}

/// A seat still waiting whose deadline has come.
pub open spec fn is_due<W>(s: SeatView<W>, now: u64) -> bool {
    s.state is Awaiting && s.deadline <= now
}

/// The seat folded without an outcome.
pub open spec fn voided<W>(s: SeatView<W>) -> SeatView<W> {
    SeatView { state: SeatState::Void, ..s }
}

/// Every due seat folded to `Void`; nothing else changes.
pub open spec fn expire_step<W>(t: TableView<W>, now: u64) -> TableView<W> {
    TableView {
        seats: t.seats.map_values(|s: SeatView<W>| if is_due(s, now) { voided(s) } else { s }),
        ..t
    }
}

/// Opening a seat on a table whose due seats were already settled.
pub open spec fn open_step<W>(
    t: TableView<W>,
    rid: RequestId,
    origin: ConnId,
    name: Seq<char>,
    args: Seq<char>,
    now: u64,
    waiter: W,
) -> (TableView<W>, Seat) {
    if t.closed {
        (t, Seat::Closed)
    } else if t.seats.contains_key(rid) && !(t.seats[rid].state is Void) {
        let held = t.seats[rid];
        if held.name != name || held.args != args {
            (t, Seat::Conflict)
        } else if held.origin == origin {
            (t, Seat::Coalesced)
        } else {
            (t, Seat::Taken { holder: held.origin })
        }
    } else {
        let seat = SeatView {
            origin,
            owner: None,
            deadline: (now + t.span) as u64,
            token: t.next_token,
            name,
            args,
            state: SeatState::Awaiting(waiter),
        };
        (
            TableView {
                seats: t.seats.insert(rid, seat),
                next_token: (t.next_token + 1) as u64,
                ..t
            },
            Seat::Opened { token: t.next_token },
        )
    }
}

/// Attaching an outcome: an awaiting seat becomes `Fulfilled` and hands out its waiter; any
/// other table is left as it is.
pub open spec fn complete_step<W>(t: TableView<W>, rid: RequestId) -> (TableView<W>, Option<W>) {
    if t.seats.contains_key(rid) && t.seats[rid].state is Awaiting {
        (
            TableView {
                seats: t.seats.insert(rid, SeatView { state: SeatState::Fulfilled, ..t.seats[rid] }),
                ..t
            },
            Some(t.seats[rid].state->Awaiting_0),
        )
    } else {
        (t, None)
    }
}

/// Releasing a seat: only the seat holding that token leaves.
pub open spec fn release_step<W>(t: TableView<W>, rid: RequestId, token: SeatToken) -> TableView<W> {
    if t.seats.contains_key(rid) && t.seats[rid].token == token {
        TableView { seats: t.seats.remove(rid), ..t }
    } else {
        t
    }
}

/// Draining: the table closes and empties.
pub open spec fn drain_step<W>(t: TableView<W>) -> TableView<W> {
    TableView { seats: Map::empty(), closed: true, ..t }
}

/// Recording the owner connection the envelope of an awaiting round trip was handed to; only
/// the seat holding that token is marked.
pub open spec fn hand_over_step<W>(t: TableView<W>, rid: RequestId, token: SeatToken, owner: ConnId) -> (TableView<W>, bool) {
    if t.seats.contains_key(rid) && t.seats[rid].token == token && t.seats[rid].state is Awaiting {
        (
            TableView {
                seats: t.seats.insert(rid, SeatView { owner: Some(owner), ..t.seats[rid] }),
                ..t
            },
            true,
        )
    } else {
        (t, false)
    }
}

/// A seat still waiting on an owner connection `conn`, asked by another connection.
pub open spec fn is_orphaned_by<W>(s: SeatView<W>, conn: ConnId) -> bool {
    s.state is Awaiting && s.owner == Some(conn) && s.origin != conn
}

/// Every seat waiting on the departed owner `conn` folds to `Void`; nothing else changes.
pub open spec fn fold_owner_step<W>(t: TableView<W>, conn: ConnId) -> TableView<W> {
    TableView {
        seats: t.seats.map_values(|s: SeatView<W>| if is_orphaned_by(s, conn) { voided(s) } else { s }),
        ..t
    }
}

/// Every seat `conn` opened leaves.
pub open spec fn remove_origin_step<W>(t: TableView<W>, conn: ConnId) -> TableView<W> {
    TableView {
        seats: t.seats.restrict(t.seats.dom().filter(|k: RequestId| t.seats[k].origin != conn)),
        ..t
    }
}

/// The cleanup of a departed connection, on either side of its round trips: the seats waiting on
/// it as owner fold (their callers are owed `OUTCOME_UNKNOWN`), and the seats it opened leave.
pub open spec fn drop_origin_step<W>(t: TableView<W>, conn: ConnId) -> TableView<W> {
    remove_origin_step(fold_owner_step(t, conn), conn)
}

/// `answered` lists exactly the seats of `t` that satisfy `pick` and were awaiting, each once,
/// with the waiter that seat held.
pub open spec fn hands_out<W>(
    answered: Seq<(RequestId, W)>,
    t: TableView<W>,
    pick: spec_fn(SeatView<W>) -> bool,
) -> bool {
    &&& forall|i: int|
        0 <= i < answered.len() ==> {
            let (k, w) = #[trigger] answered[i];
            &&& t.seats.contains_key(k)
            &&& pick(t.seats[k])
            &&& t.seats[k].state == SeatState::Awaiting(w)
        }
    &&& forall|i: int, j: int|
        0 <= i < answered.len() && 0 <= j < answered.len() && i != j ==> (#[trigger] answered[i]).0
            != (#[trigger] answered[j]).0
    &&& forall|k: RequestId|
        #[trigger] t.seats.contains_key(k) && t.seats[k].state is Awaiting && pick(t.seats[k])
            ==> exists|i: int| 0 <= i < answered.len() && (#[trigger] answered[i]).0 == k
}

/// What opening a seat produced: the decision, and the waiters of round trips whose deadline
/// passed and that were settled first (each is owed a `TIMEOUT` reply).
pub struct Opening<W> {
    pub seat: Seat,
    pub expired: Vec<(RequestId, W)>,
}

/// What the cleanup of a departed connection produced.
pub struct Departure<W> {
    /// Round trips the connection held as owner, folded: each caller is owed `OUTCOME_UNKNOWN`.
    pub orphaned: Vec<(RequestId, W)>,
    /// Round trips the connection asked, removed from the table.
    pub removed: Vec<(RequestId, Pending<W>)>,
}

/// The keys of a seat map, each once.
fn keys_of<W>(m: &HashMap<RequestId, Pending<W>>) -> (ks: Vec<RequestId>)
    ensures
        ks@.no_duplicates(),
        forall|k: RequestId| m@.contains_key(k) <==> ks@.contains(k),
{
    let mut ks: Vec<RequestId> = Vec::new();
    for k in it: m.keys()
        invariant
            it.seq() == vstd::std_specs::hash::spec_keys_iter(m).remaining(),
            ks@ == it.seq().take(it.index() as int).unref(),
    {
        ks.push(*k);
        assert(it.seq().take(it.index() + 1).unref() =~= it.seq().take(it.index() as int).unref().push(*k));
    }
    let ghost all = vstd::std_specs::hash::spec_keys_iter(m).remaining();
    assert(ks@ =~= all.unref());
    assert forall|k: RequestId| m@.contains_key(k) <==> ks@.contains(k) by {
        assert(all.unref().to_set().contains(k) <==> all.unref().contains(k));
    }
    ks
}

/// The correlation table.
pub struct CommandDeliveries<W> {
    seats: HashMap<RequestId, Pending<W>>,
    next_token: SeatToken,
    closed: bool,
    deadline: u64,
}

impl<W> View for CommandDeliveries<W> {
    type V = TableView<W>;

    closed spec fn view(&self) -> TableView<W> {
        TableView {
            seats: self.seats@.map_values(|p: Pending<W>| p.view()),
            next_token: self.next_token,
            closed: self.closed,
            span: self.deadline,
        }
    }
}

impl<W> CommandDeliveries<W> {
    /// Default deadline of a round trip, in milliseconds.
    pub const DEFAULT_DEADLINE_MS: u64 = 10_000;

    /// An empty, open table with the default deadline.
    pub fn new() -> (d: Self)
        ensures
            d@.seats.is_empty(),
            !d@.closed,
            d@.next_token == 0,
            d@.span == Self::DEFAULT_DEADLINE_MS,
            well_formed(d@),
    {
        Self::with_deadline(Self::DEFAULT_DEADLINE_MS)
    }

    /// An empty, open table whose round trips time out after `deadline` milliseconds.
    pub fn with_deadline(deadline: u64) -> (d: Self)
        ensures
            d@.seats.is_empty(),
            !d@.closed,
            d@.next_token == 0,
            d@.span == deadline,
            well_formed(d@),
    {
        let d = CommandDeliveries { seats: HashMap::new(), next_token: 0, closed: false, deadline };
        assert(d@.seats =~= Map::empty());
        d
    }

    /// How many seats are taken — answered ones whose frame has not gone out included.
    pub fn in_flight(&self) -> (n: usize)
        ensures
            n == self@.seats.len(),
    {
        assert(self@.seats.dom() =~= self.seats@.dom());
        self.seats.len()
    }

    /// The round trip is over — release its seat after its reply frame was written. The seat is
    /// named by `token`: if the key was meanwhile taken by a newer round trip, that one stays.
    pub fn release(&mut self, request_id: RequestId, token: SeatToken)
        ensures
            final(self)@ == release_step(old(self)@, request_id, token),
            well_formed(old(self)@) ==> well_formed(final(self)@),
    {
        let matches = match self.seats.get(&request_id) {
            Some(p) => p.token == token,
            None => false,
        };
        if matches {
            self.seats.remove(&request_id);
            assert(self@.seats =~= old(self)@.seats.remove(request_id));
        }
    }

    /// Attaches the owner's outcome to its round trip: hands out the waiter to wake, or `None`
    /// when there is no awaiting seat (the outcome came late, or nobody asked). The seat stays,
    /// `Fulfilled`, until `release` — a repeat in between coalesces instead of sending again.
    pub fn complete(&mut self, request_id: RequestId) -> (w: Option<W>)
        ensures
            (final(self)@, w) == complete_step(old(self)@, request_id),
            well_formed(old(self)@) ==> well_formed(final(self)@),
    {
        match self.seats.remove(&request_id) {
            None => {
                assert(self.seats@ =~= old(self).seats@);
                None
            },
            Some(p) => {
                let Pending { origin, owner, deadline, token, name, args, state } = p;
                match state {
                    SeatState::Awaiting(w) => {
                        self.seats.insert(
                            request_id,
                            Pending { origin, owner, deadline, token, name, args, state: SeatState::Fulfilled },
                        );
                        assert(self@.seats =~= complete_step(old(self)@, request_id).0.seats);
                        Some(w)
                    },
                    other => {
                        self.seats.insert(
                            request_id,
                            Pending { origin, owner, deadline, token, name, args, state: other },
                        );
                        assert(self.seats@ =~= old(self).seats@);
                        None
                    },
                }
            },
        }
    }

    /// Folds every round trip whose deadline has come to `Void` and hands out their waiters —
    /// each is owed a `TIMEOUT` reply. Seats are not removed: only `release` removes, after the
    /// frame went out.
    pub fn expire(&mut self, now: u64) -> (answered: Vec<(RequestId, W)>)
        ensures
            final(self)@ == expire_step(old(self)@, now),
            hands_out(answered@, old(self)@, |s: SeatView<W>| is_due(s, now)),
            well_formed(old(self)@) ==> well_formed(final(self)@),
    {
        let ks = keys_of(&self.seats);
        let mut answered: Vec<(RequestId, W)> = Vec::new();
        let ghost before = self@;
        for i in 0..ks.len()
            invariant
                before == old(self)@,
                ks@.no_duplicates(),
                forall|k: RequestId| before.seats.contains_key(k) <==> ks@.contains(k),
                self.next_token == old(self).next_token,
                self.closed == old(self).closed,
                self.deadline == old(self).deadline,
                self@.seats.dom() =~= before.seats.dom(),
                forall|k: RequestId| #[trigger] before.seats.contains_key(k) ==>
                    self@.seats[k] == (if ks@.take(i as int).contains(k) && is_due(before.seats[k], now) {
                        voided(before.seats[k])
                    } else {
                        before.seats[k]
                    }),
                forall|j: int| 0 <= j < answered@.len() ==> {
                    let (k, w) = #[trigger] answered@[j];
                    &&& before.seats.contains_key(k)
                    &&& is_due(before.seats[k], now)
                    &&& before.seats[k].state == SeatState::Awaiting(w)
                    &&& ks@.take(i as int).contains(k)
                },
                forall|a: int, b: int|
                    0 <= a < answered@.len() && 0 <= b < answered@.len() && a != b ==> (#[trigger] answered@[a]).0
                        != (#[trigger] answered@[b]).0,
                forall|k: RequestId|
                    #[trigger] before.seats.contains_key(k) && is_due(before.seats[k], now) && ks@.take(i as int).contains(k)
                        ==> exists|j: int| 0 <= j < answered@.len() && (#[trigger] answered@[j]).0 == k,
        {
            let k = ks[i];
            let ghost prev = answered@;
            let ghost cur = self@;
            assert(ks@.take(i + 1) =~= ks@.take(i as int).push(k));
            assert(!ks@.take(i as int).contains(k)) by {
                if ks@.take(i as int).contains(k) {
                    let j = choose|j: int| 0 <= j < i && ks@.take(i as int)[j] == k;
                    assert(ks@[j] == ks@[i as int]);
                }
            }
            let due = match self.seats.get(&k) {
                Some(p) => p.deadline <= now && p.state.is_awaiting(),
                None => false,
            };
            if due {
                let p = self.seats.remove(&k).unwrap();
                let Pending { origin, owner, deadline, token, name, args, state } = p;
                match state {
                    SeatState::Awaiting(w) => {
                        self.seats.insert(
                            k,
                            Pending { origin, owner, deadline, token, name, args, state: SeatState::Void },
                        );
                        answered.push((k, w));
                        assert(answered@[answered@.len() - 1] == (k, w));
                    },
                    other => {
                        self.seats.insert(k, Pending { origin, owner, deadline, token, name, args, state: other });
                    },
                }
            }
            assert(ks@[i as int] == k);
            assert(ks@.contains(k));
            assert(before.seats.contains_key(k));
            assert(cur.seats[k] == before.seats[k]);
            assert(due == is_due(before.seats[k], now));
            assert(forall|k2: RequestId| k2 != k && #[trigger] self@.seats.contains_key(k2) ==> self@.seats[k2] == cur.seats[k2]);
            assert(self@.seats[k] == (if is_due(before.seats[k], now) { voided(before.seats[k]) } else { before.seats[k] }));
            assert(forall|j: int| 0 <= j < prev.len() ==> answered@[j] == prev[j]);
            assert forall|k2: RequestId| #[trigger] before.seats.contains_key(k2) implies
                self@.seats[k2] == (if ks@.take(i + 1).contains(k2) && is_due(before.seats[k2], now) {
                    voided(before.seats[k2])
                } else {
                    before.seats[k2]
                }) by {
                if k2 != k {
                    assert(ks@.take(i + 1).contains(k2) == ks@.take(i as int).contains(k2));
                    assert(self@.seats.contains_key(k2));
                } else {
                    assert(ks@.take(i + 1)[i as int] == k2);
                    assert(ks@.take(i + 1).contains(k2));
                }
            }
            assert forall|j: int| 0 <= j < answered@.len() implies {
                let (k3, w) = #[trigger] answered@[j];
                &&& before.seats.contains_key(k3)
                &&& is_due(before.seats[k3], now)
                &&& before.seats[k3].state == SeatState::Awaiting(w)
                &&& ks@.take(i + 1).contains(k3)
            } by {
                if j < prev.len() {
                    assert(answered@[j] == prev[j]);
                    assert(ks@.take(i as int).contains(prev[j].0));
                } else {
                    assert(answered@[j].0 == k);
                    assert(ks@.take(i + 1)[i as int] == k);
                }
            }
            assert forall|k2: RequestId|
                #[trigger] before.seats.contains_key(k2) && is_due(before.seats[k2], now) && ks@.take(i + 1).contains(k2)
                    implies exists|j: int| 0 <= j < answered@.len() && (#[trigger] answered@[j]).0 == k2 by {
                if k2 == k {
                    assert(answered@[answered@.len() - 1].0 == k);
                } else {
                    assert(ks@.take(i as int).contains(k2));
                    let j = choose|j: int| 0 <= j < prev.len() && (#[trigger] prev[j]).0 == k2;
                    assert(answered@[j] == prev[j]);
                }
            }
            assert(self@.seats.dom() =~= before.seats.dom());
        }
        assert(ks@.take(ks@.len() as int) =~= ks@);
        assert(self@.seats =~= expire_step(before, now).seats);
        answered
    }

    /// Folds every round trip waiting on the owner connection `conn` (and asked by another) to
    /// `Void` and hands out their waiters. Seats are not removed: only `release` removes.
    fn fold_owner(&mut self, conn: ConnId) -> (answered: Vec<(RequestId, W)>)
        ensures
            final(self)@ == fold_owner_step(old(self)@, conn),
            hands_out(answered@, old(self)@, |s: SeatView<W>| is_orphaned_by(s, conn)),
            well_formed(old(self)@) ==> well_formed(final(self)@),
    {
        let ks = keys_of(&self.seats);
        let mut answered: Vec<(RequestId, W)> = Vec::new();
        let ghost before = self@;
        for i in 0..ks.len()
            invariant
                before == old(self)@,
                ks@.no_duplicates(),
                forall|k: RequestId| before.seats.contains_key(k) <==> ks@.contains(k),
                self.next_token == old(self).next_token,
                self.closed == old(self).closed,
                self.deadline == old(self).deadline,
                self@.seats.dom() =~= before.seats.dom(),
                forall|k: RequestId| #[trigger] before.seats.contains_key(k) ==>
                    self@.seats[k] == (if ks@.take(i as int).contains(k) && is_orphaned_by(before.seats[k], conn) {
                        voided(before.seats[k])
                    } else {
                        before.seats[k]
                    }),
                forall|j: int| 0 <= j < answered@.len() ==> {
                    let (k, w) = #[trigger] answered@[j];
                    &&& before.seats.contains_key(k)
                    &&& is_orphaned_by(before.seats[k], conn)
                    &&& before.seats[k].state == SeatState::Awaiting(w)
                    &&& ks@.take(i as int).contains(k)
                },
                forall|a: int, b: int|
                    0 <= a < answered@.len() && 0 <= b < answered@.len() && a != b ==> (#[trigger] answered@[a]).0
                        != (#[trigger] answered@[b]).0,
                forall|k: RequestId|
                    #[trigger] before.seats.contains_key(k) && is_orphaned_by(before.seats[k], conn) && ks@.take(i as int).contains(k)
                        ==> exists|j: int| 0 <= j < answered@.len() && (#[trigger] answered@[j]).0 == k,
        {
            let k = ks[i];
            let ghost prev = answered@;
            let ghost cur = self@;
            assert(ks@.take(i + 1) =~= ks@.take(i as int).push(k));
            assert(!ks@.take(i as int).contains(k)) by {
                if ks@.take(i as int).contains(k) {
                    let j = choose|j: int| 0 <= j < i && ks@.take(i as int)[j] == k;
                    assert(ks@[j] == ks@[i as int]);
                }
            }
            let due = match self.seats.get(&k) {
                Some(p) => p.state.is_awaiting() && p.owner == Some(conn) && p.origin != conn,
                None => false,
            };
            if due {
                let p = self.seats.remove(&k).unwrap();
                let Pending { origin, owner, deadline, token, name, args, state } = p;
                match state {
                    SeatState::Awaiting(w) => {
                        self.seats.insert(
                            k,
                            Pending { origin, owner, deadline, token, name, args, state: SeatState::Void },
                        );
                        answered.push((k, w));
                        assert(answered@[answered@.len() - 1] == (k, w));
                    },
                    other => {
                        self.seats.insert(k, Pending { origin, owner, deadline, token, name, args, state: other });
                    },
                }
            }
            assert(ks@[i as int] == k);
            assert(ks@.contains(k));
            assert(before.seats.contains_key(k));
            assert(cur.seats[k] == before.seats[k]);
            assert(due == is_orphaned_by(before.seats[k], conn));
            assert(forall|k2: RequestId| k2 != k && #[trigger] self@.seats.contains_key(k2) ==> self@.seats[k2] == cur.seats[k2]);
            assert(self@.seats[k] == (if is_orphaned_by(before.seats[k], conn) { voided(before.seats[k]) } else { before.seats[k] }));
            assert(forall|j: int| 0 <= j < prev.len() ==> answered@[j] == prev[j]);
            assert forall|k2: RequestId| #[trigger] before.seats.contains_key(k2) implies
                self@.seats[k2] == (if ks@.take(i + 1).contains(k2) && is_orphaned_by(before.seats[k2], conn) {
                    voided(before.seats[k2])
                } else {
                    before.seats[k2]
                }) by {
                if k2 != k {
                    assert(ks@.take(i + 1).contains(k2) == ks@.take(i as int).contains(k2));
                    assert(self@.seats.contains_key(k2));
                } else {
                    assert(ks@.take(i + 1)[i as int] == k2);
                    assert(ks@.take(i + 1).contains(k2));
                }
            }
            assert forall|j: int| 0 <= j < answered@.len() implies {
                let (k3, w) = #[trigger] answered@[j];
                &&& before.seats.contains_key(k3)
                &&& is_orphaned_by(before.seats[k3], conn)
                &&& before.seats[k3].state == SeatState::Awaiting(w)
                &&& ks@.take(i + 1).contains(k3)
            } by {
                if j < prev.len() {
                    assert(answered@[j] == prev[j]);
                    assert(ks@.take(i as int).contains(prev[j].0));
                } else {
                    assert(answered@[j].0 == k);
                    assert(ks@.take(i + 1)[i as int] == k);
                }
            }
            assert forall|k2: RequestId|
                #[trigger] before.seats.contains_key(k2) && is_orphaned_by(before.seats[k2], conn) && ks@.take(i + 1).contains(k2)
                    implies exists|j: int| 0 <= j < answered@.len() && (#[trigger] answered@[j]).0 == k2 by {
                if k2 == k {
                    assert(answered@[answered@.len() - 1].0 == k);
                } else {
                    assert(ks@.take(i as int).contains(k2));
                    let j = choose|j: int| 0 <= j < prev.len() && (#[trigger] prev[j]).0 == k2;
                    assert(answered@[j] == prev[j]);
                }
            }
            assert(self@.seats.dom() =~= before.seats.dom());
        }
        assert(ks@.take(ks@.len() as int) =~= ks@);
        assert(self@.seats =~= fold_owner_step(before, conn).seats);
        answered
    }

    /// Shutdown: closes the table and empties it, handing out the waiter of every round trip
    /// still awaiting — each is owed an `OUTCOME_UNKNOWN` reply (the envelope may already have
    /// reached the owner). Seats already answered are not counted again, and a closed table opens
    /// no new seat, so shutdown stays bounded.
    pub fn drain(&mut self) -> (answered: Vec<(RequestId, W)>)
        ensures
            final(self)@ == drain_step(old(self)@),
            hands_out(answered@, old(self)@, |s: SeatView<W>| true),
            well_formed(final(self)@),
    {
        let mut taken: HashMap<RequestId, Pending<W>> = HashMap::new();
        std::mem::swap(&mut taken, &mut self.seats);
        self.closed = true;
        let ghost before = old(self)@;
        let ks = keys_of(&taken);
        let mut answered: Vec<(RequestId, W)> = Vec::new();
        for i in 0..ks.len()
            invariant
                before == old(self)@,
                self.seats@ == Map::<RequestId, Pending<W>>::empty(),
                self.closed,
                self.next_token == old(self).next_token,
                self.deadline == old(self).deadline,
                ks@.no_duplicates(),
                forall|k: RequestId| before.seats.contains_key(k) <==> ks@.contains(k),
                forall|k: RequestId| #[trigger] taken@.contains_key(k) <==> (before.seats.contains_key(k) && !ks@.take(i as int).contains(k)),
                forall|k: RequestId| #[trigger] taken@.contains_key(k) ==> taken@[k].view() == before.seats[k],
                forall|j: int| 0 <= j < answered@.len() ==> {
                    let (k, w) = #[trigger] answered@[j];
                    &&& before.seats.contains_key(k)
                    &&& before.seats[k].state == SeatState::Awaiting(w)
                    &&& ks@.take(i as int).contains(k)
                },
                forall|a: int, b: int|
                    0 <= a < answered@.len() && 0 <= b < answered@.len() && a != b ==> (#[trigger] answered@[a]).0
                        != (#[trigger] answered@[b]).0,
                forall|k: RequestId|
                    #[trigger] before.seats.contains_key(k) && before.seats[k].state is Awaiting && ks@.take(i as int).contains(k)
                        ==> exists|j: int| 0 <= j < answered@.len() && (#[trigger] answered@[j]).0 == k,
        {
            let k = ks[i];
            let ghost prev = answered@;
            let ghost t0 = taken@;
            assert(ks@.take(i + 1) =~= ks@.take(i as int).push(k));
            assert(ks@[i as int] == k);
            assert(ks@.contains(k));
            assert(!ks@.take(i as int).contains(k)) by {
                if ks@.take(i as int).contains(k) {
                    let j = choose|j: int| 0 <= j < i && ks@.take(i as int)[j] == k;
                    assert(ks@[j] == ks@[i as int]);
                }
            }
            assert(taken@.contains_key(k));
            let p = taken.remove(&k).unwrap();
            let Pending { state, .. } = p;
            match state {
                SeatState::Awaiting(w) => {
                    answered.push((k, w));
                },
                _ => {},
            }
            assert(forall|j: int| 0 <= j < prev.len() ==> answered@[j] == prev[j]);
            assert forall|k2: RequestId| #[trigger] taken@.contains_key(k2) <==> (before.seats.contains_key(k2) && !ks@.take(i + 1).contains(k2)) by {
                if k2 != k {
                    assert(ks@.take(i + 1).contains(k2) == ks@.take(i as int).contains(k2));
                } else {
                    assert(ks@.take(i + 1)[i as int] == k2);
                }
            }
            assert forall|j: int| 0 <= j < answered@.len() implies {
                let (k3, w) = #[trigger] answered@[j];
                &&& before.seats.contains_key(k3)
                &&& before.seats[k3].state == SeatState::Awaiting(w)
                &&& ks@.take(i + 1).contains(k3)
            } by {
                if j < prev.len() {
                    assert(answered@[j] == prev[j]);
                    assert(ks@.take(i as int).contains(prev[j].0));
                } else {
                    assert(answered@[j].0 == k);
                    assert(ks@.take(i + 1)[i as int] == k);
                }
            }
            assert forall|k2: RequestId|
                #[trigger] before.seats.contains_key(k2) && before.seats[k2].state is Awaiting && ks@.take(i + 1).contains(k2)
                    implies exists|j: int| 0 <= j < answered@.len() && (#[trigger] answered@[j]).0 == k2 by {
                if k2 == k {
                    assert(answered@[answered@.len() - 1].0 == k);
                } else {
                    assert(ks@.take(i as int).contains(k2));
                    let j = choose|j: int| 0 <= j < prev.len() && (#[trigger] prev[j]).0 == k2;
                    assert(answered@[j] == prev[j]);
                }
            }
        }
        assert(ks@.take(ks@.len() as int) =~= ks@);
        assert(self@.seats =~= Map::empty());
        answered
    }

    /// Every round trip `conn` opened leaves the table; the removed seats are handed back.
    fn remove_origin(&mut self, conn: ConnId) -> (removed: Vec<(RequestId, Pending<W>)>)
        ensures
            final(self)@ == remove_origin_step(old(self)@, conn),
            forall|j: int| 0 <= j < removed@.len() ==> {
                let (k, p) = #[trigger] removed@[j];
                &&& old(self)@.seats.contains_key(k)
                &&& old(self)@.seats[k] == p.view()
                &&& p.origin == conn
            },
            forall|a: int, b: int|
                0 <= a < removed@.len() && 0 <= b < removed@.len() && a != b ==> (#[trigger] removed@[a]).0
                    != (#[trigger] removed@[b]).0,
            forall|k: RequestId|
                #[trigger] old(self)@.seats.contains_key(k) && old(self)@.seats[k].origin == conn
                    ==> exists|j: int| 0 <= j < removed@.len() && (#[trigger] removed@[j]).0 == k,
    {
        let ghost before = old(self)@;
        let ks = keys_of(&self.seats);
        let mut removed: Vec<(RequestId, Pending<W>)> = Vec::new();
        for i in 0..ks.len()
            invariant
                before == old(self)@,
                self.closed == old(self).closed,
                self.next_token == old(self).next_token,
                self.deadline == old(self).deadline,
                ks@.no_duplicates(),
                forall|k: RequestId| before.seats.contains_key(k) <==> ks@.contains(k),
                forall|k: RequestId| #[trigger] self@.seats.contains_key(k) <==> (before.seats.contains_key(k)
                    && !(ks@.take(i as int).contains(k) && before.seats[k].origin == conn)),
                forall|k: RequestId| #[trigger] self@.seats.contains_key(k) ==> self@.seats[k] == before.seats[k],
                forall|j: int| 0 <= j < removed@.len() ==> {
                    let (k, p) = #[trigger] removed@[j];
                    &&& before.seats.contains_key(k)
                    &&& before.seats[k] == p.view()
                    &&& p.origin == conn
                    &&& ks@.take(i as int).contains(k)
                },
                forall|a: int, b: int|
                    0 <= a < removed@.len() && 0 <= b < removed@.len() && a != b ==> (#[trigger] removed@[a]).0
                        != (#[trigger] removed@[b]).0,
                forall|k: RequestId|
                    #[trigger] before.seats.contains_key(k) && before.seats[k].origin == conn && ks@.take(i as int).contains(k)
                        ==> exists|j: int| 0 <= j < removed@.len() && (#[trigger] removed@[j]).0 == k,
        {
            let k = ks[i];
            let ghost prev = removed@;
            let ghost cur = self@;
            assert(ks@.take(i + 1) =~= ks@.take(i as int).push(k));
            assert(ks@[i as int] == k);
            assert(ks@.contains(k));
            assert(!ks@.take(i as int).contains(k)) by {
                if ks@.take(i as int).contains(k) {
                    let j = choose|j: int| 0 <= j < i && ks@.take(i as int)[j] == k;
                    assert(ks@[j] == ks@[i as int]);
                }
            }
            assert(before.seats.contains_key(k));
            assert(cur.seats.contains_key(k));
            assert(cur.seats[k] == before.seats[k]);
            let mine = match self.seats.get(&k) {
                Some(p) => p.origin == conn,
                None => false,
            };
            assert(mine == (before.seats[k].origin == conn));
            if mine {
                let p = self.seats.remove(&k).unwrap();
                assert(p.view() == before.seats[k]);
                removed.push((k, p));
                assert(removed@[removed@.len() - 1].0 == k);
            }
            assert(forall|k2: RequestId| k2 != k ==> (#[trigger] self@.seats.contains_key(k2) == cur.seats.contains_key(k2)));
            assert(self@.seats.contains_key(k) == !mine);
            assert(forall|j: int| 0 <= j < prev.len() ==> removed@[j] == prev[j]);
            assert forall|k2: RequestId| #[trigger] self@.seats.contains_key(k2) <==> (before.seats.contains_key(k2)
                && !(ks@.take(i + 1).contains(k2) && before.seats[k2].origin == conn)) by {
                if k2 != k {
                    assert(ks@.take(i + 1).contains(k2) == ks@.take(i as int).contains(k2));
                } else {
                    assert(ks@.take(i + 1)[i as int] == k2);
                }
            }
            assert forall|k2: RequestId| #[trigger] self@.seats.contains_key(k2) implies self@.seats[k2] == before.seats[k2] by {
                assert(cur.seats.contains_key(k2));
            }
            assert forall|j: int| 0 <= j < removed@.len() implies {
                let (k3, p) = #[trigger] removed@[j];
                &&& before.seats.contains_key(k3)
                &&& before.seats[k3] == p.view()
                &&& p.origin == conn
                &&& ks@.take(i + 1).contains(k3)
            } by {
                if j < prev.len() {
                    assert(removed@[j] == prev[j]);
                    assert(ks@.take(i as int).contains(prev[j].0));
                } else {
                    assert(removed@[j].0 == k);
                    assert(ks@.take(i + 1)[i as int] == k);
                }
            }
            assert forall|k2: RequestId|
                #[trigger] before.seats.contains_key(k2) && before.seats[k2].origin == conn && ks@.take(i + 1).contains(k2)
                    implies exists|j: int| 0 <= j < removed@.len() && (#[trigger] removed@[j]).0 == k2 by {
                if k2 == k {
                    assert(removed@[removed@.len() - 1].0 == k);
                } else {
                    assert(ks@.take(i as int).contains(k2));
                    let j = choose|j: int| 0 <= j < prev.len() && (#[trigger] prev[j]).0 == k2;
                    assert(removed@[j] == prev[j]);
                }
            }
        }
        assert(ks@.take(ks@.len() as int) =~= ks@);
        assert(self@.seats =~= remove_origin_step(before, conn).seats);
        removed
    }

    /// Records that the envelope of an awaiting round trip was handed to the owner connection
    /// `owner`, so that the owner's departure answers it. The seat is named by `token`; `false`
    /// when no awaiting seat holds it.
    pub fn hand_over(&mut self, request_id: RequestId, token: SeatToken, owner: ConnId) -> (marked: bool)
        ensures
            (final(self)@, marked) == hand_over_step(old(self)@, request_id, token, owner),
            well_formed(old(self)@) ==> well_formed(final(self)@),
    {
        match self.seats.remove(&request_id) {
            None => {
                assert(self.seats@ =~= old(self).seats@);
                false
            },
            Some(p) => {
                let Pending { origin, owner: held, deadline, token: t, name, args, state } = p;
                if t == token && state.is_awaiting() {
                    self.seats.insert(
                        request_id,
                        Pending { origin, owner: Some(owner), deadline, token: t, name, args, state },
                    );
                    assert(self@.seats =~= hand_over_step(old(self)@, request_id, token, owner).0.seats);
                    true
                } else {
                    self.seats.insert(request_id, Pending { origin, owner: held, deadline, token: t, name, args, state });
                    assert(self.seats@ =~= old(self).seats@);
                    false
                }
            },
        }
    }

    /// The cleanup of a connection that went away, on either side of its round trips:
    /// - the round trips whose envelope it held as owner, asked by other connections, fold to
    ///   `Void` and hand out their waiters in `orphaned` — each caller is owed an
    ///   `OUTCOME_UNKNOWN` reply (the command may or may not have run);
    /// - the round trips it asked leave the table and come back in `removed`: no reply is built,
    ///   there is nowhere to send one; dropping their waiters wakes the waiting deliveries.
    pub fn drop_origin(&mut self, conn: ConnId) -> (d: Departure<W>)
        ensures
            final(self)@ == drop_origin_step(old(self)@, conn),
            hands_out(d.orphaned@, old(self)@, |s: SeatView<W>| is_orphaned_by(s, conn)),
            forall|j: int| 0 <= j < d.removed@.len() ==> {
                let (k, p) = #[trigger] d.removed@[j];
                &&& old(self)@.seats.contains_key(k)
                &&& old(self)@.seats[k] == p.view()
                &&& p.origin == conn
            },
            forall|a: int, b: int|
                0 <= a < d.removed@.len() && 0 <= b < d.removed@.len() && a != b ==> (#[trigger] d.removed@[a]).0
                    != (#[trigger] d.removed@[b]).0,
            forall|k: RequestId|
                #[trigger] old(self)@.seats.contains_key(k) && old(self)@.seats[k].origin == conn
                    ==> exists|j: int| 0 <= j < d.removed@.len() && (#[trigger] d.removed@[j]).0 == k,
            well_formed(old(self)@) ==> well_formed(final(self)@),
    {
        let ghost before = self@;
        let orphaned = self.fold_owner(conn);
        let ghost mid = self@;
        let removed = self.remove_origin(conn);
        assert forall|k: RequestId| #[trigger] mid.seats.contains_key(k) implies (before.seats.contains_key(k)
            && (mid.seats[k].origin == before.seats[k].origin)
            && (before.seats[k].origin == conn ==> mid.seats[k] == before.seats[k])) by {}
        assert forall|k: RequestId| #[trigger] before.seats.contains_key(k) && before.seats[k].origin == conn
            implies mid.seats.contains_key(k) && mid.seats[k].origin == conn by {}
        proof {
            if well_formed(before) {
                assert(well_formed(mid));
            }
        }
        Departure { orphaned, removed }
    }

    /// Whether `open` may be called at `now`: the deadline it sets fits, and a token is left.
    pub fn can_open(&self, now: u64) -> (r: bool)
        ensures
            r == (now + self@.span <= u64::MAX && self@.next_token < u64::MAX),
    {
        now <= u64::MAX - self.deadline && self.next_token < u64::MAX
    }

    /// Opens the seat of a round trip — the first thing a delivery does, before anything can
    /// answer. Round trips whose deadline has come are settled first (their waiters come back in
    /// `expired`), so a retry arriving just after a deadline gets a fresh attempt instead of
    /// folding into the dead one. A key already held is never overwritten: what was asked again
    /// decides first (other command → `Conflict`), then who asked (same connection →
    /// `Coalesced`, another → `Taken`).
    pub fn open(
        &mut self,
        request_id: RequestId,
        origin: ConnId,
        name: &str,
        args: &str,
        now: u64,
        waiter: W,
    ) -> (r: Opening<W>)
        requires
            now + old(self)@.span <= u64::MAX,
            old(self)@.next_token < u64::MAX,
        ensures
            hands_out(r.expired@, old(self)@, |s: SeatView<W>| is_due(s, now)),
            (final(self)@, r.seat) == open_step(
                expire_step(old(self)@, now),
                request_id,
                origin,
                name@,
                args@,
                now,
                waiter,
            ),
            well_formed(old(self)@) ==> well_formed(final(self)@),
    {
        let expired = self.expire(now);
        if self.closed {
            return Opening { seat: Seat::Closed, expired };
        }
        let held: Option<Seat> = match self.seats.get(&request_id) {
            None => None,
            Some(p) => {
                if !p.state.is_awaiting() && !p.state.is_fulfilled() {
                    None
                } else if !same_text(p.name.as_str(), name) || !same_text(p.args.as_str(), args) {
                    Some(Seat::Conflict)
                } else if p.origin == origin {
                    Some(Seat::Coalesced)
                } else {
                    Some(Seat::Taken { holder: p.origin })
                }
            },
        };
        if let Some(seat) = held {
            return Opening { seat, expired };
        }
        let token = self.next_token;
        self.next_token = self.next_token + 1;
        let deadline = now + self.deadline;
        self.seats.insert(
            request_id,
            Pending {
                origin,
                owner: None,
                deadline,
                token,
                name: name.to_owned(),
                args: args.to_owned(),
                state: SeatState::Awaiting(waiter),
            },
        );
        assert(self@.seats =~= open_step(
            expire_step(old(self)@, now),
            request_id,
            origin,
            name@,
            args@,
            now,
            waiter,
        ).0.seats);
        Opening { seat: Seat::Opened { token }, expired }
    }
}

/// Exactly one reply per round trip: once an outcome has been attached, a second outcome for the
/// same `request_id` finds no awaiting seat and is dropped.
pub proof fn lemma_an_outcome_is_attached_at_most_once<W>(t: TableView<W>, rid: RequestId)
    ensures
        complete_step(complete_step(t, rid).0, rid).1 is None,
{
}

/// A round trip whose deadline passed was answered with `TIMEOUT`; a late outcome for it cannot
/// answer a second time.
pub proof fn lemma_a_late_outcome_cannot_answer_again<W>(t: TableView<W>, rid: RequestId, now: u64)
    requires
        t.seats.contains_key(rid),
        is_due(t.seats[rid], now),
    ensures
        complete_step(expire_step(t, now), rid).1 is None,
{
}

/// A deadline answers each round trip once: expiring again at any later time hands out nothing
/// for the seats already folded.
pub proof fn lemma_a_deadline_answers_once<W>(t: TableView<W>, rid: RequestId, now: u64, later: u64)
    requires
        t.seats.contains_key(rid),
        is_due(t.seats[rid], now),
    ensures
        expire_step(t, now).seats.contains_key(rid),
        !is_due(expire_step(t, now).seats[rid], later),
{
}

/// After shutdown the table is closed and empty: a second drain answers nothing, and every new
/// round trip is refused (`Closed`) without taking a seat.
pub proof fn lemma_a_drained_table_refuses_new_round_trips<W>(
    t: TableView<W>,
    answered: Seq<(RequestId, W)>,
    rid: RequestId,
    origin: ConnId,
    name: Seq<char>,
    args: Seq<char>,
    now: u64,
    waiter: W,
)
    requires
        hands_out(answered, drain_step(t), |s: SeatView<W>| true),
    ensures
        answered.len() == 0,
        open_step(expire_step(drain_step(t), now), rid, origin, name, args, now, waiter) == (
            expire_step(drain_step(t), now),
            Seat::Closed,
        ),
        expire_step(drain_step(t), now).seats.is_empty(),
{
    if answered.len() > 0 {
        let (k, w) = answered[0];
        assert(drain_step(t).seats.contains_key(k));
    }
    assert(expire_step(drain_step(t), now).seats =~= Map::empty());
}

/// A refused open — coalesced, conflicting, taken or closed — leaves the table exactly as it was.
pub proof fn lemma_a_refused_open_changes_nothing<W>(
    t: TableView<W>,
    rid: RequestId,
    origin: ConnId,
    name: Seq<char>,
    args: Seq<char>,
    now: u64,
    waiter: W,
)
    requires
        !(open_step(t, rid, origin, name, args, now, waiter).1 is Opened),
    ensures
        open_step(t, rid, origin, name, args, now, waiter).0 == t,
{
}

/// A seat stays claimed until its reply frame is released: after the outcome is attached, the
/// same connection asking the same thing again folds into that round trip instead of sending
/// the envelope a second time.
pub proof fn lemma_an_answered_seat_still_absorbs_a_repeat<W>(
    t: TableView<W>,
    rid: RequestId,
    origin: ConnId,
    name: Seq<char>,
    args: Seq<char>,
    now: u64,
    later: u64,
    waiter: W,
    repeat_waiter: W,
)
    requires
        open_step(expire_step(t, now), rid, origin, name, args, now, waiter).1 is Opened,
    ensures
        ({
            let opened = open_step(expire_step(t, now), rid, origin, name, args, now, waiter).0;
            let answered = complete_step(opened, rid).0;
            open_step(expire_step(answered, later), rid, origin, name, args, later, repeat_waiter).1
                == Seat::Coalesced
        }),
{
}

/// A late release cannot evict the next round trip under the same id: once a folded seat was
/// replaced by a fresh one, releasing with the old seat's token leaves the fresh seat in place.
pub proof fn lemma_a_late_release_keeps_the_next_round_trip<W>(
    t: TableView<W>,
    rid: RequestId,
    origin: ConnId,
    name: Seq<char>,
    args: Seq<char>,
    now: u64,
    waiter: W,
)
    requires
        well_formed(t),
        t.seats.contains_key(rid),
        open_step(expire_step(t, now), rid, origin, name, args, now, waiter).1 is Opened,
    ensures
        ({
            let reopened = open_step(expire_step(t, now), rid, origin, name, args, now, waiter).0;
            release_step(reopened, rid, t.seats[rid].token) == reopened
        }),
{
}

/// Every operation keeps the tokens of the seats in the table older than the next one.
pub proof fn lemma_every_step_keeps_the_table_well_formed<W>(
    t: TableView<W>,
    rid: RequestId,
    origin: ConnId,
    name: Seq<char>,
    args: Seq<char>,
    now: u64,
    waiter: W,
    token: SeatToken,
    conn: ConnId,
)
    requires
        well_formed(t),
        t.next_token < u64::MAX,
    ensures
        well_formed(expire_step(t, now)),
        well_formed(open_step(expire_step(t, now), rid, origin, name, args, now, waiter).0),
        well_formed(complete_step(t, rid).0),
        well_formed(release_step(t, rid, token)),
        well_formed(drain_step(t)),
        well_formed(drop_origin_step(t, conn)),
        well_formed(hand_over_step(t, rid, token, conn).0),
{
    assert(well_formed(fold_owner_step(t, conn)));
}

/// A reply goes only to the connection that asked: the seat a fresh open fills hands out exactly
/// that open's waiter, and another connection asking under the same id while it is held gets no
/// seat (`Taken` for the same command, `Conflict` for another) and changes nothing.
pub proof fn lemma_a_reply_goes_only_to_the_asker<W>(
    t: TableView<W>,
    rid: RequestId,
    origin: ConnId,
    name: Seq<char>,
    args: Seq<char>,
    now: u64,
    waiter: W,
    other: ConnId,
    other_name: Seq<char>,
    other_args: Seq<char>,
    later: u64,
    other_waiter: W,
)
    requires
        open_step(t, rid, origin, name, args, now, waiter).1 is Opened,
        other != origin,
    ensures
        ({
            let opened = open_step(t, rid, origin, name, args, now, waiter).0;
            let again = open_step(opened, rid, other, other_name, other_args, later, other_waiter);
            &&& opened.seats[rid].origin == origin
            &&& complete_step(opened, rid).1 == Some(waiter)
            &&& again.0 == opened
            &&& (other_name == name && other_args == args ==> again.1 == Seat::Taken { holder: origin })
            &&& (other_name != name || other_args != args ==> again.1 == Seat::Conflict)
        }),
{
}

/// A round trip leaves nothing behind: opened, answered once, and released after its reply went
/// out, its key is free again and every other seat is as it was.
pub proof fn lemma_a_finished_round_trip_leaves_no_seat<W>(
    t: TableView<W>,
    rid: RequestId,
    origin: ConnId,
    name: Seq<char>,
    args: Seq<char>,
    now: u64,
    waiter: W,
)
    requires
        open_step(t, rid, origin, name, args, now, waiter).1 is Opened,
    ensures
        ({
            let (opened, seat) = open_step(t, rid, origin, name, args, now, waiter);
            let (answered, w) = complete_step(opened, rid);
            let done = release_step(answered, rid, seat->token);
            &&& w == Some(waiter)
            &&& !done.seats.contains_key(rid)
            &&& done.seats == t.seats.remove(rid)
        }),
{
    let (opened, seat) = open_step(t, rid, origin, name, args, now, waiter);
    let (answered, w) = complete_step(opened, rid);
    assert(release_step(answered, rid, seat->token).seats =~= t.seats.remove(rid));
}

/// A freshly opened seat times out exactly one span after it was opened: its deadline is
/// `now + span`, and a sweep at any earlier time leaves it waiting with the asker's waiter, so
/// only the owner's outcome can answer it before then.
pub proof fn lemma_a_new_seat_waits_one_span<W>(
    t: TableView<W>,
    rid: RequestId,
    origin: ConnId,
    name: Seq<char>,
    args: Seq<char>,
    now: u64,
    waiter: W,
    later: u64,
)
    requires
        now + t.span <= u64::MAX,
        open_step(expire_step(t, now), rid, origin, name, args, now, waiter).1 is Opened,
        later < now + t.span,
    ensures
        ({
            let opened = open_step(expire_step(t, now), rid, origin, name, args, now, waiter).0;
            &&& opened.seats.contains_key(rid)
            &&& opened.seats[rid].deadline == now + t.span
            &&& opened.seats[rid].origin == origin
            &&& expire_step(opened, later).seats[rid].state == SeatState::Awaiting(waiter)
            &&& complete_step(expire_step(opened, later), rid).1 == Some(waiter)
        }),
{
}

/// A lost owner answers its callers: when the connection an envelope was handed to goes away,
/// its cleanup folds every round trip waiting on it (asked by another connection) — the waiter
/// is handed out to be answered `OUTCOME_UNKNOWN`, the seat stays until its reply is released,
/// and a late outcome can no longer answer it.
pub proof fn lemma_a_lost_owner_answers_its_callers<W>(t: TableView<W>, rid: RequestId, conn: ConnId)
    requires
        t.seats.contains_key(rid),
        is_orphaned_by(t.seats[rid], conn),
    ensures
        drop_origin_step(t, conn).seats.contains_key(rid),
        drop_origin_step(t, conn).seats[rid].state is Void,
        complete_step(drop_origin_step(t, conn), rid).1 is None,
{
    assert(fold_owner_step(t, conn).seats.contains_key(rid));
}

/// A round trip handed to an owner other than the connection that asked is waiting on that
/// owner: the owner's cleanup answers it.
pub proof fn lemma_a_handed_over_round_trip_waits_on_its_owner<W>(
    t: TableView<W>,
    rid: RequestId,
    origin: ConnId,
    name: Seq<char>,
    args: Seq<char>,
    now: u64,
    waiter: W,
    owner: ConnId,
)
    requires
        open_step(t, rid, origin, name, args, now, waiter).1 is Opened,
        owner != origin,
    ensures
        ({
            let (opened, seat) = open_step(t, rid, origin, name, args, now, waiter);
            let (handed, marked) = hand_over_step(opened, rid, seat->token, owner);
            &&& marked
            &&& is_orphaned_by(handed.seats[rid], owner)
            &&& drop_origin_step(handed, owner).seats[rid].state is Void
        }),
{
    let (opened, seat) = open_step(t, rid, origin, name, args, now, waiter);
    let (handed, marked) = hand_over_step(opened, rid, seat->token, owner);
    lemma_a_lost_owner_answers_its_callers(handed, rid, owner);
}

} // verus!
