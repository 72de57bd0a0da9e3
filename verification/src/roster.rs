//! The live half of the command-owner roster: which connections are attached, the owner token
//! each was filed under when it attached, and the way to reach it. The names themselves are
//! kept by the roster proper; this table decides whether a connection may still file them and
//! where an owner's envelopes go.

use std::collections::HashMap;
use vstd::prelude::*;
use vstd::std_specs::iter::IteratorSpec;

use crate::error::{no_retry, CommandError, ErrorCode, RetryMode};
use crate::ids::ConnId;
use crate::text::{concat3, decimal, decimal_text, lemma_decimal_injective, push_text, same_text, sanitize_for_log, sanitized};

verus! {

broadcast use vstd::std_specs::hash::group_hash_axioms;

/// The prefix of every owner token this daemon derives; no other party produces it.
pub const OWNER_TOKEN_PREFIX: &'static str = "conn-";

/// The owner token derived from a connection number: `conn-<n>`.
pub open spec fn owner_text(conn: ConnId) -> Seq<char> {
    OWNER_TOKEN_PREFIX@ + decimal(conn as nat)
}

/// Derives a connection's owner token (`conn-<n>`). `attach` is its only user; everything else
/// reads the token `attach` stored.
pub fn owner_of(conn_id: ConnId) -> (t: String)
    ensures
        t@ == owner_text(conn_id),
{
    let mut t = OWNER_TOKEN_PREFIX.to_owned();
    let n = decimal_text(conn_id);
    push_text(&mut t, n.as_str());
    t
}

/// Each connection gets its own owner token: two connections never share one.
pub proof fn lemma_owner_tokens_are_distinct(a: ConnId, b: ConnId)
    requires
        a != b,
    ensures
        owner_text(a) != owner_text(b),
{
    if owner_text(a) == owner_text(b) {
        let p = OWNER_TOKEN_PREFIX@;
        assert(owner_text(a).skip(p.len() as int) =~= decimal(a as nat));
        assert(owner_text(b).skip(p.len() as int) =~= decimal(b as nat));
        lemma_decimal_injective(a as nat, b as nat);
    }
}

/// The refusal for a registration from a connection that is not attached.
pub const DETACHED_REFUSAL: &'static str = "this connection is not attached \u{2014} a registration lands only while its connection is up";

/// One attached connection: whose it is, and how to reach it.
pub struct LiveConn<S> {
    pub owner: String,
    pub sink: S,
}

/// The attached connections, by connection number.
pub struct CommandRoster<S> {
    live: HashMap<ConnId, LiveConn<S>>,
}

impl<S> View for CommandRoster<S> {
    type V = Map<ConnId, Seq<char>>;

    /// The owner token stored for each attached connection.
    closed spec fn view(&self) -> Map<ConnId, Seq<char>> {
        self.live@.map_values(|c: LiveConn<S>| c.owner@)
    }
}

impl<S: Clone> CommandRoster<S> {
    /// The reach of each attached connection.
    pub closed spec fn sinks(&self) -> Map<ConnId, S> {
        self.live@.map_values(|c: LiveConn<S>| c.sink)
    }

    pub fn new() -> (r: CommandRoster<S>)
        ensures
            r@ == Map::<ConnId, Seq<char>>::empty(),
    {
        let r = CommandRoster { live: HashMap::new() };
        assert(r@ =~= Map::<ConnId, Seq<char>>::empty());
        r
    }

    /// A connection came up: its owner token is derived once, here, and stored with its reach.
    /// Answers the entry it replaced, if the same number was attached twice (numbers are never
    /// reused, so that is a fault worth reporting).
    pub fn attach(&mut self, conn_id: ConnId, sink: S) -> (replaced: Option<LiveConn<S>>)
        ensures
            final(self)@ == old(self)@.insert(conn_id, owner_text(conn_id)),
            final(self).sinks() == old(self).sinks().insert(conn_id, sink),
            (replaced is Some) == old(self)@.contains_key(conn_id),
            replaced matches Some(c) ==> c.owner@ == old(self)@[conn_id] && c.sink == old(self).sinks()[conn_id],
    {
        let owner = owner_of(conn_id);
        let replaced = self.live.insert(conn_id, LiveConn { owner, sink });
        proof {
            assert(self@ =~= old(self)@.insert(conn_id, owner_text(conn_id)));
            assert(self.sinks() =~= old(self).sinks().insert(conn_id, sink));
        }
        replaced
    }

    /// The owner token stored for a connection; `None` when it is not attached. The answer is
    /// stale as soon as it is read — decisions that need it to hold are made inside `register`
    /// and `sink_of`.
    pub fn attached_owner(&self, conn_id: ConnId) -> (r: Option<String>)
        ensures
            (r is Some) == self@.contains_key(conn_id),
            r matches Some(t) ==> t@ == self@[conn_id],
    {
        match self.live.get(&conn_id) {
            Some(c) => Some(c.owner.clone()),
            None => None,
        }
    }

    /// The reach of whichever attached connection holds `owner`, compared with the stored token
    /// (never parsed back into a number); `None` when no attached connection holds it.
    pub fn sink_of(&self, owner: &str) -> (r: Option<S>)
        ensures
            (r is Some) == (exists|c: ConnId| #[trigger] self@.contains_key(c) && self@[c] == owner@),
            r matches Some(s) ==> exists|c: ConnId| #[trigger] self@.contains_key(c) && self@[c] == owner@
                && cloned::<S>(self.sinks()[c], s),
    {
        let ks = conn_keys(&self.live);
        for i in 0..ks.len()
            invariant
                forall|k: ConnId| self.live@.contains_key(k) <==> ks@.contains(k),
                forall|j: int| 0 <= j < i ==> #[trigger] self.live@[ks@[j]].owner@ != owner@,
        {
            let k = ks[i];
            assert(ks@.contains(k));
            match self.live.get(&k) {
                Some(c) => {
                    if same_text(c.owner.as_str(), owner) {
                        proof {
                            assert(self@.contains_key(k));
                            assert(self@[k] == c.owner@);
                            assert(self.sinks()[k] == c.sink);
                        }
                        return Some(c.sink.clone());
                    }
                },
                None => {},
            }
        }
        proof {
            assert forall|c: ConnId| #[trigger] self@.contains_key(c) implies self@[c] != owner@ by {
                assert(ks@.contains(c));
                let j = choose|j: int| 0 <= j < ks@.len() && ks@[j] == c;
                assert(self.live@[ks@[j]].owner@ != owner@);
            }
        }
        None
    }

    /// The attached connection that holds `owner`, with its reach — what a hand-over records as
    /// the round trip's owner side. `None` when no attached connection holds it.
    pub fn holder_of(&self, owner: &str) -> (r: Option<(ConnId, S)>)
        ensures
            (r is Some) == (exists|c: ConnId| #[trigger] self@.contains_key(c) && self@[c] == owner@),
            r matches Some((c, s)) ==> self@.contains_key(c) && self@[c] == owner@ && cloned::<S>(self.sinks()[c], s),
    {
        let ks = conn_keys(&self.live);
        for i in 0..ks.len()
            invariant
                forall|k: ConnId| self.live@.contains_key(k) <==> ks@.contains(k),
                forall|j: int| 0 <= j < i ==> #[trigger] self.live@[ks@[j]].owner@ != owner@,
        {
            let k = ks[i];
            assert(ks@.contains(k));
            match self.live.get(&k) {
                Some(c) => {
                    if same_text(c.owner.as_str(), owner) {
                        proof {
                            assert(self@.contains_key(k));
                            assert(self@[k] == c.owner@);
                            assert(self.sinks()[k] == c.sink);
                        }
                        return Some((k, c.sink.clone()));
                    }
                },
                None => {},
            }
        }
        proof {
            assert forall|c: ConnId| #[trigger] self@.contains_key(c) implies self@[c] != owner@ by {
                assert(ks@.contains(c));
                let j = choose|j: int| 0 <= j < ks@.len() && ks@[j] == c;
                assert(self.live@[ks@[j]].owner@ != owner@);
            }
        }
        None
    }

    /// The reach of one connection — where a reply to it goes. `None`: it already left.
    pub fn sink_for_conn(&self, conn_id: ConnId) -> (r: Option<S>)
        ensures
            (r is Some) == self@.contains_key(conn_id),
            r matches Some(s) ==> cloned::<S>(self.sinks()[conn_id], s),
    {
        match self.live.get(&conn_id) {
            Some(c) => Some(c.sink.clone()),
            None => None,
        }
    }

    /// Whether a connection is still attached, without copying its reach.
    pub fn is_attached(&self, conn_id: ConnId) -> (r: bool)
        ensures
            r == self@.contains_key(conn_id),
    {
        self.live.contains_key(&conn_id)
    }

    /// Replaces the owner token stored for an attached connection — to put the table in the
    /// state where the stored token is not the derived one.
    pub fn overwrite_stored_owner(&mut self, conn_id: ConnId, owner: String)
        ensures
            final(self)@ == (if old(self)@.contains_key(conn_id) {
                old(self)@.insert(conn_id, owner@)
            } else {
                old(self)@
            }),
            final(self).sinks() == old(self).sinks(),
    {
        match self.live.remove(&conn_id) {
            Some(c) => {
                self.live.insert(conn_id, LiveConn { owner, sink: c.sink });
                proof {
                    assert(self@ =~= old(self)@.insert(conn_id, owner@));
                    assert(self.sinks() =~= old(self).sinks());
                }
            },
            None => {},
        }
    }

    /// A connection went away: its entry leaves the table and is handed back, so that the caller
    /// takes its names off the roster under the stored token and lets go of its reach outside
    /// any lock. Nothing happens for a connection that never attached.
    pub fn detach(&mut self, conn_id: ConnId) -> (removed: Option<LiveConn<S>>)
        ensures
            final(self)@ == old(self)@.remove(conn_id),
            final(self).sinks() == old(self).sinks().remove(conn_id),
            (removed is Some) == old(self)@.contains_key(conn_id),
            removed matches Some(c) ==> c.owner@ == old(self)@[conn_id] && c.sink == old(self).sinks()[conn_id],
    {
        let removed = self.live.remove(&conn_id);
        proof {
            assert(self@ =~= old(self)@.remove(conn_id));
            assert(self.sinks() =~= old(self).sinks().remove(conn_id));
        }
        removed
    }

    /// The only net for late packets of a departed connection: answers the owner token stored
    /// when it attached, or refuses with `CONFLICT` (the state is wrong, not the packet; a retry
    /// on that connection cannot succeed).
    pub fn refuse_if_detached(&self, conn_id: ConnId) -> (r: Result<String, CommandError>)
        ensures
            (r is Ok) == self@.contains_key(conn_id),
            r matches Ok(t) ==> t@ == self@[conn_id],
            r matches Err(e) ==> e.code == ErrorCode::Conflict && e.message@ == DETACHED_REFUSAL@
                && e.retry == RetryMode::Never,
    {
        match self.live.get(&conn_id) {
            Some(c) => Ok(c.owner.clone()),
            None => Err(no_retry(ErrorCode::Conflict, DETACHED_REFUSAL.to_owned())),
        }
    }
}

/// A departed connection files nothing: after its detach, the net refuses every registration
/// and delta it still sends, and the other connections keep their tokens.
pub proof fn lemma_a_detached_connection_files_nothing(live: Map<ConnId, Seq<char>>, conn: ConnId, other: ConnId)
    requires
        other != conn,
    ensures
        !live.remove(conn).contains_key(conn),
        live.remove(conn).contains_key(other) == live.contains_key(other),
        live.contains_key(other) ==> live.remove(conn)[other] == live[other],
{
}

/// A departed connection's token reaches nobody: when every attached connection holds the token
/// derived at its attach, then after one of them detaches no attached connection holds its
/// token, so a lookup by that token finds no reach (`sink_of` answers `None`).
pub proof fn lemma_a_departed_token_reaches_nobody(live: Map<ConnId, Seq<char>>, conn: ConnId)
    requires
        forall|c: ConnId| #[trigger] live.contains_key(c) ==> live[c] == owner_text(c),
    ensures
        !(exists|c: ConnId| #[trigger] live.remove(conn).contains_key(c) && live.remove(conn)[c] == owner_text(conn)),
{
    assert forall|c: ConnId| #[trigger] live.remove(conn).contains_key(c) implies live.remove(conn)[c] != owner_text(conn) by {
        lemma_owner_tokens_are_distinct(c, conn);
    }
}

/// The attached connection numbers, each once.
fn conn_keys<S>(m: &HashMap<ConnId, LiveConn<S>>) -> (ks: Vec<ConnId>)
    ensures
        ks@.no_duplicates(),
        forall|k: ConnId| m@.contains_key(k) <==> ks@.contains(k),
{
    let mut ks: Vec<ConnId> = Vec::new();
    for k in it: m.keys()
        invariant
            it.seq() == vstd::std_specs::hash::spec_keys_iter(m).remaining(),
            ks@ == it.seq().take(it.index() as int).unref(),
    {
        ks.push(*k);
        assert(it.seq().take(it.index() + 1).unref() =~= it.seq().take(it.index() as int).unref().push(*k));
    }
    let ghost all = vstd::std_specs::hash::spec_keys_iter(m).remaining();
    assert(ks@ =~= all.unref());
    assert forall|k: ConnId| m@.contains_key(k) <==> ks@.contains(k) by {
        assert(all.unref().to_set().contains(k) <==> all.unref().contains(k));
    }
    ks
}

/// How many names a log line about removed names quotes.
pub const MAX_LOGGED_NAMES: usize = 8;

/// One name as a log field quotes it: sanitised, in single quotes.
pub open spec fn quoted(name: Seq<char>) -> Seq<char> {
    seq!['\''] + sanitized(name) + seq!['\'']
}

/// The quoted names joined with `", "`.
pub open spec fn joined(names: Seq<Seq<char>>) -> Seq<char>
    decreases names.len(),
{
    if names.len() == 0 {
        Seq::empty()
    } else if names.len() == 1 {
        quoted(names[0])
    } else {
        joined(names.drop_last()) + ", "@ + quoted(names.last())
    }
}

/// The names a departed owner lost, as one log field: the first `MAX_LOGGED_NAMES` quoted and
/// sanitised, and how many more were left out. The exact count travels in its own field.
pub open spec fn names_field(names: Seq<Seq<char>>) -> Seq<char> {
    if names.len() > MAX_LOGGED_NAMES {
        joined(names.take(MAX_LOGGED_NAMES as int)) + " (+"@ + decimal((names.len() - MAX_LOGGED_NAMES) as nat) + " more)"@
    } else {
        joined(names)
    }
}

/// Writes the names field of a detach log line (see `names_field`).
pub fn logged_names(names: &[String]) -> (out: String)
    ensures
        out@ == names_field(names@.map_values(|s: String| s@)),
{
    let ghost all = names@.map_values(|s: String| s@);
    let n = if names.len() > MAX_LOGGED_NAMES { MAX_LOGGED_NAMES } else { names.len() };
    let mut out = String::new();
    for i in 0..n
        invariant
            n <= names@.len(),
            all == names@.map_values(|s: String| s@),
            out@ == joined(all.take(i as int)),
    {
        let q = concat3("'", sanitize_for_log(names[i].as_str()).as_str(), "'");
        proof {
            reveal_strlit("'");
            assert(all.take(i + 1).drop_last() =~= all.take(i as int));
            assert(all.take(i + 1).last() == names@[i as int]@);
            assert(q@ =~= quoted(names@[i as int]@));
        }
        if i > 0 {
            push_text(&mut out, ", ");
        } else {
            assert(all.take(i as int) =~= Seq::<Seq<char>>::empty());
            assert(out@ =~= Seq::<char>::empty());
        }
        push_text(&mut out, q.as_str());
        proof {
            if i > 0 {
                assert(out@ =~= joined(all.take(i as int)) + ", "@ + quoted(all.take(i + 1).last()));
            } else {
                assert(out@ =~= quoted(all.take(1)[0]));
            }
        }
    }
    if names.len() > MAX_LOGGED_NAMES {
        let tail = concat3(" (+", decimal_text((names.len() - MAX_LOGGED_NAMES) as u64).as_str(), " more)");
        push_text(&mut out, tail.as_str());
    } else {
        assert(all.take(n as int) =~= all);
    }
    out
}

} // verus!
