//! Several viewers on one agent: the size the agent's terminal is set to (the smallest of all its
//! viewports, so no screen breaks) and the input lease (one connection at a time may type).

use std::collections::HashMap;
use vstd::prelude::*;
use vstd::std_specs::iter::IteratorSpec;

use crate::ids::{AgentId, ConnId};
use crate::text::same_text;

verus! {

broadcast use vstd::std_specs::hash::group_hash_axioms;

/// A viewport's key: the agent it shows and the viewer's own name for it.
pub type ViewKey = (AgentId, Seq<char>);

/// One registered viewport and its size in columns and rows.
pub struct Viewport {
    pub agent: AgentId,
    pub id: String,
    pub cols: u16,
    pub rows: u16,
}

pub open spec fn key_of(v: Viewport) -> ViewKey {
    (v.agent, v.id@)
}

pub open spec fn size_of(v: Viewport) -> (u16, u16) {
    (v.cols, v.rows)
}

/// No two viewports share a key.
pub open spec fn unique_keys(s: Seq<Viewport>) -> bool {
    forall|i: int, j: int| 0 <= i < s.len() && 0 <= j < s.len() && #[trigger] key_of(s[i]) == #[trigger] key_of(s[j]) ==> i == j
}

/// The sizes of a viewport list, by key.
pub open spec fn sizes_of(s: Seq<Viewport>) -> Map<ViewKey, (u16, u16)> {
    Map::new(
        |k: ViewKey| exists|i: int| 0 <= i < s.len() && key_of(s[i]) == k,
        |k: ViewKey| size_of(s[choose|i: int| 0 <= i < s.len() && key_of(s[i]) == k]),
    )
}

/// Whether `agent` has at least one viewport.
pub open spec fn has_views(m: Map<ViewKey, (u16, u16)>, agent: AgentId) -> bool {
    exists|id: Seq<char>| m.contains_key((agent, id))
}

/// `(cols, rows)` is the smallest size over `agent`'s viewports: the least width and the least
/// height, each taken over all of them (the two may come from different viewports).
pub open spec fn is_smallest(m: Map<ViewKey, (u16, u16)>, agent: AgentId, cols: u16, rows: u16) -> bool {
    &&& exists|id: Seq<char>| #[trigger] m.contains_key((agent, id)) && m[(agent, id)].0 == cols
    &&& exists|id: Seq<char>| #[trigger] m.contains_key((agent, id)) && m[(agent, id)].1 == rows
    &&& forall|id: Seq<char>| #[trigger] m.contains_key((agent, id)) ==> cols <= m[(agent, id)].0 && rows <= m[(agent, id)].1
}

/// The size an agent's terminal takes: `None` when it has no viewport, else the smallest size.
pub open spec fn smallest_of(m: Map<ViewKey, (u16, u16)>, agent: AgentId, r: Option<(u16, u16)>) -> bool {
    match r {
        None => !has_views(m, agent),
        Some((c, w)) => is_smallest(m, agent, c, w),
    }
}

proof fn lemma_sizes_at(s: Seq<Viewport>, i: int)
    requires
        unique_keys(s),
        0 <= i < s.len(),
    ensures
        sizes_of(s).contains_key(key_of(s[i])),
        sizes_of(s)[key_of(s[i])] == size_of(s[i]),
{
    let k = key_of(s[i]);
    assert(exists|j: int| 0 <= j < s.len() && key_of(s[j]) == k);
    let j = choose|j: int| 0 <= j < s.len() && key_of(s[j]) == k;
    assert(key_of(s[i]) == key_of(s[j]));
}

proof fn lemma_sizes_update(s: Seq<Viewport>, i: int, v: Viewport)
    requires
        unique_keys(s),
        0 <= i < s.len(),
        key_of(v) == key_of(s[i]),
    ensures
        unique_keys(s.update(i, v)),
        sizes_of(s.update(i, v)) == sizes_of(s).insert(key_of(v), size_of(v)),
{
    let t = s.update(i, v);
    assert forall|a: int, b: int| 0 <= a < t.len() && 0 <= b < t.len() && #[trigger] key_of(t[a]) == #[trigger] key_of(t[b]) implies a == b by {
        assert(key_of(t[a]) == key_of(s[a]));
        assert(key_of(t[b]) == key_of(s[b]));
    }
    assert forall|k: ViewKey| #[trigger] sizes_of(t).contains_key(k) == sizes_of(s).insert(key_of(v), size_of(v)).contains_key(k) by {
        if sizes_of(s).contains_key(k) {
            let j = choose|j: int| 0 <= j < s.len() && key_of(s[j]) == k;
            assert(key_of(t[j]) == k);
        }
        if sizes_of(t).contains_key(k) {
            let j = choose|j: int| 0 <= j < t.len() && key_of(t[j]) == k;
            assert(key_of(s[j]) == k);
        }
    }
    assert forall|k: ViewKey| #[trigger] sizes_of(t).contains_key(k) implies sizes_of(t)[k] == sizes_of(s).insert(key_of(v), size_of(v))[k] by {
        let j = choose|j: int| 0 <= j < t.len() && key_of(t[j]) == k;
        lemma_sizes_at(t, j);
        if j != i {
            lemma_sizes_at(s, j);
        }
    }
    assert(sizes_of(t) =~= sizes_of(s).insert(key_of(v), size_of(v)));
}

proof fn lemma_sizes_push(s: Seq<Viewport>, v: Viewport)
    requires
        unique_keys(s),
        !sizes_of(s).contains_key(key_of(v)),
    ensures
        unique_keys(s.push(v)),
        sizes_of(s.push(v)) == sizes_of(s).insert(key_of(v), size_of(v)),
{
    let t = s.push(v);
    assert forall|a: int, b: int| 0 <= a < t.len() && 0 <= b < t.len() && #[trigger] key_of(t[a]) == #[trigger] key_of(t[b]) implies a == b by {
        if a < s.len() && b == s.len() {
            assert(key_of(s[a]) == key_of(v));
        }
        if b < s.len() && a == s.len() {
            assert(key_of(s[b]) == key_of(v));
        }
    }
    assert forall|k: ViewKey| #[trigger] sizes_of(t).contains_key(k) == sizes_of(s).insert(key_of(v), size_of(v)).contains_key(k) by {
        if sizes_of(s).contains_key(k) {
            let j = choose|j: int| 0 <= j < s.len() && key_of(s[j]) == k;
            assert(key_of(t[j]) == k);
        }
        if k == key_of(v) {
            assert(key_of(t[s.len() as int]) == k);
        }
        if sizes_of(t).contains_key(k) {
            let j = choose|j: int| 0 <= j < t.len() && key_of(t[j]) == k;
            if j < s.len() {
                assert(key_of(s[j]) == k);
            }
        }
    }
    assert forall|k: ViewKey| #[trigger] sizes_of(t).contains_key(k) implies sizes_of(t)[k] == sizes_of(s).insert(key_of(v), size_of(v))[k] by {
        let j = choose|j: int| 0 <= j < t.len() && key_of(t[j]) == k;
        lemma_sizes_at(t, j);
        if j < s.len() {
            lemma_sizes_at(s, j);
        }
    }
    assert(sizes_of(t) =~= sizes_of(s).insert(key_of(v), size_of(v)));
}

proof fn lemma_sizes_remove(s: Seq<Viewport>, i: int)
    requires
        unique_keys(s),
        0 <= i < s.len(),
    ensures
        unique_keys(s.remove(i)),
        sizes_of(s.remove(i)) == sizes_of(s).remove(key_of(s[i])),
{
    let t = s.remove(i);
    assert forall|a: int, b: int| 0 <= a < t.len() && 0 <= b < t.len() && #[trigger] key_of(t[a]) == #[trigger] key_of(t[b]) implies a == b by {
        let a2 = if a < i { a } else { a + 1 };
        let b2 = if b < i { b } else { b + 1 };
        assert(t[a] == s[a2]);
        assert(t[b] == s[b2]);
    }
    assert forall|k: ViewKey| #[trigger] sizes_of(t).contains_key(k) == sizes_of(s).remove(key_of(s[i])).contains_key(k) by {
        if sizes_of(s).contains_key(k) && k != key_of(s[i]) {
            let j = choose|j: int| 0 <= j < s.len() && key_of(s[j]) == k;
            assert(j != i);
            let j2 = if j < i { j } else { j - 1 };
            assert(t[j2] == s[j]);
        }
        if sizes_of(t).contains_key(k) {
            let j = choose|j: int| 0 <= j < t.len() && key_of(t[j]) == k;
            let j2 = if j < i { j } else { j + 1 };
            assert(t[j] == s[j2]);
            assert(j2 != i);
        }
    }
    assert forall|k: ViewKey| #[trigger] sizes_of(t).contains_key(k) implies sizes_of(t)[k] == sizes_of(s).remove(key_of(s[i]))[k] by {
        let j = choose|j: int| 0 <= j < t.len() && key_of(t[j]) == k;
        let j2 = if j < i { j } else { j + 1 };
        assert(t[j] == s[j2]);
        lemma_sizes_at(t, j);
        lemma_sizes_at(s, j2);
    }
    assert(sizes_of(t) =~= sizes_of(s).remove(key_of(s[i])));
}

/// The agents of a list of `(agent, size)` answers, in order.
pub open spec fn agents_of(r: Seq<(AgentId, Option<(u16, u16)>)>) -> Seq<AgentId> {
    r.map_values(|p: (AgentId, Option<(u16, u16)>)| p.0)
}

/// The lease refusal every entrance gives a viewer without the lease.
pub const INPUT_LOCKED_REFUSAL: &'static str = "input locked by another viewer; acquire first";

/// The viewport sizes and input leases of every agent.
pub struct MultiViewState {
    viewports: Vec<Viewport>,
    leases: HashMap<AgentId, ConnId>,
}

/// What a `MultiViewState` holds: the size of every viewport, and the holder of every lease.
pub struct MultiView {
    pub sizes: Map<ViewKey, (u16, u16)>,
    pub leases: Map<AgentId, ConnId>,
}

impl View for MultiViewState {
    type V = MultiView;

    closed spec fn view(&self) -> MultiView {
        MultiView { sizes: sizes_of(self.viewports@), leases: self.leases@ }
    }
}

/// Whether a lease lets `conn` type to an agent: nobody holds it, or `conn` does.
pub open spec fn lease_allows(leases: Map<AgentId, ConnId>, agent: AgentId, conn: ConnId) -> bool {
    !leases.contains_key(agent) || leases[agent] == conn
}

/// How an acquire or release came out.
#[derive(Clone, Copy, Debug, PartialEq, Eq, Structural)]
pub enum LeaseChange {
    /// The lease changed hands (taken, or given back): every viewer is told.
    Changed,
    /// Nothing to do: already held by this connection (acquire), or held by nobody (release).
    Unchanged,
    /// Another connection holds it.
    HeldByOther,
}

impl MultiViewState {
    pub closed spec fn well_formed(&self) -> bool {
        unique_keys(self.viewports@)
    }

    pub fn new() -> (s: MultiViewState)
        ensures
            s.well_formed(),
            s@.sizes == Map::<ViewKey, (u16, u16)>::empty(),
            s@.leases == Map::<AgentId, ConnId>::empty(),
    {
        let s = MultiViewState { viewports: Vec::new(), leases: HashMap::new() };
        assert(sizes_of(s.viewports@) =~= Map::<ViewKey, (u16, u16)>::empty());
        s
    }

    /// The size an agent's terminal takes now (see `smallest_of`).
    pub fn smallest(&self, agent: AgentId) -> (r: Option<(u16, u16)>)
        requires
            self.well_formed(),
        ensures
            smallest_of(self@.sizes, agent, r),
    {
        let ghost s = self.viewports@;
        let mut found = false;
        let mut c: u16 = 0;
        let mut w: u16 = 0;
        let ghost mut ci: int = 0;
        let ghost mut wi: int = 0;
        let mut i: usize = 0;
        while i < self.viewports.len()
            invariant
                s == self.viewports@,
                unique_keys(s),
                i <= s.len(),
                found == exists|j: int| 0 <= j < i && (#[trigger] s[j]).agent == agent,
                found ==> 0 <= ci < i && s[ci].agent == agent && s[ci].cols == c,
                found ==> 0 <= wi < i && s[wi].agent == agent && s[wi].rows == w,
                forall|j: int| 0 <= j < i && (#[trigger] s[j]).agent == agent ==> c <= s[j].cols,
                forall|j: int| 0 <= j < i && (#[trigger] s[j]).agent == agent ==> w <= s[j].rows,
            decreases s.len() - i,
        {
            let v = &self.viewports[i];
            if v.agent == agent {
                if !found || v.cols < c {
                    c = v.cols;
                    proof { ci = i as int; }
                }
                if !found || v.rows < w {
                    w = v.rows;
                    proof { wi = i as int; }
                }
                found = true;
            }
            i = i + 1;
        }
        proof {
            let m = sizes_of(s);
            if found {
                lemma_sizes_at(s, ci);
                lemma_sizes_at(s, wi);
                assert(m.contains_key((agent, s[ci].id@)) && m[(agent, s[ci].id@)].0 == c);
                assert(m.contains_key((agent, s[wi].id@)) && m[(agent, s[wi].id@)].1 == w);
                assert forall|id: Seq<char>| #[trigger] m.contains_key((agent, id)) implies c <= m[(agent, id)].0 && w <= m[(agent, id)].1 by {
                    let j = choose|j: int| 0 <= j < s.len() && key_of(s[j]) == (agent, id);
                    lemma_sizes_at(s, j);
                    assert(s[j].agent == agent);
                }
            } else {
                assert forall|id: Seq<char>| !m.contains_key((agent, id)) by {
                    if m.contains_key((agent, id)) {
                        let j = choose|j: int| 0 <= j < s.len() && key_of(s[j]) == (agent, id);
                        assert(s[j].agent == agent);
                    }
                }
            }
        }
        if found {
            Some((c, w))
        } else {
            None
        }
    }

    fn find(&self, agent: AgentId, id: &str) -> (r: Option<usize>)
        requires
            self.well_formed(),
        ensures
            match r {
                Some(i) => i < self.viewports@.len() && key_of(self.viewports@[i as int]) == (agent, id@),
                None => !sizes_of(self.viewports@).contains_key((agent, id@)),
            },
    {
        for i in 0..self.viewports.len()
            invariant
                forall|j: int| 0 <= j < i ==> key_of(#[trigger] self.viewports@[j]) != (agent, id@),
        {
            if self.viewports[i].agent == agent && same_text(self.viewports[i].id.as_str(), id) {
                return Some(i);
            }
        }
        proof {
            if sizes_of(self.viewports@).contains_key((agent, id@)) {
                let j = choose|j: int| 0 <= j < self.viewports@.len() && key_of(self.viewports@[j]) == (agent, id@);
                assert(key_of(self.viewports@[j]) != (agent, id@));
            }
        }
        None
    }

    /// Records (or updates) a viewport's size and answers the size the agent's terminal takes now.
    pub fn set_viewport(&mut self, agent: AgentId, viewport_id: String, cols: u16, rows: u16) -> (r: Option<(u16, u16)>)
        requires
            old(self).well_formed(),
        ensures
            final(self).well_formed(),
            final(self)@.sizes == old(self)@.sizes.insert((agent, viewport_id@), (cols, rows)),
            final(self)@.leases == old(self)@.leases,
            r is Some,
            smallest_of(final(self)@.sizes, agent, r),
    {
        let v = Viewport { agent, id: viewport_id, cols, rows };
        match self.find(agent, v.id.as_str()) {
            Some(i) => {
                proof {
                    lemma_sizes_update(self.viewports@, i as int, v);
                }
                self.viewports.set(i, v);
            },
            None => {
                proof {
                    lemma_sizes_push(self.viewports@, v);
                }
                self.viewports.push(v);
            },
        }
        let r = self.smallest(agent);
        proof {
            assert(self@.sizes.contains_key((agent, viewport_id@)));
        }
        r
    }

    /// Whether `agent` has any viewport.
    fn has_any(&self, agent: AgentId) -> (r: bool)
        requires
            self.well_formed(),
        ensures
            r == has_views(self@.sizes, agent),
    {
        match self.smallest(agent) {
            Some(_) => true,
            None => false,
        }
    }

    /// Drops the viewports a departing connection registered and answers, for each agent that had
    /// viewports when its first pair came up (each agent once, in first-seen order), the size its
    /// terminal takes now, or `None` when it has no viewport left.
    pub fn remove_conn_viewports(&mut self, owned: &Vec<(AgentId, String)>) -> (r: Vec<(AgentId, Option<(u16, u16)>)>)
        requires
            old(self).well_formed(),
        ensures
            final(self).well_formed(),
            final(self)@.sizes == old(self)@.sizes.remove_keys(
                Set::new(|k: ViewKey| exists|j: int| 0 <= j < owned@.len() && k == (owned@[j].0, owned@[j].1@)),
            ),
            final(self)@.leases == old(self)@.leases,
            agents_of(r@).no_duplicates(),
            forall|i: int| 0 <= i < r@.len() ==> smallest_of(final(self)@.sizes, r@[i].0, #[trigger] r@[i].1),
            forall|a: AgentId| #[trigger] agents_of(r@).contains(a)
                ==> exists|j: int| 0 <= j < owned@.len() && #[trigger] owned@[j].0 == a,
            forall|j: int| 0 <= j < owned@.len() && has_views(old(self)@.sizes, #[trigger] owned@[j].0)
                ==> agents_of(r@).contains(owned@[j].0),
    {
        let ghost start = self@.sizes;
        let mut affected: Vec<AgentId> = Vec::new();
        for j in 0..owned.len()
            invariant
                self.well_formed(),
                self@.leases == old(self)@.leases,
                start == old(self)@.sizes,
                self@.sizes == start.remove_keys(
                    Set::new(|k: ViewKey| exists|x: int| 0 <= x < j && k == (owned@[x].0, owned@[x].1@)),
                ),
                affected@.no_duplicates(),
                forall|a: AgentId| affected@.contains(a) ==> exists|x: int| 0 <= x < j && #[trigger] owned@[x].0 == a,
                forall|x: int| 0 <= x < j && has_views(start, #[trigger] owned@[x].0) ==> affected@.contains(owned@[x].0),
        {
            let agent = owned[j].0;
            let ghost before = self@.sizes;
            let ghost before_affected = affected@;
            if self.has_any(agent) {
                match self.find(agent, owned[j].1.as_str()) {
                    Some(i) => {
                        proof {
                            lemma_sizes_remove(self.viewports@, i as int);
                        }
                        self.viewports.remove(i);
                    },
                    None => {},
                }
                if !contains_agent(&affected, agent) {
                    affected.push(agent);
                }
            }
            proof {
                broadcast use vstd::seq_lib::group_seq_properties;
                assert(forall|a: AgentId| before_affected.contains(a) ==> affected@.contains(a));
                assert(affected@.contains(agent) || !has_views(before, agent));
                assert forall|a: AgentId| affected@.contains(a) implies exists|x: int| 0 <= x < j + 1 && #[trigger] owned@[x].0 == a by {
                    if a == agent {
                        assert(owned@[j as int].0 == a);
                    } else {
                        assert(before_affected.contains(a));
                        let x = choose|x: int| 0 <= x < j && #[trigger] owned@[x].0 == a;
                        assert(owned@[x].0 == a);
                    }
                }
                let next = Set::new(|k: ViewKey| exists|x: int| 0 <= x < j + 1 && k == (owned@[x].0, owned@[x].1@));
                let prev = Set::new(|k: ViewKey| exists|x: int| 0 <= x < j && k == (owned@[x].0, owned@[x].1@));
                let key = (owned@[j as int].0, owned@[j as int].1@);
                assert(self@.sizes =~= before.remove(key));
                assert(start.remove_keys(next) =~= start.remove_keys(prev).remove(key)) by {
                    assert forall|k: ViewKey| next.contains(k) == (prev.contains(k) || k == key) by {
                        if next.contains(k) && !(k == key) {
                            let x = choose|x: int| 0 <= x < j + 1 && k == (owned@[x].0, owned@[x].1@);
                            assert(x < j);
                        }
                        if k == key {
                            assert(0 <= j < j + 1 && k == (owned@[j as int].0, owned@[j as int].1@));
                        }
                    }
                }
                assert forall|x: int| 0 <= x < j + 1 && has_views(start, #[trigger] owned@[x].0) implies affected@.contains(owned@[x].0) by {
                    if x == j {
                        let id = choose|id: Seq<char>| start.contains_key((agent, id));
                        if !has_views(before, agent) {
                            assert(before.contains_key((agent, id)) || prev.contains((agent, id)));
                            if prev.contains((agent, id)) {
                                let y = choose|y: int| 0 <= y < j && (agent, id) == (owned@[y].0, owned@[y].1@);
                                assert(owned@[y].0 == agent);
                            } else {
                                assert(false);
                            }
                        }
                    }
                }
            }
        }
        let mut r: Vec<(AgentId, Option<(u16, u16)>)> = Vec::new();
        for i in 0..affected.len()
            invariant
                self.well_formed(),
                r@.len() == i,
                forall|x: int| 0 <= x < i ==> (#[trigger] r@[x]).0 == affected@[x],
                forall|x: int| 0 <= x < i ==> smallest_of(self@.sizes, r@[x].0, #[trigger] r@[x].1),
        {
            let a = affected[i];
            let size = self.smallest(a);
            r.push((a, size));
        }
        proof {
            assert(agents_of(r@) =~= affected@);
        }
        r
    }

    /// Takes the input lease of an agent for `conn`.
    pub fn acquire(&mut self, agent: AgentId, conn: ConnId) -> (r: LeaseChange)
        ensures
            final(self)@.sizes == old(self)@.sizes,
            final(self).well_formed() == old(self).well_formed(),
            r == (if !old(self)@.leases.contains_key(agent) {
                LeaseChange::Changed
            } else if old(self)@.leases[agent] == conn {
                LeaseChange::Unchanged
            } else {
                LeaseChange::HeldByOther
            }),
            final(self)@.leases == (if r == LeaseChange::Changed {
                old(self)@.leases.insert(agent, conn)
            } else {
                old(self)@.leases
            }),
    {
        match self.leases.get(&agent) {
            None => {
                self.leases.insert(agent, conn);
                LeaseChange::Changed
            },
            Some(holder) => {
                if *holder == conn {
                    LeaseChange::Unchanged
                } else {
                    LeaseChange::HeldByOther
                }
            },
        }
    }

    /// Gives the input lease of an agent back; only its holder may.
    pub fn release(&mut self, agent: AgentId, conn: ConnId) -> (r: LeaseChange)
        ensures
            final(self)@.sizes == old(self)@.sizes,
            final(self).well_formed() == old(self).well_formed(),
            r == (if !old(self)@.leases.contains_key(agent) {
                LeaseChange::Unchanged
            } else if old(self)@.leases[agent] == conn {
                LeaseChange::Changed
            } else {
                LeaseChange::HeldByOther
            }),
            final(self)@.leases == (if r == LeaseChange::Changed {
                old(self)@.leases.remove(agent)
            } else {
                old(self)@.leases
            }),
    {
        match self.leases.get(&agent) {
            None => LeaseChange::Unchanged,
            Some(holder) => {
                if *holder == conn {
                    self.leases.remove(&agent);
                    LeaseChange::Changed
                } else {
                    LeaseChange::HeldByOther
                }
            },
        }
    }

    /// Whether `conn` may send input to an agent (see `lease_allows`).
    pub fn check_input(&self, agent: AgentId, conn: ConnId) -> (r: bool)
        ensures
            r == lease_allows(self@.leases, agent, conn),
    {
        match self.leases.get(&agent) {
            None => true,
            Some(holder) => *holder == conn,
        }
    }

    /// Whether nobody holds the input lease of an agent.
    pub fn lease_is_free(&self, agent: AgentId) -> (r: bool)
        ensures
            r == !self@.leases.contains_key(agent),
    {
        !self.leases.contains_key(&agent)
    }

    /// Frees every lease a departing connection held and answers the agents freed (each once):
    /// their viewers are told the lease is free, so no lease outlives its holder.
    pub fn release_all_for_conn(&mut self, conn: ConnId) -> (r: Vec<AgentId>)
        ensures
            final(self)@.sizes == old(self)@.sizes,
            final(self).well_formed() == old(self).well_formed(),
            r@.no_duplicates(),
            forall|a: AgentId| r@.contains(a) <==> (old(self)@.leases.contains_key(a) && old(self)@.leases[a] == conn),
            final(self)@.leases == old(self)@.leases.remove_keys(r@.to_set()),
    {
        let ks = lease_keys(&self.leases);
        let mut freed: Vec<AgentId> = Vec::new();
        for i in 0..ks.len()
            invariant
                ks@.no_duplicates(),
                forall|k: AgentId| old(self)@.leases.contains_key(k) <==> ks@.contains(k),
                self.leases@ == old(self)@.leases.remove_keys(freed@.to_set()),
                self.viewports@ == old(self).viewports@,
                freed@.no_duplicates(),
                forall|a: AgentId| #[trigger] freed@.contains(a) <==> (ks@.take(i as int).contains(a) && old(self)@.leases[a] == conn),
        {
            broadcast use vstd::seq_lib::group_seq_properties;
            let a = ks[i];
            proof {
                assert(ks@.take(i + 1) =~= ks@.take(i as int).push(a));
                if ks@.take(i as int).contains(a) {
                    let y = choose|y: int| 0 <= y < i && ks@.take(i as int)[y] == a;
                    assert(ks@[y] == ks@[i as int]);
                }
                assert(ks@.contains(a));
                assert(!freed@.to_set().contains(a));
            }
            match self.leases.get(&a) {
                Some(holder) => {
                    if *holder == conn {
                        self.leases.remove(&a);
                        proof {
                            freed@.lemma_push_to_set_commute(a);
                        }
                        freed.push(a);
                        proof {
                            assert(self.leases@ =~= old(self)@.leases.remove_keys(freed@.to_set()));
                        }
                    }
                },
                None => {},
            }
        }
        proof {
            assert(ks@.take(ks@.len() as int) =~= ks@);
            assert forall|a: AgentId| #[trigger] freed@.contains(a) <==> (old(self)@.leases.contains_key(a) && old(self)@.leases[a] == conn) by {}
        }
        freed
    }
}

/// The input lease is exclusive: once `holder` has it, `holder` may type and every other
/// connection is refused until it is given back.
pub proof fn lemma_only_the_holder_may_type(leases: Map<AgentId, ConnId>, agent: AgentId, holder: ConnId, other: ConnId)
    requires
        leases.contains_key(agent),
        leases[agent] == holder,
        other != holder,
    ensures
        lease_allows(leases, agent, holder),
        !lease_allows(leases, agent, other),
{
}

/// Taking a free lease and giving it back leaves the leases as they were.
pub proof fn lemma_acquire_then_release_restores(leases: Map<AgentId, ConnId>, agent: AgentId, conn: ConnId)
    requires
        !leases.contains_key(agent),
    ensures
        leases.insert(agent, conn).remove(agent) == leases,
{
    assert(leases.insert(agent, conn).remove(agent) =~= leases);
}

/// No lease outlives its holder: once a departing connection's leases are freed, it holds none,
/// and every other connection's lease is untouched.
pub proof fn lemma_a_departed_connection_holds_no_lease(leases: Map<AgentId, ConnId>, freed: Seq<AgentId>, conn: ConnId)
    requires
        forall|a: AgentId| freed.contains(a) <==> (leases.contains_key(a) && leases[a] == conn),
    ensures
        forall|a: AgentId| #[trigger] leases.remove_keys(freed.to_set()).contains_key(a)
            ==> leases.remove_keys(freed.to_set())[a] != conn && leases.remove_keys(freed.to_set())[a] == leases[a],
        forall|a: AgentId| leases.contains_key(a) && leases[a] != conn ==> #[trigger] leases.remove_keys(freed.to_set()).contains_key(a),
{
}

/// The size an agent's terminal takes fits every one of its viewports: no screen is cut off.
pub proof fn lemma_the_smallest_fits_every_viewport(m: Map<ViewKey, (u16, u16)>, agent: AgentId, cols: u16, rows: u16, id: Seq<char>)
    requires
        is_smallest(m, agent, cols, rows),
        m.contains_key((agent, id)),
    ensures
        cols <= m[(agent, id)].0,
        rows <= m[(agent, id)].1,
{
}

fn contains_agent(v: &Vec<AgentId>, a: AgentId) -> (r: bool)
    ensures
        r == v@.contains(a),
{
    for i in 0..v.len()
        invariant
            forall|j: int| 0 <= j < i ==> v@[j] != a,
    {
        if v[i] == a {
            return true;
        }
    }
    false
}

/// The agents whose lease is held, each once.
fn lease_keys(m: &HashMap<AgentId, ConnId>) -> (ks: Vec<AgentId>)
    ensures
        ks@.no_duplicates(),
        forall|k: AgentId| m@.contains_key(k) <==> ks@.contains(k),
{
    let mut ks: Vec<AgentId> = Vec::new();
    for k in it: m.keys()
        invariant
            it.seq() == vstd::std_specs::hash::spec_keys_iter(m).remaining(),
            ks@ == it.seq().take(it.index() as int).unref(),
    {
        ks.push(*k);
        assert(it.seq().take(it.index() + 1).unref() =~= it.seq().take(it.index() as int).unref().push(*k));
    }
    let ghost all = vstd::std_specs::hash::spec_keys_iter(m).remaining();
    assert(ks@ =~= all.unref());
    assert forall|k: AgentId| m@.contains_key(k) <==> ks@.contains(k) by {
        assert(all.unref().to_set().contains(k) <==> all.unref().contains(k));
    }
    ks
}

} // verus!
