//! The two family-free control entrances: discovery (the command catalog, merged from this
//! daemon's own table and the names attached owners registered) and calling a command by its
//! full name (answered here, relayed to its owner, or refused).

use vstd::prelude::*;
use vstd::multiset::Multiset;

use crate::agent::{preview, preview_within, previewed, previewed_within};
use crate::error::{code_text, CommandError, CommandReply, ErrorCode};
use crate::ids::{new_request_id, parse_uuid, uuid_parse, uuid_text, RequestId};
use crate::ingress::ControlQueryResult;
use crate::text::{chars_of, concat3, push_text, same_text};

verus! {

/// A command as its table declares it; `help` is carried as opaque bytes.
#[derive(Debug, Clone)]
pub struct CommandDecl {
    pub name: String,
    pub help: String,
}

/// A name an attached owner registered.
#[derive(Debug, Clone)]
pub struct RosterEntry {
    pub name: String,
    pub help: String,
    pub owner: String,
}

/// One row of the catalog as the client connection lists it.
#[derive(Debug, Clone)]
pub struct CommandListEntry {
    pub name: String,
    pub help: String,
    /// Whether an owner is attached; every listed row has one.
    pub available: bool,
}

// ---------------------------------------------------------------------------------------------
// Name order.
// ---------------------------------------------------------------------------------------------

/// Lexicographic order of names by code point (the order of `str`'s `Ord`).
pub open spec fn name_le(a: Seq<char>, b: Seq<char>) -> bool
    decreases a.len(),
{
    if a.len() == 0 {
        true
    } else if b.len() == 0 {
        false
    } else if (a[0] as u32) < (b[0] as u32) {
        true
    } else if (a[0] as u32) > (b[0] as u32) {
        false
    } else {
        name_le(a.drop_first(), b.drop_first())
    }
}

pub proof fn lemma_name_le_total(a: Seq<char>, b: Seq<char>)
    ensures
        name_le(a, b) || name_le(b, a),
    decreases a.len(),
{
    if a.len() > 0 && b.len() > 0 && (a[0] as u32) == (b[0] as u32) {
        lemma_name_le_total(a.drop_first(), b.drop_first());
    }
}

pub proof fn lemma_name_le_trans(a: Seq<char>, b: Seq<char>, c: Seq<char>)
    requires
        name_le(a, b),
        name_le(b, c),
    ensures
        name_le(a, c),
    decreases a.len(),
{
    if a.len() > 0 && b.len() > 0 && c.len() > 0 && (a[0] as u32) == (b[0] as u32) && (b[0] as u32) == (c[0] as u32) {
        lemma_name_le_trans(a.drop_first(), b.drop_first(), c.drop_first());
    }
}

fn name_le_exec(a: &str, b: &str) -> (r: bool)
    ensures
        r == name_le(a@, b@),
{
    let ac = chars_of(a);
    let bc = chars_of(b);
    let mut i: usize = 0;
    assert(a@.skip(0) =~= a@);
    assert(b@.skip(0) =~= b@);
    while i < ac.len()
        invariant
            ac@ == a@,
            bc@ == b@,
            i <= ac@.len(),
            i <= bc@.len(),
            name_le(a@, b@) == name_le(a@.skip(i as int), b@.skip(i as int)),
        decreases ac@.len() - i,
    {
        if i >= bc.len() {
            assert(b@.skip(i as int).len() == 0);
            assert(a@.skip(i as int).len() > 0);
            return false;
        }
        let x = ac[i] as u32;
        let y = bc[i] as u32;
        assert(a@.skip(i as int)[0] == a@[i as int]);
        assert(b@.skip(i as int)[0] == b@[i as int]);
        if x < y {
            return true;
        }
        if x > y {
            return false;
        }
        assert(a@.skip(i as int).drop_first() =~= a@.skip(i + 1));
        assert(b@.skip(i as int).drop_first() =~= b@.skip(i + 1));
        i = i + 1;
    }
    true
}

// ---------------------------------------------------------------------------------------------
// The merge.
// ---------------------------------------------------------------------------------------------

/// A catalog row by what it says: name and help.
pub open spec fn row_of(e: CommandListEntry) -> (Seq<char>, Seq<char>) {
    (e.name@, e.help@)
}

pub open spec fn rows_of(s: Seq<CommandListEntry>) -> Seq<(Seq<char>, Seq<char>)> {
    s.map_values(|e: CommandListEntry| row_of(e))
}

pub open spec fn decl_names(mine: Seq<CommandDecl>) -> Seq<Seq<char>> {
    mine.map_values(|d: CommandDecl| d.name@)
}

/// The registered names this daemon's own table does not also hold, in order.
pub open spec fn foreign_rows(registered: Seq<RosterEntry>, mine: Seq<CommandDecl>) -> Seq<(Seq<char>, Seq<char>)>
    decreases registered.len(),
{
    if registered.len() == 0 {
        Seq::empty()
    } else {
        let rest = foreign_rows(registered.drop_last(), mine);
        let e = registered.last();
        if decl_names(mine).contains(e.name@) {
            rest
        } else {
            rest.push((e.name@, e.help@))
        }
    }
}

/// Every row of the merged catalog: the registered names not held by this daemon, then this
/// daemon's own declarations (its declaration wins a clash, as its table answers first).
pub open spec fn merged_rows(mine: Seq<CommandDecl>, registered: Seq<RosterEntry>) -> Seq<(Seq<char>, Seq<char>)> {
    foreign_rows(registered, mine) + mine.map_values(|d: CommandDecl| (d.name@, d.help@))
}

/// Every registered entry whose name this daemon does not declare is among the foreign rows,
/// with its own help.
proof fn lemma_foreign_rows_keep_each_entry(registered: Seq<RosterEntry>, mine: Seq<CommandDecl>, k: int)
    requires
        0 <= k < registered.len(),
        !decl_names(mine).contains(registered[k].name@),
    ensures
        foreign_rows(registered, mine).contains((registered[k].name@, registered[k].help@)),
    decreases registered.len(),
{
    let rest = foreign_rows(registered.drop_last(), mine);
    if k == registered.len() - 1 {
        assert(foreign_rows(registered, mine) == rest.push((registered[k].name@, registered[k].help@)));
        assert(foreign_rows(registered, mine)[rest.len() as int] == (registered[k].name@, registered[k].help@));
    } else {
        assert(registered.drop_last()[k] == registered[k]);
        lemma_foreign_rows_keep_each_entry(registered.drop_last(), mine, k);
        let w = choose|j: int| 0 <= j < rest.len() && rest[j] == (registered[k].name@, registered[k].help@);
        if decl_names(mine).contains(registered.last().name@) {
            assert(foreign_rows(registered, mine) == rest);
        } else {
            assert(foreign_rows(registered, mine) == rest.push((registered.last().name@, registered.last().help@)));
            assert(foreign_rows(registered, mine)[w] == rest[w]);
        }
    }
}

/// The catalog carries a registered name's help byte for byte: every entry an attached owner
/// registered under a name this daemon does not declare is a row of the merge with that entry's
/// help, and so is every one of this daemon's own declarations; a list with the merge's rows
/// (as `merge` returns) holds each of them.
pub proof fn lemma_the_catalog_carries_each_help(
    mine: Seq<CommandDecl>,
    registered: Seq<RosterEntry>,
    listed: Seq<CommandListEntry>,
)
    requires
        rows_of(listed).to_multiset() == merged_rows(mine, registered).to_multiset(),
    ensures
        forall|k: int| 0 <= k < registered.len() && !decl_names(mine).contains(#[trigger] registered[k].name@)
            ==> rows_of(listed).contains((registered[k].name@, registered[k].help@)),
        forall|k: int| 0 <= k < mine.len() ==> rows_of(listed).contains(((#[trigger] mine[k]).name@, mine[k].help@)),
{
    broadcast use vstd::seq_lib::group_to_multiset_ensures;
    let all = merged_rows(mine, registered);
    let f = foreign_rows(registered, mine);
    assert forall|k: int| 0 <= k < registered.len() && !decl_names(mine).contains(#[trigger] registered[k].name@)
        implies rows_of(listed).contains((registered[k].name@, registered[k].help@)) by {
        lemma_foreign_rows_keep_each_entry(registered, mine, k);
        let j = choose|j: int| 0 <= j < f.len() && f[j] == (registered[k].name@, registered[k].help@);
        assert(all[j] == f[j]);
        assert(all.contains((registered[k].name@, registered[k].help@)));
        all.to_multiset_ensures();
        rows_of(listed).to_multiset_ensures();
        assert(all.to_multiset().count((registered[k].name@, registered[k].help@)) > 0);
    }
    assert forall|k: int| 0 <= k < mine.len() implies rows_of(listed).contains(((#[trigger] mine[k]).name@, mine[k].help@)) by {
        assert(all[f.len() + k] == (mine[k].name@, mine[k].help@));
        assert(all.contains((mine[k].name@, mine[k].help@)));
        all.to_multiset_ensures();
        rows_of(listed).to_multiset_ensures();
        assert(all.to_multiset().count((mine[k].name@, mine[k].help@)) > 0);
    }
}

/// Rows in name order.
pub open spec fn sorted_by_name(s: Seq<CommandListEntry>) -> bool {
    forall|i: int, j: int| 0 <= i < j < s.len() ==> name_le(#[trigger] s[i].name@, #[trigger] s[j].name@)
}

fn name_in(names: &Vec<String>, name: &str) -> (r: bool)
    ensures
        r == names.deep_view().contains(name@),
{
    for i in 0..names.len()
        invariant
            forall|j: int| 0 <= j < i ==> names.deep_view()[j] != name@,
    {
        if same_text(names[i].as_str(), name) {
            assert(names.deep_view()[i as int] == name@);
            return true;
        }
    }
    false
}

/// Inserts a row into a name-ordered list after every row that does not sort after it.
fn insert_sorted(out: &mut Vec<CommandListEntry>, e: CommandListEntry)
    requires
        sorted_by_name(old(out)@),
        forall|k: int| 0 <= k < old(out)@.len() ==> (#[trigger] old(out)@[k]).available,
        e.available,
    ensures
        sorted_by_name(final(out)@),
        rows_of(final(out)@).to_multiset() == rows_of(old(out)@).to_multiset().insert(row_of(e)),
        forall|k: int| 0 <= k < final(out)@.len() ==> (#[trigger] final(out)@[k]).available,
{
    let mut p: usize = 0;
    while p < out.len() && name_le_exec(out[p].name.as_str(), e.name.as_str())
        invariant
            p <= out@.len(),
            out@ == old(out)@,
            forall|i: int| 0 <= i < p ==> name_le(#[trigger] out@[i].name@, e.name@),
        decreases out@.len() - p,
    {
        p = p + 1;
    }
    let ghost before = out@;
    proof {
        if p < before.len() {
            lemma_name_le_total(before[p as int].name@, e.name@);
        }
    }
    out.insert(p, e);
    proof {
        let after = out@;
        assert(after == before.insert(p as int, e));
        assert forall|i: int, j: int| 0 <= i < j < after.len() implies name_le(#[trigger] after[i].name@, #[trigger] after[j].name@) by {
            if i < p && j == p {
            } else if i == p && j > p {
                if j - 1 > p {
                    lemma_name_le_trans(e.name@, before[p as int].name@, before[j - 1].name@);
                }
            } else if i < p && j > p {
            } else if i > p {
            }
        }
        assert(rows_of(after) =~= rows_of(before).insert(p as int, row_of(e)));
        vstd::seq_lib::to_multiset_insert(rows_of(before), p as int, row_of(e));
        assert forall|k: int| 0 <= k < after.len() implies (#[trigger] after[k]).available by {
            if k < p {
                assert(before[k] == after[k]);
            } else if k > p {
                assert(before[k - 1] == after[k]);
            }
        }
    }
}

/// The catalog the client connection lists: this daemon's declarations and the registered names
/// it does not hold, in name order, `help` untouched.
pub fn merge(mine: Vec<CommandDecl>, registered: Vec<RosterEntry>) -> (r: Vec<CommandListEntry>)
    ensures
        sorted_by_name(r@),
        rows_of(r@).to_multiset() == merged_rows(mine@, registered@).to_multiset(),
        forall|i: int| 0 <= i < r@.len() ==> (#[trigger] r@[i]).available,
{
    let mut names: Vec<String> = Vec::new();
    for i in 0..mine.len()
        invariant
            names.deep_view() == decl_names(mine@.take(i as int)),
    {
        names.push(mine[i].name.clone());
        assert(decl_names(mine@.take(i + 1)) =~= decl_names(mine@.take(i as int)).push(mine@[i as int].name@));
    }
    assert(mine@.take(mine@.len() as int) =~= mine@);
    let mut out: Vec<CommandListEntry> = Vec::new();
    let ghost mut added: Seq<(Seq<char>, Seq<char>)> = Seq::empty();
    assert(rows_of(out@) =~= added);
    assert(registered@.take(0) =~= Seq::<RosterEntry>::empty());
    for i in 0..registered.len()
        invariant
            names.deep_view() == decl_names(mine@),
            sorted_by_name(out@),
            rows_of(out@).to_multiset() == added.to_multiset(),
            added == foreign_rows(registered@.take(i as int), mine@),
            forall|k: int| 0 <= k < out@.len() ==> (#[trigger] out@[k]).available,
    {
        let e = &registered[i];
        assert(registered@.take(i + 1).drop_last() =~= registered@.take(i as int));
        if !name_in(&names, e.name.as_str()) {
            let row = CommandListEntry { name: e.name.clone(), help: e.help.clone(), available: true };
            insert_sorted(&mut out, row);
            proof {
                vstd::seq_lib::to_multiset_build(added, (e.name@, e.help@));
                added = added.push((e.name@, e.help@));
            }
        }
    }
    assert(registered@.take(registered@.len() as int) =~= registered@);
    for i in 0..mine.len()
        invariant
            sorted_by_name(out@),
            rows_of(out@).to_multiset() == added.to_multiset(),
            added == foreign_rows(registered@, mine@) + mine@.take(i as int).map_values(|d: CommandDecl| (d.name@, d.help@)),
            forall|k: int| 0 <= k < out@.len() ==> (#[trigger] out@[k]).available,
    {
        let d = &mine[i];
        let row = CommandListEntry { name: d.name.clone(), help: d.help.clone(), available: true };
        insert_sorted(&mut out, row);
        proof {
            vstd::seq_lib::to_multiset_build(added, (d.name@, d.help@));
            added = added.push((d.name@, d.help@));
            assert(foreign_rows(registered@, mine@) + mine@.take(i + 1).map_values(|d: CommandDecl| (d.name@, d.help@))
                =~= added);
        }
    }
    assert(mine@.take(mine@.len() as int) =~= mine@);
    out
}

/// One row of the catalog as the HTTP listing gives it: whether this entrance can run the name
/// now (this daemon holds it, or an attached owner registered it).
#[derive(Debug)]
pub struct CatalogRow {
    pub name: String,
    pub help: String,
    pub callable: bool,
}

pub open spec fn entry_names(registered: Seq<RosterEntry>) -> Seq<Seq<char>> {
    registered.map_values(|e: RosterEntry| e.name@)
}

pub open spec fn reachable(name: Seq<char>, mine: Seq<CommandDecl>, registered: Seq<RosterEntry>) -> bool {
    decl_names(mine).contains(name) || entry_names(registered).contains(name)
}

proof fn lemma_foreign_rows_facts(registered: Seq<RosterEntry>, mine: Seq<CommandDecl>)
    ensures
        forall|i: int| 0 <= i < foreign_rows(registered, mine).len() ==> {
            &&& !decl_names(mine).contains((#[trigger] foreign_rows(registered, mine)[i]).0)
            &&& entry_names(registered).contains(foreign_rows(registered, mine)[i].0)
        },
    decreases registered.len(),
{
    if registered.len() > 0 {
        let rest = registered.drop_last();
        lemma_foreign_rows_facts(rest, mine);
        let f = foreign_rows(registered, mine);
        let fr = foreign_rows(rest, mine);
        assert forall|i: int| 0 <= i < f.len() implies {
            &&& !decl_names(mine).contains((#[trigger] f[i]).0)
            &&& entry_names(registered).contains(f[i].0)
        } by {
            if i < fr.len() {
                assert(f[i] == fr[i]);
                let k = choose|k: int| 0 <= k < rest.len() && entry_names(rest)[k] == fr[i].0;
                assert(entry_names(registered)[k] == fr[i].0);
            } else {
                assert(f[i].0 == registered.last().name@);
                assert(entry_names(registered)[registered.len() - 1] == registered.last().name@);
            }
        }
    }
}

/// The daemon wins a clash: no row of the catalog that comes from the registered names carries
/// a name this daemon's own table declares (its table answers such a name first).
pub proof fn lemma_the_daemon_wins_a_clash(mine: Seq<CommandDecl>, registered: Seq<RosterEntry>)
    ensures
        forall|i: int| 0 <= i < foreign_rows(registered, mine).len()
            ==> !decl_names(mine).contains((#[trigger] foreign_rows(registered, mine)[i]).0),
{
    lemma_foreign_rows_facts(registered, mine);
}

/// Every name the catalog teaches is one the call route can run: it is this daemon's, or an
/// attached owner registered it.
pub proof fn lemma_every_listed_name_is_callable(mine: Seq<CommandDecl>, registered: Seq<RosterEntry>)
    ensures
        forall|i: int| 0 <= i < merged_rows(mine, registered).len()
            ==> reachable((#[trigger] merged_rows(mine, registered)[i]).0, mine, registered),
{
    lemma_foreign_rows_facts(registered, mine);
    let f = foreign_rows(registered, mine);
    let m = merged_rows(mine, registered);
    assert forall|i: int| 0 <= i < m.len() implies reachable((#[trigger] m[i]).0, mine, registered) by {
        if i < f.len() {
            assert(m[i] == f[i]);
        } else {
            let k = i - f.len();
            assert(m[i].0 == mine[k].name@);
            assert(decl_names(mine)[k] == mine[k].name@);
        }
    }
}

/// The HTTP catalog: the merged rows, each with whether this entrance can run it — decided from
/// the same two facts the call route decides on, so the listing never teaches a name the call
/// route cannot run.
pub fn listing(mine: Vec<CommandDecl>, registered: Vec<RosterEntry>) -> (r: Vec<CatalogRow>)
    ensures
        r@.len() == merged_rows(mine@, registered@).len(),
        r@.map_values(|c: CatalogRow| (c.name@, c.help@)).to_multiset() == merged_rows(mine@, registered@).to_multiset(),
        forall|i: int, j: int| 0 <= i < j < r@.len() ==> name_le(#[trigger] r@[i].name@, #[trigger] r@[j].name@),
        forall|i: int| 0 <= i < r@.len() ==> (#[trigger] r@[i]).callable == reachable(r@[i].name@, mine@, registered@),
{
    let ghost m = mine@;
    let ghost g = registered@;
    let mut mine_names: Vec<String> = Vec::new();
    for i in 0..mine.len()
        invariant
            mine_names.deep_view() == decl_names(mine@.take(i as int)),
    {
        mine_names.push(mine[i].name.clone());
        assert(decl_names(mine@.take(i + 1)) =~= decl_names(mine@.take(i as int)).push(mine@[i as int].name@));
    }
    assert(mine@.take(mine@.len() as int) =~= mine@);
    let mut reg_names: Vec<String> = Vec::new();
    for i in 0..registered.len()
        invariant
            reg_names.deep_view() == entry_names(registered@.take(i as int)),
    {
        reg_names.push(registered[i].name.clone());
        assert(entry_names(registered@.take(i + 1)) =~= entry_names(registered@.take(i as int)).push(registered@[i as int].name@));
    }
    assert(registered@.take(registered@.len() as int) =~= registered@);
    let merged = merge(mine, registered);
    proof {
        rows_of(merged@).to_multiset_ensures();
        merged_rows(m, g).to_multiset_ensures();
    }
    let mut r: Vec<CatalogRow> = Vec::new();
    for i in 0..merged.len()
        invariant
            mine_names.deep_view() == decl_names(m),
            reg_names.deep_view() == entry_names(g),
            r@.len() == i,
            forall|k: int| 0 <= k < i ==> (#[trigger] r@[k]).name@ == merged@[k].name@ && r@[k].help@ == merged@[k].help@,
            forall|k: int| 0 <= k < i ==> (#[trigger] r@[k]).callable == reachable(r@[k].name@, m, g),
    {
        let e = &merged[i];
        let callable = name_in(&mine_names, e.name.as_str()) || name_in(&reg_names, e.name.as_str());
        r.push(CatalogRow { name: e.name.clone(), help: e.help.clone(), callable });
    }
    proof {
        assert(r@.map_values(|c: CatalogRow| (c.name@, c.help@)) =~= rows_of(merged@));
        assert forall|i: int, j: int| 0 <= i < j < r@.len() implies name_le(#[trigger] r@[i].name@, #[trigger] r@[j].name@) by {
            assert(name_le(merged@[i].name@, merged@[j].name@));
        }
    }
    r
}

// ---------------------------------------------------------------------------------------------
// Calling a command by its full name.
// ---------------------------------------------------------------------------------------------

/// Whether a command only reads or also changes something.
#[derive(Debug, Clone, Copy, PartialEq, Eq, Structural)]
pub enum Effect {
    Read,
    Write,
}

/// This daemon's own command table, as the first stage of delivery sees it. `claim` is the
/// routing authority: a name it claims is answered here and never relayed.
///
/// The spec functions name what the table answers at the call a request makes; an
/// implementation is held to returning them. Their bodies are the answers of a table that holds
/// nothing; code generic over the trait never sees them, only an implementation that does not
/// give its own.
pub trait LocalCommands {
    /// What `claim` answers for a name.
    open spec fn claim_of(&self, name: Seq<char>) -> Option<Effect> {
        None
    }

    /// What `run` answers for a name, the arguments it was handed and the entrance label.
    open spec fn run_of(&self, name: Seq<char>, args: serde_json::Value, entrance: Seq<char>) -> Option<Result<serde_json::Value, CommandError>> {
        None
    }

    fn claim(&self, name: &str) -> (r: Option<Effect>)
        ensures
            r == self.claim_of(name@);

    /// Runs a claimed name; `None` when the table has no answer for it.
    fn run(&self, name: &str, args: &mut serde_json::Value, entrance: &str) -> (r: Option<Result<serde_json::Value, CommandError>>)
        ensures
            r == self.run_of(name@, *old(args), entrance@);

    fn decls(&self) -> Vec<CommandDecl>;
}

/// What the roster answers for a name.
#[derive(Debug, Clone, PartialEq, Eq)]
pub enum OwnerLookup {
    /// An attached owner registered it (its stored token).
    Available(String),
    Unknown,
}

/// The roster, as the call route asks it one question. The spec function names its answer; an
/// implementation is held to returning it. Its body is the answer of an empty roster; code
/// generic over the trait never sees it.
pub trait OwnerLookupSource {
    /// What `lookup` answers for a name.
    open spec fn lookup_of(&self, name: Seq<char>) -> OwnerLookup {
        OwnerLookup::Unknown
    }

    fn lookup(&self, name: &str) -> (r: OwnerLookup)
        ensures
            r == self.lookup_of(name@);
}

/// An empty JSON object.
///
/// Trusted: builds `serde_json::Value::Object(serde_json::Map::new())`; nothing is stated of the
/// value, which Verus cannot look into.
#[verifier::external_body]
fn empty_object() -> serde_json::Value {
    serde_json::Value::Object(serde_json::Map::new())
}

/// A full-name call: the name, its arguments (an object, `{}` when absent), and the caller's
/// request id as written, if it sent one.
#[derive(Debug)]
pub struct CallRequest {
    pub name: String,
    pub args: serde_json::Value,
    pub request_id: Option<String>,
}

impl Default for CallRequest {
    fn default() -> (r: CallRequest)
        ensures
            r.name@ == Seq::<char>::empty(),
            r.request_id is None,
    {
        CallRequest { name: String::new(), args: empty_object(), request_id: None }
    }
}

/// Whether a call was answered here or goes to the bus.
#[derive(Debug)]
pub enum CallOutcome {
    Answered(ControlQueryResult),
    /// Someone else's name with an attached owner: relayed with its arguments untouched.
    Relay { name: String, args: serde_json::Value, request_id: RequestId },
}

/// The only recovery this entrance knows: the catalog route lists every callable name and its
/// fields.
pub const CATALOG_RECOVERY: &'static str = "list the command catalog (POST /control/commands) for every callable name and its fields";

/// How many characters of a table's refusal message this entrance passes on (both ends kept).
pub const MESSAGE_PREVIEW_CHARS: usize = 2048;

/// The field a caller's own request id travels in.
pub const CALLER_REQUEST_ID_FIELD: &'static str = "request_id";

/// A table failure as this entrance answers it: the message cut down keeping both ends, and the
/// catalog recovery only for faults the catalog can fix (argument and name faults).
pub open spec fn catalog_refusal_hint(message: Seq<char>, code: ErrorCode) -> Seq<char> {
    let m = previewed_within(message, MESSAGE_PREVIEW_CHARS as nat);
    match code {
        ErrorCode::InvalidArgument | ErrorCode::UnknownCommand => m + " \u{2014} "@ + CATALOG_RECOVERY@ + "."@,
        _ => m,
    }
}

pub fn refused(e: CommandError) -> (r: ControlQueryResult)
    ensures
        r.refusal() == Some((code_text(e.code), catalog_refusal_hint(e.message@, e.code))),
{
    let mut hint = preview_within(e.message.as_str(), MESSAGE_PREVIEW_CHARS);
    match e.code {
        ErrorCode::InvalidArgument | ErrorCode::UnknownCommand => {
            push_text(&mut hint, " \u{2014} ");
            push_text(&mut hint, CATALOG_RECOVERY);
            push_text(&mut hint, ".");
        },
        _ => {},
    }
    ControlQueryResult::Error { code: e.code.as_str(), hint }
}

pub open spec fn unknown_name_hint(name: Seq<char>) -> Seq<char> {
    "unknown command '"@ + previewed(name) + "' \u{2014} neither this daemon nor any connected client declares that name; "@
        + CATALOG_RECOVERY@ + "."@
}

/// Nobody declares the name: not this daemon's table, not an attached owner.
pub fn unknown_name(name: &str) -> (r: ControlQueryResult)
    ensures
        r.refusal() == Some((code_text(ErrorCode::UnknownCommand), unknown_name_hint(name@))),
{
    let mut hint = concat3("unknown command '", preview(name).as_str(), "' \u{2014} neither this daemon nor any connected client declares that name; ");
    push_text(&mut hint, CATALOG_RECOVERY);
    push_text(&mut hint, ".");
    ControlQueryResult::Error { code: ErrorCode::UnknownCommand.as_str(), hint }
}

pub open spec fn malformed_call_hint(reason: Seq<char>, raw: Seq<char>) -> Seq<char> {
    "the request body is not a valid command call: "@ + reason
        + " \u{2014} it must be a JSON object like {\"name\":\"agent.list\",\"args\":{}}; got: "@ + previewed(raw)
}

/// The refusal for a body that is not a call object (no catalog hint: the shape is wrong, not
/// the name).
pub fn malformed_body(reason: &str, raw: &str) -> (r: ControlQueryResult)
    ensures
        r.refusal() == Some((code_text(ErrorCode::InvalidArgument), malformed_call_hint(reason@, raw@))),
{
    let mut hint = concat3("the request body is not a valid command call: ", reason, " \u{2014} it must be a JSON object like {\"name\":\"agent.list\",\"args\":{}}; got: ");
    push_text(&mut hint, preview(raw).as_str());
    ControlQueryResult::Error { code: ErrorCode::InvalidArgument.as_str(), hint }
}

pub open spec fn request_id_hint(raw: Seq<char>) -> Seq<char> {
    "'"@ + CALLER_REQUEST_ID_FIELD@ + "' must be a UUID \u{2014} hyphenated (8-4-4-4-12), 32 hex digits with no dashes, braced, or urn:uuid: form \u{2014} so a retry can reuse it; got: "@
        + previewed(raw)
}

/// Reads a caller's request id (any form `uuid` accepts, all of bounded length) or names the
/// field in the refusal.
pub fn caller_request_id(raw: &str) -> (r: Result<RequestId, ControlQueryResult>)
    ensures
        forall|id: u128| #[trigger] uuid_text(id) == raw@ ==> r == Ok::<RequestId, ControlQueryResult>(id),
        match uuid_parse(raw@) {
            Some(id) => r == Ok::<RequestId, ControlQueryResult>(id),
            None => r matches Err(e) && e.refusal() == Some((code_text(ErrorCode::InvalidArgument), request_id_hint(raw@))),
        },
{
    match parse_uuid(raw) {
        Some(id) => Ok(id),
        None => {
            let mut hint = concat3("'", CALLER_REQUEST_ID_FIELD, "' must be a UUID \u{2014} hyphenated (8-4-4-4-12), 32 hex digits with no dashes, braced, or urn:uuid: form \u{2014} so a retry can reuse it; got: ");
            push_text(&mut hint, preview(raw).as_str());
            Err(ControlQueryResult::Error { code: ErrorCode::InvalidArgument.as_str(), hint })
        },
    }
}

pub open spec fn claimed_but_silent_text(name: Seq<char>) -> Seq<char> {
    "this daemon claims '"@ + previewed(name) + "' but its own table produced no answer for it"@
}

/// `a` is the answer to the claimed `name` when the table's `run` gave `ran`.
pub open spec fn answers_claimed(name: Seq<char>, ran: Option<Result<serde_json::Value, CommandError>>, a: ControlQueryResult) -> bool {
    match ran {
        Some(Ok(payload)) => a == ControlQueryResult::Answer(payload),
        Some(Err(e)) => a.refusal() == Some((code_text(e.code), catalog_refusal_hint(e.message@, e.code))),
        None => a.refusal() == Some((code_text(ErrorCode::Internal),
            catalog_refusal_hint(claimed_but_silent_text(name), ErrorCode::Internal))),
    }
}

/// The answer to a name this daemon claims, from what its table's `run` gave: the payload as
/// it is, the table's failure as this entrance refuses failures, or an internal fault when the
/// table had nothing to say about a name it claims.
pub fn claimed_answer(name: &str, ran: Option<Result<serde_json::Value, CommandError>>) -> (r: ControlQueryResult)
    ensures
        answers_claimed(name@, ran, r),
{
    match ran {
        Some(Ok(payload)) => ControlQueryResult::Answer(payload),
        Some(Err(e)) => refused(e),
        None => {
            let message = concat3("this daemon claims '", preview(name).as_str(), "' but its own table produced no answer for it");
            refused(CommandError::of(ErrorCode::Internal, message))
        },
    }
}

/// The outcome for a name this daemon does not claim, from what the roster answered: relayed
/// untouched, with the call's request id, when an attached owner registered it; unknown
/// otherwise.
pub fn unclaimed_outcome(name: String, args: serde_json::Value, request_id: RequestId, found: OwnerLookup) -> (r: CallOutcome)
    ensures
        match found {
            OwnerLookup::Available(_) => r == (CallOutcome::Relay { name, args, request_id }),
            OwnerLookup::Unknown => r matches CallOutcome::Answered(a)
                && a.refusal() == Some((code_text(ErrorCode::UnknownCommand), unknown_name_hint(name@))),
        },
{
    match found {
        OwnerLookup::Available(_) => CallOutcome::Relay { name, args, request_id },
        OwnerLookup::Unknown => CallOutcome::Answered(unknown_name(name.as_str())),
    }
}

/// No caller request id, or one that reads as a UUID (a UUID's own hyphenated text among them).
pub open spec fn request_id_readable(raw: Option<String>) -> bool {
    match raw {
        Some(t) => uuid_parse(t@) is Some || exists|id: u128| #[trigger] uuid_text(id) == t@,
        None => true,
    }
}

/// Handles a full-name call. The caller's request id is judged before anything else (a bad one
/// is refused whatever the name); a name this daemon claims is answered here
/// (`claimed_answer`); another name goes to the bus when an attached owner registered it, and is
/// unknown otherwise (`unclaimed_outcome`). What the tables answer is theirs: this states what
/// holds whatever they answer.
pub fn handle_call<L: LocalCommands, O: OwnerLookupSource>(locals: &L, registered: &O, req: CallRequest) -> (r: CallOutcome)
    ensures
        match req.request_id {
            Some(raw) => uuid_parse(raw@) is None ==> (r matches CallOutcome::Answered(a)
                && a.refusal() == Some((code_text(ErrorCode::InvalidArgument), request_id_hint(raw@)))),
            None => true,
        },
        r matches CallOutcome::Relay { name, args, request_id } ==> name@ == req.name@ && args == req.args
            && match req.request_id {
                Some(raw) => uuid_parse(raw@) == Some(request_id)
                    && forall|id: u128| #[trigger] uuid_text(id) == raw@ ==> request_id == id,
                None => true,
            },
        request_id_readable(req.request_id) ==> match locals.claim_of(req.name@) {
            None => match registered.lookup_of(req.name@) {
                OwnerLookup::Available(_) => r is Relay,
                OwnerLookup::Unknown => r matches CallOutcome::Answered(a)
                    && a.refusal() == Some((code_text(ErrorCode::UnknownCommand), unknown_name_hint(req.name@))),
            },
            Some(_) => r matches CallOutcome::Answered(a)
                && answers_claimed(req.name@, locals.run_of(req.name@, req.args, "cli"@), a),
        },
{
    let CallRequest { name, args, request_id } = req;
    let mut args = args;
    let id = match request_id {
        Some(raw) => match caller_request_id(raw.as_str()) {
            Ok(id) => id,
            Err(refusal) => {
                return CallOutcome::Answered(refusal);
            },
        },
        None => new_request_id(),
    };
    match locals.claim(name.as_str()) {
        None => {
            let found = registered.lookup(name.as_str());
            return unclaimed_outcome(name, args, id, found);
        },
        Some(_) => {},
    }
    let ran = locals.run(name.as_str(), &mut args, "cli");
    CallOutcome::Answered(claimed_answer(name.as_str(), ran))
}

/// A relayed outcome as this entrance answers it: the owner's payload unopened, or its failure
/// through the same refusal as every other here.
pub fn relayed(reply: CommandReply) -> (r: ControlQueryResult)
    ensures
        match reply.outcome {
            Ok(payload) => r == ControlQueryResult::Answer(payload),
            Err(e) => r.refusal() == Some((code_text(e.code), catalog_refusal_hint(e.message@, e.code))),
        },
{
    match reply.outcome {
        Ok(payload) => ControlQueryResult::Answer(payload),
        Err(e) => refused(e),
    }
}

} // verus!
