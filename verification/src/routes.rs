//! The control server's surface: its routes and which of them are mail, the bearer check in
//! front of every request, the tool arguments, and how each entrance turns its arguments into
//! one send command.

use vstd::prelude::*;

use crate::ids::{format_uuid, uuid_text};
use crate::ingress::{BoundIdentity, ControlCommand, SendContract};
use crate::text::{chars_of, decimal, decimal_text, push_text, same_text, string_of, trim_text, trimmed};

verus! {

/// Where the MCP service is mounted; the configuration handed to agents points here.
pub const MCP_PATH: &'static str = "/mcp";

pub const CONTROL_SEND_PATH: &'static str = "/control/send";

pub const CONTROL_MESSAGES_PATH: &'static str = "/control/messages";

pub const CONTROL_AGENT_PATH: &'static str = "/control/agent";

/// The command catalog route (discovery).
pub const CONTROL_COMMANDS_PATH: &'static str = "/control/commands";

/// The full-name call route.
pub const CONTROL_CALL_PATH: &'static str = "/control/call";

/// The namespace of the control routes; an unlisted path under it is treated as mail.
pub const CONTROL_PATH_PREFIX: &'static str = "/control";

/// The name the send tool is listed under (and granted by).
pub const SEND_MESSAGE_TOOL: &'static str = "send_message";

/// The name the query tool is listed under.
pub const MESSAGES_TOOL: &'static str = "messages";

/// The plain JSON routes beside the MCP service.
#[derive(Debug, Clone, Copy, PartialEq, Eq, Structural)]
pub enum ControlRoute {
    Send,
    Messages,
    Agent,
}

pub open spec fn route_path(r: ControlRoute) -> Seq<char> {
    match r {
        ControlRoute::Send => CONTROL_SEND_PATH@,
        ControlRoute::Messages => CONTROL_MESSAGES_PATH@,
        ControlRoute::Agent => CONTROL_AGENT_PATH@,
    }
}

/// Sending and querying mail are mail; the agent verbs are open to every agent.
pub open spec fn route_is_mail(r: ControlRoute) -> bool {
    match r {
        ControlRoute::Send | ControlRoute::Messages => true,
        ControlRoute::Agent => false,
    }
}

/// The route a path names exactly, if any.
pub open spec fn route_of(path: Seq<char>) -> Option<ControlRoute> {
    if path == CONTROL_SEND_PATH@ {
        Some(ControlRoute::Send)
    } else if path == CONTROL_MESSAGES_PATH@ {
        Some(ControlRoute::Messages)
    } else if path == CONTROL_AGENT_PATH@ {
        Some(ControlRoute::Agent)
    } else {
        None
    }
}

impl ControlRoute {
    /// Every route, in the order the router mounts them.
    pub fn all() -> (r: [ControlRoute; 3])
        ensures
            r@ == seq![ControlRoute::Send, ControlRoute::Messages, ControlRoute::Agent],
    {
        [ControlRoute::Send, ControlRoute::Messages, ControlRoute::Agent]
    }

    pub fn path(self) -> (p: &'static str)
        ensures
            p@ == route_path(self),
    {
        match self {
            ControlRoute::Send => CONTROL_SEND_PATH,
            ControlRoute::Messages => CONTROL_MESSAGES_PATH,
            ControlRoute::Agent => CONTROL_AGENT_PATH,
        }
    }

    pub fn is_mail(self) -> (r: bool)
        ensures
            r == route_is_mail(self),
    {
        match self {
            ControlRoute::Send | ControlRoute::Messages => true,
            ControlRoute::Agent => false,
        }
    }

    /// The route a path names; `None` for anything off the list (`/mcp` among them).
    pub fn from_path(path: &str) -> (r: Option<ControlRoute>)
        ensures
            r == route_of(path@),
    {
        if same_text(path, CONTROL_SEND_PATH) {
            Some(ControlRoute::Send)
        } else if same_text(path, CONTROL_MESSAGES_PATH) {
            Some(ControlRoute::Messages)
        } else if same_text(path, CONTROL_AGENT_PATH) {
            Some(ControlRoute::Agent)
        } else {
            None
        }
    }
}

/// A path in the control namespace: `/control` itself or anything below `/control/` (a segment
/// boundary, so `/controlfoo` is not in it).
pub open spec fn in_control_namespace(path: Seq<char>) -> bool {
    path == CONTROL_PATH_PREFIX@ || (path.len() > CONTROL_PATH_PREFIX@.len()
        && path.take(CONTROL_PATH_PREFIX@.len() as int) == CONTROL_PATH_PREFIX@
        && path[CONTROL_PATH_PREFIX@.len() as int] == '/')
}

/// Whether the mail gate applies to a path. A listed route follows its own class; an unlisted
/// path under the control prefix counts as mail, so a route without a class stays closed;
/// any other path is not gated.
pub open spec fn gated(path: Seq<char>) -> bool {
    match route_of(path) {
        Some(r) => route_is_mail(r),
        None => in_control_namespace(path),
    }
}

pub fn mail_gated_path(path: &str) -> (r: bool)
    ensures
        r == gated(path@),
{
    match ControlRoute::from_path(path) {
        Some(route) => route.is_mail(),
        None => {
            proof {
                reveal_strlit("/control");
            }
            let chars = chars_of(path);
            let prefix = chars_of(CONTROL_PATH_PREFIX);
            if same_text(path, CONTROL_PATH_PREFIX) {
                return true;
            }
            if chars.len() <= prefix.len() {
                return false;
            }
            for i in 0..prefix.len()
                invariant
                    prefix@ == CONTROL_PATH_PREFIX@,
                    chars@ == path@,
                    route_of(path@) is None,
                    prefix@.len() < chars@.len(),
                    forall|j: int| 0 <= j < i ==> chars@[j] == prefix@[j],
            {
                if chars[i] != prefix[i] {
                    assert(path@.take(CONTROL_PATH_PREFIX@.len() as int)[i as int] != CONTROL_PATH_PREFIX@[i as int]);
                    return false;
                }
            }
            assert(path@.take(CONTROL_PATH_PREFIX@.len() as int) =~= CONTROL_PATH_PREFIX@);
            chars[prefix.len()] == '/'
        },
    }
}

/// The mail gate fails closed: an unlisted path in the control namespace is treated as mail,
/// and a listed route follows its own class.
pub proof fn lemma_the_mail_gate_fails_closed(path: Seq<char>)
    ensures
        route_of(path) is None ==> (gated(path) <==> in_control_namespace(path)),
        route_of(path) matches Some(r) ==> gated(path) == route_is_mail(r),
{
}

/// The MCP service and everything below it lie outside the mail gate: it is the credential's
/// own channel.
pub proof fn lemma_the_mcp_route_is_never_gated(path: Seq<char>)
    requires
        path.len() >= MCP_PATH@.len(),
        path.take(MCP_PATH@.len() as int) == MCP_PATH@,
    ensures
        !gated(path),
{
    reveal_strlit("/mcp");
    reveal_strlit("/control");
    reveal_strlit("/control/send");
    reveal_strlit("/control/messages");
    reveal_strlit("/control/agent");
    assert(path[1] == 'm') by {
        assert(path.take(4)[1] == path[1]);
    }
    if path == CONTROL_SEND_PATH@ {
        assert(CONTROL_SEND_PATH@[1] == 'c');
    }
    if path == CONTROL_MESSAGES_PATH@ {
        assert(CONTROL_MESSAGES_PATH@[1] == 'c');
    }
    if path == CONTROL_AGENT_PATH@ {
        assert(CONTROL_AGENT_PATH@[1] == 'c');
    }
    if path == CONTROL_PATH_PREFIX@ {
        assert(CONTROL_PATH_PREFIX@[1] == 'c');
    }
    if path.len() > CONTROL_PATH_PREFIX@.len() && path.take(CONTROL_PATH_PREFIX@.len() as int) == CONTROL_PATH_PREFIX@ {
        assert(path.take(CONTROL_PATH_PREFIX@.len() as int)[1] == path[1]);
    }
}

/// The code of a refused mail request on a credential that may not use this entrance.
pub const MAIL_NOT_ALLOWED_CODE: &'static str = "MAIL_NOT_ALLOWED";

/// Its hint: it names no other channel, and says retrying is pointless.
pub const MAIL_NOT_ALLOWED_HINT: &'static str = "This credential is not allowed to use mail. Retrying will not change that.";

// ---------------------------------------------------------------------------------------------
// The bearer check.
// ---------------------------------------------------------------------------------------------

/// Why a request was stopped before the service saw it.
#[derive(Debug, Clone, Copy, PartialEq, Eq, Structural)]
pub enum AuthReject {
    /// 401: no `Bearer` token, or one the registry does not know.
    Unauthorized,
    /// 200 with the mail refusal: a mail route on a credential without mail.
    MailNotAllowed,
    /// 400: a malformed session header, or a session operation without a session.
    BadRequest,
    /// 403: the session is bound to another identity.
    Forbidden,
    /// 404: the session is bound to nobody the daemon knows.
    NotFound,
}

/// The HTTP methods the check tells apart.
#[derive(Debug, Clone, Copy, PartialEq, Eq, Structural)]
pub enum HttpMethod {
    Get,
    Post,
    Delete,
    Other,
}

/// The session header of a request.
#[derive(Debug, Clone, PartialEq, Eq)]
pub enum SessionHeader {
    Absent,
    /// Present but not text.
    Malformed,
    Present(String),
}

pub open spec fn bearer_prefix() -> Seq<char> {
    "Bearer "@
}

/// The token an `Authorization` header carries: exactly `Bearer ` then the token, trimmed (the
/// header is one this daemon wrote, so nothing looser is accepted).
pub open spec fn bearer_of(header: Seq<char>) -> Option<Seq<char>> {
    if header.len() >= 7 && header.take(7) == bearer_prefix() {
        Some(trimmed(header.skip(7)))
    } else {
        None
    }
}

/// Reads the token of an `Authorization` header (`None`: no header, or not a bearer one).
pub fn bearer_token(authorization: Option<&str>) -> (r: Option<String>)
    ensures
        match authorization {
            None => r is None,
            Some(h) => match bearer_of(h@) {
                None => r is None,
                Some(t) => r matches Some(s) && s@ == t,
            },
        },
{
    match authorization {
        None => None,
        Some(h) => {
            proof {
                reveal_strlit("Bearer ");
            }
            let chars = chars_of(h);
            let prefix = chars_of("Bearer ");
            if chars.len() < 7 {
                return None;
            }
            for i in 0..7
                invariant
                    prefix@ == bearer_prefix(),
                    prefix@.len() == 7,
                    authorization == Some(h),
                    chars@ == h@,
                    chars@.len() >= 7,
                    forall|j: int| 0 <= j < i ==> chars@[j] == prefix@[j],
            {
                if chars[i] != prefix[i] {
                    assert(h@.take(7)[i as int] != bearer_prefix()[i as int]);
                    return None;
                }
            }
            assert(h@.take(7) =~= bearer_prefix());
            let mut rest: Vec<char> = Vec::new();
            for i in 7..chars.len()
                invariant
                    chars@ == h@,
                    chars@.len() >= 7,
                    rest@ == chars@.subrange(7, i as int),
            {
                rest.push(chars[i]);
                assert(chars@.subrange(7, i + 1) =~= chars@.subrange(7, i as int).push(chars@[i as int]));
            }
            assert(rest@ =~= h@.skip(7));
            let raw = string_of(&rest);
            Some(trim_text(raw.as_str()))
        },
    }
}

/// What the check decides once the credential is known (`binding`: its identity and whether it
/// may use mail, `None` when the registry does not know the token). In order: an unknown
/// credential is unauthorised; a mail path is refused to a credential without mail; a malformed
/// session header is a bad request, and so is a session operation (GET or DELETE) that carries
/// no session. Otherwise the identity goes on, with the session to check, if any.
pub open spec fn credential_verdict(
    binding: Option<(BoundIdentity, bool)>,
    path: Seq<char>,
    method: HttpMethod,
    session: SessionHeader,
) -> Result<(BoundIdentity, Option<Seq<char>>), AuthReject> {
    match binding {
        None => Err(AuthReject::Unauthorized),
        Some((identity, mail_allowed)) => if !mail_allowed && gated(path) {
            Err(AuthReject::MailNotAllowed)
        } else {
            match session {
                SessionHeader::Malformed => Err(AuthReject::BadRequest),
                SessionHeader::Absent => if method == HttpMethod::Get || method == HttpMethod::Delete {
                    Err(AuthReject::BadRequest)
                } else {
                    Ok((identity, None))
                },
                SessionHeader::Present(s) => Ok((identity, Some(s@))),
            }
        },
    }
}

/// Mail is refused only to a credential without it: a known credential that may use mail is
/// never answered `MailNotAllowed`, whatever the path, and a plain POST with it is admitted on
/// every path, mail routes included, with no session to check.
pub proof fn lemma_a_mail_credential_passes_the_mail_gate(
    identity: BoundIdentity,
    path: Seq<char>,
    method: HttpMethod,
    session: SessionHeader,
)
    ensures
        credential_verdict(Some((identity, true)), path, method, session) != Err::<(BoundIdentity, Option<Seq<char>>), AuthReject>(AuthReject::MailNotAllowed),
        credential_verdict(Some((identity, true)), path, HttpMethod::Post, SessionHeader::Absent)
            == Ok::<(BoundIdentity, Option<Seq<char>>), AuthReject>((identity, None)),
        credential_verdict(Some((identity, false)), path, method, session) == Err::<(BoundIdentity, Option<Seq<char>>), AuthReject>(AuthReject::MailNotAllowed)
            <==> gated(path),
{
}

pub fn admit_credential(
    binding: Option<(BoundIdentity, bool)>,
    path: &str,
    method: HttpMethod,
    session: SessionHeader,
) -> (r: Result<(BoundIdentity, Option<String>), AuthReject>)
    ensures
        match credential_verdict(binding, path@, method, session) {
            Err(e) => r == Err::<(BoundIdentity, Option<String>), AuthReject>(e),
            Ok((identity, s)) => r matches Ok((i, rs)) && i == identity && rs.deep_view() == s,
        },
{
    match binding {
        None => Err(AuthReject::Unauthorized),
        Some((identity, mail_allowed)) => {
            if !mail_allowed && mail_gated_path(path) {
                return Err(AuthReject::MailNotAllowed);
            }
            match session {
                SessionHeader::Malformed => Err(AuthReject::BadRequest),
                SessionHeader::Absent => {
                    if method == HttpMethod::Get || method == HttpMethod::Delete {
                        Err(AuthReject::BadRequest)
                    } else {
                        Ok((identity, None))
                    }
                },
                SessionHeader::Present(s) => Ok((identity, Some(s))),
            }
        },
    }
}

/// The session check: a session bound to this identity passes, one bound to another is
/// forbidden, one bound to nobody is not found (an orphaned session stays unreachable). A
/// passing DELETE unbinds the session before the service closes it (`Ok(true)`).
pub fn check_session_binding(bound: Option<BoundIdentity>, identity: BoundIdentity, method: HttpMethod) -> (r: Result<bool, AuthReject>)
    ensures
        r == (match bound {
            None => Err(AuthReject::NotFound),
            Some(b) => if b == identity {
                Ok(method == HttpMethod::Delete)
            } else {
                Err(AuthReject::Forbidden)
            },
        }),
{
    match bound {
        None => Err(AuthReject::NotFound),
        Some(b) => {
            if b == identity {
                Ok(method == HttpMethod::Delete)
            } else {
                Err(AuthReject::Forbidden)
            }
        },
    }
}

// ---------------------------------------------------------------------------------------------
// Tool arguments and the two entrances.
// ---------------------------------------------------------------------------------------------

/// The ping tool takes no arguments.
#[derive(Debug)]
pub struct PingArgs {}

pub open spec fn pong_text(identity: BoundIdentity) -> Seq<char> {
    "pong agent="@ + uuid_text(identity.agent_id) + " epoch="@ + decimal(identity.epoch as nat)
}

/// The ping tool's answer: the identity the request is bound to.
pub fn pong(identity: BoundIdentity) -> (s: String)
    ensures
        s@ == pong_text(identity),
{
    let mut s = "pong agent=".to_owned();
    push_text(&mut s, format_uuid(identity.agent_id).as_str());
    push_text(&mut s, " epoch=");
    push_text(&mut s, decimal_text(identity.epoch as u64).as_str());
    s
}

/// Recipients: one entry or a list. An entry is a name, an agent id or an `@` address.
#[derive(Debug, Clone)]
pub enum ToField {
    One(String),
    Many(Vec<String>),
}

pub open spec fn to_entries(to: ToField) -> Seq<Seq<char>> {
    match to {
        ToField::One(s) => seq![s@],
        ToField::Many(v) => v.deep_view(),
    }
}

impl ToField {
    /// The entries as given: a list entry is never split (the list already delimits them).
    pub fn into_tokens(self) -> (v: Vec<String>)
        ensures
            v.deep_view() == to_entries(self),
    {
        match self {
            ToField::One(s) => {
                let mut v: Vec<String> = Vec::new();
                v.push(s);
                assert(v.deep_view() =~= seq![s@]);
                v
            },
            ToField::Many(v) => v,
        }
    }
}

/// The pieces of a text between commas, in order (`"a,,b"` gives `a`, ``, `b`).
pub open spec fn comma_pieces(t: Seq<char>) -> Seq<Seq<char>>
    decreases t.len(),
{
    if t.len() == 0 {
        seq![Seq::empty()]
    } else {
        let rest = comma_pieces(t.drop_last());
        if t.last() == ',' {
            rest.push(Seq::empty())
        } else {
            rest.update(rest.len() - 1, rest.last().push(t.last()))
        }
    }
}

proof fn lemma_comma_pieces_nonempty(t: Seq<char>)
    ensures
        comma_pieces(t).len() >= 1,
    decreases t.len(),
{
    if t.len() > 0 {
        lemma_comma_pieces_nonempty(t.drop_last());
    }
}

/// Every entry's comma pieces, entry by entry.
pub open spec fn all_pieces(entries: Seq<Seq<char>>) -> Seq<Seq<char>>
    decreases entries.len(),
{
    if entries.len() == 0 {
        Seq::empty()
    } else {
        all_pieces(entries.drop_last()) + comma_pieces(entries.last())
    }
}

fn split_commas(t: &str) -> (v: Vec<String>)
    ensures
        v.deep_view() == comma_pieces(t@),
{
    let chars = chars_of(t);
    let mut done: Vec<String> = Vec::new();
    let mut cur: Vec<char> = Vec::new();
    for i in 0..chars.len()
        invariant
            chars@ == t@,
            done.deep_view().push(cur@) == comma_pieces(chars@.take(i as int)),
    {
        proof {
            assert(chars@.take(i + 1).drop_last() =~= chars@.take(i as int));
            lemma_comma_pieces_nonempty(chars@.take(i as int));
        }
        let c = chars[i];
        if c == ',' {
            let piece = string_of(&cur);
            done.push(piece);
            cur = Vec::new();
            proof {
                assert(done.deep_view().push(cur@) =~= comma_pieces(chars@.take(i as int)).push(Seq::empty()));
            }
        } else {
            let ghost before = cur@;
            cur.push(c);
            proof {
                let rest = comma_pieces(chars@.take(i as int));
                assert(done.deep_view().push(cur@) =~= rest.update(rest.len() - 1, rest.last().push(c)));
            }
        }
    }
    let last = string_of(&cur);
    done.push(last);
    assert(chars@.take(chars@.len() as int) =~= chars@);
    assert(done.deep_view() =~= comma_pieces(t@));
    done
}

/// The CLI entrance's recipients: a shell can only write a list with commas, so every entry is
/// split at commas here (and only here).
pub fn cli_recipient_tokens(to: ToField) -> (v: Vec<String>)
    ensures
        v.deep_view() == all_pieces(to_entries(to)),
{
    let ghost entries = to_entries(to);
    let tokens = to.into_tokens();
    let mut out: Vec<String> = Vec::new();
    for i in 0..tokens.len()
        invariant
            tokens.deep_view() == entries,
            out.deep_view() == all_pieces(entries.take(i as int)),
    {
        let pieces = split_commas(tokens[i].as_str());
        let ghost before = out.deep_view();
        for j in 0..pieces.len()
            invariant
                out.deep_view() == before + pieces.deep_view().take(j as int),
        {
            let ghost prev = out.deep_view();
            let piece = pieces[j].clone();
            out.push(piece);
            assert(out@ == out@.drop_last().push(piece));
            assert(out.deep_view() =~= prev.push(pieces[j as int]@));
            assert(pieces.deep_view().take(j + 1) =~= pieces.deep_view().take(j as int).push(pieces[j as int]@));
            assert(out.deep_view() =~= before + pieces.deep_view().take(j + 1));
        }
        proof {
            assert(entries.take(i + 1).drop_last() =~= entries.take(i as int));
            assert(pieces.deep_view().take(pieces.len() as int) =~= pieces.deep_view());
        }
    }
    assert(entries.take(tokens.len() as int) =~= entries);
    out
}

/// The send tool's arguments (the sender is the bound identity; there is no `from`).
#[derive(Debug)]
pub struct SendArgs {
    pub to: ToField,
    pub body: String,
    pub request: Option<bool>,
    pub reply_by: Option<String>,
    pub reply_to: Option<String>,
}

/// The query tool's arguments: a message id, or nothing for the caller's own open items.
#[derive(Debug)]
pub struct MessagesArgs {
    pub id: Option<String>,
}

/// Which entrance a send came through.
#[derive(Debug, Clone, Copy, PartialEq, Eq, Structural)]
pub enum Entrance {
    Mcp,
    Cli,
}

/// Turns an entrance's arguments into the one send command both entrances share: recipients
/// tokenised by that entrance's rule, `request` absent meaning a plain notice.
pub fn send_command(from: BoundIdentity, args: SendArgs, entrance: Entrance) -> (c: ControlCommand)
    ensures
        c.from == from,
        c.to.deep_view() == (match entrance {
            Entrance::Mcp => to_entries(args.to),
            Entrance::Cli => all_pieces(to_entries(args.to)),
        }),
        c.body@ == args.body@,
        c.contract.request == (args.request == Some(true)),
        c.contract.reply_by.deep_view() == args.reply_by.deep_view(),
        c.contract.reply_to.deep_view() == args.reply_to.deep_view(),
{
    let to = match entrance {
        Entrance::Mcp => args.to.into_tokens(),
        Entrance::Cli => cli_recipient_tokens(args.to),
    };
    let request = match args.request {
        Some(b) => b,
        None => false,
    };
    ControlCommand {
        from,
        to,
        body: args.body,
        contract: SendContract { request, reply_by: args.reply_by, reply_to: args.reply_to },
    }
}

// ---------------------------------------------------------------------------------------------
// The late slot for the roster broadcast.
// ---------------------------------------------------------------------------------------------

/// A slot filled once, after the server starts (the broadcast is assembled later than the
/// server). An empty slot is normal in assemblies without viewers.
pub struct RosterBroadcastSlot<B> {
    inner: Option<B>,
}

impl<B> RosterBroadcastSlot<B> {
    pub closed spec fn content(&self) -> Option<B> {
        self.inner
    }

    pub fn new() -> (s: RosterBroadcastSlot<B>)
        ensures
            s.content() is None,
    {
        RosterBroadcastSlot { inner: None }
    }

    /// Fills the slot; the first value to land stays, later ones are dropped.
    pub fn set(&mut self, broadcast: B)
        ensures
            final(self).content() == (match old(self).content() {
                Some(b) => Some(b),
                None => Some(broadcast),
            }),
    {
        if self.inner.is_none() {
            self.inner = Some(broadcast);
        }
    }

    /// What the slot holds now — read at each call, not when a user is built.
    pub fn get(&self) -> (r: Option<&B>)
        ensures
            match self.content() {
                Some(b) => r == Some(&b),
                None => r is None,
            },
    {
        match &self.inner {
            Some(b) => Some(b),
            None => None,
        }
    }
}

} // verus!
