//! The agent-verb route: a CLI verb names the command `agent.<verb>`, and every refusal carries
//! one runnable command that says what to do next.

use vstd::prelude::*;
use vstd::utf8::encode_utf8;

use crate::error::{code_text, default_retry, CommandError, ErrorCode};
use crate::ingress::ControlQueryResult;
use crate::text::{chars_of, concat3, decimal, decimal_text, push_text, string_of};

verus! {

/// Tells every attached client that the agent roster changed. Must not block: the fan-out only
/// queues frames.
pub trait RosterBroadcast {
    fn roster_changed(&self);
}

/// The CLI program's name.
pub const CLI_EXE_NAME: &'static str = "engram";

/// The CLI group (and command namespace) of the agent verbs.
pub const CLI_GROUP_AGENT: &'static str = "agent";

/// The roster verb a recovery hint suggests; it must be a verb the group has.
pub const AGENT_LIST_VERB: &'static str = "list";

/// The command a verb names: `agent.<verb>` (the CLI and the catalog differ by that one dot).
pub open spec fn command_name_of(verb: Seq<char>) -> Seq<char> {
    CLI_GROUP_AGENT@ + "."@ + verb
}

pub fn agent_command_name(verb: &str) -> (n: String)
    ensures
        n@ == command_name_of(verb@),
{
    concat3(CLI_GROUP_AGENT, ".", verb)
}

pub open spec fn help_hint() -> Seq<char> {
    "run `"@ + CLI_EXE_NAME@ + " help "@ + CLI_GROUP_AGENT@ + "` for this group's verbs and fields"@
}

pub open spec fn roster_hint() -> Seq<char> {
    "run `"@ + CLI_EXE_NAME@ + " "@ + CLI_GROUP_AGENT@ + " "@ + AGENT_LIST_VERB@ + "` to see the roster"@
}

pub open spec fn exists_hint() -> Seq<char> {
    "run `"@ + CLI_EXE_NAME@ + " "@ + CLI_GROUP_AGENT@ + " "@ + AGENT_LIST_VERB@ + "` to see what actually exists now"@
}

/// The next step each code calls for: the group's help for an argument or verb fault, the
/// roster for a target fault (absent, ambiguous, over a limit), and a look at what exists now
/// for everything else (nothing to fix in the arguments).
pub open spec fn recovery_text(code: ErrorCode) -> Seq<char> {
    match code {
        ErrorCode::InvalidArgument | ErrorCode::UnknownCommand => help_hint(),
        ErrorCode::NotFound | ErrorCode::Conflict => roster_hint(),
        _ => exists_hint(),
    }
}

pub fn recovery_for(code: ErrorCode) -> (s: String)
    ensures
        s@ == recovery_text(code),
{
    let mut s = "run `".to_owned();
    push_text(&mut s, CLI_EXE_NAME);
    match code {
        ErrorCode::InvalidArgument | ErrorCode::UnknownCommand => {
            push_text(&mut s, " help ");
            push_text(&mut s, CLI_GROUP_AGENT);
            push_text(&mut s, "` for this group's verbs and fields");
        },
        ErrorCode::NotFound | ErrorCode::Conflict => {
            push_text(&mut s, " ");
            push_text(&mut s, CLI_GROUP_AGENT);
            push_text(&mut s, " ");
            push_text(&mut s, AGENT_LIST_VERB);
            push_text(&mut s, "` to see the roster");
        },
        _ => {
            push_text(&mut s, " ");
            push_text(&mut s, CLI_GROUP_AGENT);
            push_text(&mut s, " ");
            push_text(&mut s, AGENT_LIST_VERB);
            push_text(&mut s, "` to see what actually exists now");
        },
    }
    s
}

/// A table failure as this route answers it: the typed code as it is, the message, then the
/// next step.
pub open spec fn refusal_hint(message: Seq<char>, code: ErrorCode) -> Seq<char> {
    message + " \u{2014} "@ + recovery_text(code) + "."@
}

pub fn refused(e: CommandError) -> (r: ControlQueryResult)
    ensures
        r.refusal() == Some((code_text(e.code), refusal_hint(e.message@, e.code))),
{
    let mut hint = e.message;
    push_text(&mut hint, " \u{2014} ");
    push_text(&mut hint, recovery_for(e.code).as_str());
    push_text(&mut hint, ".");
    ControlQueryResult::Error { code: e.code.as_str(), hint }
}

pub open spec fn unknown_verb_hint(verb: Seq<char>) -> Seq<char> {
    "unknown verb '"@ + verb + "' \u{2014} "@ + recovery_text(ErrorCode::UnknownCommand) + "."@
}

/// The refusal for a verb the table does not hold; it names the verb and points at the help.
pub fn unknown_verb(verb: &str) -> (r: ControlQueryResult)
    ensures
        r.refusal() == Some((code_text(ErrorCode::UnknownCommand), unknown_verb_hint(verb@))),
{
    let mut hint = concat3("unknown verb '", verb, "' \u{2014} ");
    push_text(&mut hint, recovery_for(ErrorCode::UnknownCommand).as_str());
    push_text(&mut hint, ".");
    ControlQueryResult::Error { code: ErrorCode::UnknownCommand.as_str(), hint }
}

/// How many characters one quoted piece of a hint may take.
pub const PREVIEW_CHARS: usize = 80;

/// The number of bytes a text takes (`str::len`).
pub open spec fn byte_count(t: Seq<char>) -> nat {
    (encode_utf8(t).len() as usize) as nat
}

/// A caller's text cut down to one piece of a hint: the first `PREVIEW_CHARS` characters, and
/// when that is not all of it, a note that it was cut and how many bytes it had.
pub open spec fn previewed(t: Seq<char>) -> Seq<char> {
    if t.len() > PREVIEW_CHARS {
        t.take(PREVIEW_CHARS as int) + "\u{2026}(truncated, "@ + decimal(byte_count(t)) + " bytes)"@
    } else {
        t
    }
}

fn take_chars(chars: &Vec<char>, from: usize, to: usize) -> (s: String)
    requires
        from <= to <= chars@.len(),
    ensures
        s@ == chars@.subrange(from as int, to as int),
{
    let mut v: Vec<char> = Vec::new();
    for i in from..to
        invariant
            to <= chars@.len(),
            v@ == chars@.subrange(from as int, i as int),
    {
        v.push(chars[i]);
        assert(chars@.subrange(from as int, i + 1) =~= chars@.subrange(from as int, i as int).push(chars@[i as int]));
    }
    string_of(&v)
}

pub fn preview(text: &str) -> (s: String)
    ensures
        s@ == previewed(text@),
{
    let chars = chars_of(text);
    if chars.len() <= PREVIEW_CHARS {
        return text.to_owned();
    }
    let mut head = take_chars(&chars, 0, PREVIEW_CHARS);
    push_text(&mut head, "\u{2026}(truncated, ");
    let n = text.len();
    push_text(&mut head, decimal_text(n as u64).as_str());
    push_text(&mut head, " bytes)");
    assert(chars@.subrange(0, PREVIEW_CHARS as int) =~= text@.take(PREVIEW_CHARS as int));
    head
}

/// A text cut down to `budget` characters keeping both ends: the head says what was wrong and
/// the tail says what to do next, so the cut goes in the middle and says so.
pub open spec fn previewed_within(t: Seq<char>, budget: nat) -> Seq<char> {
    if t.len() > budget {
        t.take((budget / 2) as int) + "\u{2026}(truncated, "@ + decimal(byte_count(t)) + " bytes)\u{2026}"@
            + t.skip(t.len() - budget / 2)
    } else {
        t
    }
}

pub fn preview_within(text: &str, budget: usize) -> (s: String)
    ensures
        s@ == previewed_within(text@, budget as nat),
{
    let chars = chars_of(text);
    if chars.len() <= budget {
        return text.to_owned();
    }
    let half = budget / 2;
    let mut out = take_chars(&chars, 0, half);
    push_text(&mut out, "\u{2026}(truncated, ");
    let n = text.len();
    push_text(&mut out, decimal_text(n as u64).as_str());
    push_text(&mut out, " bytes)\u{2026}");
    let tail = take_chars(&chars, chars.len() - half, chars.len());
    push_text(&mut out, tail.as_str());
    assert(chars@.subrange(0, half as int) =~= text@.take(half as int));
    assert(chars@.subrange(chars@.len() - half, chars@.len() as int) =~= text@.skip(text@.len() - half));
    out
}

/// The refusal for a repeated top-level key in a request body: no value is picked.
pub open spec fn duplicate_field_text(key: Seq<char>) -> Seq<char> {
    "duplicate field `"@ + previewed(key) + "`"@
}

pub fn duplicate_field(key: &str) -> (s: String)
    ensures
        s@ == duplicate_field_text(key@),
{
    concat3("duplicate field `", preview(key).as_str(), "`")
}

pub open spec fn malformed_agent_body_hint(reason: Seq<char>, raw: Seq<char>) -> Seq<char> {
    "the request body is not a valid "@ + CLI_GROUP_AGENT@ + " command object: "@ + reason
        + " \u{2014} it must be a JSON object like {\"verb\":\"list\"}; got: "@ + previewed(raw) + " \u{2014} "@
        + recovery_text(ErrorCode::InvalidArgument) + "."@
}

/// The refusal for a body that is not a command object: the parser's reason as it is, the body
/// cut down, the expected shape, and the help.
pub fn malformed_body(reason: &str, raw: &str) -> (r: ControlQueryResult)
    ensures
        r.refusal() == Some((code_text(ErrorCode::InvalidArgument), malformed_agent_body_hint(reason@, raw@))),
{
    let mut hint = "the request body is not a valid ".to_owned();
    push_text(&mut hint, CLI_GROUP_AGENT);
    push_text(&mut hint, " command object: ");
    push_text(&mut hint, reason);
    push_text(&mut hint, " \u{2014} it must be a JSON object like {\"verb\":\"list\"}; got: ");
    push_text(&mut hint, preview(raw).as_str());
    push_text(&mut hint, " \u{2014} ");
    push_text(&mut hint, recovery_for(ErrorCode::InvalidArgument).as_str());
    push_text(&mut hint, ".");
    ControlQueryResult::Error { code: ErrorCode::InvalidArgument.as_str(), hint }
}

pub open spec fn first_poll_text(name: Seq<char>) -> Seq<char> {
    "'"@ + name + "' did not finish on its first poll \u{2014} this entrance only drives blocking handlers, so part of it may already have been applied"@
}

/// The failure for a command that did not finish on its first poll: this route drives blocking
/// handlers only, and part of it may have run, so the outcome is unknown (not a sure failure).
pub fn unfinished_on_first_poll(name: &str) -> (e: CommandError)
    ensures
        e.code == ErrorCode::OutcomeUnknown,
        e.message@ == first_poll_text(name@),
        e.retry == default_retry(ErrorCode::OutcomeUnknown),
        e.received is None,
{
    CommandError::of(
        ErrorCode::OutcomeUnknown,
        concat3("'", name, "' did not finish on its first poll \u{2014} this entrance only drives blocking handlers, so part of it may already have been applied"),
    )
}

} // verus!
