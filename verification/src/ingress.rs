//! The send pipeline shared by both control entrances (the MCP `send_message` tool and the
//! `/control/send` route): argument checks, the reply contract, and the wording of every
//! send-level refusal. Whichever entrance a send came through, the same code decides it.

use vstd::prelude::*;

use crate::ids::{format_uuid, uuid_text, AgentId};
use crate::text::{
    chars_of, concat3, decimal, digit_char, string_of, decimal_text, lemma_utf8_len_at_least_chars, longer_than_bytes, trim_text,
    trimmed, utf8_len,
};

verus! {

/// The identity a control request acts as — derived from the session or token, never from the
/// payload.
#[derive(Clone, Copy, Debug, PartialEq, Eq, Structural)]
pub struct BoundIdentity {
    pub agent_id: AgentId,
    pub epoch: u32,
}

// ---------------------------------------------------------------------------------------------
// `reply_by`: the deadline notation of a request.
// ---------------------------------------------------------------------------------------------

/// Shortest accepted deadline: deadlines are checked once a minute, so a shorter one could not
/// be honoured.
pub const MIN_REPLY_BY_SECS: u64 = 60;

/// Longest accepted deadline: thirty days. The ledger adds the deadline to an instant, which
/// would overflow for absurd values.
pub const MAX_REPLY_BY_SECS: u64 = 2_592_000;

/// Why a `reply_by` text was refused, in the order the checks run.
#[derive(Clone, Copy, Debug, PartialEq, Eq, Structural)]
pub enum ReplyByFault {
    /// Fewer than two bytes: no room for a number and a unit.
    NotADuration,
    /// The last character is not `s`, `m` or `h`.
    UnknownUnit,
    /// Something other than ASCII digits precedes the unit.
    NotPlainInteger,
    /// The number, or the number of seconds, does not fit in 64 bits.
    OutOfRange,
    /// The number is zero.
    Zero,
    /// Less than a minute.
    BelowMinimum,
    /// More than thirty days.
    AboveMaximum,
}

pub open spec fn is_ascii_digit(c: char) -> bool {
    48 <= (c as u32) && (c as u32) <= 57
}

pub open spec fn is_unit(c: char) -> bool {
    c == 's' || c == 'm' || c == 'h'
}

pub open spec fn unit_seconds(c: char) -> nat {
    if c == 's' {
        1
    } else if c == 'm' {
        60
    } else {
        3600
    }
}

/// The value of a run of decimal digits.
pub open spec fn digits_value(t: Seq<char>) -> nat
    decreases t.len(),
{
    if t.len() == 0 {
        0
    } else {
        digits_value(t.drop_last()) * 10 + ((t.last() as u32) - 48) as nat
    }
}

/// What a `reply_by` text means: the deadline in seconds, or the first rule it breaks.
///
/// The form is a plain decimal integer followed by one unit (`s`, `m` or `h`), worth at least a
/// minute and at most thirty days — `10m`, `1h`, `120s`. Nothing is guessed: `10`, `10 m`,
/// `10M`, `-5m`, `1.5h` and `0m` are all refused.
pub open spec fn reply_by_verdict(t: Seq<char>) -> Result<nat, ReplyByFault> {
    if utf8_len(t) < 2 {
        Err(ReplyByFault::NotADuration)
    } else if !is_unit(t.last()) {
        Err(ReplyByFault::UnknownUnit)
    } else if !(forall|i: int| 0 <= i < t.len() - 1 ==> is_ascii_digit(#[trigger] t[i])) {
        Err(ReplyByFault::NotPlainInteger)
    } else {
        let n = digits_value(t.drop_last());
        let secs = n * unit_seconds(t.last());
        if n > u64::MAX {
            Err(ReplyByFault::OutOfRange)
        } else if n == 0 {
            Err(ReplyByFault::Zero)
        } else if secs > u64::MAX {
            Err(ReplyByFault::OutOfRange)
        } else if secs < MIN_REPLY_BY_SECS {
            Err(ReplyByFault::BelowMinimum)
        } else if secs > MAX_REPLY_BY_SECS {
            Err(ReplyByFault::AboveMaximum)
        } else {
            Ok(secs)
        }
    }
}

/// The end of each refusal hint, after the quoted text.
pub open spec fn reply_by_tail(f: ReplyByFault) -> Seq<char> {
    match f {
        ReplyByFault::NotADuration => "' is not a duration; use an integer with a unit like 5m, 10m, or 1h (minimum 1 minute)."@,
        ReplyByFault::UnknownUnit => "' has an unknown unit; use s (seconds), m (minutes), or h (hours) \u{2014} e.g. 10m."@,
        ReplyByFault::NotPlainInteger => "' must be a plain integer plus one unit (no spaces or signs) \u{2014} e.g. 5m, 10m, 1h."@,
        ReplyByFault::OutOfRange => "' is out of range; use at most 30d worth (e.g. 24h)."@,
        ReplyByFault::Zero => "' must be greater than zero; drop the flag if you don't want a deadline."@,
        ReplyByFault::BelowMinimum => "' is shorter than the 1-minute minimum; deadlines are checked once a minute, so anything shorter cannot be honoured \u{2014} use 1m or longer (60s is fine)."@,
        ReplyByFault::AboveMaximum => "' exceeds the 30-day maximum; use a shorter deadline (e.g. 24h)."@,
    }
}

/// The hint a refused `reply_by` text is answered with: it quotes the text and names the form.
pub open spec fn reply_by_hint(f: ReplyByFault, t: Seq<char>) -> Seq<char> {
    "reply_by '"@ + t + reply_by_tail(f)
}

fn reply_by_refusal(f: ReplyByFault, s: &str) -> (e: String)
    ensures
        e@ == reply_by_hint(f, s@),
{
    match f {
        ReplyByFault::NotADuration => concat3("reply_by '", s, "' is not a duration; use an integer with a unit like 5m, 10m, or 1h (minimum 1 minute)."),
        ReplyByFault::UnknownUnit => concat3("reply_by '", s, "' has an unknown unit; use s (seconds), m (minutes), or h (hours) \u{2014} e.g. 10m."),
        ReplyByFault::NotPlainInteger => concat3("reply_by '", s, "' must be a plain integer plus one unit (no spaces or signs) \u{2014} e.g. 5m, 10m, 1h."),
        ReplyByFault::OutOfRange => concat3("reply_by '", s, "' is out of range; use at most 30d worth (e.g. 24h)."),
        ReplyByFault::Zero => concat3("reply_by '", s, "' must be greater than zero; drop the flag if you don't want a deadline."),
        ReplyByFault::BelowMinimum => concat3("reply_by '", s, "' is shorter than the 1-minute minimum; deadlines are checked once a minute, so anything shorter cannot be honoured \u{2014} use 1m or longer (60s is fine)."),
        ReplyByFault::AboveMaximum => concat3("reply_by '", s, "' exceeds the 30-day maximum; use a shorter deadline (e.g. 24h)."),
    }
}

proof fn lemma_digits_value_step(t: Seq<char>, i: int)
    requires
        0 <= i < t.len(),
    ensures
        digits_value(t.take(i + 1)) == digits_value(t.take(i)) * 10 + ((t[i] as u32) - 48) as nat,
{
    assert(t.take(i + 1).drop_last() =~= t.take(i));
}

/// Reads a `reply_by` deadline notation into seconds.
///
/// Returns the number of seconds when the text is a valid deadline, and otherwise the hint for
/// the first rule it breaks (see `reply_by_verdict`).
pub fn parse_reply_by(s: &str) -> (r: Result<u64, String>)
    ensures
        (r is Ok) == (reply_by_verdict(s@) is Ok),
        r matches Ok(v) ==> reply_by_verdict(s@) == Ok::<nat, ReplyByFault>(v as nat),
        r matches Err(e) ==> (reply_by_verdict(s@) matches Err(f) && e@ == reply_by_hint(f, s@)),
{
    let chars = chars_of(s);
    let n = chars.len();
    proof {
        lemma_utf8_len_at_least_chars(s@);
        assert(utf8_len(Seq::<char>::empty()) == 0);
        if n == 1 {
            assert(s@.drop_last() =~= Seq::<char>::empty());
        }
    }
    if n == 0 || (n == 1 && (chars[0] as u32) < 0x80) {
        assert(utf8_len(s@) < 2);
        return Err(reply_by_refusal(ReplyByFault::NotADuration, s));
    }
    assert(utf8_len(s@) >= 2);
    let unit = chars[n - 1];
    let unit_secs: u64 = if unit == 's' {
        1
    } else if unit == 'm' {
        60
    } else if unit == 'h' {
        3600
    } else {
        return Err(reply_by_refusal(ReplyByFault::UnknownUnit, s));
    };
    let last = n - 1;
    for i in 0..last
        invariant
            chars@ == s@,
            last == chars@.len() - 1,
            utf8_len(s@) >= 2,
            is_unit(s@.last()),
            forall|j: int| 0 <= j < i ==> is_ascii_digit(#[trigger] chars@[j]),
    {
        let u = chars[i] as u32;
        if u < 48 || u > 57 {
            assert(!is_ascii_digit(s@[i as int]));
            return Err(reply_by_refusal(ReplyByFault::NotPlainInteger, s));
        }
    }
    let mut value: u64 = 0;
    let mut overflow = false;
    assert(chars@.take(0) =~= Seq::<char>::empty());
    for i in 0..last
        invariant
            chars@ == s@,
            last == chars@.len() - 1,
            forall|j: int| 0 <= j < last ==> is_ascii_digit(#[trigger] chars@[j]),
            !overflow ==> value == digits_value(chars@.take(i as int)),
            overflow ==> digits_value(chars@.take(i as int)) > u64::MAX,
    {
        proof {
            lemma_digits_value_step(chars@, i as int);
        }
        let d = (chars[i] as u32 - 48) as u64;
        if !overflow {
            match value.checked_mul(10) {
                Some(m) => match m.checked_add(d) {
                    Some(v) => {
                        value = v;
                    },
                    None => {
                        overflow = true;
                    },
                },
                None => {
                    overflow = true;
                },
            }
        }
    }
    assert(chars@.take(last as int) =~= s@.drop_last());
    if overflow {
        return Err(reply_by_refusal(ReplyByFault::OutOfRange, s));
    }
    if value == 0 {
        return Err(reply_by_refusal(ReplyByFault::Zero, s));
    }
    match value.checked_mul(unit_secs) {
        None => Err(reply_by_refusal(ReplyByFault::OutOfRange, s)),
        Some(secs) => {
            if secs < MIN_REPLY_BY_SECS {
                Err(reply_by_refusal(ReplyByFault::BelowMinimum, s))
            } else if secs > MAX_REPLY_BY_SECS {
                Err(reply_by_refusal(ReplyByFault::AboveMaximum, s))
            } else {
                Ok(secs)
            }
        },
    }
}

/// A deadline that is accepted lies between one minute and thirty days: the sweep that reports
/// missed deadlines runs once a minute, and the ledger adds the deadline to an instant.
pub proof fn lemma_an_accepted_deadline_is_honourable(t: Seq<char>)
    ensures
        reply_by_verdict(t) matches Ok(secs) ==> MIN_REPLY_BY_SECS <= secs <= MAX_REPLY_BY_SECS,
{
}

/// A zero, a signed or spaced number, and a lone number without a unit are never read as a
/// deadline: only digits followed by exactly one of `s`, `m`, `h` are.
pub proof fn lemma_only_digits_and_a_unit_are_read(t: Seq<char>)
    ensures
        reply_by_verdict(t) is Ok ==> t.len() >= 2 && is_unit(t.last())
            && forall|i: int| 0 <= i < t.len() - 1 ==> is_ascii_digit(#[trigger] t[i]),
{
    if reply_by_verdict(t) is Ok {
        if t.len() < 2 {
            lemma_utf8_len_at_least_chars(t);
            if t.len() == 1 {
                assert(t.drop_last() =~= Seq::<char>::empty());
                assert(utf8_len(Seq::<char>::empty()) == 0);
                assert(is_unit(t.last()));
            }
        }
    }
}

/// The decimal text of a number reads back as that number: its characters are ASCII digits and
/// their value is the number.
proof fn lemma_decimal_reads_back(n: nat)
    ensures
        forall|i: int| 0 <= i < decimal(n).len() ==> is_ascii_digit(#[trigger] decimal(n)[i]),
        digits_value(decimal(n)) == n,
        decimal(n).len() >= 1,
    decreases n,
{
    if n < 10 {
        let t = decimal(n);
        assert(t.drop_last() =~= Seq::<char>::empty());
        assert((digit_char(n) as u32) == 48 + n);
        assert(t.last() == digit_char(n));
        assert(digits_value(t) == digits_value(t.drop_last()) * 10 + ((t.last() as u32) - 48) as nat);
    } else {
        lemma_decimal_reads_back(n / 10);
        let d = (n % 10) as nat;
        assert((digit_char(d) as u32) == 48 + d);
        assert(decimal(n).drop_last() =~= decimal(n / 10));
        assert(decimal(n).last() == digit_char(d));
        assert(forall|i: int| 0 <= i < decimal(n / 10).len() ==> decimal(n)[i] == decimal(n / 10)[i]);
        assert((n / 10) * 10 + d == n) by (nonlinear_arith)
            requires d == n % 10;
        assert(digits_value(decimal(n)) == digits_value(decimal(n).drop_last()) * 10 + ((decimal(n).last() as u32) - 48) as nat);
    }
}

/// Every deadline in range is accepted at its value: a positive number written in decimal,
/// followed by `s`, `m` or `h`, and worth between a minute and thirty days, reads as that many
/// seconds; the same form worth more than thirty days is refused as above the maximum, and
/// nothing else in this form is.
pub proof fn lemma_every_deadline_in_range_is_accepted(n: nat, unit: char)
    requires
        n > 0,
        is_unit(unit),
        n * unit_seconds(unit) <= u64::MAX,
    ensures
        MIN_REPLY_BY_SECS <= n * unit_seconds(unit) <= MAX_REPLY_BY_SECS
            ==> reply_by_verdict(decimal(n).push(unit)) == Ok::<nat, ReplyByFault>(n * unit_seconds(unit)),
        (reply_by_verdict(decimal(n).push(unit)) == Err::<nat, ReplyByFault>(ReplyByFault::AboveMaximum))
            <==> n * unit_seconds(unit) > MAX_REPLY_BY_SECS,
{
    let t = decimal(n).push(unit);
    lemma_decimal_reads_back(n);
    lemma_utf8_len_at_least_chars(t);
    assert(t.drop_last() =~= decimal(n));
    assert(t.last() == unit);
    assert(forall|i: int| 0 <= i < t.len() - 1 ==> t[i] == decimal(n)[i]);
    assert(unit_seconds(unit) >= 1);
    assert(n <= n * unit_seconds(unit)) by (nonlinear_arith)
        requires unit_seconds(unit) >= 1;
}

// ---------------------------------------------------------------------------------------------
// The reply contract of a send.
// ---------------------------------------------------------------------------------------------

/// The reply-contract arguments of a send, carried raw from the entrance; only
/// `validate_contract` reads them. The default is a plain notice.
#[derive(Debug, Clone, PartialEq, Eq)]
pub struct SendContract {
    /// Ask for a reply: opens an unanswered entry per recipient.
    pub request: bool,
    /// The deadline of the reply, in `reply_by` notation; only with `request`.
    pub reply_by: Option<String>,
    /// The id of the request this message answers; excludes `request`.
    pub reply_to: Option<String>,
}

impl Default for SendContract {
    fn default() -> (c: SendContract)
        ensures
            !c.request,
            c.reply_by is None,
            c.reply_to is None,
    {
        SendContract { request: false, reply_by: None, reply_to: None }
    }
}

/// A checked reply contract, as the messaging service takes it.
#[derive(Debug, Clone, PartialEq, Eq)]
pub struct SendMeta {
    pub request: bool,
    /// The deadline as the sender wrote it.
    pub reply_by_raw: Option<String>,
    /// The deadline in seconds.
    pub reply_by: Option<u64>,
    /// The id answered, without surrounding whitespace.
    pub reply_to: Option<String>,
}

impl Default for SendMeta {
    fn default() -> (m: SendMeta)
        ensures
            !m.request,
            m.reply_by_raw is None,
            m.reply_by is None,
            m.reply_to is None,
    {
        SendMeta { request: false, reply_by_raw: None, reply_by: None, reply_to: None }
    }
}

pub const EXCLUSIVE_CONTRACT_HINT: &'static str = "request and reply_to are mutually exclusive: a message is either a new request or a reply to one. Send two messages if you need both.";

pub const REPLY_BY_ALONE_HINT: &'static str = "reply_by is only meaningful with request=true (it is the deadline of the reply contract you are opening). Add request, or drop reply_by.";

pub const EMPTY_REPLY_TO_HINT: &'static str = "reply_to must be the id of the request you are answering (e.g. m-7f3k9q2d); it cannot be empty.";

/// The first rule a reply contract breaks, as the hint it is refused with; `None` when it holds.
///
/// In order: `request` and `reply_to` exclude each other; `reply_by` needs `request`; `reply_by`
/// must read as a deadline; `reply_to` must not be blank.
pub open spec fn contract_fault(request: bool, reply_by: Option<Seq<char>>, reply_to: Option<Seq<char>>) -> Option<Seq<char>> {
    if request && reply_to is Some {
        Some(EXCLUSIVE_CONTRACT_HINT@)
    } else if reply_by is Some && !request {
        Some(REPLY_BY_ALONE_HINT@)
    } else if reply_by matches Some(raw) && reply_by_verdict(raw) is Err {
        Some(reply_by_hint(reply_by_verdict(reply_by->0)->Err_0, reply_by->0))
    } else if reply_to matches Some(raw) && trimmed(raw).len() == 0 {
        Some(EMPTY_REPLY_TO_HINT@)
    } else {
        None
    }
}

impl SendContract {
    pub open spec fn fault(&self) -> Option<Seq<char>> {
        contract_fault(self.request, self.reply_by.deep_view(), self.reply_to.deep_view())
    }
}

fn clone_text(o: &Option<String>) -> (r: Option<String>)
    ensures
        r.deep_view() == o.deep_view(),
{
    match o {
        Some(t) => Some(t.clone()),
        None => None,
    }
}

/// Checks the reply contract of a send; the refusal is the hint of the first rule broken.
pub fn validate_contract(c: &SendContract) -> (r: Result<SendMeta, String>)
    ensures
        (r is Err) == (c.fault() is Some),
        r matches Err(e) ==> Some(e@) == c.fault(),
        r matches Ok(m) ==> {
            &&& m.request == c.request
            &&& m.reply_by_raw.deep_view() == c.reply_by.deep_view()
            &&& (m.reply_by is Some) == (c.reply_by is Some)
            &&& (m.reply_by matches Some(secs) ==> reply_by_verdict(c.reply_by->0@) == Ok::<nat, ReplyByFault>(secs as nat))
            &&& (m.reply_to is Some) == (c.reply_to is Some)
            &&& (m.reply_to matches Some(t) ==> t@ == trimmed(c.reply_to->0@))
        },
{
    if c.request && c.reply_to.is_some() {
        return Err(EXCLUSIVE_CONTRACT_HINT.to_owned());
    }
    if c.reply_by.is_some() && !c.request {
        return Err(REPLY_BY_ALONE_HINT.to_owned());
    }
    let reply_by = match &c.reply_by {
        Some(raw) => match parse_reply_by(raw.as_str()) {
            Ok(secs) => Some(secs),
            Err(e) => {
                return Err(e);
            },
        },
        None => None,
    };
    let reply_to = match &c.reply_to {
        Some(raw) => {
            let t = trim_text(raw.as_str());
            if t.as_str().is_empty() {
                return Err(EMPTY_REPLY_TO_HINT.to_owned());
            }
            Some(t)
        },
        None => None,
    };
    Ok(SendMeta { request: c.request, reply_by_raw: clone_text(&c.reply_by), reply_by, reply_to })
}

/// How a message is wrapped for its recipient.
#[derive(Clone, Copy, Debug, PartialEq, Eq, Structural)]
pub enum EnvelopeFormat {
    /// `sender: body` — carries no attributes.
    Colon,
    /// `<message from=.. id=.. type=.. reply-by=.. in-reply-to=..>` — carries the contract.
    Xml,
}

pub const ENVELOPE_DROPS_CONTRACT_HINT: &'static str = "Reply contracts (request / reply_to) need the XML envelope: the envelope format in effect drops the id / type / reply-by / in-reply-to attributes, so the recipient could never reply and you would get a false timeout notice. Send this as a plain notification instead, or switch the envelope format back to xml.";

/// Whether a contract would be lost on the way: it carries `request` or `reply_to`, and the
/// envelope in effect is not plain XML (the colon form, or a wrap template that takes precedence
/// over the format). A request sent that way could never be answered.
pub open spec fn envelope_drops_contract(request: bool, replies: bool, format: EnvelopeFormat, template_active: bool) -> bool {
    (request || replies) && !(format == EnvelopeFormat::Xml && !template_active)
}

/// Refuses a contract that the envelope in effect cannot carry; `template_active` says whether a
/// non-empty wrap template is set.
pub fn contract_unsupported_by_envelope(meta: &SendMeta, format: EnvelopeFormat, template_active: bool) -> (r: Option<String>)
    ensures
        (r is Some) == envelope_drops_contract(meta.request, meta.reply_to is Some, format, template_active),
        r matches Some(h) ==> h@ == ENVELOPE_DROPS_CONTRACT_HINT@,
{
    if !(meta.request || meta.reply_to.is_some()) {
        return None;
    }
    if format == EnvelopeFormat::Xml && !template_active {
        return None;
    }
    Some(ENVELOPE_DROPS_CONTRACT_HINT.to_owned())
}

// ---------------------------------------------------------------------------------------------
// Recipients.
// ---------------------------------------------------------------------------------------------

/// The recipient list as the send goes out: each entry trimmed, blank entries dropped, nothing
/// else changed (a name is an exact address).
pub open spec fn normalized_recipients(to: Seq<Seq<char>>) -> Seq<Seq<char>>
    decreases to.len(),
{
    if to.len() == 0 {
        Seq::empty()
    } else {
        let rest = normalized_recipients(to.drop_last());
        let t = trimmed(to.last());
        if t.len() == 0 {
            rest
        } else {
            rest.push(t)
        }
    }
}

/// Trims every recipient and drops the blank ones.
pub fn normalize_recipients(to: &Vec<String>) -> (r: Vec<String>)
    ensures
        r.deep_view() == normalized_recipients(to.deep_view()),
{
    let mut r: Vec<String> = Vec::new();
    for i in 0..to.len()
        invariant
            r.deep_view() == normalized_recipients(to.deep_view().take(i as int)),
    {
        let t = trim_text(to[i].as_str());
        assert(to.deep_view().take(i + 1).drop_last() =~= to.deep_view().take(i as int));
        if !t.as_str().is_empty() {
            r.push(t);
            assert(r.deep_view() =~= normalized_recipients(to.deep_view().take(i as int)).push(trimmed(to[i as int]@)));
        }
    }
    assert(to.deep_view().take(to.len() as int) =~= to.deep_view());
    r
}

/// Whether a text starts with the group-address sigil `@`.
pub open spec fn is_group_address(t: Seq<char>) -> bool {
    t.len() > 0 && t[0] == '@'
}

/// A reply goes to exactly one recipient named directly: judged on the notation, so an `@`
/// address is refused even when it would expand to one agent (the answer must not depend on the
/// roster of the moment).
pub open spec fn single_recipient(recipients: Seq<Seq<char>>) -> bool {
    recipients.len() == 1 && !is_group_address(recipients[0])
}

fn starts_with_at(t: &str) -> (r: bool)
    ensures
        r == is_group_address(t@),
{
    let chars = chars_of(t);
    chars.len() > 0 && chars[0] == '@'
}

/// Whether a reply may go to this recipient list (see `single_recipient`).
pub fn reply_to_has_single_recipient(recipients: &[String]) -> (r: bool)
    ensures
        r == single_recipient(recipients@.map_values(|s: String| s@)),
{
    recipients.len() == 1 && !starts_with_at(recipients[0].as_str())
}

// ---------------------------------------------------------------------------------------------
// The send command and its answer.
// ---------------------------------------------------------------------------------------------

/// A send, normalised by its entrance.
#[derive(Debug, Clone)]
pub struct ControlCommand {
    /// The sender, from the session or token.
    pub from: BoundIdentity,
    /// Names, agent ids or `@` addresses; a comma-separated CLI list is already split.
    pub to: Vec<String>,
    pub body: String,
    pub contract: SendContract,
}

/// What happened for one recipient.
#[derive(Debug, Clone)]
pub struct SendResult {
    pub to: String,
    pub status: &'static str,
    pub code: Option<&'static str>,
    pub hint: Option<String>,
}

/// The answer to a send: accepted with one row per recipient, or refused as a whole.
#[derive(Debug, Clone)]
pub enum ControlResult {
    Accepted { id: String, results: Vec<SendResult> },
    Error { code: &'static str, hint: String },
}

impl ControlResult {
    /// A send counts as accepted even when every row failed: only a refusal of the whole send
    /// is a failure of the call.
    pub fn is_accepted(&self) -> (r: bool)
        ensures
            r == (self is Accepted),
    {
        match self {
            ControlResult::Accepted { .. } => true,
            ControlResult::Error { .. } => false,
        }
    }

    /// The code and hint of a refusal.
    pub open spec fn refusal(&self) -> Option<(Seq<char>, Seq<char>)> {
        match self {
            ControlResult::Accepted { .. } => None,
            ControlResult::Error { code, hint } => Some((code@, hint@)),
        }
    }
}

/// Every argument check failure.
pub const INVALID_SEND_ARGS: &'static str = "INVALID_SEND_ARGS";

/// The body is over the byte limit.
pub const BODY_TOO_LARGE: &'static str = "BODY_TOO_LARGE";

/// Most bytes a message body may hold.
pub const MAX_BODY_BYTES: u64 = 65536;

pub const NO_RECIPIENT_HINT: &'static str = "to must name at least one recipient \u{2014} pass an agent name, an agent id, @here (everyone live except you), or @all (every agent in the tree, including ones that are not running, except you). A list is allowed.";

pub const REPLY_TO_ONE_HINT: &'static str = "A reply goes to exactly one recipient \u{2014} the agent that sent the request. Drop the extra recipients (and any @address) and send the reply to that one agent; broadcast any follow-up as a separate message.";

pub open spec fn body_too_large_hint() -> Seq<char> {
    "Message body exceeds the "@ + decimal(MAX_BODY_BYTES as nat) + "-byte limit; shorten it and retry."@
}

/// The first check a send fails, as `(code, hint)`; `None` when it may go to the messaging
/// service. The contract comes first (a pure notation error must not depend on the roster),
/// then the envelope, the recipients, the reply's single recipient, and the body size.
pub open spec fn send_refusal(
    to: Seq<Seq<char>>,
    body: Seq<char>,
    c: SendContract,
    format: EnvelopeFormat,
    template_active: bool,
) -> Option<(Seq<char>, Seq<char>)> {
    if c.fault() is Some {
        Some((INVALID_SEND_ARGS@, c.fault()->0))
    } else if envelope_drops_contract(c.request, c.reply_to is Some, format, template_active) {
        Some((INVALID_SEND_ARGS@, ENVELOPE_DROPS_CONTRACT_HINT@))
    } else if normalized_recipients(to).len() == 0 {
        Some((INVALID_SEND_ARGS@, NO_RECIPIENT_HINT@))
    } else if c.reply_to is Some && !single_recipient(normalized_recipients(to)) {
        Some((INVALID_SEND_ARGS@, REPLY_TO_ONE_HINT@))
    } else if utf8_len(body) > MAX_BODY_BYTES {
        Some((BODY_TOO_LARGE@, body_too_large_hint()))
    } else {
        None
    }
}

/// A message is either a new request or a reply to one, never both: a contract carrying both is
/// refused whatever else it holds.
pub proof fn lemma_request_and_reply_exclude_each_other(reply_by: Option<Seq<char>>, reply_to: Seq<char>)
    ensures
        contract_fault(true, reply_by, Some(reply_to)) == Some(EXCLUSIVE_CONTRACT_HINT@),
{
}

/// A reply that is sent goes to exactly one recipient named directly.
pub proof fn lemma_a_sent_reply_has_one_direct_recipient(
    to: Seq<Seq<char>>,
    body: Seq<char>,
    c: SendContract,
    format: EnvelopeFormat,
    template_active: bool,
)
    requires
        send_refusal(to, body, c, format, template_active) is None,
        c.reply_to is Some,
    ensures
        single_recipient(normalized_recipients(to)),
{
}

/// A contract the envelope in effect would drop is never sent: every send carrying `request` or
/// `reply_to` that gets through goes out in the plain XML envelope.
pub proof fn lemma_a_sent_contract_travels_in_xml(
    to: Seq<Seq<char>>,
    body: Seq<char>,
    c: SendContract,
    format: EnvelopeFormat,
    template_active: bool,
)
    requires
        send_refusal(to, body, c, format, template_active) is None,
        c.request || c.reply_to is Some,
    ensures
        format == EnvelopeFormat::Xml,
        !template_active,
{
}

/// A send that passed every check: what goes to the messaging service.
#[derive(Debug)]
pub struct Admitted {
    pub recipients: Vec<String>,
    pub meta: SendMeta,
}

/// Runs the checks of a send in order and either refuses it or hands back what the messaging
/// service is called with. Presence and names of recipients are not checked here: the service
/// judges them against one roster snapshot.
pub fn admit_send(cmd: &ControlCommand, format: EnvelopeFormat, template_active: bool) -> (r: Result<Admitted, ControlResult>)
    ensures
        (r is Err) == (send_refusal(cmd.to.deep_view(), cmd.body@, cmd.contract, format, template_active) is Some),
        r matches Err(e) ==> Some(e.refusal()->0) == send_refusal(cmd.to.deep_view(), cmd.body@, cmd.contract, format, template_active)
            && e is Error,
        r matches Ok(a) ==> {
            &&& a.recipients.deep_view() == normalized_recipients(cmd.to.deep_view())
            &&& a.meta.request == cmd.contract.request
            &&& a.meta.reply_by_raw.deep_view() == cmd.contract.reply_by.deep_view()
            &&& (a.meta.reply_by is Some) == (cmd.contract.reply_by is Some)
            &&& (a.meta.reply_by matches Some(secs) ==> reply_by_verdict(cmd.contract.reply_by->0@) == Ok::<nat, ReplyByFault>(secs as nat))
            &&& (a.meta.reply_to is Some) == (cmd.contract.reply_to is Some)
            &&& (a.meta.reply_to matches Some(t) ==> t@ == trimmed(cmd.contract.reply_to->0@))
        },
{
    let meta = match validate_contract(&cmd.contract) {
        Ok(m) => m,
        Err(hint) => {
            return Err(ControlResult::Error { code: INVALID_SEND_ARGS, hint });
        },
    };
    match contract_unsupported_by_envelope(&meta, format, template_active) {
        Some(hint) => {
            return Err(ControlResult::Error { code: INVALID_SEND_ARGS, hint });
        },
        None => {},
    }
    let recipients = normalize_recipients(&cmd.to);
    if recipients.len() == 0 {
        return Err(ControlResult::Error { code: INVALID_SEND_ARGS, hint: NO_RECIPIENT_HINT.to_owned() });
    }
    if meta.reply_to.is_some() && !reply_to_has_single_recipient(recipients.as_slice()) {
        proof {
            assert(recipients@.map_values(|s: String| s@) =~= recipients.deep_view());
        }
        return Err(ControlResult::Error { code: INVALID_SEND_ARGS, hint: REPLY_TO_ONE_HINT.to_owned() });
    }
    proof {
        assert(recipients@.map_values(|s: String| s@) =~= recipients.deep_view());
    }
    if longer_than_bytes(cmd.body.as_str(), MAX_BODY_BYTES) {
        let hint = concat3("Message body exceeds the ", decimal_text(MAX_BODY_BYTES).as_str(), "-byte limit; shorten it and retry.");
        return Err(ControlResult::Error { code: BODY_TOO_LARGE, hint });
    }
    Ok(Admitted { recipients, meta })
}

// ---------------------------------------------------------------------------------------------
// What the messaging service answered.
// ---------------------------------------------------------------------------------------------

/// How far a message got for one recipient at the moment of the send.
#[derive(Clone, Copy, Debug, PartialEq, Eq, Structural)]
pub enum SendStatus {
    Delivered,
    Pending,
    Failed,
}

pub open spec fn status_text(s: SendStatus) -> Seq<char> {
    match s {
        SendStatus::Delivered => "delivered"@,
        SendStatus::Pending => "pending"@,
        SendStatus::Failed => "failed"@,
    }
}

fn status_str(s: SendStatus) -> (r: &'static str)
    ensures
        r@ == status_text(s),
{
    match s {
        SendStatus::Delivered => "delivered",
        SendStatus::Pending => "pending",
        SendStatus::Failed => "failed",
    }
}

/// One recipient's row as the messaging service reports it.
#[derive(Debug, Clone)]
pub struct SendRow {
    pub to: String,
    pub status: SendStatus,
    pub code: Option<&'static str>,
    pub hint: Option<String>,
}

/// Why the messaging service refused a send as a whole.
#[derive(Debug, Clone)]
pub enum SendReject {
    /// An `@` address that is neither `@here` nor `@all`.
    GroupNotFound { name: String },
    /// The addresses expanded to nobody.
    GroupEmpty,
    /// The message id was already in the ledger.
    IdCollision,
}

/// Whether the service asks for the send to be made again under a fresh message id. A clash
/// is retried once; a second clash is answered as a refusal.
pub fn needs_new_id(outcome: &Result<Vec<SendRow>, SendReject>) -> (r: bool)
    ensures
        r == (outcome matches Err(SendReject::IdCollision)),
{
    match outcome {
        Err(SendReject::IdCollision) => true,
        _ => false,
    }
}

pub const GROUP_EMPTY_HINT: &'static str = "That send resolved to no recipients at all \u{2014} nothing was sent. For @here it means nobody other than you is live right now; for @all it means the team tree holds nobody but you. Name an agent directly (including yourself) if you meant to reach someone specific.";

pub const ID_COLLISION_HINT: &'static str = "The daemon could not allocate a unique message id; retry the send.";

/// The refusal each service rejection is answered with.
pub open spec fn reject_refusal(r: SendReject) -> (Seq<char>, Seq<char>) {
    match r {
        SendReject::GroupNotFound { name } => (
            "GROUP_NOT_FOUND"@,
            "'"@ + name@ + "' is not an address the broker knows. The only group addresses are @here (everyone live except you) and @all (every agent in the tree, including ones that are not running, except you); everything else must be an agent name or agent id. Fix the address and send again."@,
        ),
        SendReject::GroupEmpty => ("GROUP_EMPTY"@, GROUP_EMPTY_HINT@),
        SendReject::IdCollision => ("INTERNAL_ID_COLLISION"@, ID_COLLISION_HINT@),
    }
}

/// Whether a row of the answer reports a row of the service faithfully.
pub open spec fn reports(result: SendResult, row: SendRow) -> bool {
    &&& result.to@ == row.to@
    &&& result.status@ == status_text(row.status)
    &&& result.code == row.code
    &&& result.hint.deep_view() == row.hint.deep_view()
}

fn report_row(row: &SendRow) -> (r: SendResult)
    ensures
        reports(r, *row),
{
    SendResult { to: row.to.clone(), status: status_str(row.status), code: row.code, hint: clone_text(&row.hint) }
}

/// The answer to a send the service took: one row per recipient under the message id, or the
/// refusal its rejection calls for.
pub fn send_answer(id: String, outcome: &Result<Vec<SendRow>, SendReject>) -> (r: ControlResult)
    ensures
        match outcome {
            Ok(rows) => r matches ControlResult::Accepted { id: rid, results } && rid@ == id@
                && results@.len() == rows@.len()
                && forall|i: int| 0 <= i < rows@.len() ==> reports(#[trigger] results@[i], rows@[i]),
            Err(rej) => r.refusal() == Some(reject_refusal(*rej)),
        },
{
    match outcome {
        Ok(rows) => {
            let mut results: Vec<SendResult> = Vec::new();
            for i in 0..rows.len()
                invariant
                    results@.len() == i,
                    forall|j: int| 0 <= j < i ==> reports(#[trigger] results@[j], rows@[j]),
            {
                results.push(report_row(&rows[i]));
            }
            ControlResult::Accepted { id, results }
        },
        Err(SendReject::GroupNotFound { name }) => {
            let hint = concat3(
                "'",
                name.as_str(),
                "' is not an address the broker knows. The only group addresses are @here (everyone live except you) and @all (every agent in the tree, including ones that are not running, except you); everything else must be an agent name or agent id. Fix the address and send again.",
            );
            ControlResult::Error { code: "GROUP_NOT_FOUND", hint }
        },
        Err(SendReject::GroupEmpty) => ControlResult::Error { code: "GROUP_EMPTY", hint: GROUP_EMPTY_HINT.to_owned() },
        Err(SendReject::IdCollision) => ControlResult::Error { code: "INTERNAL_ID_COLLISION", hint: ID_COLLISION_HINT.to_owned() },
    }
}

// ---------------------------------------------------------------------------------------------
// The `messages` query.
// ---------------------------------------------------------------------------------------------

/// The answer to a query: its JSON payload (built by whoever answers), or an error of the same
/// shape as a send refusal.
#[derive(Debug)]
pub enum ControlQueryResult {
    Answer(serde_json::Value),
    Error { code: &'static str, hint: String },
}

impl ControlQueryResult {
    pub fn is_ok(&self) -> (r: bool)
        ensures
            r == (self is Answer),
    {
        match self {
            ControlQueryResult::Answer(_) => true,
            ControlQueryResult::Error { .. } => false,
        }
    }

    pub open spec fn refusal(&self) -> Option<(Seq<char>, Seq<char>)> {
        match self {
            ControlQueryResult::Answer(_) => None,
            ControlQueryResult::Error { code, hint } => Some((code@, hint@)),
        }
    }
}

pub const MESSAGE_NOT_FOUND: &'static str = "MESSAGE_NOT_FOUND";

pub const BLANK_MESSAGE_ID_HINT: &'static str = "Pass the message id you want to inspect (e.g. m-7f3k9q2d), or call this tool with no arguments to list your own open items.";

pub open spec fn unknown_message_hint(id: Seq<char>) -> Seq<char> {
    "No message '"@ + id + "' in the ledger. Ids look like m-7f3k9q2d; very old messages fall out of the in-memory history, and the ledger is cleared when the daemon restarts."@
}

/// The ledger key a `messages { id }` query looks up: the id without surrounding whitespace, or
/// the error a blank one is answered with.
pub fn message_query_key(raw: &str) -> (r: Result<String, ControlQueryResult>)
    ensures
        (r is Err) == (trimmed(raw@).len() == 0),
        r matches Ok(k) ==> k@ == trimmed(raw@),
        r matches Err(e) ==> e.refusal() == Some((MESSAGE_NOT_FOUND@, BLANK_MESSAGE_ID_HINT@)),
{
    let k = trim_text(raw);
    if k.as_str().is_empty() {
        Err(ControlQueryResult::Error { code: MESSAGE_NOT_FOUND, hint: BLANK_MESSAGE_ID_HINT.to_owned() })
    } else {
        Ok(k)
    }
}

/// The error for an id the ledger does not hold.
pub fn message_not_found(id: &str) -> (r: ControlQueryResult)
    ensures
        r.refusal() == Some((MESSAGE_NOT_FOUND@, unknown_message_hint(id@))),
{
    let hint = concat3(
        "No message '",
        id,
        "' in the ledger. Ids look like m-7f3k9q2d; very old messages fall out of the in-memory history, and the ledger is cleared when the daemon restarts.",
    );
    ControlQueryResult::Error { code: MESSAGE_NOT_FOUND, hint }
}

/// One delivery row of a message, as the messaging ledger reports it.
#[derive(Debug)]
pub struct LedgerRow {
    pub to: String,
    /// The ledger's word: pending, delivered, replied, expired, failed or skipped.
    pub status: String,
    pub age_secs: u64,
    pub updated_secs_ago: u64,
    /// Why a row ended after the send, when it did.
    pub code: Option<String>,
    pub hint: Option<String>,
}

/// A message's delivery record, as the messaging ledger reports it.
#[derive(Debug)]
pub struct MessageState {
    pub id: String,
    pub from: String,
    /// A request whose reply has not come yet.
    pub awaiting_reply: bool,
    /// The in-memory ledger rotated, so some rows may be gone.
    pub may_be_truncated: bool,
    /// One row per recipient.
    pub rows: Vec<LedgerRow>,
}

pub const LEDGER_ROTATED_HINT: &'static str = "The in-memory ledger has rotated, so some delivery rows for this message may already be gone \u{2014} treat the list below as partial, not as the full set of recipients.";

/// The answer to a query by id: the record as the ledger gave it (each row with its `code` and
/// `hint` only when it has them), and a hint that the list is partial exactly when rows may be
/// gone.
#[derive(Debug)]
pub struct MessageReport {
    pub state: MessageState,
    pub hint: Option<String>,
}

pub fn message_report(state: MessageState) -> (r: MessageReport)
    ensures
        r.state == state,
        (r.hint is Some) == state.may_be_truncated,
        r.hint matches Some(h) ==> h@ == LEDGER_ROTATED_HINT@,
{
    let hint = if state.may_be_truncated { Some(LEDGER_ROTATED_HINT.to_owned()) } else { None };
    MessageReport { state, hint }
}

/// One open item of the caller, as the messaging ledger reports it.
#[derive(Debug)]
pub struct OpenItem {
    /// Whether the caller owes the reply or awaits it.
    pub direction: String,
    pub id: String,
    pub from: String,
    pub to: String,
    pub age_secs: u64,
    pub reply_by: Option<String>,
    pub timed_out: bool,
}

/// An open item as answered: `timed_out` is shown only where it means something — the item has a
/// deadline, or it already timed out.
#[derive(Debug)]
pub struct OpenItemReport {
    pub item: OpenItem,
    pub timed_out: Option<bool>,
}

pub open spec fn shown_timed_out(has_deadline: bool, timed_out: bool) -> Option<bool> {
    if has_deadline || timed_out {
        Some(timed_out)
    } else {
        None
    }
}

/// An item that timed out always says so, and an item with a deadline always shows whether it
/// timed out; only an item with neither leaves the field out.
pub proof fn lemma_a_late_item_shows_it(has_deadline: bool, timed_out: bool)
    ensures
        timed_out ==> shown_timed_out(has_deadline, timed_out) == Some(true),
        has_deadline ==> shown_timed_out(has_deadline, timed_out) == Some(timed_out),
        !has_deadline && !timed_out ==> shown_timed_out(has_deadline, timed_out) is None,
{
}

pub fn open_item_report(item: OpenItem) -> (r: OpenItemReport)
    ensures
        r.item == item,
        r.timed_out == shown_timed_out(item.reply_by is Some, item.timed_out),
{
    let timed_out = if item.reply_by.is_some() || item.timed_out { Some(item.timed_out) } else { None };
    OpenItemReport { item, timed_out }
}

/// The answer to a query without an id: who the caller is, and its open items in the ledger's
/// order.
#[derive(Debug)]
pub struct OpenItemsReport {
    pub me: String,
    pub open: Vec<OpenItemReport>,
}

pub fn open_items_report(me: String, items: Vec<OpenItem>) -> (r: OpenItemsReport)
    ensures
        r.me == me,
        r.open.len() == items.len(),
        forall|i: int| 0 <= i < items.len() ==> {
            &&& (#[trigger] r.open@[i]).item == items@[i]
            &&& r.open@[i].timed_out == shown_timed_out(items@[i].reply_by is Some, items@[i].timed_out)
        },
{
    let ghost all = items@;
    let mut rest = items;
    let mut open: Vec<OpenItemReport> = Vec::new();
    while rest.len() > 0
        invariant
            open.len() + rest.len() == all.len(),
            rest@ == all.subrange(open.len() as int, all.len() as int),
            forall|i: int| 0 <= i < open.len() ==> {
                &&& (#[trigger] open@[i]).item == all[i]
                &&& open@[i].timed_out == shown_timed_out(all[i].reply_by is Some, all[i].timed_out)
            },
        decreases rest.len(),
    {
        let item = rest.remove(0);
        assert(item == all[open.len() as int]);
        open.push(open_item_report(item));
        assert(rest@ =~= all.subrange(open.len() as int, all.len() as int));
    }
    OpenItemsReport { me, open }
}

// ---------------------------------------------------------------------------------------------
// The sender's display name.
// ---------------------------------------------------------------------------------------------

/// The name a sender is shown under: its canonical name while the session lives, else the name
/// its profile gives, else the first eight characters of its id.
pub open spec fn display_name(canonical: Option<Seq<char>>, profile_name: Option<Seq<char>>, id: AgentId) -> Seq<char> {
    match canonical {
        Some(n) => n,
        None => match profile_name {
            Some(n) => n,
            None => uuid_text(id).take(8),
        },
    }
}

/// Picks the sender's display name (see `display_name`); the two names are looked up by the
/// caller in the agent manager.
pub fn sender_display_name(canonical: Option<String>, profile_name: Option<String>, id: AgentId) -> (r: String)
    ensures
        r@ == display_name(canonical.deep_view(), profile_name.deep_view(), id),
{
    match canonical {
        Some(n) => n,
        None => match profile_name {
            Some(n) => n,
            None => {
                let full = format_uuid(id);
                let chars = chars_of(full.as_str());
                let mut short: Vec<char> = Vec::new();
                for i in 0..8
                    invariant
                        chars@ == uuid_text(id),
                        chars@.len() == 36,
                        short@ == chars@.take(i as int),
                {
                    short.push(chars[i]);
                    assert(chars@.take(i + 1) =~= chars@.take(i as int).push(chars@[i as int]));
                }
                string_of(&short)
            },
        },
    }
}

} // verus!
