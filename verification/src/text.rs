//! Character-level text helpers shared by the rest of the library.

use vstd::prelude::*;
use vstd::std_specs::iter::IteratorSpec;

verus! {

/// Appends one character to a string (`String::push`).
#[verifier::external_body]
pub(crate) fn push_char(s: &mut String, c: char)
    ensures
        final(s)@ == old(s)@.push(c),
{
    s.push(c);
}

/// Appends a string slice to a string (vstd's `append`).
pub(crate) fn push_text(s: &mut String, t: &str)
    ensures
        final(s)@ == old(s)@ + t@,
{
    s.append(t);
}

/// The characters of `s`, in order.
pub fn chars_of(s: &str) -> (v: Vec<char>)
    ensures
        v@ == s@,
{
    broadcast use vstd::string::group_string_axioms;
    let mut v: Vec<char> = Vec::new();
    for c in it: s.chars()
        invariant
            it.seq() == s@,
            v@ == s@.take(it.index() as int),
    {
        v.push(c);
    }
    assert(v@ =~= s@);
    v
}


/// Builds a string from a sequence of characters.
pub fn string_of(v: &Vec<char>) -> (s: String)
    ensures
        s@ == v@,
{
    let mut s = String::new();
    for i in 0..v.len()
        invariant
            s@ == v@.take(i as int),
    {
        push_char(&mut s, v[i]);
        assert(v@.take(i as int).push(v@[i as int]) =~= v@.take(i + 1));
    }
    assert(v@.take(v@.len() as int) =~= v@);
    s
}

/// Whether two string slices hold the same characters.
pub fn same_text(a: &str, b: &str) -> (r: bool)
    ensures
        r == (a@ == b@),
{
    let a2 = a.to_owned();
    let b2 = b.to_owned();
    a2 == b2
}

/// `a`, `b` and `c` joined.
pub fn concat3(a: &str, b: &str, c: &str) -> (r: String)
    ensures
        r@ == a@ + b@ + c@,
{
    let mut r = a.to_owned();
    push_text(&mut r, b);
    push_text(&mut r, c);
    r
}

/// The decimal digit character for `d < 10`.
pub open spec fn digit_char(d: nat) -> char {
    if d == 0 { '0' }
    else if d == 1 { '1' }
    else if d == 2 { '2' }
    else if d == 3 { '3' }
    else if d == 4 { '4' }
    else if d == 5 { '5' }
    else if d == 6 { '6' }
    else if d == 7 { '7' }
    else if d == 8 { '8' }
    else if d == 9 { '9' }
    else if d == 10 { 'a' }
    else if d == 11 { 'b' }
    else if d == 12 { 'c' }
    else if d == 13 { 'd' }
    else if d == 14 { 'e' }
    else { 'f' }
}

/// Base-10 text of a natural number, without leading zeros.
pub open spec fn decimal(n: nat) -> Seq<char>
    decreases n,
{
    if n < 10 {
        seq![digit_char(n)]
    } else {
        decimal(n / 10).push(digit_char(n % 10))
    }
}

/// Lowercase base-16 text of a natural number, without leading zeros.
pub open spec fn hex(n: nat) -> Seq<char>
    decreases n,
{
    if n < 16 {
        seq![digit_char(n)]
    } else {
        hex(n / 16).push(digit_char(n % 16))
    }
}

proof fn lemma_decimal_shape(n: nat)
    ensures
        decimal(n).len() >= 1,
        n >= 10 ==> decimal(n).len() >= 2,
        decimal(n).last() == digit_char(n % 10),
    decreases n,
{
    if n >= 10 {
        lemma_decimal_shape(n / 10);
    }
}

/// Different numbers have different decimal texts.
pub proof fn lemma_decimal_injective(a: nat, b: nat)
    requires
        decimal(a) == decimal(b),
    ensures
        a == b,
    decreases a,
{
    lemma_decimal_shape(a);
    lemma_decimal_shape(b);
    if a >= 10 && b >= 10 {
        assert(decimal(a).drop_last() =~= decimal(a / 10));
        assert(decimal(b).drop_last() =~= decimal(b / 10));
        lemma_decimal_injective(a / 10, b / 10);
        assert(a % 10 == b % 10);
    } else if a < 10 && b < 10 {
        assert(decimal(a)[0] == digit_char(a));
        assert(decimal(b)[0] == digit_char(b));
    }
}

fn digit(d: u64) -> (c: char)
    requires
        d < 16,
    ensures
        c == digit_char(d as nat),
{
    if d == 0 { '0' }
    else if d == 1 { '1' }
    else if d == 2 { '2' }
    else if d == 3 { '3' }
    else if d == 4 { '4' }
    else if d == 5 { '5' }
    else if d == 6 { '6' }
    else if d == 7 { '7' }
    else if d == 8 { '8' }
    else if d == 9 { '9' }
    else if d == 10 { 'a' }
    else if d == 11 { 'b' }
    else if d == 12 { 'c' }
    else if d == 13 { 'd' }
    else if d == 14 { 'e' }
    else { 'f' }
}

/// Appends the decimal text of `n`.
pub fn push_decimal(s: &mut String, n: u64)
    ensures
        final(s)@ == old(s)@ + decimal(n as nat),
    decreases n,
{
    if n >= 10 {
        push_decimal(s, n / 10);
    }
    push_char(s, digit(n % 10));
    assert(old(s)@ + decimal(n as nat) =~= if n >= 10 {
        (old(s)@ + decimal((n / 10) as nat)).push(digit_char((n % 10) as nat))
    } else {
        old(s)@.push(digit_char((n % 10) as nat))
    });
}

/// Appends the lowercase hexadecimal text of `n`.
pub fn push_hex(s: &mut String, n: u64)
    ensures
        final(s)@ == old(s)@ + hex(n as nat),
    decreases n,
{
    if n >= 16 {
        push_hex(s, n / 16);
    }
    push_char(s, digit(n % 16));
    assert(old(s)@ + hex(n as nat) =~= if n >= 16 {
        (old(s)@ + hex((n / 16) as nat)).push(digit_char((n % 16) as nat))
    } else {
        old(s)@.push(digit_char((n % 16) as nat))
    });
}

/// The decimal text of `n` as a new string.
pub fn decimal_text(n: u64) -> (s: String)
    ensures
        s@ == decimal(n as nat),
{
    let mut s = String::new();
    push_decimal(&mut s, n);
    assert(s@ =~= decimal(n as nat));
    s
}

/// How many bytes UTF-8 takes for one character.
pub open spec fn utf8_width(c: char) -> nat {
    if (c as u32) < 0x80 {
        1
    } else if (c as u32) < 0x800 {
        2
    } else if (c as u32) < 0x10000 {
        3
    } else {
        4
    }
}

/// How many bytes UTF-8 takes for a text (`str::len`).
pub open spec fn utf8_len(t: Seq<char>) -> nat
    decreases t.len(),
{
    if t.len() == 0 {
        0
    } else {
        utf8_len(t.drop_last()) + utf8_width(t.last())
    }
}

/// Every character takes at least one byte.
pub proof fn lemma_utf8_len_at_least_chars(t: Seq<char>)
    ensures
        utf8_len(t) >= t.len(),
    decreases t.len(),
{
    if t.len() > 0 {
        lemma_utf8_len_at_least_chars(t.drop_last());
    }
}

fn char_width(c: char) -> (w: u64)
    ensures
        w == utf8_width(c),
{
    let u = c as u32;
    if u < 0x80 {
        1
    } else if u < 0x800 {
        2
    } else if u < 0x10000 {
        3
    } else {
        4
    }
}

/// Whether a text takes more than `limit` bytes in UTF-8.
pub fn longer_than_bytes(t: &str, limit: u64) -> (r: bool)
    requires
        limit < u64::MAX - 4,
    ensures
        r == (utf8_len(t@) > limit),
{
    let chars = chars_of(t);
    let mut total: u64 = 0;
    let mut i: usize = 0;
    while i < chars.len()
        invariant
            chars@ == t@,
            i <= chars@.len(),
            total == utf8_len(chars@.take(i as int)),
            total <= limit,
            limit < u64::MAX - 4,
        decreases chars@.len() - i,
    {
        assert(chars@.take(i + 1).drop_last() =~= chars@.take(i as int));
        total = total + char_width(chars[i]);
        i = i + 1;
        if total > limit {
            proof {
                lemma_utf8_len_prefix(chars@, i as int);
            }
            return true;
        }
    }
    assert(chars@.take(i as int) =~= chars@);
    false
}

/// A prefix never takes more bytes than the whole.
pub proof fn lemma_utf8_len_prefix(t: Seq<char>, i: int)
    requires
        0 <= i <= t.len(),
    ensures
        utf8_len(t.take(i)) <= utf8_len(t),
    decreases t.len() - i,
{
    if i < t.len() {
        lemma_utf8_len_prefix(t, i + 1);
        assert(t.take(i + 1).drop_last() =~= t.take(i));
    } else {
        assert(t.take(i) =~= t);
    }
}

/// How many characters of a client string a log field may carry.
pub const LOG_MAX_CHARS: usize = 64;

/// A C0 or C1 control character (`char::is_control`).
pub open spec fn is_control(c: char) -> bool {
    (c as u32) <= 0x1f || (0x7f <= (c as u32) && (c as u32) <= 0x9f)
}

/// The escaped form `char::escape_debug` gives a control character.
pub open spec fn escaped_control(c: char) -> Seq<char> {
    if c == '\0' {
        seq!['\\', '0']
    } else if c == '\t' {
        seq!['\\', 't']
    } else if c == '\r' {
        seq!['\\', 'r']
    } else if c == '\n' {
        seq!['\\', 'n']
    } else {
        seq!['\\', 'u', '{'] + hex(c as nat) + seq!['}']
    }
}

/// How one character appears in a log field: control characters escaped, the rest as they are.
pub open spec fn shown(c: char) -> Seq<char> {
    if is_control(c) {
        escaped_control(c)
    } else {
        seq![c]
    }
}

/// Every character of `t` as it appears in a log field.
pub open spec fn shown_all(t: Seq<char>) -> Seq<char>
    decreases t.len(),
{
    if t.len() == 0 {
        Seq::empty()
    } else {
        shown_all(t.drop_last()) + shown(t.last())
    }
}

/// A client string made fit for one log field: at most `LOG_MAX_CHARS` characters, control
/// characters escaped, and a trailing ellipsis when characters were cut.
pub open spec fn sanitized(t: Seq<char>) -> Seq<char> {
    if t.len() > LOG_MAX_CHARS {
        shown_all(t.take(LOG_MAX_CHARS as int)).push('\u{2026}')
    } else {
        shown_all(t)
    }
}

proof fn lemma_hex_is_plain(n: nat)
    ensures
        forall|i: int| 0 <= i < hex(n).len() ==> !is_control(#[trigger] hex(n)[i]),
        n < 256 ==> hex(n).len() <= 2,
    decreases n,
{
    if n >= 16 {
        lemma_hex_is_plain(n / 16);
        let d = n % 16;
        assert(!is_control(digit_char(d)));
        assert forall|i: int| 0 <= i < hex(n).len() implies !is_control(#[trigger] hex(n)[i]) by {
            if i < hex(n / 16).len() {
                assert(hex(n)[i] == hex(n / 16)[i]);
            }
        }
    } else {
        assert(!is_control(digit_char(n)));
    }
}

proof fn lemma_shown_is_plain(c: char)
    ensures
        forall|i: int| 0 <= i < shown(c).len() ==> !is_control(#[trigger] shown(c)[i]),
        shown(c).len() <= 6,
{
    if is_control(c) {
        lemma_hex_is_plain(c as nat);
        let h = hex(c as nat);
        assert forall|i: int| 0 <= i < shown(c).len() implies !is_control(#[trigger] shown(c)[i]) by {
            if c != '\0' && c != '\t' && c != '\r' && c != '\n' {
                if 3 <= i < 3 + h.len() {
                    assert(shown(c)[i] == h[i - 3]);
                }
            }
        }
    }
}

proof fn lemma_shown_all_is_plain(t: Seq<char>)
    ensures
        forall|i: int| 0 <= i < shown_all(t).len() ==> !is_control(#[trigger] shown_all(t)[i]),
        shown_all(t).len() <= 6 * t.len(),
    decreases t.len(),
{
    if t.len() > 0 {
        lemma_shown_all_is_plain(t.drop_last());
        lemma_shown_is_plain(t.last());
        let a = shown_all(t.drop_last());
        let b = shown(t.last());
        assert forall|i: int| 0 <= i < shown_all(t).len() implies !is_control(#[trigger] shown_all(t)[i]) by {
            if i < a.len() {
                assert(shown_all(t)[i] == a[i]);
            } else {
                assert(shown_all(t)[i] == b[i - a.len()]);
            }
        }
    }
}

/// A log field made from a client string carries no raw control character — a newline in a
/// name cannot start a forged log line — and its length is bounded whatever the client sent.
pub proof fn lemma_a_sanitized_field_is_one_bounded_line(t: Seq<char>)
    ensures
        forall|i: int| 0 <= i < sanitized(t).len() ==> !is_control(#[trigger] sanitized(t)[i]),
        sanitized(t).len() <= 6 * LOG_MAX_CHARS + 1,
{
    if t.len() > LOG_MAX_CHARS {
        let u = t.take(LOG_MAX_CHARS as int);
        lemma_shown_all_is_plain(u);
        assert forall|i: int| 0 <= i < sanitized(t).len() implies !is_control(#[trigger] sanitized(t)[i]) by {
            if i < shown_all(u).len() {
                assert(sanitized(t)[i] == shown_all(u)[i]);
            }
        }
    } else {
        lemma_shown_all_is_plain(t);
    }
}

fn is_control_char(c: char) -> (r: bool)
    ensures
        r == is_control(c),
{
    let u = c as u32;
    u <= 0x1f || (0x7f <= u && u <= 0x9f)
}

fn push_shown(s: &mut String, c: char)
    ensures
        final(s)@ == old(s)@ + shown(c),
{
    if is_control_char(c) {
        if c == '\0' {
            push_char(s, '\\');
            push_char(s, '0');
        } else if c == '\t' {
            push_char(s, '\\');
            push_char(s, 't');
        } else if c == '\r' {
            push_char(s, '\\');
            push_char(s, 'r');
        } else if c == '\n' {
            push_char(s, '\\');
            push_char(s, 'n');
        } else {
            push_char(s, '\\');
            push_char(s, 'u');
            push_char(s, '{');
            push_hex(s, c as u32 as u64);
            push_char(s, '}');
        }
    } else {
        push_char(s, c);
    }
    assert(final(s)@ =~= old(s)@ + shown(c));
}

/// Makes a client-supplied string safe for one log field — bounded in length and free of raw
/// control characters, so a newline inside it cannot forge a second log line.
pub fn sanitize_for_log(text: &str) -> (out: String)
    ensures
        out@ == sanitized(text@),
{
    let chars = chars_of(text);
    let n = if chars.len() > LOG_MAX_CHARS { LOG_MAX_CHARS } else { chars.len() };
    let mut out = String::new();
    for i in 0..n
        invariant
            n <= chars@.len(),
            chars@ == text@,
            out@ == shown_all(chars@.take(i as int)),
    {
        push_shown(&mut out, chars[i]);
        assert(chars@.take(i + 1).drop_last() =~= chars@.take(i as int));
    }
    if chars.len() > LOG_MAX_CHARS {
        push_char(&mut out, '\u{2026}');
    } else {
        assert(chars@.take(n as int) =~= chars@);
    }
    out
}

/// Unicode `White_Space` (`char::is_whitespace`).
pub open spec fn is_whitespace(c: char) -> bool {
    let u = c as u32;
    (9 <= u && u <= 13) || u == 0x20 || u == 0x85 || u == 0xa0 || u == 0x1680 || (0x2000 <= u && u
        <= 0x200a) || u == 0x2028 || u == 0x2029 || u == 0x202f || u == 0x205f || u == 0x3000
}

fn whitespace(c: char) -> (r: bool)
    ensures
        r == is_whitespace(c),
{
    let u = c as u32;
    (9 <= u && u <= 13) || u == 0x20 || u == 0x85 || u == 0xa0 || u == 0x1680 || (0x2000 <= u && u
        <= 0x200a) || u == 0x2028 || u == 0x2029 || u == 0x202f || u == 0x205f || u == 0x3000
}

/// Where the text starts once leading whitespace is skipped.
pub open spec fn trim_start_index(t: Seq<char>) -> int
    decreases t.len(),
{
    if t.len() == 0 || !is_whitespace(t[0]) {
        0
    } else {
        1 + trim_start_index(t.drop_first())
    }
}

/// Where the text ends once trailing whitespace is dropped.
pub open spec fn trim_end_index(t: Seq<char>) -> int
    decreases t.len(),
{
    if t.len() == 0 || !is_whitespace(t.last()) {
        t.len() as int
    } else {
        trim_end_index(t.drop_last())
    }
}

/// `str::trim`: the text without leading and trailing whitespace.
pub open spec fn trimmed(t: Seq<char>) -> Seq<char> {
    let e = trim_end_index(t);
    let e_seq = t.take(e);
    e_seq.skip(trim_start_index(e_seq))
}

proof fn lemma_trim_start_bounds(t: Seq<char>)
    ensures
        0 <= trim_start_index(t) <= t.len(),
        forall|i: int| 0 <= i < trim_start_index(t) ==> is_whitespace(#[trigger] t[i]),
        trim_start_index(t) < t.len() ==> !is_whitespace(t[trim_start_index(t)]),
    decreases t.len(),
{
    if t.len() > 0 && is_whitespace(t[0]) {
        lemma_trim_start_bounds(t.drop_first());
        assert forall|i: int| 0 <= i < trim_start_index(t) implies is_whitespace(#[trigger] t[i]) by {
            if i > 0 {
                assert(t[i] == t.drop_first()[i - 1]);
            }
        }
        if trim_start_index(t) < t.len() {
            assert(t[trim_start_index(t)] == t.drop_first()[trim_start_index(t.drop_first())]);
        }
    }
}

proof fn lemma_trim_end_bounds(t: Seq<char>)
    ensures
        0 <= trim_end_index(t) <= t.len(),
        forall|i: int| trim_end_index(t) <= i < t.len() ==> is_whitespace(#[trigger] t[i]),
        trim_end_index(t) > 0 ==> !is_whitespace(t[trim_end_index(t) - 1]),
    decreases t.len(),
{
    if t.len() > 0 && is_whitespace(t.last()) {
        lemma_trim_end_bounds(t.drop_last());
        assert forall|i: int| trim_end_index(t) <= i < t.len() implies is_whitespace(#[trigger] t[i]) by {
            if i < t.len() - 1 {
                assert(t[i] == t.drop_last()[i]);
            }
        }
        if trim_end_index(t) > 0 {
            assert(t[trim_end_index(t) - 1] == t.drop_last()[trim_end_index(t) - 1]);
        }
    }
}

/// Trimming leaves no whitespace at either end, and removes only whitespace.
pub proof fn lemma_trimmed_has_no_outer_whitespace(t: Seq<char>)
    ensures
        trimmed(t).len() > 0 ==> !is_whitespace(trimmed(t)[0]) && !is_whitespace(trimmed(t).last()),
        trimmed(t).len() == 0 <==> forall|i: int| 0 <= i < t.len() ==> is_whitespace(#[trigger] t[i]),
{
    lemma_trim_end_bounds(t);
    let e = trim_end_index(t);
    let es = t.take(e);
    lemma_trim_start_bounds(es);
    let st = trim_start_index(es);
    if trimmed(t).len() > 0 {
        assert(trimmed(t)[0] == es[st]);
        assert(trimmed(t).last() == t[e - 1]);
    }
    if trimmed(t).len() == 0 {
        assert forall|i: int| 0 <= i < t.len() implies is_whitespace(#[trigger] t[i]) by {
            if i < e {
                assert(es[i] == t[i]);
            }
        }
    } else {
        assert(!is_whitespace(t[e - 1]));
    }
}

/// The text without leading and trailing whitespace, as `str::trim` gives it.
pub fn trim_text(text: &str) -> (r: String)
    ensures
        r@ == trimmed(text@),
{
    let chars = chars_of(text);
    let mut end = chars.len();
    assert(chars@.take(end as int) =~= chars@);
    while end > 0 && whitespace(chars[end - 1])
        invariant
            chars@ == text@,
            end <= chars@.len(),
            trim_end_index(chars@.take(end as int)) == trim_end_index(chars@),
        decreases end,
    {
        assert(chars@.take(end as int).drop_last() =~= chars@.take(end - 1));
        end = end - 1;
    }
    assert(trim_end_index(chars@.take(end as int)) == end as int) by {
        if end > 0 {
            assert(chars@.take(end as int).last() == chars@[end - 1]);
        }
    }
    let mut start: usize = 0;
    let ghost e_seq = chars@.take(end as int);
    assert(e_seq.skip(0) =~= e_seq);
    while start < end && whitespace(chars[start])
        invariant
            chars@ == text@,
            e_seq == chars@.take(end as int),
            end <= chars@.len(),
            start <= end,
            start + trim_start_index(e_seq.skip(start as int)) == trim_start_index(e_seq),
        decreases end - start,
    {
        assert(e_seq.skip(start as int).drop_first() =~= e_seq.skip(start + 1));
        assert(e_seq.skip(start as int)[0] == chars@[start as int]);
        start = start + 1;
    }
    assert(trim_start_index(e_seq.skip(start as int)) == 0) by {
        if start < end {
            assert(e_seq.skip(start as int)[0] == chars@[start as int]);
        }
    }
    let mut r = String::new();
    for i in start..end
        invariant
            chars@ == text@,
            start <= end <= chars@.len(),
            r@ == chars@.subrange(start as int, i as int),
    {
        push_char(&mut r, chars[i]);
        assert(chars@.subrange(start as int, i + 1) =~= chars@.subrange(start as int, i as int).push(chars@[i as int]));
    }
    assert(r@ =~= e_seq.skip(start as int));
    r
}

} // verus!
