//! Parsing of duration strings of the form `<integer><unit>`, with unit
//! `h`/`H` (hours), `m`/`M` (minutes) or `s`/`S` (seconds), optionally
//! surrounded by whitespace. No fractions and no multi-unit composites:
//! `"1h30m"` is invalid.

use crate::chars::{
    all_digits, digit_val, digits_value, is_digit, is_space, lemma_digits_value_prefix_le,
    lemma_digits_value_push,
};
use crate::errors::WatchdogError;
use vstd::prelude::*;

verus! {

/// The recognized unit suffixes.
pub open spec fn is_unit(c: char) -> bool {
    c == 'h' || c == 'H' || c == 'm' || c == 'M' || c == 's' || c == 'S'
}

/// Seconds per unit.
pub open spec fn unit_factor(c: char) -> nat
    recommends
        is_unit(c),
{
    if c == 'h' || c == 'H' {
        3600
    } else if c == 'm' || c == 'M' {
        60
    } else {
        1
    }
}

/// `s` without its leading whitespace.
pub open spec fn trim_front(s: Seq<char>) -> Seq<char>
    decreases s.len(),
{
    if s.len() > 0 && is_space(s[0]) {
        trim_front(s.drop_first())
    } else {
        s
    }
}

/// `s` without its trailing whitespace.
pub open spec fn trim_back(s: Seq<char>) -> Seq<char>
    decreases s.len(),
{
    if s.len() > 0 && is_space(s.last()) {
        trim_back(s.drop_last())
    } else {
        s
    }
}

/// `s` without leading and trailing whitespace.
pub open spec fn trimmed(s: Seq<char>) -> Seq<char> {
    trim_back(trim_front(s))
}

/// A well-formed duration string: after trimming, one or more digits
/// followed by exactly one unit character.
pub open spec fn valid_duration(s: Seq<char>) -> bool {
    let t = trimmed(s);
    t.len() >= 2 && all_digits(t.take(t.len() - 1)) && is_unit(t.last())
}

/// The duration in seconds denoted by a well-formed duration string.
pub open spec fn duration_secs(s: Seq<char>) -> nat
    recommends
        valid_duration(s),
{
    let t = trimmed(s);
    digits_value(t.take(t.len() - 1)) * unit_factor(t.last())
}

/// If the first `k` characters are spaces and the one after them (if any)
/// is not, trimming the front drops exactly those `k` characters.
proof fn lemma_trim_front_at(s: Seq<char>, k: int)
    requires
        0 <= k <= s.len(),
        forall|i: int| 0 <= i < k ==> is_space(#[trigger] s[i]),
        k == s.len() || !is_space(s[k]),
    ensures
        trim_front(s) == s.skip(k),
    decreases k,
{
    if k == 0 {
        assert(s.skip(0) =~= s);
    } else {
        let s1 = s.drop_first();
        assert(forall|i: int| 0 <= i < k - 1 ==> is_space(#[trigger] s1[i]));
        lemma_trim_front_at(s1, k - 1);
        assert(s1.skip(k - 1) =~= s.skip(k));
    }
}

/// If the characters from `e` on are spaces and the one before `e` (if any)
/// is not, trimming the back keeps exactly the first `e` characters.
proof fn lemma_trim_back_at(s: Seq<char>, e: int)
    requires
        0 <= e <= s.len(),
        forall|i: int| e <= i < s.len() ==> is_space(#[trigger] s[i]),
        e == 0 || !is_space(s[e - 1]),
    ensures
        trim_back(s) == s.take(e),
    decreases s.len() - e,
{
    if e == s.len() {
        if e == 0 {
            assert(s.take(0) =~= s);
        } else {
            assert(s.take(e) =~= s);
        }
    } else {
        let s1 = s.drop_last();
        assert(forall|i: int| e <= i < s1.len() ==> is_space(#[trigger] s1[i]));
        lemma_trim_back_at(s1, e);
        assert(s1.take(e) =~= s.take(e));
    }
}

/// The trimmed string is the subrange between the first index whose prefix
/// is all spaces and the last index whose suffix is all spaces, provided
/// neither boundary character is itself a space.
proof fn lemma_trimmed_subrange(s: Seq<char>, start: int, end: int)
    requires
        0 <= start <= end <= s.len(),
        forall|i: int| 0 <= i < start ==> is_space(#[trigger] s[i]),
        forall|i: int| end <= i < s.len() ==> is_space(#[trigger] s[i]),
        start == end || (!is_space(s[start]) && !is_space(s[end - 1])),
    ensures
        trimmed(s) == s.subrange(start, end),
{
    if start == end {
        lemma_trim_front_at(s, s.len() as int);
        assert(trim_front(s) =~= Seq::<char>::empty());
        lemma_trim_back_at(Seq::<char>::empty(), 0);
        assert(s.subrange(start, end) =~= Seq::<char>::empty());
    } else {
        lemma_trim_front_at(s, start);
        let f = s.skip(start);
        assert(forall|i: int| end - start <= i < f.len() ==> is_space(#[trigger] f[i]));
        assert(!is_space(f[end - start - 1]));
        lemma_trim_back_at(f, end - start);
        assert(f.take(end - start) =~= s.subrange(start, end));
    }
}

/// Every string of the shape `<digits><unit>` — one or more decimal digits,
/// one recognized unit character, any whitespace before and after — is a
/// well-formed duration string, and it denotes the digits' value times the
/// unit's factor in seconds (3600 per hour, 60 per minute, 1 per second).
pub proof fn lemma_duration_shape(pre: Seq<char>, digits: Seq<char>, unit: char, post: Seq<char>)
    requires
        forall|i: int| 0 <= i < pre.len() ==> is_space(#[trigger] pre[i]),
        forall|i: int| 0 <= i < post.len() ==> is_space(#[trigger] post[i]),
        digits.len() >= 1,
        all_digits(digits),
        is_unit(unit),
    ensures
        valid_duration(pre + digits + seq![unit] + post),
        duration_secs(pre + digits + seq![unit] + post) == digits_value(digits) * unit_factor(
            unit,
        ),
{
    let s = pre + digits + seq![unit] + post;
    let start = pre.len() as int;
    let end = start + digits.len() + 1;
    assert(s[start] == digits[0]);
    assert(is_digit(digits[0]));
    assert(s[end - 1] == unit);
    assert(forall|i: int| 0 <= i < start ==> s[i] == pre[i]);
    assert(forall|i: int| end <= i < s.len() ==> s[i] == post[i - end]);
    lemma_trimmed_subrange(s, start, end);
    let t = trimmed(s);
    assert(t =~= digits + seq![unit]);
    assert(t.take(t.len() - 1) =~= digits);
    assert(t.last() == unit);
}

/// Whether `c` is in the tolerated whitespace set.
fn is_space_char(c: char) -> (b: bool)
    ensures
        b == is_space(c),
{
    c == ' ' || c == '\t' || c == '\n' || c == '\r' || c == '\x0c'
}

/// Parse a duration string into a number of seconds.
///
/// Succeeds exactly on a well-formed `<integer><unit>` string (whitespace
/// around it tolerated) whose value in seconds fits `u64`, and then returns
/// that value. A missing or unrecognized unit, an empty or non-numeric
/// integer part, extra text, or a value too large for 64 bits is a parse
/// failure, fatal at configuration time.
pub fn parse_duration(input: &str) -> (r: Result<u64, WatchdogError>)
    ensures
        r is Ok <==> valid_duration(input@) && duration_secs(input@) <= u64::MAX,
        r matches Ok(v) ==> v == duration_secs(input@),
        r is Err ==> r == Err::<u64, WatchdogError>(WatchdogError::ParseError),
{
    let ghost s = input@;
    let n = input.unicode_len();
    let mut start: usize = 0;
    while start < n && is_space_char(input.get_char(start))
        invariant
            s == input@,
            n == s.len(),
            0 <= start <= n,
            forall|i: int| 0 <= i < start ==> is_space(#[trigger] s[i]),
        decreases n - start,
    {
        start = start + 1;
    }
    let mut end: usize = n;
    while end > start && is_space_char(input.get_char(end - 1))
        invariant
            s == input@,
            n == s.len(),
            0 <= start <= end <= n,
            forall|i: int| end <= i < n ==> is_space(#[trigger] s[i]),
        decreases end,
    {
        end = end - 1;
    }
    proof {
        lemma_trimmed_subrange(s, start as int, end as int);
    }
    let ghost t = trimmed(s);
    if end - start < 2 {
        return Err(WatchdogError::ParseError);
    }
    let mut acc: u64 = 0;
    let mut j: usize = start;
    while j < end - 1
        invariant
            s == input@,
            n == s.len(),
            0 <= start <= j <= end - 1,
            end <= n,
            t == trimmed(s),
            t == s.subrange(start as int, end as int),
            all_digits(t.take(j - start)),
            acc == digits_value(t.take(j - start)),
        decreases end - j,
    {
        let c = input.get_char(j);
        let code = c as u32;
        if code < 48 || code > 57 {
            proof {
                assert(!is_digit(t[j - start]));
                assert(t.take(t.len() - 1)[j - start] == t[j - start]);
            }
            return Err(WatchdogError::ParseError);
        }
        let d = (code - 48) as u64;
        proof {
            assert(is_digit(t[j - start]));
            assert(d == digit_val(t[j - start]));
            lemma_digits_value_push(t.take(j - start), t[j - start]);
            assert(t.take(j - start + 1) =~= t.take(j - start).push(t[j - start]));
        }
        let shifted = match acc.checked_mul(10) {
            Some(v) => v,
            None => {
                proof {
                    if valid_duration(s) {
                        lemma_duration_overflow(s, j - start + 1);
                    }
                }
                return Err(WatchdogError::ParseError);
            },
        };
        acc = match shifted.checked_add(d) {
            Some(v) => v,
            None => {
                proof {
                    if valid_duration(s) {
                        lemma_duration_overflow(s, j - start + 1);
                    }
                }
                return Err(WatchdogError::ParseError);
            },
        };
        j = j + 1;
    }
    let u = input.get_char(end - 1);
    assert(u == t.last());
    let factor: u64 = if u == 'h' || u == 'H' {
        3600
    } else if u == 'm' || u == 'M' {
        60
    } else if u == 's' || u == 'S' {
        1
    } else {
        return Err(WatchdogError::ParseError);
    };
    assert(is_unit(t.last()) && factor == unit_factor(t.last()));
    assert(t.take(t.len() - 1) =~= t.take(j - start));
    match acc.checked_mul(factor) {
        Some(v) => Ok(v),
        None => Err(WatchdogError::ParseError),
    }
}

/// If some prefix of the digit part already exceeds `u64`, the whole
/// duration does: the digit part's value only grows with more digits, and
/// the unit factor is at least one.
proof fn lemma_duration_overflow(s: Seq<char>, j: int)
    requires
        valid_duration(s),
        0 <= j <= trimmed(s).len() - 1,
        digits_value(trimmed(s).take(j)) > u64::MAX,
    ensures
        duration_secs(s) > u64::MAX,
{
    let t = trimmed(s);
    let digits = t.take(t.len() - 1);
    lemma_digits_value_prefix_le(digits, j);
    assert(digits.take(j) =~= t.take(j));
    assert(digits_value(digits) <= digits_value(digits) * unit_factor(t.last())) by (nonlinear_arith)
        requires
            unit_factor(t.last()) >= 1,
            digits_value(digits) >= 0,
    ;
}

} // verus!
