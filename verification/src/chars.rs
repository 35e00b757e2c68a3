//! Character classes and decimal digit strings, shared by the duration
//! parser and the heartbeat marker codec.

use vstd::prelude::*;

verus! {

/// The whitespace characters tolerated around a duration string and used to
/// separate the tokens of a shutdown command: the ASCII whitespace set.
pub open spec fn is_space(c: char) -> bool {
    c == ' ' || c == '\t' || c == '\n' || c == '\r' || c == '\x0c'
}

pub open spec fn is_digit(c: char) -> bool {
    '0' <= c && c <= '9'
}

/// Numeric value of a single decimal digit character.
pub open spec fn digit_val(c: char) -> nat
    recommends
        is_digit(c),
{
    ((c as int) - ('0' as int)) as nat
}

/// The decimal digit character for a value below ten.
pub open spec fn digit_char(d: nat) -> char
    recommends
        d < 10,
{
    if d == 0 {
        '0'
    } else if d == 1 {
        '1'
    } else if d == 2 {
        '2'
    } else if d == 3 {
        '3'
    } else if d == 4 {
        '4'
    } else if d == 5 {
        '5'
    } else if d == 6 {
        '6'
    } else if d == 7 {
        '7'
    } else if d == 8 {
        '8'
    } else {
        '9'
    }
}

/// Every character of `s` is a decimal digit.
pub open spec fn all_digits(s: Seq<char>) -> bool {
    forall|i: int| 0 <= i < s.len() ==> is_digit(#[trigger] s[i])
}

/// The number denoted by a string of decimal digits, most significant first.
pub open spec fn digits_value(s: Seq<char>) -> nat
    recommends
        all_digits(s),
    decreases s.len(),
{
    if s.len() == 0 {
        0
    } else {
        digits_value(s.drop_last()) * 10 + digit_val(s.last())
    }
}

/// The canonical decimal representation of `n`: no leading zeros except for
/// the single digit `"0"` itself.
pub open spec fn dec_repr(n: nat) -> Seq<char>
    decreases n,
{
    if n < 10 {
        seq![digit_char(n)]
    } else {
        dec_repr(n / 10).push(digit_char(n % 10))
    }
}

/// Appending a digit multiplies the value by ten and adds the digit.
pub proof fn lemma_digits_value_push(s: Seq<char>, c: char)
    ensures
        digits_value(s.push(c)) == digits_value(s) * 10 + digit_val(c),
{
    assert(s.push(c).drop_last() =~= s);
    assert(s.push(c).last() == c);
}

/// A digit string's value is at least the value of any of its prefixes.
pub proof fn lemma_digits_value_prefix_le(s: Seq<char>, j: int)
    requires
        0 <= j <= s.len(),
    ensures
        digits_value(s.take(j)) <= digits_value(s),
    decreases s.len() - j,
{
    if j < s.len() {
        lemma_digits_value_prefix_le(s, j + 1);
        lemma_digits_value_push(s.take(j), s[j]);
        assert(s.take(j + 1) =~= s.take(j).push(s[j]));
        assert(digits_value(s.take(j)) <= digits_value(s.take(j)) * 10) by (nonlinear_arith);
    } else {
        assert(s.take(j) =~= s);
    }
}

/// The value of a canonical representation is the number it was made from.
pub proof fn lemma_dec_repr_value(n: nat)
    ensures
        digits_value(dec_repr(n)) == n,
    decreases n,
{
    if n < 10 {
        assert(dec_repr(n) =~= Seq::empty().push(digit_char(n)));
        lemma_digits_value_push(Seq::empty(), digit_char(n));
    } else {
        lemma_dec_repr_value(n / 10);
        lemma_digits_value_push(dec_repr(n / 10), digit_char(n % 10));
    }
}

/// A canonical representation is a nonempty string of digits.
pub proof fn lemma_dec_repr_digits(n: nat)
    ensures
        dec_repr(n).len() >= 1,
        all_digits(dec_repr(n)),
    decreases n,
{
    if n >= 10 {
        lemma_dec_repr_digits(n / 10);
        assert forall|i: int| 0 <= i < dec_repr(n).len() implies is_digit(
            #[trigger] dec_repr(n)[i],
        ) by {
            if i < dec_repr(n / 10).len() {
                assert(dec_repr(n)[i] == dec_repr(n / 10)[i]);
            }
        }
    }
}

} // verus!
