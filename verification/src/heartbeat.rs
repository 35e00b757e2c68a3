//! Encoding and decoding of the heartbeat marker file's contents.
//!
//! The marker records the last observed activity as a plain-text decimal Unix
//! timestamp (content-based freshness strategy). Reading the file and writing
//! it back are I/O and live outside this crate; the two functions here turn
//! the file's text into a timestamp and a timestamp into the text to write.

use crate::chars::{
    all_digits, dec_repr, digit_char, digit_val, digits_value, is_digit, lemma_dec_repr_digits,
    lemma_dec_repr_value, lemma_digits_value_prefix_le, lemma_digits_value_push,
};
use crate::errors::WatchdogError;
use vstd::prelude::*;

verus! {

/// Marker contents are well formed when they are a nonempty run of decimal
/// digits (no sign, no surrounding whitespace, no other text).
pub open spec fn valid_marker(s: Seq<char>) -> bool {
    s.len() >= 1 && all_digits(s)
}

/// Parse the marker file's contents as a Unix timestamp in seconds.
///
/// Succeeds exactly on a nonempty all-digit string whose value fits `u64`,
/// and then returns that value; anything else is a parse failure.
pub fn parse_heartbeat(contents: &str) -> (r: Result<u64, WatchdogError>)
    ensures
        r is Ok <==> valid_marker(contents@) && digits_value(contents@) <= u64::MAX,
        r matches Ok(v) ==> v == digits_value(contents@),
        r is Err ==> r == Err::<u64, WatchdogError>(WatchdogError::ParseError),
{
    let ghost s = contents@;
    let n = contents.unicode_len();
    if n == 0 {
        return Err(WatchdogError::ParseError);
    }
    let mut acc: u64 = 0;
    let mut i: usize = 0;
    while i < n
        invariant
            s == contents@,
            n == s.len(),
            0 <= i <= n,
            all_digits(s.take(i as int)),
            acc == digits_value(s.take(i as int)),
        decreases n - i,
    {
        let c = contents.get_char(i);
        let code = c as u32;
        if code < 48 || code > 57 {
            assert(!is_digit(s[i as int]));
            return Err(WatchdogError::ParseError);
        }
        let d = (code - 48) as u64;
        proof {
            assert(is_digit(s[i as int]));
            assert(d == digit_val(s[i as int]));
            lemma_digits_value_push(s.take(i as int), s[i as int]);
            assert(s.take(i + 1) =~= s.take(i as int).push(s[i as int]));
        }
        let shifted = match acc.checked_mul(10) {
            Some(v) => v,
            None => {
                proof {
                    lemma_digits_value_prefix_le(s, i + 1);
                }
                return Err(WatchdogError::ParseError);
            },
        };
        acc = match shifted.checked_add(d) {
            Some(v) => v,
            None => {
                proof {
                    lemma_digits_value_prefix_le(s, i + 1);
                }
                return Err(WatchdogError::ParseError);
            },
        };
        i = i + 1;
    }
    proof {
        assert(s.take(n as int) =~= s);
    }
    Ok(acc)
}

/// Render a timestamp as the text to write into the marker file: its
/// canonical decimal representation.
pub fn render_heartbeat(secs: u64) -> (r: String)
    ensures
        r@ == dec_repr(secs as nat),
    decreases secs,
{
    let digits = "0123456789";
    proof {
        reveal_strlit("0123456789");
    }
    let d = (secs % 10) as usize;
    let ds = digits.substring_ascii(d, d + 1);
    proof {
        assert(ds@ =~= seq![digit_char((secs % 10) as nat)]);
    }
    if secs < 10 {
        ds.to_owned()
    } else {
        let mut front = render_heartbeat(secs / 10);
        front.append(ds);
        proof {
            assert(front@ =~= dec_repr(secs as nat));
        }
        front
    }
}

/// A rendered timestamp always reads back as the same timestamp: the marker
/// the watchdog writes after a failed read is well formed, and a later cycle
/// parses it to exactly the seconds value that was written.
pub proof fn lemma_marker_round_trip(secs: u64)
    ensures
        valid_marker(dec_repr(secs as nat)),
        digits_value(dec_repr(secs as nat)) == secs,
{
    lemma_dec_repr_digits(secs as nat);
    lemma_dec_repr_value(secs as nat);
}

} // verus!
