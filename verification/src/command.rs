//! Splitting the configured shutdown command string into a program name and
//! its arguments: a literal whitespace split, with no shell quoting or
//! escaping. Launching the resulting program is I/O and lives outside this
//! crate.

use crate::chars::is_space;
use vstd::prelude::*;

verus! {

/// Length of the maximal leading run of non-space characters.
pub open spec fn token_len(s: Seq<char>) -> nat
    decreases s.len(),
{
    if s.len() > 0 && !is_space(s[0]) {
        1 + token_len(s.drop_first())
    } else {
        0
    }
}

/// The leading token is never longer than the string.
pub proof fn lemma_token_len_le(s: Seq<char>)
    ensures
        token_len(s) <= s.len(),
    decreases s.len(),
{
    if s.len() > 0 && !is_space(s[0]) {
        lemma_token_len_le(s.drop_first());
    }
}

/// The whitespace-separated tokens of `s`, in order.
pub open spec fn split_ws(s: Seq<char>) -> Seq<Seq<char>>
    decreases s.len(),
    via split_ws_decreases
{
    if s.len() == 0 {
        Seq::empty()
    } else if is_space(s[0]) {
        split_ws(s.drop_first())
    } else {
        seq![s.take(token_len(s) as int)] + split_ws(s.skip(token_len(s) as int))
    }
}

#[via_fn]
proof fn split_ws_decreases(s: Seq<char>) {
    if s.len() > 0 && !is_space(s[0]) {
        lemma_token_len_le(s);
    }
}

/// A parsed shutdown command: the program to run and its arguments.
#[derive(Debug)]
pub struct CommandLine {
    pub program: String,
    pub args: Vec<String>,
}

impl View for CommandLine {
    type V = Seq<Seq<char>>;

    /// A command line is modelled as its token list: the program followed by
    /// the arguments.
    open spec fn view(&self) -> Seq<Seq<char>> {
        seq![self.program@] + self.args@.map_values(|a: String| a@)
    }
}

/// Skipping a leading space does not change the token list.
proof fn lemma_split_ws_space(s: Seq<char>, i: int)
    requires
        0 <= i < s.len(),
        is_space(s[i]),
    ensures
        split_ws(s.skip(i)) == split_ws(s.skip(i + 1)),
{
    assert(s.skip(i).drop_first() =~= s.skip(i + 1));
}

/// A maximal run of non-spaces starting at `i` and ending before `j` is the
/// leading token of the suffix at `i`.
proof fn lemma_token_len_at(s: Seq<char>, i: int, j: int)
    requires
        0 <= i < j <= s.len(),
        forall|k: int| i <= k < j ==> !is_space(#[trigger] s[k]),
        j == s.len() || is_space(s[j]),
    ensures
        token_len(s.skip(i)) == j - i,
    decreases j - i,
{
    assert(s.skip(i)[0] == s[i]);
    assert(!is_space(s.skip(i)[0]));
    if i + 1 < j {
        lemma_token_len_at(s, i + 1, j);
    } else {
        if j < s.len() {
            assert(s.skip(j)[0] == s[j]);
            assert(token_len(s.skip(j)) == 0);
        } else {
            assert(s.skip(j).len() == 0);
            assert(token_len(s.skip(j)) == 0);
        }
    }
    assert(s.skip(i).drop_first() =~= s.skip(i + 1));
}

/// Under the same conditions, that token is the first of the token list, and
/// the rest of the list comes from the suffix after it.
proof fn lemma_split_ws_token(s: Seq<char>, i: int, j: int)
    requires
        0 <= i < j <= s.len(),
        forall|k: int| i <= k < j ==> !is_space(#[trigger] s[k]),
        j == s.len() || is_space(s[j]),
    ensures
        split_ws(s.skip(i)) == seq![s.subrange(i, j)] + split_ws(s.skip(j)),
{
    lemma_token_len_at(s, i, j);
    assert(!is_space(s.skip(i)[0]));
    assert(s.skip(i).take(j - i) =~= s.subrange(i, j));
    assert(s.skip(i).skip(j - i) =~= s.skip(j));
}

/// A string has no tokens exactly when every character in it is whitespace;
/// in particular the empty string has none. An all-whitespace or empty
/// shutdown command therefore yields no runnable command.
pub proof fn lemma_split_ws_empty(s: Seq<char>)
    ensures
        split_ws(s).len() == 0 <==> (forall|i: int| 0 <= i < s.len() ==> is_space(#[trigger] s[i])),
    decreases s.len(),
{
    if s.len() > 0 {
        if is_space(s[0]) {
            let s1 = s.drop_first();
            lemma_split_ws_empty(s1);
            if forall|i: int| 0 <= i < s1.len() ==> is_space(#[trigger] s1[i]) {
                assert forall|i: int| 0 <= i < s.len() implies is_space(#[trigger] s[i]) by {
                    if i >= 1 {
                        assert(is_space(s1[i - 1]));
                    }
                }
            } else {
                let k = choose|k: int| 0 <= k < s1.len() && !is_space(s1[k]);
                assert(s[k + 1] == s1[k]);
                assert(!is_space(s[k + 1]));
            }
        } else {
            assert(!is_space(s[0]));
            assert(split_ws(s).len() > 0);
        }
    }
}

/// Whether `c` is in the tolerated whitespace set.
fn is_space_char(c: char) -> (b: bool)
    ensures
        b == is_space(c),
{
    c == ' ' || c == '\t' || c == '\n' || c == '\r' || c == '\x0c'
}

/// Split the shutdown command string on whitespace.
///
/// Returns the program and argument tokens, in order, exactly when the
/// string holds at least one non-space character; on an empty or
/// all-whitespace string there is no runnable command and `None` is
/// returned, so that no process is ever launched from such a string.
pub fn parse_command(input: &str) -> (r: Option<CommandLine>)
    ensures
        r is Some <==> split_ws(input@).len() > 0,
        r matches Some(c) ==> c@ == split_ws(input@),
{
    let ghost s = input@;
    let n = input.unicode_len();
    let mut tokens: Vec<String> = Vec::new();
    let mut i: usize = 0;
    proof {
        assert(s.skip(0) =~= s);
        assert(tokens@.map_values(|a: String| a@) + split_ws(s.skip(0)) =~= split_ws(s));
    }
    while i < n
        invariant
            s == input@,
            n == s.len(),
            0 <= i <= n,
            split_ws(s) == tokens@.map_values(|a: String| a@) + split_ws(s.skip(i as int)),
        decreases n - i,
    {
        let c = input.get_char(i);
        if is_space_char(c) {
            proof {
                lemma_split_ws_space(s, i as int);
            }
            i = i + 1;
        } else {
            let mut j: usize = i + 1;
            while j < n && !is_space_char(input.get_char(j))
                invariant
                    s == input@,
                    n == s.len(),
                    0 <= i < j <= n,
                    forall|k: int| i <= k < j ==> !is_space(#[trigger] s[k]),
                decreases n - j,
            {
                j = j + 1;
            }
            let tok = input.substring_char(i, j);
            proof {
                lemma_split_ws_token(s, i as int, j as int);
            }
            let ghost old_tokens = tokens@;
            tokens.push(tok.to_owned());
            proof {
                assert(tokens@.map_values(|a: String| a@) =~= old_tokens.map_values(
                    |a: String| a@,
                ) + seq![s.subrange(i as int, j as int)]);
            }
            i = j;
        }
    }
    proof {
        assert(s.skip(n as int) =~= Seq::<char>::empty());
        assert(split_ws(s) =~= tokens@.map_values(|a: String| a@));
    }
    if tokens.len() == 0 {
        None
    } else {
        let program = tokens.remove(0);
        let ghost all = seq![program@] + tokens@.map_values(|a: String| a@);
        proof {
            assert(all =~= split_ws(s));
        }
        Some(CommandLine { program, args: tokens })
    }
}

} // verus!
