//! Splitting text into tokens and into blank-line-delimited blocks.
//!
//! Tokens are maximal runs of non-separator characters; the separator is one
//! of three classes (`Sep`). Blocks are delimited by the two-character
//! sequence of a newline followed by a newline.

use vstd::prelude::*;

use crate::chars::is_space;
use crate::chars::is_space_char;
use vstd::string::StrSliceExecFns;

verus! {

/// The separator classes the two solvers split on.
#[derive(Clone, Copy, PartialEq, Eq, Structural, Debug)]
pub enum Sep {
    /// Any Unicode white-space character.
    Whitespace,
    /// A single space.
    Space,
    /// A line break.
    Newline,
}

/// Whether `c` separates tokens under the class `k`.
pub open spec fn is_sep_char(k: Sep, c: char) -> bool {
    match k {
        Sep::Whitespace => is_space_char(c),
        Sep::Space => c == ' ',
        Sep::Newline => c == '\n',
    }
}

/// Decides `is_sep_char`.
pub fn is_sep(k: Sep, c: char) -> (r: bool)
    ensures
        r == is_sep_char(k, c),
{
    match k {
        Sep::Whitespace => is_space(c),
        Sep::Space => c == ' ',
        Sep::Newline => c == '\n',
    }
}

/// The length of the token at the front of `s`: the number of characters
/// before the first separator (zero if `s` starts with a separator).
pub open spec fn tok_len(k: Sep, s: Seq<char>) -> nat
    decreases s.len(),
{
    if s.len() == 0 || is_sep_char(k, s[0]) {
        0
    } else {
        1 + tok_len(k, s.drop_first())
    }
}

pub proof fn lemma_tok_len_le(k: Sep, s: Seq<char>)
    ensures
        tok_len(k, s) <= s.len(),
    decreases s.len(),
{
    if s.len() > 0 && !is_sep_char(k, s[0]) {
        lemma_tok_len_le(k, s.drop_first());
    }
}

/// `tok_len` is the position of the first separator (or the whole length).
pub proof fn lemma_tok_len_is(k: Sep, s: Seq<char>, n: int)
    requires
        0 <= n <= s.len(),
        forall|j: int| 0 <= j < n ==> !is_sep_char(k, s[j]),
        n == s.len() || is_sep_char(k, s[n]),
    ensures
        tok_len(k, s) == n,
    decreases n,
{
    if s.len() == 0 {
    } else if is_sep_char(k, s[0]) {
        assert(n == 0);
    } else {
        assert(n >= 1);
        let t = s.drop_first();
        assert forall|j: int| 0 <= j < n - 1 implies !is_sep_char(k, t[j]) by {
            assert(t[j] == s[j + 1]);
        }
        if n < s.len() {
            assert(t[n - 1] == s[n]);
        }
        lemma_tok_len_is(k, t, n - 1);
    }
}

/// The sequence of tokens of `s` under the separator class `k`: maximal
/// non-empty runs of non-separator characters, in order. This is what
/// splitting on the separator and discarding empty pieces yields.
pub open spec fn split_tokens(k: Sep, s: Seq<char>) -> Seq<Seq<char>>
    decreases s.len(),
{
    if s.len() == 0 {
        Seq::empty()
    } else if is_sep_char(k, s[0]) {
        split_tokens(k, s.drop_first())
    } else {
        proof {
            lemma_tok_len_le(k, s);
        }
        seq![s.take(tok_len(k, s) as int)] + split_tokens(k, s.skip(tok_len(k, s) as int))
    }
}

/// Drops leading separators; the token sequence is unchanged.
fn skip_seps<'a>(k: Sep, s: &'a str) -> (r: &'a str)
    ensures
        split_tokens(k, r@) == split_tokens(k, s@),
        r@.len() == 0 || !is_sep_char(k, r@[0]),
{
    let mut cur: &'a str = s;
    loop
        invariant
            split_tokens(k, cur@) == split_tokens(k, s@),
        decreases cur@.len(),
    {
        let n = cur.unicode_len();
        if n == 0 {
            return cur;
        }
        if !is_sep(k, cur.get_char(0)) {
            return cur;
        }
        let next = cur.substring_char(1, n);
        proof {
            assert(next@ =~= cur@.drop_first());
        }
        cur = next;
    }
}

/// The number of characters at the front of `s` before the first separator.
fn scan_token_len(k: Sep, s: &str) -> (j: usize)
    ensures
        j == tok_len(k, s@),
{
    let n = s.unicode_len();
    let mut j: usize = 0;
    loop
        invariant
            j <= n,
            n == s@.len(),
            forall|m: int| 0 <= m < j ==> !is_sep_char(k, s@[m]),
        decreases n - j,
    {
        if j == n {
            proof {
                lemma_tok_len_is(k, s@, j as int);
            }
            return j;
        }
        if is_sep(k, s.get_char(j)) {
            proof {
                lemma_tok_len_is(k, s@, j as int);
            }
            return j;
        }
        j = j + 1;
    }
}

/// Takes the first token of `s` off the front, with the remainder, or
/// `None` when `s` holds no token.
pub fn next_token<'a>(k: Sep, s: &'a str) -> (r: Option<(&'a str, &'a str)>)
    ensures
        match r {
            None => split_tokens(k, s@).len() == 0,
            Some(pair) => {
                &&& split_tokens(k, s@).len() >= 1
                &&& pair.0@ == split_tokens(k, s@)[0]
                &&& pair.0@.len() >= 1
                &&& split_tokens(k, pair.1@) == split_tokens(k, s@).drop_first()
            },
        },
{
    let cur = skip_seps(k, s);
    let n = cur.unicode_len();
    if n == 0 {
        return None;
    }
    let j = scan_token_len(k, cur);
    proof {
        lemma_tok_len_le(k, cur@);
    }
    let tok = cur.substring_char(0, j);
    let rest = cur.substring_char(j, n);
    proof {
        assert(tok@ =~= cur@.take(j as int));
        assert(rest@ =~= cur@.skip(j as int));
        assert(split_tokens(k, cur@) =~= seq![tok@] + split_tokens(k, rest@));
        assert(split_tokens(k, cur@)[0] == tok@);
        assert(split_tokens(k, cur@).drop_first() =~= split_tokens(k, rest@));
    }
    Some((tok, rest))
}

/// The position of the first blank-line separator (a newline followed by a
/// newline) in `s`, or `-1` when there is none.
pub open spec fn blank_pos(s: Seq<char>) -> int
    decreases s.len(),
{
    if s.len() < 2 {
        -1
    } else if s[0] == '\n' && s[1] == '\n' {
        0
    } else {
        let p = blank_pos(s.drop_first());
        if p < 0 {
            -1
        } else {
            p + 1
        }
    }
}

pub proof fn lemma_blank_pos_bounds(s: Seq<char>)
    ensures
        blank_pos(s) == -1 || (0 <= blank_pos(s) && blank_pos(s) + 2 <= s.len()),
    decreases s.len(),
{
    if s.len() >= 2 && !(s[0] == '\n' && s[1] == '\n') {
        lemma_blank_pos_bounds(s.drop_first());
    }
}

/// `blank_pos` is the position of the first newline pair.
pub proof fn lemma_blank_pos_is(s: Seq<char>, i: int)
    requires
        0 <= i,
        i + 2 <= s.len(),
        s[i] == '\n' && s[i + 1] == '\n',
        forall|j: int| 0 <= j < i ==> !((#[trigger] s[j]) == '\n' && s[j + 1] == '\n'),
    ensures
        blank_pos(s) == i,
    decreases i,
{
    if i > 0 {
        let t = s.drop_first();
        assert forall|j: int| 0 <= j < i - 1 implies !((#[trigger] t[j]) == '\n' && t[j + 1] == '\n') by {
            assert(t[j] == s[j + 1]);
            assert(t[j + 1] == s[j + 2]);
        }
        assert(t[i - 1] == s[i]);
        assert(t[i] == s[i + 1]);
        lemma_blank_pos_is(t, i - 1);
    }
}

/// When no newline pair occurs in `s`, `blank_pos` is `-1`.
pub proof fn lemma_blank_pos_none(s: Seq<char>)
    requires
        forall|j: int| 0 <= j && j + 2 <= s.len() ==> !((#[trigger] s[j]) == '\n' && s[j + 1] == '\n'),
    ensures
        blank_pos(s) == -1,
    decreases s.len(),
{
    if s.len() >= 2 {
        assert(!(s[0] == '\n' && s[1] == '\n'));
        let t = s.drop_first();
        assert forall|j: int| 0 <= j && j + 2 <= t.len() implies !((#[trigger] t[j]) == '\n'
            && t[j + 1] == '\n') by {
            assert(t[j] == s[j + 1]);
            assert(t[j + 1] == s[j + 2]);
        }
        lemma_blank_pos_none(t);
    }
}

/// The blank-line-delimited blocks of `s`, in order. Splitting never yields
/// an empty sequence: text without a separator is one block, even when it is
/// empty.
pub open spec fn blocks_of(s: Seq<char>) -> Seq<Seq<char>>
    decreases s.len(),
{
    let p = blank_pos(s);
    if p < 0 {
        seq![s]
    } else {
        proof {
            lemma_blank_pos_bounds(s);
        }
        seq![s.take(p)] + blocks_of(s.skip(p + 2))
    }
}

/// The position of the first newline pair of `s`, or `None`.
fn find_blank(s: &str) -> (r: Option<usize>)
    ensures
        match r {
            None => blank_pos(s@) == -1,
            Some(i) => blank_pos(s@) == i as int && i + 2 <= s@.len(),
        },
{
    let n = s.unicode_len();
    let mut i: usize = 0;
    loop
        invariant
            n == s@.len(),
            i <= n,
            forall|m: int| 0 <= m < i ==> !((#[trigger] s@[m]) == '\n' && s@[m + 1] == '\n'),
        decreases n - i,
    {
        if n < 2 || i >= n - 1 {
            proof {
                lemma_blank_pos_none(s@);
            }
            return None;
        }
        if s.get_char(i) == '\n' && s.get_char(i + 1) == '\n' {
            proof {
                lemma_blank_pos_is(s@, i as int);
            }
            return Some(i);
        }
        i = i + 1;
    }
}

/// Takes the first blank-line-delimited block off the front of `s`. The
/// second component is the remainder behind the separator, or `None` when
/// `s` holds no separator and is itself the last block.
pub fn next_block<'a>(s: &'a str) -> (r: (&'a str, Option<&'a str>))
    ensures
        match r.1 {
            None => blocks_of(s@) == seq![r.0@],
            Some(rest) => blocks_of(s@) == seq![r.0@] + blocks_of(rest@),
        },
{
    match find_blank(s) {
        None => {
            proof {
                assert(blocks_of(s@) =~= seq![s@]);
            }
            (s, None)
        },
        Some(i) => {
            let n = s.unicode_len();
            let block = s.substring_char(0, i);
            let rest = s.substring_char(i + 2, n);
            proof {
                assert(block@ =~= s@.take(i as int));
                assert(rest@ =~= s@.skip(i as int + 2));
                assert(blocks_of(s@) =~= seq![block@] + blocks_of(rest@));
            }
            (block, Some(rest))
        },
    }
}

} // verus!
