//! Summing blank-line-delimited groups of numbers.
//!
//! The input is split into blocks at blank lines; each block's
//! whitespace-separated tokens are parsed as `u32`, tokens that do not parse
//! are skipped, and the parsed values are summed. The sums are reduced by
//! maximum and by the total of the three largest.

use vstd::prelude::*;

use crate::numbers::parse_u32;
use crate::numbers::token_value;
use crate::split::Sep;
use crate::split::blocks_of;
use crate::split::next_block;
use crate::split::next_token;
use crate::split::split_tokens;
use vstd::relations::sorted_by;
use vstd::relations::total_ordering;
use vstd::seq_lib::lemma_sorted_unique;

verus! {

/// The sum of the values of a sequence of tokens; tokens that do not parse
/// as `u32` count as zero.
pub open spec fn sum_tokens(ts: Seq<Seq<char>>) -> nat
    decreases ts.len(),
{
    if ts.len() == 0 {
        0
    } else {
        token_value(ts[0]) + sum_tokens(ts.drop_first())
    }
}

/// The sum of one block: the values of its whitespace-separated parseable
/// tokens, added up.
pub open spec fn block_sum(b: Seq<char>) -> nat {
    sum_tokens(split_tokens(Sep::Whitespace, b))
}

/// The group sums of the whole input: one per blank-line-delimited block, in
/// block order.
pub open spec fn group_sums(s: Seq<char>) -> Seq<nat> {
    blocks_of(s).map_values(|b: Seq<char>| block_sum(b))
}

/// Every blank-line-delimited block contributes exactly one sum, and that
/// sum is computed only from the parseable integer tokens of the block.
pub proof fn lemma_one_sum_per_block(s: Seq<char>)
    ensures
        group_sums(s).len() == blocks_of(s).len(),
        forall|i: int|
            0 <= i < blocks_of(s).len() ==> #[trigger] group_sums(s)[i] == block_sum(
                blocks_of(s)[i],
            ),
{
}

/// The maximum of a sequence of naturals; zero when the sequence is empty.
pub open spec fn seq_max(s: Seq<nat>) -> nat
    decreases s.len(),
{
    if s.len() == 0 {
        0
    } else {
        let m = seq_max(s.drop_last());
        if s.last() > m {
            s.last()
        } else {
            m
        }
    }
}

/// The sum of a sequence of naturals.
pub open spec fn sum_all(s: Seq<nat>) -> nat
    decreases s.len(),
{
    if s.len() == 0 {
        0
    } else {
        sum_all(s.drop_last()) + s.last()
    }
}

/// The order the sums are sorted by.
pub open spec fn nat_le(a: nat, b: nat) -> bool {
    a <= b
}

/// The sums, sorted into non-decreasing order.
pub open spec fn sorted_ascending(s: Seq<nat>) -> Seq<nat> {
    s.sort_by(|a: nat, b: nat| nat_le(a, b))
}

/// The total of the three largest sums: sort ascending, take the last three
/// (or all, when fewer than three exist), and add them up.
pub open spec fn top_three_total(s: Seq<nat>) -> nat {
    let t = sorted_ascending(s);
    if t.len() <= 3 {
        sum_all(t)
    } else {
        sum_all(t.skip(t.len() - 3))
    }
}

/// A sequence of `u32` values, read as naturals.
pub open spec fn to_nats(s: Seq<u32>) -> Seq<nat> {
    s.map_values(|x: u32| x as nat)
}

/// A prefix sums to no more than the whole.
pub proof fn lemma_sum_all_prefix_le(s: Seq<nat>, i: int)
    requires
        0 <= i <= s.len(),
    ensures
        sum_all(s.take(i)) <= sum_all(s),
    decreases s.len() - i,
{
    if i < s.len() {
        assert(s.take(i + 1).drop_last() =~= s.take(i));
        lemma_sum_all_prefix_le(s, i + 1);
    } else {
        assert(s.take(i) =~= s);
    }
}

/// The sum of one block, computed from its tokens.
fn block_sum_exec(b: &str) -> (r: u32)
    requires
        block_sum(b@) <= u32::MAX as nat,
    ensures
        r as nat == block_sum(b@),
{
    let mut acc: u32 = 0;
    let mut cur: &str = b;
    loop
        invariant
            acc as nat + sum_tokens(split_tokens(Sep::Whitespace, cur@)) == block_sum(b@),
            block_sum(b@) <= u32::MAX as nat,
        decreases split_tokens(Sep::Whitespace, cur@).len(),
    {
        match next_token(Sep::Whitespace, cur) {
            None => {
                return acc;
            },
            Some(pair) => {
                let (tok, rest) = pair;
                proof {
                    assert(sum_tokens(split_tokens(Sep::Whitespace, cur@)) == token_value(tok@)
                        + sum_tokens(split_tokens(Sep::Whitespace, rest@)));
                }
                match parse_u32(tok) {
                    Some(v) => {
                        acc = acc + v;
                    },
                    None => {
                    },
                }
                cur = rest;
            },
        }
    }
}

/// One sum per blank-line-delimited group of the input, in group order.
fn sum_all_elves(input: &str) -> (sums: Vec<u32>)
    requires
        forall|i: int|
            0 <= i < group_sums(input@).len() ==> #[trigger] group_sums(input@)[i]
                <= u32::MAX as nat,
    ensures
        sums@.len() == group_sums(input@).len(),
        forall|i: int|
            0 <= i < sums@.len() ==> #[trigger] sums@[i] as nat == group_sums(input@)[i],
{
    let mut sums: Vec<u32> = Vec::new();
    let mut cur: &str = input;
    loop
        invariant
            sums@.len() + blocks_of(cur@).len() == blocks_of(input@).len(),
            forall|i: int|
                0 <= i < sums@.len() ==> #[trigger] sums@[i] as nat == group_sums(input@)[i],
            forall|i: int|
                0 <= i < blocks_of(cur@).len() ==> #[trigger] blocks_of(cur@)[i] == blocks_of(
                    input@,
                )[sums@.len() + i],
            forall|i: int|
                0 <= i < group_sums(input@).len() ==> #[trigger] group_sums(input@)[i]
                    <= u32::MAX as nat,
        decreases blocks_of(cur@).len(),
    {
        let r = next_block(cur);
        let block = r.0;
        proof {
            assert(blocks_of(cur@)[0] == block@);
            assert(block_sum(block@) == group_sums(input@)[sums@.len() as int]);
        }
        let s = block_sum_exec(block);
        sums.push(s);
        match r.1 {
            None => {
                return sums;
            },
            Some(rest) => {
                proof {
                    assert forall|i: int|
                        0 <= i < blocks_of(rest@).len() implies #[trigger] blocks_of(rest@)[i]
                        == blocks_of(input@)[sums@.len() + i] by {
                        assert(blocks_of(cur@)[i + 1] == blocks_of(rest@)[i]);
                    }
                }
                cur = rest;
            },
        }
    }
}

/// Sorts the values into non-decreasing order by insertion; the collection
/// of values is unchanged.
fn sort_asc(src: &Vec<u32>) -> (out: Vec<u32>)
    ensures
        out@.len() == src@.len(),
        forall|i: int, j: int| 0 <= i <= j < out@.len() ==> out@[i] <= out@[j],
        to_nats(out@).to_multiset() == to_nats(src@).to_multiset(),
{
    broadcast use vstd::seq_lib::group_to_multiset_ensures;

    let mut out: Vec<u32> = Vec::new();
    let mut k: usize = 0;
    proof {
        assert(to_nats(src@.take(0)) =~= to_nats(out@));
    }
    while k < src.len()
        invariant
            k <= src@.len(),
            out@.len() == k,
            forall|i: int, j: int| 0 <= i <= j < out@.len() ==> out@[i] <= out@[j],
            to_nats(out@).to_multiset() == to_nats(src@.take(k as int)).to_multiset(),
        decreases src@.len() - k,
    {
        let x = src[k];
        let mut p: usize = 0;
        while p < out.len() && out[p] <= x
            invariant
                p <= out@.len(),
                forall|m: int| 0 <= m < p ==> out@[m] <= x,
            decreases out@.len() - p,
        {
            p = p + 1;
        }
        let ghost before = out@;
        out.insert(p, x);
        proof {
            assert(out@ =~= before.insert(p as int, x));
            assert(to_nats(out@) =~= to_nats(before).insert(p as int, x as nat));
            assert(to_nats(src@.take(k as int + 1)) =~= to_nats(src@.take(k as int)).push(
                x as nat,
            ));
            vstd::seq_lib::to_multiset_insert(to_nats(before), p as int, x as nat);
            vstd::seq_lib::to_multiset_build(to_nats(src@.take(k as int)), x as nat);
            assert(to_nats(out@).to_multiset() =~= to_nats(src@.take(k as int + 1)).to_multiset());
            assert forall|i: int, j: int| 0 <= i <= j < out@.len() implies out@[i] <= out@[j] by {
                if j < p {
                } else if i > p {
                } else if i == p || j == p {
                    if p < before.len() {
                        assert(!(before[p as int] <= x));
                    }
                }
            }
        }
        k = k + 1;
    }
    proof {
        assert(src@.take(src@.len() as int) =~= src@);
    }
    out
}

/// The greatest group sum of the input; zero when no group holds a value.
pub fn find_max_calories(input: &str) -> (r: u32)
    requires
        forall|i: int|
            0 <= i < group_sums(input@).len() ==> #[trigger] group_sums(input@)[i]
                <= u32::MAX as nat,
    ensures
        r as nat == seq_max(group_sums(input@)),
{
    let sums = sum_all_elves(input);
    let ghost g = group_sums(input@);
    let mut best: u32 = 0;
    let mut i: usize = 0;
    while i < sums.len()
        invariant
            i <= sums@.len(),
            sums@.len() == g.len(),
            forall|m: int| 0 <= m < sums@.len() ==> #[trigger] sums@[m] as nat == g[m],
            best as nat == seq_max(g.take(i as int)),
        decreases sums@.len() - i,
    {
        let v = sums[i];
        proof {
            assert(g.take(i as int + 1).drop_last() =~= g.take(i as int));
        }
        if v > best {
            best = v;
        }
        i = i + 1;
    }
    proof {
        assert(g.take(g.len() as int) =~= g);
    }
    best
}

/// The total of the three greatest group sums (or of all of them, when the
/// input holds fewer than three groups).
pub fn top_3_calories_total(input: &str) -> (r: u32)
    requires
        forall|i: int|
            0 <= i < group_sums(input@).len() ==> #[trigger] group_sums(input@)[i]
                <= u32::MAX as nat,
        top_three_total(group_sums(input@)) <= u32::MAX as nat,
    ensures
        r as nat == top_three_total(group_sums(input@)),
{
    let sums = sum_all_elves(input);
    let ghost g = group_sums(input@);
    proof {
        assert(to_nats(sums@) =~= g);
    }
    let sorted = sort_asc(&sums);
    let ghost t = sorted_ascending(g);
    proof {
        let leq = (|a: nat, b: nat| nat_le(a, b));
        assert(total_ordering(leq)) by {
            assert forall|a: nat, b: nat, c: nat| #[trigger]
                leq(a, b) && #[trigger] leq(b, c) implies leq(a, c) by {}
        }
        g.lemma_sort_by_ensures(leq);
        assert(sorted_by(to_nats(sorted@), leq));
        lemma_sorted_unique(to_nats(sorted@), t, leq);
        assert(to_nats(sorted@) == t);
    }
    let len = sorted.len();
    let start: usize = if len > 3 {
        len - 3
    } else {
        0
    };
    proof {
        if t.len() <= 3 {
            assert(t.skip(start as int) =~= t);
        }
        lemma_sum_all_prefix_le(t.skip(start as int), 0);
    }
    let mut total: u32 = 0;
    let mut i: usize = start;
    while i < len
        invariant
            start <= i <= len,
            len == sorted@.len(),
            t == to_nats(sorted@),
            start as int == (if t.len() <= 3 {
                0
            } else {
                t.len() - 3
            }),
            total as nat == sum_all(t.subrange(start as int, i as int)),
            sum_all(t.skip(start as int)) <= u32::MAX as nat,
        decreases len - i,
    {
        let v = sorted[i];
        proof {
            assert(t.subrange(start as int, i as int + 1).drop_last() =~= t.subrange(
                start as int,
                i as int,
            ));
            assert(t.subrange(start as int, i as int + 1) =~= t.skip(start as int).take(
                i as int + 1 - start as int,
            ));
            lemma_sum_all_prefix_le(t.skip(start as int), i as int + 1 - start as int);
        }
        total = total + v;
        i = i + 1;
    }
    proof {
        assert(t.subrange(start as int, len as int) =~= t.skip(start as int));
    }
    total
}

} // verus!
