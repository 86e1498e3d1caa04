//! Parsing decimal tokens as `u32`, the way `str::parse::<u32>` does: an
//! optional leading plus sign, then one or more ASCII digits, and the value
//! must fit.

use vstd::prelude::*;

use crate::chars::digit_of;
use crate::chars::digit_value;
use crate::chars::is_digit;
use crate::chars::is_digit_char;
use vstd::string::StrSliceExecFns;

verus! {

/// The value of a sequence of decimal digits, most significant first.
pub open spec fn digits_val(d: Seq<char>) -> nat
    decreases d.len(),
{
    if d.len() == 0 {
        0
    } else {
        digits_val(d.drop_last()) * 10 + digit_value(d.last())
    }
}

/// Whether every character of `d` is an ASCII digit.
pub open spec fn all_digits(d: Seq<char>) -> bool {
    forall|i: int| 0 <= i < d.len() ==> is_digit_char(#[trigger] d[i])
}

/// The digit part of a numeric token: everything behind an optional leading
/// plus sign.
pub open spec fn digits_part(t: Seq<char>) -> Seq<char> {
    if t.len() > 0 && t[0] == '+' {
        t.drop_first()
    } else {
        t
    }
}

/// Whether the token `t` parses as a `u32`: at least one digit, digits only,
/// and a value no greater than `u32::MAX`.
pub open spec fn parses_as_u32(t: Seq<char>) -> bool {
    let d = digits_part(t);
    d.len() > 0 && all_digits(d) && digits_val(d) <= u32::MAX as nat
}

/// The value of the token `t`; tokens that do not parse count as zero.
pub open spec fn token_value(t: Seq<char>) -> nat {
    if parses_as_u32(t) {
        digits_val(digits_part(t))
    } else {
        0
    }
}

/// The value of a digit sequence grows (weakly) with its length.
pub proof fn lemma_digits_val_prefix_le(d: Seq<char>, i: int, j: int)
    requires
        0 <= i <= j <= d.len(),
    ensures
        digits_val(d.take(i)) <= digits_val(d.take(j)),
    decreases j - i,
{
    if i < j {
        lemma_digits_val_prefix_le(d, i, j - 1);
        assert(d.take(j).drop_last() =~= d.take(j - 1));
        let prev = digits_val(d.take(j - 1));
        assert(prev * 10 >= prev) by (nonlinear_arith);
    }
}

/// Parses `t` as a `u32`, returning `None` exactly when `t` is not an
/// optionally signed sequence of digits whose value fits.
pub fn parse_u32(t: &str) -> (r: Option<u32>)
    ensures
        match r {
            Some(v) => parses_as_u32(t@) && v as nat == token_value(t@),
            None => !parses_as_u32(t@),
        },
{
    let n = t.unicode_len();
    let start: usize = if n > 0 && t.get_char(0) == '+' {
        1
    } else {
        0
    };
    let ghost d = digits_part(t@);
    proof {
        assert(d =~= t@.skip(start as int));
    }
    if start >= n {
        return None;
    }
    let mut acc: u32 = 0;
    let mut i: usize = start;
    loop
        invariant
            start < n,
            start <= i <= n,
            n == t@.len(),
            d == t@.skip(start as int),
            d == digits_part(t@),
            all_digits(d.take(i as int - start as int)),
            acc as nat == digits_val(d.take(i as int - start as int)),
        decreases n - i,
    {
        if i == n {
            proof {
                assert(d.take(i as int - start as int) =~= d);
            }
            return Some(acc);
        }
        let c = t.get_char(i);
        proof {
            assert(d[i as int - start as int] == t@[i as int]);
        }
        if !is_digit(c) {
            return None;
        }
        let dv = digit_of(c);
        let wide: u64 = acc as u64 * 10 + dv as u64;
        proof {
            assert(d.take(i as int - start as int + 1).drop_last() =~= d.take(
                i as int - start as int,
            ));
        }
        if wide > u32::MAX as u64 {
            proof {
                lemma_digits_val_prefix_le(d, i as int - start as int + 1, d.len() as int);
                assert(d.take(d.len() as int) =~= d);
            }
            return None;
        }
        acc = wide as u32;
        i = i + 1;
    }
}

} // verus!
