//! Ordering of IEEE 754 double-precision values through their bit
//! patterns. The library never computes with floating point: callers
//! hand coordinates in as the `u64` bit pattern of the double (sign,
//! exponent, fraction), and the library compares and folds them under
//! the numeric order those patterns encode. `f_key` maps a pattern to
//! an integer that is monotone in the encoded value: negative values
//! (sign bit set) order below positive ones, and the two zeroes share
//! one key. NaN patterns are recognised and skipped by the folds, as
//! the minimum and maximum of the standard library skip them.

use vstd::prelude::*;

verus! {

/// The sign bit of a double's bit pattern.
pub const F64_SIGN: u64 = 0x8000_0000_0000_0000;

/// Bit pattern of positive infinity.
pub const F64_PINF: u64 = 0x7FF0_0000_0000_0000;

/// Bit pattern of negative infinity.
pub const F64_NINF: u64 = 0xFFF0_0000_0000_0000;

/// An integer key monotone in the double value the pattern encodes:
/// for a non-negative pattern `b` the key is `SIGN + b`; for a negative
/// one it is `2 * SIGN - b`, reversing the magnitude order. Both zero
/// patterns map to the key `SIGN`.
pub open spec fn f_key(b: u64) -> int {
    if b >= F64_SIGN {
        2 * (F64_SIGN as int) - b
    } else {
        F64_SIGN + b
    }
}

/// Whether the pattern encodes a NaN: exponent bits all set and a
/// non-zero fraction.
pub open spec fn f_is_nan(b: u64) -> bool {
    (b / 0x10_0000_0000_0000) % 0x800 == 0x7FF && b % 0x10_0000_0000_0000 != 0
}

/// Whether the pattern encodes a finite value: exponent bits not all
/// set (neither an infinity nor a NaN).
pub open spec fn f_is_finite(b: u64) -> bool {
    (b / 0x10_0000_0000_0000) % 0x800 != 0x7FF
}

pub fn f_is_finite_x(b: u64) -> (r: bool)
    ensures
        r == f_is_finite(b),
{
    (b / 0x10_0000_0000_0000) % 0x800 != 0x7FF
}

pub fn f_is_nan_x(b: u64) -> (r: bool)
    ensures
        r == f_is_nan(b),
{
    (b / 0x10_0000_0000_0000) % 0x800 == 0x7FF && b % 0x10_0000_0000_0000 != 0
}

/// Key comparison, computed without leaving `u64` arithmetic.
pub fn f_le(a: u64, b: u64) -> (r: bool)
    ensures
        r == (f_key(a) <= f_key(b)),
{
    let na = a >= F64_SIGN;
    let nb = b >= F64_SIGN;
    if na && nb {
        a >= b
    } else if !na && !nb {
        a <= b
    } else if na {
        true
    } else {
        a == 0 && b == F64_SIGN
    }
}

/// One step of the minimum fold: a NaN operand is skipped, otherwise
/// the operand replaces the accumulator when its key is strictly lower.
pub open spec fn min_step(acc: u64, x: u64) -> u64 {
    if f_is_nan(x) {
        acc
    } else if f_key(x) < f_key(acc) {
        x
    } else {
        acc
    }
}

pub open spec fn max_step(acc: u64, x: u64) -> u64 {
    if f_is_nan(x) {
        acc
    } else if f_key(x) > f_key(acc) {
        x
    } else {
        acc
    }
}

/// Left fold of `min_step` over the sequence, starting from positive
/// infinity, as folding the standard library's minimum does.
pub open spec fn fold_min(s: Seq<u64>) -> u64
    decreases s.len(),
{
    if s.len() == 0 {
        F64_PINF
    } else {
        min_step(fold_min(s.drop_last()), s.last())
    }
}

pub open spec fn fold_max(s: Seq<u64>) -> u64
    decreases s.len(),
{
    if s.len() == 0 {
        F64_NINF
    } else {
        max_step(fold_max(s.drop_last()), s.last())
    }
}

pub fn fold_min_x(s: &Vec<u64>) -> (r: u64)
    ensures
        r == fold_min(s@),
{
    let mut acc: u64 = F64_PINF;
    let mut i: usize = 0;
    while i < s.len()
        invariant
            i <= s@.len(),
            acc == fold_min(s@.take(i as int)),
        decreases s@.len() - i,
    {
        let x = s[i];
        if !f_is_nan_x(x) && !f_le(acc, x) {
            acc = x;
        }
        i = i + 1;
        proof {
            let t = s@.take(i as int);
            assert(t.drop_last() =~= s@.take(i - 1));
            assert(t.last() == s@[i - 1]);
        }
    }
    proof {
        assert(s@.take(s@.len() as int) =~= s@);
    }
    acc
}

pub fn fold_max_x(s: &Vec<u64>) -> (r: u64)
    ensures
        r == fold_max(s@),
{
    let mut acc: u64 = F64_NINF;
    let mut i: usize = 0;
    while i < s.len()
        invariant
            i <= s@.len(),
            acc == fold_max(s@.take(i as int)),
        decreases s@.len() - i,
    {
        let x = s[i];
        if !f_is_nan_x(x) && !f_le(x, acc) {
            acc = x;
        }
        i = i + 1;
        proof {
            let t = s@.take(i as int);
            assert(t.drop_last() =~= s@.take(i - 1));
            assert(t.last() == s@[i - 1]);
        }
    }
    proof {
        assert(s@.take(s@.len() as int) =~= s@);
    }
    acc
}

/// The fold result bounds every non-NaN element from below.
pub proof fn lemma_fold_min_bounds(s: Seq<u64>)
    ensures
        forall|k: int|
            0 <= k < s.len() && !f_is_nan(s[k]) ==> f_key(fold_min(s)) <= f_key(#[trigger] s[k]),
    decreases s.len(),
{
    if s.len() > 0 {
        lemma_fold_min_bounds(s.drop_last());
        assert forall|k: int|
            0 <= k < s.len() && !f_is_nan(s[k]) implies f_key(fold_min(s)) <= f_key(
            #[trigger] s[k],
        ) by {
            if k < s.len() - 1 {
                assert(s.drop_last()[k] == s[k]);
            }
        }
    }
}

/// The fold result bounds every non-NaN element from above.
pub proof fn lemma_fold_max_bounds(s: Seq<u64>)
    ensures
        forall|k: int|
            0 <= k < s.len() && !f_is_nan(s[k]) ==> f_key(#[trigger] s[k]) <= f_key(fold_max(s)),
    decreases s.len(),
{
    if s.len() > 0 {
        lemma_fold_max_bounds(s.drop_last());
        assert forall|k: int|
            0 <= k < s.len() && !f_is_nan(s[k]) implies f_key(#[trigger] s[k]) <= f_key(
            fold_max(s),
        ) by {
            if k < s.len() - 1 {
                assert(s.drop_last()[k] == s[k]);
            }
        }
    }
}

} // verus!
