//! Resolution of neighbour coordinates that fall outside an image axis.
//!
//! The policy is mirror reflection that does not repeat the edge sample: on an
//! axis of `len` samples the index `-1` stands for `1`, `-2` for `2`, `len` for
//! `len - 2`, and so on, with period `2 * (len - 1)`.
use vstd::arithmetic::div_mod::{
    lemma_fundamental_div_mod, lemma_fundamental_div_mod_converse, lemma_mod_bound,
    lemma_small_mod,
};
use vstd::prelude::*;

verus! {

/// The in-range index whose sample stands for `index` on an axis of `len`
/// samples.
pub open spec fn reflect_101(index: int, len: int) -> int {
    if len <= 1 {
        0
    } else {
        let period: int = 2 * (len - 1);
        let phase: int = index % period;
        if phase < len {
            phase
        } else {
            period - phase
        }
    }
}

/// One mirror step: an index left of the axis is mirrored about the first
/// sample, an index right of it about the last one.
pub open spec fn mirror_once(index: int, len: int) -> int {
    if index < 0 {
        -index
    } else if index >= len {
        2 * (len - 1) - index
    } else {
        index
    }
}

/// A reflected index always names a sample of the axis.
pub proof fn lemma_reflect_101_in_range(index: int, len: int)
    requires
        len >= 1,
    ensures
        0 <= reflect_101(index, len) < len,
{
    if len > 1 {
        lemma_mod_bound(index, 2 * (len - 1));
    }
}

/// Within one axis length of either edge the reflection is a single mirror
/// step: in-range indices stay, `-d` maps to `d`, and `len - 1 + d` maps to
/// `len - 1 - d`.
pub proof fn lemma_reflect_101_near_edges(index: int, len: int)
    requires
        len >= 1,
        -len < index < 2 * len - 1,
    ensures
        reflect_101(index, len) == mirror_once(index, len),
{
    if len > 1 {
        let period: int = 2 * (len - 1);
        if index >= period {
            lemma_fundamental_div_mod_converse(index, period, 1, 0);
        } else if index >= 0 {
            lemma_small_mod(index as nat, period as nat);
        } else {
            lemma_fundamental_div_mod_converse(index, period, -1, period + index);
        }
    }
}

/// Mirroring about the first sample changes nothing: `-index` and `index`
/// resolve to the same sample.
pub proof fn lemma_reflect_101_symmetric(index: int, len: int)
    requires
        len >= 1,
    ensures
        reflect_101(-index, len) == reflect_101(index, len),
{
    if len > 1 {
        let period: int = 2 * (len - 1);
        let q: int = index / period;
        let phase: int = index % period;
        lemma_fundamental_div_mod(index, period);
        lemma_mod_bound(index, period);
        if phase == 0 {
            assert(-index == period * (-q)) by (nonlinear_arith)
                requires
                    index == period * q,
            ;
            lemma_fundamental_div_mod_converse(-index, period, -q, 0);
        } else {
            assert(-index == (-q - 1) * period + (period - phase)) by (nonlinear_arith)
                requires
                    index == period * q + phase,
            ;
            lemma_fundamental_div_mod_converse(-index, period, -q - 1, period - phase);
        }
    }
}

/// The reflection repeats with period `2 * (len - 1)`.
pub proof fn lemma_reflect_101_periodic(index: int, len: int, turns: int)
    requires
        len >= 1,
    ensures
        reflect_101(index + turns * (2 * (len - 1)), len) == reflect_101(index, len),
{
    if len > 1 {
        let period: int = 2 * (len - 1);
        let q: int = index / period;
        let phase: int = index % period;
        lemma_fundamental_div_mod(index, period);
        lemma_mod_bound(index, period);
        assert(index + turns * period == (q + turns) * period + phase) by (nonlinear_arith)
            requires
                index == period * q + phase,
        ;
        lemma_fundamental_div_mod_converse(index + turns * period, period, q + turns, phase);
    }
}

/// Mirrors `index` into `0..len`. On an axis without samples there is
/// nothing to resolve to, and the answer is zero.
pub fn border(index: i128, len: usize) -> (resolved: usize)
    ensures
        resolved as int == reflect_101(index as int, len as int),
        len >= 1 ==> resolved < len,
{
    if len <= 1 {
        return 0;
    }
    let period: u128 = 2 * (len as u128 - 1);
    let phase: u128 = if index >= 0 {
        (index as u128) % period
    } else {
        let below: u128 = (-(index + 1)) as u128;
        let wrapped: u128 = below % period;
        proof {
            let p: int = period as int;
            let q: int = (below / period) as int;
            lemma_fundamental_div_mod(below as int, p);
            assert(p * q == q * p) by (nonlinear_arith);
            assert((-(q + 1)) * p == -(q * p) - p) by (nonlinear_arith);
            lemma_fundamental_div_mod_converse(index as int, p, -(q + 1), p - 1 - wrapped);
        }
        period - 1 - wrapped
    };
    proof {
        lemma_reflect_101_in_range(index as int, len as int);
    }
    if phase < len as u128 {
        phase as usize
    } else {
        (period - phase) as usize
    }
}

} // verus!
