//! From an exact rational sum to a storable 8-bit sample.
//!
//! A weighted sum arrives as a numerator over the kernel's divisor. It is
//! rounded to the nearest integer, halves going away from zero, and then
//! saturated into `0..=255`.
use vstd::prelude::*;

verus! {

/// The integer nearest to `num / den`, with ties rounded away from zero.
pub open spec fn round_half_away(num: int, den: int) -> int
    recommends
        den >= 1,
{
    if num >= 0 {
        (2 * num + den) / (2 * den)
    } else {
        -((2 * (-num) + den) / (2 * den))
    }
}

/// `value` limited to the range of an 8-bit sample.
pub open spec fn saturate(value: int) -> u8 {
    if value <= 0 {
        0u8
    } else if value >= 255 {
        255u8
    } else {
        value as u8
    }
}

/// The sample stored for the exact value `num / den`.
pub open spec fn quantize(num: int, den: int) -> u8
    recommends
        den >= 1,
{
    saturate(round_half_away(num, den))
}

/// Rounding is exact on integers: a numerator that is a multiple of the
/// denominator rounds to the quotient.
pub proof fn lemma_round_exact(value: int, den: int)
    requires
        den >= 1,
    ensures
        round_half_away(value * den, den) == value,
{
    if value >= 0 {
        assert(value * den >= 0) by (nonlinear_arith)
            requires
                value >= 0,
                den >= 1,
        ;
        assert(2 * (value * den) + den == value * (2 * den) + den) by (nonlinear_arith);
        vstd::arithmetic::div_mod::lemma_fundamental_div_mod_converse(
            2 * (value * den) + den,
            2 * den,
            value,
            den,
        );
    } else {
        assert(value * den < 0) by (nonlinear_arith)
            requires
                value < 0,
                den >= 1,
        ;
        assert(2 * (-(value * den)) + den == (-value) * (2 * den) + den) by (nonlinear_arith);
        vstd::arithmetic::div_mod::lemma_fundamental_div_mod_converse(
            2 * (-(value * den)) + den,
            2 * den,
            -value,
            den,
        );
    }
}

/// The rounded value lies within half a unit of the exact one:
/// `|2 * den * round - 2 * num| <= den`.
pub proof fn lemma_round_is_nearest(num: int, den: int)
    requires
        den >= 1,
    ensures
        -den <= 2 * den * round_half_away(num, den) - 2 * num <= den,
        num >= 0 ==> round_half_away(num, den) >= 0,
        num <= 0 ==> round_half_away(num, den) <= 0,
{
    let magnitude: int = if num >= 0 {
        num
    } else {
        -num
    };
    let shifted: int = 2 * magnitude + den;
    let q: int = shifted / (2 * den);
    vstd::arithmetic::div_mod::lemma_fundamental_div_mod(shifted, 2 * den);
    vstd::arithmetic::div_mod::lemma_mod_bound(shifted, 2 * den);
    vstd::arithmetic::div_mod::lemma_div_pos_is_pos(shifted, 2 * den);
    assert(2 * den * q == (2 * den) * q) by (nonlinear_arith);
    if num < 0 {
        assert(2 * den * (-q) == -((2 * den) * q)) by (nonlinear_arith);
    }
    if num == 0 {
        assert(q <= 0) by (nonlinear_arith)
            requires
                (2 * den) * q <= den,
                den >= 1,
        ;
    }
}

/// Which exact values are stored as a given sample: zero stands for
/// everything below one half, 255 for everything from 254.5 upwards, and any
/// other sample `s` for the values from `s - 1/2` up to, but not including,
/// `s + 1/2`.
pub proof fn lemma_quantize_characterized(num: int, den: int, sample: u8)
    requires
        den >= 1,
    ensures
        quantize(num, den) == sample <==> if sample == 0 {
            2 * num < den
        } else if sample == 255 {
            2 * num >= 509 * den
        } else {
            (2 * sample - 1) * den <= 2 * num < (2 * sample + 1) * den
        },
{
    lemma_round_is_nearest(num, den);
    let r: int = round_half_away(num, den);
    if num >= 0 {
        let shifted: int = 2 * num + den;
        vstd::arithmetic::div_mod::lemma_fundamental_div_mod(shifted, 2 * den);
        vstd::arithmetic::div_mod::lemma_mod_bound(shifted, 2 * den);
        let rem: int = shifted % (2 * den);
        let s: int = sample as int;
        assert(shifted == 2 * den * r + rem);
        assert(2 * den * r == 2 * r * den && 2 * den * (r + 1) == (2 * r + 2) * den) by (nonlinear_arith);
        assert((2 * r - 1) * den == 2 * r * den - den && (2 * r + 1) * den == 2 * r * den + den)
            by (nonlinear_arith);
        // r is the only integer with (2r - 1) * den <= 2 * num < (2r + 1) * den
        assert(r <= 0 <==> 2 * num < den) by (nonlinear_arith)
            requires
                (2 * r - 1) * den <= 2 * num < (2 * r + 1) * den,
                den >= 1,
        ;
        assert(r >= 255 <==> 2 * num >= 509 * den) by (nonlinear_arith)
            requires
                (2 * r - 1) * den <= 2 * num < (2 * r + 1) * den,
                den >= 1,
        ;
        assert(r == s <==> (2 * s - 1) * den <= 2 * num < (2 * s + 1) * den) by (nonlinear_arith)
            requires
                (2 * r - 1) * den <= 2 * num < (2 * r + 1) * den,
                den >= 1,
        ;
    }
}

/// Rounds `sum / divisor` half away from zero and saturates the result into
/// the sample range.
pub fn clamp_to_sample_range(sum: i128, divisor: u32) -> (sample: u8)
    requires
        divisor >= 1,
    ensures
        sample == quantize(sum as int, divisor as int),
{
    proof {
        lemma_round_is_nearest(sum as int, divisor as int);
    }
    if sum <= 0 {
        return 0;
    }
    let den: i128 = divisor as i128;
    if sum >= 255 * den {
        proof {
            let r: int = round_half_away(sum as int, den as int);
            assert(r >= 255) by (nonlinear_arith)
                requires
                    -den <= 2 * den * r - 2 * sum,
                    sum >= 255 * den,
                    den >= 1,
            ;
        }
        return 255;
    }
    let rounded: i128 = (2 * sum + den) / (2 * den);
    proof {
        let r: int = round_half_away(sum as int, den as int);
        assert(r == rounded);
        assert(r <= 255) by (nonlinear_arith)
            requires
                2 * den * r - 2 * sum <= den,
                sum < 255 * den,
                den >= 1,
        ;
    }
    rounded as u8
}

} // verus!
