//! Quantisation scales, held as the bit patterns of IEEE 754 single-precision floats.
use vstd::arithmetic::power2::{
    lemma2_to64, lemma_pow2_adds, lemma_pow2_pos, lemma_pow2_strictly_increases,
    lemma_pow2_unfold, pow2,
};
use vstd::prelude::*;

verus! {

/// The bit pattern of `f32::EPSILON`, which is two to the power of minus 23.
pub const EPSILON_BITS: u32 = 0x3400_0000;

/// The bit pattern of positive infinity.
pub const INFINITY_BITS: u32 = 0x7f80_0000;

/// Whether the sign bit is set.
pub open spec fn is_negative(bits: u32) -> bool {
    bits >= 0x8000_0000
}

/// The exponent field.
pub open spec fn exponent(bits: u32) -> nat {
    ((bits % 0x8000_0000) / 0x80_0000) as nat
}

/// The fraction field.
pub open spec fn fraction(bits: u32) -> nat {
    (bits % 0x80_0000) as nat
}

/// Whether the pattern stands for no number.
pub open spec fn is_nan(bits: u32) -> bool {
    exponent(bits) == 255 && fraction(bits) != 0
}

/// The absolute value of the float, in units of the smallest positive float (two to the power
/// of minus 149). Infinity is given the value that the next exponent would stand for, so that
/// it is above every finite value.
pub open spec fn magnitude(bits: u32) -> nat {
    if exponent(bits) == 0 {
        fraction(bits)
    } else {
        (0x80_0000 + fraction(bits)) * pow2((exponent(bits) - 1) as nat)
    }
}

/// The scale that conversions use: the larger of the reported scale and `f32::EPSILON`. A
/// pattern that is no number loses against any number.
pub open spec fn floored_scale(qscale: u32) -> u32 {
    if !is_nan(qscale) && !is_negative(qscale) && magnitude(qscale) > magnitude(EPSILON_BITS) {
        qscale
    } else {
        EPSILON_BITS
    }
}

/// Among patterns that are neither negative nor above infinity, the larger pattern stands for
/// the larger value.
pub proof fn law_larger_pattern_is_larger_value(a: u32, b: u32)
    requires
        a < b <= INFINITY_BITS,
    ensures
        magnitude(a) < magnitude(b),
{
    let (ea, eb) = (exponent(a), exponent(b));
    let (fa, fb) = (fraction(a), fraction(b));
    assert(a == ea * 0x80_0000 + fa);
    assert(b == eb * 0x80_0000 + fb);
    if ea == eb {
        if ea > 0 {
            let p = pow2((ea - 1) as nat);
            lemma_pow2_pos((ea - 1) as nat);
            assert((0x80_0000 + fa) * p < (0x80_0000 + fb) * p) by (nonlinear_arith)
                requires
                    fa < fb,
                    p > 0,
            ;
        }
    } else {
        let q = pow2((eb - 1) as nat);
        lemma_pow2_pos((eb - 1) as nat);
        assert((0x80_0000 + fb) * q >= 0x80_0000 * q) by (nonlinear_arith)
            requires
                fb >= 0,
                q > 0,
        ;
        if ea > 0 {
            let p = pow2((ea - 1) as nat);
            lemma_pow2_unfold(ea);
            lemma_pow2_pos((ea - 1) as nat);
            if ea < eb - 1 {
                lemma_pow2_strictly_increases(ea, (eb - 1) as nat);
            }
            assert((0x80_0000 + fa) * p < 0x100_0000 * p) by (nonlinear_arith)
                requires
                    fa < 0x80_0000,
                    p > 0,
            ;
        }
    }
}

/// The scale that conversions use in place of a reported one.
pub fn effective_scale(qscale: u32) -> (scale: u32)
    ensures
        scale == floored_scale(qscale),
{
    if qscale > EPSILON_BITS && qscale <= INFINITY_BITS {
        proof {
            law_larger_pattern_is_larger_value(EPSILON_BITS, qscale);
        }
        qscale
    } else {
        proof {
            if qscale < EPSILON_BITS {
                law_larger_pattern_is_larger_value(qscale, EPSILON_BITS);
            }
        }
        EPSILON_BITS
    }
}

/// Whatever the runtime reports, the scale in use is a number and no smaller than
/// `f32::EPSILON`, so that dividing by it is always defined.
pub proof fn law_scale_is_at_least_epsilon(qscale: u32)
    ensures
        !is_nan(floored_scale(qscale)),
        !is_negative(floored_scale(qscale)),
        magnitude(floored_scale(qscale)) >= magnitude(EPSILON_BITS),
        magnitude(EPSILON_BITS) == pow2(126),
{
    assert(magnitude(EPSILON_BITS) == 0x80_0000 * pow2(103));
    lemma_pow2_adds(23, 103);
    lemma2_to64();
}

/// Flooring a scale a second time changes nothing.
pub proof fn law_flooring_is_idempotent(qscale: u32)
    ensures
        floored_scale(floored_scale(qscale)) == floored_scale(qscale),
{
}

/// A bit pattern is its sign, eight bits of exponent and 23 bits of fraction, in this order.
pub proof fn law_pattern_is_sign_exponent_fraction(bits: u32)
    ensures
        exponent(bits) < 256,
        fraction(bits) < 0x80_0000,
        bits == 0x80_0000 * exponent(bits) + fraction(bits) + if is_negative(bits) {
            0x8000_0000int
        } else {
            0
        },
{
}

/// Up to the first step of the exponent above the smallest normal float the value is the
/// pattern itself, in units of the smallest float. From the smallest normal float on, each step
/// of the exponent doubles the value. The sign does not matter.
pub proof fn law_values_double_with_the_exponent(bits: u32)
    requires
        bits <= 0x7f80_0000,
    ensures
        bits <= 0x100_0000 ==> magnitude(bits) == bits,
        0x80_0000 <= bits <= 0x7f00_0000 ==> magnitude((bits + 0x80_0000) as u32) == 2 * magnitude(
            bits,
        ),
        magnitude((bits + 0x8000_0000) as u32) == magnitude(bits),
{
    lemma2_to64();
    if 0x80_0000 <= bits < 0x100_0000 {
        assert(exponent(bits) == 1);
        assert((0x80_0000 + fraction(bits)) * pow2(0) == bits) by (nonlinear_arith)
            requires
                pow2(0) == 1,
                0x80_0000 + fraction(bits) == bits,
        ;
    }
    if bits == 0x100_0000 {
        assert(exponent(bits) == 2 && fraction(bits) == 0);
        assert(0x80_0000 * pow2(1) == bits);
    }
    if 0x80_0000 <= bits <= 0x7f00_0000 {
        let next = (bits + 0x80_0000) as u32;
        let e = exponent(bits);
        let f = fraction(bits);
        assert(exponent(next) == e + 1);
        assert(fraction(next) == f);
        lemma_pow2_unfold(e);
        let p = pow2((e - 1) as nat);
        assert((0x80_0000 + f) * (2 * p) == 2 * ((0x80_0000 + f) * p)) by (nonlinear_arith);
    }
    let other = (bits + 0x8000_0000) as u32;
    assert(exponent(other) == exponent(bits));
    assert(fraction(other) == fraction(bits));
}

/// The scale in use is the larger of the reported one and two to the power of minus 23. Patterns
/// of numbers that are not negative are in the order of their values, and infinity is the last
/// of them; a reported scale that is negative or no number gives way.
pub proof fn law_scale_is_the_larger_one(qscale: u32)
    ensures
        0x3400_0000 <= qscale <= 0x7f80_0000 ==> floored_scale(qscale) == qscale,
        qscale <= 0x3400_0000 || qscale > 0x7f80_0000 ==> floored_scale(qscale) == 0x3400_0000,
        !is_nan(qscale) && !is_negative(qscale) ==> magnitude(floored_scale(qscale)) == if magnitude(
            qscale,
        ) < pow2(126) {
            pow2(126)
        } else {
            magnitude(qscale)
        },
{
    law_scale_is_at_least_epsilon(qscale);
    if EPSILON_BITS < qscale <= INFINITY_BITS {
        law_larger_pattern_is_larger_value(EPSILON_BITS, qscale);
    }
    if qscale < EPSILON_BITS {
        law_larger_pattern_is_larger_value(qscale, EPSILON_BITS);
    }
}

/// A pattern stands for no number exactly when, its sign aside, it lies above infinity.
pub proof fn law_no_numbers_lie_above_infinity(bits: u32)
    ensures
        is_nan(bits) <==> bits % 0x8000_0000 > 0x7f80_0000,
        is_negative(bits) <==> bits / 0x8000_0000 == 1,
{
}

} // verus!
