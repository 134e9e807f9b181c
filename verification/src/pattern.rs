//! IEEE-754 single-precision values, held as their bit patterns.
//!
//! A pattern is a `u32`: one sign bit, eight exponent bits, twenty-three
//! fraction bits. Among the patterns that are not NaN, a value is larger in
//! magnitude exactly when its pattern without the sign bit is the larger
//! integer, so ranges and clamps are decided here by integer comparison.

use vstd::prelude::*;
use vstd::arithmetic::power2::lemma_pow2_pos;
use vstd::arithmetic::power2::lemma_pow2_strictly_increases;
use vstd::arithmetic::power2::lemma_pow2_unfold;
use vstd::arithmetic::power2::pow2;

verus! {

/// The sign bit.
pub const SIGN_BIT: u32 = 0x8000_0000;

/// Pattern of positive infinity; every larger magnitude is a NaN.
pub const INFINITY_BITS: u32 = 0x7f80_0000;

/// Pattern of 0.0.
pub const ZERO_BITS: u32 = 0;

/// Pattern of 0.5.
pub const HALF_BITS: u32 = 0x3f00_0000;

/// Pattern of 1.0.
pub const ONE_BITS: u32 = 0x3f80_0000;

/// Two to the power of 23: the number of fractions per exponent.
pub const FRACTION_SPAN: u32 = 0x80_0000;

/// Pattern of the single-precision value nearest to pi / 2.
pub const HALF_PI_BITS: u32 = 0x3fc9_0fdb;

/// The pattern with its sign bit cleared.
pub open spec fn magnitude(bits: u32) -> u32 {
    if bits >= SIGN_BIT {
        (bits - SIGN_BIT) as u32
    } else {
        bits
    }
}

/// Whether the sign bit is set.
pub open spec fn is_negative(bits: u32) -> bool {
    bits >= SIGN_BIT
}

/// Whether the pattern is a NaN.
pub open spec fn is_nan(bits: u32) -> bool {
    magnitude(bits) > INFINITY_BITS
}

/// The pattern of the same magnitude with the given sign.
pub open spec fn with_sign(negative: bool, magnitude: u32) -> u32
    recommends
        magnitude < SIGN_BIT,
{
    if negative {
        (magnitude + SIGN_BIT) as u32
    } else {
        magnitude
    }
}

/// Whether the value lies in the closed range from `-limit` to `limit`,
/// for a `limit` that is a non-negative value and no NaN.
pub open spec fn within(bits: u32, limit: u32) -> bool {
    magnitude(bits) <= limit
}

/// What clamping into the range from `-limit` to `limit` gives: a NaN and a
/// value inside the range stay as they are, bit for bit; a value outside
/// becomes the bound on its side.
pub open spec fn clamped(bits: u32, limit: u32) -> u32
    recommends
        limit <= INFINITY_BITS,
{
    if is_nan(bits) || within(bits, limit) {
        bits
    } else {
        with_sign(is_negative(bits), limit)
    }
}

/// Computes `magnitude`.
pub fn magnitude_of(bits: u32) -> (m: u32)
    ensures
        m == magnitude(bits),
        m < SIGN_BIT,
{
    if bits >= SIGN_BIT {
        bits - SIGN_BIT
    } else {
        bits
    }
}

/// Computes `is_nan`.
pub fn nan(bits: u32) -> (b: bool)
    ensures
        b == is_nan(bits),
{
    magnitude_of(bits) > INFINITY_BITS
}

/// Clamps a value into the range from `-limit` to `limit`.
pub fn clamp_symmetric(bits: u32, limit: u32) -> (out: u32)
    requires
        limit <= INFINITY_BITS,
    ensures
        out == clamped(bits, limit),
        is_nan(bits) <==> is_nan(out),
        !is_nan(bits) ==> within(out, limit),
        within(bits, limit) ==> out == bits,
{
    let m = magnitude_of(bits);
    if m > INFINITY_BITS || m <= limit {
        bits
    } else if bits >= SIGN_BIT {
        limit + SIGN_BIT
    } else {
        limit
    }
}

/// Clamping twice is clamping once.
pub proof fn lemma_clamped_idempotent(bits: u32, limit: u32)
    requires
        limit <= INFINITY_BITS,
    ensures
        clamped(clamped(bits, limit), limit) == clamped(bits, limit),
{
}

/// The exponent field of the pattern.
pub open spec fn exponent(bits: u32) -> nat {
    (magnitude(bits) / FRACTION_SPAN) as nat
}

/// The fraction field of the pattern.
pub open spec fn fraction(bits: u32) -> nat {
    (magnitude(bits) % FRACTION_SPAN) as nat
}

/// The magnitude of the value, counted in steps of two to the power of
/// -149, the smallest positive value. Every finite value is a whole number
/// of such steps. Infinity counts as the value that would follow the
/// largest finite one, and the NaN patterns, which stand for no value, go
/// on from there.
pub open spec fn quanta(bits: u32) -> nat {
    if exponent(bits) == 0 {
        fraction(bits)
    } else {
        ((FRACTION_SPAN + fraction(bits)) * pow2((exponent(bits) - 1) as nat)) as nat
    }
}

/// A larger magnitude of the pattern is a larger magnitude of the value.
pub proof fn lemma_quanta_strictly_monotone(a: u32, b: u32)
    requires
        magnitude(a) < magnitude(b),
    ensures
        quanta(a) < quanta(b),
{
    let (ea, fa) = (exponent(a), fraction(a));
    let (eb, fb) = (exponent(b), fraction(b));
    let span = FRACTION_SPAN as int;
    assert(magnitude(a) == ea * span + fa);
    assert(magnitude(b) == eb * span + fb);
    if ea == eb {
        if ea > 0 {
            let p = pow2((ea - 1) as nat) as int;
            lemma_pow2_pos((ea - 1) as nat);
            assert((span + fa) * p < (span + fb) * p) by (nonlinear_arith)
                requires
                    fa < fb,
                    p > 0,
            ;
        }
    } else {
        assert(ea < eb);
        let low = pow2((eb - 1) as nat) as int;
        lemma_pow2_pos((eb - 1) as nat);
        assert(span * low <= (span + fb) * low) by (nonlinear_arith)
            requires
                fb >= 0,
                low > 0,
        ;
        if ea == 0 {
            assert(fa < span * low) by (nonlinear_arith)
                requires
                    fa < span,
                    low >= 1,
                    span > 0,
            ;
        } else {
            let p = pow2((ea - 1) as nat) as int;
            lemma_pow2_pos((ea - 1) as nat);
            lemma_pow2_unfold(ea);
            assert(pow2(ea) == 2 * p);
            if ea < eb - 1 {
                lemma_pow2_strictly_increases(ea, (eb - 1) as nat);
            }
            assert(2 * p <= low);
            assert((span + fa) * p < span * low) by (nonlinear_arith)
                requires
                    fa < span,
                    p > 0,
                    2 * p <= low,
                    span > 0,
            ;
        }
    }
}

/// Among all patterns, magnitudes of values are ordered as the patterns
/// without their sign bit are: what `within` decides on patterns holds of
/// the values.
pub proof fn lemma_magnitude_orders_values(a: u32, b: u32)
    ensures
        magnitude(a) <= magnitude(b) <==> quanta(a) <= quanta(b),
        within(a, magnitude(b)) <==> quanta(a) <= quanta(b),
{
    if magnitude(a) < magnitude(b) {
        lemma_quanta_strictly_monotone(a, b);
    } else if magnitude(b) < magnitude(a) {
        lemma_quanta_strictly_monotone(b, a);
    } else {
        assert(exponent(a) == exponent(b) && fraction(a) == fraction(b));
    }
}

/// What clamping does to the value: it never grows in magnitude, and
/// unless it is a NaN it ends no larger than the limit.
pub proof fn lemma_clamped_value(bits: u32, limit: u32)
    requires
        limit <= INFINITY_BITS,
    ensures
        quanta(clamped(bits, limit)) <= quanta(bits),
        !is_nan(bits) ==> quanta(clamped(bits, limit)) <= quanta(limit),
        quanta(bits) <= quanta(limit) ==> clamped(bits, limit) == bits,
{
    lemma_magnitude_orders_values(clamped(bits, limit), bits);
    lemma_magnitude_orders_values(clamped(bits, limit), limit);
    lemma_magnitude_orders_values(bits, limit);
}

/// The values of the named patterns: zero, one half, one, and a value
/// between 1.5707963 and 1.5707964 for pi / 2.
pub proof fn lemma_named_patterns()
    ensures
        quanta(ZERO_BITS) == 0,
        quanta(ONE_BITS) == FRACTION_SPAN * pow2(126),
        2 * quanta(HALF_BITS) == quanta(ONE_BITS),
        15_707_963 * quanta(ONE_BITS) < 10_000_000 * quanta(HALF_PI_BITS),
        10_000_000 * quanta(HALF_PI_BITS) < 15_707_964 * quanta(ONE_BITS),
        !is_nan(HALF_PI_BITS) && !is_negative(HALF_PI_BITS),
{
    let p = pow2(126) as int;
    lemma_pow2_pos(126);
    lemma_pow2_unfold(126);
    assert(exponent(ONE_BITS) == 127 && fraction(ONE_BITS) == 0);
    assert(exponent(HALF_BITS) == 126 && fraction(HALF_BITS) == 0);
    assert(exponent(HALF_PI_BITS) == 127 && fraction(HALF_PI_BITS) == 0x49_0fdb);
    assert(quanta(HALF_PI_BITS) == 0xc9_0fdb * p);
    assert(quanta(ONE_BITS) == 0x80_0000 * p);
    assert(15_707_963 * (0x80_0000 * p) < 10_000_000 * (0xc9_0fdb * p)) by (nonlinear_arith)
        requires
            p > 0,
    ;
    assert(10_000_000 * (0xc9_0fdb * p) < 15_707_964 * (0x80_0000 * p)) by (nonlinear_arith)
        requires
            p > 0,
    ;
}

} // verus!
