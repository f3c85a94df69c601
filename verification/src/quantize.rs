//! Quantisation of normalised samples to 16-bit PCM.
//!
//! A normalised sample is an IEEE-754 single-precision number. It is handled
//! here by its bit pattern (what `f32::to_bits` gives): one sign bit, eight
//! exponent bits, twenty-three fraction bits. The quantised value is the one
//! that single-precision arithmetic produces for "clamp to [-1, 1], multiply
//! by 32767, drop the fractional part", computed exactly in integers.

use vstd::prelude::*;
use vstd::arithmetic::power2::{
    lemma2_to64, lemma_pow2_adds, lemma_pow2_pos, lemma_pow2_strictly_increases, lemma_pow2_unfold,
    pow2,
};

verus! {

/// The largest magnitude of a quantised sample.
pub const PCM_MAX: i16 = 32767;

/// The exponent field of a bit pattern.
pub open spec fn exponent_field(bits: u32) -> int {
    (bits as int / 0x80_0000) % 0x100
}

/// The fraction field of a bit pattern.
pub open spec fn fraction_field(bits: u32) -> int {
    bits as int % 0x80_0000
}

/// Whether the sign bit is set.
pub open spec fn sign_negative(bits: u32) -> bool {
    bits >= 0x8000_0000
}

/// Whether the pattern is a NaN.
pub open spec fn is_nan(bits: u32) -> bool {
    exponent_field(bits) == 255 && fraction_field(bits) != 0
}

/// Whether the pattern is a normal number of magnitude below one.
pub open spec fn is_fractional(bits: u32) -> bool {
    1 <= exponent_field(bits) <= 126
}

/// The significand of a normal number: its magnitude is
/// `significand * 2^(exponent_field - 150)`.
pub open spec fn significand(bits: u32) -> int {
    0x80_0000 + fraction_field(bits)
}

/// `x / 2^d` rounded to the nearest integer, a tie going to the even one.
pub open spec fn round_half_even(x: int, d: nat) -> int {
    let unit = pow2(d) as int;
    let below = x / unit;
    let rest = x % unit;
    if 2 * rest > unit || (2 * rest == unit && below % 2 == 1) {
        below + 1
    } else {
        below
    }
}

/// How many low bits the exact product `significand * 32767` loses when it is
/// rounded to the 24 significant bits of single precision.
pub open spec fn dropped_bits(product: int) -> nat {
    if product >= 0x40_0000_0000 {
        15
    } else {
        14
    }
}

/// The magnitude of the quantised value of a normal number below one.
///
/// The exact product of the sample and 32767 is
/// `significand * 32767 * 2^(exponent_field - 150)`. Single precision keeps
/// 24 significant bits of it, rounding half to even; the fractional part of
/// what is kept is then dropped.
pub open spec fn scaled_magnitude(bits: u32) -> int {
    let product = significand(bits) * 32767;
    let drop = dropped_bits(product);
    let kept = round_half_even(product, drop);
    kept / (pow2((150 - exponent_field(bits) - drop) as nat) as int)
}

/// The magnitude of the quantised value of any bit pattern.
pub open spec fn quantized_magnitude(bits: u32) -> int {
    if is_nan(bits) {
        0
    } else if exponent_field(bits) >= 127 {
        32767
    } else if exponent_field(bits) == 0 {
        0
    } else {
        scaled_magnitude(bits)
    }
}

/// The quantised value of a bit pattern.
pub open spec fn quantized(bits: u32) -> int {
    if sign_negative(bits) {
        -quantized_magnitude(bits)
    } else {
        quantized_magnitude(bits)
    }
}

/// The quantised values of a sequence of bit patterns, in order.
pub open spec fn quantized_all(samples: Seq<u32>) -> Seq<i16> {
    Seq::new(samples.len(), |i: int| quantized(samples[i]) as i16)
}

/// The rounding of `x / 2^d` lies within half a unit of the exact quotient.
pub proof fn lemma_round_half_even_bounds(x: int, d: nat)
    requires
        0 <= x,
        1 <= d,
    ensures
        2 * x - pow2(d) <= 2 * round_half_even(x, d) * pow2(d) <= 2 * x + pow2(d),
        x / (pow2(d) as int) <= round_half_even(x, d) <= x / (pow2(d) as int) + 1,
{
    lemma_pow2_pos(d);
    let unit = pow2(d) as int;
    let below = x / unit;
    let rest = x % unit;
    assert(x == unit * below + rest) by {
        vstd::arithmetic::div_mod::lemma_fundamental_div_mod(x, unit);
    }
    assert(0 <= rest < unit) by {
        vstd::arithmetic::div_mod::lemma_mod_bound(x, unit);
    }
    assert((below + 1) * unit == below * unit + unit) by (nonlinear_arith);
    assert(2 * (below * unit) == 2 * below * unit) by (nonlinear_arith);
    assert(2 * ((below + 1) * unit) == 2 * (below + 1) * unit) by (nonlinear_arith);
    assert(unit * below == below * unit) by (nonlinear_arith);
}

/// The product of a significand and 32767, with the bounds that follow from
/// the significand's range.
proof fn lemma_product_range(bits: u32)
    ensures
        0x80_0000 <= significand(bits) < 0x100_0000,
        0x3f_ff80_0000 <= significand(bits) * 32767 <= 0x7f_feff_8001,
{
    let m = significand(bits);
    assert(0 <= fraction_field(bits) < 0x80_0000);
    assert(0x80_0000 * 32767 <= m * 32767 <= 0xff_ffff * 32767) by (nonlinear_arith)
        requires
            0x80_0000 <= m <= 0xff_ffff,
    ;
}

/// What is kept of the product never exceeds 24 bits by more than the one
/// value `2^24`, and stays below it when fifteen bits are dropped.
proof fn lemma_kept_range(bits: u32)
    ensures
        ({
            let product = significand(bits) * 32767;
            let kept = round_half_even(product, dropped_bits(product));
            &&& 0x7f_ffff <= kept <= 0x100_0000
            &&& dropped_bits(product) == 15 ==> kept < 0x100_0000
        }),
{
    lemma_product_range(bits);
    lemma2_to64();
    let product = significand(bits) * 32767;
    let drop = dropped_bits(product);
    lemma_round_half_even_bounds(product, drop);
    let unit = pow2(drop) as int;
    let kept = round_half_even(product, drop);
    if drop == 15 {
        assert(unit == 0x8000);
        assert(product / 0x8000 <= 0xff_fdff);
        assert(product / 0x8000 >= 0x80_0000);
    } else {
        assert(unit == 0x4000);
        assert(product / 0x4000 <= 0xff_ffff);
        assert(product / 0x4000 >= 0xff_fe00);
    }
}

/// Two to the power `k`, for the powers that quantisation divides by.
fn two_to(k: u32) -> (r: u64)
    requires
        k <= 24,
    ensures
        r == pow2(k as nat),
        1 <= r <= 0x100_0000,
{
    let mut r: u64 = 1;
    let mut i: u32 = 0;
    proof {
        lemma2_to64();
    }
    while i < k
        invariant
            i <= k <= 24,
            r == pow2(i as nat),
            1 <= r <= pow2(24),
            pow2(24) == 0x100_0000,
        decreases k - i,
    {
        proof {
            lemma_pow2_unfold((i + 1) as nat);
            if i + 1 < 24 {
                lemma_pow2_strictly_increases((i + 1) as nat, 24);
            }
        }
        r = r * 2;
        i = i + 1;
    }
    r
}

/// The magnitude of the quantised value of a normal number below one.
fn scale_and_truncate(exponent: u32, fraction: u32, Ghost(bits): Ghost<u32>) -> (m: u64)
    requires
        exponent == exponent_field(bits),
        fraction == fraction_field(bits),
        1 <= exponent <= 126,
    ensures
        m == scaled_magnitude(bits),
        m <= 32767,
{
    proof {
        lemma_product_range(bits);
        lemma_kept_range(bits);
        lemma2_to64();
    }
    let product: u64 = (0x80_0000u64 + fraction as u64) * 32767u64;
    let fifteen: bool = product >= 0x40_0000_0000u64;
    let unit: u64 = if fifteen { 0x8000u64 } else { 0x4000u64 };
    let drop: u32 = if fifteen { 15u32 } else { 14u32 };
    let below: u64 = product / unit;
    let rest: u64 = product % unit;
    let kept: u64 = if 2 * rest > unit || (2 * rest == unit && below % 2 == 1) {
        below + 1
    } else {
        below
    };
    assert(kept == round_half_even(product as int, drop as nat));
    let shift: u32 = 150 - exponent - drop;
    if shift > 24 || (shift == 24 && kept < 0x100_0000) {
        proof {
            let divisor = pow2(shift as nat) as int;
            if shift > 24 {
                lemma_pow2_strictly_increases(24, shift as nat);
            }
            assert(kept < divisor);
            assert(kept as int / divisor == 0) by {
                vstd::arithmetic::div_mod::lemma_basic_div(kept as int, divisor);
            }
        }
        0
    } else {
        let divisor: u64 = two_to(shift);
        let m: u64 = kept / divisor;
        proof {
            // The divisor is at least 2^9, and 2^9 itself only when fifteen
            // bits were dropped, where kept stays below 2^24.
            if shift == 9 {
                assert(kept / 512 <= 32767);
            } else {
                lemma_pow2_strictly_increases(9, shift as nat);
                assert(divisor >= 1024) by {
                    if shift > 10 {
                        lemma_pow2_strictly_increases(10, shift as nat);
                    }
                }
                assert(kept as int / divisor as int <= 32767) by (nonlinear_arith)
                    requires
                        0 <= kept <= 0x100_0000,
                        divisor >= 1024,
                ;
            }
        }
        m
    }
}

/// Quantises one normalised sample, given by its bit pattern: clamps it to
/// [-1, 1], scales it by 32767 in single precision and drops the fractional
/// part. A NaN gives 0.
pub fn quantize_sample(bits: u32) -> (q: i16)
    ensures
        q == quantized(bits),
        -32767 <= q <= 32767,
{
    let exponent: u32 = (bits / 0x80_0000) % 0x100;
    let fraction: u32 = bits % 0x80_0000;
    let magnitude: i16 = if exponent == 255 && fraction != 0 {
        0
    } else if exponent >= 127 {
        PCM_MAX
    } else if exponent == 0 {
        0
    } else {
        let m: u64 = scale_and_truncate(exponent, fraction, Ghost(bits));
        m as i16
    };
    if bits >= 0x8000_0000 {
        -magnitude
    } else {
        magnitude
    }
}

/// Quantisation loses less than one step: for a normal sample of magnitude
/// below one, whose exact product with 32767 is
/// `significand * 32767 / 2^(150 - exponent_field)`, the quantised magnitude
/// differs from that product by less than one.
pub proof fn quantization_stays_within_one_step(bits: u32)
    requires
        is_fractional(bits),
    ensures
        ({
            let exact = significand(bits) * 32767;
            let unit = pow2((150 - exponent_field(bits)) as nat) as int;
            let q = quantized_magnitude(bits);
            &&& 0 <= q <= 32767
            &&& (q - 1) * unit < exact < (q + 1) * unit
        }),
{
    lemma_product_range(bits);
    lemma_kept_range(bits);
    lemma2_to64();
    let exact = significand(bits) * 32767;
    let drop = dropped_bits(exact);
    let shift = (150 - exponent_field(bits) - drop) as nat;
    let low = pow2(drop) as int;
    let high = pow2(shift) as int;
    let unit = pow2((150 - exponent_field(bits)) as nat) as int;
    let kept = round_half_even(exact, drop);
    let q = kept / high;
    let rest = kept % high;
    assert(!is_nan(bits));
    assert(q == quantized_magnitude(bits));
    lemma_pow2_pos(shift);
    lemma_pow2_adds(drop, shift);
    assert(unit == low * high);
    lemma_round_half_even_bounds(exact, drop);
    assert(kept == high * q + rest && 0 <= rest < high) by {
        vstd::arithmetic::div_mod::lemma_fundamental_div_mod(kept, high);
        vstd::arithmetic::div_mod::lemma_mod_bound(kept, high);
    }
    assert(q >= 0) by {
        vstd::arithmetic::div_mod::lemma_div_pos_is_pos(kept, high);
    }
    let kept_low = kept * low;
    assert(2 * kept * low == 2 * kept_low) by (nonlinear_arith)
        requires
            kept_low == kept * low,
    ;
    assert(kept_low >= q * unit) by (nonlinear_arith)
        requires
            kept_low == kept * low,
            kept == high * q + rest,
            rest >= 0,
            low > 0,
            unit == low * high,
    ;
    assert(kept_low <= (q + 1) * unit - low) by (nonlinear_arith)
        requires
            kept_low == kept * low,
            kept == high * q + rest,
            rest <= high - 1,
            low > 0,
            unit == low * high,
    ;
    assert(low <= unit) by (nonlinear_arith)
        requires
            unit == low * high,
            high >= 1,
            low > 0,
    ;
    assert((q - 1) * unit == q * unit - unit) by (nonlinear_arith);
    // The quotient's range follows from the bound just shown and the
    // product's own range, since the unit is at least 2^24.
    if shift > 9 {
        lemma_pow2_strictly_increases(9, shift);
    }
    assert(high >= 512);
    if q > 32767 {
        assert(kept >= high * 32768) by (nonlinear_arith)
            requires
                kept == high * q + rest,
                rest >= 0,
                q >= 32768,
                high > 0,
        ;
        assert(high * 32768 >= 0x100_0000) by (nonlinear_arith)
            requires
                high >= 512,
        ;
        assert(high == 512);
    }
}

/// Quantisation is odd: flipping the sign bit of a sample negates its
/// quantised value.
pub proof fn quantization_is_odd(bits: u32)
    requires
        bits < 0x8000_0000,
    ensures
        quantized((bits + 0x8000_0000) as u32) == -quantized(bits),
{
    let flipped = (bits + 0x8000_0000) as u32;
    assert(exponent_field(flipped) == exponent_field(bits));
    assert(fraction_field(flipped) == fraction_field(bits));
}

/// The ends of the range are exact: one, and everything above it, gives
/// 32767; zero gives zero.
pub proof fn full_scale_and_silence_are_exact(bits: u32)
    ensures
        quantized(0x3f80_0000) == 32767,
        quantized(0xbf80_0000) == -32767,
        quantized(0) == 0,
        quantized(0x8000_0000) == 0,
        !is_nan(bits) && exponent_field(bits) >= 127 ==> quantized_magnitude(bits) == 32767,
{
}

} // verus!
