//! Single-precision arithmetic on bit patterns.
//!
//! A normalised sample is an IEEE-754 single-precision number, held as the
//! 32 bits that `f32::to_bits` gives. The operations here compute, in
//! integers, what single-precision hardware computes: the exact result,
//! rounded to the nearest representable number, a tie going to the one with
//! an even significand. A NaN result is always the one quiet NaN
//! [`NAN_BITS`], whatever payload hardware would carry over.

use vstd::prelude::*;
use vstd::arithmetic::power2::{
    lemma2_to64, lemma2_to64_rest, lemma_pow2_adds, lemma_pow2_pos, lemma_pow2_strictly_increases,
    lemma_pow2_unfold, pow2,
};
use crate::quantize::{exponent_field, fraction_field, is_nan, sign_negative};

verus! {

/// Positive infinity.
pub const INFINITY_BITS: u32 = 0x7f80_0000;

/// The quiet NaN that stands for every NaN result.
pub const NAN_BITS: u32 = 0x7fc0_0000;

/// Negative zero.
pub const NEGATIVE_ZERO_BITS: u32 = 0x8000_0000;

/// The number one.
pub const ONE_BITS: u32 = 0x3f80_0000;

/// Whether the pattern is an infinity.
pub open spec fn is_infinite(bits: u32) -> bool {
    exponent_field(bits) == 255 && fraction_field(bits) == 0
}

/// Whether the pattern is a zero, of either sign.
pub open spec fn is_zero(bits: u32) -> bool {
    exponent_field(bits) == 0 && fraction_field(bits) == 0
}

/// The integer significand of a finite number.
pub open spec fn significand_of(bits: u32) -> int {
    if exponent_field(bits) == 0 {
        fraction_field(bits)
    } else {
        0x80_0000 + fraction_field(bits)
    }
}

/// The exponent of a finite number: its magnitude is
/// `significand_of * 2^exponent_of`.
pub open spec fn exponent_of(bits: u32) -> int {
    if exponent_field(bits) == 0 {
        -149
    } else {
        exponent_field(bits) - 150
    }
}

/// How often `num` has to be doubled to reach `den`.
pub open spec fn doublings_up(num: int, den: int) -> int
    decreases
            (if num < den {
                den - num
            } else {
                0
            }),
{
    if 0 < num < den {
        1 + doublings_up(2 * num, den)
    } else {
        0
    }
}

/// How often `den` can be doubled without exceeding `num`.
pub open spec fn doublings_down(num: int, den: int) -> int
    decreases num - den,
{
    if 0 < den && 2 * den <= num {
        1 + doublings_down(num, 2 * den)
    } else {
        0
    }
}

/// The binary order of magnitude of the positive ratio `num / den`: the
/// integer `l` with `2^l <= num / den < 2^(l + 1)`.
pub open spec fn level(num: int, den: int) -> int {
    if num < den {
        -doublings_up(num, den)
    } else {
        doublings_down(num, den)
    }
}

/// `x * 2^k` for a positive `k`, and `x` itself otherwise.
pub open spec fn times_pow2(x: int, k: int) -> int {
    if k > 0 {
        x * pow2(k as nat)
    } else {
        x
    }
}

/// `num / den` rounded to the nearest integer, a tie going to the even one.
pub open spec fn rounded_ratio(num: int, den: int) -> int {
    let below = num / den;
    let rest = num % den;
    if 2 * rest > den || (2 * rest == den && below % 2 == 1) {
        below + 1
    } else {
        below
    }
}

/// The exponent of the unit in the last place for the value
/// `num / den * 2^exp`: 23 below its binary order of magnitude, and never
/// below that of the subnormal numbers.
pub open spec fn ulp_exponent(num: int, den: int, exp: int) -> int {
    let e = level(num, den) + exp - 23;
    if e < -149 {
        -149
    } else {
        e
    }
}

/// The pattern of the non-negative number `significand * 2^ulp`, for a
/// significand of at most `2^24`; infinity where that is out of range.
pub open spec fn packed(significand: int, ulp: int) -> u32 {
    let raw = (ulp + 149) * 0x80_0000 + significand;
    if raw >= 0x7f80_0000 {
        0x7f80_0000u32
    } else {
        raw as u32
    }
}

/// A magnitude with its sign bit.
pub open spec fn with_sign(negative: bool, magnitude: u32) -> u32 {
    if negative {
        (magnitude + 0x8000_0000) as u32
    } else {
        magnitude
    }
}

/// The single-precision number nearest to `num / den * 2^exp`, with the
/// given sign: the value is divided by its unit in the last place, rounded
/// to an integer and packed.
pub open spec fn nearest_single(negative: bool, num: int, den: int, exp: int) -> u32 {
    if num == 0 {
        with_sign(negative, 0)
    } else {
        let ulp = ulp_exponent(num, den, exp);
        let significand = rounded_ratio(
            times_pow2(num, exp - ulp),
            times_pow2(den, ulp - exp),
        );
        with_sign(negative, packed(significand, ulp))
    }
}

/// The level is what its name says: `den * 2^l <= num < 2 * den * 2^l`,
/// written without negative powers.
pub proof fn level_bounds_the_ratio(num: int, den: int)
    requires
        0 < num,
        0 < den,
    ensures
        times_pow2(den, level(num, den)) <= times_pow2(num, -level(num, den)) < 2 * times_pow2(
            den,
            level(num, den),
        ),
        num < den ==> level(num, den) < 0,
        num >= den ==> level(num, den) >= 0,
{
    lemma2_to64();
    if num < den {
        doubling_up_reaches(num, den);
    } else {
        doubling_down_reaches(num, den);
        let k = doublings_down(num, den);
        if k == 0 {
            assert(den * pow2(0) == den);
        }
    }
}

proof fn doubling_up_reaches(num: int, den: int)
    requires
        0 < num < den,
    ensures
        doublings_up(num, den) >= 1,
        den <= num * pow2(doublings_up(num, den) as nat) < 2 * den,
    decreases den - num,
{
    lemma2_to64();
    if 2 * num < den {
        doubling_up_reaches(2 * num, den);
        let k = doublings_up(2 * num, den) as nat;
        lemma_pow2_unfold(k + 1);
        assert(num * pow2(k + 1) == (2 * num) * pow2(k)) by (nonlinear_arith)
            requires
                pow2(k + 1) == 2 * pow2(k),
        ;
    } else {
        assert(doublings_up(2 * num, den) == 0);
        assert(num * pow2(1) == 2 * num);
    }
}

proof fn doubling_down_reaches(num: int, den: int)
    requires
        0 < den <= num,
    ensures
        doublings_down(num, den) >= 0,
        den * pow2(doublings_down(num, den) as nat) <= num < 2 * (den * pow2(
            doublings_down(num, den) as nat,
        )),
    decreases num - den,
{
    lemma2_to64();
    if 2 * den <= num {
        doubling_down_reaches(num, 2 * den);
        let k = doublings_down(num, 2 * den) as nat;
        lemma_pow2_unfold(k + 1);
        assert(den * pow2(k + 1) == (2 * den) * pow2(k)) by (nonlinear_arith)
            requires
                pow2(k + 1) == 2 * pow2(k),
        ;
    } else {
        assert(den * pow2(0) == den);
    }
}

/// Two to the power `k`.
fn two_to(k: u32) -> (r: u128)
    requires
        k <= 104,
    ensures
        r == pow2(k as nat),
        1 <= r <= 0x100_0000_0000_0000_0000_0000_0000,
{
    let mut r: u128 = 1;
    let mut i: u32 = 0;
    proof {
        lemma2_to64();
        lemma2_to64_rest();
        lemma_pow2_adds(64, 40);
        assert(pow2(104) == 0x100_0000_0000_0000_0000_0000_0000) by (nonlinear_arith)
            requires
                pow2(104) == pow2(64) * pow2(40),
                pow2(64) == 0x1_0000_0000_0000_0000,
                pow2(40) == 0x100_0000_0000,
        ;
    }
    while i < k
        invariant
            i <= k <= 104,
            r == pow2(i as nat),
            1 <= r <= pow2(104),
            pow2(104) == 0x100_0000_0000_0000_0000_0000_0000,
        decreases k - i,
    {
        proof {
            lemma_pow2_unfold((i + 1) as nat);
            if i + 1 < 104 {
                lemma_pow2_strictly_increases((i + 1) as nat, 104);
            }
        }
        r = r * 2;
        i = i + 1;
    }
    r
}

/// The binary order of magnitude of `num / den`.
fn find_level(num: u128, den: u128) -> (l: i32)
    requires
        0 < num < 0x400_0000_0000_0000_0000_0000,
        0 < den < 0x100_0000,
    ensures
        l == level(num as int, den as int),
        -24 <= l <= 90,
        l < 0 ==> num < den,
{
    proof {
        lemma2_to64();
        lemma2_to64_rest();
    }
    if num < den {
        let mut n: u128 = num;
        let mut l: i32 = 0;
        while n < den
            invariant
                0 < n < 0x200_0000,
                0 < den < 0x100_0000,
                -24 <= l <= 0,
                pow2((-l) as nat) <= n,
                doublings_up(num as int, den as int) == -l + doublings_up(n as int, den as int),
            decreases
                    (if n < den {
                        den - n
                    } else {
                        0
                    }),
        {
            proof {
                lemma2_to64();
                lemma_pow2_unfold((1 - l) as nat);
                if l == -24 {
                    assert(pow2(24) == 0x100_0000);
                }
            }
            n = n * 2;
            l = l - 1;
        }
        l
    } else {
        let mut d: u128 = den;
        let mut l: i32 = 0;
        while d <= num - d
            invariant
                0 < d <= num < 0x400_0000_0000_0000_0000_0000,
                0 <= l <= 90,
                pow2(l as nat) <= d,
                doublings_down(num as int, den as int) == l + doublings_down(num as int, d as int),
            decreases num - d,
        {
            proof {
                lemma2_to64();
                lemma2_to64_rest();
                lemma_pow2_unfold((l + 1) as nat);
                if l == 90 {
                    lemma_pow2_adds(64, 26);
                    assert(pow2(90) == 0x400_0000_0000_0000_0000_0000) by (nonlinear_arith)
                        requires
                            pow2(90) == pow2(64) * pow2(26),
                            pow2(64) == 0x1_0000_0000_0000_0000,
                            pow2(26) == 0x400_0000,
                    ;
                }
            }
            d = d * 2;
            l = l + 1;
        }
        l
    }
}

/// The single-precision number nearest to `num / den * 2^exp`.
pub(crate) fn round_to_single(negative: bool, num: u128, den: u128, exp: i32) -> (bits: u32)
    requires
        0 < num < 0x400_0000_0000_0000_0000_0000,
        0 < den < 0x100_0000,
        -253 <= exp <= 300,
    ensures
        bits == nearest_single(negative, num as int, den as int, exp as int),
{
    let l: i32 = find_level(num, den);
    let ulp: i32 = if l + exp - 23 < -149 {
        -149
    } else {
        l + exp - 23
    };
    let up: i32 = exp - ulp;
    let down: i32 = ulp - exp;
    let scaled_num: u128 = if up > 0 {
        let factor: u128 = two_to(up as u32);
        proof {
            // up <= 23 - l, and beyond 23 only where num is below den.
            lemma2_to64();
            lemma2_to64_rest();
            if up > 23 {
                lemma_pow2_strictly_increases(up as nat, 48);
                assert(num * factor < 0x100_0000 * 0x1_0000_0000_0000) by (nonlinear_arith)
                    requires
                        num < 0x100_0000,
                        factor < 0x1_0000_0000_0000,
                ;
            } else {
                if up < 23 {
                    lemma_pow2_strictly_increases(up as nat, 23);
                }
                assert(num * factor <= 0x400_0000_0000_0000_0000_0000 * 0x80_0000)
                    by (nonlinear_arith)
                    requires
                        num < 0x400_0000_0000_0000_0000_0000,
                        factor <= 0x80_0000,
                ;
            }
        }
        num * factor
    } else {
        num
    };
    let scaled_den: u128 = if down > 0 {
        let factor: u128 = two_to(down as u32);
        proof {
            assert(den * factor < 0x100_0000 * 0x100_0000_0000_0000_0000_0000_0000)
                by (nonlinear_arith)
                requires
                    den < 0x100_0000,
                    factor <= 0x100_0000_0000_0000_0000_0000_0000,
            ;
        }
        den * factor
    } else {
        den
    };
    proof {
        lemma_pow2_pos(down as nat);
        assert(scaled_den > 0) by (nonlinear_arith)
            requires
                scaled_den == den || (scaled_den == den * pow2(down as nat) && pow2(down as nat) > 0),
                den > 0,
        ;
    }
    let below: u128 = scaled_num / scaled_den;
    let rest: u128 = scaled_num % scaled_den;
    let significand: u128 = if rest > scaled_den - rest || (rest == scaled_den - rest && below % 2
        == 1) {
        below + 1
    } else {
        below
    };
    let raw: u128 = ((ulp + 149) as u128) * 0x80_0000 + significand;
    let magnitude: u32 = if raw >= 0x7f80_0000 {
        INFINITY_BITS
    } else {
        raw as u32
    };
    if negative {
        magnitude + 0x8000_0000
    } else {
        magnitude
    }
}

/// The number that stands for the integer `magnitude`, with the given sign.
pub open spec fn single_of_integer(negative: bool, magnitude: int) -> u32 {
    nearest_single(negative, magnitude, 1, 0)
}

/// The quotient `a / b`.
pub open spec fn single_quotient(a: u32, b: u32) -> u32 {
    let negative = sign_negative(a) != sign_negative(b);
    if is_nan(a) || is_nan(b) {
        NAN_BITS
    } else if is_infinite(a) {
        if is_infinite(b) {
            NAN_BITS
        } else {
            with_sign(negative, INFINITY_BITS)
        }
    } else if is_infinite(b) {
        with_sign(negative, 0)
    } else if is_zero(b) {
        if is_zero(a) {
            NAN_BITS
        } else {
            with_sign(negative, INFINITY_BITS)
        }
    } else {
        nearest_single(
            negative,
            significand_of(a),
            significand_of(b),
            exponent_of(a) - exponent_of(b),
        )
    }
}

/// The product `a * 2`.
pub open spec fn single_doubled(a: u32) -> u32 {
    if is_nan(a) {
        NAN_BITS
    } else if is_infinite(a) {
        a
    } else {
        nearest_single(sign_negative(a), 2 * significand_of(a), 1, exponent_of(a))
    }
}

/// The significand of a finite number with its sign.
pub open spec fn signed_significand(bits: u32) -> int {
    if sign_negative(bits) {
        -significand_of(bits)
    } else {
        significand_of(bits)
    }
}

/// The exact sum of two finite numbers, in units of `2^low`, where `low` is
/// the smaller of their exponents.
pub open spec fn exact_sum(a: u32, b: u32) -> int {
    let low = if exponent_of(a) <= exponent_of(b) {
        exponent_of(a)
    } else {
        exponent_of(b)
    };
    times_pow2(signed_significand(a), exponent_of(a) - low) + times_pow2(
        signed_significand(b),
        exponent_of(b) - low,
    )
}

/// The sum `a + b`.
///
/// A term whose exponent is more than 64 below the other's is less than a
/// two-to-the-fortieth part of the other's unit in the last place and cannot
/// change the rounded result: the sum is then the other term. An exact sum
/// of zero is negative only where both terms are.
pub open spec fn single_sum(a: u32, b: u32) -> u32 {
    if is_nan(a) || is_nan(b) {
        NAN_BITS
    } else if is_infinite(a) {
        if is_infinite(b) && sign_negative(a) != sign_negative(b) {
            NAN_BITS
        } else {
            a
        }
    } else if is_infinite(b) {
        b
    } else if exponent_of(a) - exponent_of(b) > 64 {
        a
    } else if exponent_of(b) - exponent_of(a) > 64 {
        b
    } else {
        let total = exact_sum(a, b);
        let low = if exponent_of(a) <= exponent_of(b) {
            exponent_of(a)
        } else {
            exponent_of(b)
        };
        if total == 0 {
            with_sign(sign_negative(a) && sign_negative(b), 0)
        } else if total < 0 {
            nearest_single(true, -total, 1, low)
        } else {
            nearest_single(false, total, 1, low)
        }
    }
}

/// The number with the opposite sign.
pub open spec fn single_negated(a: u32) -> u32 {
    if sign_negative(a) {
        (a - 0x8000_0000) as u32
    } else {
        (a + 0x8000_0000) as u32
    }
}

/// The sign, the exponent field and the fraction field of a pattern.
fn fields(bits: u32) -> (r: (bool, u32, u32))
    ensures
        r.0 == sign_negative(bits),
        r.1 == exponent_field(bits),
        r.2 == fraction_field(bits),
        r.1 <= 255,
        r.2 < 0x80_0000,
{
    (bits >= 0x8000_0000, (bits / 0x80_0000) % 0x100, bits % 0x80_0000)
}

/// The significand and the exponent of a finite number.
fn scale_of(exponent: u32, fraction: u32, Ghost(bits): Ghost<u32>) -> (r: (u128, i32))
    requires
        exponent == exponent_field(bits),
        fraction == fraction_field(bits),
    ensures
        r.0 == significand_of(bits),
        r.1 == exponent_of(bits),
        r.0 < 0x100_0000,
        -149 <= r.1 <= 105,
        r.1 > -149 ==> r.0 >= 0x80_0000,
{
    if exponent == 0 {
        (fraction as u128, -149i32)
    } else {
        (0x80_0000u128 + fraction as u128, exponent as i32 - 150)
    }
}

/// A zero or an infinity with its sign.
fn signed(negative: bool, magnitude: u32) -> (r: u32)
    requires
        magnitude <= 0x7f80_0000,
    ensures
        r == with_sign(negative, magnitude),
{
    if negative {
        magnitude + 0x8000_0000
    } else {
        magnitude
    }
}

/// The number that stands for an integer, rounded where the integer has
/// more than 24 significant bits.
pub fn single_from_integer(negative: bool, magnitude: u64) -> (r: u32)
    ensures
        r == single_of_integer(negative, magnitude as int),
{
    if magnitude == 0 {
        signed(negative, 0)
    } else {
        round_to_single(negative, magnitude as u128, 1, 0)
    }
}

/// Divides `a` by `b` as single precision does.
pub fn single_div(a: u32, b: u32) -> (r: u32)
    ensures
        r == single_quotient(a, b),
{
    let (a_negative, a_exponent, a_fraction) = fields(a);
    let (b_negative, b_exponent, b_fraction) = fields(b);
    let negative = a_negative != b_negative;
    if (a_exponent == 255 && a_fraction != 0) || (b_exponent == 255 && b_fraction != 0) {
        return NAN_BITS;
    }
    if a_exponent == 255 {
        if b_exponent == 255 {
            return NAN_BITS;
        }
        return signed(negative, INFINITY_BITS);
    }
    if b_exponent == 255 {
        return signed(negative, 0);
    }
    if b_exponent == 0 && b_fraction == 0 {
        if a_exponent == 0 && a_fraction == 0 {
            return NAN_BITS;
        }
        return signed(negative, INFINITY_BITS);
    }
    let (a_significand, a_scale) = scale_of(a_exponent, a_fraction, Ghost(a));
    let (b_significand, b_scale) = scale_of(b_exponent, b_fraction, Ghost(b));
    if a_significand == 0 {
        return signed(negative, 0);
    }
    round_to_single(negative, a_significand, b_significand, a_scale - b_scale)
}

/// Doubles `a` as single precision does.
pub fn single_double(a: u32) -> (r: u32)
    ensures
        r == single_doubled(a),
{
    let (negative, exponent, fraction) = fields(a);
    if exponent == 255 {
        if fraction != 0 {
            return NAN_BITS;
        }
        return a;
    }
    let (significand, scale) = scale_of(exponent, fraction, Ghost(a));
    if significand == 0 {
        return signed(negative, 0);
    }
    round_to_single(negative, 2 * significand, 1, scale)
}

/// A signed significand times a power of two, by magnitude and sign.
proof fn scaled_term(magnitude: int, negative: bool, k: int, factor: int)
    requires
        k >= 0,
        factor == pow2(k as nat),
    ensures
        times_pow2(
            if negative {
                -magnitude
            } else {
                magnitude
            },
            k,
        ) == if negative {
            -(magnitude * factor)
        } else {
            magnitude * factor
        },
{
    lemma2_to64();
    assert((-magnitude) * factor == -(magnitude * factor)) by (nonlinear_arith);
    if k == 0 {
        assert(magnitude * factor == magnitude) by (nonlinear_arith)
            requires
                factor == 1,
        ;
    }
}

/// Adds `a` and `b` as single precision does.
pub fn single_add(a: u32, b: u32) -> (r: u32)
    ensures
        r == single_sum(a, b),
{
    let (a_negative, a_exponent, a_fraction) = fields(a);
    let (b_negative, b_exponent, b_fraction) = fields(b);
    if (a_exponent == 255 && a_fraction != 0) || (b_exponent == 255 && b_fraction != 0) {
        return NAN_BITS;
    }
    if a_exponent == 255 {
        if b_exponent == 255 && a_negative != b_negative {
            return NAN_BITS;
        }
        return a;
    }
    if b_exponent == 255 {
        return b;
    }
    let (a_significand, a_scale) = scale_of(a_exponent, a_fraction, Ghost(a));
    let (b_significand, b_scale) = scale_of(b_exponent, b_fraction, Ghost(b));
    if a_scale - b_scale > 64 {
        return a;
    }
    if b_scale - a_scale > 64 {
        return b;
    }
    let low: i32 = if a_scale <= b_scale {
        a_scale
    } else {
        b_scale
    };
    let a_factor: u128 = two_to((a_scale - low) as u32);
    let b_factor: u128 = two_to((b_scale - low) as u32);
    proof {
        lemma2_to64();
        if a_scale - low < 64 {
            lemma_pow2_strictly_increases((a_scale - low) as nat, 64);
        }
        if b_scale - low < 64 {
            lemma_pow2_strictly_increases((b_scale - low) as nat, 64);
        }
        assert(a_significand * a_factor <= 0x100_0000 * 0x1_0000_0000_0000_0000)
            by (nonlinear_arith)
            requires
                a_significand < 0x100_0000,
                a_factor <= 0x1_0000_0000_0000_0000,
        ;
        assert(b_significand * b_factor <= 0x100_0000 * 0x1_0000_0000_0000_0000)
            by (nonlinear_arith)
            requires
                b_significand < 0x100_0000,
                b_factor <= 0x1_0000_0000_0000_0000,
        ;
        scaled_term(a_significand as int, a_negative, a_scale - low, a_factor as int);
        scaled_term(b_significand as int, b_negative, b_scale - low, b_factor as int);
    }
    let a_term: u128 = a_significand * a_factor;
    let b_term: u128 = b_significand * b_factor;
    if a_negative == b_negative {
        let total: u128 = a_term + b_term;
        if total == 0 {
            signed(a_negative, 0)
        } else {
            round_to_single(a_negative, total, 1, low)
        }
    } else if a_term > b_term {
        round_to_single(a_negative, a_term - b_term, 1, low)
    } else if b_term > a_term {
        round_to_single(b_negative, b_term - a_term, 1, low)
    } else {
        0
    }
}

/// Subtracts `b` from `a` as single precision does: adds the negated `b`.
pub fn single_sub(a: u32, b: u32) -> (r: u32)
    ensures
        r == single_sum(a, single_negated(b)),
{
    let negated: u32 = if b >= 0x8000_0000 {
        b - 0x8000_0000
    } else {
        b + 0x8000_0000
    };
    single_add(a, negated)
}

/// What is packed is never a NaN and never negative.
pub proof fn packed_is_a_number(significand: int, ulp: int)
    requires
        0 <= significand,
        -149 <= ulp,
    ensures
        !is_nan(packed(significand, ulp)),
        !sign_negative(packed(significand, ulp)),
        packed(significand, ulp) <= 0x7f80_0000,
        ulp > -149 ==> !is_zero(packed(significand, ulp)),
{
    let raw = (ulp + 149) * 0x80_0000 + significand;
    if raw < 0x7f80_0000 {
        if ulp > -149 {
            assert(raw >= 0x80_0000);
        }
    }
}

/// A positive integer stands as a positive number: not a NaN, not zero.
pub proof fn integers_are_positive_numbers(magnitude: int)
    requires
        0 < magnitude,
    ensures
        !is_nan(single_of_integer(false, magnitude)),
        !is_zero(single_of_integer(false, magnitude)),
        !sign_negative(single_of_integer(false, magnitude)),
{
    level_bounds_the_ratio(magnitude, 1);
    let ulp = ulp_exponent(magnitude, 1, 0);
    let num = times_pow2(magnitude, -ulp);
    let den = times_pow2(1, ulp);
    lemma_pow2_pos((-ulp) as nat);
    lemma_pow2_pos(ulp as nat);
    assert(num >= 0) by (nonlinear_arith)
        requires
            num == magnitude || num == magnitude * pow2((-ulp) as nat),
            magnitude > 0,
            pow2((-ulp) as nat) > 0,
    ;
    assert(den > 0) by (nonlinear_arith)
        requires
            den == 1 || den == 1 * pow2(ulp as nat),
            pow2(ulp as nat) > 0,
    ;
    assert(num / den >= 0) by {
        vstd::arithmetic::div_mod::lemma_div_pos_is_pos(num, den);
    }
    packed_is_a_number(rounded_ratio(num, den), ulp);
}

/// Zero divided by a positive number is zero.
pub proof fn zero_divided_is_zero(divisor: u32)
    requires
        !is_nan(divisor),
        !is_zero(divisor),
        !sign_negative(divisor),
    ensures
        single_quotient(0, divisor) == 0,
{
}

/// Zero added to a zero of either sign is zero.
pub proof fn zero_added_to_zero_is_zero(zero: u32)
    requires
        is_zero(zero),
    ensures
        single_sum(zero, 0) == 0,
{
    assert(zero == 0 || zero == 0x8000_0000);
    assert(exact_sum(zero, 0) == 0);
}

/// The level of an integer is its binary order of magnitude and nothing
/// else: an integer from `2^j` up to below `2^(j + 1)` has level `j`.
pub proof fn level_is_determined(num: int, j: nat)
    requires
        pow2(j) <= num < 2 * pow2(j),
    ensures
        level(num, 1) == j,
{
    lemma_pow2_pos(j);
    lemma2_to64();
    level_bounds_the_ratio(num, 1);
    let l = level(num, 1);
    assert(l >= 0);
    assert(times_pow2(1, l) == pow2(l as nat));
    assert(times_pow2(num, -l) == num);
    if l < j {
        lemma_pow2_unfold((l + 1) as nat);
        if l + 1 < j {
            lemma_pow2_strictly_increases((l + 1) as nat, j);
        }
    } else if l > j {
        lemma_pow2_unfold(j + 1);
        if j + 1 < l {
            lemma_pow2_strictly_increases(j + 1, l as nat);
        }
    }
}

/// A number divided by itself is one, unless it is zero, infinite or a NaN.
pub proof fn self_quotient_is_one(x: u32)
    requires
        !is_nan(x),
        !is_infinite(x),
        !is_zero(x),
    ensures
        single_quotient(x, x) == ONE_BITS,
{
    lemma2_to64();
    let m = significand_of(x);
    assert(m > 0);
    assert(level(m, m) == 0);
    assert(ulp_exponent(m, m, 0) == -23);
    assert(times_pow2(m, 23) == m * 0x80_0000);
    assert(times_pow2(m, -23) == m);
    assert((m * 0x80_0000) / m == 0x80_0000 && (m * 0x80_0000) % m == 0) by {
        vstd::arithmetic::div_mod::lemma_div_multiples_vanish(0x80_0000, m);
        vstd::arithmetic::div_mod::lemma_mod_multiples_basic(0x80_0000, m);
        assert(m * 0x80_0000 == 0x80_0000 * m) by (nonlinear_arith);
    }
    assert(rounded_ratio(m * 0x80_0000, m) == 0x80_0000);
}

/// A power of two up to `2^24` stands as itself: significand `2^23`, and the
/// unit in the last place 23 below the power.
pub proof fn power_of_two_is_exact(j: nat)
    requires
        j <= 24,
    ensures
        nearest_single(false, pow2(j) as int, 1, -23) == packed(0x80_0000, j - 46),
        single_of_integer(false, pow2(j) as int) == packed(0x80_0000, j - 23),
{
    lemma2_to64();
    lemma_pow2_pos(j);
    level_is_determined(pow2(j) as int, j);
    let n = pow2(j) as int;
    if j < 23 {
        lemma_pow2_adds(j, (23 - j) as nat);
    } else if j == 24 {
        assert(n == 0x100_0000);
        assert(pow2(1) == 2);
    }
    assert(rounded_ratio(times_pow2(n, 23 - j), times_pow2(1, j - 23)) == 0x80_0000);
}

/// An integer below `2^24` stands exactly: its pattern is a finite positive
/// number whose significand times two to its exponent is the integer.
pub proof fn small_integer_is_exact(n: int)
    requires
        1 <= n < 0x100_0000,
    ensures
        ({
            let l = level(n, 1);
            let x = single_of_integer(false, n);
            &&& 0 <= l <= 23
            &&& pow2(l as nat) <= n < 2 * pow2(l as nat)
            &&& significand_of(x) == n * pow2((23 - l) as nat)
            &&& exponent_of(x) == l - 23
            &&& !is_nan(x) && !is_infinite(x) && !is_zero(x) && !sign_negative(x)
        }),
{
    lemma2_to64();
    level_bounds_the_ratio(n, 1);
    let l = level(n, 1);
    assert(times_pow2(1, l) == pow2(l as nat));
    assert(times_pow2(n, -l) == n);
    if l >= 24 {
        if l > 24 {
            lemma_pow2_strictly_increases(24, l as nat);
        }
        assert(false);
    }
    let up = pow2((23 - l) as nat) as int;
    let low = pow2(l as nat) as int;
    lemma_pow2_adds(l as nat, (23 - l) as nat);
    assert(low * up == 0x80_0000);
    let sig = n * up;
    assert(0x80_0000 <= sig < 0x100_0000) by (nonlinear_arith)
        requires
            sig == n * up,
            low <= n < 2 * low,
            low * up == 0x80_0000,
            up > 0,
    ;
    assert(times_pow2(n, 23 - l) == sig) by {
        if l == 23 {
            assert(up == 1);
            assert(n * up == n) by (nonlinear_arith)
                requires
                    up == 1,
            ;
        }
    }
    assert(times_pow2(1, l - 23) == 1);
    assert(rounded_ratio(sig, 1) == sig);
    assert(single_of_integer(false, n) == packed(sig, l - 23));
    let raw = (l + 126) * 0x80_0000 + sig;
    assert(raw == (l + 127) * 0x80_0000 + (sig - 0x80_0000));
    assert(raw / 0x80_0000 == l + 127 && raw % 0x80_0000 == sig - 0x80_0000) by {
        vstd::arithmetic::div_mod::lemma_fundamental_div_mod_converse(
            raw,
            0x80_0000,
            l + 127,
            sig - 0x80_0000,
        );
    }
}

/// An integer up to `2^24`, given in units of `2^-23`, rounds to the number
/// that stands for the integer.
pub proof fn scaled_integer_is_the_integer(m: int)
    requires
        1 <= m <= 0x100_0000,
    ensures
        nearest_single(false, m * 0x80_0000, 1, -23) == single_of_integer(false, m),
{
    lemma2_to64();
    lemma2_to64_rest();
    if m == 0x100_0000 {
        power_of_two_is_exact(24);
        lemma_pow2_adds(24, 23);
        level_is_determined(0x8000_0000_0000int, 47);
        assert(times_pow2(0x8000_0000_0000int, -24) == 0x8000_0000_0000int);
        assert(times_pow2(1, 24) == 0x100_0000);
        assert(0x8000_0000_0000int / 0x100_0000 == 0x80_0000 && 0x8000_0000_0000int % 0x100_0000
            == 0) by {
            vstd::arithmetic::div_mod::lemma_fundamental_div_mod_converse(
                0x8000_0000_0000int,
                0x100_0000,
                0x80_0000,
                0,
            );
        }
        assert(rounded_ratio(0x8000_0000_0000int, 0x100_0000) == 0x80_0000);
    } else {
        small_integer_is_exact(m);
        let l = level(m, 1);
        let low = pow2(l as nat) as int;
        let up = pow2((23 - l) as nat) as int;
        lemma_pow2_adds(l as nat, (23 - l) as nat);
        lemma_pow2_adds(l as nat, 23);
        let big = m * 0x80_0000;
        let sig = m * up;
        assert(pow2((l + 23) as nat) <= big < 2 * pow2((l + 23) as nat)) by (nonlinear_arith)
            requires
                big == m * 0x80_0000,
                low <= m < 2 * low,
                pow2((l + 23) as nat) == low * 0x80_0000,
        ;
        level_is_determined(big, (l + 23) as nat);
        assert(big == sig * low) by (nonlinear_arith)
            requires
                big == m * 0x80_0000,
                sig == m * up,
                low * up == 0x80_0000,
        ;
        assert(times_pow2(big, -l) == big);
        assert(times_pow2(1, l) == low);
        assert(low > 0);
        assert((sig * low) / low == sig && (sig * low) % low == 0) by {
            vstd::arithmetic::div_mod::lemma_div_multiples_vanish(sig, low);
            vstd::arithmetic::div_mod::lemma_mod_multiples_basic(sig, low);
            assert(sig * low == low * sig) by (nonlinear_arith);
        }
        assert(rounded_ratio(big, low) == sig);
        assert(times_pow2(m, 23 - l) == sig) by {
            if l == 23 {
                assert(up == 1);
                assert(m * up == m) by (nonlinear_arith)
                    requires
                        up == 1,
                ;
            }
        }
        assert(times_pow2(1, l - 23) == 1);
        assert(rounded_ratio(sig, 1) == sig);
    }
}

/// One added to the number that stands for an integer below `2^24` is the
/// number that stands for the next integer.
pub proof fn one_more_is_the_next_integer(n: int)
    requires
        1 <= n < 0x100_0000,
    ensures
        single_sum(single_of_integer(false, n), ONE_BITS) == single_of_integer(false, n + 1),
{
    lemma2_to64();
    small_integer_is_exact(n);
    scaled_integer_is_the_integer(n + 1);
    let x = single_of_integer(false, n);
    let l = level(n, 1);
    let up = pow2((23 - l) as nat) as int;
    let low = pow2(l as nat) as int;
    lemma_pow2_adds(l as nat, (23 - l) as nat);
    assert(exponent_of(ONE_BITS) == -23 && significand_of(ONE_BITS) == 0x80_0000);
    assert(!is_nan(ONE_BITS) && !is_infinite(ONE_BITS) && !sign_negative(ONE_BITS));
    let sig = n * up;
    assert(times_pow2(sig, l) == n * 0x80_0000) by {
        if l == 0 {
            assert(up == 0x80_0000);
        } else {
            assert(sig * low == n * 0x80_0000) by (nonlinear_arith)
                requires
                    sig == n * up,
                    low * up == 0x80_0000,
            ;
        }
    }
    assert(exact_sum(x, ONE_BITS) == (n + 1) * 0x80_0000);
}

} // verus!
