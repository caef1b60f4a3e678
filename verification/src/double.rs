//! Coordinates travel as the bit patterns of IEEE 754 doubles (`f64::to_bits`).
//!
//! A pattern that is not a NaN denotes, up to its sign, `significand * 2^scale`;
//! the functions here read integers off a pattern without leaving integer
//! arithmetic.
use vstd::arithmetic::power2::{lemma_pow2_adds, lemma_pow2_pos, pow2};
use vstd::prelude::*;

verus! {

/// The pattern of positive infinity. Greater magnitudes are NaNs.
pub const INFINITY: u64 = 0x7FF0_0000_0000_0000;

/// The weight of the sign bit.
pub const SIGN: u64 = 0x8000_0000_0000_0000;

/// The number of fraction patterns, `2^52`.
pub const FRACTIONS: u64 = 0x10_0000_0000_0000;

/// Whether the sign bit is set.
pub open spec fn negative(bits: u64) -> bool {
    bits >= SIGN
}

/// The pattern without its sign bit. Patterns of one sign order as their magnitudes do.
pub open spec fn magnitude(bits: u64) -> int {
    if negative(bits) {
        bits - SIGN
    } else {
        bits as int
    }
}

/// Whether the pattern is a NaN.
pub open spec fn nan(bits: u64) -> bool {
    magnitude(bits) > INFINITY
}

/// The exponent field.
pub open spec fn exponent(bits: u64) -> int {
    magnitude(bits) / FRACTIONS as int
}

/// The integer that the fraction field stands for, with the implicit leading one.
pub open spec fn significand(bits: u64) -> int {
    magnitude(bits) % FRACTIONS as int + (if exponent(bits) == 0 {
        0
    } else {
        FRACTIONS as int
    })
}

/// The power of two by which the significand is scaled.
pub open spec fn scale(bits: u64) -> int {
    (if exponent(bits) == 0 {
        1
    } else {
        exponent(bits)
    }) - 1075
}

/// The greatest integer not above `m * 2^s`.
pub open spec fn floor_scaled(m: int, s: int) -> int {
    if s >= 0 {
        m * pow2(s as nat)
    } else {
        m / pow2((-s) as nat) as int
    }
}

/// The least integer not below `m * 2^s`.
pub open spec fn ceil_scaled(m: int, s: int) -> int {
    -floor_scaled(-m, s)
}

/// The integer nearest to `m * 2^s`; the greater one where two are as near.
pub open spec fn round_scaled(m: int, s: int) -> int {
    (floor_scaled(m, s + 1) + 1) / 2
}

/// `v`, moved into the range from `low` to `high`.
pub open spec fn saturate(v: int, low: int, high: int) -> int {
    if v < low {
        low
    } else if v > high {
        high
    } else {
        v
    }
}

/// `f64::floor` followed by a cast to `i32`.
pub open spec fn floor_of(bits: u64) -> int {
    if nan(bits) {
        0
    } else if negative(bits) {
        saturate(-ceil_scaled(significand(bits), scale(bits)), i32::MIN as int, i32::MAX as int)
    } else {
        saturate(floor_scaled(significand(bits), scale(bits)), i32::MIN as int, i32::MAX as int)
    }
}

/// A cast from `f64` to `i32`.
pub open spec fn truncation_of(bits: u64) -> int {
    let m = floor_scaled(significand(bits), scale(bits));
    if nan(bits) {
        0
    } else if negative(bits) {
        saturate(-m, i32::MIN as int, i32::MAX as int)
    } else {
        saturate(m, i32::MIN as int, i32::MAX as int)
    }
}

/// A multiplication by `2^12`, then `f64::round`, then a cast to `i64`.
pub open spec fn fixed_point_of(bits: u64) -> int {
    let m = round_scaled(significand(bits), scale(bits) + 12);
    if nan(bits) {
        0
    } else if negative(bits) {
        saturate(-m, i64::MIN as int, i64::MAX as int)
    } else {
        saturate(m, i64::MIN as int, i64::MAX as int)
    }
}

/// `f64::clamp` to the range from minus `limit` to `limit`.
pub open spec fn clamped(bits: u64, limit: u64) -> u64 {
    if nan(bits) || magnitude(bits) <= limit {
        bits
    } else if negative(bits) {
        (limit + SIGN) as u64
    } else {
        limit
    }
}

/// The sign, the significand and the scale of a pattern.
fn split(bits: u64) -> (parts: (bool, u64, i32))
    ensures
        parts.0 == negative(bits),
        parts.1 == significand(bits),
        parts.2 == scale(bits),
        parts.1 < 2 * FRACTIONS,
        parts.2 > -1074 ==> parts.1 >= FRACTIONS,
        -1074 <= parts.2 <= 972,
{
    let sign: bool = bits >= SIGN;
    let magnitude: u64 = if sign {
        bits - SIGN
    } else {
        bits
    };
    let exponent: u64 = magnitude / FRACTIONS;
    let fraction: u64 = magnitude % FRACTIONS;
    if exponent == 0 {
        (sign, fraction, -1074)
    } else {
        (sign, fraction + FRACTIONS, exponent as i32 - 1075)
    }
}

/// `floor_scaled(m, s)`, or nothing where it does not fit in a `u64`.
fn shift(m: u64, s: i32) -> (shifted: Option<u64>)
    requires
        m < 2 * FRACTIONS,
        s > -100 ==> m >= FRACTIONS,
        -2000 <= s <= 2000,
    ensures
        match shifted {
            Some(v) => v == floor_scaled(m as int, s as int),
            None => floor_scaled(m as int, s as int) > u64::MAX,
        },
{
    if s >= 12 {
        proof {
            vstd::arithmetic::power2::lemma2_to64();
            if s > 12 {
                vstd::arithmetic::power2::lemma_pow2_strictly_increases(12, s as nat);
            }
            assert(m * pow2(s as nat) >= FRACTIONS * 4096) by (nonlinear_arith)
                requires
                    m >= FRACTIONS,
                    pow2(s as nat) >= 4096,
            ;
        }
        None
    } else if s >= 0 {
        proof {
            vstd::arithmetic::power2::lemma2_to64();
            if s < 11 {
                vstd::arithmetic::power2::lemma_pow2_strictly_increases(s as nat, 11);
            }
            assert(m * pow2(s as nat) <= u64::MAX) by (nonlinear_arith)
                requires
                    m < 2 * FRACTIONS,
                    0 <= pow2(s as nat) <= 2048,
            ;
            vstd::bits::lemma_u64_shl_is_mul(m, s as u64);
        }
        Some(m << (s as u64))
    } else if s > -64 {
        proof {
            vstd::bits::lemma_u64_shr_is_div(m, (-s) as u64);
        }
        Some(m >> ((-s) as u64))
    } else {
        proof {
            vstd::arithmetic::power2::lemma2_to64();
            if -s > 64 {
                vstd::arithmetic::power2::lemma_pow2_strictly_increases(64, (-s) as nat);
            }
            vstd::arithmetic::div_mod::lemma_basic_div(m as int, pow2((-s) as nat) as int);
        }
        Some(0)
    }
}

/// Whether `m * 2^s` is an integer.
fn integral(m: u64, s: i32) -> (whole: bool)
    requires
        m < 2 * FRACTIONS,
        -2000 <= s <= 2000,
    ensures
        whole == (s >= 0 || m as int % pow2((-s) as nat) as int == 0),
{
    if s >= 0 {
        true
    } else if s > -64 {
        let k: u64 = (-s) as u64;
        let q: u64 = m >> k;
        proof {
            vstd::bits::lemma_u64_shr_is_div(m, k);
            lemma_pow2_pos(k as nat);
            vstd::arithmetic::div_mod::lemma_fundamental_div_mod(m as int, pow2(k as nat) as int);
            assert(q * pow2(k as nat) <= m) by (nonlinear_arith)
                requires
                    m == pow2(k as nat) * q + m as int % pow2(k as nat) as int,
                    0 <= m as int % pow2(k as nat) as int,
            ;
            vstd::bits::lemma_u64_shl_is_mul(q, k);
            assert(pow2(k as nat) * q == q * pow2(k as nat)) by (nonlinear_arith);
        }
        (q << k) == m
    } else {
        proof {
            vstd::arithmetic::power2::lemma2_to64();
            if -s > 64 {
                vstd::arithmetic::power2::lemma_pow2_strictly_increases(64, (-s) as nat);
            }
            vstd::arithmetic::div_mod::lemma_small_mod(m as nat, pow2((-s) as nat));
        }
        m == 0
    }
}

/// The greatest integer not above the denoted number, as an `i32`.
pub fn floor(bits: u64) -> (v: i32)
    ensures
        v == floor_of(bits),
{
    if is_nan(bits) {
        return 0;
    }
    let (sign, m, s) = split(bits);
    let whole: bool = integral(m, s);
    proof {
        lemma_ceil(m as int, s as int);
    }
    match shift(m, s) {
        None => if sign {
            i32::MIN
        } else {
            i32::MAX
        },
        Some(q) => if sign {
            let up: u64 = if whole {
                0
            } else {
                1
            };
            if q >= 0x8000_0000 {
                i32::MIN
            } else {
                (-((q + up) as i64)) as i32
            }
        } else if q > 0x7FFF_FFFF {
            i32::MAX
        } else {
            q as i32
        },
    }
}

/// The least integer not below `m * 2^s` is the greatest not above it, or the next.
proof fn lemma_ceil(m: int, s: int)
    requires
        0 <= m,
    ensures
        ceil_scaled(m, s) == floor_scaled(m, s) + (if s >= 0 || m % pow2((-s) as nat) as int == 0 {
            0int
        } else {
            1int
        }),
{
    if s >= 0 {
        assert((-m) * pow2(s as nat) == -(m * pow2(s as nat))) by (nonlinear_arith);
    } else {
        let p = pow2((-s) as nat) as int;
        lemma_pow2_pos((-s) as nat);
        vstd::arithmetic::div_mod::lemma_fundamental_div_mod(m, p);
        let q = m / p;
        let r = m % p;
        if r == 0 {
            assert(-m == p * (-q)) by (nonlinear_arith)
                requires
                    m == p * q,
            ;
            vstd::arithmetic::div_mod::lemma_fundamental_div_mod_converse(-m, p, -q, 0);
        } else {
            assert(-m == p * (-q - 1) + (p - r)) by (nonlinear_arith)
                requires
                    m == p * q + r,
            ;
            vstd::arithmetic::div_mod::lemma_fundamental_div_mod_converse(-m, p, -q - 1, p - r);
        }
    }
}

/// The denoted number without its fraction, as an `i32`.
pub fn truncate(bits: u64) -> (v: i32)
    ensures
        v == truncation_of(bits),
{
    if is_nan(bits) {
        return 0;
    }
    let (sign, m, s) = split(bits);
    match shift(m, s) {
        None => if sign {
            i32::MIN
        } else {
            i32::MAX
        },
        Some(q) => if sign {
            if q >= 0x8000_0000 {
                i32::MIN
            } else {
                (-(q as i64)) as i32
            }
        } else if q > 0x7FFF_FFFF {
            i32::MAX
        } else {
            q as i32
        },
    }
}

/// The denoted number times `2^12`, rounded to an `i64`, halves away from zero.
pub fn to_fixed_point(bits: u64) -> (v: i64)
    ensures
        v == fixed_point_of(bits),
{
    if is_nan(bits) {
        return 0;
    }
    let (sign, m, s) = split(bits);
    match shift(m, s + 13) {
        None => if sign {
            i64::MIN
        } else {
            i64::MAX
        },
        Some(doubled) => {
            let rounded: u64 = doubled / 2 + doubled % 2;
            if sign {
                if rounded >= 0x8000_0000_0000_0000 {
                    i64::MIN
                } else {
                    -(rounded as i64)
                }
            } else if rounded > 0x7FFF_FFFF_FFFF_FFFF {
                i64::MAX
            } else {
                rounded as i64
            }
        },
    }
}

/// Whether the pattern is a NaN.
pub fn is_nan(bits: u64) -> (r: bool)
    ensures
        r == nan(bits),
{
    let magnitude: u64 = if bits >= SIGN {
        bits - SIGN
    } else {
        bits
    };
    magnitude > INFINITY
}

/// The denoted number, moved into the range from minus `limit` to `limit`.
pub fn clamp(bits: u64, limit: u64) -> (v: u64)
    requires
        limit <= INFINITY,
    ensures
        v == clamped(bits, limit),
{
    let magnitude: u64 = if bits >= SIGN {
        bits - SIGN
    } else {
        bits
    };
    if magnitude > INFINITY || magnitude <= limit {
        bits
    } else if bits >= SIGN {
        limit + SIGN
    } else {
        limit
    }
}

/// Among patterns that are not negative and no NaNs, the greater one denotes the
/// greater number: with `t` a scale not above either one's, both sides are integers.
pub proof fn magnitudes_order_numbers(a: u64, b: u64, t: int)
    requires
        !negative(a),
        !negative(b),
        !nan(a),
        !nan(b),
        t <= scale(a),
        t <= scale(b),
    ensures
        a <= b <==> significand(a) * pow2((scale(a) - t) as nat) <= significand(b) * pow2(
            (scale(b) - t) as nat,
        ),
{
    if a < b {
        lemma_order(a, b, t);
    } else if b < a {
        lemma_order(b, a, t);
    }
}

proof fn lemma_order(a: u64, b: u64, t: int)
    requires
        !negative(a),
        !negative(b),
        a < b,
        t <= scale(a),
        t <= scale(b),
    ensures
        significand(a) * pow2((scale(a) - t) as nat) < significand(b) * pow2(
            (scale(b) - t) as nat,
        ),
{
    let pa = pow2((scale(a) - t) as nat);
    let pb = pow2((scale(b) - t) as nat);
    lemma_pow2_pos((scale(a) - t) as nat);
    lemma_pow2_pos((scale(b) - t) as nat);
    vstd::arithmetic::div_mod::lemma_div_is_ordered(a as int, b as int, FRACTIONS as int);
    if scale(a) == scale(b) {
        assert(significand(a) < significand(b));
        assert(significand(a) * pa < significand(b) * pb) by (nonlinear_arith)
            requires
                significand(a) < significand(b),
                pa == pb,
                pa > 0,
        ;
    } else {
        let d = (scale(b) - scale(a)) as nat;
        assert(d >= 1);
        lemma_pow2_adds((scale(a) - t) as nat, d);
        vstd::arithmetic::power2::lemma2_to64();
        if d > 1 {
            vstd::arithmetic::power2::lemma_pow2_strictly_increases(1, d);
        }
        assert(significand(a) < 2 * FRACTIONS);
        assert(significand(b) >= FRACTIONS);
        assert(pb >= 2 * pa) by (nonlinear_arith)
            requires
                pb == pa * pow2(d),
                pow2(d) >= 2,
        ;
        assert(significand(a) * pa < significand(b) * pb) by (nonlinear_arith)
            requires
                0 <= significand(a) < 2 * FRACTIONS,
                significand(b) >= FRACTIONS,
                pb >= 2 * pa,
                pa > 0,
        ;
    }
}

/// The number that a pattern denotes, without its sign and in units of `2^-1074`: the fraction
/// in its lower 52 bits, with a one in front of it and shifted by the eleven bits above where
/// those are not all zero.
pub open spec fn units(bits: u64) -> int {
    let exponent = bits as int / 0x10_0000_0000_0000 % 0x800;
    let fraction = bits as int % 0x10_0000_0000_0000;
    if exponent == 0 {
        fraction
    } else {
        (0x10_0000_0000_0000 + fraction) * pow2((exponent - 1) as nat)
    }
}

/// The number that a pattern denotes, in units of `2^-1074`. The top bit is its sign.
pub open spec fn signed_units(bits: u64) -> int {
    if bits >= 0x8000_0000_0000_0000 {
        -units(bits)
    } else {
        units(bits)
    }
}

proof fn lemma_units(bits: u64)
    ensures
        units(bits) == significand(bits) * pow2((scale(bits) + 1074) as nat),
        0 <= significand(bits),
        scale(bits) >= -1074,
        units(bits) >= 0,
        negative(bits) <==> bits >= 0x8000_0000_0000_0000,
{
    let m = magnitude(bits);
    assert(bits as int / 0x10_0000_0000_0000 % 0x800 == m / 0x10_0000_0000_0000);
    assert(bits as int % 0x10_0000_0000_0000 == m % 0x10_0000_0000_0000);
    lemma_pow2_pos((scale(bits) + 1074) as nat);
    let e = exponent(bits);
    let f = m % 0x10_0000_0000_0000;
    if e == 0 {
        vstd::arithmetic::power2::lemma2_to64();
        assert(significand(bits) == f && scale(bits) + 1074 == 0);
        assert(f * pow2(0) == f);
    } else {
        assert(significand(bits) == 0x10_0000_0000_0000 + f && scale(bits) + 1074 == e - 1);
    }
    assert(significand(bits) * pow2((scale(bits) + 1074) as nat) >= 0) by (nonlinear_arith)
        requires
            significand(bits) >= 0,
            pow2((scale(bits) + 1074) as nat) > 0,
    ;
}

/// Scaling by `2^s` and rounding down is the same in units of `2^-k`.
proof fn lemma_floor_scaled(m: int, s: int, k: nat)
    requires
        s + k >= 0,
    ensures
        floor_scaled(m, s) == m * pow2((s + k) as nat) / (pow2(k) as int),
{
    lemma_pow2_pos(k);
    lemma_pow2_pos((s + k) as nat);
    if s >= 0 {
        lemma_pow2_adds(s as nat, k);
        let (p, q) = (pow2(s as nat) as int, pow2(k) as int);
        assert(m * (p * q) == (m * p) * q) by (nonlinear_arith);
        vstd::arithmetic::div_mod::lemma_div_multiples_vanish(m * p, q);
        assert(q * (m * p) == (m * p) * q) by (nonlinear_arith);
    } else {
        lemma_pow2_adds((-s) as nat, (s + k) as nat);
        lemma_pow2_pos((-s) as nat);
        let (p, q) = (pow2((-s) as nat) as int, pow2((s + k) as nat) as int);
        let (d, r) = (m / p, m % p);
        vstd::arithmetic::div_mod::lemma_fundamental_div_mod(m, p);
        assert(m * q == (p * q) * d + r * q && 0 <= r * q < p * q) by (nonlinear_arith)
            requires
                m == p * d + r,
                0 <= r < p,
                q > 0,
        ;
        vstd::arithmetic::div_mod::lemma_fundamental_div_mod_converse(m * q, p * q, d, r * q);
    }
}

/// A double is rounded down to the greatest integer that is not above it, as far as an `i32`
/// reaches.
pub proof fn floors_lie_just_below(bits: u64)
    requires
        bits as int % 0x8000_0000_0000_0000 <= 0x7FF0_0000_0000_0000,
    ensures
        ({
            let below = signed_units(bits) / (pow2(1074) as int);
            floor_of(bits) == (if below < -0x8000_0000 {
                -0x8000_0000
            } else if below > 0x7FFF_FFFF {
                0x7FFF_FFFF
            } else {
                below
            })
        }),
{
    lemma_units(bits);
    let (m, s) = (significand(bits), scale(bits));
    lemma_floor_scaled(m, s, 1074);
    lemma_floor_scaled(-m, s, 1074);
    assert((-m) * pow2((s + 1074) as nat) == -(m * pow2((s + 1074) as nat))) by (nonlinear_arith);
}

/// A double is cut down to the integer next to it on the side of zero, as far as an `i32`
/// reaches.
pub proof fn truncations_lie_toward_zero(bits: u64)
    requires
        bits as int % 0x8000_0000_0000_0000 <= 0x7FF0_0000_0000_0000,
    ensures
        ({
            let whole = units(bits) / (pow2(1074) as int);
            truncation_of(bits) == (if bits >= 0x8000_0000_0000_0000 {
                if whole > 0x8000_0000 {
                    -0x8000_0000
                } else {
                    -whole
                }
            } else if whole > 0x7FFF_FFFF {
                0x7FFF_FFFF
            } else {
                whole
            })
        }),
{
    lemma_units(bits);
    lemma_floor_scaled(significand(bits), scale(bits), 1074);
    lemma_pow2_pos(1074);
    vstd::arithmetic::div_mod::lemma_div_pos_is_pos(units(bits), pow2(1074) as int);
}

/// In fixed point, a double is the integer that is nearest to 4096 times its number, of two
/// that are as near the one that is farther from zero, as far as an `i64` reaches.
pub proof fn fixed_points_are_nearest(bits: u64)
    requires
        bits as int % 0x8000_0000_0000_0000 <= 0x7FF0_0000_0000_0000,
    ensures
        ({
            let fixed = fixed_point_of(bits);
            let size = if fixed < 0 {
                -fixed
            } else {
                fixed
            };
            &&& bits < 0x8000_0000_0000_0000 ==> fixed >= 0
            &&& bits >= 0x8000_0000_0000_0000 ==> fixed <= 0
            &&& (2 * size - 1) * pow2(1074) <= 8192 * units(bits)
            &&& -0x8000_0000_0000_0000 < fixed < 0x7FFF_FFFF_FFFF_FFFF ==> 8192 * units(bits) < (2
                * size + 1) * pow2(1074)
        }),
{
    lemma_units(bits);
    let (m, s) = (significand(bits), scale(bits));
    let (u, p) = (units(bits), pow2(1074) as int);
    lemma_pow2_pos(1074);
    lemma_floor_scaled(m, s + 13, 1074);
    lemma_pow2_adds((s + 1074) as nat, 13);
    vstd::arithmetic::power2::lemma2_to64();
    let a = pow2((s + 1074) as nat) as int;
    assert(m * (a * 8192) == 8192 * (m * a)) by (nonlinear_arith);
    let doubled = floor_scaled(m, s + 13);
    assert(doubled == 8192 * u / p);
    vstd::arithmetic::div_mod::lemma_fundamental_div_mod(8192 * u, p);
    vstd::arithmetic::div_mod::lemma_div_pos_is_pos(8192 * u, p);
    let size = (doubled + 1) / 2;
    assert((2 * size - 1) * p <= 8192 * u && 8192 * u < (2 * size + 1) * p) by (nonlinear_arith)
        requires
            8192 * u == p * doubled + (8192 * u) % p,
            0 <= (8192 * u) % p < p,
            2 * size - 1 <= doubled <= 2 * size,
            p > 0,
    ;
    let fixed = fixed_point_of(bits);
    let taken = if fixed < 0 {
        -fixed
    } else {
        fixed
    };
    assert((2 * taken - 1) * p <= (2 * size - 1) * p) by (nonlinear_arith)
        requires
            taken <= size,
            p > 0,
    ;
}

/// No number is zero, rounded in whatever way.
pub proof fn nans_count_as_zero(bits: u64)
    requires
        bits as int % 0x8000_0000_0000_0000 > 0x7FF0_0000_0000_0000,
    ensures
        floor_of(bits) == 0,
        truncation_of(bits) == 0,
        fixed_point_of(bits) == 0,
{
}

pub(crate) proof fn lemma_units_order(a: u64, b: u64)
    requires
        magnitude(a) <= magnitude(b),
    ensures
        units(a) <= units(b),
        magnitude(a) < magnitude(b) ==> units(a) < units(b),
{
    lemma_units(a);
    lemma_units(b);
    let (x, y) = (magnitude(a) as u64, magnitude(b) as u64);
    lemma_units(x);
    lemma_units(y);
    assert(units(x) == units(a) && units(y) == units(b));
    if x < y {
        lemma_order(x, y, -1074);
    }
}

/// A number is moved to the nearest one within the limit on its side of zero: one that lies
/// within stays, and one beyond becomes the limit itself.
pub proof fn clamps_keep_what_is_within(bits: u64, limit: u64)
    requires
        limit <= 0x7FF0_0000_0000_0000,
        bits as int % 0x8000_0000_0000_0000 <= 0x7FF0_0000_0000_0000,
    ensures
        units(bits) <= units(limit) ==> clamped(bits, limit) == bits,
        units(bits) > units(limit) ==> signed_units(clamped(bits, limit)) == (if bits
            >= 0x8000_0000_0000_0000 {
            -units(limit)
        } else {
            units(limit)
        }),
{
    if magnitude(bits) <= limit {
        lemma_units_order(bits, limit);
    } else {
        lemma_units_order(limit, bits);
        let c = clamped(bits, limit);
        lemma_units_order(c, limit);
        lemma_units_order(limit, c);
    }
}

} // verus!
