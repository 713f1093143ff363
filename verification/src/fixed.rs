//! Fixed-point arithmetic in millionths.
//!
//! A quantity `q` is stored as the `i64` value `q * 1_000_000`. Every
//! operation saturates at the ends of `i64` instead of overflowing, and
//! divisions round toward zero.

use vstd::prelude::*;

verus! {

/// The stored value of the quantity one.
pub const ONE: i64 = 1_000_000;

/// `v` brought into the range of `i64`.
pub open spec fn saturate(v: int) -> i64 {
    if v < i64::MIN as int {
        i64::MIN
    } else if v > i64::MAX as int {
        i64::MAX
    } else {
        v as i64
    }
}

/// `v` brought into the range of `i32`.
pub open spec fn saturate_i32(v: int) -> i32 {
    if v < i32::MIN as int {
        i32::MIN
    } else if v > i32::MAX as int {
        i32::MAX
    } else {
        v as i32
    }
}

/// `v` brought into the range of `u32`.
pub open spec fn saturate_u32(v: int) -> u32 {
    if v < 0 {
        0u32
    } else if v > u32::MAX as int {
        u32::MAX
    } else {
        v as u32
    }
}

/// The quotient of `a` by a non-zero `b`, rounded toward zero.
pub open spec fn toward_zero(a: int, b: int) -> int {
    if a >= 0 {
        a / b
    } else {
        -((-a) / b)
    }
}

/// The whole number nearest to `a` millionths; halves move away from zero.
pub open spec fn nearest(a: int) -> int {
    if a >= 0 {
        (2 * a + 1_000_000) / 2_000_000
    } else {
        -((2 * (-a) + 1_000_000) / 2_000_000)
    }
}

/// The sum, saturated.
pub open spec fn plus_spec(a: i64, b: i64) -> i64 {
    saturate(a + b)
}

/// The difference, saturated.
pub open spec fn minus_spec(a: i64, b: i64) -> i64 {
    saturate(a - b)
}

/// The product of two fixed-point numbers, rounded toward zero and
/// saturated.
pub open spec fn times_spec(a: i64, b: i64) -> i64 {
    saturate(toward_zero(a * b, ONE as int))
}

/// The quotient of two fixed-point numbers, rounded toward zero and
/// saturated. Dividing by zero saturates in the direction of the dividend's
/// sign, and zero by zero is zero.
pub open spec fn over_spec(a: i64, b: i64) -> i64 {
    if b != 0 {
        saturate(toward_zero(a * ONE, b as int))
    } else if a > 0 {
        i64::MAX
    } else if a < 0 {
        i64::MIN
    } else {
        0i64
    }
}

/// One multiplied `n` times by `base`, each product rounded toward zero.
pub open spec fn power_whole(base: i64, n: nat) -> i64
    decreases n,
{
    if n == 0 {
        ONE
    } else {
        times_spec(power_whole(base, (n - 1) as nat), base)
    }
}

/// `base` raised to the whole part of `exponent`; an exponent below one
/// gives one.
pub open spec fn power_spec(base: i64, exponent: i64) -> i64 {
    power_whole(
        base,
        if exponent > 0 {
            (exponent / ONE) as nat
        } else {
            0
        },
    )
}

/// The absolute value, saturated.
pub open spec fn magnitude_spec(a: i64) -> i64 {
    saturate(if a < 0 { -a } else { a as int })
}

/// The fixed-point value of the whole number `n`, saturated.
pub open spec fn from_whole_spec(n: i64) -> i64 {
    saturate(n * ONE)
}

/// The whole part of `a`, rounded toward zero and brought into `i32`.
pub open spec fn whole_spec(a: i64) -> i32 {
    saturate_i32(toward_zero(a as int, ONE as int))
}

/// The whole part of `a`, rounded toward zero and brought into `u32`.
pub open spec fn whole_u32_spec(a: i64) -> u32 {
    saturate_u32(toward_zero(a as int, ONE as int))
}

/// The whole number nearest to `a`, halves away from zero, brought into
/// `i32`.
pub open spec fn round_spec(a: i64) -> i32 {
    saturate_i32(nearest(a as int))
}

/// A quotient rounded toward zero is no larger in size than its dividend.
pub proof fn lemma_quotient_bounded(a: int, b: int)
    by (nonlinear_arith)
    requires
        b != 0,
    ensures
        a >= 0 ==> -a <= toward_zero(a, b) <= a,
        a < 0 ==> a <= toward_zero(a, b) <= -a,
{
}

/// Nothing times anything is nothing.
pub proof fn lemma_times_zero(b: i64)
    ensures
        times_spec(0, b) == 0,
        times_spec(b, 0) == 0,
{
    assert(0 * b == 0 && b * 0 == 0) by (nonlinear_arith);
}

/// Brings a wide intermediate result back into `i64`.
fn narrow(v: i128) -> (r: i64)
    ensures
        r == saturate(v as int),
{
    if v < i64::MIN as i128 {
        i64::MIN
    } else if v > i64::MAX as i128 {
        i64::MAX
    } else {
        v as i64
    }
}

/// Saturating sum.
#[verifier::when_used_as_spec(plus_spec)]
pub fn plus(a: i64, b: i64) -> (r: i64)
    ensures
        r == plus_spec(a, b),
{
    narrow(a as i128 + b as i128)
}

/// Saturating difference.
#[verifier::when_used_as_spec(minus_spec)]
pub fn minus(a: i64, b: i64) -> (r: i64)
    ensures
        r == minus_spec(a, b),
{
    narrow(a as i128 - b as i128)
}

/// Saturating fixed-point product, rounded toward zero.
#[verifier::when_used_as_spec(times_spec)]
pub fn times(a: i64, b: i64) -> (r: i64)
    ensures
        r == times_spec(a, b),
{
    assert(-0x4000_0000_0000_0000_0000_0000_0000_0000 <= a * b
        <= 0x4000_0000_0000_0000_0000_0000_0000_0000) by (nonlinear_arith)
        requires
            -0x8000_0000_0000_0000 <= a <= 0x8000_0000_0000_0000,
            -0x8000_0000_0000_0000 <= b <= 0x8000_0000_0000_0000,
    ;
    let wide: i128 = a as i128 * b as i128;
    narrow(wide / (ONE as i128))
}

/// Saturating fixed-point quotient, rounded toward zero. A division by zero
/// saturates in the direction of the dividend's sign; zero by zero is zero.
#[verifier::when_used_as_spec(over_spec)]
pub fn over(a: i64, b: i64) -> (r: i64)
    ensures
        r == over_spec(a, b),
{
    if b != 0 {
        let wide: i128 = a as i128 * 1_000_000i128;
        proof {
            lemma_quotient_bounded(wide as int, b as int);
        }
        narrow(wide / (b as i128))
    } else if a > 0 {
        i64::MAX
    } else if a < 0 {
        i64::MIN
    } else {
        0
    }
}

/// `base` raised to the whole part of `exponent`, by repeated
/// multiplication. What `exponent` holds after the point is dropped, and an
/// exponent below one gives one.
#[verifier::when_used_as_spec(power_spec)]
pub fn power(base: i64, exponent: i64) -> (r: i64)
    ensures
        r == power_spec(base, exponent),
{
    let count: i64 = if exponent > 0 {
        exponent / ONE
    } else {
        0
    };
    let mut r: i64 = ONE;
    let mut done: i64 = 0;
    while done < count
        invariant
            0 <= done <= count,
            r == power_whole(base, done as nat),
        decreases count - done,
    {
        r = times(r, base);
        done += 1;
    }
    r
}

/// Saturating absolute value.
#[verifier::when_used_as_spec(magnitude_spec)]
pub fn magnitude(a: i64) -> (r: i64)
    ensures
        r == magnitude_spec(a),
{
    if a < 0 {
        narrow(-(a as i128))
    } else {
        a
    }
}

/// The fixed-point value of a whole number, saturating.
#[verifier::when_used_as_spec(from_whole_spec)]
pub fn from_whole(n: i64) -> (r: i64)
    ensures
        r == from_whole_spec(n),
{
    narrow(n as i128 * 1_000_000i128)
}

/// The whole part of `a`, rounded toward zero and saturated to `i32`.
#[verifier::when_used_as_spec(whole_spec)]
pub fn whole(a: i64) -> (r: i32)
    ensures
        r == whole_spec(a),
{
    let q: i64 = a / ONE;
    if q < i32::MIN as i64 {
        i32::MIN
    } else if q > i32::MAX as i64 {
        i32::MAX
    } else {
        q as i32
    }
}

/// The whole part of `a`, rounded toward zero and saturated to `u32`.
#[verifier::when_used_as_spec(whole_u32_spec)]
pub fn whole_u32(a: i64) -> (r: u32)
    ensures
        r == whole_u32_spec(a),
{
    let q: i64 = a / ONE;
    if q < 0 {
        0
    } else if q > u32::MAX as i64 {
        u32::MAX
    } else {
        q as u32
    }
}

/// The whole number nearest to `a`, halves away from zero, saturated to `i32`.
#[verifier::when_used_as_spec(round_spec)]
pub fn round(a: i64) -> (r: i32)
    ensures
        r == round_spec(a),
{
    let wide: i128 = a as i128;
    let q: i128 = if wide >= 0 {
        (2 * wide + 1_000_000) / 2_000_000
    } else {
        -((2 * (-wide) + 1_000_000) / 2_000_000)
    };
    if q < i32::MIN as i128 {
        i32::MIN
    } else if q > i32::MAX as i128 {
        i32::MAX
    } else {
        q as i32
    }
}

} // verus!
