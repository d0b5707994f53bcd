//! Floating-point values as their IEEE 754 bit patterns: classification,
//! sign operations, comparison, minimum and maximum, and truncation to
//! integers.
//!
//! A pattern has a sign bit, an exponent field and a fraction field. An
//! `F32` is carried in the low 32 bits of a `u64` here, the high bits zero.
use crate::exec::Fault;
use vstd::arithmetic::power2::{
    lemma2_to64, lemma2_to64_rest, lemma_pow2_pos, lemma_pow2_strictly_increases,
    lemma_pow2_unfold, pow2,
};
use vstd::prelude::*;

verus! {

/// The canonical NaN of an `F32`.
pub const F32_NAN: u32 = 0x7fc0_0000;

/// The canonical NaN of an `F64`.
pub const F64_NAN: u64 = 0x7ff8_0000_0000_0000;

/// The number of fraction bits: 23, or 52 for the wide format.
pub open spec fn fraction_bits(wide: bool) -> nat {
    if wide {
        52
    } else {
        23
    }
}

/// The exponent field of a finite number whose lowest bit weighs 1: the
/// bias plus the number of fraction bits.
pub open spec fn unit_exponent(wide: bool) -> int {
    if wide {
        1075
    } else {
        150
    }
}

/// Whether the sign bit is set.
pub open spec fn is_negative(bits: u64, wide: bool) -> bool {
    if wide {
        bits >= 0x8000_0000_0000_0000
    } else {
        bits >= 0x8000_0000
    }
}

/// The pattern without its sign bit.
pub open spec fn magnitude(bits: u64, wide: bool) -> int {
    if wide {
        (bits % 0x8000_0000_0000_0000) as int
    } else {
        (bits % 0x8000_0000) as int
    }
}

/// The exponent field.
pub open spec fn exponent(bits: u64, wide: bool) -> int {
    if wide {
        ((bits / 0x10_0000_0000_0000) % 2048) as int
    } else {
        ((bits / 0x80_0000) % 256) as int
    }
}

/// The fraction field.
pub open spec fn fraction(bits: u64, wide: bool) -> int {
    if wide {
        (bits % 0x10_0000_0000_0000) as int
    } else {
        (bits % 0x80_0000) as int
    }
}

/// Whether the pattern is a NaN: the exponent field all ones, the fraction
/// not zero.
pub open spec fn is_nan(bits: u64, wide: bool) -> bool {
    exponent(bits, wide) == (if wide {
        2047int
    } else {
        255int
    }) && fraction(bits, wide) != 0
}

/// Whether the pattern is an infinity: the exponent field all ones, the
/// fraction zero.
pub open spec fn is_infinite(bits: u64, wide: bool) -> bool {
    exponent(bits, wide) == (if wide {
        2047int
    } else {
        255int
    }) && fraction(bits, wide) == 0
}

/// The whole part of the magnitude of a finite number. The number is its
/// significand, which is the fraction with the hidden bit where the
/// exponent field is not zero, times two to the power of the exponent
/// field less the unit exponent; a zero exponent field counts as 1.
pub open spec fn whole(bits: u64, wide: bool) -> nat {
    let e = exponent(bits, wide);
    let significand = if e == 0 {
        fraction(bits, wide)
    } else {
        fraction(bits, wide) + pow2(fraction_bits(wide))
    };
    let scale = (if e == 0 {
        1
    } else {
        e
    }) - unit_exponent(wide);
    if scale >= 0 {
        (significand * pow2(scale as nat)) as nat
    } else {
        (significand / (pow2((-scale) as nat) as int)) as nat
    }
}

/// A finite number, truncated toward zero.
pub open spec fn truncated(bits: u64, wide: bool) -> int {
    if is_negative(bits, wide) {
        -(whole(bits, wide) as int)
    } else {
        whole(bits, wide) as int
    }
}

/// The place of a number that is no NaN in the order of the numbers: its
/// magnitude pattern, negated where the sign bit is set. Both zeros have
/// the place 0.
pub open spec fn order_key(bits: u64, wide: bool) -> int {
    if is_negative(bits, wide) {
        -magnitude(bits, wide)
    } else {
        magnitude(bits, wide)
    }
}

/// The truncation of a float to an integer between `min` and `max`: a NaN
/// is an invalid conversion; an infinity, or a number whose truncation
/// toward zero lies outside, is an overflow.
pub open spec fn spec_trunc(bits: u64, wide: bool, min: int, max: int) -> Result<int, Fault> {
    if is_nan(bits, wide) {
        Err(Fault::InvalidConversion)
    } else if is_infinite(bits, wide) {
        Err(Fault::IntegerOverflow)
    } else if min <= truncated(bits, wide) <= max {
        Ok(truncated(bits, wide))
    } else {
        Err(Fault::IntegerOverflow)
    }
}

/// The saturating truncation of a float to an integer between `min` and
/// `max`: 0 for a NaN, and the nearer bound for an infinity or a number
/// whose truncation toward zero lies outside.
pub open spec fn spec_trunc_sat(bits: u64, wide: bool, min: int, max: int) -> int {
    if is_nan(bits, wide) {
        0
    } else if is_infinite(bits, wide) {
        if is_negative(bits, wide) {
            min
        } else {
            max
        }
    } else if truncated(bits, wide) < min {
        min
    } else if truncated(bits, wide) > max {
        max
    } else {
        truncated(bits, wide)
    }
}

/// Two to the power `k`, for `k` at most 63.
fn power_of_two(k: u64) -> (p: u64)
    requires
        k <= 63,
    ensures
        p == pow2(k as nat),
{
    let mut p: u64 = 1;
    let mut i: u64 = 0;
    proof {
        lemma2_to64();
    }
    while i < k
        invariant
            i <= k <= 63,
            p == pow2(i as nat),
        decreases k - i,
    {
        proof {
            lemma_pow2_unfold((i + 1) as nat);
            lemma_pow2_strictly_increases((i + 1) as nat, 64);
            lemma2_to64();
        }
        p = p * 2;
        i = i + 1;
    }
    p
}

/// The sign, the exponent field and the fraction field of a pattern.
fn fields(bits: u64, wide: bool) -> (r: (bool, u64, u64))
    requires
        !wide ==> bits <= 0xffff_ffff,
    ensures
        r.0 == is_negative(bits, wide),
        r.1 == exponent(bits, wide),
        r.2 == fraction(bits, wide),
{
    if wide {
        (bits >= 0x8000_0000_0000_0000, (bits / 0x10_0000_0000_0000) % 2048, bits % 0x10_0000_0000_0000)
    } else {
        (bits >= 0x8000_0000, (bits / 0x80_0000) % 256, bits % 0x80_0000)
    }
}

/// The whole part of the magnitude of a finite number, where it is below
/// 2^64.
fn whole_part(bits: u64, wide: bool) -> (r: Option<u64>)
    requires
        !wide ==> bits <= 0xffff_ffff,
    ensures
        r == if whole(bits, wide) <= u64::MAX {
            Some(whole(bits, wide) as u64)
        } else {
            None
        },
{
    let (_, e, f) = fields(bits, wide);
    let fb: u64 = if wide {
        52
    } else {
        23
    };
    let unit: u64 = if wide {
        1075
    } else {
        150
    };
    proof {
        lemma2_to64();
        lemma2_to64_rest();
    }
    let hidden: u64 = power_of_two(fb);
    if e == 0 {
        proof {
            lemma_pow2_strictly_increases(fb as nat, (unit - 1) as nat);
            lemma_zero_quotient(f as int, pow2((unit - 1) as nat) as int);
        }
        return Some(0);
    }
    let significand: u64 = f + hidden;
    if e >= unit {
        let scale: u64 = e - unit;
        if scale >= 64 - fb {
            proof {
                lemma_pow2_pos(scale as nat);
                if scale > 64 - fb {
                    lemma_pow2_strictly_increases((64 - fb) as nat, scale as nat);
                }
                lemma_product_at_least(
                    significand as int,
                    pow2(scale as nat) as int,
                    hidden as int,
                    pow2((64 - fb) as nat) as int,
                );
            }
            return None;
        }
        let p = power_of_two(scale);
        proof {
            if scale < 63 - fb {
                lemma_pow2_strictly_increases(scale as nat, (63 - fb) as nat);
            }
            lemma_product_at_most(
                significand as int,
                p as int,
                2 * hidden - 1,
                pow2((63 - fb) as nat) as int,
            );
        }
        Some(significand * p)
    } else {
        let k: u64 = unit - e;
        if k > fb + 1 {
            proof {
                lemma_pow2_strictly_increases((fb + 1) as nat, k as nat);
                lemma_zero_quotient(significand as int, pow2(k as nat) as int);
            }
            return Some(0);
        }
        let p = power_of_two(k);
        proof {
            lemma_pow2_pos(k as nat);
        }
        Some(significand / p)
    }
}

proof fn lemma_zero_quotient(a: int, b: int)
    requires
        0 <= a < b,
    ensures
        a / b == 0,
{
    vstd::arithmetic::div_mod::lemma_basic_div(a, b);
}

proof fn lemma_product_at_least(a: int, b: int, c: int, d: int)
    requires
        a >= c >= 0,
        b >= d >= 0,
    ensures
        a * b >= c * d,
{
    assert(a * b >= c * d) by (nonlinear_arith)
        requires
            a >= c >= 0,
            b >= d >= 0,
    ;
}

proof fn lemma_product_at_most(a: int, b: int, c: int, d: int)
    requires
        0 <= a <= c,
        0 <= b <= d,
    ensures
        0 <= a * b <= c * d,
{
    assert(0 <= a * b <= c * d) by (nonlinear_arith)
        requires
            0 <= a <= c,
            0 <= b <= d,
    ;
}

/// Truncates a float to an integer between `-below` and `above`, both at
/// most 2^64 - 1 in magnitude.
fn trunc_within(bits: u64, wide: bool, below: u64, above: u64) -> (r: Result<(bool, u64), Fault>)
    requires
        !wide ==> bits <= 0xffff_ffff,
    ensures
        match spec_trunc(bits, wide, -(below as int), above as int) {
            Ok(t) => r is Ok && t == (if r->Ok_0.0 {
                -(r->Ok_0.1 as int)
            } else {
                r->Ok_0.1 as int
            }) && (r->Ok_0.0 ==> r->Ok_0.1 > 0),
            Err(f) => r == Err::<(bool, u64), Fault>(f),
        },
{
    let (negative, e, f) = fields(bits, wide);
    let exponent_max: u64 = if wide {
        2047
    } else {
        255
    };
    if e == exponent_max {
        if f != 0 {
            return Err(Fault::InvalidConversion);
        }
        return Err(Fault::IntegerOverflow);
    }
    match whole_part(bits, wide) {
        Some(w) => {
            if negative {
                if w > below {
                    Err(Fault::IntegerOverflow)
                } else {
                    Ok((w > 0, w))
                }
            } else {
                if w > above {
                    Err(Fault::IntegerOverflow)
                } else {
                    Ok((false, w))
                }
            }
        },
        None => Err(Fault::IntegerOverflow),
    }
}

/// Truncates a float to an integer between `-below` and `above`, both at
/// most 2^64 - 1 in magnitude, with saturation.
fn trunc_sat_within(bits: u64, wide: bool, below: u64, above: u64) -> (r: (bool, u64))
    requires
        !wide ==> bits <= 0xffff_ffff,
    ensures
        spec_trunc_sat(bits, wide, -(below as int), above as int) == (if r.0 {
            -(r.1 as int)
        } else {
            r.1 as int
        }),
        r.0 ==> 0 < r.1 <= below,
        !r.0 ==> r.1 <= above,
{
    let (negative, e, f) = fields(bits, wide);
    let exponent_max: u64 = if wide {
        2047
    } else {
        255
    };
    if e == exponent_max {
        if f != 0 {
            return (false, 0);
        }
        if negative {
            return (below > 0, below);
        }
        return (false, above);
    }
    match whole_part(bits, wide) {
        Some(w) => {
            if negative {
                if w > below {
                    (below > 0, below)
                } else {
                    (w > 0, w)
                }
            } else {
                if w > above {
                    (false, above)
                } else {
                    (false, w)
                }
            }
        },
        None => {
            if negative {
                (below > 0, below)
            } else {
                (false, above)
            }
        },
    }
}

/// `i32.trunc_f32_s`.
pub open spec fn spec_trunc_f32_to_i32(bits: u32) -> Result<i32, Fault> {
    match spec_trunc(bits as u64, false, i32::MIN as int, i32::MAX as int) {
        Ok(t) => Ok(t as i32),
        Err(f) => Err(f),
    }
}

/// `i32.trunc_f32_u`.
pub open spec fn spec_trunc_f32_to_u32(bits: u32) -> Result<u32, Fault> {
    match spec_trunc(bits as u64, false, 0, u32::MAX as int) {
        Ok(t) => Ok(t as u32),
        Err(f) => Err(f),
    }
}

/// `i32.trunc_f64_s`.
pub open spec fn spec_trunc_f64_to_i32(bits: u64) -> Result<i32, Fault> {
    match spec_trunc(bits, true, i32::MIN as int, i32::MAX as int) {
        Ok(t) => Ok(t as i32),
        Err(f) => Err(f),
    }
}

/// `i32.trunc_f64_u`.
pub open spec fn spec_trunc_f64_to_u32(bits: u64) -> Result<u32, Fault> {
    match spec_trunc(bits, true, 0, u32::MAX as int) {
        Ok(t) => Ok(t as u32),
        Err(f) => Err(f),
    }
}

/// `i64.trunc_f32_s`.
pub open spec fn spec_trunc_f32_to_i64(bits: u32) -> Result<i64, Fault> {
    match spec_trunc(bits as u64, false, i64::MIN as int, i64::MAX as int) {
        Ok(t) => Ok(t as i64),
        Err(f) => Err(f),
    }
}

/// `i64.trunc_f32_u`.
pub open spec fn spec_trunc_f32_to_u64(bits: u32) -> Result<u64, Fault> {
    match spec_trunc(bits as u64, false, 0, u64::MAX as int) {
        Ok(t) => Ok(t as u64),
        Err(f) => Err(f),
    }
}

/// `i64.trunc_f64_s`.
pub open spec fn spec_trunc_f64_to_i64(bits: u64) -> Result<i64, Fault> {
    match spec_trunc(bits, true, i64::MIN as int, i64::MAX as int) {
        Ok(t) => Ok(t as i64),
        Err(f) => Err(f),
    }
}

/// `i64.trunc_f64_u`.
pub open spec fn spec_trunc_f64_to_u64(bits: u64) -> Result<u64, Fault> {
    match spec_trunc(bits, true, 0, u64::MAX as int) {
        Ok(t) => Ok(t as u64),
        Err(f) => Err(f),
    }
}

/// The signed 32-bit integer of a sign and a magnitude within its range.
fn signed_32(negative: bool, w: u64) -> (r: i32)
    requires
        negative ==> w <= 0x8000_0000,
        !negative ==> w <= 0x7fff_ffff,
    ensures
        r == (if negative {
            -(w as int)
        } else {
            w as int
        }),
{
    if negative {
        (-(w as i64)) as i32
    } else {
        w as i32
    }
}

/// The signed 64-bit integer of a sign and a magnitude within its range.
fn signed_64(negative: bool, w: u64) -> (r: i64)
    requires
        negative ==> w <= 0x8000_0000_0000_0000,
        !negative ==> w <= 0x7fff_ffff_ffff_ffff,
    ensures
        r == (if negative {
            -(w as int)
        } else {
            w as int
        }),
{
    if negative {
        (-(w as i128)) as i64
    } else {
        w as i64
    }
}

/// `i32.trunc_f32_s`.
#[verifier::when_used_as_spec(spec_trunc_f32_to_i32)]
pub fn trunc_f32_to_i32(bits: u32) -> (r: Result<i32, Fault>)
    ensures
        r == spec_trunc_f32_to_i32(bits),
{
    let (negative, w) = trunc_within(bits as u64, false, 0x8000_0000, 0x7fff_ffff)?;
    Ok(signed_32(negative, w))
}

/// `i32.trunc_f32_u`.
#[verifier::when_used_as_spec(spec_trunc_f32_to_u32)]
pub fn trunc_f32_to_u32(bits: u32) -> (r: Result<u32, Fault>)
    ensures
        r == spec_trunc_f32_to_u32(bits),
{
    let (_, w) = trunc_within(bits as u64, false, 0, 0xffff_ffff)?;
    Ok(w as u32)
}

/// `i32.trunc_f64_s`.
#[verifier::when_used_as_spec(spec_trunc_f64_to_i32)]
pub fn trunc_f64_to_i32(bits: u64) -> (r: Result<i32, Fault>)
    ensures
        r == spec_trunc_f64_to_i32(bits),
{
    let (negative, w) = trunc_within(bits, true, 0x8000_0000, 0x7fff_ffff)?;
    Ok(signed_32(negative, w))
}

/// `i32.trunc_f64_u`.
#[verifier::when_used_as_spec(spec_trunc_f64_to_u32)]
pub fn trunc_f64_to_u32(bits: u64) -> (r: Result<u32, Fault>)
    ensures
        r == spec_trunc_f64_to_u32(bits),
{
    let (_, w) = trunc_within(bits, true, 0, 0xffff_ffff)?;
    Ok(w as u32)
}

/// `i64.trunc_f32_s`.
#[verifier::when_used_as_spec(spec_trunc_f32_to_i64)]
pub fn trunc_f32_to_i64(bits: u32) -> (r: Result<i64, Fault>)
    ensures
        r == spec_trunc_f32_to_i64(bits),
{
    let (negative, w) = trunc_within(
        bits as u64,
        false,
        0x8000_0000_0000_0000,
        0x7fff_ffff_ffff_ffff,
    )?;
    Ok(signed_64(negative, w))
}

/// `i64.trunc_f32_u`.
#[verifier::when_used_as_spec(spec_trunc_f32_to_u64)]
pub fn trunc_f32_to_u64(bits: u32) -> (r: Result<u64, Fault>)
    ensures
        r == spec_trunc_f32_to_u64(bits),
{
    let (_, w) = trunc_within(bits as u64, false, 0, 0xffff_ffff_ffff_ffff)?;
    Ok(w)
}

/// `i64.trunc_f64_s`.
#[verifier::when_used_as_spec(spec_trunc_f64_to_i64)]
pub fn trunc_f64_to_i64(bits: u64) -> (r: Result<i64, Fault>)
    ensures
        r == spec_trunc_f64_to_i64(bits),
{
    let (negative, w) = trunc_within(bits, true, 0x8000_0000_0000_0000, 0x7fff_ffff_ffff_ffff)?;
    Ok(signed_64(negative, w))
}

/// `i64.trunc_f64_u`.
#[verifier::when_used_as_spec(spec_trunc_f64_to_u64)]
pub fn trunc_f64_to_u64(bits: u64) -> (r: Result<u64, Fault>)
    ensures
        r == spec_trunc_f64_to_u64(bits),
{
    let (_, w) = trunc_within(bits, true, 0, 0xffff_ffff_ffff_ffff)?;
    Ok(w)
}

/// `i32.trunc_sat_f32_s` and `i32.trunc_sat_f64_s`.
pub open spec fn spec_trunc_sat_to_i32(bits: u64, wide: bool) -> i32 {
    spec_trunc_sat(bits, wide, i32::MIN as int, i32::MAX as int) as i32
}

/// `i32.trunc_sat_f32_u` and `i32.trunc_sat_f64_u`.
pub open spec fn spec_trunc_sat_to_u32(bits: u64, wide: bool) -> u32 {
    spec_trunc_sat(bits, wide, 0, u32::MAX as int) as u32
}

/// `i64.trunc_sat_f32_s` and `i64.trunc_sat_f64_s`.
pub open spec fn spec_trunc_sat_to_i64(bits: u64, wide: bool) -> i64 {
    spec_trunc_sat(bits, wide, i64::MIN as int, i64::MAX as int) as i64
}

/// `i64.trunc_sat_f32_u` and `i64.trunc_sat_f64_u`.
pub open spec fn spec_trunc_sat_to_u64(bits: u64, wide: bool) -> u64 {
    spec_trunc_sat(bits, wide, 0, u64::MAX as int) as u64
}

/// `i32.trunc_sat_f32_s` and `i32.trunc_sat_f64_s`.
#[verifier::when_used_as_spec(spec_trunc_sat_to_i32)]
pub fn trunc_sat_to_i32(bits: u64, wide: bool) -> (r: i32)
    requires
        !wide ==> bits <= 0xffff_ffff,
    ensures
        r == spec_trunc_sat_to_i32(bits, wide),
{
    let (negative, w) = trunc_sat_within(bits, wide, 0x8000_0000, 0x7fff_ffff);
    signed_32(negative, w)
}

/// `i32.trunc_sat_f32_u` and `i32.trunc_sat_f64_u`.
#[verifier::when_used_as_spec(spec_trunc_sat_to_u32)]
pub fn trunc_sat_to_u32(bits: u64, wide: bool) -> (r: u32)
    requires
        !wide ==> bits <= 0xffff_ffff,
    ensures
        r == spec_trunc_sat_to_u32(bits, wide),
{
    let (_, w) = trunc_sat_within(bits, wide, 0, 0xffff_ffff);
    w as u32
}

/// `i64.trunc_sat_f32_s` and `i64.trunc_sat_f64_s`.
#[verifier::when_used_as_spec(spec_trunc_sat_to_i64)]
pub fn trunc_sat_to_i64(bits: u64, wide: bool) -> (r: i64)
    requires
        !wide ==> bits <= 0xffff_ffff,
    ensures
        r == spec_trunc_sat_to_i64(bits, wide),
{
    let (negative, w) = trunc_sat_within(bits, wide, 0x8000_0000_0000_0000, 0x7fff_ffff_ffff_ffff);
    signed_64(negative, w)
}

/// `i64.trunc_sat_f32_u` and `i64.trunc_sat_f64_u`.
#[verifier::when_used_as_spec(spec_trunc_sat_to_u64)]
pub fn trunc_sat_to_u64(bits: u64, wide: bool) -> (r: u64)
    requires
        !wide ==> bits <= 0xffff_ffff,
    ensures
        r == spec_trunc_sat_to_u64(bits, wide),
{
    let (_, w) = trunc_sat_within(bits, wide, 0, 0xffff_ffff_ffff_ffff);
    w
}

/// Whether the pattern is a NaN.
pub fn float_is_nan(bits: u64, wide: bool) -> (r: bool)
    requires
        !wide ==> bits <= 0xffff_ffff,
    ensures
        r == is_nan(bits, wide),
{
    let (_, e, f) = fields(bits, wide);
    if wide {
        e == 2047 && f != 0
    } else {
        e == 255 && f != 0
    }
}

/// The place of a number in the order of the numbers.
fn float_key(bits: u64, wide: bool) -> (r: i128)
    requires
        !wide ==> bits <= 0xffff_ffff,
    ensures
        r == order_key(bits, wide),
{
    if wide {
        if bits >= 0x8000_0000_0000_0000 {
            -((bits % 0x8000_0000_0000_0000) as i128)
        } else {
            (bits % 0x8000_0000_0000_0000) as i128
        }
    } else {
        if bits >= 0x8000_0000 {
            -((bits % 0x8000_0000) as i128)
        } else {
            (bits % 0x8000_0000) as i128
        }
    }
}

/// Equality of two floats: neither a NaN, and the same place in the order.
pub open spec fn spec_float_eq(a: u64, b: u64, wide: bool) -> bool {
    !is_nan(a, wide) && !is_nan(b, wide) && order_key(a, wide) == order_key(b, wide)
}

/// Whether the first float is less than the second: neither a NaN, and
/// the first before the second in the order.
pub open spec fn spec_float_lt(a: u64, b: u64, wide: bool) -> bool {
    !is_nan(a, wide) && !is_nan(b, wide) && order_key(a, wide) < order_key(b, wide)
}

/// Whether the first float is less than or equal to the second.
pub open spec fn spec_float_le(a: u64, b: u64, wide: bool) -> bool {
    !is_nan(a, wide) && !is_nan(b, wide) && order_key(a, wide) <= order_key(b, wide)
}

/// Whether two floats are equal.
#[verifier::when_used_as_spec(spec_float_eq)]
pub fn float_eq(a: u64, b: u64, wide: bool) -> (r: bool)
    requires
        !wide ==> a <= 0xffff_ffff && b <= 0xffff_ffff,
    ensures
        r == spec_float_eq(a, b, wide),
{
    !float_is_nan(a, wide) && !float_is_nan(b, wide) && float_key(a, wide) == float_key(b, wide)
}

/// Whether the first float is less than the second.
#[verifier::when_used_as_spec(spec_float_lt)]
pub fn float_lt(a: u64, b: u64, wide: bool) -> (r: bool)
    requires
        !wide ==> a <= 0xffff_ffff && b <= 0xffff_ffff,
    ensures
        r == spec_float_lt(a, b, wide),
{
    !float_is_nan(a, wide) && !float_is_nan(b, wide) && float_key(a, wide) < float_key(b, wide)
}

/// Whether the first float is less than or equal to the second.
#[verifier::when_used_as_spec(spec_float_le)]
pub fn float_le(a: u64, b: u64, wide: bool) -> (r: bool)
    requires
        !wide ==> a <= 0xffff_ffff && b <= 0xffff_ffff,
    ensures
        r == spec_float_le(a, b, wide),
{
    !float_is_nan(a, wide) && !float_is_nan(b, wide) && float_key(a, wide) <= float_key(b, wide)
}

/// The minimum of two floats: the canonical NaN where either is a NaN;
/// else the one that is less; of two zeros the negative one.
pub open spec fn spec_float_min(a: u64, b: u64, wide: bool) -> u64 {
    if is_nan(a, wide) || is_nan(b, wide) {
        if wide {
            F64_NAN
        } else {
            F32_NAN as u64
        }
    } else if order_key(a, wide) < order_key(b, wide) {
        a
    } else if order_key(b, wide) < order_key(a, wide) {
        b
    } else if is_negative(a, wide) {
        a
    } else {
        b
    }
}

/// The maximum of two floats: the canonical NaN where either is a NaN;
/// else the one that is greater; of two zeros the positive one.
pub open spec fn spec_float_max(a: u64, b: u64, wide: bool) -> u64 {
    if is_nan(a, wide) || is_nan(b, wide) {
        if wide {
            F64_NAN
        } else {
            F32_NAN as u64
        }
    } else if order_key(a, wide) > order_key(b, wide) {
        a
    } else if order_key(b, wide) > order_key(a, wide) {
        b
    } else if is_negative(a, wide) {
        b
    } else {
        a
    }
}

/// The minimum of two floats.
#[verifier::when_used_as_spec(spec_float_min)]
pub fn float_min(a: u64, b: u64, wide: bool) -> (r: u64)
    requires
        !wide ==> a <= 0xffff_ffff && b <= 0xffff_ffff,
    ensures
        r == spec_float_min(a, b, wide),
{
    if float_is_nan(a, wide) || float_is_nan(b, wide) {
        if wide {
            F64_NAN
        } else {
            F32_NAN as u64
        }
    } else {
        let ka = float_key(a, wide);
        let kb = float_key(b, wide);
        if ka < kb {
            a
        } else if kb < ka {
            b
        } else if fields(a, wide).0 {
            a
        } else {
            b
        }
    }
}

/// The maximum of two floats.
#[verifier::when_used_as_spec(spec_float_max)]
pub fn float_max(a: u64, b: u64, wide: bool) -> (r: u64)
    requires
        !wide ==> a <= 0xffff_ffff && b <= 0xffff_ffff,
    ensures
        r == spec_float_max(a, b, wide),
{
    if float_is_nan(a, wide) || float_is_nan(b, wide) {
        if wide {
            F64_NAN
        } else {
            F32_NAN as u64
        }
    } else {
        let ka = float_key(a, wide);
        let kb = float_key(b, wide);
        if ka > kb {
            a
        } else if kb > ka {
            b
        } else if fields(a, wide).0 {
            b
        } else {
            a
        }
    }
}

/// The float without its sign.
pub open spec fn spec_float_abs(bits: u64, wide: bool) -> u64 {
    magnitude(bits, wide) as u64
}

/// The float with the other sign.
pub open spec fn spec_float_neg(bits: u64, wide: bool) -> u64 {
    if is_negative(bits, wide) {
        magnitude(bits, wide) as u64
    } else if wide {
        (bits + 0x8000_0000_0000_0000) as u64
    } else {
        (bits + 0x8000_0000) as u64
    }
}

/// The magnitude of the first float with the sign of the second.
pub open spec fn spec_float_copysign(a: u64, b: u64, wide: bool) -> u64 {
    if is_negative(b, wide) {
        spec_float_neg(magnitude(a, wide) as u64, wide)
    } else {
        magnitude(a, wide) as u64
    }
}

/// The float without its sign.
#[verifier::when_used_as_spec(spec_float_abs)]
pub fn float_abs(bits: u64, wide: bool) -> (r: u64)
    requires
        !wide ==> bits <= 0xffff_ffff,
    ensures
        r == spec_float_abs(bits, wide),
        !wide ==> r <= 0xffff_ffff,
{
    if wide {
        bits % 0x8000_0000_0000_0000
    } else {
        bits % 0x8000_0000
    }
}

/// The float with the other sign.
#[verifier::when_used_as_spec(spec_float_neg)]
pub fn float_neg(bits: u64, wide: bool) -> (r: u64)
    requires
        !wide ==> bits <= 0xffff_ffff,
    ensures
        r == spec_float_neg(bits, wide),
        !wide ==> r <= 0xffff_ffff,
{
    if wide {
        if bits >= 0x8000_0000_0000_0000 {
            bits % 0x8000_0000_0000_0000
        } else {
            bits + 0x8000_0000_0000_0000
        }
    } else {
        if bits >= 0x8000_0000 {
            bits % 0x8000_0000
        } else {
            bits + 0x8000_0000
        }
    }
}

/// The magnitude of the first float with the sign of the second.
#[verifier::when_used_as_spec(spec_float_copysign)]
pub fn float_copysign(a: u64, b: u64, wide: bool) -> (r: u64)
    requires
        !wide ==> a <= 0xffff_ffff && b <= 0xffff_ffff,
    ensures
        r == spec_float_copysign(a, b, wide),
        !wide ==> r <= 0xffff_ffff,
{
    let m = float_abs(a, wide);
    if fields(b, wide).0 {
        float_neg(m, wide)
    } else {
        m
    }
}

/// A truncation faults on exactly a NaN, an infinity, and a number whose
/// truncation toward zero lies outside the range of the integer type; a
/// saturating truncation gives a value of the type for every pattern, the
/// same value where the truncation does not fault.
pub proof fn lemma_truncation(bits: u64, wide: bool, min: int, max: int)
    requires
        min <= 0 <= max,
    ensures
        spec_trunc(bits, wide, min, max) is Err <==> is_nan(bits, wide) || is_infinite(bits, wide)
            || truncated(bits, wide) < min || truncated(bits, wide) > max,
        is_nan(bits, wide) <==> spec_trunc(bits, wide, min, max) == Err::<int, Fault>(
            Fault::InvalidConversion,
        ),
        min <= spec_trunc_sat(bits, wide, min, max) <= max,
        spec_trunc(bits, wide, min, max) matches Ok(t) ==> spec_trunc_sat(bits, wide, min, max) == t,
{
}

/// The canonical NaN is an invalid conversion, and 2^31 overflows a signed
/// 32-bit integer, where -2^31 does not.
pub proof fn lemma_truncation_bounds()
    ensures
        spec_trunc_f32_to_i32(F32_NAN) == Err::<i32, Fault>(Fault::InvalidConversion),
        spec_trunc_f32_to_i32(0x4f00_0000) == Err::<i32, Fault>(Fault::IntegerOverflow),
        spec_trunc_f32_to_i32(0xcf00_0000) == Ok::<i32, Fault>(i32::MIN),
{
    lemma2_to64();
    assert(exponent(0x7fc0_0000, false) == 255 && fraction(0x7fc0_0000, false) == 0x40_0000);
    assert(exponent(0x4f00_0000, false) == 158 && fraction(0x4f00_0000, false) == 0);
    assert(whole(0x4f00_0000, false) == 0x80_0000 * 0x100);
    assert(exponent(0xcf00_0000, false) == 158 && fraction(0xcf00_0000, false) == 0);
    assert(whole(0xcf00_0000, false) == 0x80_0000 * 0x100);
}

} // verus!
