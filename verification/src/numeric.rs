//! The operations that work on the value stack alone: what each makes of
//! the cells it pops.
use crate::exec::{Fault, FloatOp};
use crate::float::{
    float_abs, float_copysign, float_eq, float_le, float_lt, float_max, float_min, float_neg,
    trunc_f32_to_i32, trunc_f32_to_i64, trunc_f32_to_u32, trunc_f32_to_u64, trunc_f64_to_i32,
    trunc_f64_to_i64, trunc_f64_to_u32, trunc_f64_to_u64, trunc_sat_to_i32, trunc_sat_to_i64,
    trunc_sat_to_u32, trunc_sat_to_u64,
};
use crate::op::{Op, OpView};
use crate::stack::{cell_i32, cell_ref, i32_of, ref_of};
use vstd::prelude::*;
use vstd::std_specs::bits::{
    axiom_u64_leading_zeros, axiom_u64_trailing_zeros, u32_leading_zeros, u32_trailing_zeros,
    u64_leading_zeros, u64_trailing_zeros,
};

verus! {

/// The cell of a truth value: 1 or 0.
pub open spec fn spec_bool_cell(b: bool) -> u64 {
    if b {
        1
    } else {
        0
    }
}

/// The cell of a truth value.
#[verifier::when_used_as_spec(spec_bool_cell)]
pub fn bool_cell(b: bool) -> (c: u64)
    ensures
        c == spec_bool_cell(b),
{
    if b {
        1
    } else {
        0
    }
}

/// The low 32 bits of a cell.
pub open spec fn spec_low32(c: u64) -> u64 {
    (c as u32) as u64
}

/// The low 32 bits of a cell.
#[verifier::when_used_as_spec(spec_low32)]
pub fn low32(c: u64) -> (r: u64)
    ensures
        r == spec_low32(c),
        r <= 0xffff_ffff,
{
    (c as u32) as u64
}

/// The cell of an `i32` result.
pub open spec fn spec_ok_i32(r: Result<i32, Fault>) -> Result<u64, Fault> {
    match r {
        Ok(v) => Ok(cell_i32(v)),
        Err(f) => Err(f),
    }
}

/// The cell of a `u32` result.
pub open spec fn spec_ok_u32(r: Result<u32, Fault>) -> Result<u64, Fault> {
    match r {
        Ok(v) => Ok(v as u64),
        Err(f) => Err(f),
    }
}

/// The cell of an `i64` result.
pub open spec fn spec_ok_i64(r: Result<i64, Fault>) -> Result<u64, Fault> {
    match r {
        Ok(v) => Ok(v as u64),
        Err(f) => Err(f),
    }
}

/// The cell of an `i32` result.
#[verifier::when_used_as_spec(spec_ok_i32)]
pub fn ok_i32(r: Result<i32, Fault>) -> (c: Result<u64, Fault>)
    ensures
        c == spec_ok_i32(r),
{
    match r {
        Ok(v) => Ok(cell_i32(v)),
        Err(f) => Err(f),
    }
}

/// The cell of a `u32` result.
#[verifier::when_used_as_spec(spec_ok_u32)]
pub fn ok_u32(r: Result<u32, Fault>) -> (c: Result<u64, Fault>)
    ensures
        c == spec_ok_u32(r),
{
    match r {
        Ok(v) => Ok(v as u64),
        Err(f) => Err(f),
    }
}

/// The cell of an `i64` result.
#[verifier::when_used_as_spec(spec_ok_i64)]
pub fn ok_i64(r: Result<i64, Fault>) -> (c: Result<u64, Fault>)
    ensures
        c == spec_ok_i64(r),
{
    match r {
        Ok(v) => Ok(v as u64),
        Err(f) => Err(f),
    }
}

/// The quotient of a division that truncates toward zero.
pub open spec fn spec_quotient(a: int, b: int) -> int {
    if a >= 0 {
        if b > 0 {
            a / b
        } else {
            -(a / (-b))
        }
    } else {
        if b > 0 {
            -((-a) / b)
        } else {
            (-a) / (-b)
        }
    }
}

/// The remainder of a division that truncates toward zero: it has the
/// sign of the dividend.
pub open spec fn spec_remainder(a: int, b: int) -> int {
    if a >= 0 {
        if b > 0 {
            a % b
        } else {
            a % (-b)
        }
    } else {
        if b > 0 {
            -((-a) % b)
        } else {
            -((-a) % (-b))
        }
    }
}

/// `i32.div_s`: a zero divisor is a division by zero, and the least
/// integer by -1 an overflow.
pub open spec fn spec_div_s32(a: i32, b: i32) -> Result<i32, Fault> {
    if b == 0 {
        Err(Fault::IntegerDivisionByZero)
    } else if a == i32::MIN && b == -1 {
        Err(Fault::IntegerOverflow)
    } else {
        Ok(spec_quotient(a as int, b as int) as i32)
    }
}

/// `i32.rem_s`: a zero divisor is a division by zero; the least integer
/// by -1 leaves 0.
pub open spec fn spec_rem_s32(a: i32, b: i32) -> Result<i32, Fault> {
    if b == 0 {
        Err(Fault::IntegerDivisionByZero)
    } else {
        Ok(spec_remainder(a as int, b as int) as i32)
    }
}

/// `i32.div_u`.
pub open spec fn spec_div_u32(a: u32, b: u32) -> Result<u32, Fault> {
    if b == 0 {
        Err(Fault::IntegerDivisionByZero)
    } else {
        Ok(a / b)
    }
}

/// `i32.rem_u`.
pub open spec fn spec_rem_u32(a: u32, b: u32) -> Result<u32, Fault> {
    if b == 0 {
        Err(Fault::IntegerDivisionByZero)
    } else {
        Ok(a % b)
    }
}

/// `i64.div_s`.
pub open spec fn spec_div_s64(a: i64, b: i64) -> Result<i64, Fault> {
    if b == 0 {
        Err(Fault::IntegerDivisionByZero)
    } else if a == i64::MIN && b == -1 {
        Err(Fault::IntegerOverflow)
    } else {
        Ok(spec_quotient(a as int, b as int) as i64)
    }
}

/// `i64.rem_s`.
pub open spec fn spec_rem_s64(a: i64, b: i64) -> Result<i64, Fault> {
    if b == 0 {
        Err(Fault::IntegerDivisionByZero)
    } else {
        Ok(spec_remainder(a as int, b as int) as i64)
    }
}

/// `i64.div_u`.
pub open spec fn spec_div_u64(a: u64, b: u64) -> Result<u64, Fault> {
    if b == 0 {
        Err(Fault::IntegerDivisionByZero)
    } else {
        Ok(a / b)
    }
}

/// `i64.rem_u`.
pub open spec fn spec_rem_u64(a: u64, b: u64) -> Result<u64, Fault> {
    if b == 0 {
        Err(Fault::IntegerDivisionByZero)
    } else {
        Ok(a % b)
    }
}

/// A quotient of natural numbers is at most the dividend, and less where
/// the divisor is 2 or more.
proof fn lemma_quotient_bounds(x: int, d: int)
    requires
        0 <= x,
        0 < d,
    ensures
        0 <= x / d <= x,
        d >= 2 && x > 0 ==> x / d < x,
        d == 1 ==> x / d == x,
{
    assert(0 <= x / d <= x && (d >= 2 && x > 0 ==> x / d < x) && (d == 1 ==> x / d == x))
        by (nonlinear_arith)
        requires
            0 <= x,
            0 < d,
    ;
}

/// The quotient of two integers of a width is within that width, but
/// for the least integer by -1.
proof fn lemma_spec_quotient(a: int, b: int)
    requires
        b != 0,
    ensures
        spec_quotient(a, b) <= (if a >= 0 {
            a
        } else {
            -a
        }),
        spec_quotient(a, b) >= -(if a >= 0 {
            a
        } else {
            -a
        }),
        a < 0 && spec_quotient(a, b) == -a ==> b == -1,
{
    let x = if a >= 0 {
        a
    } else {
        -a
    };
    let d = if b >= 0 {
        b
    } else {
        -b
    };
    lemma_quotient_bounds(x, d);
}

/// The remainder is less than the divisor in magnitude.
proof fn lemma_spec_remainder(a: int, b: int)
    requires
        b != 0,
    ensures
        -(if b >= 0 {
            b
        } else {
            -b
        }) < spec_remainder(a, b) < (if b >= 0 {
            b
        } else {
            -b
        }),
        b == -1 ==> spec_remainder(a, b) == 0,
{
}

/// `i32.div_s`.
#[verifier::when_used_as_spec(spec_div_s32)]
pub fn div_s32(a: i32, b: i32) -> (r: Result<i32, Fault>)
    ensures
        r == spec_div_s32(a, b),
{
    if b == 0 {
        return Err(Fault::IntegerDivisionByZero);
    }
    if a == i32::MIN && b == -1 {
        return Err(Fault::IntegerOverflow);
    }
    let x: i64 = a as i64;
    let d: i64 = b as i64;
    proof {
        lemma_spec_quotient(a as int, b as int);
    }
    let q: i64 = if x >= 0 {
        if d > 0 {
            x / d
        } else {
            -(x / (-d))
        }
    } else {
        if d > 0 {
            -((-x) / d)
        } else {
            (-x) / (-d)
        }
    };
    Ok(q as i32)
}

/// `i32.rem_s`.
#[verifier::when_used_as_spec(spec_rem_s32)]
pub fn rem_s32(a: i32, b: i32) -> (r: Result<i32, Fault>)
    ensures
        r == spec_rem_s32(a, b),
{
    if b == 0 {
        return Err(Fault::IntegerDivisionByZero);
    }
    let x: i64 = a as i64;
    let d: i64 = b as i64;
    proof {
        lemma_spec_remainder(a as int, b as int);
    }
    let r: i64 = if x >= 0 {
        if d > 0 {
            x % d
        } else {
            x % (-d)
        }
    } else {
        if d > 0 {
            -((-x) % d)
        } else {
            -((-x) % (-d))
        }
    };
    Ok(r as i32)
}

/// `i32.div_u`.
#[verifier::when_used_as_spec(spec_div_u32)]
pub fn div_u32(a: u32, b: u32) -> (r: Result<u32, Fault>)
    ensures
        r == spec_div_u32(a, b),
{
    if b == 0 {
        Err(Fault::IntegerDivisionByZero)
    } else {
        Ok(a / b)
    }
}

/// `i32.rem_u`.
#[verifier::when_used_as_spec(spec_rem_u32)]
pub fn rem_u32(a: u32, b: u32) -> (r: Result<u32, Fault>)
    ensures
        r == spec_rem_u32(a, b),
{
    if b == 0 {
        Err(Fault::IntegerDivisionByZero)
    } else {
        Ok(a % b)
    }
}

/// `i64.div_s`.
#[verifier::when_used_as_spec(spec_div_s64)]
pub fn div_s64(a: i64, b: i64) -> (r: Result<i64, Fault>)
    ensures
        r == spec_div_s64(a, b),
{
    if b == 0 {
        return Err(Fault::IntegerDivisionByZero);
    }
    if a == i64::MIN && b == -1 {
        return Err(Fault::IntegerOverflow);
    }
    let x: i128 = a as i128;
    let d: i128 = b as i128;
    proof {
        lemma_spec_quotient(a as int, b as int);
    }
    let q: i128 = if x >= 0 {
        if d > 0 {
            x / d
        } else {
            -(x / (-d))
        }
    } else {
        if d > 0 {
            -((-x) / d)
        } else {
            (-x) / (-d)
        }
    };
    Ok(q as i64)
}

/// `i64.rem_s`.
#[verifier::when_used_as_spec(spec_rem_s64)]
pub fn rem_s64(a: i64, b: i64) -> (r: Result<i64, Fault>)
    ensures
        r == spec_rem_s64(a, b),
{
    if b == 0 {
        return Err(Fault::IntegerDivisionByZero);
    }
    let x: i128 = a as i128;
    let d: i128 = b as i128;
    proof {
        lemma_spec_remainder(a as int, b as int);
    }
    let r: i128 = if x >= 0 {
        if d > 0 {
            x % d
        } else {
            x % (-d)
        }
    } else {
        if d > 0 {
            -((-x) % d)
        } else {
            -((-x) % (-d))
        }
    };
    Ok(r as i64)
}

/// `i64.div_u`.
#[verifier::when_used_as_spec(spec_div_u64)]
pub fn div_u64(a: u64, b: u64) -> (r: Result<u64, Fault>)
    ensures
        r == spec_div_u64(a, b),
{
    if b == 0 {
        Err(Fault::IntegerDivisionByZero)
    } else {
        Ok(a / b)
    }
}

/// `i64.rem_u`.
#[verifier::when_used_as_spec(spec_rem_u64)]
pub fn rem_u64(a: u64, b: u64) -> (r: Result<u64, Fault>)
    ensures
        r == spec_rem_u64(a, b),
{
    if b == 0 {
        Err(Fault::IntegerDivisionByZero)
    } else {
        Ok(a % b)
    }
}

/// The number of leading zero bits of a 32-bit integer.
pub open spec fn spec_clz32(v: u32) -> u64 {
    u32_leading_zeros(v) as u64
}

/// The number of trailing zero bits of a 32-bit integer.
pub open spec fn spec_ctz32(v: u32) -> u64 {
    u32_trailing_zeros(v) as u64
}

/// The number of leading zero bits of a 64-bit integer.
pub open spec fn spec_clz64(v: u64) -> u64 {
    u64_leading_zeros(v) as u64
}

/// The number of trailing zero bits of a 64-bit integer.
pub open spec fn spec_ctz64(v: u64) -> u64 {
    u64_trailing_zeros(v) as u64
}

/// `i32.clz`.
#[verifier::when_used_as_spec(spec_clz32)]
pub fn clz32(v: u32) -> (r: u64)
    ensures
        r == spec_clz32(v),
{
    v.leading_zeros() as u64
}

/// `i32.ctz`.
#[verifier::when_used_as_spec(spec_ctz32)]
pub fn ctz32(v: u32) -> (r: u64)
    ensures
        r == spec_ctz32(v),
{
    v.trailing_zeros() as u64
}

/// `i64.clz`.
#[verifier::when_used_as_spec(spec_clz64)]
pub fn clz64(v: u64) -> (r: u64)
    ensures
        r == spec_clz64(v),
{
    proof {
        axiom_u64_leading_zeros(v);
    }
    v.leading_zeros() as u64
}

/// `i64.ctz`.
#[verifier::when_used_as_spec(spec_ctz64)]
pub fn ctz64(v: u64) -> (r: u64)
    ensures
        r == spec_ctz64(v),
{
    proof {
        axiom_u64_trailing_zeros(v);
    }
    v.trailing_zeros() as u64
}

/// The number of bits of `v` that are set.
pub open spec fn count_ones(v: nat) -> nat
    decreases v,
{
    if v == 0 {
        0
    } else {
        v % 2 + count_ones(v / 2)
    }
}

/// The number of bits of a cell that are set.
pub open spec fn spec_popcount(v: u64) -> u64 {
    count_ones(v as nat) as u64
}

/// A number below `2^bits` has at most `bits` bits set.
pub proof fn lemma_count_ones_bound(v: nat, bits: nat)
    requires
        v < vstd::arithmetic::power2::pow2(bits),
    ensures
        count_ones(v) <= bits,
    decreases bits,
{
    vstd::arithmetic::power2::lemma2_to64();
    if v != 0 {
        if bits > 0 {
            vstd::arithmetic::power2::lemma_pow2_unfold(bits);
            lemma_count_ones_bound(v / 2, (bits - 1) as nat);
        }
    }
}

/// The number of bits of a cell that are set.
#[verifier::when_used_as_spec(spec_popcount)]
pub fn popcount(v: u64) -> (r: u64)
    ensures
        r == spec_popcount(v),
        r <= 64,
{
    let mut rest: u64 = v;
    let mut count: u64 = 0;
    proof {
        vstd::arithmetic::power2::lemma2_to64();
        lemma_count_ones_bound(v as nat, 64);
    }
    while rest != 0
        invariant
            count + count_ones(rest as nat) == count_ones(v as nat),
            count_ones(v as nat) <= 64,
        decreases rest,
    {
        count = count + rest % 2;
        rest = rest / 2;
    }
    count
}

/// A rotation of 32 bits to the left by `n` places, `n` taken modulo 32:
/// the bits that leave at the top come back in at the bottom.
pub open spec fn spec_rotl32(v: u32, n: u32) -> u32 {
    if n % 32 == 0 {
        v
    } else {
        (v << (n % 32)) | (v >> ((32 - n % 32) as u32))
    }
}

/// A rotation of 32 bits to the right by `n` places, `n` taken modulo 32.
pub open spec fn spec_rotr32(v: u32, n: u32) -> u32 {
    if n % 32 == 0 {
        v
    } else {
        (v >> (n % 32)) | (v << ((32 - n % 32) as u32))
    }
}

/// A rotation of 64 bits to the left by `n` places, `n` taken modulo 64.
pub open spec fn spec_rotl64(v: u64, n: u32) -> u64 {
    if n % 64 == 0 {
        v
    } else {
        (v << (n % 64)) | (v >> ((64 - n % 64) as u32))
    }
}

/// A rotation of 64 bits to the right by `n` places, `n` taken modulo 64.
pub open spec fn spec_rotr64(v: u64, n: u32) -> u64 {
    if n % 64 == 0 {
        v
    } else {
        (v >> (n % 64)) | (v << ((64 - n % 64) as u32))
    }
}

/// `i32.rotl`.
#[verifier::when_used_as_spec(spec_rotl32)]
pub fn rotl32(v: u32, n: u32) -> (r: u32)
    ensures
        r == spec_rotl32(v, n),
{
    let k: u32 = n % 32;
    if k == 0 {
        v
    } else {
        (v << k) | (v >> (32 - k))
    }
}

/// `i32.rotr`.
#[verifier::when_used_as_spec(spec_rotr32)]
pub fn rotr32(v: u32, n: u32) -> (r: u32)
    ensures
        r == spec_rotr32(v, n),
{
    let k: u32 = n % 32;
    if k == 0 {
        v
    } else {
        (v >> k) | (v << (32 - k))
    }
}

/// `i64.rotl`.
#[verifier::when_used_as_spec(spec_rotl64)]
pub fn rotl64(v: u64, n: u32) -> (r: u64)
    ensures
        r == spec_rotl64(v, n),
{
    let k: u32 = n % 64;
    if k == 0 {
        v
    } else {
        (v << k) | (v >> (64 - k))
    }
}

/// `i64.rotr`.
#[verifier::when_used_as_spec(spec_rotr64)]
pub fn rotr64(v: u64, n: u32) -> (r: u64)
    ensures
        r == spec_rotr64(v, n),
{
    let k: u32 = n % 64;
    if k == 0 {
        v
    } else {
        (v >> k) | (v << (64 - k))
    }
}

/// Whether two references are equal, as 1 or 0: two nulls are, a null and
/// an index are not, and two indices are where they are the same.
pub open spec fn spec_ref_eq(a: Option<u32>, b: Option<u32>) -> u32 {
    if a == b {
        1
    } else {
        0
    }
}

/// `ref.eq`.
#[verifier::when_used_as_spec(spec_ref_eq)]
pub fn ref_eq(a: Option<u32>, b: Option<u32>) -> (r: u32)
    ensures
        r == spec_ref_eq(a, b),
{
    match (a, b) {
        (None, None) => 1,
        (Some(x), Some(y)) => if x == y {
            1
        } else {
            0
        },
        _ => 0,
    }
}

/// The cell of a reference that must not be null.
pub open spec fn spec_ref_as_non_null(c: u64) -> Result<u64, Fault> {
    match ref_of(c) {
        Some(v) => Ok(cell_ref(Some(v))),
        None => Err(Fault::NullReference),
    }
}

/// `ref.as_non_null`.
#[verifier::when_used_as_spec(spec_ref_as_non_null)]
pub fn ref_as_non_null(c: u64) -> (r: Result<u64, Fault>)
    ensures
        r == spec_ref_as_non_null(c),
{
    match ref_of(c) {
        Some(v) => Ok(cell_ref(Some(v))),
        None => Err(Fault::NullReference),
    }
}

/// What an operation with one operand makes of the cell `a`: the cell of
/// the result, or the fault. `None` for every other operation.
pub open spec fn spec_unary(op: OpView, a: u64) -> Option<Result<u64, Fault>> {
    match op {
        OpView::I32Eqz => Some(Ok(bool_cell(i32_of(a) == 0))),
        OpView::I64Eqz => Some(Ok(bool_cell((a as i64) == 0))),
        OpView::I32Clz => Some(Ok(clz32(a as u32))),
        OpView::I32Ctz => Some(Ok(ctz32(a as u32))),
        OpView::I32Popcnt => Some(Ok(popcount((a as u32) as u64))),
        OpView::I64Clz => Some(Ok(clz64(a))),
        OpView::I64Ctz => Some(Ok(ctz64(a))),
        OpView::I64Popcnt => Some(Ok(popcount(a))),
        OpView::F32Abs => Some(Ok(float_abs(low32(a), false))),
        OpView::F32Neg => Some(Ok(float_neg(low32(a), false))),
        OpView::F64Abs => Some(Ok(float_abs(a, true))),
        OpView::F64Neg => Some(Ok(float_neg(a, true))),
        OpView::I32WrapI64 => Some(Ok(cell_i32((a as i64) as i32))),
        OpView::I32TruncF32S => Some(ok_i32(trunc_f32_to_i32(a as u32))),
        OpView::I32TruncF32U => Some(ok_u32(trunc_f32_to_u32(a as u32))),
        OpView::I32TruncF64S => Some(ok_i32(trunc_f64_to_i32(a))),
        OpView::I32TruncF64U => Some(ok_u32(trunc_f64_to_u32(a))),
        OpView::I64ExtendI32S => Some(Ok((i32_of(a) as i64) as u64)),
        OpView::I64ExtendI32U => Some(Ok(low32(a))),
        OpView::I64TruncF32S => Some(ok_i64(trunc_f32_to_i64(a as u32))),
        OpView::I64TruncF32U => Some(trunc_f32_to_u64(a as u32)),
        OpView::I64TruncF64S => Some(ok_i64(trunc_f64_to_i64(a))),
        OpView::I64TruncF64U => Some(trunc_f64_to_u64(a)),
        OpView::I32TruncSatF32S => Some(Ok(cell_i32(trunc_sat_to_i32(low32(a), false)))),
        OpView::I32TruncSatF32U => Some(Ok(trunc_sat_to_u32(low32(a), false) as u64)),
        OpView::I32TruncSatF64S => Some(Ok(cell_i32(trunc_sat_to_i32(a, true)))),
        OpView::I32TruncSatF64U => Some(Ok(trunc_sat_to_u32(a, true) as u64)),
        OpView::I64TruncSatF32S => Some(Ok(trunc_sat_to_i64(low32(a), false) as u64)),
        OpView::I64TruncSatF32U => Some(Ok(trunc_sat_to_u64(low32(a), false))),
        OpView::I64TruncSatF64S => Some(Ok(trunc_sat_to_i64(a, true) as u64)),
        OpView::I64TruncSatF64U => Some(Ok(trunc_sat_to_u64(a, true))),
        OpView::I32ReinterpretF32 => Some(Ok(low32(a))),
        OpView::I64ReinterpretF64 => Some(Ok(a)),
        OpView::F32ReinterpretI32 => Some(Ok(low32(a))),
        OpView::F64ReinterpretI64 => Some(Ok(a)),
        OpView::I32Extend8S => Some(Ok(cell_i32((i32_of(a) as i8) as i32))),
        OpView::I32Extend16S => Some(Ok(cell_i32((i32_of(a) as i16) as i32))),
        OpView::I64Extend8S => Some(Ok((((a as i64) as i8) as i64) as u64)),
        OpView::I64Extend16S => Some(Ok((((a as i64) as i16) as i64) as u64)),
        OpView::I64Extend32S => Some(Ok((((a as i64) as i32) as i64) as u64)),
        OpView::RefIsNull => Some(Ok(bool_cell(ref_of(a) == None::<u32>))),
        OpView::RefAsNonNull => Some(ref_as_non_null(a)),
        _ => None,
    }
}

/// What an operation with two operands makes of the cells `a` and `b`, `b`
/// the one that was on top: the cell of the result, or the fault. `None`
/// for every other operation.
pub open spec fn spec_binary(op: OpView, a: u64, b: u64) -> Option<Result<u64, Fault>> {
    match op {
        OpView::I32Eq => Some(Ok(bool_cell(i32_of(a) == i32_of(b)))),
        OpView::I32Ne => Some(Ok(bool_cell(i32_of(a) != i32_of(b)))),
        OpView::I32LtS => Some(Ok(bool_cell(i32_of(a) < i32_of(b)))),
        OpView::I32LtU => Some(Ok(bool_cell((a as u32) < (b as u32)))),
        OpView::I32GtS => Some(Ok(bool_cell(i32_of(a) > i32_of(b)))),
        OpView::I32GtU => Some(Ok(bool_cell((a as u32) > (b as u32)))),
        OpView::I32LeS => Some(Ok(bool_cell(i32_of(a) <= i32_of(b)))),
        OpView::I32LeU => Some(Ok(bool_cell((a as u32) <= (b as u32)))),
        OpView::I32GeS => Some(Ok(bool_cell(i32_of(a) >= i32_of(b)))),
        OpView::I32GeU => Some(Ok(bool_cell((a as u32) >= (b as u32)))),
        OpView::I64Eq => Some(Ok(bool_cell((a as i64) == (b as i64)))),
        OpView::I64Ne => Some(Ok(bool_cell((a as i64) != (b as i64)))),
        OpView::I64LtS => Some(Ok(bool_cell((a as i64) < (b as i64)))),
        OpView::I64LtU => Some(Ok(bool_cell(a < b))),
        OpView::I64GtS => Some(Ok(bool_cell((a as i64) > (b as i64)))),
        OpView::I64GtU => Some(Ok(bool_cell(a > b))),
        OpView::I64LeS => Some(Ok(bool_cell((a as i64) <= (b as i64)))),
        OpView::I64LeU => Some(Ok(bool_cell(a <= b))),
        OpView::I64GeS => Some(Ok(bool_cell((a as i64) >= (b as i64)))),
        OpView::I64GeU => Some(Ok(bool_cell(a >= b))),
        OpView::F32Eq => Some(Ok(bool_cell(float_eq(low32(a), low32(b), false)))),
        OpView::F32Ne => Some(Ok(bool_cell(!float_eq(low32(a), low32(b), false)))),
        OpView::F32Lt => Some(Ok(bool_cell(float_lt(low32(a), low32(b), false)))),
        OpView::F32Gt => Some(Ok(bool_cell(float_lt(low32(b), low32(a), false)))),
        OpView::F32Le => Some(Ok(bool_cell(float_le(low32(a), low32(b), false)))),
        OpView::F32Ge => Some(Ok(bool_cell(float_le(low32(b), low32(a), false)))),
        OpView::F64Eq => Some(Ok(bool_cell(float_eq(a, b, true)))),
        OpView::F64Ne => Some(Ok(bool_cell(!float_eq(a, b, true)))),
        OpView::F64Lt => Some(Ok(bool_cell(float_lt(a, b, true)))),
        OpView::F64Gt => Some(Ok(bool_cell(float_lt(b, a, true)))),
        OpView::F64Le => Some(Ok(bool_cell(float_le(a, b, true)))),
        OpView::F64Ge => Some(Ok(bool_cell(float_le(b, a, true)))),
        OpView::I32Add => Some(Ok(cell_i32(i32_of(a).wrapping_add(i32_of(b))))),
        OpView::I32Sub => Some(Ok(cell_i32(i32_of(a).wrapping_sub(i32_of(b))))),
        OpView::I32Mul => Some(Ok(cell_i32(i32_of(a).wrapping_mul(i32_of(b))))),
        OpView::I32DivS => Some(ok_i32(div_s32(i32_of(a), i32_of(b)))),
        OpView::I32DivU => Some(ok_u32(div_u32(a as u32, b as u32))),
        OpView::I32RemS => Some(ok_i32(rem_s32(i32_of(a), i32_of(b)))),
        OpView::I32RemU => Some(ok_u32(rem_u32(a as u32, b as u32))),
        OpView::I32And => Some(Ok(cell_i32(i32_of(a) & i32_of(b)))),
        OpView::I32Or => Some(Ok(cell_i32(i32_of(a) | i32_of(b)))),
        OpView::I32Xor => Some(Ok(cell_i32(i32_of(a) ^ i32_of(b)))),
        OpView::I32Shl => Some(Ok(cell_i32(i32_of(a).wrapping_shl(b as u32)))),
        OpView::I32ShrS => Some(Ok(cell_i32(i32_of(a).wrapping_shr(b as u32)))),
        OpView::I32ShrU => Some(Ok((a as u32).wrapping_shr(b as u32) as u64)),
        OpView::I32Rotl => Some(Ok(cell_i32(rotl32(a as u32, b as u32) as i32))),
        OpView::I32Rotr => Some(Ok(cell_i32(rotr32(a as u32, b as u32) as i32))),
        OpView::I64Add => Some(Ok((a as i64).wrapping_add(b as i64) as u64)),
        OpView::I64Sub => Some(Ok((a as i64).wrapping_sub(b as i64) as u64)),
        OpView::I64Mul => Some(Ok((a as i64).wrapping_mul(b as i64) as u64)),
        OpView::I64DivS => Some(ok_i64(div_s64(a as i64, b as i64))),
        OpView::I64DivU => Some(div_u64(a, b)),
        OpView::I64RemS => Some(ok_i64(rem_s64(a as i64, b as i64))),
        OpView::I64RemU => Some(rem_u64(a, b)),
        OpView::I64And => Some(Ok(a & b)),
        OpView::I64Or => Some(Ok(a | b)),
        OpView::I64Xor => Some(Ok(a ^ b)),
        OpView::I64Shl => Some(Ok((a as i64).wrapping_shl(b as u32) as u64)),
        OpView::I64ShrS => Some(Ok((a as i64).wrapping_shr(b as u32) as u64)),
        OpView::I64ShrU => Some(Ok(a.wrapping_shr(b as u32))),
        OpView::I64Rotl => Some(Ok(rotl64(a, b as u32))),
        OpView::I64Rotr => Some(Ok(rotr64(a, b as u32))),
        OpView::F32Min => Some(Ok(float_min(low32(a), low32(b), false))),
        OpView::F32Max => Some(Ok(float_max(low32(a), low32(b), false))),
        OpView::F32Copysign => Some(Ok(float_copysign(low32(a), low32(b), false))),
        OpView::F64Min => Some(Ok(float_min(a, b, true))),
        OpView::F64Max => Some(Ok(float_max(a, b, true))),
        OpView::F64Copysign => Some(Ok(float_copysign(a, b, true))),
        OpView::RefEq => Some(Ok(ref_eq(ref_of(a), ref_of(b)) as u64)),
        _ => None,
    }
}

/// The floating-point operation that an operation leaves to the host, and
/// whether it has two operands. `None` for every other operation.
pub open spec fn spec_host_float(op: OpView) -> Option<(FloatOp, bool)> {
    match op {
        OpView::F32Ceil => Some((FloatOp::F32Ceil, false)),
        OpView::F32Floor => Some((FloatOp::F32Floor, false)),
        OpView::F32Trunc => Some((FloatOp::F32Trunc, false)),
        OpView::F32Nearest => Some((FloatOp::F32Nearest, false)),
        OpView::F32Sqrt => Some((FloatOp::F32Sqrt, false)),
        OpView::F32Add => Some((FloatOp::F32Add, true)),
        OpView::F32Sub => Some((FloatOp::F32Sub, true)),
        OpView::F32Mul => Some((FloatOp::F32Mul, true)),
        OpView::F32Div => Some((FloatOp::F32Div, true)),
        OpView::F64Add => Some((FloatOp::F64Add, true)),
        OpView::F64Sub => Some((FloatOp::F64Sub, true)),
        OpView::F64Mul => Some((FloatOp::F64Mul, true)),
        OpView::F64Div => Some((FloatOp::F64Div, true)),
        OpView::F64Ceil => Some((FloatOp::F64Ceil, false)),
        OpView::F64Floor => Some((FloatOp::F64Floor, false)),
        OpView::F64Trunc => Some((FloatOp::F64Trunc, false)),
        OpView::F64Nearest => Some((FloatOp::F64Nearest, false)),
        OpView::F64Sqrt => Some((FloatOp::F64Sqrt, false)),
        OpView::F32ConvertI32S => Some((FloatOp::F32ConvertI32S, false)),
        OpView::F32ConvertI32U => Some((FloatOp::F32ConvertI32U, false)),
        OpView::F32ConvertI64S => Some((FloatOp::F32ConvertI64S, false)),
        OpView::F32ConvertI64U => Some((FloatOp::F32ConvertI64U, false)),
        OpView::F32DemoteF64 => Some((FloatOp::F32DemoteF64, false)),
        OpView::F64ConvertI32S => Some((FloatOp::F64ConvertI32S, false)),
        OpView::F64ConvertI32U => Some((FloatOp::F64ConvertI32U, false)),
        OpView::F64ConvertI64S => Some((FloatOp::F64ConvertI64S, false)),
        OpView::F64ConvertI64U => Some((FloatOp::F64ConvertI64U, false)),
        OpView::F64PromoteF32 => Some((FloatOp::F64PromoteF32, false)),
        _ => None,
    }
}

/// What an operation with one operand makes of a cell.
pub fn unary(op: &Op, a: u64) -> (r: Option<Result<u64, Fault>>)
    ensures
        r == spec_unary(op@, a),
{
    match op {
        Op::I32Eqz => Some(Ok(bool_cell(i32_of(a) == 0))),
        Op::I64Eqz => Some(Ok(bool_cell((a as i64) == 0))),
        Op::I32Clz => Some(Ok(clz32(a as u32))),
        Op::I32Ctz => Some(Ok(ctz32(a as u32))),
        Op::I32Popcnt => Some(Ok(popcount((a as u32) as u64))),
        Op::I64Clz => Some(Ok(clz64(a))),
        Op::I64Ctz => Some(Ok(ctz64(a))),
        Op::I64Popcnt => Some(Ok(popcount(a))),
        Op::F32Abs => Some(Ok(float_abs(low32(a), false))),
        Op::F32Neg => Some(Ok(float_neg(low32(a), false))),
        Op::F64Abs => Some(Ok(float_abs(a, true))),
        Op::F64Neg => Some(Ok(float_neg(a, true))),
        Op::I32WrapI64 => Some(Ok(cell_i32((a as i64) as i32))),
        Op::I32TruncF32S => Some(ok_i32(trunc_f32_to_i32(a as u32))),
        Op::I32TruncF32U => Some(ok_u32(trunc_f32_to_u32(a as u32))),
        Op::I32TruncF64S => Some(ok_i32(trunc_f64_to_i32(a))),
        Op::I32TruncF64U => Some(ok_u32(trunc_f64_to_u32(a))),
        Op::I64ExtendI32S => Some(Ok((i32_of(a) as i64) as u64)),
        Op::I64ExtendI32U => Some(Ok(low32(a))),
        Op::I64TruncF32S => Some(ok_i64(trunc_f32_to_i64(a as u32))),
        Op::I64TruncF32U => Some(trunc_f32_to_u64(a as u32)),
        Op::I64TruncF64S => Some(ok_i64(trunc_f64_to_i64(a))),
        Op::I64TruncF64U => Some(trunc_f64_to_u64(a)),
        Op::I32TruncSatF32S => Some(Ok(cell_i32(trunc_sat_to_i32(low32(a), false)))),
        Op::I32TruncSatF32U => Some(Ok(trunc_sat_to_u32(low32(a), false) as u64)),
        Op::I32TruncSatF64S => Some(Ok(cell_i32(trunc_sat_to_i32(a, true)))),
        Op::I32TruncSatF64U => Some(Ok(trunc_sat_to_u32(a, true) as u64)),
        Op::I64TruncSatF32S => Some(Ok(trunc_sat_to_i64(low32(a), false) as u64)),
        Op::I64TruncSatF32U => Some(Ok(trunc_sat_to_u64(low32(a), false))),
        Op::I64TruncSatF64S => Some(Ok(trunc_sat_to_i64(a, true) as u64)),
        Op::I64TruncSatF64U => Some(Ok(trunc_sat_to_u64(a, true))),
        Op::I32ReinterpretF32 => Some(Ok(low32(a))),
        Op::I64ReinterpretF64 => Some(Ok(a)),
        Op::F32ReinterpretI32 => Some(Ok(low32(a))),
        Op::F64ReinterpretI64 => Some(Ok(a)),
        Op::I32Extend8S => Some(Ok(cell_i32((i32_of(a) as i8) as i32))),
        Op::I32Extend16S => Some(Ok(cell_i32((i32_of(a) as i16) as i32))),
        Op::I64Extend8S => Some(Ok((((a as i64) as i8) as i64) as u64)),
        Op::I64Extend16S => Some(Ok((((a as i64) as i16) as i64) as u64)),
        Op::I64Extend32S => Some(Ok((((a as i64) as i32) as i64) as u64)),
        Op::RefIsNull => Some(Ok(bool_cell(ref_of(a) == None::<u32>))),
        Op::RefAsNonNull => Some(ref_as_non_null(a)),
        _ => None,
    }
}

/// What an operation with two operands makes of two cells.
pub fn binary(op: &Op, a: u64, b: u64) -> (r: Option<Result<u64, Fault>>)
    ensures
        r == spec_binary(op@, a, b),
{
    match op {
        Op::I32Eq => Some(Ok(bool_cell(i32_of(a) == i32_of(b)))),
        Op::I32Ne => Some(Ok(bool_cell(i32_of(a) != i32_of(b)))),
        Op::I32LtS => Some(Ok(bool_cell(i32_of(a) < i32_of(b)))),
        Op::I32LtU => Some(Ok(bool_cell((a as u32) < (b as u32)))),
        Op::I32GtS => Some(Ok(bool_cell(i32_of(a) > i32_of(b)))),
        Op::I32GtU => Some(Ok(bool_cell((a as u32) > (b as u32)))),
        Op::I32LeS => Some(Ok(bool_cell(i32_of(a) <= i32_of(b)))),
        Op::I32LeU => Some(Ok(bool_cell((a as u32) <= (b as u32)))),
        Op::I32GeS => Some(Ok(bool_cell(i32_of(a) >= i32_of(b)))),
        Op::I32GeU => Some(Ok(bool_cell((a as u32) >= (b as u32)))),
        Op::I64Eq => Some(Ok(bool_cell((a as i64) == (b as i64)))),
        Op::I64Ne => Some(Ok(bool_cell((a as i64) != (b as i64)))),
        Op::I64LtS => Some(Ok(bool_cell((a as i64) < (b as i64)))),
        Op::I64LtU => Some(Ok(bool_cell(a < b))),
        Op::I64GtS => Some(Ok(bool_cell((a as i64) > (b as i64)))),
        Op::I64GtU => Some(Ok(bool_cell(a > b))),
        Op::I64LeS => Some(Ok(bool_cell((a as i64) <= (b as i64)))),
        Op::I64LeU => Some(Ok(bool_cell(a <= b))),
        Op::I64GeS => Some(Ok(bool_cell((a as i64) >= (b as i64)))),
        Op::I64GeU => Some(Ok(bool_cell(a >= b))),
        Op::F32Eq => Some(Ok(bool_cell(float_eq(low32(a), low32(b), false)))),
        Op::F32Ne => Some(Ok(bool_cell(!float_eq(low32(a), low32(b), false)))),
        Op::F32Lt => Some(Ok(bool_cell(float_lt(low32(a), low32(b), false)))),
        Op::F32Gt => Some(Ok(bool_cell(float_lt(low32(b), low32(a), false)))),
        Op::F32Le => Some(Ok(bool_cell(float_le(low32(a), low32(b), false)))),
        Op::F32Ge => Some(Ok(bool_cell(float_le(low32(b), low32(a), false)))),
        Op::F64Eq => Some(Ok(bool_cell(float_eq(a, b, true)))),
        Op::F64Ne => Some(Ok(bool_cell(!float_eq(a, b, true)))),
        Op::F64Lt => Some(Ok(bool_cell(float_lt(a, b, true)))),
        Op::F64Gt => Some(Ok(bool_cell(float_lt(b, a, true)))),
        Op::F64Le => Some(Ok(bool_cell(float_le(a, b, true)))),
        Op::F64Ge => Some(Ok(bool_cell(float_le(b, a, true)))),
        Op::I32Add => Some(Ok(cell_i32(i32_of(a).wrapping_add(i32_of(b))))),
        Op::I32Sub => Some(Ok(cell_i32(i32_of(a).wrapping_sub(i32_of(b))))),
        Op::I32Mul => Some(Ok(cell_i32(i32_of(a).wrapping_mul(i32_of(b))))),
        Op::I32DivS => Some(ok_i32(div_s32(i32_of(a), i32_of(b)))),
        Op::I32DivU => Some(ok_u32(div_u32(a as u32, b as u32))),
        Op::I32RemS => Some(ok_i32(rem_s32(i32_of(a), i32_of(b)))),
        Op::I32RemU => Some(ok_u32(rem_u32(a as u32, b as u32))),
        Op::I32And => Some(Ok(cell_i32(i32_of(a) & i32_of(b)))),
        Op::I32Or => Some(Ok(cell_i32(i32_of(a) | i32_of(b)))),
        Op::I32Xor => Some(Ok(cell_i32(i32_of(a) ^ i32_of(b)))),
        Op::I32Shl => Some(Ok(cell_i32(i32_of(a).wrapping_shl(b as u32)))),
        Op::I32ShrS => Some(Ok(cell_i32(i32_of(a).wrapping_shr(b as u32)))),
        Op::I32ShrU => Some(Ok((a as u32).wrapping_shr(b as u32) as u64)),
        Op::I32Rotl => Some(Ok(cell_i32(rotl32(a as u32, b as u32) as i32))),
        Op::I32Rotr => Some(Ok(cell_i32(rotr32(a as u32, b as u32) as i32))),
        Op::I64Add => Some(Ok((a as i64).wrapping_add(b as i64) as u64)),
        Op::I64Sub => Some(Ok((a as i64).wrapping_sub(b as i64) as u64)),
        Op::I64Mul => Some(Ok((a as i64).wrapping_mul(b as i64) as u64)),
        Op::I64DivS => Some(ok_i64(div_s64(a as i64, b as i64))),
        Op::I64DivU => Some(div_u64(a, b)),
        Op::I64RemS => Some(ok_i64(rem_s64(a as i64, b as i64))),
        Op::I64RemU => Some(rem_u64(a, b)),
        Op::I64And => Some(Ok(a & b)),
        Op::I64Or => Some(Ok(a | b)),
        Op::I64Xor => Some(Ok(a ^ b)),
        Op::I64Shl => Some(Ok((a as i64).wrapping_shl(b as u32) as u64)),
        Op::I64ShrS => Some(Ok((a as i64).wrapping_shr(b as u32) as u64)),
        Op::I64ShrU => Some(Ok(a.wrapping_shr(b as u32))),
        Op::I64Rotl => Some(Ok(rotl64(a, b as u32))),
        Op::I64Rotr => Some(Ok(rotr64(a, b as u32))),
        Op::F32Min => Some(Ok(float_min(low32(a), low32(b), false))),
        Op::F32Max => Some(Ok(float_max(low32(a), low32(b), false))),
        Op::F32Copysign => Some(Ok(float_copysign(low32(a), low32(b), false))),
        Op::F64Min => Some(Ok(float_min(a, b, true))),
        Op::F64Max => Some(Ok(float_max(a, b, true))),
        Op::F64Copysign => Some(Ok(float_copysign(a, b, true))),
        Op::RefEq => Some(Ok(ref_eq(ref_of(a), ref_of(b)) as u64)),
        _ => None,
    }
}

/// The floating-point operation that an operation leaves to the host.
pub fn host_float(op: &Op) -> (r: Option<(FloatOp, bool)>)
    ensures
        r == spec_host_float(op@),
{
    match op {
        Op::F32Ceil => Some((FloatOp::F32Ceil, false)),
        Op::F32Floor => Some((FloatOp::F32Floor, false)),
        Op::F32Trunc => Some((FloatOp::F32Trunc, false)),
        Op::F32Nearest => Some((FloatOp::F32Nearest, false)),
        Op::F32Sqrt => Some((FloatOp::F32Sqrt, false)),
        Op::F32Add => Some((FloatOp::F32Add, true)),
        Op::F32Sub => Some((FloatOp::F32Sub, true)),
        Op::F32Mul => Some((FloatOp::F32Mul, true)),
        Op::F32Div => Some((FloatOp::F32Div, true)),
        Op::F64Add => Some((FloatOp::F64Add, true)),
        Op::F64Sub => Some((FloatOp::F64Sub, true)),
        Op::F64Mul => Some((FloatOp::F64Mul, true)),
        Op::F64Div => Some((FloatOp::F64Div, true)),
        Op::F64Ceil => Some((FloatOp::F64Ceil, false)),
        Op::F64Floor => Some((FloatOp::F64Floor, false)),
        Op::F64Trunc => Some((FloatOp::F64Trunc, false)),
        Op::F64Nearest => Some((FloatOp::F64Nearest, false)),
        Op::F64Sqrt => Some((FloatOp::F64Sqrt, false)),
        Op::F32ConvertI32S => Some((FloatOp::F32ConvertI32S, false)),
        Op::F32ConvertI32U => Some((FloatOp::F32ConvertI32U, false)),
        Op::F32ConvertI64S => Some((FloatOp::F32ConvertI64S, false)),
        Op::F32ConvertI64U => Some((FloatOp::F32ConvertI64U, false)),
        Op::F32DemoteF64 => Some((FloatOp::F32DemoteF64, false)),
        Op::F64ConvertI32S => Some((FloatOp::F64ConvertI32S, false)),
        Op::F64ConvertI32U => Some((FloatOp::F64ConvertI32U, false)),
        Op::F64ConvertI64S => Some((FloatOp::F64ConvertI64S, false)),
        Op::F64ConvertI64U => Some((FloatOp::F64ConvertI64U, false)),
        Op::F64PromoteF32 => Some((FloatOp::F64PromoteF32, false)),
        _ => None,
    }
}

/// Whether an operation has one operand and works on the stack alone.
pub open spec fn spec_is_unary(op: OpView) -> bool {
    spec_unary(op, 0) is Some
}

/// Whether an operation has two operands and works on the stack alone.
pub open spec fn spec_is_binary(op: OpView) -> bool {
    spec_binary(op, 0, 0) is Some
}

/// Whether an operation has a result does not depend on its operands.
pub proof fn lemma_arity(op: OpView, a: u64, b: u64)
    ensures
        spec_unary(op, a) is Some == spec_is_unary(op),
        spec_binary(op, a, b) is Some == spec_is_binary(op),
        !(spec_is_unary(op) && spec_is_binary(op)),
        spec_host_float(op) is Some ==> !spec_is_unary(op) && !spec_is_binary(op),
{
}

/// Addition wraps and is associative; a product with 0 is 0; a value
/// XORed with itself is 0, and ORed with itself is itself.
pub proof fn lemma_i32_laws(a: i32, b: i32, c: i32)
    ensures
        a.wrapping_add(b).wrapping_add(c) == a.wrapping_add(b.wrapping_add(c)),
        a.wrapping_mul(0) == 0,
        a ^ a == 0,
        a | a == a,
{
    assert(a ^ a == 0) by (bit_vector);
    assert(a | a == a) by (bit_vector);
    assert((a as int * 0) == 0);
}

/// Sign extension of the low byte gives back every value from -128 to 127:
/// the value is its low byte, wrapped to 32 bits, with the high bits set
/// where the byte is 0x80 or more.
pub proof fn lemma_extend8(x: i32)
    requires
        -128 <= x <= 127,
    ensures
        ((((x & 0xff) | (if (x & 0xff) < 0x80 {
            0
        } else {
            0xffff_ff00u32 as i32
        })) as i8) as i32) == x,
        ((x as i8) as i32) == x,
{
    assert(-128 <= x <= 127 ==> ((((x & 0xff) | (if (x & 0xff) < 0x80 {
        0
    } else {
        0xffff_ff00u32 as i32
    })) as i8) as i32) == x) by (bit_vector);
    assert(-128 <= x <= 127 ==> ((x as i8) as i32) == x) by (bit_vector);
}

/// A reference equals itself, null equals null, and null equals no index.
pub proof fn lemma_ref_eq(a: Option<u32>, index: u32)
    ensures
        spec_ref_eq(a, a) == 1,
        spec_ref_eq(None, None) == 1,
        spec_ref_eq(None, Some(index)) == 0,
        spec_ref_eq(Some(index), None) == 0,
{
}

/// Reinterpretation keeps the bits: what `f32.reinterpret_i32` makes of
/// what `i32.reinterpret_f32` made of a cell is the same cell again, and
/// likewise for 64 bits.
pub proof fn lemma_reinterpret(c: u64)
    ensures
        spec_unary(OpView::I32ReinterpretF32, c) == Some(Ok::<u64, Fault>(spec_low32(c))),
        spec_unary(OpView::F32ReinterpretI32, spec_low32(c)) == Some(
            Ok::<u64, Fault>(spec_low32(c)),
        ),
        spec_unary(OpView::F64ReinterpretI64, c) == Some(Ok::<u64, Fault>(c)),
        spec_unary(OpView::I64ReinterpretF64, c) == Some(Ok::<u64, Fault>(c)),
{
    assert((((c as u32) as u64) as u32) as u64 == (c as u32) as u64) by (bit_vector);
}

/// The least integer divided by -1 overflows, and every division by zero
/// is a division by zero.
pub proof fn lemma_division_faults(x: i32, y: u32)
    ensures
        spec_div_s32(i32::MIN, -1i32) == Err::<i32, Fault>(Fault::IntegerOverflow),
        spec_div_s32(x, 0) == Err::<i32, Fault>(Fault::IntegerDivisionByZero),
        spec_div_u32(y, 0) == Err::<u32, Fault>(Fault::IntegerDivisionByZero),
        spec_rem_s32(i32::MIN, -1i32) == Ok::<i32, Fault>(0),
{
}

} // verus!
