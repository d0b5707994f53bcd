use wasbox::exec::Fault;
use wasbox::float::{
    float_abs, float_copysign, float_eq, float_is_nan, float_le, float_lt, float_max, float_min,
    float_neg, trunc_f32_to_i32, trunc_f32_to_i64, trunc_f32_to_u32, trunc_f32_to_u64,
    trunc_f64_to_i32, trunc_f64_to_i64, trunc_f64_to_u32, trunc_f64_to_u64, trunc_sat_to_i32,
    trunc_sat_to_i64, trunc_sat_to_u32, trunc_sat_to_u64, F32_NAN, F64_NAN,
};

/// Bit patterns at the edges of every format and range, and others from a
/// fixed pseudo-random walk.
fn samples32() -> Vec<u32> {
    let mut out: Vec<u32> = vec![
        0, 1, 0x007f_ffff, 0x0080_0000, 0x3f7f_ffff, 0x3f80_0000, 0x3fc0_0000, 0x4000_0000,
        0x4eff_ffff, 0x4f00_0000, 0x4f00_0001, 0x4f7f_ffff, 0x4f80_0000, 0x5eff_ffff,
        0x5f00_0000, 0x5f7f_ffff, 0x5f80_0000, 0x7f7f_ffff, 0x7f80_0000, 0x7f80_0001,
        0x7fc0_0000, 0x7fff_ffff, 0x4b00_0000, 0x4b7f_ffff, 0x4b80_0000, 0x3f00_0000,
    ];
    let negatives: Vec<u32> = out.iter().map(|b| b | 0x8000_0000).collect();
    out.extend(negatives);
    out.push(0xcf00_0001);
    let mut x: u32 = 0x1234_5678;
    for _ in 0..20_000 {
        x = x.wrapping_mul(1664525).wrapping_add(1013904223);
        out.push(x);
    }
    out
}

fn samples64() -> Vec<u64> {
    let mut out: Vec<u64> = vec![
        0,
        1,
        0x000f_ffff_ffff_ffff,
        0x0010_0000_0000_0000,
        0x3fef_ffff_ffff_ffff,
        0x3ff0_0000_0000_0000,
        0x3ff8_0000_0000_0000,
        0x41df_ffff_ffc0_0000,
        0x41df_ffff_ffff_ffff,
        0x41e0_0000_0000_0000,
        0x41e0_0000_0020_0000,
        0x41ef_ffff_ffe0_0000,
        0x41ef_ffff_ffff_ffff,
        0x41f0_0000_0000_0000,
        0x4330_0000_0000_0000,
        0x433f_ffff_ffff_ffff,
        0x43df_ffff_ffff_ffff,
        0x43e0_0000_0000_0000,
        0x43ef_ffff_ffff_ffff,
        0x43f0_0000_0000_0000,
        0x7fef_ffff_ffff_ffff,
        0x7ff0_0000_0000_0000,
        0x7ff0_0000_0000_0001,
        0x7ff8_0000_0000_0000,
        0x7fff_ffff_ffff_ffff,
    ];
    let negatives: Vec<u64> = out.iter().map(|b| b | 0x8000_0000_0000_0000).collect();
    out.extend(negatives);
    out.push(0xc1e0_0000_0000_0001);
    out.push(0xc1e0_0000_001f_ffff);
    out.push(0xc1e0_0000_0020_0000);
    let mut x: u64 = 0x9e37_79b9_7f4a_7c15;
    for _ in 0..20_000 {
        x = x.wrapping_mul(6364136223846793005).wrapping_add(1442695040888963407);
        out.push(x);
        // a pattern with an exponent near the integer ranges
        out.push((x & 0x800f_ffff_ffff_ffff) | ((0x3f0 + (x >> 58)) << 52));
    }
    out
}

fn expected_trunc(value: f64, min: f64, max_exclusive: f64) -> Result<f64, Fault> {
    if value.is_nan() {
        Err(Fault::InvalidConversion)
    } else if value.is_infinite() || value.trunc() < min || value.trunc() >= max_exclusive {
        Err(Fault::IntegerOverflow)
    } else {
        Ok(value.trunc())
    }
}

#[test]
fn truncation_of_single_floats_agrees_with_the_hardware() {
    for bits in samples32() {
        let v = f32::from_bits(bits) as f64;
        assert_eq!(
            trunc_f32_to_i32(bits),
            expected_trunc(v, -2147483648.0, 2147483648.0).map(|t| t as i32),
            "{bits:#x}"
        );
        assert_eq!(
            trunc_f32_to_u32(bits),
            expected_trunc(v, 0.0, 4294967296.0).map(|t| t as u32),
            "{bits:#x}"
        );
        assert_eq!(
            trunc_f32_to_i64(bits),
            expected_trunc(v, -9223372036854775808.0, 9223372036854775808.0).map(|t| t as i64),
            "{bits:#x}"
        );
        assert_eq!(
            trunc_f32_to_u64(bits),
            expected_trunc(v, 0.0, 18446744073709551616.0).map(|t| t as u64),
            "{bits:#x}"
        );
    }
}

#[test]
fn truncation_of_double_floats_agrees_with_the_hardware() {
    for bits in samples64() {
        let v = f64::from_bits(bits);
        assert_eq!(
            trunc_f64_to_i32(bits),
            expected_trunc(v, -2147483648.0, 2147483648.0).map(|t| t as i32),
            "{bits:#x}"
        );
        assert_eq!(
            trunc_f64_to_u32(bits),
            expected_trunc(v, 0.0, 4294967296.0).map(|t| t as u32),
            "{bits:#x}"
        );
        assert_eq!(
            trunc_f64_to_i64(bits),
            expected_trunc(v, -9223372036854775808.0, 9223372036854775808.0).map(|t| t as i64),
            "{bits:#x}"
        );
        assert_eq!(
            trunc_f64_to_u64(bits),
            expected_trunc(v, 0.0, 18446744073709551616.0).map(|t| t as u64),
            "{bits:#x}"
        );
    }
}

#[test]
fn truncation_traps_at_the_bounds_of_the_reference() {
    // i32.trunc_f32_s is valid exactly above -2147483904.0 and below 2147483648.0
    assert_eq!(trunc_f32_to_i32((-2147483904.0f32).to_bits()), Err(Fault::IntegerOverflow));
    assert_eq!(trunc_f32_to_i32((-2147483648.0f32).to_bits()), Ok(i32::MIN));
    assert_eq!(trunc_f32_to_i32(2147483520.0f32.to_bits()), Ok(2147483520));
    assert_eq!(trunc_f32_to_i32(2147483648.0f32.to_bits()), Err(Fault::IntegerOverflow));
    assert_eq!(trunc_f32_to_i32(f32::NAN.to_bits()), Err(Fault::InvalidConversion));
    assert_eq!(trunc_f32_to_i32(F32_NAN | 0x8000_0000), Err(Fault::InvalidConversion));
    // i32.trunc_f64_s is valid exactly above -2147483649.0 and below 2147483648.0
    assert_eq!(trunc_f64_to_i32((-2147483649.0f64).to_bits()), Err(Fault::IntegerOverflow));
    assert_eq!(trunc_f64_to_i32((-2147483648.9f64).to_bits()), Ok(i32::MIN));
    assert_eq!(trunc_f64_to_i32(2147483647.9f64.to_bits()), Ok(i32::MAX));
    // unsigned truncation is valid above -1.0
    assert_eq!(trunc_f64_to_u32((-1.0f64).to_bits()), Err(Fault::IntegerOverflow));
    assert_eq!(trunc_f64_to_u32((-0.9f64).to_bits()), Ok(0));
    assert_eq!(trunc_f64_to_u32(4294967295.5f64.to_bits()), Ok(u32::MAX));
    assert_eq!(trunc_f32_to_u64((-0.0f32).to_bits()), Ok(0));
    assert_eq!(trunc_f64_to_u64(18446744073709549568.0f64.to_bits()), Ok(0xffff_ffff_ffff_f800));
    assert_eq!(
        trunc_f64_to_u64(18446744073709551616.0f64.to_bits()),
        Err(Fault::IntegerOverflow)
    );
    assert_eq!(trunc_f64_to_i64(f64::INFINITY.to_bits()), Err(Fault::IntegerOverflow));
    assert_eq!(trunc_f64_to_i64(F64_NAN), Err(Fault::InvalidConversion));
    assert_eq!(trunc_f32_to_i64((-9223372036854775808.0f32).to_bits()), Ok(i64::MIN));
}

#[test]
fn saturating_truncation_agrees_with_the_casts_of_the_language() {
    for bits in samples32() {
        let v = f32::from_bits(bits);
        assert_eq!(trunc_sat_to_i32(bits as u64, false), v as i32, "{bits:#x}");
        assert_eq!(trunc_sat_to_u32(bits as u64, false), v as u32, "{bits:#x}");
        assert_eq!(trunc_sat_to_i64(bits as u64, false), v as i64, "{bits:#x}");
        assert_eq!(trunc_sat_to_u64(bits as u64, false), v as u64, "{bits:#x}");
    }
    for bits in samples64() {
        let v = f64::from_bits(bits);
        assert_eq!(trunc_sat_to_i32(bits, true), v as i32, "{bits:#x}");
        assert_eq!(trunc_sat_to_u32(bits, true), v as u32, "{bits:#x}");
        assert_eq!(trunc_sat_to_i64(bits, true), v as i64, "{bits:#x}");
        assert_eq!(trunc_sat_to_u64(bits, true), v as u64, "{bits:#x}");
    }
}

#[test]
fn comparison_agrees_with_the_hardware() {
    let s32 = samples32();
    for (i, &a) in s32.iter().enumerate().take(400) {
        for &b in s32.iter().skip(i % 7).step_by(97) {
            let (x, y) = (f32::from_bits(a), f32::from_bits(b));
            assert_eq!(float_eq(a as u64, b as u64, false), x == y, "{a:#x} {b:#x}");
            assert_eq!(float_lt(a as u64, b as u64, false), x < y, "{a:#x} {b:#x}");
            assert_eq!(float_le(a as u64, b as u64, false), x <= y, "{a:#x} {b:#x}");
        }
    }
    let s64 = samples64();
    for (i, &a) in s64.iter().enumerate().take(400) {
        for &b in s64.iter().skip(i % 7).step_by(97) {
            let (x, y) = (f64::from_bits(a), f64::from_bits(b));
            assert_eq!(float_eq(a, b, true), x == y, "{a:#x} {b:#x}");
            assert_eq!(float_lt(a, b, true), x < y, "{a:#x} {b:#x}");
            assert_eq!(float_le(a, b, true), x <= y, "{a:#x} {b:#x}");
        }
    }
}

#[test]
fn signs_and_classes_agree_with_the_hardware() {
    for bits in samples32() {
        let v = f32::from_bits(bits);
        assert_eq!(float_is_nan(bits as u64, false), v.is_nan());
        assert_eq!(float_abs(bits as u64, false), v.abs().to_bits() as u64);
        assert_eq!(float_neg(bits as u64, false), (-v).to_bits() as u64);
        assert_eq!(
            float_copysign(bits as u64, 0x8000_0000, false),
            v.copysign(-1.0).to_bits() as u64
        );
    }
    for bits in samples64() {
        let v = f64::from_bits(bits);
        assert_eq!(float_is_nan(bits, true), v.is_nan());
        assert_eq!(float_abs(bits, true), v.abs().to_bits());
        assert_eq!(float_neg(bits, true), (-v).to_bits());
        assert_eq!(float_copysign(bits, 0, true), v.copysign(1.0).to_bits());
    }
}

#[test]
fn minimum_and_maximum_propagate_nan_and_order_the_zeros() {
    let f = |v: f32| v.to_bits() as u64;
    assert_eq!(float_min(f(1.0), f(2.0), false), f(1.0));
    assert_eq!(float_max(f(1.0), f(2.0), false), f(2.0));
    assert_eq!(float_min(f(-1.0), f(-2.0), false), f(-2.0));
    assert_eq!(float_min(f(0.0), f(-0.0), false), f(-0.0));
    assert_eq!(float_min(f(-0.0), f(0.0), false), f(-0.0));
    assert_eq!(float_max(f(0.0), f(-0.0), false), f(0.0));
    assert_eq!(float_max(f(-0.0), f(0.0), false), f(0.0));
    assert_eq!(float_min(f(f32::NAN), f(1.0), false), F32_NAN as u64);
    assert_eq!(float_max(f(1.0), 0xffc1_2345, false), F32_NAN as u64);
    assert_eq!(float_min(f(f32::NEG_INFINITY), f(f32::INFINITY), false), f(f32::NEG_INFINITY));
    let d = |v: f64| v.to_bits();
    assert_eq!(float_min(d(3.5), d(-7.25), true), d(-7.25));
    assert_eq!(float_max(d(3.5), d(-7.25), true), d(3.5));
    assert_eq!(float_max(d(f64::NAN), d(f64::NAN), true), F64_NAN);
    assert_eq!(float_min(d(0.0), d(-0.0), true), d(-0.0));
    for &a in samples64().iter().take(300) {
        for &b in samples64().iter().skip(50).take(60) {
            let (x, y) = (f64::from_bits(a), f64::from_bits(b));
            if !x.is_nan() && !y.is_nan() && x != y {
                assert_eq!(float_min(a, b, true), x.min(y).to_bits());
                assert_eq!(float_max(a, b, true), x.max(y).to_bits());
            }
        }
    }
}
