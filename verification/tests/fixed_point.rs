use agc_physics::FixedPoint;
use agc_physics::FloatConversionError;
use agc_physics::SolarFp;
use agc_physics::StepFp;
use agc_physics::UnitFp;

// Slightly larger integer range than the unit precision, to keep testing
// easy.
type TestFp = FixedPoint<56>;

#[test]
fn add() {
    assert_eq!(
        TestFp::from_int(2).add(TestFp::from_int(3)),
        TestFp::from_int(5)
    )
}

#[test]
fn sub() {
    assert_eq!(
        TestFp::from_int(4).sub(TestFp::from_int(3)),
        TestFp::from_int(1)
    )
}

#[test]
fn mul() {
    assert_eq!(
        TestFp::from_int(2).mul(TestFp::from_int(3)),
        TestFp::from_int(6)
    )
}

#[test]
fn div() {
    assert_eq!(
        TestFp::from_int(6).div(TestFp::from_int(2)),
        TestFp::from_int(3)
    )
}

#[test]
fn from_float() {
    assert_eq!(
        TestFp::from_f64_bits(1.0f64.to_bits()).unwrap(),
        TestFp::from_int(1)
    )
}

#[test]
fn from_float_decimal() {
    assert_eq!(
        TestFp::from_f64_bits(1.5f64.to_bits()).unwrap(),
        TestFp::from_int(3).div(TestFp::from_int(2))
    )
}

#[test]
fn to_float() {
    assert_eq!(
        f64::from_bits(TestFp::from_f64_bits(1.5f64.to_bits()).unwrap().to_f64_bits()),
        1.5f64
    )
}

#[test]
fn abs() {
    assert_eq!(
        TestFp::from_f64_bits_trusted((-1.5f64).to_bits()).abs(),
        TestFp::from_f64_bits_trusted(1.5f64.to_bits())
    )
}

fn round_trips_exactly<const N: u8>(x: f64) {
    let fixed = FixedPoint::<N>::from_f64_bits(x.to_bits()).unwrap();
    let back = f64::from_bits(fixed.to_f64_bits());
    let again = FixedPoint::<N>::from_f64_bits(back.to_bits()).unwrap();
    assert_eq!(fixed, again, "round trip changed the representation of {x}");
}

#[test]
fn round_trip_unit_precision() {
    for x in [0.0, 1.0, -1.0, 0.5, -0.5, 1e-3, -1e-3, 3.999, -3.999, 1e-17, -1e-17] {
        round_trips_exactly::<60>(x);
    }
}

#[test]
fn round_trip_step_precision() {
    for x in [0.0, 1.0, -7.25, 43.2, -43.2, 3.665298704187096e4, -2.983983333677879e4, 1e-9] {
        round_trips_exactly::<40>(x);
    }
}

#[test]
fn round_trip_solar_precision() {
    for x in [
        0.0,
        1.0,
        -1.0,
        43.2,
        1.26558e14,
        -2.105_262_107_244_07e10,
        1.449279195838006e11,
        -4.182460280867265e12,
    ] {
        round_trips_exactly::<6>(x);
    }
}

#[test]
fn round_trip_is_lossless_once_represented() {
    // The first conversion may shed mantissa bits below the precision;
    // after that nothing changes, bit for bit.
    let x = 0.1f64;
    let once = SolarFp::from_f64_bits(x.to_bits()).unwrap();
    let twice = SolarFp::from_f64_bits(f64::from_bits(once.to_f64_bits()).to_bits()).unwrap();
    assert_eq!(once, twice);
}

#[test]
fn from_float_rejects_non_finite() {
    assert_eq!(
        SolarFp::from_f64_bits(f64::NAN.to_bits()),
        Err(FloatConversionError::NonNumericInput)
    );
    assert_eq!(
        SolarFp::from_f64_bits(f64::INFINITY.to_bits()),
        Err(FloatConversionError::NonNumericInput)
    );
    assert_eq!(
        SolarFp::from_f64_bits(f64::NEG_INFINITY.to_bits()),
        Err(FloatConversionError::NonNumericInput)
    );
}

#[test]
fn from_float_rejects_out_of_bounds() {
    // The unit precision leaves only a few integer bits.
    assert_eq!(
        UnitFp::from_f64_bits(1299.0f64.to_bits()),
        Err(FloatConversionError::OutOfBounds)
    );
    // The solar precision tops out near 1.4e17.
    assert_eq!(
        SolarFp::from_f64_bits(1.0e18f64.to_bits()),
        Err(FloatConversionError::OutOfBounds)
    );
    assert!(SolarFp::from_f64_bits(1.0e14f64.to_bits()).is_ok());
}

#[test]
fn checked_add_traps_overflow() {
    let near_max = SolarFp::with_internal(i64::MAX);
    assert!(near_max.checked_add(SolarFp::with_internal(1)).is_none());
    assert!(near_max.checked_add(SolarFp::with_internal(-1)).is_some());
    let near_min = SolarFp::with_internal(i64::MIN);
    assert!(near_min.checked_sub(SolarFp::with_internal(1)).is_none());
}

#[test]
fn checked_mul_traps_overflow() {
    let big = SolarFp::with_internal(i64::MAX / 2);
    assert!(big.checked_mul(SolarFp::from_int(1000)).is_none());
    assert!(big.checked_mul(SolarFp::from_int(1)).is_some());
}

#[test]
fn checked_div_traps_overflow_and_zero() {
    let big = StepFp::with_internal(i64::MAX / 2);
    // Dividing by a tiny value widens beyond the 64-bit range.
    assert!(big.checked_div(StepFp::with_internal(1)).is_none());
    assert!(big.checked_div(StepFp::with_internal(0)).is_none());
    assert!(big.checked_div(StepFp::from_int(2)).is_some());
}

#[test]
fn shifts_scale_by_powers_of_two() {
    let v = SolarFp::from_int(3);
    assert_eq!(v.lshift(4), SolarFp::from_int(48));
    assert_eq!(v.lshift(4).rshift(4), v);
    // The arithmetic right shift rounds towards negative infinity.
    assert_eq!(SolarFp::with_internal(-3).rshift(1), SolarFp::with_internal(-2));
}

#[test]
fn cross_precision_conversion_is_a_bit_shift() {
    let v = SolarFp::from_int(5);
    let s = v.as_step_fp();
    assert_eq!(s, StepFp::from_int(5));
    assert_eq!(s.as_solar_fp(), v);
}

#[test]
fn scale_by_other_keeps_scalar_precision() {
    let half = UnitFp::from_f64_bits(0.5f64.to_bits()).unwrap();
    let v = StepFp::from_int(12);
    assert_eq!(half.scale_by_other(v), StepFp::from_int(6));
}
