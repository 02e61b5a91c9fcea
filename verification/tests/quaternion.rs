use agc_physics::FloatConversionError;
use agc_physics::Quaternion;
use agc_physics::QuaternionError;
use agc_physics::UnitFp;
use agc_physics::Vec3D;

fn quat(w: f64, x: f64, y: f64, z: f64) -> Result<Quaternion, QuaternionError> {
    Quaternion::from_float_bits(w.to_bits(), x.to_bits(), y.to_bits(), z.to_bits())
}

fn unit(v: f64) -> UnitFp {
    UnitFp::from_f64_bits_trusted(v.to_bits())
}

#[test]
fn test_new_valid() {
    // this creation passes validation because its magnitude is 1
    let ff = quat(0.0, 0.6, 0.8, 0.0);
    let expected = Ok(Quaternion(unit(0.0), unit(0.6), unit(0.8), unit(0.0)));
    println!("float: {:?}\nexpec: {:?}", ff, expected);
    assert_eq!(ff, expected)
}

#[test]
fn test_new_invalid() {
    // magnitude too far from 1, fail
    assert_eq!(quat(1.0, 1.0, 0.0, 0.0), Err(QuaternionError::NotUnit));

    // bad float fed in, float fails bounds check
    assert_eq!(
        quat(1.0, 3.0, 1299.0, 3.0),
        Err(QuaternionError::BadFloat(FloatConversionError::OutOfBounds))
    )
}

#[test]
fn test_mult() {
    // multiply two quaternions together, validate output is correct
    // against external calculation (within the epsilon on each field).
    let multed = quat(0.3, 0.6, 0.5, 0.547722558)
        .unwrap()
        .mult(&quat(0.8, 0.1, 0.5, 0.316227766).unwrap());
    let result = Quaternion(
        unit(-0.2432050809041),
        unit(0.394252604),
        unit(0.4150355962),
        unit(0.7830463762),
    );
    println!("{:?}\n{:?}", multed, result);
    assert!(multed.equal_within_epsilon(&result))
}

#[test]
fn test_conjugate() {
    let quat_test = quat(0.0, 0.6, 0.8, 0.0).unwrap();
    assert_eq!(quat_test.conjugated(), quat(0.0, -0.6, -0.8, -0.0).unwrap());
}

#[test]
fn test_from_vector() {
    let test_vector = Vec3D::from_floats_bits(0.6f64.to_bits(), 0.8f64.to_bits(), 0.0f64.to_bits())
        .unwrap();
    assert_eq!(
        Quaternion::from_vector(test_vector),
        quat(0.0, 0.6, 0.8, 0.0).unwrap()
    )
}

#[test]
fn test_to_forward_vector() {
    assert_eq!(
        quat(1.0, 0.0, 0.0, 0.0).unwrap().to_forward_vector(),
        Vec3D::from_floats_bits(1.0f64.to_bits(), 0.0f64.to_bits(), 0.0f64.to_bits()).unwrap()
    )
}
