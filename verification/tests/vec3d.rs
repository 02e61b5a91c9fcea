use agc_physics::FixedPoint;
use agc_physics::UnitVec3D;
use agc_physics::Vec3D;

fn get_test_vecs() -> (Vec3D<56>, Vec3D<56>) {
    (
        Vec3D::from_floats_bits(5.0f64.to_bits(), 7.0f64.to_bits(), 10.0f64.to_bits()).unwrap(),
        Vec3D::from_floats_bits(2.0f64.to_bits(), 9.0f64.to_bits(), 15.0f64.to_bits()).unwrap(),
    )
}

fn from_floats(x: f64, y: f64, z: f64) -> Vec3D<56> {
    Vec3D::from_floats_bits(x.to_bits(), y.to_bits(), z.to_bits()).unwrap()
}

#[test]
fn vec3d_addition() {
    let (v1, v2) = get_test_vecs();
    assert_eq!(v1.add(&v2), from_floats(7.0, 16.00, 25.0))
}

#[test]
fn vec3d_subtraction() {
    let (v1, v2) = get_test_vecs();
    assert_eq!(v1.sub(&v2), from_floats(3.0, -2.0, -5.0))
}

#[test]
fn vec3d_vector_to() {
    let (v1, v2) = get_test_vecs();
    assert_eq!(v1.vector_to(&v2), from_floats(-3.0, 2.0, 5.0))
}

#[test]
fn scaling() {
    let (v1, _v2) = get_test_vecs();
    assert_eq!(
        v1.scale(FixedPoint::<56>::from_int(10)),
        from_floats(50.0, 70.0, 100.0)
    )
}

#[test]
fn unitise() {
    let vec = UnitVec3D::from_floats_bits(1.0f64.to_bits(), 2.0f64.to_bits(), 2.0f64.to_bits())
        .unwrap();
    let unit = vec.to_unit_vector();
    let unit_spawned = UnitVec3D::from_floats_bits(
        (1.0f64 / 3.0).to_bits(),
        (2.0f64 / 3.0).to_bits(),
        (2.0f64 / 3.0).to_bits(),
    )
    .unwrap();
    println!("{:?}\n{:?}", unit, unit_spawned);
    assert!(
        // greatest difference is less than 2000;
        (unit.0.0 - unit_spawned.0.0.abs())
            .max((unit.1.0 - unit_spawned.1.0.abs()).max(unit.2.0 - unit_spawned.2.0.abs()))
            < 2000
    )
}

#[test]
fn magnitude_is_exact_integer_root() {
    let v = Vec3D::<40>(
        FixedPoint(30000),
        FixedPoint(40000),
        FixedPoint(0),
    );
    assert_eq!(v.magnitude(), FixedPoint(50000));
    // A non-square sum floors.
    let w = Vec3D::<40>(FixedPoint(2), FixedPoint(2), FixedPoint(1));
    assert_eq!(w.magnitude(), FixedPoint(3));
}

#[test]
fn checked_magnitude_traps_when_root_cannot_fit() {
    let big = FixedPoint::<6>(i64::MAX);
    let v = Vec3D::<6>(big, big, big);
    assert!(v.checked_magnitude().is_none());
    // One maximal component alone still squares to just under the bound.
    assert!(Vec3D::<6>(big, FixedPoint(0), FixedPoint(0)).checked_magnitude().is_some());
}

#[test]
fn unit_vector_of_axis_is_one() {
    let v = Vec3D::<6>(FixedPoint(7000), FixedPoint(0), FixedPoint(0));
    let unit = v.to_unit_vector();
    // Exactly 1.0 in the unit precision.
    assert_eq!(unit.0.0, 1i64 << 60);
    assert_eq!(unit.1.0, 0);
    assert_eq!(unit.2.0, 0);
}
