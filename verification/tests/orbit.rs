use agc_physics::PrintType;
use agc_physics::SimulationError;
use agc_physics::SolarFp;
use agc_physics::System;
use agc_physics::calculate_accel;
use agc_physics::checked_calculate_accel;
use agc_physics::initial_bodies;

fn as_f64(bits: u64) -> f64 {
    f64::from_bits(bits)
}

#[test]
fn test_sun_earth_acceleration() {
    let b = initial_bodies();
    let sun = &b[0];

    let earth = &b[3];

    let accel = calculate_accel(earth, sun);

    // Expected: GM/r^2 ≈ 1.327e20 / (1.471e11)^2 ≈ 6.13e-3 m/s²
    // Direction should point from Earth toward Sun (roughly +x, -y given Earth's position)
    let ax = as_f64(accel.0.to_f64_bits());
    let ay = as_f64(accel.1.to_f64_bits());
    let az = as_f64(accel.2.to_f64_bits());
    let mag = (ax * ax + ay * ay + az * az).sqrt();

    let expected = 6.13e-3;
    let tolerance = 0.05e-3;
    assert!(
        (mag - expected).abs() < tolerance,
        "Acceleration magnitude {mag:.6e} not within tolerance of expected {expected:.6e}. Off by a factor of {:.2e}.", mag/expected
    );

    // Earth is at (-x, +y), so acceleration toward Sun should be (+x, -y)
    assert!(ax > 0.0, "Expected positive x-acceleration, got {ax:.6e}");
    assert!(ay < 0.0, "Expected negative y-acceleration, got {ay:.6e}");
}

#[test]
fn energy_conservation_over_two_years() {
    // A full simulated two-year period, taken in half-day sub-steps so
    // the run fits in a test; the energy diagnostic's overall percent
    // deviation must stay in single digits.
    let mut system = System::create();
    let dt_bits = 43200.0f64.to_bits();
    let steps = 1461usize;
    let mut min_energy = i128::MAX;
    let mut max_energy = i128::MIN;
    for _ in 0..steps {
        let energy = system.step_time_forwards(dt_bits).unwrap();
        min_energy = min_energy.min(energy);
        max_energy = max_energy.max(energy);
    }
    let min_f = min_energy as f64 / 4096.0;
    let max_f = max_energy as f64 / 4096.0;
    let deviation = (max_f / min_f - 1.0).abs() * 100.0;
    assert!(
        deviation < 10.0,
        "energy deviation {deviation:.4}% over the run (min {min_f:.4e}, max {max_f:.4e})"
    );
}

#[test]
fn known_energy_is_negative() {
    // A gravitationally bound system's diagnostic is dominated by its
    // (negative) potential.
    let mut system = System::create();
    let energy = system.step_time_forwards(43.2f64.to_bits()).unwrap();
    assert!(energy < 0);
}

#[test]
fn bad_print_index_rejected_without_mutation() {
    let mut system = System::create();
    let before: Vec<i64> = system.bodies.iter().map(|b| b.position.0.0).collect();
    let r = system.simulate(PrintType::GraphSingle(10), 2000);
    assert!(matches!(r, Err(SimulationError::BadPrintIndex)));
    let after: Vec<i64> = system.bodies.iter().map(|b| b.position.0.0).collect();
    assert_eq!(before, after);
}

#[test]
fn bad_time_step_rejected() {
    let mut system = System::create();
    assert!(matches!(
        system.step_time_forwards(f64::NAN.to_bits()),
        Err(SimulationError::BadTimeStep)
    ));
    assert!(matches!(
        system.step_time_forwards(f64::INFINITY.to_bits()),
        Err(SimulationError::BadTimeStep)
    ));
    // Far beyond the solar precision's range.
    assert!(matches!(
        system.step_time_forwards(1.0e18f64.to_bits()),
        Err(SimulationError::BadTimeStep)
    ));
}

#[test]
fn advance_multistep_reaches_target() {
    let mut system = System::create();
    let mut reference = System::create();
    // 100 seconds in one configuration, stepped two ways.
    system
        .advance_time_multistep(SolarFp::from_int(100), Some(SolarFp::from_int(25)))
        .unwrap();
    reference
        .advance_time_multistep(SolarFp::from_int(100), Some(SolarFp::from_int(100)))
        .unwrap();
    // Both reached two simulated minutes; Earth moved about 3 km.
    let moved = (system.bodies[3].position.0.0 - initial_bodies()[3].position.0.0).abs();
    assert!(moved > 0);
    // The two stepping schedules agree to within integration error (a
    // few tens of metres here).
    let diff = (system.bodies[3].position.0.0 - reference.bodies[3].position.0.0).abs();
    assert!(diff < 64_000, "positions diverged by {diff} internal units");
}

#[test]
fn influencers_filled_for_all_bodies() {
    let system = System::create();
    for body in system.bodies.iter() {
        // In this catalogue every body structurally influences every
        // other (the star parents everything), but never itself.
        assert_eq!(body.orbit_influencers.len(), 9);
        assert!(!body.orbit_influencers.contains(&body.id));
    }
}

#[test]
fn scale_order_paths_agree() {
    // The early-scale path (shift, then divide) and the late-scale path
    // (divide, then shift) agree to within one late-scaled quantum for a
    // fixed (gravity, distance) pair.
    let g = SolarFp::from_int(1_000_000);
    let d = SolarFp::from_int(123);
    let scale: u8 = 10;
    let early = g.lshift(scale).div(d);
    let late = g.div(d).lshift(scale);
    let diff = early.0 - late.0;
    assert!(
        0 <= diff && diff < 1 << scale,
        "early {} vs late {}",
        early.0,
        late.0
    );
}

#[test]
fn create_loads_the_catalogue() {
    let system = System::create();
    assert_eq!(system.bodies.len(), 10);
    assert_eq!(system.bodies[0].name, "Sol");
    assert!(system.bodies[0].parent_id.is_none());
    for (i, body) in system.bodies.iter().enumerate() {
        assert_eq!(body.id, i);
        if i > 0 {
            assert_eq!(body.parent_id, Some(0));
        }
    }
    assert!(!system.log_verlet);
    assert!(system.with_verlet_log().log_verlet);
}

#[test]
fn accel_of_coincident_bodies_traps() {
    let b = initial_bodies();
    // A body against itself has zero separation: the pipeline reports the
    // trap instead of dividing by zero.
    assert!(checked_calculate_accel(&b[3], &b[3]).is_none());
}
