//! The velocity-Verlet N-body integrator: advances the ten-body system
//! through time, computing pairwise gravitational acceleration each step
//! and an energy-conservation diagnostic across the run.
use vstd::prelude::*;

verus! {

use crate::fixed_point::FixedPoint;
use crate::fixed_point::SolarFp;
use crate::fixed_point::StepFp;
use crate::fixed_point::abs_int;
use crate::fixed_point::div_result;
use crate::fixed_point::from_f64_bits_spec;
use crate::fixed_point::half_bits_spec;
use crate::fixed_point::half_f64_bits;
use crate::planets::Body;
use crate::vec3d::PrintType;
use crate::vec3d::SolarVec3D;
use crate::vec3d::StepVec3D;
use crate::vec3d::sqrt_floor;
use crate::vec3d::squared_sum;
use vstd::arithmetic::power2::pow2;

/// Errors a simulation run can surface to its caller.
#[derive(Clone, Copy, Debug, PartialEq, Eq, Structural)]
pub enum SimulationError {
    /// A time value could not be represented in the needed fixed-point
    /// precision.
    BadTimeStep,
    /// A single-body print names an index outside the body array.
    BadPrintIndex,
    /// A fixed-point operation left the representable range: the
    /// simulation left its designed operating envelope.
    ArithmeticOverflow,
}

/// The value stays inside the 64-bit backing range.
pub open spec fn in_i64(a: int) -> bool {
    i64::MIN <= a <= i64::MAX
}

/// The value stays inside the range a trapping product or quotient
/// accepts.
pub open spec fn in_prod(a: int) -> bool {
    -i64::MAX <= a <= i64::MAX
}

/// Componentwise vector addition, `None` where a component overflows.
pub open spec fn vec_add_spec(a: (int, int, int), b: (int, int, int)) -> Option<(int, int, int)> {
    if in_i64(a.0 + b.0) && in_i64(a.1 + b.1) && in_i64(a.2 + b.2) {
        Some((a.0 + b.0, a.1 + b.1, a.2 + b.2))
    } else {
        None
    }
}

/// The gravitational acceleration `pulled` experiences from `pulling`,
/// as `GM / d^2` along the unit direction vector, or `None` where the
/// fixed-point pipeline traps.
///
/// The power-of-two gravity scale is applied to the mantissa before the
/// division when the interaction is expected to produce a large raw
/// magnitude (the star pulls, or a parent pulls its direct child), and
/// after it otherwise; this is decided purely structurally.
pub open spec fn accel_spec(pulled: Body, pulling: Body) -> Option<(int, int, int)> {
    let vx = pulling.position@.0 - pulled.position@.0;
    let vy = pulling.position@.1 - pulled.position@.1;
    let vz = pulling.position@.2 - pulled.position@.2;
    if !(in_i64(vx) && in_i64(vy) && in_i64(vz)) {
        None
    } else {
        let sum = squared_sum((vx, vy, vz));
        if !(0 < sum < 0x4000_0000_0000_0000_0000_0000_0000_0000) {
            None
        } else {
            let dist = sqrt_floor(sum as nat) as int;
            let dir = (div_result(vx, dist, 60), div_result(vy, dist, 60), div_result(vz, dist, 60));
            let sc = pulling.gravity.scale;
            let late = pulling.id == 0 || pulled.parent_id == Some(pulling.id);
            if sc >= 63 {
                None
            } else {
                let g1 = if late {
                    pulling.gravity.stored_solar@
                } else {
                    pulling.gravity.stored_solar@ * pow2(sc as nat)
                };
                if !in_i64(g1) {
                    None
                } else {
                    let g2 = div_result(g1, dist, 6);
                    if !in_prod(g2) {
                        None
                    } else {
                        let g3 = g2 * pow2(34);
                        if !in_i64(g3) {
                            None
                        } else {
                            let g4q = div_result(g3, dist, 40);
                            if !in_prod(g4q) {
                                None
                            } else {
                                let g5 = if late {
                                    (g4q / pow2(34) as int) * pow2(sc as nat)
                                } else {
                                    g4q / pow2(34) as int
                                };
                                if !in_i64(g5) {
                                    None
                                } else {
                                    if abs_int(dir.0 * g5) < pow2(123) && abs_int(dir.1 * g5)
                                        < pow2(123) && abs_int(dir.2 * g5) < pow2(123) {
                                        Some(
                                            (
                                                (dir.0 * g5) / pow2(60) as int,
                                                (dir.1 * g5) / pow2(60) as int,
                                                (dir.2 * g5) / pow2(60) as int,
                                            ),
                                        )
                                    } else {
                                        None
                                    }
                                }
                            }
                        }
                    }
                }
            }
        }
    }
}

/// One sub-step of the given durations relates the two states, whatever
/// its energy diagnostic was.
pub open spec fn models_step_any(pre: Seq<Body>, post: Seq<Body>, half: int, dt: int) -> bool {
    exists|e: int| models_step(pre, post, half, dt, e)
}

/// The step duration the multistep advance uses, as double bits: the
/// override rendered exactly, or the configured default step.
pub open spec fn used_step_bits_spec(o: Option<SolarFp>) -> int {
    match o {
        Some(v) => crate::fixed_point::to_f64_bits_result(v@, 6),
        None => TIME_STEP_BITS as int,
    }
}

/// How many full-size steps of duration `dt` fit in `t` (none for a
/// negative target).
pub open spec fn full_steps_spec(t: int, dt: int) -> int {
    if t < 0 {
        0
    } else {
        crate::fixed_point::trunc_div(t, dt)
    }
}

/// The decoded full-size step duration of a multistep advance.
pub open spec fn used_step_value_spec(o: Option<SolarFp>) -> int {
    from_f64_bits_spec(used_step_bits_spec(o) as u64, 6)->Ok_0
}

/// The decoded half of the full-size step duration.
pub open spec fn used_half_value_spec(o: Option<SolarFp>) -> int {
    from_f64_bits_spec(half_bits_spec(used_step_bits_spec(o) as u64), 40)->Ok_0
}

/// The decoded remainder duration of a multistep advance.
pub open spec fn rem_step_value_spec(time: int, o: Option<SolarFp>) -> int {
    from_f64_bits_spec(advance_rem_bits(time, used_step_value_spec(o)), 6)->Ok_0
}

/// The decoded half of the remainder duration.
pub open spec fn rem_half_value_spec(time: int, o: Option<SolarFp>) -> int {
    from_f64_bits_spec(
        half_bits_spec(advance_rem_bits(time, used_step_value_spec(o))),
        40,
    )->Ok_0
}

/// A duration of the multistep advance fails its fixed-point rendering,
/// or the decoded full-size step is not positive: exactly the cases in
/// which the advance reports a bad time step.
pub open spec fn advance_bad_step_spec(time: int, o: Option<SolarFp>) -> bool {
    let ub = used_step_bits_spec(o) as u64;
    ||| from_f64_bits_spec(ub, 6) is Err
    ||| from_f64_bits_spec(half_bits_spec(ub), 40) is Err
    ||| used_step_value_spec(o) <= 0
    ||| from_f64_bits_spec(advance_rem_bits(time, used_step_value_spec(o)), 6) is Err
    ||| from_f64_bits_spec(
        half_bits_spec(advance_rem_bits(time, used_step_value_spec(o))),
        40,
    ) is Err
}

/// What a successful multistep advance did: as many full-size steps of
/// the used duration as fit in the target, then one final step of the
/// exact remainder, each duration run through its double rendering.
pub open spec fn advance_ok_spec(
    pre: Seq<Body>,
    post: Seq<Body>,
    time: int,
    o: Option<SolarFp>,
) -> bool {
    let ub = used_step_bits_spec(o) as u64;
    let dtc = from_f64_bits_spec(ub, 6);
    let hc = from_f64_bits_spec(half_bits_spec(ub), 40);
    &&& dtc is Ok
    &&& hc is Ok
    &&& dtc->Ok_0 > 0
    &&& advance_tail_spec(pre, post, time, dtc->Ok_0, hc->Ok_0)
}

/// The remainder duration of a multistep advance, rendered as double
/// bits.
pub open spec fn advance_rem_bits(time: int, dt: int) -> u64 {
    crate::fixed_point::to_f64_bits_result(
        if time < 0 {
            time
        } else {
            time - full_steps_spec(time, dt) * dt
        },
        6,
    ) as u64
}

/// The tail of a successful advance: the full steps, then the remainder
/// step through its own double rendering.
pub open spec fn advance_tail_spec(
    pre: Seq<Body>,
    post: Seq<Body>,
    time: int,
    dt: int,
    half: int,
) -> bool {
    &&& from_f64_bits_spec(advance_rem_bits(time, dt), 6) is Ok
    &&& from_f64_bits_spec(half_bits_spec(advance_rem_bits(time, dt)), 40) is Ok
    &&& exists|m: Seq<Body>|
        #![auto]
        models_run(pre, m, half, dt, full_steps_spec(time, dt) as nat) && models_step_any(
            m,
            post,
            from_f64_bits_spec(half_bits_spec(advance_rem_bits(time, dt)), 40)->Ok_0,
            from_f64_bits_spec(advance_rem_bits(time, dt), 6)->Ok_0,
        )
}

/// Packages the facts a finished multistep advance has established into
/// [`advance_ok_spec`].
proof fn lemma_advance_ok(
    pre: Seq<Body>,
    post: Seq<Body>,
    time: int,
    o: Option<SolarFp>,
    m: Seq<Body>,
    e: int,
)
    requires
        from_f64_bits_spec(used_step_bits_spec(o) as u64, 6) is Ok,
        from_f64_bits_spec(half_bits_spec(used_step_bits_spec(o) as u64), 40) is Ok,
        from_f64_bits_spec(used_step_bits_spec(o) as u64, 6)->Ok_0 > 0,
        from_f64_bits_spec(
            advance_rem_bits(time, from_f64_bits_spec(used_step_bits_spec(o) as u64, 6)->Ok_0),
            6,
        ) is Ok,
        from_f64_bits_spec(
            half_bits_spec(
                advance_rem_bits(
                    time,
                    from_f64_bits_spec(used_step_bits_spec(o) as u64, 6)->Ok_0,
                ),
            ),
            40,
        ) is Ok,
        models_run(
            pre,
            m,
            from_f64_bits_spec(half_bits_spec(used_step_bits_spec(o) as u64), 40)->Ok_0,
            from_f64_bits_spec(used_step_bits_spec(o) as u64, 6)->Ok_0,
            full_steps_spec(
                time,
                from_f64_bits_spec(used_step_bits_spec(o) as u64, 6)->Ok_0,
            ) as nat,
        ),
        models_step(
            m,
            post,
            from_f64_bits_spec(
                half_bits_spec(
                    advance_rem_bits(
                        time,
                        from_f64_bits_spec(used_step_bits_spec(o) as u64, 6)->Ok_0,
                    ),
                ),
                40,
            )->Ok_0,
            from_f64_bits_spec(
                advance_rem_bits(
                    time,
                    from_f64_bits_spec(used_step_bits_spec(o) as u64, 6)->Ok_0,
                ),
                6,
            )->Ok_0,
            e,
        ),
    ensures
        advance_ok_spec(pre, post, time, o),
{
    let dt = from_f64_bits_spec(used_step_bits_spec(o) as u64, 6)->Ok_0;
    let half = from_f64_bits_spec(half_bits_spec(used_step_bits_spec(o) as u64), 40)->Ok_0;
    assert(models_step_any(
        m,
        post,
        from_f64_bits_spec(half_bits_spec(advance_rem_bits(time, dt)), 40)->Ok_0,
        from_f64_bits_spec(advance_rem_bits(time, dt), 6)->Ok_0,
    ));
    assert(exists|m2: Seq<Body>|
        #![auto]
        models_run(pre, m2, half, dt, full_steps_spec(time, dt) as nat) && models_step_any(
            m2,
            post,
            from_f64_bits_spec(half_bits_spec(advance_rem_bits(time, dt)), 40)->Ok_0,
            from_f64_bits_spec(advance_rem_bits(time, dt), 6)->Ok_0,
        ));
}

/// Scale-order equivalence: at a division by the distance, applying the
/// power-of-two gravity scale to the mantissa before dividing (the early
/// path) exceeds applying it after (the late path) by less than one
/// late-scaled quantum.  The structural early/late branch in the
/// acceleration is therefore a range optimization, not a semantic change:
/// the two orders agree to within fixed-point rounding whenever both are
/// numerically valid.
pub proof fn lemma_scale_order_equivalence(g: int, d: int, s: nat)
    requires
        g >= 0,
        d >= 1,
    ensures
        pow2(s) as int * (g / d) <= (g * pow2(s)) / d,
        (g * pow2(s)) / d < pow2(s) as int * (g / d) + pow2(s),
{
    let p = pow2(s) as int;
    vstd::arithmetic::power2::lemma_pow2_pos(s);
    vstd::arithmetic::div_mod::lemma_fundamental_div_mod(g, d);
    let q = g / d;
    let r = g % d;
    vstd::arithmetic::div_mod::lemma_fundamental_div_mod(r * p, d);
    let q2 = (r * p) / d;
    let r2 = (r * p) % d;
    assert(g * p == d * (q * p + q2) + r2) by (nonlinear_arith)
        requires
            g == d * q + r,
            r * p == d * q2 + r2,
    ;
    assert(0 <= q2 < p) by (nonlinear_arith)
        requires
            r * p == d * q2 + r2,
            0 <= r2 < d,
            0 <= r < d,
            p >= 1,
            d >= 1,
    ;
    vstd::arithmetic::div_mod::lemma_fundamental_div_mod_converse(
        g * p,
        d,
        q * p + q2,
        r2,
    );
    assert(q * p == p * q) by (nonlinear_arith);
    assert(g / d >= 0) by {
        vstd::arithmetic::div_mod::lemma_div_pos_is_pos(g, d);
    }
}

/// Computes the gravitational acceleration of `pulled` due to
/// `pulling_body`, or `None` exactly where the fixed-point pipeline
/// would trap (which the caller reports as an overflow).
#[verifier::rlimit(50)]
pub fn checked_calculate_accel(pulled: &Body, pulling_body: &Body) -> (r: Option<StepVec3D>)
    ensures
        r is Some <==> accel_spec(*pulled, *pulling_body) is Some,
        r is Some ==> (accel_spec(*pulled, *pulling_body) matches Some(a) && r->Some_0@ == a),
{
    let v_to = match pulled.position.checked_vector_to(&pulling_body.position) {
        Some(v) => v,
        None => {
            return None;
        },
    };
    let distance = match v_to.checked_magnitude() {
        Some(d) => d,
        None => {
            return None;
        },
    };
    let direction_vector = match v_to.checked_to_unit_vector() {
        Some(d) => d,
        None => {
            return None;
        },
    };
    proof {
        if distance@ == 0 {
            assert(squared_sum(v_to@) < (0int + 1) * (0int + 1));
            assert(false);
        }
    }
    let mut grav = pulling_body.gravity.stored_solar;
    let late_scaled: bool = pulling_body.id == 0 || (match pulled.parent_id {
        Some(p) => p == pulling_body.id,
        None => false,
    });
    if pulling_body.gravity.scale >= 63 {
        return None;
    }
    if !late_scaled {
        grav = match grav.checked_lshift(pulling_body.gravity.scale) {
            Some(g) => g,
            None => {
                return None;
            },
        };
    }
    let grav = match grav.checked_div(distance) {
        Some(g) => g,
        None => {
            return None;
        },
    };
    let grav = match grav.checked_as_step_fp() {
        Some(g) => g,
        None => {
            return None;
        },
    };
    let mut grav = match grav.checked_div_by_solar(&distance) {
        Some(g) => g,
        None => {
            return None;
        },
    };
    if late_scaled {
        grav = match grav.checked_lshift(pulling_body.gravity.scale) {
            Some(g) => g,
            None => {
                return None;
            },
        };
    }
    direction_vector.checked_scale_from_unit(grav)
}

/// The summed acceleration on body `i` from the bodies below `j_upto`,
/// skipping body `i` itself, or `None` where any term or sum traps.
pub open spec fn accel_sum_spec(bodies: Seq<Body>, i: int, j_upto: int) -> Option<(int, int, int)>
    decreases j_upto,
{
    if j_upto <= 0 {
        Some((0int, 0int, 0int))
    } else {
        match accel_sum_spec(bodies, i, j_upto - 1) {
            None => None,
            Some(acc) => {
                if j_upto - 1 == i {
                    Some(acc)
                } else {
                    match accel_spec(bodies[i], bodies[j_upto - 1]) {
                        None => None,
                        Some(a) => vec_add_spec(acc, a),
                    }
                }
            },
        }
    }
}

/// Once the acceleration sum traps, extending it further cannot untrap
/// it.
proof fn lemma_accel_sum_none(bodies: Seq<Body>, i: int, k: int, m: int)
    requires
        accel_sum_spec(bodies, i, k) is None,
        k <= m,
    ensures
        accel_sum_spec(bodies, i, m) is None,
    decreases m - k,
{
    if m > k {
        lemma_accel_sum_none(bodies, i, k, m - 1);
    }
}

/// Sums the acceleration body `i` experiences from every other body, or
/// `None` where the arithmetic traps.
pub fn accel_sum(bodies: &[Body; 10], i: usize) -> (r: Option<StepVec3D>)
    requires
        i < 10,
    ensures
        r is Some <==> accel_sum_spec(bodies@, i as int, 10) is Some,
        r is Some ==> (accel_sum_spec(bodies@, i as int, 10) matches Some(a) && r->Some_0@ == a),
{
    let mut acc = StepVec3D::new();
    let mut j: usize = 0;
    while j < 10
        invariant
            i < 10,
            j <= 10,
            accel_sum_spec(bodies@, i as int, j as int) matches Some(a) && acc@ == a,
        decreases 10 - j,
    {
        if j != i {
            let term = match checked_calculate_accel(&bodies[i], &bodies[j]) {
                Some(a) => a,
                None => {
                    proof {
                        lemma_accel_sum_none(bodies@, i as int, j + 1, 10);
                    }
                    return None;
                },
            };
            acc = match acc.checked_add(&term) {
                Some(s) => s,
                None => {
                    proof {
                        lemma_accel_sum_none(bodies@, i as int, j + 1, 10);
                    }
                    return None;
                },
            };
        }
        j = j + 1;
    }
    Some(acc)
}

/// One pairwise potential term for the energy diagnostic: the gravity of
/// `other` over the distance to it, with `other`'s scale applied, or
/// `None` where the arithmetic traps.
pub open spec fn gpe_term_spec(me: Body, other: Body) -> Option<int> {
    let vx = other.position@.0 - me.position@.0;
    let vy = other.position@.1 - me.position@.1;
    let vz = other.position@.2 - me.position@.2;
    if !(in_i64(vx) && in_i64(vy) && in_i64(vz)) {
        None
    } else {
        let sum = squared_sum((vx, vy, vz));
        if !(0 < sum < 0x4000_0000_0000_0000_0000_0000_0000_0000) {
            None
        } else {
            let dist = sqrt_floor(sum as nat) as int;
            let g = div_result(other.gravity.stored_solar@, dist, 6);
            if !in_prod(g) {
                None
            } else if other.gravity.scale >= 63 {
                None
            } else {
                let t = g * pow2(other.gravity.scale as nat);
                if in_i64(t) {
                    Some(t)
                } else {
                    None
                }
            }
        }
    }
}

/// The accumulated potential of body `i` against the bodies below
/// `j_upto` (callers keep `j_upto <= i`, avoiding double counting), or
/// `None` where the arithmetic traps.
pub open spec fn gpe_sum_spec(bodies: Seq<Body>, i: int, j_upto: int) -> Option<int>
    decreases j_upto,
{
    if j_upto <= 0 {
        Some(0int)
    } else {
        match gpe_sum_spec(bodies, i, j_upto - 1) {
            None => None,
            Some(acc) => {
                match gpe_term_spec(bodies[i], bodies[j_upto - 1]) {
                    None => None,
                    Some(t) => if in_i64(acc - t) {
                        Some(acc - t)
                    } else {
                        None
                    },
                }
            },
        }
    }
}

/// Once the potential sum traps, extending it further cannot untrap it.
proof fn lemma_gpe_sum_none(bodies: Seq<Body>, i: int, k: int, m: int)
    requires
        gpe_sum_spec(bodies, i, k) is None,
        k <= m,
    ensures
        gpe_sum_spec(bodies, i, m) is None,
    decreases m - k,
{
    if m > k {
        lemma_gpe_sum_none(bodies, i, k, m - 1);
    }
}

/// Accumulates the specific gravitational potential of body `i` against
/// the bodies before it, or `None` where the arithmetic traps.
fn gpe_sum(bodies: &[Body; 10], i: usize) -> (r: Option<SolarFp>)
    requires
        i < 10,
    ensures
        r is Some <==> gpe_sum_spec(bodies@, i as int, i as int) is Some,
        r is Some ==> (gpe_sum_spec(bodies@, i as int, i as int) matches Some(a) && r->Some_0@
            == a),
{
    let mut acc = SolarFp::with_internal(0);
    let mut j: usize = 0;
    while j < i
        invariant
            i < 10,
            j <= i,
            gpe_sum_spec(bodies@, i as int, j as int) matches Some(a) && acc@ == a,
        decreases i - j,
    {
        let v_to = match bodies[i].position.checked_vector_to(&bodies[j].position) {
            Some(v) => v,
            None => {
                proof {
                    lemma_gpe_sum_none(bodies@, i as int, j + 1, i as int);
                }
                return None;
            },
        };
        let distance = match v_to.checked_magnitude() {
            Some(d) => d,
            None => {
                proof {
                    lemma_gpe_sum_none(bodies@, i as int, j + 1, i as int);
                }
                return None;
            },
        };
        proof {
            if distance@ == 0 {
                assert(squared_sum(v_to@) < (0int + 1) * (0int + 1));
            } else {
                assert(distance@ * distance@ >= 1) by (nonlinear_arith)
                    requires
                        distance@ >= 1,
                ;
            }
        }
        if distance.0 == 0 {
            proof {
                lemma_gpe_sum_none(bodies@, i as int, j + 1, i as int);
            }
            return None;
        }
        let g = match bodies[j].gravity.stored_solar.checked_div(distance) {
            Some(g) => g,
            None => {
                proof {
                    lemma_gpe_sum_none(bodies@, i as int, j + 1, i as int);
                }
                return None;
            },
        };
        if bodies[j].gravity.scale >= 63 {
            proof {
                lemma_gpe_sum_none(bodies@, i as int, j + 1, i as int);
            }
            return None;
        }
        let term = match g.checked_lshift(bodies[j].gravity.scale) {
            Some(t) => t,
            None => {
                proof {
                    lemma_gpe_sum_none(bodies@, i as int, j + 1, i as int);
                }
                return None;
            },
        };
        acc = match acc.checked_sub(term) {
            Some(s) => s,
            None => {
                proof {
                    lemma_gpe_sum_none(bodies@, i as int, j + 1, i as int);
                }
                return None;
            },
        };
        j = j + 1;
    }
    Some(acc)
}

/// The specific energy diagnostic of body `i`: accumulated potential per
/// kilogram plus half the squared speed, in Solar precision, or `None`
/// where the arithmetic traps.
pub open spec fn specific_energy_spec(bodies: Seq<Body>, i: int) -> Option<int> {
    match gpe_sum_spec(bodies, i, i) {
        None => None,
        Some(gpe) => {
            let vsum = squared_sum(bodies[i].velocity@);
            if !(vsum < 0x4000_0000_0000_0000_0000_0000_0000_0000) {
                None
            } else {
                let vsol = sqrt_floor(vsum as nat) as int / pow2(34) as int;
                let v2 = (vsol * vsol) / pow2(6) as int;
                if !in_prod(v2) {
                    None
                } else {
                    let half = div_result(v2, 128, 6);
                    if !in_prod(half) {
                        None
                    } else if in_i64(gpe + half) {
                        Some(gpe + half)
                    } else {
                        None
                    }
                }
            }
        },
    }
}

/// The energy contribution of body `i`, weighted by its gravitational
/// parameter rather than its mass (mass is never tracked): an exact
/// 128-bit integer carrying twelve fractional bits, or `None` where the
/// arithmetic leaves 128 bits.
pub open spec fn energy_term_spec(bodies: Seq<Body>, i: int) -> Option<int> {
    match specific_energy_spec(bodies, i) {
        None => None,
        Some(e) => {
            if bodies[i].gravity.scale >= 63 {
                None
            } else {
                let t = (e * bodies[i].gravity.stored_solar@) * pow2(
                    bodies[i].gravity.scale as nat,
                ) as int;
                if i128::MIN <= t <= i128::MAX {
                    Some(t)
                } else {
                    None
                }
            }
        },
    }
}

/// The summed energy diagnostic of the bodies below `i_upto`, or `None`
/// where the arithmetic traps.
pub open spec fn energy_sum_spec(bodies: Seq<Body>, i_upto: int) -> Option<int>
    decreases i_upto,
{
    if i_upto <= 0 {
        Some(0int)
    } else {
        match energy_sum_spec(bodies, i_upto - 1) {
            None => None,
            Some(acc) => {
                match energy_term_spec(bodies, i_upto - 1) {
                    None => None,
                    Some(t) => if i128::MIN <= acc + t <= i128::MAX {
                        Some(acc + t)
                    } else {
                        None
                    },
                }
            },
        }
    }
}

/// Once the energy sum traps, extending it further cannot untrap it.
proof fn lemma_energy_sum_none(bodies: Seq<Body>, k: int, m: int)
    requires
        energy_sum_spec(bodies, k) is None,
        k <= m,
    ensures
        energy_sum_spec(bodies, m) is None,
    decreases m - k,
{
    if m > k {
        lemma_energy_sum_none(bodies, k, m - 1);
    }
}

/// The whole-system energy diagnostic for the current state, as an exact
/// 128-bit integer carrying twelve fractional bits, or `None` where the
/// arithmetic traps.
pub fn energy_total(bodies: &[Body; 10]) -> (r: Option<i128>)
    ensures
        r is Some <==> energy_sum_spec(bodies@, 10) is Some,
        r is Some ==> (energy_sum_spec(bodies@, 10) matches Some(e) && r->Some_0 == e),
{
    let mut total: i128 = 0;
    let mut i: usize = 0;
    while i < 10
        invariant
            i <= 10,
            energy_sum_spec(bodies@, i as int) matches Some(e) && total == e,
        decreases 10 - i,
    {
        let gpe = match gpe_sum(bodies, i) {
            Some(g) => g,
            None => {
                proof {
                    lemma_energy_sum_none(bodies@, i + 1, 10);
                }
                return None;
            },
        };
        let vmag = match bodies[i].velocity.checked_magnitude() {
            Some(v) => v,
            None => {
                proof {
                    lemma_energy_sum_none(bodies@, i + 1, 10);
                }
                return None;
            },
        };
        let vsol = vmag.as_solar_fp();
        let v2 = match vsol.checked_mul(vsol) {
            Some(v) => v,
            None => {
                proof {
                    lemma_energy_sum_none(bodies@, i + 1, 10);
                }
                return None;
            },
        };
        let half = match v2.checked_div(SolarFp::with_internal(128)) {
            Some(h) => h,
            None => {
                proof {
                    lemma_energy_sum_none(bodies@, i + 1, 10);
                }
                return None;
            },
        };
        let e = match gpe.checked_add(half) {
            Some(e) => e,
            None => {
                proof {
                    lemma_energy_sum_none(bodies@, i + 1, 10);
                }
                return None;
            },
        };
        if bodies[i].gravity.scale >= 63 {
            proof {
                lemma_energy_sum_none(bodies@, i + 1, 10);
            }
            return None;
        }
        proof {
            crate::fixed_point::lemma_i64_product_fits(e@, bodies@[i as int].gravity.stored_solar@);
        }
        let wide: i128 = (e.0 as i128) * (bodies[i].gravity.stored_solar.0 as i128);
        let p = crate::fixed_point::pow2_u128(bodies[i].gravity.scale);
        proof {
            vstd::arithmetic::power2::lemma_pow2_strictly_increases(
                bodies@[i as int].gravity.scale as nat,
                127,
            );
            vstd::arithmetic::power2::lemma2_to64();
            vstd::arithmetic::power2::lemma2_to64_rest();
            vstd::arithmetic::power2::lemma_pow2_adds(63, 64);
        }
        let term = match wide.checked_mul(p as i128) {
            Some(t) => t,
            None => {
                proof {
                    lemma_energy_sum_none(bodies@, i + 1, 10);
                }
                return None;
            },
        };
        total = match total.checked_add(term) {
            Some(t) => t,
            None => {
                proof {
                    lemma_energy_sum_none(bodies@, i + 1, 10);
                }
                return None;
            },
        };
        i = i + 1;
    }
    Some(total)
}

/// A velocity after half a step's worth of acceleration, or `None` where
/// the arithmetic traps.
pub open spec fn half_kick_spec(vel: (int, int, int), accel: (int, int, int), half: int) -> Option<
    (int, int, int),
> {
    let m0 = crate::fixed_point::mul_result(accel.0, half, 40);
    let m1 = crate::fixed_point::mul_result(accel.1, half, 40);
    let m2 = crate::fixed_point::mul_result(accel.2, half, 40);
    if !(in_prod(m0) && in_prod(m1) && in_prod(m2)) {
        None
    } else {
        vec_add_spec(vel, (m0, m1, m2))
    }
}

/// A position after a full step's worth of the temporary velocity
/// (converted to Solar precision), or `None` where the arithmetic traps.
pub open spec fn drift_spec(pos: (int, int, int), tvel: (int, int, int), dt: int) -> Option<
    (int, int, int),
> {
    let s0 = tvel.0 / pow2(34) as int;
    let s1 = tvel.1 / pow2(34) as int;
    let s2 = tvel.2 / pow2(34) as int;
    let m0 = crate::fixed_point::mul_result(s0, dt, 6);
    let m1 = crate::fixed_point::mul_result(s1, dt, 6);
    let m2 = crate::fixed_point::mul_result(s2, dt, 6);
    if !(in_prod(m0) && in_prod(m1) && in_prod(m2)) {
        None
    } else {
        vec_add_spec(pos, (m0, m1, m2))
    }
}

/// The temporary velocity of body `i` after the first half-kick, or
/// `None` where the arithmetic traps.
pub open spec fn kicked_vel_spec(bodies: Seq<Body>, i: int, half: int) -> Option<(int, int, int)> {
    match accel_sum_spec(bodies, i, 10) {
        None => None,
        Some(a) => half_kick_spec(bodies[i].velocity@, a, half),
    }
}

/// The position of body `i` after the drift, or `None` where the
/// arithmetic traps.
pub open spec fn drifted_pos_spec(bodies: Seq<Body>, i: int, half: int, dt: int) -> Option<
    (int, int, int),
> {
    match kicked_vel_spec(bodies, i, half) {
        None => None,
        Some(tv) => drift_spec(bodies[i].position@, tv, dt),
    }
}

/// A Solar-precision vector holding the given backing integers.
pub open spec fn solar_vec(v: (int, int, int)) -> SolarVec3D {
    crate::vec3d::Vec3D(
        FixedPoint(v.0 as i64),
        FixedPoint(v.1 as i64),
        FixedPoint(v.2 as i64),
    )
}

/// The mid-step state: every body moved to its drifted position, all
/// else untouched.  Meaningful where the drift is defined.
pub open spec fn mid_bodies_spec(bodies: Seq<Body>, half: int, dt: int) -> Seq<Body> {
    Seq::new(
        10,
        |i: int|
            Body {
                position: solar_vec(drifted_pos_spec(bodies, i, half, dt)->Some_0),
                ..bodies[i]
            },
    )
}

/// The final velocity of body `i`: the second half-kick, using the
/// acceleration recomputed at the drifted positions, or `None` where the
/// arithmetic traps.
pub open spec fn final_vel_spec(bodies: Seq<Body>, i: int, half: int, dt: int) -> Option<
    (int, int, int),
> {
    match kicked_vel_spec(bodies, i, half) {
        None => None,
        Some(tv) => match accel_sum_spec(mid_bodies_spec(bodies, half, dt), i, 10) {
            None => None,
            Some(a2) => half_kick_spec(tv, a2, half),
        },
    }
}

/// Whole-step feasibility: every phase of the velocity-Verlet sub-step
/// stays within the fixed-point ranges.
pub open spec fn step_possible(bodies: Seq<Body>, half: int, dt: int) -> bool {
    &&& energy_sum_spec(bodies, 10) is Some
    &&& forall|i: int| 0 <= i < 10 ==> #[trigger] drifted_pos_spec(bodies, i, half, dt) is Some
    &&& forall|i: int| 0 <= i < 10 ==> #[trigger] final_vel_spec(bodies, i, half, dt) is Some
}

/// The fields the acceleration reads agree between the two bodies.
pub open spec fn accel_fields_eq(a: Body, b: Body) -> bool {
    &&& a.position == b.position
    &&& a.gravity == b.gravity
    &&& a.parent_id == b.parent_id
    &&& a.id == b.id
}

/// The acceleration sum only reads positions, gravity, parents and ids,
/// so it agrees on any two states that agree there.
proof fn lemma_accel_sum_congruence(b1: Seq<Body>, b2: Seq<Body>, i: int, k: int)
    requires
        forall|j: int| 0 <= j < 10 ==> accel_fields_eq(#[trigger] b1[j], b2[j]),
        0 <= i < 10,
        k <= 10,
    ensures
        accel_sum_spec(b1, i, k) == accel_sum_spec(b2, i, k),
    decreases k,
{
    if k > 0 {
        lemma_accel_sum_congruence(b1, b2, i, k - 1);
        if k - 1 != i {
            assert(accel_spec(b1[i], b1[k - 1]) == accel_spec(b2[i], b2[k - 1]));
        }
    }
}

/// One velocity-Verlet sub-step relates the two states: the step was
/// feasible on `pre`, `post` holds the drifted positions and twice-kicked
/// velocities, everything else is carried over, and `e` is the energy
/// diagnostic of `pre`.
pub open spec fn models_step(pre: Seq<Body>, post: Seq<Body>, half: int, dt: int, e: int) -> bool {
    &&& pre.len() == 10
    &&& post.len() == 10
    &&& step_possible(pre, half, dt)
    &&& energy_sum_spec(pre, 10) == Some(e)
    &&& forall|i: int|
        0 <= i < 10 ==> (#[trigger] post[i]).position@ == drifted_pos_spec(
            pre,
            i,
            half,
            dt,
        )->Some_0
    &&& forall|i: int|
        0 <= i < 10 ==> (#[trigger] post[i]).velocity@ == final_vel_spec(
            pre,
            i,
            half,
            dt,
        )->Some_0
    &&& forall|i: int| 0 <= i < 10 ==> statics_eq(#[trigger] post[i], pre[i])
}

/// The step never touches a body's identity, name, gravitational
/// parameter, parent, or influencer list.
pub open spec fn statics_eq(a: Body, b: Body) -> bool {
    &&& a.name == b.name
    &&& a.gravity == b.gravity
    &&& a.parent_id == b.parent_id
    &&& a.id == b.id
    &&& crate::planets::influencer_ids(a.orbit_influencers) == crate::planets::influencer_ids(
        b.orbit_influencers,
    )
}

/// Computes the gravitational acceleration of `pulled` due to
/// `pulling_body`; traps (rather than wrapping) where the fixed-point
/// pipeline overflows, which the precondition rules out.
pub fn calculate_accel(pulled: &Body, pulling_body: &Body) -> (r: StepVec3D)
    requires
        accel_spec(*pulled, *pulling_body) is Some,
    ensures
        accel_spec(*pulled, *pulling_body) matches Some(a) && r@ == a,
{
    match checked_calculate_accel(pulled, pulling_body) {
        Some(v) => v,
        None => vstd::pervasive::unreached(),
    }
}

/// A body carrying `src`'s identity with a replaced position and
/// velocity; the influencer list is duplicated element for element.
fn replaced_body(src: &Body, pos: SolarVec3D, vel: StepVec3D) -> (r: Body)
    ensures
        r.position == pos,
        r.velocity == vel,
        r.name == src.name,
        r.gravity == src.gravity,
        r.parent_id == src.parent_id,
        r.id == src.id,
        crate::planets::influencer_ids(r.orbit_influencers) == crate::planets::influencer_ids(
            src.orbit_influencers,
        ),
{
    Body {
        name: src.name,
        gravity: src.gravity,
        position: pos,
        velocity: vel,
        parent_id: src.parent_id,
        orbit_influencers: crate::planets::influencers_clone(&src.orbit_influencers),
        id: src.id,
    }
}

/// Stores the live state of all the bodies, the elapsed simulated time,
/// and the verbose-logging flag; exclusively owned by the caller driving
/// the simulation loop.
pub struct System {
    pub bodies: [Body; 10],
    pub time_passed: SolarFp,
    pub log_verlet: bool,
}

impl System {
    /// Performs one velocity-Verlet sub-step of exactly the given
    /// fixed-point duration (`half_time_step_fp` carries half of it in
    /// Step precision), returning the summed per-body energy diagnostic
    /// for this step, or `ArithmeticOverflow` — with the state unchanged —
    /// where any fixed-point operation would leave its range.
    #[verifier::rlimit(100)]
    pub fn step_fixed(&mut self, time_step_fp: SolarFp, half_time_step_fp: StepFp) -> (r: Result<
        i128,
        SimulationError,
    >)
        ensures
            r matches Ok(e) ==> {
                &&& models_step(
                    old(self).bodies@,
                    final(self).bodies@,
                    half_time_step_fp@,
                    time_step_fp@,
                    e as int,
                )
                &&& in_i64(old(self).time_passed@ + time_step_fp@)
                &&& final(self).time_passed@ == old(self).time_passed@ + time_step_fp@
                &&& final(self).log_verlet == old(self).log_verlet
            },
            r matches Err(er) ==> {
                &&& er == SimulationError::ArithmeticOverflow
                &&& !(step_possible(old(self).bodies@, half_time_step_fp@, time_step_fp@)
                    && in_i64(old(self).time_passed@ + time_step_fp@))
                &&& *final(self) == *old(self)
            },
    {
        let ghost pre = self.bodies@;
        let ghost half = half_time_step_fp@;
        let ghost dt = time_step_fp@;
        let energy = match energy_total(&self.bodies) {
            Some(e) => e,
            None => {
                return Err(SimulationError::ArithmeticOverflow);
            },
        };
        // First acceleration pass, at the current positions.
        let mut accelerations: [StepVec3D; 10] = [
            StepVec3D::new(),
            StepVec3D::new(),
            StepVec3D::new(),
            StepVec3D::new(),
            StepVec3D::new(),
            StepVec3D::new(),
            StepVec3D::new(),
            StepVec3D::new(),
            StepVec3D::new(),
            StepVec3D::new(),
        ];
        let mut i: usize = 0;
        while i < 10
            invariant
                i <= 10,
                *self == *old(self),
                pre == self.bodies@,
                half == half_time_step_fp@,
                dt == time_step_fp@,
                forall|k: int|
                    0 <= k < i ==> (#[trigger] accel_sum_spec(pre, k, 10)) is Some
                        && accelerations@[k]@ == accel_sum_spec(pre, k, 10)->Some_0,
            decreases 10 - i,
        {
            match accel_sum(&self.bodies, i) {
                Some(a) => {
                    accelerations.set(i, a);
                },
                None => {
                    proof {
                        assert(kicked_vel_spec(pre, i as int, half) is None);
                        assert(drifted_pos_spec(pre, i as int, half, dt) is None);
                    }
                    return Err(SimulationError::ArithmeticOverflow);
                },
            }
            i = i + 1;
        }
        // First half-kick and drift.
        let mut temp_velocities: [StepVec3D; 10] = [
            StepVec3D::new(),
            StepVec3D::new(),
            StepVec3D::new(),
            StepVec3D::new(),
            StepVec3D::new(),
            StepVec3D::new(),
            StepVec3D::new(),
            StepVec3D::new(),
            StepVec3D::new(),
            StepVec3D::new(),
        ];
        let mut new_positions: [SolarVec3D; 10] = [
            SolarVec3D::new(),
            SolarVec3D::new(),
            SolarVec3D::new(),
            SolarVec3D::new(),
            SolarVec3D::new(),
            SolarVec3D::new(),
            SolarVec3D::new(),
            SolarVec3D::new(),
            SolarVec3D::new(),
            SolarVec3D::new(),
        ];
        let mut i: usize = 0;
        while i < 10
            invariant
                i <= 10,
                *self == *old(self),
                pre == self.bodies@,
                half == half_time_step_fp@,
                dt == time_step_fp@,
                forall|k: int|
                    0 <= k < 10 ==> (#[trigger] accel_sum_spec(pre, k, 10)) is Some
                        && accelerations@[k]@ == accel_sum_spec(pre, k, 10)->Some_0,
                forall|k: int|
                    0 <= k < i ==> (#[trigger] kicked_vel_spec(pre, k, half)) is Some
                        && temp_velocities@[k]@ == kicked_vel_spec(pre, k, half)->Some_0,
                forall|k: int|
                    0 <= k < i ==> (#[trigger] drifted_pos_spec(pre, k, half, dt)) is Some
                        && new_positions@[k]@ == drifted_pos_spec(pre, k, half, dt)->Some_0,
            decreases 10 - i,
        {
            let velocity_from_accel = match accelerations[i].checked_scale(half_time_step_fp) {
                Some(v) => v,
                None => {
                    proof {
                        assert(kicked_vel_spec(pre, i as int, half) is None);
                        assert(drifted_pos_spec(pre, i as int, half, dt) is None);
                    }
                    return Err(SimulationError::ArithmeticOverflow);
                },
            };
            let tv = match self.bodies[i].velocity.checked_add(&velocity_from_accel) {
                Some(v) => v,
                None => {
                    proof {
                        assert(kicked_vel_spec(pre, i as int, half) is None);
                        assert(drifted_pos_spec(pre, i as int, half, dt) is None);
                    }
                    return Err(SimulationError::ArithmeticOverflow);
                },
            };
            temp_velocities.set(i, tv);
            let position_from_velocity = match tv.as_solar().checked_scale(time_step_fp) {
                Some(p) => p,
                None => {
                    proof {
                        assert(drift_spec(pre[i as int].position@, tv@, dt) is None);
                        assert(drifted_pos_spec(pre, i as int, half, dt) is None);
                    }
                    return Err(SimulationError::ArithmeticOverflow);
                },
            };
            let np = match self.bodies[i].position.checked_add(&position_from_velocity) {
                Some(p) => p,
                None => {
                    proof {
                        assert(drift_spec(pre[i as int].position@, tv@, dt) is None);
                        assert(drifted_pos_spec(pre, i as int, half, dt) is None);
                    }
                    return Err(SimulationError::ArithmeticOverflow);
                },
            };
            new_positions.set(i, np);
            i = i + 1;
        }
        // Second acceleration pass, at the drifted positions.
        let mid: [Body; 10] = [
            replaced_body(&self.bodies[0], new_positions[0], temp_velocities[0]),
            replaced_body(&self.bodies[1], new_positions[1], temp_velocities[1]),
            replaced_body(&self.bodies[2], new_positions[2], temp_velocities[2]),
            replaced_body(&self.bodies[3], new_positions[3], temp_velocities[3]),
            replaced_body(&self.bodies[4], new_positions[4], temp_velocities[4]),
            replaced_body(&self.bodies[5], new_positions[5], temp_velocities[5]),
            replaced_body(&self.bodies[6], new_positions[6], temp_velocities[6]),
            replaced_body(&self.bodies[7], new_positions[7], temp_velocities[7]),
            replaced_body(&self.bodies[8], new_positions[8], temp_velocities[8]),
            replaced_body(&self.bodies[9], new_positions[9], temp_velocities[9]),
        ];
        proof {
            assert forall|j: int| 0 <= j < 10 implies accel_fields_eq(
                #[trigger] mid@[j],
                mid_bodies_spec(pre, half, dt)[j],
            ) by {
                let spec_pos = solar_vec(drifted_pos_spec(pre, j, half, dt)->Some_0);
                assert(mid@[j].position.0.0 == spec_pos.0.0);
                assert(mid@[j].position.1.0 == spec_pos.1.0);
                assert(mid@[j].position.2.0 == spec_pos.2.0);
            }
        }
        let mut final_velocities: [StepVec3D; 10] = [
            StepVec3D::new(),
            StepVec3D::new(),
            StepVec3D::new(),
            StepVec3D::new(),
            StepVec3D::new(),
            StepVec3D::new(),
            StepVec3D::new(),
            StepVec3D::new(),
            StepVec3D::new(),
            StepVec3D::new(),
        ];
        let mut i: usize = 0;
        while i < 10
            invariant
                i <= 10,
                *self == *old(self),
                pre == self.bodies@,
                half == half_time_step_fp@,
                dt == time_step_fp@,
                forall|j: int|
                    0 <= j < 10 ==> accel_fields_eq(
                        #[trigger] mid@[j],
                        mid_bodies_spec(pre, half, dt)[j],
                    ),
                forall|k: int|
                    0 <= k < 10 ==> (#[trigger] kicked_vel_spec(pre, k, half)) is Some
                        && temp_velocities@[k]@ == kicked_vel_spec(pre, k, half)->Some_0,
                forall|k: int|
                    0 <= k < 10 ==> (#[trigger] drifted_pos_spec(pre, k, half, dt)) is Some
                        && new_positions@[k]@ == drifted_pos_spec(pre, k, half, dt)->Some_0,
                forall|k: int|
                    0 <= k < i ==> (#[trigger] final_vel_spec(pre, k, half, dt)) is Some
                        && final_velocities@[k]@ == final_vel_spec(pre, k, half, dt)->Some_0,
            decreases 10 - i,
        {
            proof {
                lemma_accel_sum_congruence(mid@, mid_bodies_spec(pre, half, dt), i as int, 10);
            }
            let accel_second = match accel_sum(&mid, i) {
                Some(a) => a,
                None => {
                    proof {
                        assert(final_vel_spec(pre, i as int, half, dt) is None);
                    }
                    return Err(SimulationError::ArithmeticOverflow);
                },
            };
            let second_velocity_from_accel = match accel_second.checked_scale(half_time_step_fp) {
                Some(v) => v,
                None => {
                    proof {
                        assert(final_vel_spec(pre, i as int, half, dt) is None);
                    }
                    return Err(SimulationError::ArithmeticOverflow);
                },
            };
            let fv = match temp_velocities[i].checked_add(&second_velocity_from_accel) {
                Some(v) => v,
                None => {
                    proof {
                        assert(final_vel_spec(pre, i as int, half, dt) is None);
                    }
                    return Err(SimulationError::ArithmeticOverflow);
                },
            };
            final_velocities.set(i, fv);
            i = i + 1;
        }
        // Advance the elapsed-time ledger.
        let new_time = match self.time_passed.checked_add(time_step_fp) {
            Some(t) => t,
            None => {
                return Err(SimulationError::ArithmeticOverflow);
            },
        };
        // Commit the new state.
        let mut i: usize = 0;
        while i < 10
            invariant
                i <= 10,
                half == half_time_step_fp@,
                dt == time_step_fp@,
                self.time_passed == old(self).time_passed,
                self.log_verlet == old(self).log_verlet,
                pre.len() == 10,
                self.bodies@.len() == 10,
                forall|k: int| i <= k < 10 ==> #[trigger] self.bodies@[k] == pre[k],
                forall|k: int|
                    0 <= k < i ==> (#[trigger] self.bodies@[k]).position@ == drifted_pos_spec(
                        pre,
                        k,
                        half,
                        dt,
                    )->Some_0,
                forall|k: int|
                    0 <= k < i ==> (#[trigger] self.bodies@[k]).velocity@ == final_vel_spec(
                        pre,
                        k,
                        half,
                        dt,
                    )->Some_0,
                forall|k: int| 0 <= k < i ==> statics_eq(#[trigger] self.bodies@[k], pre[k]),
                forall|k: int|
                    0 <= k < 10 ==> (#[trigger] drifted_pos_spec(pre, k, half, dt)) is Some,
                forall|k: int|
                    0 <= k < 10 ==> (#[trigger] final_vel_spec(pre, k, half, dt)) is Some
                        && final_velocities@[k]@ == final_vel_spec(pre, k, half, dt)->Some_0,
                forall|k: int|
                    0 <= k < 10 ==> new_positions@[k]@ == (#[trigger] drifted_pos_spec(
                        pre,
                        k,
                        half,
                        dt,
                    ))->Some_0,
                energy_sum_spec(pre, 10) == Some(energy as int),
            decreases 10 - i,
        {
            let nb = replaced_body(&self.bodies[i], new_positions[i], final_velocities[i]);
            self.bodies.set(i, nb);
            i = i + 1;
        }
        self.time_passed = new_time;
        Ok(energy)
    }

    /// Creates a new instance of the solar system, loading in all the
    /// bodies of the catalogue and filling each one's influencer list.
    pub fn create() -> (r: System)
        ensures
            r.log_verlet == false,
            r.time_passed@ == 0,
            forall|i: int|
                0 <= i < 10 ==> crate::planets::catalogue_entry_ok(#[trigger] r.bodies@[i], i),
            forall|i: int| 0 <= i < 10 ==> (#[trigger] r.bodies@[i]).id == i,
            r.bodies@[0].parent_id is None,
            forall|i: int| 1 <= i < 10 ==> (#[trigger] r.bodies@[i]).parent_id == Some(0usize),
            forall|i: int|
                0 <= i < 10 ==> crate::planets::influencer_ids(
                    (#[trigger] r.bodies@[i]).orbit_influencers,
                ) == crate::planets::influencer_seq(
                    crate::planets::parent_ids(r.bodies@),
                    r.bodies@[i].parent_id,
                    i as usize,
                    10,
                ),
    {
        let template = crate::planets::initial_bodies();
        let mut c0 = crate::planets::catalogue_body(0);
        let mut c1 = crate::planets::catalogue_body(1);
        let mut c2 = crate::planets::catalogue_body(2);
        let mut c3 = crate::planets::catalogue_body(3);
        let mut c4 = crate::planets::catalogue_body(4);
        let mut c5 = crate::planets::catalogue_body(5);
        let mut c6 = crate::planets::catalogue_body(6);
        let mut c7 = crate::planets::catalogue_body(7);
        let mut c8 = crate::planets::catalogue_body(8);
        let mut c9 = crate::planets::catalogue_body(9);
        c0.fill_influencers(&template);
        c1.fill_influencers(&template);
        c2.fill_influencers(&template);
        c3.fill_influencers(&template);
        c4.fill_influencers(&template);
        c5.fill_influencers(&template);
        c6.fill_influencers(&template);
        c7.fill_influencers(&template);
        c8.fill_influencers(&template);
        c9.fill_influencers(&template);
        let out = System {
            bodies: [c0, c1, c2, c3, c4, c5, c6, c7, c8, c9],
            time_passed: SolarFp::with_internal(0),
            log_verlet: false,
        };
        proof {
            assert(crate::planets::parent_ids(out.bodies@) =~= crate::planets::parent_ids(
                template@,
            ));
        }
        out
    }

    /// Turns on verbose per-step logging for the caller to consume.
    pub fn with_verlet_log(self) -> (r: System)
        ensures
            r.log_verlet == true,
            r.bodies == self.bodies,
            r.time_passed == self.time_passed,
    {
        System { log_verlet: true, ..self }
    }

    /// Steps time forwards by the duration whose IEEE-754 bit pattern is
    /// `time_bits` seconds: one velocity-Verlet sub-step, returning this
    /// step's energy diagnostic.  Fails with `BadTimeStep` where the
    /// duration (or its half) cannot be represented in the relevant
    /// fixed-point precision, and with `ArithmeticOverflow` — leaving the
    /// state unchanged — where the step arithmetic leaves its range.
    pub fn step_time_forwards(&mut self, time_bits: u64) -> (r: Result<i128, SimulationError>)
        ensures
            ({
                let dt_conv = from_f64_bits_spec(time_bits, 6);
                let half_conv = from_f64_bits_spec(half_bits_spec(time_bits), 40);
                match (dt_conv, half_conv) {
                    (Ok(dtv), Ok(halfv)) => {
                        &&& (r matches Ok(e) ==> {
                            &&& models_step(
                                old(self).bodies@,
                                final(self).bodies@,
                                halfv,
                                dtv,
                                e as int,
                            )
                            &&& in_i64(old(self).time_passed@ + dtv)
                            &&& final(self).time_passed@ == old(self).time_passed@ + dtv
                            &&& final(self).log_verlet == old(self).log_verlet
                        })
                        &&& (r matches Err(er) ==> {
                            &&& er == SimulationError::ArithmeticOverflow
                            &&& !(step_possible(old(self).bodies@, halfv, dtv) && in_i64(
                                old(self).time_passed@ + dtv,
                            ))
                            &&& *final(self) == *old(self)
                        })
                    },
                    _ => {
                        &&& r == Err::<i128, SimulationError>(SimulationError::BadTimeStep)
                        &&& *final(self) == *old(self)
                    },
                }
            }),
    {
        let time_step_fp = match SolarFp::from_f64_bits(time_bits) {
            Ok(v) => v,
            Err(_) => {
                return Err(SimulationError::BadTimeStep);
            },
        };
        let half_time_step_fp = match StepFp::from_f64_bits(half_f64_bits(time_bits)) {
            Ok(v) => v,
            Err(_) => {
                return Err(SimulationError::BadTimeStep);
            },
        };
        self.step_fixed(time_step_fp, half_time_step_fp)
    }

    /// Advances the system by an arbitrary duration not aligned to the
    /// sub-step grid: as many full-size steps as fit (the configured step,
    /// or the override), then one final step of the exact remainder.
    /// Fails with `BadTimeStep` where a step duration cannot be
    /// represented, and propagates `ArithmeticOverflow` from any step.
    #[verifier::rlimit(100)]
    pub fn advance_time_multistep(
        &mut self,
        time: SolarFp,
        max_step_override: Option<SolarFp>,
    ) -> (r: Result<(), SimulationError>)
        ensures
            r matches Err(er) ==> er != SimulationError::BadPrintIndex,
            r is Ok ==> advance_ok_spec(
                old(self).bodies@,
                final(self).bodies@,
                time@,
                max_step_override,
            ),
            r is Ok ==> final(self).time_passed@ == old(self).time_passed@ + full_steps_spec(
                time@,
                used_step_value_spec(max_step_override),
            ) * used_step_value_spec(max_step_override) + rem_step_value_spec(
                time@,
                max_step_override,
            ),
            r is Ok ==> final(self).log_verlet == old(self).log_verlet,
            r matches Err(er) && er == SimulationError::BadTimeStep ==> advance_bad_step_spec(
                time@,
                max_step_override,
            ),
            r matches Err(er) && er == SimulationError::ArithmeticOverflow ==> ({
                let dt = used_step_value_spec(max_step_override);
                let half = used_half_value_spec(max_step_override);
                let dt2 = rem_step_value_spec(time@, max_step_override);
                let half2 = rem_half_value_spec(time@, max_step_override);
                &&& exists|n: nat|
                    models_run(old(self).bodies@, final(self).bodies@, half, dt, n)
                &&& (!(step_possible(final(self).bodies@, half, dt) && in_i64(
                    final(self).time_passed@ + dt,
                )) || !(step_possible(final(self).bodies@, half2, dt2) && in_i64(
                    final(self).time_passed@ + dt2,
                )))
            }),
            r is Err ==> (*final(self) == *old(self)) || exists|n: nat, half: int, dt: int|
                #![auto]
                models_run(old(self).bodies@, final(self).bodies@, half, dt, n),
    {
        let used_bits: u64 = match max_step_override {
            Some(val) => val.to_f64_bits(),
            None => TIME_STEP_BITS,
        };
        proof {
            assert(used_bits == used_step_bits_spec(max_step_override) as u64);
        }
        let used_step = match SolarFp::from_f64_bits(used_bits) {
            Ok(v) => v,
            Err(_) => {
                return Err(SimulationError::BadTimeStep);
            },
        };
        let half_step = match StepFp::from_f64_bits(half_f64_bits(used_bits)) {
            Ok(v) => v,
            Err(_) => {
                return Err(SimulationError::BadTimeStep);
            },
        };
        if used_step.0 <= 0 {
            return Err(SimulationError::BadTimeStep);
        }
        let full_steps: i64 = if time.0 < 0 {
            0
        } else {
            proof {
                crate::fixed_point::lemma_floor_div_stays_in_range(
                    time@,
                    used_step@,
                    0,
                    i64::MAX as int,
                );
            }
            match time.0.checked_div(used_step.0) {
                Some(q) => q,
                None => vstd::pervasive::unreached(),
            }
        };
        let ghost pre = self.bodies@;
        let ghost halfv = half_step@;
        let ghost dtv = used_step@;
        let mut k: i64 = 0;
        while k < full_steps
            invariant
                0 <= k <= full_steps,
                models_run(pre, self.bodies@, halfv, dtv, k as nat),
                pre == old(self).bodies@,
                halfv == half_step@,
                dtv == used_step@,
                dtv >= 1,
                dtv == used_step_value_spec(max_step_override),
                halfv == used_half_value_spec(max_step_override),
                self.time_passed@ == old(self).time_passed@ + k * dtv,
                self.log_verlet == old(self).log_verlet,
            decreases full_steps - k,
        {
            let ghost before = self.bodies@;
            let ghost tp_before = self.time_passed@;
            match self.step_fixed(used_step, half_step) {
                Ok(e) => {
                    proof {
                        lemma_models_run_snoc(
                            pre,
                            before,
                            self.bodies@,
                            halfv,
                            dtv,
                            k as nat,
                            e as int,
                        );
                        assert((k + 1) * dtv == k * dtv + dtv) by (nonlinear_arith);
                    }
                },
                Err(er) => {
                    proof {
                        assert(models_run(pre, final(self).bodies@, halfv, dtv, k as nat));
                        assert(!(step_possible(final(self).bodies@, halfv, dtv) && in_i64(
                            final(self).time_passed@ + dtv,
                        )));
                    }
                    return Err(er);
                },
            }
            k = k + 1;
        }
        let last_step_length: i64 = if time.0 < 0 {
            time.0
        } else {
            proof {
                vstd::arithmetic::div_mod::lemma_fundamental_div_mod(time@, used_step@);
                vstd::arithmetic::mul::lemma_mul_is_commutative(used_step@, full_steps as int);
            }
            time.0 - full_steps * used_step.0
        };
        let rem_bits = SolarFp::with_internal(last_step_length).to_f64_bits();
        proof {
            assert(full_steps_spec(time@, dtv) == full_steps as int);
            assert(last_step_length as int == if time@ < 0 {
                time@
            } else {
                time@ - (full_steps as int) * dtv
            });
            assert(advance_rem_bits(time@, dtv) == rem_bits);
        }
        let last_step = match SolarFp::from_f64_bits(rem_bits) {
            Ok(v) => v,
            Err(_) => {
                proof {
                    assert(models_run(pre, final(self).bodies@, halfv, dtv, full_steps as nat));
                    assert(advance_bad_step_spec(time@, max_step_override));
                }
                return Err(SimulationError::BadTimeStep);
            },
        };
        let last_half = match StepFp::from_f64_bits(half_f64_bits(rem_bits)) {
            Ok(v) => v,
            Err(_) => {
                proof {
                    assert(models_run(pre, final(self).bodies@, halfv, dtv, full_steps as nat));
                    assert(advance_bad_step_spec(time@, max_step_override));
                }
                return Err(SimulationError::BadTimeStep);
            },
        };
        proof {
            assert(last_step@ == rem_step_value_spec(time@, max_step_override));
            assert(last_half@ == rem_half_value_spec(time@, max_step_override));
        }
        let ghost before_last = self.bodies@;
        match self.step_fixed(last_step, last_half) {
            Ok(e) => {
                proof {
                    let ub = used_step_bits_spec(max_step_override) as u64;
                    assert(models_run(pre, before_last, halfv, dtv, full_steps as nat));
                    lemma_advance_ok(
                        pre,
                        final(self).bodies@,
                        time@,
                        max_step_override,
                        before_last,
                        e as int,
                    );
                    assert((full_steps as int) * dtv == full_steps_spec(time@, dtv) * dtv);
                }
                Ok(())
            },
            Err(er) => {
                proof {
                    assert(models_run(pre, final(self).bodies@, halfv, dtv, full_steps as nat));
                    assert(!(step_possible(final(self).bodies@, last_half@, last_step@)
                        && in_i64(final(self).time_passed@ + last_step@)));
                }
                Err(er)
            },
        }
    }

    /// Drives a full two-year simulation run at the default step,
    /// periodically recording the position of one selected body (or of
    /// every body) and the running energy diagnostic, and reporting the
    /// energy extremes across the whole run.  A single-body mode naming an
    /// index outside the body array fails with `BadPrintIndex` before any
    /// state mutation.
    pub fn simulate(&mut self, print_type: PrintType, print_interval: usize) -> (r: Result<
        SimulationReport,
        SimulationError,
    >)
        requires
            print_interval >= 1,
        ensures
            (print_type matches PrintType::GraphSingle(idx) && idx >= 10) <==> (r matches Err(er)
                && er == SimulationError::BadPrintIndex),
            (print_type matches PrintType::GraphSingle(idx) && idx >= 10) ==> *final(self) == *old(
                self,
            ),
            r is Ok ==> ({
                let dtv = from_f64_bits_spec(TIME_STEP_BITS, 6)->Ok_0;
                let halfv = from_f64_bits_spec(half_bits_spec(TIME_STEP_BITS), 40)->Ok_0;
                models_run(old(self).bodies@, final(self).bodies@, halfv, dtv, STEPS as nat)
            }),
            r matches Err(er) && er == SimulationError::ArithmeticOverflow ==> ({
                let dtv = from_f64_bits_spec(TIME_STEP_BITS, 6)->Ok_0;
                let halfv = from_f64_bits_spec(half_bits_spec(TIME_STEP_BITS), 40)->Ok_0;
                &&& exists|n: nat|
                    models_run(old(self).bodies@, final(self).bodies@, halfv, dtv, n)
                &&& !(step_possible(final(self).bodies@, halfv, dtv) && in_i64(
                    final(self).time_passed@ + dtv,
                ))
            }),
            r matches Err(er) ==> er != SimulationError::BadTimeStep,
            r matches Ok(rep) ==> rep.min_energy <= rep.max_energy,
            r matches Ok(rep) ==> forall|k: int|
                0 <= k < rep.energies@.len() ==> rep.min_energy <= (
                #[trigger] rep.energies@[k]).energy <= rep.max_energy,
            r matches Ok(rep) ==> forall|k: int|
                0 <= k < rep.samples@.len() ==> ((#[trigger] rep.samples@[k]).step as int) % (
                print_interval as int) == 0 && rep.samples@[k].step < STEPS,
            r matches Ok(rep) ==> (print_type matches PrintType::GraphSingle(idx) ==> forall|
                k: int,
            |
                0 <= k < rep.samples@.len() ==> (#[trigger] rep.samples@[k]).name == old(
                    self,
                ).bodies@[idx as int].name),
    {
        let single_index: Option<usize> = match print_type {
            PrintType::GraphSingle(p_index) => {
                if p_index >= 10 {
                    return Err(SimulationError::BadPrintIndex);
                }
                Some(p_index)
            },
            PrintType::GraphAll => None,
        };
        let time_step_fp = match SolarFp::from_f64_bits(TIME_STEP_BITS) {
            Ok(v) => v,
            Err(_) => vstd::pervasive::unreached(),
        };
        let half_step_fp = match StepFp::from_f64_bits(half_f64_bits(TIME_STEP_BITS)) {
            Ok(v) => v,
            Err(_) => vstd::pervasive::unreached(),
        };
        let ghost pre = self.bodies@;
        let ghost dtv = time_step_fp@;
        let ghost halfv = half_step_fp@;
        let mut samples: Vec<PositionSample> = Vec::new();
        let mut energies: Vec<EnergySample> = Vec::new();
        let mut min_energy: i128 = i128::MAX;
        let mut max_energy: i128 = i128::MIN;
        let mut step: usize = 0;
        while step < STEPS
            invariant
                step <= STEPS,
                pre == old(self).bodies@,
                dtv == time_step_fp@,
                halfv == half_step_fp@,
                dtv == from_f64_bits_spec(TIME_STEP_BITS, 6)->Ok_0,
                halfv == from_f64_bits_spec(half_bits_spec(TIME_STEP_BITS), 40)->Ok_0,
                from_f64_bits_spec(TIME_STEP_BITS, 6) is Ok,
                from_f64_bits_spec(half_bits_spec(TIME_STEP_BITS), 40) is Ok,
                single_index matches Some(p) ==> p < 10,
                print_interval >= 1,
                print_type matches PrintType::GraphSingle(idx) ==> idx < 10,
                step >= 1 ==> min_energy <= max_energy,
                forall|k: int|
                    0 <= k < energies@.len() ==> min_energy <= (
                    #[trigger] energies@[k]).energy <= max_energy,
                forall|k: int|
                    0 <= k < samples@.len() ==> ((#[trigger] samples@[k]).step as int) % (
                    print_interval as int) == 0 && samples@[k].step < STEPS,
                single_index matches Some(p) ==> forall|k: int|
                    0 <= k < samples@.len() ==> (#[trigger] samples@[k]).name == pre[p as int].name,
                print_type matches PrintType::GraphSingle(idx) ==> single_index == Some(idx),
                forall|j: int|
                    0 <= j < 10 ==> (#[trigger] self.bodies@[j]).name == pre[j].name,
                models_run(pre, self.bodies@, halfv, dtv, step as nat),
            decreases STEPS - step,
        {
            if step % print_interval == 0 {
                match single_index {
                    Some(p_index) => {
                        let pb = &self.bodies[p_index];
                        samples.push(
                            PositionSample { step, name: pb.name, position: pb.position },
                        );
                    },
                    None => {
                        let mut b: usize = 0;
                        while b < 10
                            invariant
                                b <= 10,
                                single_index is None,
                                print_interval >= 1,
                                (step as int) % (print_interval as int) == 0,
                                step < STEPS,
                                forall|k: int|
                                    0 <= k < samples@.len() ==> ((
                                    #[trigger] samples@[k]).step as int) % (print_interval as int)
                                        == 0 && samples@[k].step < STEPS,
                            decreases 10 - b,
                        {
                            let pb = &self.bodies[b];
                            samples.push(
                                PositionSample { step, name: pb.name, position: pb.position },
                            );
                            b = b + 1;
                        }
                    },
                }
            }
            let ghost before = self.bodies@;
            let energy = match self.step_fixed(time_step_fp, half_step_fp) {
                Ok(e) => {
                    proof {
                        lemma_models_run_snoc(
                            pre,
                            before,
                            self.bodies@,
                            halfv,
                            dtv,
                            step as nat,
                            e as int,
                        );
                    }
                    e
                },
                Err(er) => {
                    proof {
                        assert(models_run(pre, final(self).bodies@, halfv, dtv, step as nat));
                    }
                    return Err(er);
                },
            };
            if step > 0 && step % print_interval == 0 {
                energies.push(EnergySample { step, energy });
            }
            if energy > max_energy {
                max_energy = energy;
            }
            if energy < min_energy {
                min_energy = energy;
            }
            step = step + 1;
        }
        Ok(SimulationReport { samples, energies, min_energy, max_energy })
    }
}

/// The IEEE-754 bit pattern of the default integration step: 43.20
/// seconds, 200 steps per simulated day.
pub const TIME_STEP_BITS: u64 = 0x4045_9999_9999_999A;

/// Sub-steps in a full simulation run: two years of simulated time at the
/// default step.
pub const STEPS: usize = 1461000;

/// One recorded body position: the state of `name` just before the
/// sub-step numbered `step` ran.
pub struct PositionSample {
    pub step: usize,
    pub name: &'static str,
    pub position: SolarVec3D,
}

/// One recorded energy diagnostic: the value returned by the sub-step
/// numbered `step`, as an exact 128-bit integer carrying twelve
/// fractional bits.
pub struct EnergySample {
    pub step: usize,
    pub energy: i128,
}

/// What a full simulation run hands back for printing: the periodic
/// position and energy records, and the energy extremes across the whole
/// run.
pub struct SimulationReport {
    pub samples: Vec<PositionSample>,
    pub energies: Vec<EnergySample>,
    pub min_energy: i128,
    pub max_energy: i128,
}

/// `n` velocity-Verlet sub-steps of the same duration lead from `pre` to
/// `post`.
pub open spec fn models_run(pre: Seq<Body>, post: Seq<Body>, half: int, dt: int, n: nat) -> bool
    decreases n,
{
    if n == 0 {
        post == pre
    } else {
        exists|mid: Seq<Body>, e: int|
            #![auto]
            models_step(pre, mid, half, dt, e) && models_run(mid, post, half, dt, (n - 1) as nat)
    }
}

/// A run extends by one step at its end.
proof fn lemma_models_run_snoc(
    pre: Seq<Body>,
    mid: Seq<Body>,
    post: Seq<Body>,
    half: int,
    dt: int,
    n: nat,
    e: int,
)
    requires
        models_run(pre, mid, half, dt, n),
        models_step(mid, post, half, dt, e),
    ensures
        models_run(pre, post, half, dt, n + 1),
    decreases n,
{
    if n == 0 {
        assert(models_step(pre, post, half, dt, e));
        assert(models_run(post, post, half, dt, 0));
    } else {
        let (m1, e1) = choose|m1: Seq<Body>, e1: int|
            #![auto]
            models_step(pre, m1, half, dt, e1) && models_run(m1, mid, half, dt, (n - 1) as nat);
        lemma_models_run_snoc(m1, mid, post, half, dt, (n - 1) as nat, e);
        assert(models_step(pre, m1, half, dt, e1) && models_run(m1, post, half, dt, n));
    }
}

} // verus!
