//! Unit quaternions over the Unit fixed-point precision, used to carry
//! orientations.
//!
//! The identity quaternion points along positive x, with the body's
//! secondary axis along positive z.
use vstd::prelude::*;

verus! {

use crate::fixed_point::FloatConversionError;
use crate::fixed_point::UNIT_FIXED_POINT_DECIMAL_BITS;
use crate::fixed_point::UnitFp;
use crate::fixed_point::abs_int;
use crate::fixed_point::from_f64_bits_spec;
use crate::fixed_point::mul_result;
use crate::vec3d::Vec3D;

/// The backing integer of the Unit-precision rendering of `1e-3`, the
/// tolerance within which a squared magnitude counts as one.
pub const ERR_EPSILON_INTERNAL: i64 = 0x4_1893_74BC_6A7F;

#[derive(Clone, Copy, PartialEq, Debug)]
pub struct Quaternion(pub UnitFp, pub UnitFp, pub UnitFp, pub UnitFp);

/// Failures of quaternion construction.
#[derive(Clone, Copy, Debug, PartialEq, Eq)]
pub enum QuaternionError {
    /// The components do not form a unit quaternion.
    NotUnit,
    /// A component could not be represented in the Unit precision.
    BadFloat(FloatConversionError),
}

impl View for Quaternion {
    type V = (int, int, int, int);

    open spec fn view(&self) -> (int, int, int, int) {
        (self.0@, self.1@, self.2@, self.3@)
    }
}

/// A Unit-precision product of two components.
pub open spec fn unit_mul(a: int, b: int) -> int {
    mul_result(a, b, UNIT_FIXED_POINT_DECIMAL_BITS as nat)
}

/// The value lies in the range that a trapping fixed-point product may
/// take.
pub open spec fn product_in_range(a: int) -> bool {
    -i64::MAX <= a <= i64::MAX
}

/// The left-associated sum `a + b + c + d` stays within the 64-bit range
/// at every step.
pub open spec fn sum4_in_range(a: int, b: int, c: int, d: int) -> bool {
    &&& i64::MIN <= a + b <= i64::MAX
    &&& i64::MIN <= a + b + c <= i64::MAX
    &&& i64::MIN <= a + b + c + d <= i64::MAX
}

/// The squared magnitude of a quaternion, term by term as the trapping
/// arithmetic computes it.
pub open spec fn quat_mag_squared(q: (int, int, int, int)) -> int {
    unit_mul(q.0, q.0) + unit_mul(q.1, q.1) + unit_mul(q.2, q.2) + unit_mul(q.3, q.3)
}

/// The squared-magnitude computation traps nowhere on `q`.
pub open spec fn quat_mag_fits(q: (int, int, int, int)) -> bool {
    &&& product_in_range(unit_mul(q.0, q.0))
    &&& product_in_range(unit_mul(q.1, q.1))
    &&& product_in_range(unit_mul(q.2, q.2))
    &&& product_in_range(unit_mul(q.3, q.3))
    &&& sum4_in_range(
        unit_mul(q.0, q.0),
        unit_mul(q.1, q.1),
        unit_mul(q.2, q.2),
        unit_mul(q.3, q.3),
    )
}

/// The component expressions of the Hamilton product `q * o`.
pub open spec fn quat_mult_w(q: (int, int, int, int), o: (int, int, int, int)) -> int {
    unit_mul(q.0, o.0) - unit_mul(q.1, o.1) - unit_mul(q.2, o.2) - unit_mul(q.3, o.3)
}

pub open spec fn quat_mult_x(q: (int, int, int, int), o: (int, int, int, int)) -> int {
    unit_mul(q.0, o.1) + unit_mul(q.1, o.0) + unit_mul(q.2, o.3) - unit_mul(q.3, o.2)
}

pub open spec fn quat_mult_y(q: (int, int, int, int), o: (int, int, int, int)) -> int {
    unit_mul(q.0, o.2) - unit_mul(q.1, o.3) + unit_mul(q.2, o.0) + unit_mul(q.3, o.1)
}

pub open spec fn quat_mult_z(q: (int, int, int, int), o: (int, int, int, int)) -> int {
    unit_mul(q.0, o.3) + unit_mul(q.1, o.2) - unit_mul(q.2, o.1) + unit_mul(q.3, o.0)
}

/// The Hamilton product computation traps nowhere on `q * o`.
pub open spec fn quat_mult_fits(q: (int, int, int, int), o: (int, int, int, int)) -> bool {
    &&& product_in_range(unit_mul(q.0, o.0)) && product_in_range(unit_mul(q.1, o.1))
        && product_in_range(unit_mul(q.2, o.2)) && product_in_range(unit_mul(q.3, o.3))
    &&& product_in_range(unit_mul(q.0, o.1)) && product_in_range(unit_mul(q.1, o.0))
        && product_in_range(unit_mul(q.2, o.3)) && product_in_range(unit_mul(q.3, o.2))
    &&& product_in_range(unit_mul(q.0, o.2)) && product_in_range(unit_mul(q.1, o.3))
        && product_in_range(unit_mul(q.2, o.0)) && product_in_range(unit_mul(q.3, o.1))
    &&& product_in_range(unit_mul(q.0, o.3)) && product_in_range(unit_mul(q.1, o.2))
        && product_in_range(unit_mul(q.2, o.1)) && product_in_range(unit_mul(q.3, o.0))
    &&& sum4_in_range(
        unit_mul(q.0, o.0),
        -unit_mul(q.1, o.1),
        -unit_mul(q.2, o.2),
        -unit_mul(q.3, o.3),
    )
    &&& sum4_in_range(
        unit_mul(q.0, o.1),
        unit_mul(q.1, o.0),
        unit_mul(q.2, o.3),
        -unit_mul(q.3, o.2),
    )
    &&& sum4_in_range(
        unit_mul(q.0, o.2),
        -unit_mul(q.1, o.3),
        unit_mul(q.2, o.0),
        unit_mul(q.3, o.1),
    )
    &&& sum4_in_range(
        unit_mul(q.0, o.3),
        unit_mul(q.1, o.2),
        -unit_mul(q.2, o.1),
        unit_mul(q.3, o.0),
    )
}

/// A squared component never contributes negatively to the magnitude.
proof fn lemma_unit_square_nonneg(a: int)
    ensures
        unit_mul(a, a) >= 0,
{
    assert(a * a >= 0) by (nonlinear_arith);
    vstd::arithmetic::power2::lemma_pow2_pos(60);
    vstd::arithmetic::div_mod::lemma_div_pos_is_pos(
        a * a,
        vstd::arithmetic::power2::pow2(60) as int,
    );
}

impl Quaternion {
    /// Validates that the components form a unit quaternion (squared
    /// magnitude within `1e-3` of one) and wraps them; fails with
    /// `NotUnit` otherwise.
    pub fn new(w: UnitFp, x: UnitFp, y: UnitFp, z: UnitFp) -> (r: Result<
        Quaternion,
        QuaternionError,
    >)
        requires
            quat_mag_fits((w@, x@, y@, z@)),
        ensures
            ({
                let mag = quat_mag_squared((w@, x@, y@, z@));
                if abs_int(mag - 0x1000_0000_0000_0000) < ERR_EPSILON_INTERNAL {
                    r matches Ok(q) && q@ == (w@, x@, y@, z@)
                } else {
                    r matches Err(e) && e == QuaternionError::NotUnit
                }
            }),
    {
        proof {
            lemma_unit_square_nonneg(w@);
            lemma_unit_square_nonneg(x@);
            lemma_unit_square_nonneg(y@);
            lemma_unit_square_nonneg(z@);
        }
        let mag = w.mul(w).add(x.mul(x)).add(y.mul(y)).add(z.mul(z));
        let deviation = mag.sub(crate::fixed_point::FixedPoint(0x1000_0000_0000_0000)).abs();
        if deviation.0 < ERR_EPSILON_INTERNAL {
            Ok(Quaternion(w, x, y, z))
        } else {
            Err(QuaternionError::NotUnit)
        }
    }

    /// Converts four IEEE-754 bit patterns to Unit precision and validates
    /// them as [`Self::new`] does; conversion failures come back as
    /// `BadFloat`.
    pub fn from_float_bits(w: u64, x: u64, y: u64, z: u64) -> (r: Result<
        Quaternion,
        QuaternionError,
    >)
        requires
            ({
                match (
                    from_f64_bits_spec(w, 60),
                    from_f64_bits_spec(x, 60),
                    from_f64_bits_spec(y, 60),
                    from_f64_bits_spec(z, 60),
                ) {
                    (Ok(a), Ok(b), Ok(c), Ok(d)) => quat_mag_fits((a, b, c, d)),
                    _ => true,
                }
            }),
        ensures
            ({
                match (
                    from_f64_bits_spec(w, 60),
                    from_f64_bits_spec(x, 60),
                    from_f64_bits_spec(y, 60),
                    from_f64_bits_spec(z, 60),
                ) {
                    (Ok(a), Ok(b), Ok(c), Ok(d)) => {
                        let mag = quat_mag_squared((a, b, c, d));
                        if abs_int(mag - 0x1000_0000_0000_0000) < ERR_EPSILON_INTERNAL {
                            r matches Ok(q) && q@ == (a, b, c, d)
                        } else {
                            r matches Err(e) && e == QuaternionError::NotUnit
                        }
                    },
                    // the first failing component's error comes back
                    (Err(e), _, _, _) => r matches Err(e2) && e2 == QuaternionError::BadFloat(e),
                    (Ok(_), Err(e), _, _) => r matches Err(e2) && e2 == QuaternionError::BadFloat(
                        e,
                    ),
                    (Ok(_), Ok(_), Err(e), _) => r matches Err(e2) && e2
                        == QuaternionError::BadFloat(e),
                    (Ok(_), Ok(_), Ok(_), Err(e)) => r matches Err(e2) && e2
                        == QuaternionError::BadFloat(e),
                }
            }),
    {
        let wf = match UnitFp::from_f64_bits(w) {
            Ok(v) => v,
            Err(e) => {
                return Err(QuaternionError::BadFloat(e));
            },
        };
        let xf = match UnitFp::from_f64_bits(x) {
            Ok(v) => v,
            Err(e) => {
                return Err(QuaternionError::BadFloat(e));
            },
        };
        let yf = match UnitFp::from_f64_bits(y) {
            Ok(v) => v,
            Err(e) => {
                return Err(QuaternionError::BadFloat(e));
            },
        };
        let zf = match UnitFp::from_f64_bits(z) {
            Ok(v) => v,
            Err(e) => {
                return Err(QuaternionError::BadFloat(e));
            },
        };
        Self::new(wf, xf, yf, zf)
    }

    /// The Hamilton product `self * other`; order matters.  Traps where
    /// the component arithmetic overflows.
    pub fn mult(&self, other: &Self) -> (r: Self)
        requires
            quat_mult_fits(self@, other@),
        ensures
            r@ == (
                quat_mult_w(self@, other@),
                quat_mult_x(self@, other@),
                quat_mult_y(self@, other@),
                quat_mult_z(self@, other@),
            ),
    {
        Self(
            self.0.mul(other.0).sub(self.1.mul(other.1)).sub(self.2.mul(other.2)).sub(
                self.3.mul(other.3),
            ),
            self.0.mul(other.1).add(self.1.mul(other.0)).add(self.2.mul(other.3)).sub(
                self.3.mul(other.2),
            ),
            self.0.mul(other.2).sub(self.1.mul(other.3)).add(self.2.mul(other.0)).add(
                self.3.mul(other.1),
            ),
            self.0.mul(other.3).add(self.1.mul(other.2)).sub(self.2.mul(other.1)).add(
                self.3.mul(other.0),
            ),
        )
    }

    /// The conjugate of `self`: the vector part negated.
    pub fn conjugated(&self) -> (r: Self)
        requires
            self@.1 > i64::MIN,
            self@.2 > i64::MIN,
            self@.3 > i64::MIN,
        ensures
            r@ == (self@.0, -self@.1, -self@.2, -self@.3),
    {
        Self(self.0, self.1.neg(), self.2.neg(), self.3.neg())
    }

    /// Wraps a vector as a pure quaternion, used when rotating vectors.
    pub fn from_vector(vector: Vec3D<UNIT_FIXED_POINT_DECIMAL_BITS>) -> (r: Self)
        ensures
            r@ == (0int, vector@.0, vector@.1, vector@.2),
    {
        Quaternion(crate::fixed_point::FixedPoint(0), vector.0, vector.1, vector.2)
    }

    /// The unit-length forward vector of the orientation: the rotation
    /// applied to the principal axis.  The first multiplication is written
    /// out by hand (`self * (0, 1, 0, 0)`) since many of its terms cancel.
    pub fn to_forward_vector(&self) -> (r: Vec3D<UNIT_FIXED_POINT_DECIMAL_BITS>)
        requires
            self@.1 > i64::MIN,
            self@.2 > i64::MIN,
            self@.3 > i64::MIN,
            quat_mult_fits(
                (-self@.1, self@.0, self@.3, -self@.2),
                (self@.0, -self@.1, -self@.2, -self@.3),
            ),
        ensures
            ({
                let qv = (-self@.1, self@.0, self@.3, -self@.2);
                let conj = (self@.0, -self@.1, -self@.2, -self@.3);
                r@ == (quat_mult_x(qv, conj), quat_mult_y(qv, conj), quat_mult_z(qv, conj))
            }),
    {
        let qv = Self(self.1.neg(), self.0, self.3, self.2.neg());
        let qvq_inv = qv.mult(&self.conjugated());
        Vec3D(qvq_inv.1, qvq_inv.2, qvq_inv.3)
    }

    /// True when every component of `self` is within the `1e-3` tolerance
    /// of the corresponding component of `other`.
    pub fn equal_within_epsilon(&self, other: &Self) -> (r: bool)
        requires
            i64::MIN < self@.0 - other@.0 <= i64::MAX,
            i64::MIN < self@.1 - other@.1 <= i64::MAX,
            i64::MIN < self@.2 - other@.2 <= i64::MAX,
            i64::MIN < self@.3 - other@.3 <= i64::MAX,
        ensures
            r == {
                &&& abs_int(self@.0 - other@.0) < ERR_EPSILON_INTERNAL
                &&& abs_int(self@.1 - other@.1) < ERR_EPSILON_INTERNAL
                &&& abs_int(self@.2 - other@.2) < ERR_EPSILON_INTERNAL
                &&& abs_int(self@.3 - other@.3) < ERR_EPSILON_INTERNAL
            },
    {
        self.0.sub(other.0).abs().0 < ERR_EPSILON_INTERNAL && self.1.sub(other.1).abs().0
            < ERR_EPSILON_INTERNAL && self.2.sub(other.2).abs().0 < ERR_EPSILON_INTERNAL
            && self.3.sub(other.3).abs().0 < ERR_EPSILON_INTERNAL
    }
}

} // verus!
