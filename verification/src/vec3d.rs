//! 3-component vectors over the fixed-point type.  Used for positions,
//! velocities and accelerations.
//!
//! The magnitude is computed through an exact 128-bit integer square root,
//! never through a floating square root, preserving determinism.
use vstd::prelude::*;

verus! {

use crate::fixed_point::FixedPoint;
use crate::fixed_point::FloatConversionError;
use crate::fixed_point::SOLAR_FIXED_POINT_DECIMAL_BITS;
use crate::fixed_point::abs_u128;
use crate::fixed_point::UNIT_FIXED_POINT_DECIMAL_BITS;
use crate::fixed_point::UnitFp;
use crate::fixed_point::abs_int;
use crate::fixed_point::div_result;
use crate::fixed_point::f64_biased_exponent;
use crate::fixed_point::from_f64_bits_result;
use crate::fixed_point::from_f64_bits_spec;
use crate::fixed_point::rescale_result;
use vstd::arithmetic::power2::pow2;

#[derive(Clone, Copy, PartialEq, Debug)]
pub struct Vec3D<const N: u8>(pub FixedPoint<N>, pub FixedPoint<N>, pub FixedPoint<N>);

pub type UnitVec3D = Vec3D<UNIT_FIXED_POINT_DECIMAL_BITS>;
pub type StepVec3D = Vec3D<STEP_FIXED_POINT_DECIMAL_BITS>;
pub type SolarVec3D = Vec3D<SOLAR_FIXED_POINT_DECIMAL_BITS>;

use crate::fixed_point::STEP_FIXED_POINT_DECIMAL_BITS;

/// How a simulation run reports body positions: one selected body by
/// index, or every body.
pub enum PrintType {
    GraphSingle(usize),
    GraphAll,
}

impl<const N: u8> View for Vec3D<N> {
    type V = (int, int, int);

    open spec fn view(&self) -> (int, int, int) {
        (self.0@, self.1@, self.2@)
    }
}

/// The sum of the squared components, the quantity under the magnitude's
/// square root.
pub open spec fn squared_sum(v: (int, int, int)) -> int {
    v.0 * v.0 + v.1 * v.1 + v.2 * v.2
}

/// `r` is the floor of the square root of `n`.
pub open spec fn is_sqrt_floor(n: nat, r: nat) -> bool {
    r * r <= n < (r + 1) * (r + 1)
}

/// The floor of the square root: the unique `r` with
/// `r * r <= n < (r + 1) * (r + 1)`.
pub open spec fn sqrt_floor(n: nat) -> nat {
    choose|r: nat| is_sqrt_floor(n, r)
}

/// Any `r` bracketed by consecutive squares around `n` is `sqrt_floor(n)`.
pub proof fn lemma_sqrt_floor_unique(n: nat, r: nat)
    requires
        r * r <= n < (r + 1) * (r + 1),
    ensures
        sqrt_floor(n) == r,
{
    assert(exists|x: nat| is_sqrt_floor(n, x)) by {
        assert(is_sqrt_floor(n, r));
    }
    let c = sqrt_floor(n);
    assert(c * c <= n < (c + 1) * (c + 1));
    if c < r {
        assert(false) by (nonlinear_arith)
            requires
                c < r,
                c * c <= n < (c + 1) * (c + 1),
                r * r <= n,
        ;
    }
    if c > r {
        assert(false) by (nonlinear_arith)
            requires
                c > r,
                r * r <= n < (r + 1) * (r + 1),
                c * c <= n,
        ;
    }
}

/// A square and the square of the magnitude agree, and fit comfortably in
/// 128 bits for any 64-bit input.
proof fn lemma_abs_square(x: int)
    requires
        i64::MIN <= x <= i64::MAX,
    ensures
        abs_int(x) * abs_int(x) == x * x,
        0 <= x * x <= 0x4000_0000_0000_0000_0000_0000_0000_0000,
{
    assert(abs_int(x) * abs_int(x) == x * x && 0 <= x * x
        <= 0x4000_0000_0000_0000_0000_0000_0000_0000) by (nonlinear_arith)
        requires
            -0x8000_0000_0000_0000 <= x <= 0x7FFF_FFFF_FFFF_FFFF,
            abs_int(x) == if x >= 0 {
                x
            } else {
                -x
            },
    ;
}

/// No component of a vector exceeds the magnitude: each square is at most
/// the squared sum, which the magnitude's square brackets.
proof fn lemma_component_bounded_by_root(x: int, y: int, z: int, mag: int)
    requires
        mag >= 0,
        mag * mag <= x * x + y * y + z * z,
        x * x + y * y + z * z < (mag + 1) * (mag + 1),
        0 < x * x + y * y + z * z,
    ensures
        mag >= 1,
        abs_int(x) <= mag,
        abs_int(y) <= mag,
        abs_int(z) <= mag,
{
    assert(mag >= 1 && abs_int(x) <= mag && abs_int(y) <= mag && abs_int(z) <= mag)
        by (nonlinear_arith)
        requires
            mag >= 0,
            x * x + y * y + z * z < (mag + 1) * (mag + 1),
            0 < x * x + y * y + z * z,
            abs_int(x) == if x >= 0 {
                x
            } else {
                -x
            },
            abs_int(y) == if y >= 0 {
                y
            } else {
                -y
            },
            abs_int(z) == if z >= 0 {
                z
            } else {
                -z
            },
    ;
}

/// Dividing a component no larger than the magnitude, widened by the Unit
/// precision, stays within the 64-bit range.
proof fn lemma_unit_div_fits(x: int, mag: int)
    requires
        mag >= 1,
        abs_int(x) <= mag,
    ensures
        -i64::MAX <= div_result(x, mag, 60) <= i64::MAX,
        abs_int(div_result(x, mag, 60)) <= pow2(60),
{
    vstd::arithmetic::power2::lemma2_to64();
    vstd::arithmetic::power2::lemma2_to64_rest();
    let p = pow2(60) as int;
    assert(abs_int(x * p) == abs_int(x) * p) by (nonlinear_arith)
        requires
            p >= 1,
            abs_int(x) == if x >= 0 {
                x
            } else {
                -x
            },
            abs_int(x * p) == if x * p >= 0 {
                x * p
            } else {
                -(x * p)
            },
    ;
    vstd::arithmetic::mul::lemma_mul_inequality(abs_int(x), mag, p);
    vstd::arithmetic::div_mod::lemma_div_is_ordered(abs_int(x) * p, mag * p, mag);
    vstd::arithmetic::div_mod::lemma_div_multiples_vanish(p, mag);
    vstd::arithmetic::mul::lemma_mul_is_commutative(mag, p);
    vstd::arithmetic::div_mod::lemma_div_pos_is_pos(abs_int(x) * p, mag);
    vstd::arithmetic::mul::lemma_mul_nonnegative(abs_int(x), p);
}

/// The exact integer square root of a 128-bit value, by bisection.
pub fn isqrt_u128(n: u128) -> (r: u64)
    ensures
        r as nat == sqrt_floor(n as nat),
        (r as int) * (r as int) <= n as int,
        n < (r + 1) * (r + 1),
{
    let mut lo: u128 = 0;
    let mut hi: u128 = 0x1_0000_0000_0000_0000;
    proof {
        assert(0x1_0000_0000_0000_0000i128 as int * 0x1_0000_0000_0000_0000 as int > n as int)
            by (nonlinear_arith)
            requires
                n <= 0xFFFF_FFFF_FFFF_FFFF_FFFF_FFFF_FFFF_FFFFu128,
        ;
    }
    while lo + 1 < hi
        invariant
            lo < hi <= 0x1_0000_0000_0000_0000,
            (lo as int) * (lo as int) <= n as int,
            (hi as int) * (hi as int) > n as int,
        decreases hi - lo,
    {
        let mid = lo + (hi - lo) / 2;
        proof {
            assert((mid as int) * (mid as int) < 0x1_0000_0000_0000_0000_0000_0000_0000_0000int)
                by (nonlinear_arith)
                requires
                    mid < 0x1_0000_0000_0000_0000u128,
            ;
        }
        let sq = mid * mid;
        if sq <= n {
            lo = mid;
        } else {
            hi = mid;
        }
    }
    proof {
        lemma_sqrt_floor_unique(n as nat, lo as nat);
    }
    lo as u64
}

impl<const N: u8> Default for Vec3D<N> {
    fn default() -> (r: Self)
        ensures
            r@ == (0int, 0int, 0int),
    {
        Self::new()
    }
}

impl<const N: u8> Vec3D<N> {
    /// The zero vector.
    pub fn new() -> (r: Self)
        ensures
            r@ == (0int, 0int, 0int),
    {
        Self(FixedPoint(0), FixedPoint(0), FixedPoint(0))
    }

    /// Builds a vector from three IEEE-754 bit patterns, validating each
    /// component as [`FixedPoint::from_f64_bits`] does.
    pub fn from_floats_bits(x: u64, y: u64, z: u64) -> (r: Result<Self, FloatConversionError>)
        requires
            N < 63,
        ensures
            match (
                from_f64_bits_spec(x, N as nat),
                from_f64_bits_spec(y, N as nat),
                from_f64_bits_spec(z, N as nat),
            ) {
                (Ok(xi), Ok(yi), Ok(zi)) => r matches Ok(v) && v@ == (xi, yi, zi),
                (Err(e), _, _) => r matches Err(e2) && e2 == e,
                (Ok(_), Err(e), _) => r matches Err(e2) && e2 == e,
                (Ok(_), Ok(_), Err(e)) => r matches Err(e2) && e2 == e,
            },
    {
        let xf = match FixedPoint::<N>::from_f64_bits(x) {
            Ok(v) => v,
            Err(e) => {
                return Err(e);
            },
        };
        let yf = match FixedPoint::<N>::from_f64_bits(y) {
            Ok(v) => v,
            Err(e) => {
                return Err(e);
            },
        };
        let zf = match FixedPoint::<N>::from_f64_bits(z) {
            Ok(v) => v,
            Err(e) => {
                return Err(e);
            },
        };
        Ok(Self(xf, yf, zf))
    }

    /// Builds a vector from three IEEE-754 bit patterns without bounds
    /// checks, for hand-verified literal data only, which is what the
    /// precondition demands.
    pub fn from_floats_bits_trusted(x: u64, y: u64, z: u64) -> (r: Self)
        requires
            N < 63,
            f64_biased_exponent(x) < 0x7FF,
            f64_biased_exponent(x) > 0 ==> 63 - (f64_biased_exponent(x) - 1023) > N,
            f64_biased_exponent(y) < 0x7FF,
            f64_biased_exponent(y) > 0 ==> 63 - (f64_biased_exponent(y) - 1023) > N,
            f64_biased_exponent(z) < 0x7FF,
            f64_biased_exponent(z) > 0 ==> 63 - (f64_biased_exponent(z) - 1023) > N,
        ensures
            r@.0 == if f64_biased_exponent(x) == 0 {
                0int
            } else {
                from_f64_bits_result(x, N as nat)
            },
            r@.1 == if f64_biased_exponent(y) == 0 {
                0int
            } else {
                from_f64_bits_result(y, N as nat)
            },
            r@.2 == if f64_biased_exponent(z) == 0 {
                0int
            } else {
                from_f64_bits_result(z, N as nat)
            },
    {
        let xf = FixedPoint::<N>::from_f64_bits_trusted(x);
        let yf = FixedPoint::<N>::from_f64_bits_trusted(y);
        let zf = FixedPoint::<N>::from_f64_bits_trusted(z);
        Self(xf, yf, zf)
    }

    /// Composes two vectors, componentwise; traps on overflow as
    /// [`FixedPoint::add`] does.
    pub fn add(&self, other: &Self) -> (r: Self)
        requires
            i64::MIN <= self@.0 + other@.0 <= i64::MAX,
            i64::MIN <= self@.1 + other@.1 <= i64::MAX,
            i64::MIN <= self@.2 + other@.2 <= i64::MAX,
        ensures
            r@ == (self@.0 + other@.0, self@.1 + other@.1, self@.2 + other@.2),
    {
        Self(self.0.add(other.0), self.1.add(other.1), self.2.add(other.2))
    }

    /// Total form of [`Self::add`]: `None` exactly where `add` would trap.
    pub fn checked_add(&self, other: &Self) -> (r: Option<Self>)
        ensures
            r is Some <==> {
                &&& i64::MIN <= self@.0 + other@.0 <= i64::MAX
                &&& i64::MIN <= self@.1 + other@.1 <= i64::MAX
                &&& i64::MIN <= self@.2 + other@.2 <= i64::MAX
            },
            r is Some ==> r->Some_0@ == (self@.0 + other@.0, self@.1 + other@.1, self@.2
                + other@.2),
    {
        let x = match self.0.checked_add(other.0) {
            Some(v) => v,
            None => {
                return None;
            },
        };
        let y = match self.1.checked_add(other.1) {
            Some(v) => v,
            None => {
                return None;
            },
        };
        let z = match self.2.checked_add(other.2) {
            Some(v) => v,
            None => {
                return None;
            },
        };
        Some(Self(x, y, z))
    }

    /// Subtracts `other` from `self`, componentwise; traps on overflow.
    pub fn sub(&self, other: &Self) -> (r: Self)
        requires
            i64::MIN <= self@.0 - other@.0 <= i64::MAX,
            i64::MIN <= self@.1 - other@.1 <= i64::MAX,
            i64::MIN <= self@.2 - other@.2 <= i64::MAX,
        ensures
            r@ == (self@.0 - other@.0, self@.1 - other@.1, self@.2 - other@.2),
    {
        Self(self.0.sub(other.0), self.1.sub(other.1), self.2.sub(other.2))
    }

    /// The direction vector from `self` to `other`; traps on overflow.
    pub fn vector_to(&self, other: &Self) -> (r: Self)
        requires
            i64::MIN <= other@.0 - self@.0 <= i64::MAX,
            i64::MIN <= other@.1 - self@.1 <= i64::MAX,
            i64::MIN <= other@.2 - self@.2 <= i64::MAX,
        ensures
            r@ == (other@.0 - self@.0, other@.1 - self@.1, other@.2 - self@.2),
    {
        other.sub(self)
    }

    /// Total form of [`Self::vector_to`]: `None` exactly where `vector_to`
    /// would trap.
    pub fn checked_vector_to(&self, other: &Self) -> (r: Option<Self>)
        ensures
            r is Some <==> {
                &&& i64::MIN <= other@.0 - self@.0 <= i64::MAX
                &&& i64::MIN <= other@.1 - self@.1 <= i64::MAX
                &&& i64::MIN <= other@.2 - self@.2 <= i64::MAX
            },
            r is Some ==> r->Some_0@ == (other@.0 - self@.0, other@.1 - self@.1, other@.2
                - self@.2),
    {
        let x = match other.0.checked_sub(self.0) {
            Some(v) => v,
            None => {
                return None;
            },
        };
        let y = match other.1.checked_sub(self.1) {
            Some(v) => v,
            None => {
                return None;
            },
        };
        let z = match other.2.checked_sub(self.2) {
            Some(v) => v,
            None => {
                return None;
            },
        };
        Some(Self(x, y, z))
    }

    /// Scales the vector by a same-precision scalar, componentwise; traps
    /// as [`FixedPoint::mul`] does.
    pub fn scale(&self, scale_factor: FixedPoint<N>) -> (r: Self)
        requires
            N < 63,
            -i64::MAX <= crate::fixed_point::mul_result(self@.0, scale_factor@, N as nat)
                <= i64::MAX,
            -i64::MAX <= crate::fixed_point::mul_result(self@.1, scale_factor@, N as nat)
                <= i64::MAX,
            -i64::MAX <= crate::fixed_point::mul_result(self@.2, scale_factor@, N as nat)
                <= i64::MAX,
        ensures
            r@ == (
                crate::fixed_point::mul_result(self@.0, scale_factor@, N as nat),
                crate::fixed_point::mul_result(self@.1, scale_factor@, N as nat),
                crate::fixed_point::mul_result(self@.2, scale_factor@, N as nat),
            ),
    {
        Self(
            self.0.mul(scale_factor),
            self.1.mul(scale_factor),
            self.2.mul(scale_factor),
        )
    }

    /// Total form of [`Self::scale`]: `None` exactly where `scale` would
    /// trap.
    pub fn checked_scale(&self, scale_factor: FixedPoint<N>) -> (r: Option<Self>)
        requires
            N < 63,
        ensures
            r is Some <==> {
                &&& -i64::MAX <= crate::fixed_point::mul_result(self@.0, scale_factor@, N as nat)
                    <= i64::MAX
                &&& -i64::MAX <= crate::fixed_point::mul_result(self@.1, scale_factor@, N as nat)
                    <= i64::MAX
                &&& -i64::MAX <= crate::fixed_point::mul_result(self@.2, scale_factor@, N as nat)
                    <= i64::MAX
            },
            r is Some ==> r->Some_0@ == (
                crate::fixed_point::mul_result(self@.0, scale_factor@, N as nat),
                crate::fixed_point::mul_result(self@.1, scale_factor@, N as nat),
                crate::fixed_point::mul_result(self@.2, scale_factor@, N as nat),
            ),
    {
        let x = match self.0.checked_mul(scale_factor) {
            Some(v) => v,
            None => {
                return None;
            },
        };
        let y = match self.1.checked_mul(scale_factor) {
            Some(v) => v,
            None => {
                return None;
            },
        };
        let z = match self.2.checked_mul(scale_factor) {
            Some(v) => v,
            None => {
                return None;
            },
        };
        Some(Self(x, y, z))
    }

    /// Divides the vector by a same-precision factor, componentwise; traps
    /// as [`FixedPoint::div`] does.
    pub fn scale_down(&self, scale_factor: FixedPoint<N>) -> (r: Self)
        requires
            N < 63,
            scale_factor@ != 0,
            -i64::MAX <= div_result(self@.0, scale_factor@, N as nat) <= i64::MAX,
            -i64::MAX <= div_result(self@.1, scale_factor@, N as nat) <= i64::MAX,
            -i64::MAX <= div_result(self@.2, scale_factor@, N as nat) <= i64::MAX,
        ensures
            r@ == (
                div_result(self@.0, scale_factor@, N as nat),
                div_result(self@.1, scale_factor@, N as nat),
                div_result(self@.2, scale_factor@, N as nat),
            ),
    {
        Self(
            self.0.div(scale_factor),
            self.1.div(scale_factor),
            self.2.div(scale_factor),
        )
    }

    /// The magnitude of the vector, as an exact 128-bit integer square
    /// root of the sum of squared components: for `Vec3D(3, 4, 0)` the
    /// result is `5`.  Traps when the squared sum leaves no headroom for
    /// the root to fit the backing integer.
    pub fn magnitude(&self) -> (r: FixedPoint<N>)
        requires
            squared_sum(self@) < 0x4000_0000_0000_0000_0000_0000_0000_0000,
        ensures
            r@ == sqrt_floor(squared_sum(self@) as nat),
            r@ >= 0,
            r@ * r@ <= squared_sum(self@),
            squared_sum(self@) < (r@ + 1) * (r@ + 1),
    {
        match self.checked_magnitude() {
            Some(v) => v,
            None => {
                proof {
                    assert(false);
                }
                FixedPoint(0)
            },
        }
    }

    /// Total form of [`Self::magnitude`]: `None` exactly where `magnitude`
    /// would trap.
    pub fn checked_magnitude(&self) -> (r: Option<FixedPoint<N>>)
        ensures
            r is Some <==> squared_sum(self@) < 0x4000_0000_0000_0000_0000_0000_0000_0000,
            r is Some ==> r->Some_0@ == sqrt_floor(squared_sum(self@) as nat) && r->Some_0@ >= 0,
            r is Some ==> r->Some_0@ * r->Some_0@ <= squared_sum(self@) && squared_sum(self@) < (
            r->Some_0@ + 1) * (r->Some_0@ + 1),
    {
        let sum = self.squared_sum_u128();
        if sum >= 0x4000_0000_0000_0000_0000_0000_0000_0000u128 {
            return None;
        }
        let rt = isqrt_u128(sum);
        proof {
            let r = rt as int;
            if r >= 0x8000_0000_0000_0000 {
                assert(r * r >= 0x4000_0000_0000_0000_0000_0000_0000_0000) by (nonlinear_arith)
                    requires
                        r >= 0x8000_0000_0000_0000,
                ;
            }
        }
        Some(FixedPoint(rt as i64))
    }

    /// The sum of the squared components, exactly, in 128 bits (it always
    /// fits).
    fn squared_sum_u128(&self) -> (r: u128)
        ensures
            r == squared_sum(self@),
    {
        let ax = abs_u128(self.0.0 as i128);
        let ay = abs_u128(self.1.0 as i128);
        let az = abs_u128(self.2.0 as i128);
        proof {
            lemma_abs_square(self@.0);
            lemma_abs_square(self@.1);
            lemma_abs_square(self@.2);
        }
        ax * ax + ay * ay + az * az
    }

    /// Normalizes into the Unit precision, whatever the source precision:
    /// the components are reinterpreted with 60 fractional bits and each
    /// is divided by the reinterpreted vector's magnitude.  Traps on the
    /// zero vector and when the squared sum leaves the magnitude's range.
    pub fn to_unit_vector(self) -> (r: UnitVec3D)
        requires
            0 < squared_sum(self@) < 0x4000_0000_0000_0000_0000_0000_0000_0000,
        ensures
            ({
                let mag = sqrt_floor(squared_sum(self@) as nat) as int;
                r@ == (
                    div_result(self@.0, mag, 60),
                    div_result(self@.1, mag, 60),
                    div_result(self@.2, mag, 60),
                )
            }),
    {
        let shrunk = Vec3D::<UNIT_FIXED_POINT_DECIMAL_BITS>(
            FixedPoint(self.0.0),
            FixedPoint(self.1.0),
            FixedPoint(self.2.0),
        );
        let divisor = shrunk.magnitude();
        proof {
            let sum = squared_sum(self@);
            let mag = divisor@;
            lemma_component_bounded_by_root(self@.0, self@.1, self@.2, mag);
            lemma_unit_div_fits(self@.0, mag);
            lemma_unit_div_fits(self@.1, mag);
            lemma_unit_div_fits(self@.2, mag);
        }
        shrunk.scale_down(divisor)
    }

    /// Total form of [`Self::to_unit_vector`]: `None` exactly where
    /// `to_unit_vector` would trap.
    pub fn checked_to_unit_vector(self) -> (r: Option<UnitVec3D>)
        ensures
            r is Some <==> 0 < squared_sum(self@) < 0x4000_0000_0000_0000_0000_0000_0000_0000,
            r is Some ==> ({
                let mag = sqrt_floor(squared_sum(self@) as nat) as int;
                r->Some_0@ == (
                    div_result(self@.0, mag, 60),
                    div_result(self@.1, mag, 60),
                    div_result(self@.2, mag, 60),
                )
            }),
    {
        let sum = self.squared_sum_u128();
        if sum == 0 || sum >= 0x4000_0000_0000_0000_0000_0000_0000_0000u128 {
            return None;
        }
        Some(self.to_unit_vector())
    }

    /// Converts each component to Solar precision, preserving the
    /// represented value as closely as possible.
    pub fn as_solar(&self) -> (r: SolarVec3D)
        requires
            SOLAR_FIXED_POINT_DECIMAL_BITS <= N < 63,
        ensures
            r@ == (
                rescale_result(self@.0, N as nat, SOLAR_FIXED_POINT_DECIMAL_BITS as nat),
                rescale_result(self@.1, N as nat, SOLAR_FIXED_POINT_DECIMAL_BITS as nat),
                rescale_result(self@.2, N as nat, SOLAR_FIXED_POINT_DECIMAL_BITS as nat),
            ),
    {
        Vec3D(self.0.as_solar_fp(), self.1.as_solar_fp(), self.2.as_solar_fp())
    }
}

impl UnitVec3D {
    /// Scales a unit vector by a scalar force magnitude of a different
    /// precision `N` without intermediate renormalization loss; the result
    /// keeps the scalar's precision.  Traps as
    /// [`UnitFp::scale_by_other`] does.
    pub fn scale_from_unit<const N: u8>(self, scalar: FixedPoint<N>) -> (r: Vec3D<N>)
        requires
            abs_int(self@.0 * scalar@) < pow2(123),
            abs_int(self@.1 * scalar@) < pow2(123),
            abs_int(self@.2 * scalar@) < pow2(123),
        ensures
            r@ == (
                (self@.0 * scalar@) / pow2(60) as int,
                (self@.1 * scalar@) / pow2(60) as int,
                (self@.2 * scalar@) / pow2(60) as int,
            ),
    {
        Vec3D(
            self.0.scale_by_other(scalar),
            self.1.scale_by_other(scalar),
            self.2.scale_by_other(scalar),
        )
    }

    /// Total form of [`Self::scale_from_unit`]: `None` exactly where
    /// `scale_from_unit` would trap.
    pub fn checked_scale_from_unit<const N: u8>(self, scalar: FixedPoint<N>) -> (r: Option<
        Vec3D<N>,
    >)
        ensures
            r is Some <==> {
                &&& abs_int(self@.0 * scalar@) < pow2(123)
                &&& abs_int(self@.1 * scalar@) < pow2(123)
                &&& abs_int(self@.2 * scalar@) < pow2(123)
            },
            r is Some ==> r->Some_0@ == (
                (self@.0 * scalar@) / pow2(60) as int,
                (self@.1 * scalar@) / pow2(60) as int,
                (self@.2 * scalar@) / pow2(60) as int,
            ),
    {
        let x = match self.0.checked_scale_by_other(scalar) {
            Some(v) => v,
            None => {
                return None;
            },
        };
        let y = match self.1.checked_scale_by_other(scalar) {
            Some(v) => v,
            None => {
                return None;
            },
        };
        let z = match self.2.checked_scale_by_other(scalar) {
            Some(v) => v,
            None => {
                return None;
            },
        };
        Some(Vec3D(x, y, z))
    }
}

} // verus!
