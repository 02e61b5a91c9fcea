//! Signed fixed-point numbers over a 64-bit backing integer.
//!
//! `FixedPoint<N>` stores an `i64` whose represented value is
//! `internal / 2^N`.  Three precisions cover the simulator's needs: `UnitFp`
//! (N = 60) for unit vectors and quaternions, `StepFp` (N = 40) for
//! velocities and accelerations, and `SolarFp` (N = 6) for positions and
//! gravitational parameters.
//!
//! Addition and subtraction trap on 64-bit overflow (callers must show the
//! result fits).  Multiplication and division widen to 128 bits before
//! rescaling and trap if the rescaled result does not fit back in 64 bits.
use vstd::prelude::*;

verus! {

use vstd::arithmetic::div_mod::lemma_fundamental_div_mod;
use vstd::arithmetic::div_mod::lemma_fundamental_div_mod_converse;
use vstd::arithmetic::power2::lemma2_to64;
use vstd::arithmetic::power2::lemma_pow2_adds;
use vstd::arithmetic::power2::lemma_pow2_pos;
use vstd::arithmetic::power2::lemma_pow2_strictly_increases;
use vstd::arithmetic::power2::lemma_pow2_unfold;
use vstd::arithmetic::power2::pow2;

pub const UNIT_FIXED_POINT_DECIMAL_BITS: u8 = 60;
pub const STEP_FIXED_POINT_DECIMAL_BITS: u8 = 40;
pub const SOLAR_FIXED_POINT_DECIMAL_BITS: u8 = 6;

pub type UnitFp = FixedPoint<UNIT_FIXED_POINT_DECIMAL_BITS>;
pub type StepFp = FixedPoint<STEP_FIXED_POINT_DECIMAL_BITS>;
pub type SolarFp = FixedPoint<SOLAR_FIXED_POINT_DECIMAL_BITS>;

/// A signed fixed-point number with `N` fractional bits: the represented
/// value is `internal / 2^N`, where `internal` is the backing `i64`.
#[derive(Clone, Copy, PartialEq, Eq, Debug)]
pub struct FixedPoint<const N: u8>(pub i64);

/// Failures of conversion from an IEEE-754 double.
#[derive(Clone, Copy, Debug, PartialEq, Eq)]
pub enum FloatConversionError {
    /// The input was an infinity or a NaN.
    NonNumericInput,
    /// The input's binary exponent does not leave `N + 1` bits of headroom
    /// in the 64-bit backing integer.
    OutOfBounds,
}

impl<const N: u8> View for FixedPoint<N> {
    type V = int;

    open spec fn view(&self) -> int {
        self.0 as int
    }
}

/// Absolute value over the mathematical integers.
pub open spec fn abs_int(a: int) -> int {
    if a >= 0 {
        a
    } else {
        -a
    }
}

/// Rust's truncating division (rounding towards zero), over the
/// mathematical integers.
pub open spec fn trunc_div(a: int, b: int) -> int {
    if (a >= 0) == (b >= 0) {
        abs_int(a) / abs_int(b)
    } else {
        -(abs_int(a) / abs_int(b))
    }
}

/// `2^k` as an `i64`, for `k < 63`.
pub fn pow2_i64(k: u8) -> (r: i64)
    requires
        k < 63,
    ensures
        r == pow2(k as nat),
{
    proof {
        lemma_pow2_strictly_increases(k as nat, 63);
        lemma2_to64();
        vstd::arithmetic::power2::lemma2_to64_rest();
    }
    let mut r: i64 = 1;
    let mut i: u8 = 0;
    while i < k
        invariant
            i <= k,
            k < 63,
            r == pow2(i as nat),
            pow2(k as nat) < 0x8000_0000_0000_0000,
        decreases k - i,
    {
        proof {
            lemma_pow2_unfold((i + 1) as nat);
            if i + 1 < k {
                lemma_pow2_strictly_increases((i + 1) as nat, k as nat);
            }
        }
        r = r * 2;
        i = i + 1;
    }
    r
}

/// `2^k` as a `u128`, for `k < 128`.
pub fn pow2_u128(k: u8) -> (r: u128)
    requires
        k < 128,
    ensures
        r == pow2(k as nat),
{
    proof {
        lemma_pow2_strictly_increases(k as nat, 128);
        lemma2_to64();
        vstd::arithmetic::power2::lemma2_to64_rest();
        lemma_pow2_adds(64, 64);
    }
    let mut r: u128 = 1;
    let mut i: u8 = 0;
    while i < k
        invariant
            i <= k,
            k < 128,
            r == pow2(i as nat),
            pow2(k as nat) < 0x1_0000_0000_0000_0000_0000_0000_0000_0000,
        decreases k - i,
    {
        proof {
            lemma_pow2_unfold((i + 1) as nat);
            if i + 1 < k {
                lemma_pow2_strictly_increases((i + 1) as nat, k as nat);
            }
        }
        r = r * 2;
        i = i + 1;
    }
    r
}

/// The magnitude of `a` as a `u128` (total, even at `i128::MIN`).
pub(crate) fn abs_u128(a: i128) -> (r: u128)
    ensures
        r == abs_int(a as int),
{
    if a >= 0 {
        a as u128
    } else {
        ((-(a + 1)) as u128) + 1
    }
}

/// Truncating division of 128-bit values, exactly as Rust's `/` computes
/// it.
fn trunc_div_i128(a: i128, b: i128) -> (r: i128)
    requires
        b != 0,
        a != i128::MIN,
    ensures
        r == trunc_div(a as int, b as int),
{
    let ma = abs_u128(a);
    let mb = abs_u128(b);
    let q = ma / mb;
    if (a >= 0) == (b >= 0) {
        q as i128
    } else {
        -(q as i128)
    }
}

/// Flooring division of a 128-bit value by a positive divisor; this is what
/// an arithmetic right shift computes when the divisor is a power of two.
fn floor_div_i128(a: i128, b: u128) -> (r: i128)
    requires
        b >= 1,
        a > i128::MIN,
    ensures
        r == a as int / b as int,
{
    let m = abs_u128(a);
    let q = m / b;
    let rem = m % b;
    proof {
        lemma_fundamental_div_mod(m as int, b as int);
        assert(m == b * q + rem);
    }
    if a >= 0 {
        proof {
            assert(a == q as int * b + rem) by (nonlinear_arith)
                requires
                    a == m,
                    m == b * q + rem,
            ;
            lemma_fundamental_div_mod_converse(a as int, b as int, q as int, rem as int);
        }
        q as i128
    } else if rem == 0 {
        proof {
            assert(a == (-(q as int)) * b + 0) by (nonlinear_arith)
                requires
                    a == -(m as int),
                    m == b * q + rem,
                    rem == 0,
            ;
            lemma_fundamental_div_mod_converse(a as int, b as int, -(q as int), 0);
        }
        -(q as i128)
    } else {
        proof {
            assert(a == (-(q as int) - 1) * b + (b - rem)) by (nonlinear_arith)
                requires
                    a == -(m as int),
                    m == b * q + rem,
            ;
            lemma_fundamental_div_mod_converse(
                a as int,
                b as int,
                -(q as int) - 1,
                (b - rem) as int,
            );
        }
        -(q as i128) - 1
    }
}

/// A flooring division by a positive divisor keeps the quotient between
/// the dividend and zero, so it never leaves the dividend's range.
pub(crate) proof fn lemma_floor_div_stays_in_range(a: int, p: int, lo: int, hi: int)
    requires
        p >= 1,
        lo <= a <= hi,
        lo <= 0 <= hi,
    ensures
        lo <= a / p <= hi,
{
    lemma_fundamental_div_mod(a, p);
    let q = a / p;
    let r = a % p;
    assert(lo <= q <= hi) by (nonlinear_arith)
        requires
            a == p * q + r,
            0 <= r < p,
            p >= 1,
            lo <= a <= hi,
            lo <= 0 <= hi,
    ;
}

/// A flooring division by `p` of a value strictly smaller in magnitude
/// than `bound * p` lands strictly inside `[-bound, bound)`.
proof fn lemma_floor_div_tight(a: int, p: int, bound: int)
    requires
        p >= 1,
        bound >= 1,
        abs_int(a) < bound * p,
    ensures
        -bound <= a / p < bound,
{
    lemma_fundamental_div_mod(a, p);
    let q = a / p;
    let r = a % p;
    assert(-bound <= q < bound) by (nonlinear_arith)
        requires
            a == p * q + r,
            0 <= r < p,
            p >= 1,
            bound >= 1,
            abs_int(a) < bound * p,
    ;
}

/// The product of two `i64` values always fits in an `i128`.
pub(crate) proof fn lemma_i64_product_fits(a: int, b: int)
    requires
        i64::MIN <= a <= i64::MAX,
        i64::MIN <= b <= i64::MAX,
    ensures
        abs_int(a * b) <= 0x4000_0000_0000_0000_0000_0000_0000_0000,
{
    assert(abs_int(a * b) <= 0x4000_0000_0000_0000_0000_0000_0000_0000) by (nonlinear_arith)
        requires
            -0x8000_0000_0000_0000 <= a <= 0x7FFF_FFFF_FFFF_FFFF,
            -0x8000_0000_0000_0000 <= b <= 0x7FFF_FFFF_FFFF_FFFF,
    ;
}

/// What fixed-point multiplication returns: the wide product, rescaled by a
/// flooring shift of `n` bits.
pub open spec fn mul_result(a: int, b: int, n: nat) -> int {
    (a * b) / pow2(n) as int
}

/// What fixed-point division returns: the dividend widened by `n` bits,
/// then divided with truncation towards zero.
pub open spec fn div_result(a: int, b: int, n: nat) -> int {
    trunc_div(a * pow2(n), b)
}

/// True when the sign bit of the IEEE-754 double with bit pattern `b` is
/// set.
pub open spec fn f64_sign_negative(b: u64) -> bool {
    b as int / 0x8000_0000_0000_0000 == 1
}

/// The biased 11-bit exponent field of the IEEE-754 double with bit
/// pattern `b`.
pub open spec fn f64_biased_exponent(b: u64) -> int {
    (b as int / 0x10_0000_0000_0000) % 0x800
}

/// The 52-bit mantissa field of the IEEE-754 double with bit pattern `b`.
pub open spec fn f64_mantissa_field(b: u64) -> int {
    b as int % 0x10_0000_0000_0000
}

/// The backing integer obtained from a finite, in-range, normal IEEE-754
/// double: the 53-bit mantissa (implicit leading one restored) shifted by
/// `exponent + N - 52` bits, negated if the sign bit is set.
pub open spec fn from_f64_bits_result(b: u64, n: nat) -> int {
    let e = f64_biased_exponent(b) - 1023;
    let m = f64_mantissa_field(b) + pow2(52);
    let shift = e + n - 52;
    let mag = if shift >= 0 {
        m * pow2(shift as nat) as int
    } else {
        m / pow2((-shift) as nat) as int
    };
    if f64_sign_negative(b) {
        -mag
    } else {
        mag
    }
}

/// The outcome of converting an IEEE-754 double bit pattern to `n`
/// fractional bits: the backing integer on success, or the validation
/// failure.
pub open spec fn from_f64_bits_spec(b: u64, n: nat) -> Result<int, FloatConversionError> {
    let e = f64_biased_exponent(b);
    if e == 0 {
        Ok(0)
    } else if e == 0x7FF {
        Err(FloatConversionError::NonNumericInput)
    } else if 63 - (e - 1023) <= n {
        Err(FloatConversionError::OutOfBounds)
    } else {
        Ok(from_f64_bits_result(b, n))
    }
}

/// The backing integer that the unchecked conversion produces: zeros and
/// subnormals collapse to zero, everything else decodes exactly.
pub open spec fn trusted_decode(b: u64, n: nat) -> int {
    if f64_biased_exponent(b) == 0 {
        0
    } else {
        from_f64_bits_result(b, n)
    }
}

/// The bit pattern is a hand-verified literal for `n` fractional bits:
/// finite, and with enough exponent headroom.
pub open spec fn valid_trusted_bits(b: u64, n: nat) -> bool {
    &&& f64_biased_exponent(b) < 0x7FF
    &&& f64_biased_exponent(b) > 0 ==> 63 - (f64_biased_exponent(b) - 1023) > n
}

/// The bit pattern of half the double `b`: the exponent field
/// decremented.  A half that leaves the normal range collapses to a
/// (signed) zero — it is far below any usable fixed-point precision —
/// and non-finite values stay non-finite.
pub open spec fn half_bits_spec(b: u64) -> u64 {
    let e = f64_biased_exponent(b);
    if e == 0x7FF {
        b
    } else if e >= 2 {
        (b - 0x10_0000_0000_0000) as u64
    } else if f64_sign_negative(b) {
        0x8000_0000_0000_0000u64
    } else {
        0u64
    }
}

/// Halves an IEEE-754 double on its bit pattern, exactly as dividing by
/// two does for every value a fixed-point conversion can accept.
pub fn half_f64_bits(b: u64) -> (r: u64)
    ensures
        r == half_bits_spec(b),
{
    let e: u64 = (b / 0x10_0000_0000_0000) % 0x800;
    if e == 0x7FF {
        b
    } else if e >= 2 {
        b - 0x10_0000_0000_0000
    } else if b >= 0x8000_0000_0000_0000 {
        0x8000_0000_0000_0000
    } else {
        0
    }
}

/// The index of the highest set bit of `m`, for `m >= 1`.
pub open spec fn msb_index(m: nat) -> nat
    decreases m,
{
    if m < 2 {
        0
    } else {
        1 + msb_index(m / 2)
    }
}

/// The highest set bit brackets the value: `2^msb <= m < 2^(msb + 1)`.
proof fn lemma_msb_index_bounds(m: nat)
    requires
        m >= 1,
    ensures
        pow2(msb_index(m)) <= m < pow2(msb_index(m) + 1),
    decreases m,
{
    if m < 2 {
        lemma2_to64();
    } else {
        lemma_msb_index_bounds(m / 2);
        lemma_pow2_unfold(msb_index(m));
        lemma_pow2_unfold(msb_index(m) + 1);
    }
}

/// `msb_index` is the unique `i` with `2^i <= m < 2^(i + 1)`.
proof fn lemma_msb_index_of_range(m: nat, i: nat)
    requires
        pow2(i) <= m < pow2(i + 1),
    ensures
        msb_index(m) == i,
    decreases i,
{
    if i == 0 {
        lemma2_to64();
    } else {
        lemma_pow2_unfold(i);
        lemma_pow2_unfold(i + 1);
        lemma_msb_index_of_range(m / 2, (i - 1) as nat);
    }
}

/// Splits a well-formed IEEE-754 bit pattern back into its sign, exponent
/// and mantissa fields.
proof fn lemma_f64_field_decompose(s: int, ebits: int, m: int)
    requires
        0 <= s <= 1,
        0 <= ebits < 0x800,
        0 <= m < 0x10_0000_0000_0000,
    ensures
        ({
            let b = s * pow2(63) + ebits * pow2(52) + m;
            &&& 0 <= b < 0x1_0000_0000_0000_0000
            &&& b / pow2(63) as int == s
            &&& (b / pow2(52) as int) % pow2(11) as int == ebits
            &&& b % pow2(52) as int == m
        }),
{
    lemma2_to64();
    vstd::arithmetic::power2::lemma2_to64_rest();
    let b = s * pow2(63) + ebits * pow2(52) + m;
    lemma_fundamental_div_mod_converse(
        b,
        pow2(52) as int,
        s * 0x800 + ebits,
        m,
    );
    lemma_fundamental_div_mod_converse(
        s * 0x800 + ebits,
        pow2(11) as int,
        s,
        ebits,
    );
    lemma_fundamental_div_mod_converse(
        b,
        pow2(63) as int,
        s,
        ebits * pow2(52) + m,
    );
}

/// The IEEE-754 bit pattern produced from a backing integer: the sign bit
/// from the integer's sign, the exponent from its highest set bit, and the
/// mantissa from the remaining bits (truncated or padded to 52 bits).
pub open spec fn to_f64_bits_result(a: int, n: nat) -> int {
    if a == 0 {
        0
    } else {
        let mag = abs_int(a);
        let ie = msb_index(mag as nat);
        let expv = ie + 1023 - n;
        let explicit = if ie >= 52 {
            mag / pow2((ie - 52) as nat) as int
        } else {
            mag * pow2((52 - ie) as nat) as int
        };
        let sign_bit = if a < 0 {
            pow2(63) as int
        } else {
            0
        };
        sign_bit + expv * pow2(52) as int + (explicit - pow2(52) as int)
    }
}

/// The double's whole mantissa survives conversion to `n` fractional
/// bits: no set bit is shifted off below the precision (the represented
/// value times `2^n` is an integer).
pub open spec fn representable_at(b: u64, n: nat) -> bool {
    let shift = f64_biased_exponent(b) - 1023 + n - 52;
    shift >= 0 || (f64_mantissa_field(b) + pow2(52)) % pow2((-shift) as nat) as int == 0
}

/// Any `u64` is the recomposition of its sign, exponent and mantissa
/// fields.
proof fn lemma_f64_recompose(b: u64)
    ensures
        b as int == (if f64_sign_negative(b) {
            1int
        } else {
            0int
        }) * pow2(63) + f64_biased_exponent(b) * pow2(52) + f64_mantissa_field(b),
{
    lemma2_to64();
    vstd::arithmetic::power2::lemma2_to64_rest();
    lemma_fundamental_div_mod(b as int, 0x10_0000_0000_0000);
    lemma_fundamental_div_mod(b as int / 0x10_0000_0000_0000, 0x800);
    vstd::arithmetic::div_mod::lemma_div_denominator(b as int, 0x10_0000_0000_0000, 0x800);
    assert(b as int / 0x8000_0000_0000_0000 == (b as int / 0x10_0000_0000_0000) / 0x800);
}

/// Round-trip law: a fixed-point value obtained from a valid, in-range
/// double converts back to a double and again to fixed point without any
/// change to its backing integer.  The first conversion may shed mantissa
/// bits below the type's precision; after that, nothing is lost.  Where
/// nothing was shed in the first place (the double is representable at
/// `n` fractional bits, and is not a zero), even the bit pattern comes
/// back identical.
pub proof fn lemma_float_round_trip(bits: u64, n: nat)
    requires
        n < 63,
        0 < f64_biased_exponent(bits) < 0x7FF,
        63 - (f64_biased_exponent(bits) - 1023) > n,
    ensures
        from_f64_bits_result(bits, n) == 0 ==> to_f64_bits_result(0, n) == 0,
        from_f64_bits_result(bits, n) != 0 ==> ({
            let v = from_f64_bits_result(bits, n);
            let b2 = to_f64_bits_result(v, n);
            &&& 0 <= b2 < 0x1_0000_0000_0000_0000
            &&& f64_biased_exponent(b2 as u64) == f64_biased_exponent(bits)
            &&& from_f64_bits_result(b2 as u64, n) == v
        }),
        from_f64_bits_result(bits, n) != 0 && representable_at(bits, n)
            ==> to_f64_bits_result(from_f64_bits_result(bits, n), n) == bits,
{
    lemma2_to64();
    vstd::arithmetic::power2::lemma2_to64_rest();
    let e = f64_biased_exponent(bits) - 1023;
    let m = f64_mantissa_field(bits) + pow2(52);
    let shift = e + n - 52;
    let neg = f64_sign_negative(bits);
    let s: int = if neg {
        1
    } else {
        0
    };
    let v = from_f64_bits_result(bits, n);
    assert(pow2(52) <= m < pow2(53));
    if shift >= 0 {
        let mag = m * pow2(shift as nat);
        assert(abs_int(v) == mag && v != 0) by {
            vstd::arithmetic::mul::lemma_mul_inequality(
                pow2(52) as int,
                m,
                pow2(shift as nat) as int,
            );
            lemma_pow2_pos(shift as nat);
            lemma_pow2_pos(52);
            vstd::arithmetic::mul::lemma_mul_strictly_positive(m, pow2(shift as nat) as int);
        }
        assert(msb_index(mag as nat) == 52 + shift) by {
            vstd::arithmetic::mul::lemma_mul_inequality(
                pow2(52) as int,
                m,
                pow2(shift as nat) as int,
            );
            vstd::arithmetic::mul::lemma_mul_upper_bound(
                m,
                pow2(53) as int - 1,
                pow2(shift as nat) as int,
                pow2(shift as nat) as int,
            );
            lemma_pow2_adds(52, shift as nat);
            lemma_pow2_adds(53, shift as nat);
            vstd::arithmetic::mul::lemma_mul_is_distributive_sub(
                pow2(shift as nat) as int,
                pow2(53) as int,
                1,
            );
            vstd::arithmetic::mul::lemma_mul_is_commutative(pow2(shift as nat) as int, pow2(
                53,
            ) as int);
            lemma_pow2_pos(shift as nat);
            lemma_msb_index_of_range(mag as nat, (52 + shift) as nat);
        }
        let ie = msb_index(mag as nat);
        assert(mag / pow2((ie - 52) as nat) as int == m) by {
            lemma_pow2_pos(shift as nat);
            vstd::arithmetic::div_mod::lemma_div_multiples_vanish(
                m,
                pow2(shift as nat) as int,
            );
            vstd::arithmetic::mul::lemma_mul_is_commutative(m, pow2(shift as nat) as int);
        }
        let expv = ie + 1023 - n;
        assert(expv == e + 1023);
        let b2 = to_f64_bits_result(v, n);
        assert(b2 == s * pow2(63) + expv * pow2(52) + (m - pow2(52)));
        lemma_f64_field_decompose(s, expv, m - pow2(52) as int);
        assert(f64_biased_exponent(b2 as u64) == e + 1023);
        assert(f64_mantissa_field(b2 as u64) == m - pow2(52));
        assert(f64_sign_negative(b2 as u64) == neg);
        assert(from_f64_bits_result(b2 as u64, n) == v);
        lemma_f64_recompose(bits);
        assert(b2 == bits);
    } else {
        let k = (-shift) as nat;
        lemma_pow2_pos(k);
        let mag = m / pow2(k) as int;
        if k >= 53 {
            assert(m < pow2(k)) by {
                if k > 53 {
                    lemma_pow2_strictly_increases(53, k);
                }
            }
            assert(mag == 0) by {
                lemma_fundamental_div_mod_converse(m, pow2(k) as int, 0, m);
            }
            assert(v == 0);
        } else {
            assert(pow2((52 - k) as nat) <= mag < pow2((53 - k) as nat)) by {
                vstd::arithmetic::div_mod::lemma_div_is_ordered(
                    pow2(52) as int,
                    m,
                    pow2(k) as int,
                );
                vstd::arithmetic::power2::lemma_pow2_subtracts(k, 52);
                lemma_pow2_adds((53 - k) as nat, k);
                lemma_floor_div_tight(m, pow2(k) as int, pow2((53 - k) as nat) as int);
            }
            assert(abs_int(v) == mag && v != 0) by {
                lemma_pow2_pos((52 - k) as nat);
            }
            assert(msb_index(mag as nat) == 52 - k) by {
                lemma_msb_index_of_range(mag as nat, (52 - k) as nat);
            }
            let ie = msb_index(mag as nat);
            let explicit = mag * pow2((52 - ie) as nat) as int;
            assert(explicit == mag * pow2(k) as int);
            assert(pow2(52) <= explicit < pow2(53)) by {
                vstd::arithmetic::mul::lemma_mul_inequality(
                    pow2((52 - k) as nat) as int,
                    mag,
                    pow2(k) as int,
                );
                vstd::arithmetic::mul::lemma_mul_upper_bound(
                    mag,
                    pow2((53 - k) as nat) as int - 1,
                    pow2(k) as int,
                    pow2(k) as int,
                );
                lemma_pow2_adds((52 - k) as nat, k);
                lemma_pow2_adds((53 - k) as nat, k);
                vstd::arithmetic::mul::lemma_mul_is_distributive_sub(
                    pow2(k) as int,
                    pow2((53 - k) as nat) as int,
                    1,
                );
                vstd::arithmetic::mul::lemma_mul_is_commutative(pow2(k) as int, pow2(
                    (53 - k) as nat,
                ) as int);
            }
            let expv = ie + 1023 - n;
            assert(expv == e + 1023);
            let b2 = to_f64_bits_result(v, n);
            assert(b2 == s * pow2(63) + expv * pow2(52) + (explicit - pow2(52)));
            lemma_f64_field_decompose(s, expv, explicit - pow2(52) as int);
            assert(f64_biased_exponent(b2 as u64) == e + 1023);
            assert(f64_mantissa_field(b2 as u64) == explicit - pow2(52));
            assert(f64_sign_negative(b2 as u64) == neg);
            assert(explicit / pow2(k) as int == mag) by {
                vstd::arithmetic::div_mod::lemma_div_multiples_vanish(mag, pow2(k) as int);
                vstd::arithmetic::mul::lemma_mul_is_commutative(mag, pow2(k) as int);
            }
            assert(from_f64_bits_result(b2 as u64, n) == v);
            if m % pow2(k) as int == 0 {
                // nothing was shed: the shifted-off remainder is zero, so
                // the reconstructed mantissa is the original one
                lemma_fundamental_div_mod(m, pow2(k) as int);
                vstd::arithmetic::mul::lemma_mul_is_commutative(mag, pow2(k) as int);
                assert(explicit == m);
                lemma_f64_recompose(bits);
                assert(b2 == bits);
            }
        }
    }
}

/// `2^k` as a `u64`, for `k < 64`.
pub fn pow2_u64(k: u8) -> (r: u64)
    requires
        k < 64,
    ensures
        r == pow2(k as nat),
{
    proof {
        lemma_pow2_strictly_increases(k as nat, 64);
        lemma2_to64();
        vstd::arithmetic::power2::lemma2_to64_rest();
    }
    let mut r: u64 = 1;
    let mut i: u8 = 0;
    while i < k
        invariant
            i <= k,
            k < 64,
            r == pow2(i as nat),
            pow2(k as nat) < 0x1_0000_0000_0000_0000,
        decreases k - i,
    {
        proof {
            lemma_pow2_unfold((i + 1) as nat);
            if i + 1 < k {
                lemma_pow2_strictly_increases((i + 1) as nat, k as nat);
            }
        }
        r = r * 2;
        i = i + 1;
    }
    r
}

/// The index of the highest set bit of `m`, for `m >= 1`.
fn msb_u64(m: u64) -> (r: u8)
    requires
        m >= 1,
    ensures
        r == msb_index(m as nat),
        r < 64,
{
    proof {
        lemma_msb_index_bounds(m as nat);
        lemma2_to64();
        vstd::arithmetic::power2::lemma2_to64_rest();
        if msb_index(m as nat) >= 64 {
            if msb_index(m as nat) > 64 {
                lemma_pow2_strictly_increases(64, msb_index(m as nat));
            }
            assert(false);
        }
    }
    let mut v: u64 = m;
    let mut c: u8 = 0;
    while v >= 2
        invariant
            v >= 1,
            c + msb_index(v as nat) == msb_index(m as nat),
            msb_index(m as nat) < 64,
        decreases v,
    {
        v = v / 2;
        c = c + 1;
    }
    c
}

/// The backing integer after a precision change from `from` fractional
/// bits to `to`: a pure bit shift, left to gain precision, right to lose
/// it, never renormalizing.
pub open spec fn rescale_result(a: int, from: nat, to: nat) -> int {
    if from < to {
        a * pow2((to - from) as nat)
    } else {
        a / pow2((from - to) as nat) as int
    }
}

impl<const N: u8> FixedPoint<N> {
    /// The fixed-point number representing the integer `int_value`.
    pub fn from_int(int_value: i64) -> (r: Self)
        requires
            N < 63,
            i64::MIN <= int_value * pow2(N as nat) <= i64::MAX,
        ensures
            r@ == int_value * pow2(N as nat),
    {
        proof {
            lemma_pow2_pos(N as nat);
        }
        Self(int_value * pow2_i64(N))
    }

    /// The fixed-point number whose backing integer is exactly `int_value`.
    pub fn with_internal(int_value: i64) -> (r: Self)
        ensures
            r@ == int_value,
    {
        Self(int_value)
    }

    /// Converts the IEEE-754 double with bit pattern `bits` exactly, after
    /// validating it: non-finite inputs fail with `NonNumericInput`, and
    /// inputs whose binary exponent would not leave `N + 1` bits of
    /// headroom in the backing integer fail with `OutOfBounds`.  Zeros and
    /// subnormal inputs (far below the finest precision) collapse to zero.
    pub fn from_f64_bits(bits: u64) -> (r: Result<Self, FloatConversionError>)
        requires
            N < 63,
        ensures
            match from_f64_bits_spec(bits, N as nat) {
                Ok(i) => r matches Ok(v) && v@ == i,
                Err(e) => r matches Err(e2) && e2 == e,
            },
    {
        proof {
            lemma2_to64();
            vstd::arithmetic::power2::lemma2_to64_rest();
        }
        let exp_biased: u64 = (bits / 0x10_0000_0000_0000) % 0x800;
        if exp_biased == 0 {
            return Ok(FixedPoint(0));
        }
        if exp_biased == 0x7FF {
            return Err(FloatConversionError::NonNumericInput);
        }
        let exponent: i64 = (exp_biased as i64) - 1023;
        if 63 - exponent <= N as i64 {
            return Err(FloatConversionError::OutOfBounds);
        }
        Ok(Self::decode_in_range(bits))
    }

    /// Converts an IEEE-754 double bit pattern without the bounds check of
    /// [`Self::from_f64_bits`]; only for literals whose exponent has been
    /// verified by hand, which is what the precondition demands.
    pub fn from_f64_bits_trusted(bits: u64) -> (r: Self)
        requires
            N < 63,
            f64_biased_exponent(bits) < 0x7FF,
            f64_biased_exponent(bits) > 0 ==> 63 - (f64_biased_exponent(bits) - 1023) > N,
        ensures
            f64_biased_exponent(bits) == 0 ==> r@ == 0,
            f64_biased_exponent(bits) > 0 ==> r@ == from_f64_bits_result(bits, N as nat),
    {
        proof {
            lemma2_to64();
            vstd::arithmetic::power2::lemma2_to64_rest();
        }
        let exp_biased: u64 = (bits / 0x10_0000_0000_0000) % 0x800;
        if exp_biased == 0 {
            return FixedPoint(0);
        }
        Self::decode_in_range(bits)
    }

    /// Decodes a normal, in-range double: restores the implicit leading
    /// one, shifts the 53-bit mantissa into place, and applies the sign.
    fn decode_in_range(bits: u64) -> (r: Self)
        requires
            N < 63,
            0 < f64_biased_exponent(bits) < 0x7FF,
            63 - (f64_biased_exponent(bits) - 1023) > N,
        ensures
            r@ == from_f64_bits_result(bits, N as nat),
    {
        proof {
            lemma2_to64();
            vstd::arithmetic::power2::lemma2_to64_rest();
        }
        let exp_biased: u64 = (bits / 0x10_0000_0000_0000) % 0x800;
        let mantissa: u64 = bits % 0x10_0000_0000_0000 + 0x10_0000_0000_0000;
        let exponent: i64 = (exp_biased as i64) - 1023;
        let shift: i64 = exponent + (N as i64) - 52;
        let mag: u64 = if shift >= 0 {
            let p = pow2_u64(shift as u8);
            proof {
                if shift < 10 {
                    lemma_pow2_strictly_increases(shift as nat, 10);
                }
                vstd::arithmetic::mul::lemma_mul_upper_bound(
                    mantissa as int,
                    pow2(53) as int - 1,
                    p as int,
                    pow2(10) as int,
                );
                lemma_pow2_adds(53, 10);
            }
            mantissa * p
        } else if shift <= -53 {
            proof {
                if -shift > 53 {
                    lemma_pow2_strictly_increases(53, (-shift) as nat);
                }
                lemma_fundamental_div_mod_converse(
                    mantissa as int,
                    pow2((-shift) as nat) as int,
                    0,
                    mantissa as int,
                );
            }
            0
        } else {
            mantissa / pow2_u64((-shift) as u8)
        };
        if bits >= 0x8000_0000_0000_0000 {
            FixedPoint(-(mag as i64))
        } else {
            FixedPoint(mag as i64)
        }
    }

    /// Produces the bit pattern of the IEEE-754 double that represents
    /// `self`: the exponent is recovered from the backing integer's highest
    /// set bit and the mantissa from the remaining bits, so the conversion
    /// is exact whenever the backing integer has at most 53 significant
    /// bits.
    pub fn to_f64_bits(&self) -> (r: u64)
        requires
            N < 63,
        ensures
            r == to_f64_bits_result(self@, N as nat),
    {
        proof {
            lemma2_to64();
            vstd::arithmetic::power2::lemma2_to64_rest();
        }
        if self.0 == 0 {
            return 0;
        }
        let mag: u64 = if self.0 >= 0 {
            self.0 as u64
        } else {
            ((-(self.0 + 1)) as u64) + 1
        };
        let ie = msb_u64(mag);
        proof {
            lemma_msb_index_bounds(mag as nat);
        }
        let expv: u64 = ie as u64 + 1023 - N as u64;
        let explicit: u64 = if ie >= 52 {
            let p = pow2_u64(ie - 52);
            proof {
                lemma_pow2_adds(53, (ie - 52) as nat);
                lemma_floor_div_tight(mag as int, p as int, pow2(53) as int);
                vstd::arithmetic::div_mod::lemma_div_is_ordered(
                    pow2(ie as nat) as int,
                    mag as int,
                    p as int,
                );
                vstd::arithmetic::power2::lemma_pow2_subtracts((ie - 52) as nat, ie as nat);
            }
            mag / p
        } else {
            let p = pow2_u64(52 - ie);
            proof {
                vstd::arithmetic::mul::lemma_mul_inequality(
                    pow2(ie as nat) as int,
                    mag as int,
                    p as int,
                );
                vstd::arithmetic::mul::lemma_mul_upper_bound(
                    mag as int,
                    pow2((ie + 1) as nat) as int - 1,
                    p as int,
                    pow2((52 - ie) as nat) as int,
                );
                lemma_pow2_adds(ie as nat, (52 - ie) as nat);
                lemma_pow2_adds((ie + 1) as nat, (52 - ie) as nat);
                vstd::arithmetic::mul::lemma_mul_is_distributive_sub(
                    p as int,
                    pow2((ie + 1) as nat) as int,
                    1,
                );
                vstd::arithmetic::mul::lemma_mul_is_commutative(
                    p as int,
                    pow2((ie + 1) as nat) as int,
                );
            }
            mag * p
        };
        let ieee: u64 = explicit - 0x10_0000_0000_0000;
        let sign_bit: u64 = if self.0 < 0 {
            0x8000_0000_0000_0000
        } else {
            0
        };
        sign_bit + expv * 0x10_0000_0000_0000 + ieee
    }

    /// The magnitude of `self`; traps if the backing integer is `i64::MIN`.
    pub fn abs(&self) -> (r: Self)
        requires
            self@ > i64::MIN,
        ensures
            r@ == abs_int(self@),
    {
        if self.0 >= 0 {
            Self(self.0)
        } else {
            Self(-self.0)
        }
    }

    /// The negation of `self`; traps if the backing integer is `i64::MIN`.
    pub fn neg(self) -> (r: Self)
        requires
            self@ > i64::MIN,
        ensures
            r@ == -self@,
    {
        Self(-self.0)
    }

    /// Fixed-point addition; traps (rather than wrapping) on 64-bit
    /// overflow.
    pub fn add(self, rhs: Self) -> (r: Self)
        requires
            i64::MIN <= self@ + rhs@ <= i64::MAX,
        ensures
            r@ == self@ + rhs@,
    {
        Self(self.0 + rhs.0)
    }

    /// Fixed-point subtraction; traps (rather than wrapping) on 64-bit
    /// overflow.
    pub fn sub(self, rhs: Self) -> (r: Self)
        requires
            i64::MIN <= self@ - rhs@ <= i64::MAX,
        ensures
            r@ == self@ - rhs@,
    {
        Self(self.0 - rhs.0)
    }

    /// Total form of [`Self::add`]: `None` exactly where `add` would trap.
    pub fn checked_add(self, rhs: Self) -> (r: Option<Self>)
        ensures
            r is Some <==> i64::MIN <= self@ + rhs@ <= i64::MAX,
            r is Some ==> r->Some_0@ == self@ + rhs@,
    {
        match self.0.checked_add(rhs.0) {
            Some(v) => Some(Self(v)),
            None => None,
        }
    }

    /// Total form of [`Self::sub`]: `None` exactly where `sub` would trap.
    pub fn checked_sub(self, rhs: Self) -> (r: Option<Self>)
        ensures
            r is Some <==> i64::MIN <= self@ - rhs@ <= i64::MAX,
            r is Some ==> r->Some_0@ == self@ - rhs@,
    {
        match self.0.checked_sub(rhs.0) {
            Some(v) => Some(Self(v)),
            None => None,
        }
    }

    /// Fixed-point multiplication: the product is computed in 128-bit
    /// width, rescaled by `N` bits, and must fit back in 64 bits (traps
    /// otherwise).
    pub fn mul(self, rhs: Self) -> (r: Self)
        requires
            N < 63,
            -i64::MAX <= mul_result(self@, rhs@, N as nat) <= i64::MAX,
        ensures
            r@ == mul_result(self@, rhs@, N as nat),
    {
        match self.checked_mul(rhs) {
            Some(v) => v,
            None => {
                proof {
                    assert(false);
                }
                Self(0)
            },
        }
    }

    /// Total form of [`Self::mul`]: `None` exactly where `mul` would trap.
    pub fn checked_mul(self, rhs: Self) -> (r: Option<Self>)
        requires
            N < 63,
        ensures
            r is Some <==> -i64::MAX <= mul_result(self@, rhs@, N as nat) <= i64::MAX,
            r is Some ==> r->Some_0@ == mul_result(self@, rhs@, N as nat),
    {
        proof {
            lemma_i64_product_fits(self@, rhs@);
            lemma_pow2_pos(N as nat);
        }
        let wide = (self.0 as i128) * (rhs.0 as i128);
        let q = floor_div_i128(wide, pow2_u128(N));
        if -0x7FFF_FFFF_FFFF_FFFFi128 <= q && q <= 0x7FFF_FFFF_FFFF_FFFFi128 {
            Some(Self(q as i64))
        } else {
            None
        }
    }

    /// Fixed-point division: the dividend is widened by `N` bits before a
    /// truncating division; the quotient must fit back in 64 bits (traps
    /// otherwise).  Division by zero traps.
    pub fn div(self, rhs: Self) -> (r: Self)
        requires
            N < 63,
            rhs@ != 0,
            -i64::MAX <= div_result(self@, rhs@, N as nat) <= i64::MAX,
        ensures
            r@ == div_result(self@, rhs@, N as nat),
    {
        match self.checked_div(rhs) {
            Some(v) => v,
            None => {
                proof {
                    assert(false);
                }
                Self(0)
            },
        }
    }

    /// Total form of [`Self::div`]: `None` exactly where `div` would trap,
    /// including division by zero.
    pub fn checked_div(self, rhs: Self) -> (r: Option<Self>)
        requires
            N < 63,
        ensures
            r is Some <==> rhs@ != 0 && -i64::MAX <= div_result(self@, rhs@, N as nat)
                <= i64::MAX,
            r is Some ==> r->Some_0@ == div_result(self@, rhs@, N as nat),
    {
        if rhs.0 == 0 {
            return None;
        }
        let p = pow2_i64(N);
        proof {
            lemma_i64_product_fits(self@, p as int);
        }
        let wide = (self.0 as i128) * (p as i128);
        let q = trunc_div_i128(wide, rhs.0 as i128);
        if -0x7FFF_FFFF_FFFF_FFFFi128 <= q && q <= 0x7FFF_FFFF_FFFF_FFFFi128 {
            Some(Self(q as i64))
        } else {
            None
        }
    }

    /// Multiplies the backing integer by `2^amount`, used exclusively for
    /// applying a `Gravity` scale factor; traps if the result leaves the
    /// 64-bit range.
    pub fn lshift(&self, amount: u8) -> (r: Self)
        requires
            amount < 63,
            i64::MIN <= self@ * pow2(amount as nat) <= i64::MAX,
        ensures
            r@ == self@ * pow2(amount as nat),
    {
        proof {
            lemma_pow2_pos(amount as nat);
        }
        Self(self.0 * pow2_i64(amount))
    }

    /// Total form of [`Self::lshift`]: `None` exactly where `lshift` would
    /// trap.
    pub fn checked_lshift(&self, amount: u8) -> (r: Option<Self>)
        requires
            amount < 63,
        ensures
            r is Some <==> i64::MIN <= self@ * pow2(amount as nat) <= i64::MAX,
            r is Some ==> r->Some_0@ == self@ * pow2(amount as nat),
    {
        match self.0.checked_mul(pow2_i64(amount)) {
            Some(v) => Some(Self(v)),
            None => None,
        }
    }

    /// Divides the backing integer by `2^amount`, rounding towards
    /// negative infinity as an arithmetic right shift does.
    pub fn rshift(&self, amount: u8) -> (r: Self)
        requires
            amount < 64,
        ensures
            r@ == self@ / pow2(amount as nat) as int,
    {
        proof {
            lemma_pow2_pos(amount as nat);
            lemma_floor_div_stays_in_range(
                self@,
                pow2(amount as nat) as int,
                i64::MIN as int,
                i64::MAX as int,
            );
        }
        let q = floor_div_i128(self.0 as i128, pow2_u128(amount));
        Self(q as i64)
    }

    /// Converts to `StepFp` (40 fractional bits) by a pure bit shift; traps
    /// if precision is gained and the wider value does not fit.
    pub fn as_step_fp(self) -> (r: StepFp)
        requires
            N < 63,
            N < STEP_FIXED_POINT_DECIMAL_BITS ==> i64::MIN <= rescale_result(
                self@,
                N as nat,
                STEP_FIXED_POINT_DECIMAL_BITS as nat,
            ) <= i64::MAX,
        ensures
            r@ == rescale_result(self@, N as nat, STEP_FIXED_POINT_DECIMAL_BITS as nat),
    {
        match self.checked_as_step_fp() {
            Some(v) => v,
            None => {
                proof {
                    if N >= STEP_FIXED_POINT_DECIMAL_BITS {
                        lemma_pow2_pos((N - STEP_FIXED_POINT_DECIMAL_BITS) as nat);
                        lemma_floor_div_stays_in_range(
                            self@,
                            pow2((N - STEP_FIXED_POINT_DECIMAL_BITS) as nat) as int,
                            i64::MIN as int,
                            i64::MAX as int,
                        );
                    }
                    assert(false);
                }
                FixedPoint(0)
            },
        }
    }

    /// Total form of [`Self::as_step_fp`]: `None` exactly where
    /// `as_step_fp` would trap.
    pub fn checked_as_step_fp(self) -> (r: Option<StepFp>)
        requires
            N < 63,
        ensures
            r is Some <==> i64::MIN <= rescale_result(
                self@,
                N as nat,
                STEP_FIXED_POINT_DECIMAL_BITS as nat,
            ) <= i64::MAX,
            r is Some ==> r->Some_0@ == rescale_result(
                self@,
                N as nat,
                STEP_FIXED_POINT_DECIMAL_BITS as nat,
            ),
    {
        if N < STEP_FIXED_POINT_DECIMAL_BITS {
            match self.0.checked_mul(pow2_i64(STEP_FIXED_POINT_DECIMAL_BITS - N)) {
                Some(v) => Some(FixedPoint(v)),
                None => None,
            }
        } else {
            let shifted = self.rshift(N - STEP_FIXED_POINT_DECIMAL_BITS);
            Some(FixedPoint(shifted.0))
        }
    }

    /// Converts to `SolarFp` (6 fractional bits) by a pure bit shift,
    /// preserving the value as closely as possible; traps if precision is
    /// gained and the wider value does not fit.
    pub fn as_solar_fp(self) -> (r: SolarFp)
        requires
            N < 63,
            N < SOLAR_FIXED_POINT_DECIMAL_BITS ==> i64::MIN <= rescale_result(
                self@,
                N as nat,
                SOLAR_FIXED_POINT_DECIMAL_BITS as nat,
            ) <= i64::MAX,
        ensures
            r@ == rescale_result(self@, N as nat, SOLAR_FIXED_POINT_DECIMAL_BITS as nat),
    {
        if N < SOLAR_FIXED_POINT_DECIMAL_BITS {
            proof {
                lemma_pow2_pos((SOLAR_FIXED_POINT_DECIMAL_BITS - N) as nat);
            }
            FixedPoint(self.0 * pow2_i64(SOLAR_FIXED_POINT_DECIMAL_BITS - N))
        } else {
            let shifted = self.rshift(N - SOLAR_FIXED_POINT_DECIMAL_BITS);
            FixedPoint(shifted.0)
        }
    }

    /// Divides by a `SolarFp`, keeping `N` fractional bits in the
    /// quotient, then drops the scale surplus; used by the acceleration
    /// calculation.  Traps as [`Self::div`] does.
    pub fn div_by_solar(self, divisor: &SolarFp) -> (r: Self)
        requires
            SOLAR_FIXED_POINT_DECIMAL_BITS <= N < 63,
            divisor@ != 0,
            -i64::MAX <= div_result(self@, divisor@, N as nat) <= i64::MAX,
        ensures
            r@ == div_result(self@, divisor@, N as nat) / pow2(
                (N - SOLAR_FIXED_POINT_DECIMAL_BITS) as nat,
            ) as int,
    {
        let q = self.div(FixedPoint(divisor.0));
        q.rshift(N - SOLAR_FIXED_POINT_DECIMAL_BITS)
    }

    /// Total form of [`Self::div_by_solar`]: `None` exactly where
    /// `div_by_solar` would trap, including division by zero.
    pub fn checked_div_by_solar(self, divisor: &SolarFp) -> (r: Option<Self>)
        requires
            SOLAR_FIXED_POINT_DECIMAL_BITS <= N < 63,
        ensures
            r is Some <==> divisor@ != 0 && -i64::MAX <= div_result(self@, divisor@, N as nat)
                <= i64::MAX,
            r is Some ==> r->Some_0@ == div_result(self@, divisor@, N as nat) / pow2(
                (N - SOLAR_FIXED_POINT_DECIMAL_BITS) as nat,
            ) as int,
    {
        match self.checked_div(FixedPoint(divisor.0)) {
            Some(q) => Some(q.rshift(N - SOLAR_FIXED_POINT_DECIMAL_BITS)),
            None => None,
        }
    }
}

impl UnitFp {
    /// Scales a unit-precision value by a scalar of arbitrary precision
    /// `N`, widening to 128 bits and shedding the unit precision, so the
    /// result keeps the scalar's precision.  Traps if significant bits
    /// would be lost off the top.
    pub fn scale_by_other<const N: u8>(self, scalar: FixedPoint<N>) -> (r: FixedPoint<N>)
        requires
            abs_int(self@ * scalar@) < pow2(123),
        ensures
            r@ == (self@ * scalar@) / pow2(UNIT_FIXED_POINT_DECIMAL_BITS as nat) as int,
    {
        match self.checked_scale_by_other(scalar) {
            Some(v) => v,
            None => {
                proof {
                    assert(false);
                }
                FixedPoint(0)
            },
        }
    }

    /// Total form of [`Self::scale_by_other`]: `None` exactly where
    /// `scale_by_other` would trap.
    pub fn checked_scale_by_other<const N: u8>(self, scalar: FixedPoint<N>) -> (r: Option<
        FixedPoint<N>,
    >)
        ensures
            r is Some <==> abs_int(self@ * scalar@) < pow2(123),
            r is Some ==> r->Some_0@ == (self@ * scalar@) / pow2(
                UNIT_FIXED_POINT_DECIMAL_BITS as nat,
            ) as int,
    {
        proof {
            lemma_i64_product_fits(self@, scalar@);
            lemma_pow2_pos(60);
            lemma_pow2_strictly_increases(123, 127);
            lemma2_to64();
            vstd::arithmetic::power2::lemma2_to64_rest();
            lemma_pow2_adds(63, 60);
            lemma_pow2_adds(63, 64);
        }
        let wide = (self.0 as i128) * (scalar.0 as i128);
        if abs_u128(wide) >= pow2_u128(123) {
            return None;
        }
        proof {
            lemma_pow2_adds(63, 60);
            lemma_floor_div_tight(wide as int, pow2(60) as int, pow2(63) as int);
        }
        let q = floor_div_i128(wide, pow2_u128(UNIT_FIXED_POINT_DECIMAL_BITS));
        Some(FixedPoint(q as i64))
    }
}

} // verus!
