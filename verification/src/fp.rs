//! IEEE-754 binary64 values, carried as their bit patterns in `u64`.
//!
//! The fit algorithm is ordinary binary64 arithmetic.  Here every value is
//! represented by its bit pattern, and each arithmetic operation stands
//! behind a small trusted function whose result is named by an
//! uninterpreted spec function: the same operand bits give the same result
//! bits in every run.  The arithmetic itself is done by rustc_apfloat,
//! a software implementation of IEEE-754, with round-to-nearest-ties-to-even;
//! the facts stated beside the names are limited to direct consequences of
//! correct rounding (a correctly rounded operation is monotone, and returns
//! representable results exactly).
//!
//! Comparisons, absolute value, maximum and minimum are pure functions of
//! the bit patterns that a few lines state in full; they are written as
//! verified code against those statements.
use vstd::prelude::*;
use rustc_apfloat::Float;

verus! {

/// Bit patterns at or above this value have the sign bit set.
pub const SIGN_MASK: u64 = 0x8000_0000_0000_0000;

/// Bit pattern of `+0.0`.
pub const POS_ZERO: u64 = 0x0000_0000_0000_0000;

/// Bit pattern of `-0.0`.
pub const NEG_ZERO: u64 = 0x8000_0000_0000_0000;

/// Bit pattern of positive infinity.
pub const POS_INF_BITS: u64 = 0x7FF0_0000_0000_0000;

/// Bit pattern of negative infinity.
pub const NEG_INF_BITS: u64 = 0xFFF0_0000_0000_0000;

/// Bit pattern of `1.0`.
pub const ONE_BITS: u64 = 0x3FF0_0000_0000_0000;

/// A quiet NaN, used to seed the NaN-discarding maximum folds.
pub const NAN_SEED: u64 = 0x7FF8_0000_0000_0000;

/// Bit pattern of `0.5`.
pub const HALF_BITS: u64 = 0x3FE0_0000_0000_0000;

/// Added to a halved pattern, this seeds the square-root iteration near
/// the right binade.
pub const SQRT_SEED_BITS: u64 = 0x1FF8_0000_0000_0000;

/// The sign bit of the pattern `a` is set.
pub open spec fn sign_bit(a: u64) -> bool {
    a >= SIGN_MASK
}

/// `a` is the pattern of a NaN: exponent all ones, mantissa nonzero.
pub open spec fn is_nan(a: u64) -> bool {
    (POS_INF_BITS < a && a < SIGN_MASK) || a > NEG_INF_BITS
}

/// `a` has sign bit zero and is not a NaN (it is `+0.0`, a positive
/// finite number, or positive infinity).  For two such patterns the
/// numeric order coincides with the order of the patterns as integers.
pub open spec fn is_pos(a: u64) -> bool {
    a <= POS_INF_BITS
}

/// `a` is the pattern of a finite number.
pub open spec fn is_finite(a: u64) -> bool {
    a < POS_INF_BITS || (SIGN_MASK <= a && a < NEG_INF_BITS)
}

/// `a` is the pattern of `+0.0` or `-0.0`.
pub open spec fn is_zero(a: u64) -> bool {
    a == POS_ZERO || a == NEG_ZERO
}

/// The IEEE-754 ordered comparison `a > b` on bit patterns: false when
/// either side is a NaN, the two zeros are equal, otherwise the signs
/// and the pattern order decide.
pub open spec fn f64_gt(a: u64, b: u64) -> bool {
    if is_nan(a) || is_nan(b) {
        false
    } else if is_zero(a) && is_zero(b) {
        false
    } else if !sign_bit(a) && sign_bit(b) {
        true
    } else if sign_bit(a) && !sign_bit(b) {
        false
    } else if !sign_bit(a) {
        a > b
    } else {
        a < b
    }
}

/// The IEEE-754 ordered comparison `a < b` on bit patterns.
pub open spec fn f64_lt(a: u64, b: u64) -> bool {
    f64_gt(b, a)
}

/// The pattern of `a` with the sign bit cleared.
pub open spec fn abs_bits(a: u64) -> u64 {
    if a >= SIGN_MASK {
        (a - SIGN_MASK) as u64
    } else {
        a
    }
}

/// The NaN-discarding maximum: the other operand when one is a NaN, else
/// the numerically larger one.
pub open spec fn max_bits(a: u64, b: u64) -> u64 {
    if is_nan(a) {
        b
    } else if is_nan(b) {
        a
    } else if f64_gt(b, a) {
        b
    } else {
        a
    }
}

/// The NaN-discarding minimum: the other operand when one is a NaN, else
/// the numerically smaller one.
pub open spec fn min_bits(a: u64, b: u64) -> u64 {
    if is_nan(a) {
        b
    } else if is_nan(b) {
        a
    } else if f64_lt(b, a) {
        b
    } else {
        a
    }
}

pub uninterp spec fn add_bits(a: u64, b: u64) -> u64;

pub uninterp spec fn sub_bits(a: u64, b: u64) -> u64;

pub uninterp spec fn mul_bits(a: u64, b: u64) -> u64;

pub uninterp spec fn div_bits(a: u64, b: u64) -> u64;

pub uninterp spec fn usize_to_f64_bits(n: usize) -> u64;

/// Relies on rustc_apfloat's binary64 addition: correctly rounded per
/// IEEE-754, a function of the operand bits alone.  Adding `+0.0` to a
/// value other than `-0.0` returns it unchanged (the exact sum is
/// representable).
#[verifier::external_body]
pub fn fadd(a: u64, b: u64) -> (r: u64)
    ensures
        r == add_bits(a, b),
        !is_nan(a) && a != NEG_ZERO && b == POS_ZERO ==> r == a,
{
    rustc_apfloat::ieee::Double::from_bits(a as u128)
        .add_r(rustc_apfloat::ieee::Double::from_bits(b as u128), rustc_apfloat::Round::NearestTiesToEven)
        .value
        .to_bits() as u64
}

/// Relies on rustc_apfloat's binary64 subtraction: correctly rounded
/// per IEEE-754.  A positive difference forces `a > b` (rounding is
/// monotone and zero is representable); a finite value minus itself is
/// exactly `+0.0`; subtracting `+0.0` from a non-NaN value returns it
/// unchanged.
#[verifier::external_body]
pub fn fsub(a: u64, b: u64) -> (r: u64)
    ensures
        r == sub_bits(a, b),
        f64_gt(r, POS_ZERO) ==> f64_gt(a, b),
        is_finite(a) && a == b ==> r == POS_ZERO,
        !is_nan(a) && b == POS_ZERO ==> r == a,
{
    rustc_apfloat::ieee::Double::from_bits(a as u128)
        .sub_r(rustc_apfloat::ieee::Double::from_bits(b as u128), rustc_apfloat::Round::NearestTiesToEven)
        .value
        .to_bits() as u64
}

/// Relies on rustc_apfloat's binary64 multiplication: correctly
/// rounded per IEEE-754.  A value with sign bit zero times a finite
/// factor of at least one does not shrink (monotone rounding) and stays
/// non-NaN with sign bit zero; `+0.0 * +0.0` is exactly `+0.0`.
#[verifier::external_body]
pub fn fmul(a: u64, b: u64) -> (r: u64)
    ensures
        r == mul_bits(a, b),
        is_pos(a) && ONE_BITS <= b && b < POS_INF_BITS ==> is_pos(r) && a <= r,
        a == POS_ZERO && b == POS_ZERO ==> r == POS_ZERO,
{
    rustc_apfloat::ieee::Double::from_bits(a as u128)
        .mul_r(rustc_apfloat::ieee::Double::from_bits(b as u128), rustc_apfloat::Round::NearestTiesToEven)
        .value
        .to_bits() as u64
}

/// Relies on rustc_apfloat's binary64 division: correctly rounded per
/// IEEE-754.  Dividing a value with sign bit zero by a finite divisor of
/// at least one does not grow it and stays non-NaN with sign bit zero; a
/// positive quotient under a positive divisor forces a positive dividend;
/// `+0.0` divided by a positive nonzero value is exactly `+0.0`.
#[verifier::external_body]
pub fn fdiv(a: u64, b: u64) -> (r: u64)
    ensures
        r == div_bits(a, b),
        is_pos(a) && ONE_BITS <= b && b < POS_INF_BITS ==> is_pos(r) && r <= a,
        f64_gt(r, POS_ZERO) && f64_gt(b, POS_ZERO) ==> f64_gt(a, POS_ZERO),
        a == POS_ZERO && is_pos(b) && b != POS_ZERO ==> r == POS_ZERO,
{
    rustc_apfloat::ieee::Double::from_bits(a as u128)
        .div_r(rustc_apfloat::ieee::Double::from_bits(b as u128), rustc_apfloat::Round::NearestTiesToEven)
        .value
        .to_bits() as u64
}

/// Relies on rustc_apfloat's conversion from an unsigned integer:
/// rounding of the integer to the nearest binary64, a function of the
/// integer alone.
#[verifier::external_body]
pub fn f_from_usize(n: usize) -> (r: u64)
    ensures
        r == usize_to_f64_bits(n),
{
    rustc_apfloat::ieee::Double::from_u128_r(n as u128, rustc_apfloat::Round::NearestTiesToEven)
        .value
        .to_bits() as u64
}


/// One Newton step for the square root of `a`: `(x + a/x) / 2`.
pub open spec fn sqrt_step(x: u64, a: u64) -> u64 {
    mul_bits(add_bits(x, div_bits(a, x)), HALF_BITS)
}

/// `n` Newton steps for the square root of `a`, starting from `x`.
pub open spec fn sqrt_iter(x: u64, a: u64, n: nat) -> u64
    decreases n,
{
    if n == 0 {
        x
    } else {
        sqrt_iter(sqrt_step(x, a), a, (n - 1) as nat)
    }
}

/// The library's square root: exact on zeros and infinity, NaN for NaN or
/// negative input, and on a positive finite pattern eight Newton steps
/// from a seed whose exponent is about half the input's.
pub open spec fn sqrt_bits(a: u64) -> u64 {
    if a == POS_ZERO || a == NEG_ZERO {
        a
    } else if is_nan(a) || sign_bit(a) {
        NAN_SEED
    } else if a == POS_INF_BITS {
        POS_INF_BITS
    } else {
        sqrt_iter((a / 2 + SQRT_SEED_BITS) as u64, a, 8)
    }
}

/// The square root of `a`, by Newton iteration on the wrapped arithmetic.
pub fn fsqrt(a: u64) -> (r: u64)
    ensures
        r == sqrt_bits(a),
{
    if a == POS_ZERO || a == NEG_ZERO {
        a
    } else if is_nan_exec(a) || a >= SIGN_MASK {
        NAN_SEED
    } else if a == POS_INF_BITS {
        POS_INF_BITS
    } else {
        let mut x: u64 = a / 2 + SQRT_SEED_BITS;
        let mut i: usize = 0;
        while i < 8
            invariant
                x == sqrt_iter((a / 2 + SQRT_SEED_BITS) as u64, a, i as nat),
                i <= 8,
            decreases 8 - i,
        {
            x = fmul(fadd(x, fdiv(a, x)), HALF_BITS);
            i = i + 1;
            proof {
                lemma_sqrt_iter_snoc((a / 2 + SQRT_SEED_BITS) as u64, a, i as nat);
            }
        }
        x
    }
}

proof fn lemma_sqrt_iter_snoc(x: u64, a: u64, n: nat)
    requires
        n >= 1,
    ensures
        sqrt_iter(x, a, n) == sqrt_step(sqrt_iter(x, a, (n - 1) as nat), a),
    decreases n,
{
    reveal_with_fuel(sqrt_iter, 2);
    if n > 1 {
        lemma_sqrt_iter_snoc(sqrt_step(x, a), a, (n - 1) as nat);
    }
}

/// The ordered comparison `a > b`, computed on the bit patterns.
pub fn fgt(a: u64, b: u64) -> (r: bool)
    ensures
        r == f64_gt(a, b),
{
    if is_nan_exec(a) || is_nan_exec(b) {
        false
    } else if (a == POS_ZERO || a == NEG_ZERO) && (b == POS_ZERO || b == NEG_ZERO) {
        false
    } else if a < SIGN_MASK && b >= SIGN_MASK {
        true
    } else if a >= SIGN_MASK && b < SIGN_MASK {
        false
    } else if a < SIGN_MASK {
        a > b
    } else {
        a < b
    }
}

/// The ordered comparison `a < b`, computed on the bit patterns.
pub fn flt(a: u64, b: u64) -> (r: bool)
    ensures
        r == f64_lt(a, b),
{
    fgt(b, a)
}

/// Whether `a` is the pattern of a NaN.
pub fn is_nan_exec(a: u64) -> (r: bool)
    ensures
        r == is_nan(a),
{
    (POS_INF_BITS < a && a < SIGN_MASK) || a > NEG_INF_BITS
}

/// The pattern of `a` with the sign bit cleared.
pub fn fabs(a: u64) -> (r: u64)
    ensures
        r == abs_bits(a),
{
    if a >= SIGN_MASK {
        a - SIGN_MASK
    } else {
        a
    }
}

/// The NaN-discarding maximum of two values.
pub fn fmax(a: u64, b: u64) -> (r: u64)
    ensures
        r == max_bits(a, b),
{
    if is_nan_exec(a) {
        b
    } else if is_nan_exec(b) {
        a
    } else if fgt(b, a) {
        b
    } else {
        a
    }
}

/// The NaN-discarding minimum of two values.
pub fn fmin(a: u64, b: u64) -> (r: u64)
    ensures
        r == min_bits(a, b),
{
    if is_nan_exec(a) {
        b
    } else if is_nan_exec(b) {
        a
    } else if flt(b, a) {
        b
    } else {
        a
    }
}

} // verus!
