//! The arbitrary-precision arithmetic that the decimal tier rests on.
//!
//! Every function here hands plain parts `(significand, exponent)` to
//! `dashu_float` and takes plain parts back. Their contracts are not
//! proved: they state what the arithmetic crate computes.
//!
//! An operand is rebuilt as an `FBig` in base 2 that rounds toward zero:
//! `Repr::new` takes the parts, `FBig::from_repr_const` makes a number of
//! unlimited precision of them, and `FBig::with_precision` sets the working
//! precision, which rounds nothing when the precision was unlimited. A
//! result is taken apart with `FBig::into_repr` and `Repr::into_parts`; it
//! is nothing where its parts do not fit the machine integers.
//!
//! The arithmetic panics where an exponent leaves its machine integer, on a
//! division by zero, and on a power outside the real numbers. The
//! preconditions keep every operand within the range of
//! [`Dyadic::in_range`], far inside the exponents of the machine, and leave
//! out the operands of a power that could leave that range on the way.

use vstd::prelude::*;
use vstd::arithmetic::power2::pow2;
use dashu_float::FBig;
use dashu_float::Repr;
use dashu_float::round::mode::Zero;
use crate::number::Dyadic;
use crate::number::REAL_PRECISION;
use crate::number::EXACT_LIMIT;

verus! {

/// A power is computed only where the binary logarithm of its result is
/// below this bound in magnitude, `2^25`.
pub const POWER_LIMIT: i128 = 0x200_0000;

/// The number that the parts `(significand, exponent)` stand for.
pub open spec fn dyadic(parts: (i128, i64)) -> Dyadic {
    Dyadic { significand: parts.0 as int, exponent: parts.1 as int }
}

/// The number fits the machine integers that carry its parts.
pub open spec fn holds(d: Dyadic) -> bool {
    i128::MIN <= d.significand <= i128::MAX && i64::MIN <= d.exponent <= i64::MAX
}

/// What a call returned for the number `d` that the arithmetic computed:
/// its parts, or nothing where they do not fit.
pub open spec fn returned(r: Option<(i128, i64)>, d: Dyadic) -> bool {
    match r {
        Some(parts) => dyadic(parts) == d,
        None => !holds(d),
    }
}

/// The number of bits of the magnitude `m`.
pub open spec fn bit_length(m: nat) -> nat
    decreases m,
{
    if m == 0 {
        0
    } else {
        1 + bit_length(m / 2)
    }
}

/// The magnitude of an integer.
pub open spec fn magnitude(n: int) -> nat {
    if n < 0 {
        (-n) as nat
    } else {
        n as nat
    }
}

/// The least number of bits that count up to `m`: the binary logarithm of
/// `m`, rounded up.
pub open spec fn log_ceiling(m: nat) -> nat {
    if m == 0 {
        0
    } else {
        bit_length((m - 1) as nat)
    }
}

/// A bound on the magnitude of the binary logarithm of a non-zero number:
/// the magnitude of its exponent and the logarithm of its significand.
pub open spec fn span(d: Dyadic) -> nat {
    magnitude(d.exponent) + log_ceiling(magnitude(d.significand))
}

/// The integer power `base^n` is one that the arithmetic computes: it
/// inverts no zero, and the logarithm of the result is within
/// [`POWER_LIMIT`].
pub open spec fn integer_power_supported(base: Dyadic, n: int) -> bool {
    &&& n < 0 ==> base.significand != 0
    &&& magnitude(n) * span(base) <= POWER_LIMIT
}

/// The power `base^exponent` is one that the arithmetic computes: the
/// exponent is zero or one, or the base is zero, or the base is positive
/// and the product of the exponent, which is below `2^reach` in magnitude,
/// and the logarithm of the base is within [`POWER_LIMIT`].
pub open spec fn power_supported(base: Dyadic, exponent: Dyadic) -> bool {
    ||| exponent == Dyadic::zero()
    ||| exponent == Dyadic::one()
    ||| base == Dyadic::zero()
    ||| {
        &&& base.significand > 0
        &&& {
            let reach = exponent.exponent + bit_length(magnitude(exponent.significand));
            reach <= 0 || (reach <= 25 && span(base) * pow2(reach as nat) <= POWER_LIMIT)
        }
    }
}

/// `a + b`, rounded toward zero at the working precision.
pub uninterp spec fn decimal_sum(a: Dyadic, b: Dyadic) -> Dyadic;

/// `a - b`, rounded toward zero at the working precision.
pub uninterp spec fn decimal_difference(a: Dyadic, b: Dyadic) -> Dyadic;

/// `a * b`, rounded toward zero at the working precision.
pub uninterp spec fn decimal_product(a: Dyadic, b: Dyadic) -> Dyadic;

/// `a / b`, rounded toward zero at the working precision.
pub uninterp spec fn decimal_quotient(a: Dyadic, b: Dyadic) -> Dyadic;

/// `base^n` for an integer `n`, at the working precision.
pub uninterp spec fn decimal_integer_power(base: Dyadic, n: int) -> Dyadic;

/// `base^exponent`, computed as `exp(exponent * ln(base))` at the working
/// precision.
pub uninterp spec fn decimal_power(base: Dyadic, exponent: Dyadic) -> Dyadic;

/// The decimal expansion of `a` as text.
pub uninterp spec fn decimal_text(a: Dyadic) -> Seq<char>;

/// Calls `dashu_float`'s `FBig + FBig` on two numbers of precision
/// [`REAL_PRECISION`], base 2, rounding toward zero.
///
/// Claimed: the result is a function of the operands; and the sum of two
/// integers is exact, in normal form, when it is at most `2^126` in
/// magnitude and so needs no more bits than the working precision.
#[verifier::external_body]
pub(crate) fn sum(a: (i128, i64), b: (i128, i64)) -> (r: Option<(i128, i64)>)
    requires
        dyadic(a).in_range(),
        dyadic(b).in_range(),
    ensures
        returned(r, decimal_sum(dyadic(a), dyadic(b))),
        a.1 >= 0 && b.1 >= 0 && -EXACT_LIMIT <= dyadic(a).integer() + dyadic(b).integer()
            <= EXACT_LIMIT ==> r is Some && dyadic(r->0) == Dyadic::of_int(
            dyadic(a).integer() + dyadic(b).integer(),
        ),
{
    let x = FBig::<Zero>::from_repr_const(Repr::new(a.0.into(), a.1 as isize));
    let y = FBig::<Zero>::from_repr_const(Repr::new(b.0.into(), b.1 as isize));
    let x = x.with_precision(REAL_PRECISION).value();
    let y = y.with_precision(REAL_PRECISION).value();
    let (significand, exponent) = (x + y).into_repr().into_parts();
    match (i128::try_from(significand), i64::try_from(exponent)) {
        (Ok(s), Ok(e)) => Some((s, e)),
        _ => None,
    }
}

/// Calls `dashu_float`'s `FBig - FBig` on two numbers of precision
/// [`REAL_PRECISION`], base 2, rounding toward zero.
///
/// Claimed: the result is a function of the operands; and the difference
/// of two integers is exact, in normal form, when it is at most `2^126`
/// in magnitude and so needs no more bits than the working precision.
#[verifier::external_body]
pub(crate) fn difference(a: (i128, i64), b: (i128, i64)) -> (r: Option<(i128, i64)>)
    requires
        dyadic(a).in_range(),
        dyadic(b).in_range(),
    ensures
        returned(r, decimal_difference(dyadic(a), dyadic(b))),
        a.1 >= 0 && b.1 >= 0 && -EXACT_LIMIT <= dyadic(a).integer() - dyadic(b).integer()
            <= EXACT_LIMIT ==> r is Some && dyadic(r->0) == Dyadic::of_int(
            dyadic(a).integer() - dyadic(b).integer(),
        ),
{
    let x = FBig::<Zero>::from_repr_const(Repr::new(a.0.into(), a.1 as isize));
    let y = FBig::<Zero>::from_repr_const(Repr::new(b.0.into(), b.1 as isize));
    let x = x.with_precision(REAL_PRECISION).value();
    let y = y.with_precision(REAL_PRECISION).value();
    let (significand, exponent) = (x - y).into_repr().into_parts();
    match (i128::try_from(significand), i64::try_from(exponent)) {
        (Ok(s), Ok(e)) => Some((s, e)),
        _ => None,
    }
}

/// Calls `dashu_float`'s `FBig * FBig` on two numbers of precision
/// [`REAL_PRECISION`], base 2, rounding toward zero.
///
/// Claimed: the result is a function of the operands; and the product of
/// two integers is exact, in normal form, when it is at most `2^126` in
/// magnitude and so needs no more bits than the working precision.
#[verifier::external_body]
pub(crate) fn product(a: (i128, i64), b: (i128, i64)) -> (r: Option<(i128, i64)>)
    requires
        dyadic(a).in_range(),
        dyadic(b).in_range(),
    ensures
        returned(r, decimal_product(dyadic(a), dyadic(b))),
        a.1 >= 0 && b.1 >= 0 && -EXACT_LIMIT <= dyadic(a).integer() * dyadic(b).integer()
            <= EXACT_LIMIT ==> r is Some && dyadic(r->0) == Dyadic::of_int(
            dyadic(a).integer() * dyadic(b).integer(),
        ),
{
    let x = FBig::<Zero>::from_repr_const(Repr::new(a.0.into(), a.1 as isize));
    let y = FBig::<Zero>::from_repr_const(Repr::new(b.0.into(), b.1 as isize));
    let x = x.with_precision(REAL_PRECISION).value();
    let y = y.with_precision(REAL_PRECISION).value();
    let (significand, exponent) = (x * y).into_repr().into_parts();
    match (i128::try_from(significand), i64::try_from(exponent)) {
        (Ok(s), Ok(e)) => Some((s, e)),
        _ => None,
    }
}

/// Calls `dashu_float`'s `FBig / FBig` on two numbers of precision
/// [`REAL_PRECISION`], base 2, rounding toward zero. The division panics
/// on a zero divisor, which the precondition leaves out.
///
/// Claimed: the result is a function of the operands.
#[verifier::external_body]
pub(crate) fn quotient(a: (i128, i64), b: (i128, i64)) -> (r: Option<(i128, i64)>)
    requires
        dyadic(a).in_range(),
        dyadic(b).in_range(),
        b.0 != 0,
    ensures
        returned(r, decimal_quotient(dyadic(a), dyadic(b))),
{
    let x = FBig::<Zero>::from_repr_const(Repr::new(a.0.into(), a.1 as isize));
    let y = FBig::<Zero>::from_repr_const(Repr::new(b.0.into(), b.1 as isize));
    let x = x.with_precision(REAL_PRECISION).value();
    let y = y.with_precision(REAL_PRECISION).value();
    let (significand, exponent) = (x / y).into_repr().into_parts();
    match (i128::try_from(significand), i64::try_from(exponent)) {
        (Ok(s), Ok(e)) => Some((s, e)),
        _ => None,
    }
}

/// Calls `dashu_float`'s `FBig::powi` on a number of precision
/// [`REAL_PRECISION`], base 2, rounding toward zero. It inverts the power
/// for a negative `n`, and its exponents grow with `n`: the precondition
/// leaves out a zero base under a negative `n` and operands whose result
/// could leave the exponent range.
///
/// Claimed: the result is a function of the operands.
#[verifier::external_body]
pub(crate) fn integer_power(base: (i128, i64), n: i64) -> (r: Option<(i128, i64)>)
    requires
        dyadic(base).in_range(),
        integer_power_supported(dyadic(base), n as int),
    ensures
        returned(r, decimal_integer_power(dyadic(base), n as int)),
{
    let x = FBig::<Zero>::from_repr_const(Repr::new(base.0.into(), base.1 as isize));
    let x = x.with_precision(REAL_PRECISION).value();
    let (significand, exponent) = x.powi(n.into()).into_repr().into_parts();
    match (i128::try_from(significand), i64::try_from(exponent)) {
        (Ok(s), Ok(e)) => Some((s, e)),
        _ => None,
    }
}

/// Calls `dashu_float`'s `FBig::powf` on two numbers of precision
/// [`REAL_PRECISION`], base 2, rounding toward zero. It panics on a
/// negative base unless the exponent is zero or one, and on a result
/// outside the exponent range; the precondition leaves both out.
///
/// Claimed: the result is a function of the operands.
#[verifier::external_body]
pub(crate) fn power(base: (i128, i64), exponent: (i128, i64)) -> (r: Option<(i128, i64)>)
    requires
        dyadic(base).in_range(),
        dyadic(exponent).in_range(),
        power_supported(dyadic(base), dyadic(exponent)),
    ensures
        returned(r, decimal_power(dyadic(base), dyadic(exponent))),
{
    let x = FBig::<Zero>::from_repr_const(Repr::new(base.0.into(), base.1 as isize));
    let y = FBig::<Zero>::from_repr_const(Repr::new(exponent.0.into(), exponent.1 as isize));
    let x = x.with_precision(REAL_PRECISION).value();
    let y = y.with_precision(REAL_PRECISION).value();
    let (significand, exponent) = x.powf(&y).into_repr().into_parts();
    match (i128::try_from(significand), i64::try_from(exponent)) {
        (Ok(s), Ok(e)) => Some((s, e)),
        _ => None,
    }
}

/// Calls `dashu_float`'s `FBig::to_decimal` on a number of precision
/// [`REAL_PRECISION`] and formats the decimal number it gives.
///
/// Claimed: the text is a function of the number.
#[verifier::external_body]
pub(crate) fn text(a: (i128, i64)) -> (r: String)
    requires
        dyadic(a).in_range(),
    ensures
        r@ == decimal_text(dyadic(a)),
{
    let x = FBig::<Zero>::from_repr_const(Repr::new(a.0.into(), a.1 as isize));
    let x = x.with_precision(REAL_PRECISION).value();
    x.to_decimal().value().to_string()
}

} // verus!
