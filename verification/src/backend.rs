//! The arithmetic backend: decimal arithmetic, done by the `bigdecimal` crate.
//!
//! Each function here converts its arguments, makes one call into
//! `bigdecimal` and converts the result back. Verus does not read the bodies:
//! the contracts state what the crate's operations are taken to do. A mantissa
//! is taken to have far fewer than 10^18 bytes, as any that fits in memory has.

use crate::literal::{begins_with_point_minus, is_number_text, is_plain_literal, literal_value};
use crate::number::{Decimal, Number};
use bigdecimal::num_bigint::BigInt;
use bigdecimal::{BigDecimal, ParseBigDecimalError, ToPrimitive};
use std::str::FromStr;
use vstd::prelude::*;

verus! {

/// The error of `bigdecimal`'s parser. Nothing is read from it.
#[verifier::external_type_specification]
#[verifier::external_body]
pub struct ExParseBigDecimalError(ParseBigDecimalError);

/// What `BigDecimal::from_str` makes of a text: the number, or nothing where
/// it rejects the text.
pub uninterp spec fn parsed_decimal(text: Seq<char>) -> Option<Decimal>;

/// What `BigDecimal`'s multiplication returns for two numbers.
pub uninterp spec fn decimal_product(a: Decimal, b: Decimal) -> Decimal;

/// What `BigDecimal`'s division returns for a dividend and a divisor that is
/// not zero. The quotient is rounded to the precision that the crate was
/// built with.
pub uninterp spec fn decimal_quotient(a: Decimal, b: Decimal) -> Decimal;

/// What `BigDecimal::sqrt` returns for a number that is not negative, rounded
/// to the precision that the crate was built with.
pub uninterp spec fn decimal_sqrt(a: Decimal) -> Decimal;

/// What `BigDecimal::cbrt` returns for a number, rounded to the precision that
/// the crate was built with.
pub uninterp spec fn decimal_cbrt(a: Decimal) -> Decimal;

/// How `BigDecimal` writes a number, through `Display`.
pub uninterp spec fn decimal_text(a: Decimal) -> Seq<char>;

/// `BigDecimal::from_str`. The result is the named one, and the error is
/// handed on as it came. A plain literal is accepted, and its number keeps
/// every digit of it. Any other text made of digits, `-` and `.` is rejected,
/// for a sign or a point in the wrong place; the one form left open is that
/// which begins with `.-`, where the parser takes the sign after the point.
#[verifier::external_body]
pub(crate) fn parse_decimal(text: &str) -> (r: Result<Number, ParseBigDecimalError>)
    ensures
        r is Ok <==> parsed_decimal(text@) is Some,
        r matches Ok(n) ==> parsed_decimal(text@) == Some(n@),
        is_plain_literal(text@) ==> r is Ok && r->Ok_0@ == literal_value(text@),
        is_number_text(text@) && !is_plain_literal(text@) && !begins_with_point_minus(text@)
            ==> r is Err,
{
    let (digits, scale) = BigDecimal::from_str(text)?.into_bigint_and_exponent();
    Ok(Number { mantissa: digits.to_signed_bytes_be(), scale })
}

/// `BigDecimal`'s `Display`, through `to_string`.
#[verifier::external_body]
pub(crate) fn text_of(a: &Number) -> (r: String)
    ensures
        r@ == decimal_text(a@),
{
    BigDecimal::new(BigInt::from_signed_bytes_be(&a.mantissa), a.scale).to_string()
}

/// `BigDecimal`'s negation: the sign of the mantissa changes, the scale stays.
#[verifier::external_body]
pub(crate) fn negation(a: &Number) -> (r: Number)
    ensures
        r@ == a@.negation(),
{
    let x = BigDecimal::new(BigInt::from_signed_bytes_be(&a.mantissa), a.scale);
    let (digits, scale) = (-x).into_bigint_and_exponent();
    Number { mantissa: digits.to_signed_bytes_be(), scale }
}

/// `BigDecimal`'s addition of two owned numbers. The sum is exact and has the
/// larger of the two scales, also where one of the numbers is zero.
#[verifier::external_body]
pub(crate) fn sum(a: &Number, b: &Number) -> (r: Number)
    requires
        a@.within_limits(),
        b@.within_limits(),
    ensures
        r@ == a@.sum(b@),
{
    let x = BigDecimal::new(BigInt::from_signed_bytes_be(&a.mantissa), a.scale);
    let y = BigDecimal::new(BigInt::from_signed_bytes_be(&b.mantissa), b.scale);
    let (digits, scale) = (x + y).into_bigint_and_exponent();
    Number { mantissa: digits.to_signed_bytes_be(), scale }
}

/// `BigDecimal`'s multiplication of two owned numbers. The product is exact
/// in value. It is written as the exact product, or, where a factor is
/// recognised as one, as the other factor stands; which of these it is, is left
/// to the crate, so the result is the named one.
#[verifier::external_body]
pub(crate) fn product(a: &Number, b: &Number) -> (r: Number)
    requires
        a@.within_limits(),
        b@.within_limits(),
    ensures
        r@ == decimal_product(a@, b@),
        r@.same_value(a@.exact_product(b@)),
        r@ == a@.exact_product(b@) || r@ == a@ || r@ == b@,
{
    let x = BigDecimal::new(BigInt::from_signed_bytes_be(&a.mantissa), a.scale);
    let y = BigDecimal::new(BigInt::from_signed_bytes_be(&b.mantissa), b.scale);
    let (digits, scale) = (x * y).into_bigint_and_exponent();
    Number { mantissa: digits.to_signed_bytes_be(), scale }
}

/// `BigDecimal`'s division of two owned numbers, which panics on a zero
/// divisor.
#[verifier::external_body]
pub(crate) fn quotient(a: &Number, b: &Number) -> (r: Number)
    requires
        a@.within_limits(),
        b@.within_limits(),
        b@.unscaled != 0,
    ensures
        r@ == decimal_quotient(a@, b@),
{
    let x = BigDecimal::new(BigInt::from_signed_bytes_be(&a.mantissa), a.scale);
    let y = BigDecimal::new(BigInt::from_signed_bytes_be(&b.mantissa), b.scale);
    let (digits, scale) = (x / y).into_bigint_and_exponent();
    Number { mantissa: digits.to_signed_bytes_be(), scale }
}

/// `BigDecimal::sqrt`, which returns nothing for a negative number and a
/// root, which is not negative, for every other.
#[verifier::external_body]
pub(crate) fn square_root(a: &Number) -> (r: Option<Number>)
    requires
        a@.within_limits(),
    ensures
        r is None <==> a@.unscaled < 0,
        r matches Some(n) ==> n@ == decimal_sqrt(a@) && n@.unscaled >= 0,
{
    let x = BigDecimal::new(BigInt::from_signed_bytes_be(&a.mantissa), a.scale);
    let (digits, scale) = x.sqrt()?.into_bigint_and_exponent();
    Some(Number { mantissa: digits.to_signed_bytes_be(), scale })
}

/// `BigDecimal::cbrt`, which has a root for every number.
#[verifier::external_body]
pub(crate) fn cube_root(a: &Number) -> (r: Number)
    requires
        a@.within_limits(),
    ensures
        r@ == decimal_cbrt(a@),
{
    let x = BigDecimal::new(BigInt::from_signed_bytes_be(&a.mantissa), a.scale);
    let (digits, scale) = x.cbrt().into_bigint_and_exponent();
    Number { mantissa: digits.to_signed_bytes_be(), scale }
}

/// `BigDecimal::is_integer`: whether the fractional part is zero.
#[verifier::external_body]
pub(crate) fn has_no_fraction(a: &Number) -> (r: bool)
    ensures
        r == a@.is_integral(),
{
    BigDecimal::new(BigInt::from_signed_bytes_be(&a.mantissa), a.scale).is_integer()
}

/// `ToPrimitive::to_i32` of `BigDecimal`: the integer part, where it fits in
/// 32 bits with a sign, and nothing where it does not.
#[verifier::external_body]
pub(crate) fn integer_part_i32(a: &Number) -> (r: Option<i32>)
    requires
        a@.within_limits(),
    ensures
        r is Some <==> i32::MIN <= a@.integer_part() <= i32::MAX,
        r matches Some(v) ==> v == a@.integer_part(),
{
    BigDecimal::new(BigInt::from_signed_bytes_be(&a.mantissa), a.scale).to_i32()
}

} // verus!
