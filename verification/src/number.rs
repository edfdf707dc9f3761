//! Arbitrary-precision integers used for coefficients, literals and table entries.
//!
//! A [`Number`] stores a sign and base 2^32 digits; its view is the mathematical
//! integer. Arithmetic is delegated to `num_bigint`.

use num_bigint::{BigInt, Sign};
use vstd::prelude::*;

verus! {

/// An integer of unbounded size: a sign flag and base 2^32 digits, least significant first.
#[derive(Clone, Debug, PartialEq, Eq)]
pub struct Number {
    pub negative: bool,
    pub digits: Vec<u32>,
}

/// The natural number written by base 2^32 digits, least significant first.
pub open spec fn digits_value(digits: Seq<u32>) -> nat
    decreases digits.len(),
{
    if digits.len() == 0 {
        0
    } else {
        digits[0] as nat + 4294967296 * digits_value(digits.drop_first())
    }
}

impl View for Number {
    type V = int;

    open spec fn view(&self) -> int {
        if self.negative {
            -(digits_value(self.digits@) as int)
        } else {
            digits_value(self.digits@) as int
        }
    }
}

impl DeepView for Number {
    type V = int;

    open spec fn deep_view(&self) -> int {
        self@
    }
}

/// Calls `BigInt::from(u64)` and reads the digits back with `BigInt::to_u32_digits`.
/// Trusted: the result denotes the same integer as `value`.
#[verifier::external_body]
fn big_from_u64(value: u64) -> (r: Number)
    ensures
        r@ == value as int,
{
    let (sign, digits) = BigInt::from(value).to_u32_digits();
    Number { negative: sign == Sign::Minus, digits }
}

/// Calls `BigInt::from(i64)` and reads the digits back with `BigInt::to_u32_digits`.
/// Trusted: the result denotes the same integer as `value`.
#[verifier::external_body]
fn big_from_i64(value: i64) -> (r: Number)
    ensures
        r@ == value as int,
{
    let (sign, digits) = BigInt::from(value).to_u32_digits();
    Number { negative: sign == Sign::Minus, digits }
}

/// Builds a `BigInt` with `BigInt::from_slice`, negates it with `Neg for BigInt` and reads
/// the digits back. Trusted: the result denotes the negated integer.
#[verifier::external_body]
fn big_negated(value: &Number) -> (r: Number)
    ensures
        r@ == -value@,
{
    let sign = if value.negative { Sign::Minus } else { Sign::Plus };
    let (sign, digits) = (-BigInt::from_slice(sign, &value.digits)).to_u32_digits();
    Number { negative: sign == Sign::Minus, digits }
}

/// Builds two `BigInt`s with `BigInt::from_slice`, multiplies them with `Mul for BigInt`
/// and reads the digits back. Trusted: the result denotes the product.
#[verifier::external_body]
fn big_product(left: &Number, right: &Number) -> (r: Number)
    ensures
        r@ == left@ * right@,
{
    let left_sign = if left.negative { Sign::Minus } else { Sign::Plus };
    let right_sign = if right.negative { Sign::Minus } else { Sign::Plus };
    let product = BigInt::from_slice(left_sign, &left.digits) * BigInt::from_slice(
        right_sign,
        &right.digits,
    );
    let (sign, digits) = product.to_u32_digits();
    Number { negative: sign == Sign::Minus, digits }
}

/// Builds a `BigInt` with `BigInt::from_slice` and converts it with `u64::try_from(&BigInt)`.
/// Trusted: the conversion succeeds exactly on integers in the range of `u64` and keeps the
/// value.
#[verifier::external_body]
fn big_to_u64(value: &Number) -> (r: Option<u64>)
    ensures
        match r {
            Some(v) => v as int == value@,
            None => value@ < 0 || value@ > u64::MAX as int,
        },
{
    let sign = if value.negative { Sign::Minus } else { Sign::Plus };
    u64::try_from(&BigInt::from_slice(sign, &value.digits)).ok()
}

/// Builds two `BigInt`s with `BigInt::from_slice` and subtracts them with `Sub for BigInt`.
/// Trusted: the result denotes the difference.
#[verifier::external_body]
fn big_difference(left: &Number, right: &Number) -> (r: Number)
    ensures
        r@ == left@ - right@,
{
    let left_sign = if left.negative { Sign::Minus } else { Sign::Plus };
    let right_sign = if right.negative { Sign::Minus } else { Sign::Plus };
    let difference = BigInt::from_slice(left_sign, &left.digits) - BigInt::from_slice(
        right_sign,
        &right.digits,
    );
    let (sign, digits) = difference.to_u32_digits();
    Number { negative: sign == Sign::Minus, digits }
}

/// Builds two `BigInt`s with `BigInt::from_slice` and compares them with `<`, that is with
/// `PartialOrd for BigInt`. Trusted: the result tells whether the first integer is the
/// smaller one.
#[verifier::external_body]
fn big_less(left: &Number, right: &Number) -> (r: bool)
    ensures
        r == (left@ < right@),
{
    let left_sign = if left.negative { Sign::Minus } else { Sign::Plus };
    let right_sign = if right.negative { Sign::Minus } else { Sign::Plus };
    BigInt::from_slice(left_sign, &left.digits) < BigInt::from_slice(right_sign, &right.digits)
}

/// The element of the field with the given modulus that stands for an integer: the
/// integer itself if it is not negative, and the modulus less its absolute value if it is.
/// Integers below the negated modulus, or not below the modulus, stand for no element.
pub open spec fn field_element(value: int, modulus: int) -> Option<int> {
    if value >= 0 {
        if value < modulus {
            Some(value)
        } else {
            None
        }
    } else if -value <= modulus {
        Some(modulus - (-value))
    } else {
        None
    }
}

/// The element of the field with the given modulus that stands for an integer; see
/// [`field_element`].
pub fn int_to_field(n: &Number, modulus: &Number) -> (r: Option<Number>)
    ensures
        r.deep_view() == field_element(n@, modulus@),
{
    let zero = Number::from_u64(0);
    if n.is_less_than(&zero) {
        let magnitude = n.negated();
        if modulus.is_less_than(&magnitude) {
            None
        } else {
            Some(modulus.difference(&magnitude))
        }
    } else if n.is_less_than(modulus) {
        Some(n.duplicate())
    } else {
        None
    }
}

/// The character of a decimal digit.
pub open spec fn digit_char(digit: nat) -> char {
    if digit == 0 {
        '0'
    } else if digit == 1 {
        '1'
    } else if digit == 2 {
        '2'
    } else if digit == 3 {
        '3'
    } else if digit == 4 {
        '4'
    } else if digit == 5 {
        '5'
    } else if digit == 6 {
        '6'
    } else if digit == 7 {
        '7'
    } else if digit == 8 {
        '8'
    } else {
        '9'
    }
}

/// The decimal digits of a natural number, most significant first, without leading zeroes.
pub open spec fn decimal_digits(n: nat) -> Seq<char>
    decreases n,
{
    if n < 10 {
        seq![digit_char(n)]
    } else {
        decimal_digits(n / 10).push(digit_char(n % 10))
    }
}

/// The decimal text of an integer: a minus sign if it is negative, then its digits.
pub open spec fn decimal_text(value: int) -> Seq<char> {
    if value < 0 {
        seq!['-'] + decimal_digits((-value) as nat)
    } else {
        decimal_digits(value as nat)
    }
}

/// Builds a `BigInt` with `BigInt::from_slice` and formats it with `ToString::to_string`,
/// that is with `Display for BigInt`. Trusted: the result is the decimal text of the value,
/// with a leading minus sign for negative values and without leading zeroes.
#[verifier::external_body]
fn big_to_decimal(value: &Number) -> (r: String)
    ensures
        r@ == decimal_text(value@),
{
    let sign = if value.negative { Sign::Minus } else { Sign::Plus };
    BigInt::from_slice(sign, &value.digits).to_string()
}

impl Number {
    /// The decimal text of the number.
    pub fn to_decimal(&self) -> (r: String)
        ensures
            r@ == decimal_text(self@),
    {
        big_to_decimal(self)
    }

    /// The number with the value of an unsigned machine integer.
    pub fn from_u64(value: u64) -> (r: Number)
        ensures
            r@ == value as int,
    {
        big_from_u64(value)
    }

    /// The number with the value of a signed machine integer.
    pub fn from_i64(value: i64) -> (r: Number)
        ensures
            r@ == value as int,
    {
        big_from_i64(value)
    }

    /// The number with the value of an index.
    pub fn from_usize(value: usize) -> (r: Number)
        ensures
            r@ == value as int,
    {
        big_from_u64(value as u64)
    }

    /// The additive inverse.
    pub fn negated(&self) -> (r: Number)
        ensures
            r@ == -self@,
    {
        big_negated(self)
    }

    /// The difference of two numbers.
    pub fn difference(&self, other: &Number) -> (r: Number)
        ensures
            r@ == self@ - other@,
    {
        big_difference(self, other)
    }

    /// Whether this number is smaller than the other.
    pub fn is_less_than(&self, other: &Number) -> (r: bool)
        ensures
            r == (self@ < other@),
    {
        big_less(self, other)
    }

    /// The product of two numbers.
    pub fn product(&self, other: &Number) -> (r: Number)
        ensures
            r@ == self@ * other@,
    {
        big_product(self, other)
    }

    /// The value as a `u64`, if it is in range.
    pub fn to_u64(&self) -> (r: Option<u64>)
        ensures
            r is Some <==> 0 <= self@ <= u64::MAX as int,
            r matches Some(v) ==> v as int == self@,
    {
        big_to_u64(self)
    }

    /// A copy with the same sign and digits.
    pub fn duplicate(&self) -> (r: Number)
        ensures
            r@ == self@,
            r.negative == self.negative,
            r.digits@ == self.digits@,
    {
        let digits = self.digits.clone();
        Number { negative: self.negative, digits }
    }
}

} // verus!
