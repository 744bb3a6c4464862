//! Decimal numbers as plain data, and their mathematical model.

use crate::backend;
use crate::backend::decimal_text;
use crate::value::lemma_difference;
use vstd::arithmetic::power::pow;
use vstd::prelude::*;

verus! {

/// The mathematical model of a decimal number: `unscaled * 10^(-scale)`.
pub struct Decimal {
    pub unscaled: int,
    pub scale: int,
}

/// Largest magnitude of a scale on which the arithmetic operators work.
/// Within this limit no computation on scales leaves the range of a 64-bit
/// integer.
pub const LIMIT: i64 = 1_000_000_000_000_000_000;

/// The value of a big-endian sequence of bytes read as an unsigned integer.
pub open spec fn unsigned_value(bytes: Seq<u8>) -> nat
    decreases bytes.len(),
{
    if bytes.len() == 0 {
        0
    } else {
        unsigned_value(bytes.drop_last()) * 256 + bytes.last() as nat
    }
}

/// The value of a big-endian sequence of bytes read in two's complement.
/// The empty sequence stands for zero.
pub open spec fn signed_value(bytes: Seq<u8>) -> int {
    if bytes.len() > 0 && bytes[0] >= 128 {
        unsigned_value(bytes) - pow(256, bytes.len())
    } else {
        unsigned_value(bytes) as int
    }
}

/// An arbitrary-precision decimal number: an integer mantissa of any size,
/// held as big-endian two's complement bytes, and a decimal scale.
#[derive(Clone, Debug)]
pub struct Number {
    pub mantissa: Vec<u8>,
    pub scale: i64,
}

impl View for Number {
    type V = Decimal;

    open spec fn view(&self) -> Decimal {
        Decimal { unscaled: signed_value(self.mantissa@), scale: self.scale as int }
    }
}

impl Decimal {
    /// The number zero with scale 0.
    pub open spec fn zero() -> Decimal {
        Decimal { unscaled: 0, scale: 0 }
    }

    /// The number one with scale 0.
    pub open spec fn one() -> Decimal {
        Decimal { unscaled: 1, scale: 0 }
    }

    /// Whether the scale lies within the limits of the arithmetic operators.
    pub open spec fn within_limits(self) -> bool {
        -LIMIT <= self.scale <= LIMIT
    }

    /// The mantissa that the number has when it is written with the scale
    /// `scale`, which is at least its own: `unscaled * 10^(scale - self.scale)`.
    pub open spec fn aligned(self, scale: int) -> int
        recommends
            scale >= self.scale,
    {
        self.unscaled * pow(10, (scale - self.scale) as nat)
    }

    /// Whether two numbers have the same value, whatever their scales.
    pub open spec fn same_value(self, other: Decimal) -> bool {
        let scale = if self.scale >= other.scale { self.scale } else { other.scale };
        self.aligned(scale) == other.aligned(scale)
    }

    /// The number with the opposite sign and the same scale.
    pub open spec fn negation(self) -> Decimal {
        Decimal { unscaled: -self.unscaled, scale: self.scale }
    }

    /// The exact sum, written with the larger of the two scales.
    pub open spec fn sum(self, other: Decimal) -> Decimal {
        let scale = if self.scale >= other.scale { self.scale } else { other.scale };
        Decimal { unscaled: self.aligned(scale) + other.aligned(scale), scale }
    }

    /// The exact difference, written with the larger of the two scales.
    pub open spec fn difference(self, other: Decimal) -> Decimal {
        self.sum(other.negation())
    }

    /// The exact product, written with the sum of the two scales.
    pub open spec fn exact_product(self, other: Decimal) -> Decimal {
        Decimal { unscaled: self.unscaled * other.unscaled, scale: self.scale + other.scale }
    }

    /// Whether the value of this number is below that of the other.
    pub open spec fn less_than(self, other: Decimal) -> bool {
        let scale = if self.scale >= other.scale { self.scale } else { other.scale };
        self.aligned(scale) < other.aligned(scale)
    }

    /// The exact power with a natural exponent: the mantissa to that power,
    /// and the scale that many times.
    pub open spec fn exact_power(self, exponent: nat) -> Decimal {
        Decimal { unscaled: pow(self.unscaled, exponent), scale: self.scale * exponent }
    }

    /// Whether the number has no fractional part.
    pub open spec fn is_integral(self) -> bool {
        self.scale <= 0 || self.unscaled % pow(10, self.scale as nat) == 0
    }

    /// The number without its fractional part: the value rounded towards zero.
    pub open spec fn integer_part(self) -> int {
        if self.scale <= 0 {
            self.unscaled * pow(10, (-self.scale) as nat)
        } else if self.unscaled >= 0 {
            self.unscaled / pow(10, self.scale as nat)
        } else {
            -((-self.unscaled) / pow(10, self.scale as nat))
        }
    }
}

/// A sequence of bytes has the unsigned value zero exactly when every byte is
/// zero, and its unsigned value is below `256^len`.
pub proof fn lemma_unsigned_value_bounds(bytes: Seq<u8>)
    ensures
        unsigned_value(bytes) < pow(256, bytes.len()),
        unsigned_value(bytes) == 0 <==> forall|i: int| 0 <= i < bytes.len() ==> bytes[i] == 0,
        bytes.len() > 0 ==> (bytes[0] >= 128 <==> 2 * unsigned_value(bytes) >= pow(
            256,
            bytes.len(),
        )),
    decreases bytes.len(),
{
    reveal(pow);
    if bytes.len() == 0 {
    } else {
        let front = bytes.drop_last();
        lemma_unsigned_value_bounds(front);
        assert(pow(256, bytes.len()) == 256 * pow(256, front.len()));
        assert forall|i: int| 0 <= i < front.len() implies front[i] == bytes[i] by {}
        if unsigned_value(bytes) == 0 {
            assert forall|i: int| 0 <= i < bytes.len() implies bytes[i] == 0 by {
                if i < front.len() {
                    assert(front[i] == 0);
                }
            }
        }
        if front.len() == 0 {
            assert(pow(256, 0) == 1);
        } else {
            assert(front[0] == bytes[0]);
        }
    }
}

/// The additive identity, with scale 0.
pub fn zero() -> (n: Number)
    ensures
        n@ == Decimal::zero(),
{
    let n = Number { mantissa: Vec::new(), scale: 0 };
    assert(n.mantissa@.len() == 0);
    n
}

/// The multiplicative identity, with scale 0.
pub fn one() -> (n: Number)
    ensures
        n@ == Decimal::one(),
{
    let mut mantissa: Vec<u8> = Vec::new();
    mantissa.push(1);
    proof {
        assert(mantissa@.drop_last().len() == 0);
        reveal_with_fuel(unsigned_value, 2);
    }
    Number { mantissa, scale: 0 }
}

impl Number {
    /// Whether the number is zero: whether every byte of the mantissa is.
    pub fn is_zero(&self) -> (r: bool)
        ensures
            r == (self@.unscaled == 0),
    {
        proof {
            lemma_unsigned_value_bounds(self.mantissa@);
        }
        let mut i: usize = 0;
        while i < self.mantissa.len()
            invariant
                i <= self.mantissa.len(),
                forall|j: int| 0 <= j < i ==> self.mantissa@[j] == 0,
            decreases self.mantissa.len() - i,
        {
            if self.mantissa[i] != 0 {
                proof {
                    lemma_unsigned_value_bounds(self.mantissa@);
                }
                return false;
            }
            i += 1;
        }
        true
    }

    /// Whether the number is below zero: whether the mantissa's sign bit is set.
    pub fn is_negative(&self) -> (r: bool)
        ensures
            r == (self@.unscaled < 0),
    {
        proof {
            lemma_unsigned_value_bounds(self.mantissa@);
        }
        self.mantissa.len() > 0 && self.mantissa[0] >= 128
    }

    /// Whether the scale lies within the limits of the arithmetic operators.
    pub fn within_limits(&self) -> (r: bool)
        ensures
            r == self@.within_limits(),
    {
        -LIMIT <= self.scale && self.scale <= LIMIT
    }

    /// A copy of the number, which is the same number.
    pub fn duplicate(&self) -> (r: Number)
        ensures
            r@ == self@,
    {
        Number { mantissa: self.mantissa.clone(), scale: self.scale }
    }

    /// The number as text.
    pub fn to_text(&self) -> (r: String)
        ensures
            r@ == decimal_text(self@),
    {
        backend::text_of(self)
    }

    /// Whether two numbers have the same value, whatever their scales: an
    /// exact comparison of decimals.
    pub fn same_value(&self, other: &Number) -> (r: bool)
        requires
            self@.within_limits(),
            other@.within_limits(),
        ensures
            r == self@.same_value(other@),
    {
        proof {
            lemma_difference(self@, other@);
        }
        let negated = backend::negation(other);
        backend::sum(self, &negated).is_zero()
    }

    /// Whether the value of this number is below that of the other: an exact
    /// comparison of decimals.
    pub fn less_than(&self, other: &Number) -> (r: bool)
        requires
            self@.within_limits(),
            other@.within_limits(),
        ensures
            r == self@.less_than(other@),
    {
        proof {
            lemma_difference(self@, other@);
        }
        let negated = backend::negation(other);
        backend::sum(self, &negated).is_negative()
    }
}

} // verus!
