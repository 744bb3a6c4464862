//! Plain decimal literals: an optional minus sign, then digits with at most
//! one decimal point among them.

use crate::number::Decimal;
use vstd::prelude::*;

verus! {

/// An ASCII decimal digit.
pub open spec fn is_digit(c: char) -> bool {
    '0' <= c <= '9'
}

/// A character of which numeric literals are made: a digit, `-` or `.`.
pub open spec fn is_number_char(c: char) -> bool {
    is_digit(c) || c == '-' || c == '.'
}

/// Whether every character is one of which numeric literals are made.
pub open spec fn is_number_text(s: Seq<char>) -> bool {
    forall|i: int| 0 <= i < s.len() ==> is_number_char(#[trigger] s[i])
}

/// Whether the text begins with a decimal point and a minus sign.
pub open spec fn begins_with_point_minus(s: Seq<char>) -> bool {
    s.len() >= 2 && s[0] == '.' && s[1] == '-'
}

/// Whether every character is a decimal digit.
pub open spec fn all_digits(s: Seq<char>) -> bool {
    forall|i: int| 0 <= i < s.len() ==> is_digit(#[trigger] s[i])
}

/// The number that a sequence of decimal digits writes; 0 for no digits.
pub open spec fn digits_value(s: Seq<char>) -> nat
    decreases s.len(),
{
    if s.len() == 0 {
        0
    } else {
        (digits_value(s.drop_last()) * 10 + (s.last() as nat - '0' as nat)) as nat
    }
}

/// The position of the first decimal point, or the length where there is none.
pub open spec fn point_position(s: Seq<char>) -> int
    decreases s.len(),
{
    if s.len() == 0 || s[0] == '.' {
        0
    } else {
        1 + point_position(s.drop_first())
    }
}

/// Whether the text begins with a minus sign.
pub open spec fn has_sign(s: Seq<char>) -> bool {
    s.len() > 0 && s[0] == '-'
}

/// The text without its minus sign.
pub open spec fn unsigned_part(s: Seq<char>) -> Seq<char> {
    if has_sign(s) {
        s.drop_first()
    } else {
        s
    }
}

/// The characters between the sign and the first decimal point.
pub open spec fn integer_digits(s: Seq<char>) -> Seq<char> {
    unsigned_part(s).take(point_position(unsigned_part(s)))
}

/// The characters after the first decimal point; none where there is no point.
pub open spec fn fraction_digits(s: Seq<char>) -> Seq<char> {
    let body = unsigned_part(s);
    if point_position(body) < body.len() {
        body.skip(point_position(body) + 1)
    } else {
        Seq::empty()
    }
}

/// A plain literal is an optional minus sign, digits, optionally a decimal
/// point and more digits, with at least one digit in all: `12`, `-0.5`, `.5`,
/// `7.`.
pub open spec fn is_plain_literal(s: Seq<char>) -> bool {
    &&& all_digits(integer_digits(s))
    &&& all_digits(fraction_digits(s))
    &&& integer_digits(s).len() + fraction_digits(s).len() > 0
}

/// The number that a plain literal writes. Every digit is kept: the mantissa
/// is the number written by all the digits, the scale is the count of digits
/// after the point.
pub open spec fn literal_value(s: Seq<char>) -> Decimal {
    let magnitude = digits_value(integer_digits(s) + fraction_digits(s)) as int;
    Decimal {
        unscaled: if has_sign(s) { -magnitude } else { magnitude },
        scale: fraction_digits(s).len() as int,
    }
}

/// The first decimal point stands at `point_position`, and no point stands
/// before it.
pub proof fn lemma_point_position(s: Seq<char>)
    ensures
        0 <= point_position(s) <= s.len(),
        point_position(s) < s.len() ==> s[point_position(s)] == '.',
        forall|i: int| 0 <= i < point_position(s) ==> #[trigger] s[i] != '.',
    decreases s.len(),
{
    if s.len() == 0 || s[0] == '.' {
    } else {
        let rest = s.drop_first();
        lemma_point_position(rest);
        assert forall|i: int| 0 <= i < point_position(s) implies #[trigger] s[i] != '.' by {
            if i > 0 {
                assert(rest[i - 1] == s[i]);
            }
        }
    }
}

/// A plain literal is made of digits, `-` and `.` alone and holds a digit.
pub proof fn lemma_plain_literal_is_number_text(s: Seq<char>)
    requires
        is_plain_literal(s),
    ensures
        is_number_text(s),
        exists|i: int| 0 <= i < s.len() && is_digit(#[trigger] s[i]),
{
    let body = unsigned_part(s);
    let offset: int = if has_sign(s) { 1 } else { 0 };
    let point = point_position(body);
    lemma_point_position(body);
    assert forall|i: int| 0 <= i < body.len() implies body[i] == s[i + offset] by {}
    assert forall|i: int| 0 <= i < s.len() implies is_number_char(#[trigger] s[i]) by {
        if i >= offset {
            let j = i - offset;
            if j < point {
                assert(integer_digits(s)[j] == body[j]);
            } else if j > point {
                assert(fraction_digits(s)[j - point - 1] == body[j]);
            }
        }
    }
    if integer_digits(s).len() > 0 {
        assert(integer_digits(s)[0] == s[offset]);
        assert(is_digit(s[offset]));
    } else {
        assert(fraction_digits(s)[0] == s[offset + point + 1]);
        assert(is_digit(s[offset + point + 1]));
    }
}

/// No digit of a literal is lost: two sequences of digits of one length that
/// write the same number are the same digits.
pub proof fn lemma_digits_are_kept(a: Seq<char>, b: Seq<char>)
    requires
        all_digits(a),
        all_digits(b),
        a.len() == b.len(),
        digits_value(a) == digits_value(b),
    ensures
        a == b,
    decreases a.len(),
{
    if a.len() > 0 {
        let front_a = a.drop_last();
        let front_b = b.drop_last();
        assert(is_digit(a.last()) && is_digit(b.last()));
        assert forall|i: int| 0 <= i < front_a.len() implies is_digit(#[trigger] front_a[i]) by {
            assert(front_a[i] == a[i]);
        }
        assert forall|i: int| 0 <= i < front_b.len() implies is_digit(#[trigger] front_b[i]) by {
            assert(front_b[i] == b[i]);
        }
        lemma_digits_are_kept(front_a, front_b);
        assert(a =~= front_a.push(a.last()));
        assert(b =~= front_b.push(b.last()));
    } else {
        assert(a =~= b);
    }
}

} // verus!
