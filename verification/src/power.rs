//! `^`: powers by repeated multiplication.

use crate::backend;
use crate::backend::decimal_product;
use crate::message::{no_messages, one_message, views, Message, MessageView};
use crate::number::{one, Decimal, Number, LIMIT};
use crate::operator::Operator;
use crate::stack::{below, lemma_take_and_put_back, operand, padded, Effect, Stack};
use crate::value::{
    lemma_exact_power_unfolds, lemma_product_keeps_value, lemma_same_value_is_equivalence,
};
use vstd::prelude::*;

verus! {

/// The base multiplied `count` times onto one, each product as the
/// multiplication gives it; nothing where a product that is to be multiplied
/// further has left the limits.
pub open spec fn power(base: Decimal, count: nat) -> Option<Decimal>
    decreases count,
{
    if count == 0 {
        Some(Decimal::one())
    } else {
        match power(base, (count - 1) as nat) {
            Some(p) => if p.within_limits() {
                Some(decimal_product(p, base))
            } else {
                None
            },
            None => None,
        }
    }
}

/// How often `^` multiplies for an exponent: as often as its integer part
/// says, and not at all where that is negative.
pub open spec fn repetitions(exponent: Decimal) -> nat {
    if exponent.integer_part() > 0 {
        exponent.integer_part() as nat
    } else {
        0
    }
}

/// The effect of `^`. The exponent is on top, the base under it. An exponent
/// whose integer part does not fit in 32 bits with a sign, or an operand or an
/// intermediate product outside the limits, leaves both operands on the stack
/// and gives an error. Otherwise the power replaces them, with a warning where
/// the exponent had a fractional part.
pub open spec fn after_pow(stack: Seq<Decimal>) -> Effect {
    let base = operand(stack, 1);
    let exponent = operand(stack, 0);
    if !base.within_limits() || !exponent.within_limits() {
        Effect::with(padded(stack, 2), MessageView::OutOfRange(Operator::Pow))
    } else if !(i32::MIN <= exponent.integer_part() <= i32::MAX) {
        Effect::with(padded(stack, 2), MessageView::ExponentTooLarge)
    } else {
        match power(base, repetitions(exponent)) {
            None => Effect::with(padded(stack, 2), MessageView::OutOfRange(Operator::Pow)),
            Some(result) => if exponent.is_integral() {
                Effect::silent(below(stack, 2).push(result))
            } else {
                Effect::with(below(stack, 2).push(result), MessageView::ExponentTruncated)
            },
        }
    }
}

/// Whether the scales that `count` multiplications by the base can reach lie
/// within the limits: whether `count` times the magnitude of the base's scale
/// does.
pub open spec fn power_fits(base: Decimal, count: nat) -> bool {
    -LIMIT <= count * base.scale <= LIMIT
}

/// The base multiplied onto one `count` times, or nothing where a product
/// to be multiplied further has left the limits, which none does where
/// `power_fits`. The result has the value of the base to the power `count`.
pub fn repeated_product(base: &Number, count: u32) -> (r: Option<Number>)
    requires
        base@.within_limits(),
    ensures
        r is Some <==> power(base@, count as nat) is Some,
        r matches Some(n) ==> power(base@, count as nat) == Some(n@) && n@.same_value(
            base@.exact_power(count as nat),
        ),
        power_fits(base@, count as nat) ==> r is Some,
{
    let mut result = one();
    let mut done: u32 = 0;
    let ghost mut steps: int = 0;
    proof {
        lemma_exact_power_unfolds(base@, 0);
        lemma_same_value_is_equivalence(result@, result@, result@);
    }
    while done < count
        invariant
            done <= count,
            base@.within_limits(),
            power(base@, done as nat) == Some(result@),
            result@.same_value(base@.exact_power(done as nat)),
            0 <= steps <= done,
            result@.scale == steps * base@.scale,
        decreases count - done,
    {
        if !result.within_limits() {
            proof {
                lemma_power_stays_none(base@, (done + 1) as nat, count as nat);
                lemma_scale_between(base@.scale, steps, count as int);
            }
            return None;
        }
        let ghost before = result@;
        result = backend::product(&result, base);
        proof {
            let lower = base@.exact_power(done as nat);
            lemma_product_keeps_value(before, lower, base@);
            lemma_exact_power_unfolds(base@, done as nat);
            lemma_same_value_is_equivalence(
                result@,
                before.exact_product(base@),
                lower.exact_product(base@),
            );
            assert((steps + 1) * base@.scale == steps * base@.scale + base@.scale)
                by (nonlinear_arith);
            assert(1 * base@.scale == base@.scale);
            if result@ == before.exact_product(base@) {
                steps = steps + 1;
            } else if result@ != before {
                steps = 1;
            }
        }
        done += 1;
    }
    Some(result)
}

/// A multiple of a scale lies between zero and any larger multiple of it.
proof fn lemma_scale_between(scale: int, steps: int, count: int)
    requires
        0 <= steps <= count,
    ensures
        -LIMIT <= count * scale <= LIMIT ==> -LIMIT <= steps * scale <= LIMIT,
{
    assert(scale >= 0 ==> 0 <= steps * scale <= count * scale) by (nonlinear_arith)
        requires
            0 <= steps <= count,
    ;
    assert(scale <= 0 ==> count * scale <= steps * scale <= 0) by (nonlinear_arith)
        requires
            0 <= steps <= count,
    ;
}

/// Once a power is nothing, every higher one is.
pub proof fn lemma_power_stays_none(base: Decimal, low: nat, high: nat)
    requires
        low <= high,
        power(base, low) is None,
    ensures
        power(base, high) is None,
    decreases high - low,
{
    if low < high {
        lemma_power_stays_none(base, low, (high - 1) as nat);
    }
}

/// Whether `^` finds a power: both operands lie within the limits, the
/// exponent's integer part fits in 32 bits with a sign, and no product that is
/// multiplied further leaves the limits.
pub open spec fn pow_succeeds(stack: Seq<Decimal>) -> bool {
    let base = operand(stack, 1);
    let exponent = operand(stack, 0);
    &&& base.within_limits()
    &&& exponent.within_limits()
    &&& i32::MIN <= exponent.integer_part() <= i32::MAX
    &&& power(base, repetitions(exponent)) is Some
}

/// Where `^` is sure to find a power: both operands lie within the limits,
/// the exponent's integer part fits in 32 bits with a sign, and the scale of
/// the base, taken as often as `^` multiplies, stays within the limits.
pub open spec fn pow_is_owed(stack: Seq<Decimal>) -> bool {
    let base = operand(stack, 1);
    let exponent = operand(stack, 0);
    &&& base.within_limits()
    &&& exponent.within_limits()
    &&& i32::MIN <= exponent.integer_part() <= i32::MAX
    &&& power_fits(base, repetitions(exponent))
}

/// Puts the outcome of `^` on a stack from which the operands were taken:
/// the power, with a warning where the exponent was not whole, or, where there
/// is no power, the operands again and an error.
pub fn settle_power(
    stack: &mut Stack,
    base: Number,
    exponent: Number,
    outcome: Option<Number>,
    whole: bool,
) -> (out: Vec<Message>)
    ensures
        outcome matches Some(p) ==> final(stack)@ == old(stack)@.push(p@) && views(out@)
            == if whole {
            Seq::<MessageView>::empty()
        } else {
            seq![MessageView::ExponentTruncated]
        },
        outcome is None ==> final(stack)@ == old(stack)@.push(base@).push(exponent@) && views(out@)
            == seq![MessageView::OutOfRange(Operator::Pow)],
{
    match outcome {
        Some(result) => {
            stack.push(result);
            if whole {
                no_messages()
            } else {
                one_message(Message::ExponentTruncated)
            }
        },
        None => {
            stack.push(base);
            stack.push(exponent);
            one_message(Message::OutOfRange(Operator::Pow))
        },
    }
}

/// `^`: takes the exponent and the base, zero for each that is missing, and
/// puts the base to the power of the exponent's integer part in their place.
/// The power is found by repeated multiplication, so it is one for every
/// exponent below one, and it has the value of the exact power.
pub fn stack_pow(stack: &mut Stack) -> (out: Vec<Message>)
    ensures
        final(stack)@ == after_pow(old(stack)@).stack,
        views(out@) == after_pow(old(stack)@).messages,
        pow_succeeds(old(stack)@) ==> final(stack)@.last().same_value(
            operand(old(stack)@, 1).exact_power(repetitions(operand(old(stack)@, 0))),
        ),
        pow_is_owed(old(stack)@) ==> pow_succeeds(old(stack)@),
{
    proof {
        lemma_take_and_put_back(stack@);
    }
    let exponent = stack.pop_or_zero();
    let base = stack.pop_or_zero();
    if !base.within_limits() || !exponent.within_limits() {
        stack.push(base);
        stack.push(exponent);
        return one_message(Message::OutOfRange(Operator::Pow));
    }
    match backend::integer_part_i32(&exponent) {
        None => {
            stack.push(base);
            stack.push(exponent);
            one_message(Message::ExponentTooLarge)
        },
        Some(exp) => {
            let count: u32 = if exp > 0 { exp as u32 } else { 0 };
            let outcome = repeated_product(&base, count);
            let whole = backend::has_no_fraction(&exponent);
            settle_power(stack, base, exponent, outcome, whole)
        },
    }
}

} // verus!
