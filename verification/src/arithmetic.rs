//! `+`, `-`, `*`, `/` and `%`.

use crate::backend;
use crate::backend::{decimal_product, decimal_quotient};
use crate::message::{no_messages, one_message, views, Message, MessageView};
use crate::number::Decimal;
use crate::operator::Operator;
use crate::stack::{below, lemma_take_and_put_back, operand, padded, Effect, Stack};
use vstd::prelude::*;

verus! {

/// The effect of `+`: the exact sum replaces the two operands; an operand
/// outside the limits leaves both and gives an error.
pub open spec fn after_add(stack: Seq<Decimal>) -> Effect {
    let a = operand(stack, 1);
    let b = operand(stack, 0);
    if !a.within_limits() || !b.within_limits() {
        Effect::with(padded(stack, 2), MessageView::OutOfRange(Operator::Add))
    } else {
        Effect::silent(below(stack, 2).push(a.sum(b)))
    }
}

/// `+`: takes two numbers, zero for each that is missing, and puts their sum
/// in their place.
pub fn stack_add(stack: &mut Stack) -> (out: Vec<Message>)
    ensures
        final(stack)@ == after_add(old(stack)@).stack,
        views(out@) == after_add(old(stack)@).messages,
{
    proof {
        lemma_take_and_put_back(stack@);
    }
    let b = stack.pop_or_zero();
    let a = stack.pop_or_zero();
    if !a.within_limits() || !b.within_limits() {
        stack.push(a);
        stack.push(b);
        return one_message(Message::OutOfRange(Operator::Add));
    }
    stack.push(backend::sum(&a, &b));
    no_messages()
}

/// The effect of `-`: the exact difference, of the operand under the top
/// less the top, replaces the two; an operand outside the limits leaves both
/// and gives an error.
pub open spec fn after_sub(stack: Seq<Decimal>) -> Effect {
    let a = operand(stack, 1);
    let b = operand(stack, 0);
    if !a.within_limits() || !b.within_limits() {
        Effect::with(padded(stack, 2), MessageView::OutOfRange(Operator::Sub))
    } else {
        Effect::silent(below(stack, 2).push(a.difference(b)))
    }
}

/// `-`: takes `b` and then `a`, zero for each that is missing, and puts
/// `a + (-b)` in their place.
pub fn stack_sub(stack: &mut Stack) -> (out: Vec<Message>)
    ensures
        final(stack)@ == after_sub(old(stack)@).stack,
        views(out@) == after_sub(old(stack)@).messages,
{
    proof {
        lemma_take_and_put_back(stack@);
    }
    let b = stack.pop_or_zero();
    let a = stack.pop_or_zero();
    if !a.within_limits() || !b.within_limits() {
        stack.push(a);
        stack.push(b);
        return one_message(Message::OutOfRange(Operator::Sub));
    }
    let negated = backend::negation(&b);
    stack.push(backend::sum(&a, &negated));
    no_messages()
}

/// The effect of `*`: the product replaces the two operands; an operand
/// outside the limits leaves both and gives an error.
pub open spec fn after_mul(stack: Seq<Decimal>) -> Effect {
    let a = operand(stack, 1);
    let b = operand(stack, 0);
    if !a.within_limits() || !b.within_limits() {
        Effect::with(padded(stack, 2), MessageView::OutOfRange(Operator::Mul))
    } else {
        Effect::silent(below(stack, 2).push(decimal_product(a, b)))
    }
}

/// `*`: takes two numbers, zero for each that is missing, and puts their
/// product in their place.
pub fn stack_mul(stack: &mut Stack) -> (out: Vec<Message>)
    ensures
        final(stack)@ == after_mul(old(stack)@).stack,
        views(out@) == after_mul(old(stack)@).messages,
        after_mul(old(stack)@).messages.len() == 0 ==> final(stack)@.last().same_value(
            operand(old(stack)@, 1).exact_product(operand(old(stack)@, 0)),
        ),
{
    proof {
        lemma_take_and_put_back(stack@);
    }
    let b = stack.pop_or_zero();
    let a = stack.pop_or_zero();
    if !a.within_limits() || !b.within_limits() {
        stack.push(a);
        stack.push(b);
        return one_message(Message::OutOfRange(Operator::Mul));
    }
    stack.push(backend::product(&a, &b));
    no_messages()
}

/// The effect of `/`. The divisor is on top, the dividend under it. A zero
/// divisor, or an operand outside the limits, leaves both operands on the
/// stack and gives an error. Otherwise the quotient replaces them.
pub open spec fn after_div(stack: Seq<Decimal>) -> Effect {
    let dividend = operand(stack, 1);
    let divisor = operand(stack, 0);
    if !dividend.within_limits() || !divisor.within_limits() {
        Effect::with(padded(stack, 2), MessageView::OutOfRange(Operator::Div))
    } else if divisor.unscaled == 0 {
        Effect::with(padded(stack, 2), MessageView::DivisionByZero)
    } else {
        Effect::silent(below(stack, 2).push(decimal_quotient(dividend, divisor)))
    }
}

/// `/`: takes the divisor and the dividend, zero for each that is missing,
/// and puts the quotient in their place; with a zero divisor both are put
/// back.
pub fn stack_div(stack: &mut Stack) -> (out: Vec<Message>)
    ensures
        final(stack)@ == after_div(old(stack)@).stack,
        views(out@) == after_div(old(stack)@).messages,
{
    proof {
        lemma_take_and_put_back(stack@);
    }
    let divisor = stack.pop_or_zero();
    let dividend = stack.pop_or_zero();
    if !dividend.within_limits() || !divisor.within_limits() {
        stack.push(dividend);
        stack.push(divisor);
        return one_message(Message::OutOfRange(Operator::Div));
    }
    if divisor.is_zero() {
        stack.push(dividend);
        stack.push(divisor);
        return one_message(Message::DivisionByZero);
    }
    stack.push(backend::quotient(&dividend, &divisor));
    no_messages()
}

/// The effect of `%`, which is not supported: an error, and the stack as it
/// was.
pub open spec fn after_mod(stack: Seq<Decimal>) -> Effect {
    Effect::with(stack, MessageView::Unsupported(Operator::Mod))
}

/// `%`: reports that the operator is not supported and leaves the stack as
/// it was.
pub fn stack_mod(stack: &mut Stack) -> (out: Vec<Message>)
    ensures
        final(stack)@ == after_mod(old(stack)@).stack,
        views(out@) == after_mod(old(stack)@).messages,
{
    one_message(Message::Unsupported(Operator::Mod))
}

} // verus!
