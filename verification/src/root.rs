//! `v` and `b`: square roots and cube roots.

use crate::backend;
use crate::backend::{decimal_cbrt, decimal_sqrt};
use crate::message::{no_messages, one_message, views, Message, MessageView};
use crate::number::{Decimal, Number};
use crate::operator::Operator;
use crate::stack::{below, lemma_take_and_put_back, operand, padded, Effect, Stack};
use vstd::prelude::*;

verus! {

/// The effect of `v`. A negative operand, or one outside the limits, stays
/// on the stack and gives an error. Otherwise its square root replaces it.
pub open spec fn after_sqrt(stack: Seq<Decimal>) -> Effect {
    let a = operand(stack, 0);
    if a.unscaled < 0 {
        Effect::with(padded(stack, 1), MessageView::NegativeSqrt)
    } else if !a.within_limits() {
        Effect::with(padded(stack, 1), MessageView::OutOfRange(Operator::Sqrt))
    } else {
        Effect::silent(below(stack, 1).push(decimal_sqrt(a)))
    }
}

/// Puts the outcome of `v` on a stack from which the operand was taken: the
/// root, or, where there is none, the operand again and an error.
pub fn settle_root(stack: &mut Stack, value: Number, root: Option<Number>) -> (out: Vec<Message>)
    ensures
        root matches Some(r) ==> final(stack)@ == old(stack)@.push(r@) && views(out@)
            == Seq::<MessageView>::empty(),
        root is None ==> final(stack)@ == old(stack)@.push(value@) && views(out@) == seq![
            MessageView::NegativeSqrt,
        ],
{
    match root {
        Some(root) => {
            stack.push(root);
            no_messages()
        },
        None => {
            stack.push(value);
            one_message(Message::NegativeSqrt)
        },
    }
}

/// `v`: takes the top of the stack, or zero, and puts its square root in its
/// place; a negative number is put back as it was. The root is not negative.
pub fn stack_sqrt(stack: &mut Stack) -> (out: Vec<Message>)
    ensures
        final(stack)@ == after_sqrt(old(stack)@).stack,
        views(out@) == after_sqrt(old(stack)@).messages,
        after_sqrt(old(stack)@).messages.len() == 0 ==> final(stack)@.last().unscaled >= 0,
{
    proof {
        lemma_take_and_put_back(stack@);
    }
    let value = stack.pop_or_zero();
    if !value.within_limits() {
        let negative = value.is_negative();
        stack.push(value);
        return if negative {
            one_message(Message::NegativeSqrt)
        } else {
            one_message(Message::OutOfRange(Operator::Sqrt))
        };
    }
    let root = backend::square_root(&value);
    settle_root(stack, value, root)
}

/// The effect of `b`: the cube root replaces the operand; an operand outside
/// the limits stays and gives an error.
pub open spec fn after_cbrt(stack: Seq<Decimal>) -> Effect {
    let a = operand(stack, 0);
    if !a.within_limits() {
        Effect::with(padded(stack, 1), MessageView::OutOfRange(Operator::Cbrt))
    } else {
        Effect::silent(below(stack, 1).push(decimal_cbrt(a)))
    }
}

/// `b`: takes the top of the stack, or zero, and puts its cube root in its
/// place.
pub fn stack_cbrt(stack: &mut Stack) -> (out: Vec<Message>)
    ensures
        final(stack)@ == after_cbrt(old(stack)@).stack,
        views(out@) == after_cbrt(old(stack)@).messages,
{
    proof {
        lemma_take_and_put_back(stack@);
    }
    let value = stack.pop_or_zero();
    if !value.within_limits() {
        stack.push(value);
        return one_message(Message::OutOfRange(Operator::Cbrt));
    }
    stack.push(backend::cube_root(&value));
    no_messages()
}

} // verus!
