//! `p`, `t` and `c`: showing the stack and emptying it.

use crate::message::{one_message, views, Message, MessageView};
use crate::number::Decimal;
use crate::stack::{operand, Effect, Stack};
use vstd::prelude::*;

verus! {

/// The effect of `p`: every element from the top down as a message, or the
/// notice that the stack is empty; the stack as it was.
pub open spec fn after_print(stack: Seq<Decimal>) -> Effect {
    if stack.len() == 0 {
        Effect::with(stack, MessageView::StackEmpty)
    } else {
        Effect {
            stack,
            messages: Seq::new(stack.len(), |i: int| MessageView::Value(operand(stack, i))),
        }
    }
}

/// `p`: shows the whole stack, from the top down, and leaves it as it was.
pub fn stack_print(stack: &mut Stack) -> (out: Vec<Message>)
    ensures
        final(stack)@ == after_print(old(stack)@).stack,
        views(out@) == after_print(old(stack)@).messages,
{
    if stack.items.len() == 0 {
        return one_message(Message::StackEmpty);
    }
    let mut out: Vec<Message> = Vec::new();
    let mut depth: usize = 0;
    while depth < stack.items.len()
        invariant
            depth <= stack.items.len(),
            *stack == *old(stack),
            out@.len() == depth,
            forall|i: int| 0 <= i < depth ==> (#[trigger] out@[i])@ == MessageView::Value(
                operand(stack@, i),
            ),
        decreases stack.items.len() - depth,
    {
        let number = stack.items[stack.items.len() - 1 - depth].duplicate();
        out.push(Message::Value(number));
        depth += 1;
    }
    assert(views(out@) =~= after_print(stack@).messages);
    out
}

/// The effect of `c`: an empty stack, and a message that says so.
pub open spec fn after_clear(stack: Seq<Decimal>) -> Effect {
    Effect::with(Seq::empty(), MessageView::Cleared)
}

/// `c`: empties the stack.
pub fn stack_clear(stack: &mut Stack) -> (out: Vec<Message>)
    ensures
        final(stack)@ == after_clear(old(stack)@).stack,
        views(out@) == after_clear(old(stack)@).messages,
        final(stack)@.len() == 0,
{
    stack.items.clear();
    assert(stack@ =~= Seq::<Decimal>::empty());
    one_message(Message::Cleared)
}

/// The effect of `t`: the top element as a message, or the notice that the
/// stack is empty; the stack as it was.
pub open spec fn after_top(stack: Seq<Decimal>) -> Effect {
    if stack.len() == 0 {
        Effect::with(stack, MessageView::StackEmpty)
    } else {
        Effect::with(stack, MessageView::Value(stack.last()))
    }
}

/// `t`: shows the top of the stack and leaves the stack as it was.
pub fn stack_top(stack: &mut Stack) -> (out: Vec<Message>)
    ensures
        final(stack)@ == after_top(old(stack)@).stack,
        views(out@) == after_top(old(stack)@).messages,
{
    let len = stack.items.len();
    if len == 0 {
        one_message(Message::StackEmpty)
    } else {
        one_message(Message::Value(stack.items[len - 1].duplicate()))
    }
}

} // verus!
