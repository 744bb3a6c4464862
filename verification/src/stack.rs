//! The operand stack, and the effect that an operator has on it.

use crate::message::MessageView;
use crate::number::{zero, Decimal, Number};
use vstd::prelude::*;

verus! {

/// The operand stack: numbers in the order in which they were pushed, the
/// last one on top.
#[derive(Clone, Debug)]
pub struct Stack {
    pub items: Vec<Number>,
}

impl View for Stack {
    type V = Seq<Decimal>;

    open spec fn view(&self) -> Seq<Decimal> {
        self.items@.map_values(|n: Number| n@)
    }
}

/// The operand at a depth below the top of the stack, the top being at depth
/// 0. Where the stack is too short the operand is zero.
pub open spec fn operand(stack: Seq<Decimal>, depth: int) -> Decimal {
    if 0 <= depth < stack.len() {
        stack[stack.len() - 1 - depth]
    } else {
        Decimal::zero()
    }
}

/// The stack without its top `count` elements; empty where it has no more.
pub open spec fn below(stack: Seq<Decimal>, count: int) -> Seq<Decimal> {
    if 0 <= count <= stack.len() {
        stack.take(stack.len() - count)
    } else {
        Seq::empty()
    }
}

/// The stack with zeros put under it until it has `count` elements; the
/// stack itself where it has that many. It is what taking `count` operands and
/// putting them back leaves.
pub open spec fn padded(stack: Seq<Decimal>, count: int) -> Seq<Decimal> {
    if stack.len() >= count {
        stack
    } else {
        Seq::new((count - stack.len()) as nat, |i: int| Decimal::zero()) + stack
    }
}

impl Stack {
    /// An empty stack.
    pub fn new() -> (stack: Stack)
        ensures
            stack@.len() == 0,
    {
        Stack { items: Vec::new() }
    }

    /// The number of elements.
    pub fn len(&self) -> (n: usize)
        ensures
            n == self@.len(),
    {
        self.items.len()
    }

    /// Whether the stack has no element.
    pub fn is_empty(&self) -> (r: bool)
        ensures
            r == (self@.len() == 0),
    {
        self.items.len() == 0
    }

    /// Puts a number on top.
    pub fn push(&mut self, number: Number)
        ensures
            final(self)@ == old(self)@.push(number@),
    {
        self.items.push(number);
        assert(self@ =~= old(self)@.push(number@));
    }

    /// Takes the top of the stack, or zero where the stack is empty.
    pub fn pop_or_zero(&mut self) -> (number: Number)
        ensures
            number@ == operand(old(self)@, 0),
            final(self)@ == below(old(self)@, 1),
    {
        match self.items.pop() {
            Some(number) => {
                assert(self@ =~= below(old(self)@, 1));
                number
            },
            None => {
                assert(self@ =~= below(old(self)@, 1));
                zero()
            },
        }
    }
}

/// What an operator does: the stack that it leaves and the messages that it
/// gives, in their order.
pub struct Effect {
    pub stack: Seq<Decimal>,
    pub messages: Seq<MessageView>,
}

impl Effect {
    /// The effect that gives no message.
    pub open spec fn silent(stack: Seq<Decimal>) -> Effect {
        Effect { stack, messages: Seq::empty() }
    }

    /// The effect that gives one message.
    pub open spec fn with(stack: Seq<Decimal>, message: MessageView) -> Effect {
        Effect { stack, messages: seq![message] }
    }

    /// This effect and another one after it: the stack that the second
    /// leaves, and the messages of both.
    pub open spec fn followed_by(self, next: Effect) -> Effect {
        Effect { stack: next.stack, messages: self.messages + next.messages }
    }
}

/// Taking operands off the stack one by one takes them off together, and
/// putting them back leaves the stack with zeros under it where it was short.
pub proof fn lemma_take_and_put_back(stack: Seq<Decimal>)
    ensures
        below(below(stack, 1), 1) == below(stack, 2),
        operand(below(stack, 1), 0) == operand(stack, 1),
        below(stack, 1).push(operand(stack, 0)) == padded(stack, 1),
        below(stack, 2).push(operand(stack, 1)).push(operand(stack, 0)) == padded(stack, 2),
{
    assert(below(below(stack, 1), 1) =~= below(stack, 2));
    assert(below(stack, 1).push(operand(stack, 0)) =~= padded(stack, 1));
    assert(below(stack, 2).push(operand(stack, 1)).push(operand(stack, 0)) =~= padded(stack, 2));
}

} // verus!
