//! Laws of the operators, stated over the effects that the functions of the
//! stack are proved to have.

use crate::eval::{after_line, after_run, after_symbol, after_token, after_tokens, apply};
use crate::literal::{is_plain_literal, lemma_plain_literal_is_number_text, literal_value};
use crate::message::MessageView;
use crate::number::Decimal;
use crate::operator::Operator;
use crate::power::power;
use crate::stack::{below, operand, padded, Effect};
use crate::token::{
    is_whitespace, lemma_tokens_of_joined, spans_of, token_kind, tokens_of, TokenKind,
};
use crate::value::lemma_difference;
use vstd::arithmetic::power::pow;
use vstd::prelude::*;

verus! {

/// An operator treats operands that are missing as zero: on a stack that is
/// shorter than its arity it does what it does on that stack with zeros put
/// under it.
pub proof fn lemma_missing_operands_are_zero(op: Operator, stack: Seq<Decimal>)
    ensures
        apply(op, stack) == apply(op, padded(stack, op.arity())),
{
    let full = padded(stack, op.arity());
    if stack.len() < op.arity() {
        assert(operand(full, 0) == operand(stack, 0));
        assert(operand(full, 1) == operand(stack, 1));
        assert(below(full, op.arity()) =~= below(stack, op.arity()));
        assert(padded(full, op.arity()) =~= full);
    }
}

/// On an empty stack no binary operator fails for want of operands: `+` and
/// `-` leave zero, `^` leaves one, and `/` finds its divisor zero.
pub proof fn lemma_binary_operators_on_empty_stack()
    ensures
        apply(Operator::Add, Seq::empty()) == Effect::silent(seq![Decimal::zero()]),
        apply(Operator::Sub, Seq::empty()) == Effect::silent(seq![Decimal::zero()]),
        apply(Operator::Pow, Seq::empty()) == Effect::silent(seq![Decimal::one()]),
        apply(Operator::Div, Seq::empty()) == Effect::with(
            seq![Decimal::zero(), Decimal::zero()],
            MessageView::DivisionByZero,
        ),
{
    let empty = Seq::<Decimal>::empty();
    let zero = Decimal::zero();
    reveal(pow);
    assert(pow(10, 0) == 1);
    assert(zero.sum(zero) == zero);
    assert(zero.difference(zero) == zero);
    assert(below(empty, 2).push(zero) =~= seq![zero]);
    assert(zero.integer_part() == 0);
    assert(power(zero, 0) == Some(Decimal::one()));
    assert(zero.is_integral());
    assert(below(empty, 2).push(Decimal::one()) =~= seq![Decimal::one()]);
    assert(padded(empty, 2) =~= seq![zero, zero]);
}

/// Any run of `+` and `-` on the empty stack gives no error and leaves zero:
/// each operator finds zeros for the operands that are missing.
pub proof fn lemma_sums_on_empty_stack(symbols: Seq<char>)
    requires
        symbols.len() > 0,
        forall|i: int| 0 <= i < symbols.len() ==> symbols[i] == '+' || symbols[i] == '-',
    ensures
        after_run(symbols, Seq::empty()) == Effect::silent(seq![Decimal::zero()]),
    decreases symbols.len(),
{
    let empty = Seq::<Decimal>::empty();
    let zero = Decimal::zero();
    let none = Seq::<MessageView>::empty();
    lemma_binary_operators_on_empty_stack();
    let front = symbols.drop_last();
    let before = after_run(front, empty);
    let step = after_symbol(symbols.last(), before.stack);
    if front.len() == 0 {
        assert(step == Effect::silent(seq![zero]));
    } else {
        lemma_sums_on_empty_stack(front);
        reveal(pow);
        assert(pow(10, 0) == 1);
        assert(zero.sum(zero) == zero);
        assert(zero.difference(zero) == zero);
        assert(operand(seq![zero], 0) == zero);
        assert(operand(seq![zero], 1) == zero);
        assert(below(seq![zero], 2).push(zero) =~= seq![zero]);
        assert(step == Effect::silent(seq![zero]));
    }
    assert(none + none =~= none);
}

/// With `a` pushed and then `b`, `-` leaves `a - b` on top: a number with
/// the larger of the two scales whose mantissa is that of `a` less that of `b`,
/// each taken at that scale.
pub proof fn lemma_subtraction_order(stack: Seq<Decimal>, a: Decimal, b: Decimal)
    requires
        a.within_limits(),
        b.within_limits(),
    ensures
        apply(Operator::Sub, stack.push(a).push(b)) == Effect::silent(
            stack.push(a.difference(b)),
        ),
        a.difference(b).scale == if a.scale >= b.scale { a.scale } else { b.scale },
        a.difference(b).unscaled == a.aligned(a.difference(b).scale) - b.aligned(
            a.difference(b).scale,
        ),
{
    let full = stack.push(a).push(b);
    assert(below(full, 2) =~= stack);
    lemma_difference(a, b);
}

/// The square root of a negative number is refused: the number stays on the
/// stack, which is left as it was, and an error is given.
pub proof fn lemma_negative_root_is_refused(stack: Seq<Decimal>, a: Decimal)
    requires
        a.unscaled < 0,
    ensures
        apply(Operator::Sqrt, stack.push(a)) == Effect::with(
            stack.push(a),
            MessageView::NegativeSqrt,
        ),
{
}

/// An exponent whose integer part does not fit in 32 bits with a sign is
/// refused: base and exponent stay on the stack in their order, and an error
/// is given.
pub proof fn lemma_oversized_exponent_is_refused(
    stack: Seq<Decimal>,
    base: Decimal,
    exponent: Decimal,
)
    requires
        base.within_limits(),
        exponent.within_limits(),
        exponent.integer_part() < i32::MIN || exponent.integer_part() > i32::MAX,
    ensures
        apply(Operator::Pow, stack.push(base).push(exponent)) == Effect::with(
            stack.push(base).push(exponent),
            MessageView::ExponentTooLarge,
        ),
{
}

/// After `c` the stack is empty, whatever it held.
pub proof fn lemma_clear_empties(stack: Seq<Decimal>)
    ensures
        apply(Operator::Clear, stack).stack.len() == 0,
{
}

/// An operator reads and changes its operands only: what lies under them
/// stays where it was. The one exception is `c`, which takes everything.
pub proof fn lemma_stack_below_operands_is_kept(op: Operator, stack: Seq<Decimal>, i: int)
    requires
        op != Operator::Clear,
        0 <= i < stack.len() - op.arity(),
    ensures
        i < apply(op, stack).stack.len(),
        apply(op, stack).stack[i] == stack[i],
{
}

/// `p`, `t` and `%` leave the stack as it was.
pub proof fn lemma_showing_changes_nothing(op: Operator, stack: Seq<Decimal>)
    requires
        op == Operator::Print || op == Operator::Top || op == Operator::Mod,
    ensures
        apply(op, stack).stack == stack,
{
}

/// An operator that gives an error leaves its operands on the stack: the
/// stack as it was, with zeros under it where it was shorter than the
/// operator's arity.
pub proof fn lemma_errors_put_operands_back(op: Operator, stack: Seq<Decimal>)
    requires
        apply(op, stack).messages.len() == 1,
        apply(op, stack).messages[0].category() == crate::message::Category::Error,
    ensures
        apply(op, stack).stack == padded(stack, op.arity()),
{
}

/// A plain literal is taken for a number and puts that number on the stack,
/// with every digit that it writes.
pub proof fn lemma_plain_literal_is_pushed(token: Seq<char>, stack: Seq<Decimal>)
    requires
        is_plain_literal(token),
    ensures
        token_kind(token) == TokenKind::Number,
        after_token(token, stack) == Effect::silent(stack.push(literal_value(token))),
{
    lemma_plain_literal_is_number_text(token);
}

/// A token that is no number and no run of operators changes nothing.
pub proof fn lemma_invalid_token_changes_nothing(token: Seq<char>, stack: Seq<Decimal>)
    requires
        token_kind(token) == TokenKind::Invalid,
    ensures
        after_token(token, stack) == Effect::with(stack, MessageView::UnknownToken(token)),
{
}

/// A line of white space alone has no token and no effect.
pub proof fn lemma_blank_line_has_no_effect(line: Seq<char>, stack: Seq<Decimal>)
    requires
        forall|i: int| 0 <= i < line.len() ==> is_whitespace(#[trigger] line[i]),
    ensures
        tokens_of(line).len() == 0,
        after_line(line, stack) == Effect::silent(stack),
    decreases line.len(),
{
    if line.len() > 0 {
        lemma_blank_line_has_no_effect(line.drop_last(), stack);
        assert(spans_of(line) == spans_of(line.drop_last()));
    }
}

/// Evaluating tokens one after another is evaluating them in two parts:
/// the second part starts from the stack that the first part left, and the
/// messages of both follow each other.
pub proof fn lemma_tokens_in_two_parts(
    first: Seq<Seq<char>>,
    second: Seq<Seq<char>>,
    stack: Seq<Decimal>,
)
    ensures
        after_tokens(first + second, stack) == after_tokens(first, stack).followed_by(
            after_tokens(second, after_tokens(first, stack).stack),
        ),
    decreases second.len(),
{
    let half = after_tokens(first, stack);
    if second.len() == 0 {
        assert(first + second =~= first);
        assert(half.messages + Seq::<MessageView>::empty() =~= half.messages);
    } else {
        let shorter = second.drop_last();
        lemma_tokens_in_two_parts(first, shorter, stack);
        assert((first + second).drop_last() =~= first + shorter);
        let rest = after_tokens(shorter, half.stack);
        let step = after_token(second.last(), rest.stack);
        assert((half.messages + rest.messages) + step.messages =~= half.messages + (rest.messages
            + step.messages));
    }
}

/// Where a line is broken does not matter: two lines evaluated one after
/// the other do what the one line does that holds both with white space
/// between them.
pub proof fn lemma_lines_compose(
    first: Seq<char>,
    gap: char,
    second: Seq<char>,
    stack: Seq<Decimal>,
)
    requires
        is_whitespace(gap),
    ensures
        after_line(first.push(gap) + second, stack) == after_line(first, stack).followed_by(
            after_line(second, after_line(first, stack).stack),
        ),
{
    lemma_tokens_of_joined(first, gap, second);
    lemma_tokens_in_two_parts(tokens_of(first), tokens_of(second), stack);
}

} // verus!
