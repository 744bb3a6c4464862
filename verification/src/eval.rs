//! Evaluating a line: each token in turn, against the stack that the
//! tokens before it left.

use crate::arithmetic::{
    after_add, after_div, after_mod, after_mul, after_sub, stack_add, stack_div, stack_mod,
    stack_mul, stack_sub,
};
use crate::backend;
use crate::backend::parsed_decimal;
use crate::literal::{begins_with_point_minus, is_number_text, is_plain_literal, literal_value};
use crate::message::{no_messages, one_message, views, Message, MessageView};
use crate::number::{Decimal, Number};
use crate::operator::Operator;
use crate::power::{after_pow, stack_pow};
use crate::root::{after_cbrt, after_sqrt, stack_cbrt, stack_sqrt};
use crate::show::{after_clear, after_print, after_top, stack_clear, stack_print, stack_top};
use crate::stack::{Effect, Stack};
use crate::token::{
    classify, lemma_spans_are_the_tokens, span_views, spans_of, token_kind, token_spans,
    tokens_of, TokenKind,
};
use vstd::prelude::*;

verus! {

/// The effect of an operator on a stack.
pub open spec fn apply(op: Operator, stack: Seq<Decimal>) -> Effect {
    match op {
        Operator::Add => after_add(stack),
        Operator::Sub => after_sub(stack),
        Operator::Mul => after_mul(stack),
        Operator::Div => after_div(stack),
        Operator::Pow => after_pow(stack),
        Operator::Sqrt => after_sqrt(stack),
        Operator::Cbrt => after_cbrt(stack),
        Operator::Mod => after_mod(stack),
        Operator::Print => after_print(stack),
        Operator::Clear => after_clear(stack),
        Operator::Top => after_top(stack),
    }
}

/// Executes one operator against the stack.
pub fn apply_operator(stack: &mut Stack, op: Operator) -> (out: Vec<Message>)
    ensures
        final(stack)@ == apply(op, old(stack)@).stack,
        views(out@) == apply(op, old(stack)@).messages,
{
    match op {
        Operator::Add => stack_add(stack),
        Operator::Sub => stack_sub(stack),
        Operator::Mul => stack_mul(stack),
        Operator::Div => stack_div(stack),
        Operator::Pow => stack_pow(stack),
        Operator::Sqrt => stack_sqrt(stack),
        Operator::Cbrt => stack_cbrt(stack),
        Operator::Mod => stack_mod(stack),
        Operator::Print => stack_print(stack),
        Operator::Clear => stack_clear(stack),
        Operator::Top => stack_top(stack),
    }
}

/// A token that looked like a number and is none.
#[derive(Clone, Debug)]
pub struct ParseError {
    pub token: String,
}

/// The number that a text writes, or nothing where it writes none. A plain
/// literal writes the number that its digits say, every one of them kept. Any
/// other text made of digits, `-` and `.` writes none, unless it begins with
/// `.-`. Of the remaining texts the decimal parser decides.
pub open spec fn number_of(text: Seq<char>) -> Option<Decimal> {
    if is_plain_literal(text) {
        Some(literal_value(text))
    } else if is_number_text(text) && !begins_with_point_minus(text) {
        None
    } else {
        parsed_decimal(text)
    }
}

/// Parses a numeric literal.
pub fn parse_number(token: &str) -> (r: Result<Number, ParseError>)
    ensures
        r is Ok <==> number_of(token@) is Some,
        r matches Ok(n) ==> number_of(token@) == Some(n@),
        r matches Err(e) ==> e.token@ == token@,
{
    match backend::parse_decimal(token) {
        Ok(number) => Ok(number),
        Err(_) => Err(ParseError { token: token.to_owned() }),
    }
}

/// The effect of a number token: the number on top of the stack, or an
/// error and the stack as it was.
pub open spec fn after_number(token: Seq<char>, stack: Seq<Decimal>) -> Effect {
    match number_of(token) {
        Some(number) => Effect::silent(stack.push(number)),
        None => Effect::with(stack, MessageView::ParseError(token)),
    }
}

/// Puts a parsed number on the stack, or reports the token that was none.
pub fn push_parsed(stack: &mut Stack, parsed: Result<Number, ParseError>) -> (out: Vec<Message>)
    ensures
        parsed matches Ok(n) ==> final(stack)@ == old(stack)@.push(n@) && views(out@)
            == Seq::<MessageView>::empty(),
        parsed matches Err(e) ==> final(stack)@ == old(stack)@ && views(out@) == seq![
            MessageView::ParseError(e.token@),
        ],
{
    match parsed {
        Ok(number) => {
            stack.push(number);
            no_messages()
        },
        Err(error) => one_message(Message::ParseError(error.token)),
    }
}

/// The effect of one operator character. A character that is no operator
/// does nothing; a run of operators holds none.
pub open spec fn after_symbol(symbol: char, stack: Seq<Decimal>) -> Effect {
    match Operator::of_char(symbol) {
        Some(op) => apply(op, stack),
        None => Effect::silent(stack),
    }
}

/// The effect of a run of operator characters: each in turn, against the
/// stack that the ones before it left.
pub open spec fn after_run(symbols: Seq<char>, stack: Seq<Decimal>) -> Effect
    decreases symbols.len(),
{
    if symbols.len() == 0 {
        Effect::silent(stack)
    } else {
        let before = after_run(symbols.drop_last(), stack);
        before.followed_by(after_symbol(symbols.last(), before.stack))
    }
}

/// The effect of a token: a number is parsed and pushed, a run of operators
/// is executed, and anything else is reported and changes nothing.
pub open spec fn after_token(token: Seq<char>, stack: Seq<Decimal>) -> Effect {
    match token_kind(token) {
        TokenKind::Number => after_number(token, stack),
        TokenKind::OperatorRun => after_run(token, stack),
        TokenKind::Invalid => Effect::with(stack, MessageView::UnknownToken(token)),
    }
}

/// The effect of a sequence of tokens: each in turn, against the stack that
/// the ones before it left.
pub open spec fn after_tokens(tokens: Seq<Seq<char>>, stack: Seq<Decimal>) -> Effect
    decreases tokens.len(),
{
    if tokens.len() == 0 {
        Effect::silent(stack)
    } else {
        let before = after_tokens(tokens.drop_last(), stack);
        before.followed_by(after_token(tokens.last(), before.stack))
    }
}

/// The effect of a line: that of its tokens.
pub open spec fn after_line(line: Seq<char>, stack: Seq<Decimal>) -> Effect {
    after_tokens(tokens_of(line), stack)
}

/// Adds messages to those that are there.
fn extend(out: &mut Vec<Message>, more: Vec<Message>)
    ensures
        views(final(out)@) == views(old(out)@) + views(more@),
{
    let mut more = more;
    let ghost added = more@;
    out.append(&mut more);
    assert(views(out@) =~= views(old(out)@) + views(added));
}

/// Executes the operators of a run, one by one.
pub fn run_operators(symbols: &str, stack: &mut Stack) -> (out: Vec<Message>)
    ensures
        final(stack)@ == after_run(symbols@, old(stack)@).stack,
        views(out@) == after_run(symbols@, old(stack)@).messages,
{
    let mut out = no_messages();
    for c in it: symbols.chars()
        invariant
            it.seq() == symbols@,
            stack@ == after_run(symbols@.take(it.index()), old(stack)@).stack,
            views(out@) == after_run(symbols@.take(it.index()), old(stack)@).messages,
    {
        proof {
            assert(symbols@.take(it.index() + 1).drop_last() =~= symbols@.take(it.index()));
        }
        match Operator::from_char(c) {
            Some(op) => {
                let more = apply_operator(stack, op);
                extend(&mut out, more);
            },
            None => {
                assert(views(out@) + Seq::<MessageView>::empty() =~= views(out@));
            },
        }
    }
    assert(symbols@.take(symbols@.len() as int) =~= symbols@);
    out
}

/// Evaluates one token against the stack.
pub fn eval_token(token: &str, stack: &mut Stack) -> (out: Vec<Message>)
    ensures
        final(stack)@ == after_token(token@, old(stack)@).stack,
        views(out@) == after_token(token@, old(stack)@).messages,
{
    match classify(token) {
        TokenKind::Number => {
            let parsed = parse_number(token);
            push_parsed(stack, parsed)
        },
        TokenKind::OperatorRun => run_operators(token, stack),
        TokenKind::Invalid => one_message(Message::UnknownToken(token.to_owned())),
    }
}

/// Evaluates a line of input: splits it into tokens at white space and
/// evaluates each in turn. An error in one token is reported and does not
/// keep the following ones from being evaluated.
pub fn parse(input: &str, stack: &mut Stack) -> (out: Vec<Message>)
    ensures
        final(stack)@ == after_line(input@, old(stack)@).stack,
        views(out@) == after_line(input@, old(stack)@).messages,
{
    let spans = token_spans(input);
    let mut out = no_messages();
    let mut k: usize = 0;
    proof {
        lemma_spans_are_the_tokens(input@);
        assert(tokens_of(input@).take(0) =~= Seq::<Seq<char>>::empty());
    }
    while k < spans.len()
        invariant
            k <= spans.len(),
            span_views(spans@) == spans_of(input@),
            forall|j: int|
                0 <= j < spans_of(input@).len() ==> 0 <= (#[trigger] spans_of(input@)[j]).0
                    < spans_of(input@)[j].1 <= input@.len(),
            stack@ == after_tokens(tokens_of(input@).take(k as int), old(stack)@).stack,
            views(out@) == after_tokens(tokens_of(input@).take(k as int), old(stack)@).messages,
        decreases spans.len() - k,
    {
        let span = spans[k];
        proof {
            assert(span_views(spans@)[k as int] == span@);
            assert(tokens_of(input@).take(k + 1).drop_last() =~= tokens_of(input@).take(k as int));
        }
        let token = input.substring_char(span.start, span.end);
        let more = eval_token(token, stack);
        extend(&mut out, more);
        k += 1;
    }
    assert(tokens_of(input@).take(k as int) =~= tokens_of(input@));
    out
}

} // verus!
