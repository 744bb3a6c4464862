//! What the calculator reports: results, warnings and errors, one line each.

use crate::backend::decimal_text;
use crate::number::{Decimal, Number};
use crate::operator::Operator;
use vstd::prelude::*;

verus! {

/// One line of output of the calculator.
#[derive(Clone, Debug)]
pub enum Message {
    /// A number of the stack, shown by `p` or `t`.
    Value(Number),
    /// The stack was emptied by `c`.
    Cleared,
    /// There was nothing on the stack to show.
    StackEmpty,
    /// An exponent had a fractional part, which was dropped.
    ExponentTruncated,
    /// A token looked like a number and is none.
    ParseError(String),
    /// A token is neither a number nor a run of operators.
    UnknownToken(String),
    /// The square root of a negative number was asked for.
    NegativeSqrt,
    /// The integer part of an exponent does not fit in 32 bits with a sign.
    ExponentTooLarge,
    /// The divisor was zero.
    DivisionByZero,
    /// The operator is in the alphabet and is not supported.
    Unsupported(Operator),
    /// An operand's scale lies outside the limits of the operator.
    OutOfRange(Operator),
}

/// The mathematical model of a message.
pub enum MessageView {
    Value(Decimal),
    Cleared,
    StackEmpty,
    ExponentTruncated,
    ParseError(Seq<char>),
    UnknownToken(Seq<char>),
    NegativeSqrt,
    ExponentTooLarge,
    DivisionByZero,
    Unsupported(Operator),
    OutOfRange(Operator),
}

impl View for Message {
    type V = MessageView;

    open spec fn view(&self) -> MessageView {
        match self {
            Message::Value(n) => MessageView::Value(n@),
            Message::Cleared => MessageView::Cleared,
            Message::StackEmpty => MessageView::StackEmpty,
            Message::ExponentTruncated => MessageView::ExponentTruncated,
            Message::ParseError(token) => MessageView::ParseError(token@),
            Message::UnknownToken(token) => MessageView::UnknownToken(token@),
            Message::NegativeSqrt => MessageView::NegativeSqrt,
            Message::ExponentTooLarge => MessageView::ExponentTooLarge,
            Message::DivisionByZero => MessageView::DivisionByZero,
            Message::Unsupported(op) => MessageView::Unsupported(*op),
            Message::OutOfRange(op) => MessageView::OutOfRange(*op),
        }
    }
}

/// The models of a sequence of messages.
pub open spec fn views(messages: Seq<Message>) -> Seq<MessageView> {
    messages.map_values(|m: Message| m@)
}

/// The kind of a line of output, by which it is styled.
#[derive(Clone, Copy, Debug, PartialEq, Eq, Structural)]
pub enum Category {
    /// The prompt for input.
    Prompt,
    /// A result.
    Result,
    /// A warning or a notice.
    Warning,
    /// An error.
    Error,
}

impl MessageView {
    /// The category of a message: values and the confirmation of `c` are
    /// results, an empty stack and a truncated exponent are warnings, and
    /// everything else is an error.
    pub open spec fn category(self) -> Category {
        match self {
            MessageView::Value(_) | MessageView::Cleared => Category::Result,
            MessageView::StackEmpty | MessageView::ExponentTruncated => Category::Warning,
            _ => Category::Error,
        }
    }

    /// The message as a line of text. An error names the token or the
    /// operator that it is about and says what is wrong.
    pub open spec fn text(self) -> Seq<char> {
        match self {
            MessageView::Value(number) => decimal_text(number),
            MessageView::Cleared => "Cleared the stack!"@,
            MessageView::StackEmpty => "Stack is empty."@,
            MessageView::ExponentTruncated => "^: the exponent's fractional part was dropped."@,
            MessageView::ParseError(token) => "Could not parse '"@ + token + "' into a number!"@,
            MessageView::UnknownToken(token) => "Unknown character(s) '"@ + token + "'"@,
            MessageView::NegativeSqrt =>
                "v: cannot take the square root of a negative number; it stays on the stack."@,
            MessageView::ExponentTooLarge =>
                "^: the exponent does not fit in 32 bits; both numbers stay on the stack."@,
            MessageView::DivisionByZero =>
                "/: cannot divide by zero; both numbers stay on the stack."@,
            MessageView::Unsupported(op) => op.spec_name() + ": this operator is not supported."@,
            MessageView::OutOfRange(op) => op.spec_name()
                + ": a scale is out of range; the operands stay on the stack."@,
        }
    }
}

impl Message {
    /// The message as a line of text.
    pub fn text(&self) -> (r: String)
        ensures
            r@ == self@.text(),
    {
        match self {
            Message::Value(number) => number.to_text(),
            Message::Cleared => "Cleared the stack!".to_owned(),
            Message::StackEmpty => "Stack is empty.".to_owned(),
            Message::ExponentTruncated =>
                "^: the exponent's fractional part was dropped.".to_owned(),
            Message::ParseError(token) => {
                let mut line = "Could not parse '".to_owned();
                line.append(token.as_str());
                line.append("' into a number!");
                line
            },
            Message::UnknownToken(token) => {
                let mut line = "Unknown character(s) '".to_owned();
                line.append(token.as_str());
                line.append("'");
                line
            },
            Message::NegativeSqrt =>
                "v: cannot take the square root of a negative number; it stays on the stack."
                    .to_owned(),
            Message::ExponentTooLarge =>
                "^: the exponent does not fit in 32 bits; both numbers stay on the stack."
                    .to_owned(),
            Message::DivisionByZero =>
                "/: cannot divide by zero; both numbers stay on the stack.".to_owned(),
            Message::Unsupported(op) => {
                let mut line = op.name().to_owned();
                line.append(": this operator is not supported.");
                line
            },
            Message::OutOfRange(op) => {
                let mut line = op.name().to_owned();
                line.append(": a scale is out of range; the operands stay on the stack.");
                line
            },
        }
    }

    /// The category of the message, which is never that of the prompt.
    pub fn category(&self) -> (c: Category)
        ensures
            c == self@.category(),
            c != Category::Prompt,
    {
        match self {
            Message::Value(_) | Message::Cleared => Category::Result,
            Message::StackEmpty | Message::ExponentTruncated => Category::Warning,
            _ => Category::Error,
        }
    }
}

/// No messages.
pub fn no_messages() -> (out: Vec<Message>)
    ensures
        views(out@) == Seq::<MessageView>::empty(),
{
    let out: Vec<Message> = Vec::new();
    assert(views(out@) =~= Seq::<MessageView>::empty());
    out
}

/// One message.
pub fn one_message(message: Message) -> (out: Vec<Message>)
    ensures
        views(out@) == seq![message@],
{
    let mut out: Vec<Message> = Vec::new();
    out.push(message);
    assert(views(out@) =~= seq![message@]);
    out
}

} // verus!
