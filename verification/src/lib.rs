//! An RPN calculator engine on arbitrary-precision decimals.
//!
//! A line of text is split into tokens at white space. A token made of
//! digits, `-` and `.` is parsed and pushed on the operand stack; a token made
//! of operator characters is executed against the stack, one character at a
//! time; anything else is reported. Nothing is printed here: every function
//! hands back the messages that it has to give, and the caller shows them.
//!
//! Every function states what it does over a mathematical model: a number is
//! a mantissa and a scale, a stack is a sequence of numbers, and an operator
//! has an effect, which is the stack that it leaves and the messages that it
//! gives. Verus proves each statement. The arithmetic itself is done by the
//! `bigdecimal` crate; `backend` holds the calls into it and says what each is
//! taken to do.
//!
//! - `number`, `value`: decimal numbers and the laws of their values
//! - `literal`, `token`: numeric literals, white space, tokens and their kinds
//! - `operator`, `message`, `stack`: the operators, what is reported, the stack
//! - `arithmetic`, `power`, `root`, `show`: what each operator does
//! - `eval`: tokens and lines evaluated in turn
//! - `laws`: what holds of the operators in general

pub mod arithmetic;
pub mod backend;
pub mod eval;
pub mod laws;
pub mod literal;
pub mod message;
pub mod number;
pub mod operator;
pub mod power;
pub mod root;
pub mod show;
pub mod stack;
pub mod token;
pub mod value;
