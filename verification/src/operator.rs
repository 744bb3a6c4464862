//! The closed set of operators, one character each.

use vstd::prelude::*;

verus! {

/// An operator of the calculator.
#[derive(Clone, Copy, Debug, PartialEq, Eq, Structural)]
pub enum Operator {
    /// `+`
    Add,
    /// `-`
    Sub,
    /// `*`
    Mul,
    /// `/`
    Div,
    /// `^`
    Pow,
    /// `v`, the square root
    Sqrt,
    /// `b`, the cube root
    Cbrt,
    /// `%`, which is in the alphabet and has no effect but an error
    Mod,
    /// `p`, which shows the stack
    Print,
    /// `c`, which empties the stack
    Clear,
    /// `t`, which shows the top of the stack
    Top,
}

impl Operator {
    /// The operator that a character stands for, if it stands for one.
    pub open spec fn of_char(c: char) -> Option<Operator> {
        if c == '+' {
            Some(Operator::Add)
        } else if c == '-' {
            Some(Operator::Sub)
        } else if c == '*' {
            Some(Operator::Mul)
        } else if c == '/' {
            Some(Operator::Div)
        } else if c == '^' {
            Some(Operator::Pow)
        } else if c == 'v' {
            Some(Operator::Sqrt)
        } else if c == 'b' {
            Some(Operator::Cbrt)
        } else if c == '%' {
            Some(Operator::Mod)
        } else if c == 'p' {
            Some(Operator::Print)
        } else if c == 'c' {
            Some(Operator::Clear)
        } else if c == 't' {
            Some(Operator::Top)
        } else {
            None
        }
    }

    /// The character that stands for the operator.
    pub open spec fn spec_symbol(self) -> char {
        match self {
            Operator::Add => '+',
            Operator::Sub => '-',
            Operator::Mul => '*',
            Operator::Div => '/',
            Operator::Pow => '^',
            Operator::Sqrt => 'v',
            Operator::Cbrt => 'b',
            Operator::Mod => '%',
            Operator::Print => 'p',
            Operator::Clear => 'c',
            Operator::Top => 't',
        }
    }

    /// The operator's symbol as text.
    pub open spec fn spec_name(self) -> Seq<char> {
        match self {
            Operator::Add => "+"@,
            Operator::Sub => "-"@,
            Operator::Mul => "*"@,
            Operator::Div => "/"@,
            Operator::Pow => "^"@,
            Operator::Sqrt => "v"@,
            Operator::Cbrt => "b"@,
            Operator::Mod => "%"@,
            Operator::Print => "p"@,
            Operator::Clear => "c"@,
            Operator::Top => "t"@,
        }
    }

    /// How many operands the operator takes from the stack.
    pub open spec fn arity(self) -> int {
        match self {
            Operator::Add | Operator::Sub | Operator::Mul | Operator::Div | Operator::Pow => 2,
            Operator::Sqrt | Operator::Cbrt => 1,
            Operator::Mod | Operator::Print | Operator::Clear | Operator::Top => 0,
        }
    }

    /// The operator that a character stands for, if it stands for one.
    pub fn from_char(c: char) -> (r: Option<Operator>)
        ensures
            r == Operator::of_char(c),
    {
        if c == '+' {
            Some(Operator::Add)
        } else if c == '-' {
            Some(Operator::Sub)
        } else if c == '*' {
            Some(Operator::Mul)
        } else if c == '/' {
            Some(Operator::Div)
        } else if c == '^' {
            Some(Operator::Pow)
        } else if c == 'v' {
            Some(Operator::Sqrt)
        } else if c == 'b' {
            Some(Operator::Cbrt)
        } else if c == '%' {
            Some(Operator::Mod)
        } else if c == 'p' {
            Some(Operator::Print)
        } else if c == 'c' {
            Some(Operator::Clear)
        } else if c == 't' {
            Some(Operator::Top)
        } else {
            None
        }
    }

    /// The operator's symbol as text.
    pub fn name(self) -> (r: &'static str)
        ensures
            r@ == self.spec_name(),
    {
        match self {
            Operator::Add => "+",
            Operator::Sub => "-",
            Operator::Mul => "*",
            Operator::Div => "/",
            Operator::Pow => "^",
            Operator::Sqrt => "v",
            Operator::Cbrt => "b",
            Operator::Mod => "%",
            Operator::Print => "p",
            Operator::Clear => "c",
            Operator::Top => "t",
        }
    }

    /// The character that stands for the operator.
    #[verifier::when_used_as_spec(spec_symbol)]
    pub fn symbol(self) -> (c: char)
        ensures
            c == self.spec_symbol(),
    {
        match self {
            Operator::Add => '+',
            Operator::Sub => '-',
            Operator::Mul => '*',
            Operator::Div => '/',
            Operator::Pow => '^',
            Operator::Sqrt => 'v',
            Operator::Cbrt => 'b',
            Operator::Mod => '%',
            Operator::Print => 'p',
            Operator::Clear => 'c',
            Operator::Top => 't',
        }
    }
}

/// Whether a character belongs to the operator alphabet.
pub open spec fn is_operator_char(c: char) -> bool {
    Operator::of_char(c) is Some
}

/// A character stands for the operator whose symbol it is, every operator's
/// symbol stands for it, and its name is its symbol alone.
pub proof fn lemma_symbol_round_trip(op: Operator, c: char)
    ensures
        Operator::of_char(op.spec_symbol()) == Some(op),
        Operator::of_char(c) matches Some(o) ==> o.spec_symbol() == c,
        op.spec_name() == seq![op.spec_symbol()],
{
    reveal_strlit("+");
    reveal_strlit("-");
    reveal_strlit("*");
    reveal_strlit("/");
    reveal_strlit("^");
    reveal_strlit("v");
    reveal_strlit("b");
    reveal_strlit("%");
    reveal_strlit("p");
    reveal_strlit("c");
    reveal_strlit("t");
    assert(op.spec_name() =~= seq![op.spec_symbol()]);
}

} // verus!
