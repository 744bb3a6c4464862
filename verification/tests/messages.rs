use dcrs::arithmetic::{stack_add, stack_div, stack_mod, stack_mul, stack_sub};
use dcrs::eval::apply_operator;
use dcrs::message::{Category, Message};
use dcrs::number::Number;
use dcrs::operator::Operator;
use dcrs::power::stack_pow;
use dcrs::root::{stack_cbrt, stack_sqrt};
use dcrs::show::{stack_clear, stack_print, stack_top};
use dcrs::stack::Stack;

fn far_out() -> Number {
    Number { mantissa: vec![1], scale: 2_000_000_000_000_000_000 }
}

#[test]
fn every_message_has_its_text_and_category() {
    let cases = vec![
        (Message::Cleared, "Cleared the stack!", Category::Result),
        (Message::StackEmpty, "Stack is empty.", Category::Warning),
        (
            Message::ExponentTruncated,
            "^: the exponent's fractional part was dropped.",
            Category::Warning,
        ),
        (
            Message::ParseError(String::from("1-2")),
            "Could not parse '1-2' into a number!",
            Category::Error,
        ),
        (
            Message::UnknownToken(String::from("x?")),
            "Unknown character(s) 'x?'",
            Category::Error,
        ),
        (
            Message::NegativeSqrt,
            "v: cannot take the square root of a negative number; it stays on the stack.",
            Category::Error,
        ),
        (
            Message::ExponentTooLarge,
            "^: the exponent does not fit in 32 bits; both numbers stay on the stack.",
            Category::Error,
        ),
        (
            Message::DivisionByZero,
            "/: cannot divide by zero; both numbers stay on the stack.",
            Category::Error,
        ),
        (
            Message::Unsupported(Operator::Mod),
            "%: this operator is not supported.",
            Category::Error,
        ),
        (
            Message::OutOfRange(Operator::Mul),
            "*: a scale is out of range; the operands stay on the stack.",
            Category::Error,
        ),
    ];
    for (message, text, category) in cases {
        assert_eq!(message.text(), text);
        assert_eq!(message.category(), category);
    }
    let value = Message::Value(Number { mantissa: vec![0x04, 0xd2], scale: 1 });
    assert_eq!(value.text(), "123.4");
    assert_eq!(value.category(), Category::Result);
}

#[test]
fn operands_outside_the_limits_are_put_back() {
    let operators = vec![
        Operator::Add,
        Operator::Sub,
        Operator::Mul,
        Operator::Div,
        Operator::Pow,
        Operator::Sqrt,
        Operator::Cbrt,
    ];
    for op in operators {
        let mut stack = Stack::new();
        stack.push(Number { mantissa: vec![3], scale: 0 });
        stack.push(far_out());
        let out = apply_operator(&mut stack, op);
        assert_eq!(stack.len(), 2);
        assert_eq!(stack.items[0].to_text(), "3");
        assert_eq!(stack.items[1].scale, 2_000_000_000_000_000_000);
        assert_eq!(out.len(), 1);
        match &out[0] {
            Message::OutOfRange(o) => assert_eq!(*o, op),
            other => panic!("unexpected message {:?}", other),
        }
    }
}

#[test]
fn a_negative_number_has_no_square_root_whatever_its_scale() {
    let mut stack = Stack::new();
    stack.push(Number { mantissa: vec![0xff], scale: 2_000_000_000_000_000_000 });
    let out = stack_sqrt(&mut stack);
    assert!(matches!(out[0], Message::NegativeSqrt));
    assert_eq!(stack.len(), 1);
    assert_eq!(stack.items[0].mantissa, vec![0xff]);
}

#[test]
fn a_short_stack_is_padded_when_operands_are_put_back() {
    let mut stack = Stack::new();
    stack.push(far_out());
    let out = stack_add(&mut stack);
    assert!(matches!(out[0], Message::OutOfRange(Operator::Add)));
    assert_eq!(stack.len(), 2);
    assert!(stack.items[0].is_zero());
    let mut stack = Stack::new();
    let out = stack_div(&mut stack);
    assert!(matches!(out[0], Message::DivisionByZero));
    assert_eq!(stack.len(), 2);
}

#[test]
fn each_operator_function_reports_what_it_did() {
    let mut stack = Stack::new();
    assert!(matches!(stack_top(&mut stack)[0], Message::StackEmpty));
    assert!(matches!(stack_print(&mut stack)[0], Message::StackEmpty));
    assert!(matches!(stack_mod(&mut stack)[0], Message::Unsupported(Operator::Mod)));
    assert!(stack.is_empty());
    assert!(stack_sub(&mut stack).is_empty());
    assert!(stack_mul(&mut stack).is_empty());
    assert_eq!(stack.len(), 1);
    assert!(stack_cbrt(&mut stack).is_empty());
    assert!(stack_sqrt(&mut stack).is_empty());
    assert_eq!(stack.items[0].to_text(), "0");
    assert!(stack_pow(&mut stack).is_empty());
    assert_eq!(stack.len(), 1);
    assert_eq!(stack.items[0].to_text(), "1");
    assert!(matches!(stack_clear(&mut stack)[0], Message::Cleared));
    assert!(stack.is_empty());
}

#[test]
fn scales_at_the_limits_are_worked_on() {
    let limit = 1_000_000_000_000_000_000i64;
    for (left, right) in [(limit, limit), (limit, -limit), (-limit, limit), (-limit, -limit)] {
        let mut stack = Stack::new();
        stack.push(Number { mantissa: vec![3], scale: left });
        stack.push(Number { mantissa: vec![7], scale: right });
        assert!(stack_mul(&mut stack).is_empty());
        assert_eq!(stack.items[0].mantissa, vec![21]);
        assert_eq!(stack.items[0].scale, left + right);
        let mut stack = Stack::new();
        stack.push(Number { mantissa: vec![3], scale: left });
        stack.push(Number { mantissa: vec![7], scale: right });
        assert!(stack_div(&mut stack).is_empty());
        assert_eq!(stack.len(), 1);
        let mut stack = Stack::new();
        stack.push(Number { mantissa: vec![2], scale: left });
        assert!(stack_sqrt(&mut stack).is_empty());
        assert!(stack_cbrt(&mut stack).is_empty());
        assert_eq!(stack.len(), 1);
        let mut stack = Stack::new();
        stack.push(Number { mantissa: vec![0], scale: left.min(right) });
        stack.push(Number { mantissa: vec![5], scale: left.max(right) });
        assert!(stack_add(&mut stack).is_empty());
        assert_eq!(stack.items[0].mantissa, vec![5]);
        assert_eq!(stack.items[0].scale, left.max(right));
        assert!(stack.items[0].to_text().len() > 0);
    }
}

#[test]
fn numbers_of_any_scale_are_written() {
    for scale in [i64::MIN, -1_000_000_000_000_000_000, -20, 0, 20, i64::MAX] {
        for mantissa in [vec![], vec![0u8], vec![5], vec![0xfb]] {
            let text = Number { mantissa, scale }.to_text();
            assert!(!text.is_empty());
            assert!(!text.contains('\n'));
        }
    }
}
