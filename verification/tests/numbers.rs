use dcrs::arithmetic::{stack_add, stack_div, stack_mul, stack_sub};
use dcrs::eval::{ParseError, parse_number, push_parsed};
use dcrs::message::Message;
use dcrs::number::{Number, one, zero};
use dcrs::power::{repeated_product, settle_power, stack_pow};
use dcrs::root::{settle_root, stack_cbrt, stack_sqrt};
use dcrs::stack::Stack;

fn number(text: &str) -> Number {
    parse_number(text).unwrap()
}

#[test]
fn parsing_keeps_mantissa_and_scale() {
    let n = number("123.45");
    assert_eq!(n.mantissa, vec![0x30, 0x39]);
    assert_eq!(n.scale, 2);
    let n = number("-1");
    assert_eq!(n.mantissa, vec![0xff]);
    assert_eq!(n.scale, 0);
    let n = number("-.5");
    assert_eq!(n.mantissa, vec![0xfb]);
    assert_eq!(n.scale, 1);
    let n = number("7.");
    assert_eq!(n.mantissa, vec![7]);
    assert_eq!(n.scale, 0);
    let n = number("0.000");
    assert!(n.is_zero());
    assert_eq!(n.scale, 3);
    let n = number("255");
    assert_eq!(n.mantissa, vec![0, 255]);
}

#[test]
fn parsing_rejects_what_is_no_number() {
    assert!(parse_number("1-2").is_err());
    assert!(parse_number("1.2.3").is_err());
    assert!(parse_number("").is_err());
    assert!(parse_number("-").is_err());
    assert!(parse_number(".").is_err());
    assert!(parse_number("abc").is_err());
    assert_eq!(parse_number("12x").unwrap_err().token, "12x");
}

#[test]
fn zero_and_one_are_what_they_say() {
    assert!(zero().is_zero());
    assert_eq!(zero().to_text(), "0");
    assert_eq!(zero().scale, 0);
    assert!(!one().is_zero());
    assert_eq!(one().to_text(), "1");
    assert!(one().same_value(&number("1.000")));
}

#[test]
fn sign_and_zero_tests_read_the_mantissa() {
    assert!(number("-0.001").is_negative());
    assert!(!number("0.001").is_negative());
    assert!(!number("0").is_negative());
    assert!(!number("-0").is_negative());
    assert!(number("-0").is_zero());
    assert!(!number("256").is_zero());
    assert!(Number { mantissa: vec![0, 0, 0], scale: 5 }.is_zero());
    assert!(Number { mantissa: vec![], scale: 0 }.is_zero());
    assert!(Number { mantissa: vec![0x80, 0], scale: 0 }.is_negative());
    assert_eq!(Number { mantissa: vec![0x80, 0], scale: 0 }.to_text(), "-32768");
    assert_eq!(Number { mantissa: vec![0x7f, 0xff], scale: 2 }.to_text(), "327.67");
}

#[test]
fn comparison_is_by_value() {
    assert!(number("1.50").same_value(&number("1.5")));
    assert!(!number("1.50").same_value(&number("1.51")));
    assert!(number("0").same_value(&number("-0.000")));
    assert!(number("1.49").less_than(&number("1.5")));
    assert!(!number("1.5").less_than(&number("1.50")));
    assert!(number("-3").less_than(&number("2")));
    assert!(!number("2").less_than(&number("-3")));
}

#[test]
fn limits_are_on_the_scale() {
    assert!(number("1.5").within_limits());
    assert!(Number { mantissa: vec![1], scale: 1_000_000_000_000_000_000 }.within_limits());
    assert!(!Number { mantissa: vec![1], scale: 1_000_000_000_000_000_001 }.within_limits());
    assert!(!Number { mantissa: vec![1], scale: i64::MIN }.within_limits());
}

#[test]
fn duplicate_copies_the_number() {
    let n = number("-12.75");
    let copy = n.duplicate();
    assert_eq!(copy.mantissa, n.mantissa);
    assert_eq!(copy.scale, n.scale);
}

#[test]
fn sum_has_the_larger_scale() {
    let mut stack = Stack::new();
    stack.push(number("1.50"));
    stack.push(number("0"));
    assert!(stack_add(&mut stack).is_empty());
    assert_eq!(stack.items[0].to_text(), "1.50");
    stack.push(number("0.000"));
    stack_add(&mut stack);
    assert_eq!(stack.items[0].to_text(), "1.500");
    assert_eq!(stack.items[0].scale, 3);
    stack.push(number("2.25"));
    stack_add(&mut stack);
    assert_eq!(stack.items[0].to_text(), "3.750");
}

#[test]
fn difference_negates_the_top() {
    let mut stack = Stack::new();
    stack.push(number("10"));
    stack.push(number("0.5"));
    assert!(stack_sub(&mut stack).is_empty());
    assert_eq!(stack.len(), 1);
    assert_eq!(stack.items[0].to_text(), "9.5");
}

#[test]
fn product_multiplies() {
    let mut stack = Stack::new();
    stack.push(number("1.5"));
    stack.push(number("-0.5"));
    assert!(stack_mul(&mut stack).is_empty());
    assert_eq!(stack.items[0].to_text(), "-0.75");
    assert_eq!(stack.items[0].scale, 2);
}

#[test]
fn quotient_divides() {
    let mut stack = Stack::new();
    stack.push(number("1"));
    stack.push(number("8"));
    assert!(stack_div(&mut stack).is_empty());
    assert_eq!(stack.items[0].to_text(), "0.125");
    stack.push(number("3"));
    stack_div(&mut stack);
    let third = stack.items[0].duplicate();
    assert!(number("0.0416").less_than(&third));
    assert!(third.less_than(&number("0.0417")));
}

#[test]
fn roots_are_taken() {
    let mut stack = Stack::new();
    stack.push(number("2"));
    assert!(stack_sqrt(&mut stack).is_empty());
    let root = stack.items[0].duplicate();
    assert!(number("1.41421356").less_than(&root));
    assert!(root.less_than(&number("1.41421357")));
    stack.push(number("0.25"));
    stack_sqrt(&mut stack);
    assert!(stack.items[1].same_value(&number("0.5")));
    stack.push(number("8"));
    assert!(stack_cbrt(&mut stack).is_empty());
    assert!(stack.items[2].same_value(&number("2")));
    let mut empty = Stack::new();
    assert!(stack_sqrt(&mut empty).is_empty());
    assert_eq!(empty.len(), 1);
    assert!(empty.items[0].is_zero());
}

#[test]
fn powers_multiply_repeatedly() {
    let base = number("1.1");
    assert_eq!(repeated_product(&base, 0).unwrap().to_text(), "1");
    assert_eq!(repeated_product(&base, 1).unwrap().to_text(), "1.1");
    assert_eq!(repeated_product(&base, 3).unwrap().to_text(), "1.331");
    let mut stack = Stack::new();
    stack.push(number("10"));
    stack.push(number("2.0"));
    assert!(stack_pow(&mut stack).is_empty());
    assert_eq!(stack.items[0].to_text(), "100");
}

#[test]
fn a_power_whose_scale_leaves_the_limits_is_refused() {
    let huge = Number { mantissa: vec![1], scale: 600_000_000_000_000_000 };
    assert!(repeated_product(&huge, 2).is_some());
    assert!(repeated_product(&huge, 3).is_none());
}

#[test]
fn outcomes_are_settled_on_the_stack() {
    let mut stack = Stack::new();
    stack.push(number("1"));
    assert!(settle_root(&mut stack, number("16"), Some(number("4"))).is_empty());
    assert_eq!(stack.items[1].to_text(), "4");
    let out = settle_root(&mut stack, number("-16"), None);
    assert!(matches!(out[0], Message::NegativeSqrt));
    assert_eq!(stack.items[2].to_text(), "-16");
    assert_eq!(stack.len(), 3);

    let mut stack = Stack::new();
    assert!(settle_power(&mut stack, number("2"), number("3"), Some(number("8")), true).is_empty());
    assert_eq!(stack.items[0].to_text(), "8");
    let out = settle_power(&mut stack, number("2"), number("3.5"), Some(number("8")), false);
    assert!(matches!(out[0], Message::ExponentTruncated));
    assert_eq!(stack.len(), 2);
    let out = settle_power(&mut stack, number("2"), number("3"), None, true);
    assert!(matches!(out[0], Message::OutOfRange(dcrs::operator::Operator::Pow)));
    assert_eq!(stack.len(), 4);
    assert_eq!(stack.items[2].to_text(), "2");
    assert_eq!(stack.items[3].to_text(), "3");

    let mut stack = Stack::new();
    assert!(push_parsed(&mut stack, Ok(number("42"))).is_empty());
    assert_eq!(stack.items[0].to_text(), "42");
    let out = push_parsed(&mut stack, Err(ParseError { token: String::from("4-2") }));
    assert_eq!(out[0].text(), "Could not parse '4-2' into a number!");
    assert_eq!(stack.len(), 1);
}
