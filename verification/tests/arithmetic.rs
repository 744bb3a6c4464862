use dcrs::arithmetic::{stack_add, stack_mul, stack_sub};
use dcrs::eval::parse_number;
use dcrs::message::Message;
use dcrs::number::Number;
use dcrs::power::stack_pow;
use dcrs::root::stack_sqrt;
use dcrs::stack::Stack;

/// The number with a small mantissa and a scale.
fn small(unscaled: i64, scale: i64) -> Number {
    let bytes = unscaled.to_be_bytes();
    Number { mantissa: bytes.to_vec(), scale }
}

/// The mantissa of a number that fits in 128 bits.
fn unscaled(n: &Number) -> i128 {
    let mut value: i128 = match n.mantissa.first() {
        Some(first) if *first >= 128 => -1,
        _ => 0,
    };
    for byte in &n.mantissa {
        value = (value << 8) | i128::from(*byte);
    }
    value
}

fn ten_to(exponent: i64) -> i128 {
    10i128.pow(exponent as u32)
}

fn texts_over(alphabet: &[char], length: usize) -> Vec<String> {
    let mut all = vec![String::new()];
    let mut last = vec![String::new()];
    for _ in 0..length {
        let mut next = Vec::new();
        for text in &last {
            for c in alphabet {
                let mut longer = text.clone();
                longer.push(*c);
                next.push(longer);
            }
        }
        all.extend(next.iter().cloned());
        last = next;
    }
    all
}

/// Sign, digits before the point and digits after it, where the text is an
/// optional sign, digits and at most one point, with a digit among them.
fn plain_parts(text: &str) -> Option<(bool, String, String)> {
    let (negative, body) = match text.strip_prefix('-') {
        Some(rest) => (true, rest),
        None => (false, text),
    };
    let (integer, fraction) = match body.find('.') {
        Some(at) => (&body[..at], &body[at + 1..]),
        None => (body, ""),
    };
    let digits = |s: &str| s.chars().all(|c| c.is_ascii_digit());
    if digits(integer) && digits(fraction) && integer.len() + fraction.len() > 0 {
        Some((negative, integer.to_string(), fraction.to_string()))
    } else {
        None
    }
}

#[test]
fn every_short_text_of_number_characters_parses_as_stated() {
    for text in texts_over(&['0', '1', '7', '-', '.'], 6) {
        let parsed = parse_number(&text);
        match plain_parts(&text) {
            Some((negative, integer, fraction)) => {
                let n = parsed.unwrap_or_else(|_| panic!("{:?} was rejected", text));
                let magnitude: i128 = format!("{}{}", integer, fraction).parse().unwrap();
                let expected = if negative { -magnitude } else { magnitude };
                assert_eq!(unscaled(&n), expected, "{:?}", text);
                assert_eq!(n.scale, fraction.len() as i64, "{:?}", text);
            }
            None => {
                if !text.starts_with(".-") {
                    assert!(parsed.is_err(), "{:?} was accepted", text);
                    assert_eq!(parsed.unwrap_err().token, text);
                }
            }
        }
    }
}

#[test]
fn texts_with_other_characters_are_the_parsers_to_judge() {
    assert!(parse_number("1e3").is_ok());
    assert_eq!(parse_number("1e3").unwrap().scale, -3);
    assert!(parse_number("+5").is_ok());
    assert!(parse_number("five").is_err());
    assert!(parse_number("٣").is_err());
}

#[test]
fn mantissa_bytes_are_twos_complement() {
    for high in 0..=255u8 {
        for low in 0..=255u8 {
            let n = Number { mantissa: vec![high, low], scale: 0 };
            let value = i16::from_be_bytes([high, low]);
            assert_eq!(n.to_text(), value.to_string());
            assert_eq!(n.is_negative(), value < 0);
            assert_eq!(n.is_zero(), value == 0);
        }
    }
    assert_eq!(Number { mantissa: vec![0xff, 0xff, 0xff, 0x85], scale: 0 }.to_text(), "-123");
    assert_eq!(Number { mantissa: vec![0, 0, 0x7b], scale: 1 }.to_text(), "12.3");
    assert_eq!(small(-5, 0).to_text(), "-5");
}

#[test]
fn sums_and_differences_are_exact_at_the_larger_scale() {
    for a in -12..=12i64 {
        for b in -12..=12i64 {
            for sa in -2..=3i64 {
                for sb in -2..=3i64 {
                    let scale = sa.max(sb);
                    let left = i128::from(a) * ten_to(scale - sa);
                    let right = i128::from(b) * ten_to(scale - sb);
                    let mut stack = Stack::new();
                    stack.push(small(a, sa));
                    stack.push(small(b, sb));
                    assert!(stack_add(&mut stack).is_empty());
                    assert_eq!(stack.len(), 1);
                    assert_eq!(stack.items[0].scale, scale);
                    assert_eq!(unscaled(&stack.items[0]), left + right);
                    let mut stack = Stack::new();
                    stack.push(small(a, sa));
                    stack.push(small(b, sb));
                    assert!(stack_sub(&mut stack).is_empty());
                    assert_eq!(stack.items[0].scale, scale);
                    assert_eq!(unscaled(&stack.items[0]), left - right);
                }
            }
        }
    }
}

#[test]
fn products_are_exact_in_value_and_written_in_one_of_three_ways() {
    let mantissas = [-100i64, -10, -3, -1, 0, 1, 2, 10, 25, 100, 1000, 10000];
    for a in mantissas {
        for b in mantissas {
            for sa in -2..=5i64 {
                for sb in -2..=5i64 {
                    let mut stack = Stack::new();
                    stack.push(small(a, sa));
                    stack.push(small(b, sb));
                    assert!(stack_mul(&mut stack).is_empty());
                    let product = &stack.items[0];
                    let exact = (i128::from(a) * i128::from(b), sa + sb);
                    let written = (unscaled(product), product.scale);
                    assert!(
                        written == exact
                            || written == (i128::from(a), sa)
                            || written == (i128::from(b), sb),
                        "{}e-{} * {}e-{} is written {:?}",
                        a, sa, b, sb, written
                    );
                    assert!(product.same_value(&small(a * b, sa + sb)));
                }
            }
        }
    }
}

#[test]
fn exponents_are_truncated_towards_zero() {
    for mantissa in -45..=45i64 {
        for scale in -1..=2i64 {
            let mut stack = Stack::new();
            stack.push(small(2, 0));
            stack.push(small(mantissa, scale));
            let out = stack_pow(&mut stack);
            let whole = scale <= 0 || i128::from(mantissa) % ten_to(scale) == 0;
            let integer_part = if scale <= 0 {
                i128::from(mantissa) * ten_to(-scale)
            } else {
                i128::from(mantissa) / ten_to(scale)
            };
            if whole {
                assert!(out.is_empty(), "{}e-{}", mantissa, scale);
            } else {
                assert_eq!(out.len(), 1);
                assert!(matches!(out[0], Message::ExponentTruncated), "{}e-{}", mantissa, scale);
            }
            let count = if integer_part > 0 { integer_part as u32 } else { 0 };
            assert_eq!(stack.len(), 1);
            if count < 120 {
                assert_eq!(stack.items[0].to_text(), 2u128.pow(count).to_string());
            }
        }
    }
}

#[test]
fn exponents_beyond_32_bits_are_refused_whatever_their_scale() {
    let cases = [
        "2147483648",
        "2147483648.5",
        "-2147483649",
        "-2147483649.999",
        "99999999999999999999999999",
        "-99999999999999999999999999.5",
    ];
    for exponent in cases {
        let mut stack = Stack::new();
        stack.push(small(3, 0));
        stack.push(parse_number(exponent).unwrap());
        let out = stack_pow(&mut stack);
        assert!(matches!(out[0], Message::ExponentTooLarge), "{}", exponent);
        assert_eq!(stack.len(), 2);
        assert_eq!(stack.items[0].to_text(), "3");
        assert_eq!(stack.items[1].to_text(), exponent);
    }
    let mut stack = Stack::new();
    stack.push(small(3, 0));
    stack.push(small(215, -7));
    assert!(matches!(stack_pow(&mut stack)[0], Message::ExponentTooLarge));
    let mut stack = Stack::new();
    stack.push(small(3, 0));
    stack.push(parse_number("-2147483648.999").unwrap());
    assert!(matches!(stack_pow(&mut stack)[0], Message::ExponentTruncated));
    assert_eq!(stack.items[0].to_text(), "1");
}

#[test]
fn square_roots_are_refused_below_zero_only() {
    for mantissa in -30..=30i64 {
        for scale in -2..=3i64 {
            let mut stack = Stack::new();
            stack.push(small(mantissa, scale));
            let out = stack_sqrt(&mut stack);
            assert_eq!(stack.len(), 1);
            if mantissa < 0 {
                assert!(matches!(out[0], Message::NegativeSqrt));
                assert_eq!(unscaled(&stack.items[0]), i128::from(mantissa));
                assert_eq!(stack.items[0].scale, scale);
            } else {
                assert!(out.is_empty());
                assert!(!stack.items[0].is_negative());
                let mut square = Stack::new();
                square.push(stack.items[0].duplicate());
                square.push(stack.items[0].duplicate());
                stack_mul(&mut square);
                let operand = small(mantissa, scale);
                let slack = small(1, 90);
                let mut low = Stack::new();
                low.push(operand.duplicate());
                low.push(slack.duplicate());
                stack_sub(&mut low);
                let mut high = Stack::new();
                high.push(operand);
                high.push(slack);
                stack_add(&mut high);
                assert!(low.items[0].less_than(&square.items[0]));
                assert!(square.items[0].less_than(&high.items[0]));
            }
        }
    }
}
