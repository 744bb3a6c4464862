use dcrs::operator::Operator;
use dcrs::token::{Span, TokenKind, chars_of, classify, is_space, token_spans};

fn tokens(line: &str) -> Vec<String> {
    let chars: Vec<char> = line.chars().collect();
    token_spans(line).iter().map(|s| chars[s.start..s.end].iter().collect()).collect()
}

#[test]
fn white_space_is_what_the_standard_library_calls_so() {
    let mut code: u32 = 0;
    while code <= 0x10ffff {
        if let Some(c) = char::from_u32(code) {
            assert_eq!(is_space(c), c.is_whitespace(), "U+{:04X}", code);
        }
        code += 1;
    }
}

#[test]
fn lines_split_at_runs_of_white_space() {
    assert_eq!(tokens("3 4 +"), vec!["3", "4", "+"]);
    assert_eq!(tokens("  3\t\t4\n+  "), vec!["3", "4", "+"]);
    assert_eq!(tokens("one"), vec!["one"]);
    assert!(tokens("").is_empty());
    assert!(tokens(" \t \r\n").is_empty());
    assert_eq!(tokens("a\u{a0}b\u{3000}c"), vec!["a", "b", "c"]);
    assert_eq!(tokens("é ü"), vec!["é", "ü"]);
}

#[test]
fn spans_count_characters() {
    assert_eq!(
        token_spans(" ab  cde"),
        vec![Span { start: 1, end: 3 }, Span { start: 5, end: 8 }]
    );
    assert_eq!(token_spans("é 12"), vec![Span { start: 0, end: 1 }, Span { start: 2, end: 4 }]);
    assert_eq!(chars_of("a é"), vec!['a', ' ', 'é']);
}

#[test]
fn tokens_are_classified_number_first() {
    assert_eq!(classify("12"), TokenKind::Number);
    assert_eq!(classify("-12.5"), TokenKind::Number);
    assert_eq!(classify("1-2"), TokenKind::Number);
    assert_eq!(classify("1.2.3"), TokenKind::Number);
    assert_eq!(classify("-.5"), TokenKind::Number);
    assert_eq!(classify("-"), TokenKind::OperatorRun);
    assert_eq!(classify("--"), TokenKind::OperatorRun);
    assert_eq!(classify("+-*/^vb%pct"), TokenKind::OperatorRun);
    assert_eq!(classify("pc"), TokenKind::OperatorRun);
    assert_eq!(classify("."), TokenKind::Invalid);
    assert_eq!(classify("-."), TokenKind::Invalid);
    assert_eq!(classify("1+"), TokenKind::Invalid);
    assert_eq!(classify("abc"), TokenKind::Invalid);
    assert_eq!(classify("x"), TokenKind::Invalid);
    assert_eq!(classify(""), TokenKind::Invalid);
    assert_eq!(classify("1e5"), TokenKind::Invalid);
    assert_eq!(classify("\u{0663}"), TokenKind::Invalid);
}

#[test]
fn operators_and_their_symbols() {
    let symbols = "+-*/^vb%pct";
    let mut seen = Vec::new();
    for c in symbols.chars() {
        let op = Operator::from_char(c).unwrap();
        assert_eq!(op.symbol(), c);
        assert_eq!(op.name(), c.to_string());
        assert!(!seen.contains(&op));
        seen.push(op);
    }
    assert_eq!(seen.len(), 11);
    assert_eq!(Operator::from_char('x'), None);
    assert_eq!(Operator::from_char('V'), None);
    assert_eq!(Operator::from_char('5'), None);
}
