//! Splitting a line into tokens and telling numbers from operators.

use crate::literal::{is_digit, is_number_char, is_number_text};
use crate::operator::{is_operator_char, Operator};
use vstd::prelude::*;

verus! {

/// White space, as Unicode defines it: the characters with the property
/// `White_Space`.
pub open spec fn is_whitespace(c: char) -> bool {
    let code = c as u32;
    ||| 0x09 <= code <= 0x0d
    ||| code == 0x20
    ||| code == 0x85
    ||| code == 0xa0
    ||| code == 0x1680
    ||| 0x2000 <= code <= 0x200a
    ||| code == 0x2028
    ||| code == 0x2029
    ||| code == 0x202f
    ||| code == 0x205f
    ||| code == 0x3000
}

/// Whether a character is white space.
pub fn is_space(c: char) -> (r: bool)
    ensures
        r == is_whitespace(c),
{
    let code = c as u32;
    (0x09 <= code && code <= 0x0d) || code == 0x20 || code == 0x85 || code == 0xa0 || code
        == 0x1680 || (0x2000 <= code && code <= 0x200a) || code == 0x2028 || code == 0x2029
        || code == 0x202f || code == 0x205f || code == 0x3000
}

/// The characters of a text, one by one.
pub fn chars_of(text: &str) -> (chars: Vec<char>)
    ensures
        chars@ == text@,
{
    let mut chars: Vec<char> = Vec::new();
    for c in it: text.chars()
        invariant
            it.seq() == text@,
            chars@ == it.seq().take(it.index()),
    {
        chars.push(c);
    }
    chars
}

/// The place of a token in its line: the positions of its first character
/// and of the character after its last, counted in characters.
#[derive(Clone, Copy, Debug, PartialEq, Eq, Structural)]
pub struct Span {
    pub start: usize,
    pub end: usize,
}

impl View for Span {
    type V = (int, int);

    open spec fn view(&self) -> (int, int) {
        (self.start as int, self.end as int)
    }
}

/// The places of the tokens of a line, as a scan from left to right finds
/// them: white space adds nothing, a character that follows white space or
/// begins the line opens a token, and any other character extends the last
/// token by itself.
pub open spec fn spans_of(line: Seq<char>) -> Seq<(int, int)>
    decreases line.len(),
{
    if line.len() == 0 {
        Seq::empty()
    } else {
        let front = spans_of(line.drop_last());
        let last = line.len() - 1;
        if is_whitespace(line.last()) {
            front
        } else if front.len() > 0 && front.last().1 == last {
            front.drop_last().push((front.last().0, last + 1))
        } else {
            front.push((last, last + 1))
        }
    }
}

/// The tokens of a line: what stands at each of the places.
pub open spec fn tokens_of(line: Seq<char>) -> Seq<Seq<char>> {
    spans_of(line).map_values(|span: (int, int)| line.subrange(span.0, span.1))
}

/// Whether a token stands at a place of a line: a run of characters that
/// are not white space, which white space or an end of the line bounds on
/// each side.
pub open spec fn is_token_at(line: Seq<char>, start: int, end: int) -> bool {
    &&& 0 <= start < end <= line.len()
    &&& forall|i: int| start <= i < end ==> !is_whitespace(#[trigger] line[i])
    &&& (start == 0 || is_whitespace(line[start - 1]))
    &&& (end == line.len() || is_whitespace(line[end]))
}

/// Whether a place lies among the places given.
pub open spec fn covered(spans: Seq<(int, int)>, i: int) -> bool {
    exists|k: int| 0 <= k < spans.len() && (#[trigger] spans[k]).0 <= i < spans[k].1
}

/// The scan finds the tokens of the line and nothing else: at each place
/// that it gives stands a token, the places come in their order in the line,
/// and every character that is not white space lies in one of them.
pub proof fn lemma_spans_are_the_tokens(line: Seq<char>)
    ensures
        forall|k: int|
            0 <= k < spans_of(line).len() ==> is_token_at(
                line,
                (#[trigger] spans_of(line)[k]).0,
                spans_of(line)[k].1,
            ),
        forall|j: int, k: int|
            0 <= j < k < spans_of(line).len() ==> (#[trigger] spans_of(line)[j]).1 < (
            #[trigger] spans_of(line)[k]).0,
        forall|i: int|
            0 <= i < line.len() && !is_whitespace(line[i]) ==> #[trigger] covered(
                spans_of(line),
                i,
            ),
    decreases line.len(),
{
    if line.len() > 0 {
        let front = line.drop_last();
        let old_spans = spans_of(front);
        let spans = spans_of(line);
        let last = line.len() - 1;
        lemma_spans_are_the_tokens(front);
        assert forall|i: int| 0 <= i < front.len() implies front[i] == line[i] by {}
        // No span but the last can reach the end of the front.
        assert forall|k: int| 0 <= k < old_spans.len() - 1 implies (#[trigger] old_spans[k]).1
            < last by {
            assert(old_spans[k].1 < old_spans[old_spans.len() - 1].0);
            assert(is_token_at(front, old_spans[old_spans.len() - 1].0, old_spans.last().1));
        }
        assert forall|k: int| 0 <= k < old_spans.len() implies is_token_at(
            front,
            (#[trigger] old_spans[k]).0,
            old_spans[k].1,
        ) by {}
        if is_whitespace(line.last()) {
            assert forall|k: int| 0 <= k < spans.len() implies is_token_at(
                line,
                (#[trigger] spans[k]).0,
                spans[k].1,
            ) by {
                assert(is_token_at(front, old_spans[k].0, old_spans[k].1));
            }
            assert forall|i: int| 0 <= i < line.len() && !is_whitespace(line[i]) implies covered(
                spans,
                i,
            ) by {
                assert(covered(old_spans, i));
            }
        } else if old_spans.len() > 0 && old_spans.last().1 == last {
            let top = old_spans.len() - 1;
            assert forall|k: int| 0 <= k < spans.len() implies is_token_at(
                line,
                (#[trigger] spans[k]).0,
                spans[k].1,
            ) by {
                assert(is_token_at(front, old_spans[k].0, old_spans[k].1));
                if k < top {
                    assert(spans[k] == old_spans[k]);
                    assert(old_spans[k].1 < last);
                }
            }
            assert forall|j: int, k: int| 0 <= j < k < spans.len() implies (#[trigger] spans[j]).1
                < (#[trigger] spans[k]).0 by {
                assert(old_spans[j].1 < old_spans[k].0);
            }
            assert forall|i: int| 0 <= i < line.len() && !is_whitespace(line[i]) implies covered(
                spans,
                i,
            ) by {
                if i == last {
                    assert(spans[top].0 <= i < spans[top].1);
                } else {
                    assert(covered(old_spans, i));
                    let k = choose|k: int|
                        0 <= k < old_spans.len() && (#[trigger] old_spans[k]).0 <= i
                            < old_spans[k].1;
                    assert(spans[k].0 <= i < spans[k].1);
                }
            }
        } else {
            // The character before the last one is white space, or there is none.
            if last > 0 && !is_whitespace(line[last - 1]) {
                assert(covered(old_spans, last - 1));
                let k = choose|k: int|
                    0 <= k < old_spans.len() && (#[trigger] old_spans[k]).0 <= last - 1
                        < old_spans[k].1;
                assert(is_token_at(front, old_spans[k].0, old_spans[k].1));
                if k < old_spans.len() - 1 {
                    assert(old_spans[k].1 < last);
                }
                assert(false);
            }
            assert forall|k: int| 0 <= k < old_spans.len() implies (#[trigger] old_spans[k]).1
                < last by {
                assert(is_token_at(front, old_spans[k].0, old_spans[k].1));
                if k < old_spans.len() - 1 {
                    assert(old_spans[k].1 < last);
                }
            }
            assert forall|k: int| 0 <= k < spans.len() implies is_token_at(
                line,
                (#[trigger] spans[k]).0,
                spans[k].1,
            ) by {
                if k < old_spans.len() {
                    assert(spans[k] == old_spans[k]);
                    assert(is_token_at(front, old_spans[k].0, old_spans[k].1));
                    assert(old_spans[k].1 < last);
                }
            }
            assert forall|j: int, k: int| 0 <= j < k < spans.len() implies (#[trigger] spans[j]).1
                < (#[trigger] spans[k]).0 by {
                assert(old_spans[j].1 < last);
                if k < old_spans.len() {
                    assert(old_spans[j].1 < old_spans[k].0);
                }
            }
            assert forall|i: int| 0 <= i < line.len() && !is_whitespace(line[i]) implies covered(
                spans,
                i,
            ) by {
                if i == last {
                    assert(spans[spans.len() - 1].0 <= i < spans[spans.len() - 1].1);
                } else {
                    assert(covered(old_spans, i));
                    let k = choose|k: int|
                        0 <= k < old_spans.len() && (#[trigger] old_spans[k]).0 <= i
                            < old_spans[k].1;
                    assert(spans[k].0 <= i < spans[k].1);
                }
            }
        }
    }
}

/// Places moved to the right by an offset.
pub open spec fn shifted(spans: Seq<(int, int)>, offset: int) -> Seq<(int, int)> {
    spans.map_values(|span: (int, int)| (span.0 + offset, span.1 + offset))
}

/// The tokens of two texts with white space between them are the tokens of
/// the first at their places, and then those of the second, moved behind the
/// first text and the white space.
pub proof fn lemma_spans_of_joined(first: Seq<char>, gap: char, second: Seq<char>)
    requires
        is_whitespace(gap),
    ensures
        spans_of(first.push(gap) + second) == spans_of(first) + shifted(
            spans_of(second),
            first.len() as int + 1,
        ),
    decreases second.len(),
{
    let offset: int = first.len() as int + 1;
    let line = first.push(gap) + second;
    if second.len() == 0 {
        assert(line =~= first.push(gap));
        assert(line.drop_last() =~= first);
        assert(spans_of(line) =~= spans_of(first) + shifted(spans_of(second), offset));
    } else {
        let shorter = second.drop_last();
        let front = first.push(gap) + shorter;
        lemma_spans_of_joined(first, gap, shorter);
        lemma_spans_are_the_tokens(first);
        assert(line.drop_last() =~= front);
        assert(line.last() == second.last());
        let old_spans = spans_of(shorter);
        if is_whitespace(second.last()) {
        } else if old_spans.len() > 0 && old_spans.last().1 == second.len() - 1 {
            assert(spans_of(front).last() == (
                old_spans.last().0 + offset,
                old_spans.last().1 + offset,
            ));
            assert(spans_of(line) =~= spans_of(first) + shifted(spans_of(second), offset));
        } else {
            if old_spans.len() == 0 {
                assert(spans_of(front) =~= spans_of(first));
                if spans_of(first).len() > 0 {
                    let top = spans_of(first).len() - 1;
                    assert(is_token_at(first, spans_of(first)[top].0, spans_of(first)[top].1));
                }
            } else {
                assert(spans_of(front).last() == (
                    old_spans.last().0 + offset,
                    old_spans.last().1 + offset,
                ));
            }
            assert(spans_of(line) =~= spans_of(first) + shifted(spans_of(second), offset));
        }
    }
}

/// The tokens of two texts with white space between them are the tokens of
/// the first and then those of the second.
pub proof fn lemma_tokens_of_joined(first: Seq<char>, gap: char, second: Seq<char>)
    requires
        is_whitespace(gap),
    ensures
        tokens_of(first.push(gap) + second) == tokens_of(first) + tokens_of(second),
{
    let offset: int = first.len() as int + 1;
    let line = first.push(gap) + second;
    lemma_spans_of_joined(first, gap, second);
    lemma_spans_are_the_tokens(first);
    lemma_spans_are_the_tokens(second);
    let joined = tokens_of(first) + tokens_of(second);
    assert(tokens_of(line).len() == joined.len());
    assert forall|k: int| 0 <= k < joined.len() implies tokens_of(line)[k] == joined[k] by {
        if k < spans_of(first).len() {
            let span = spans_of(first)[k];
            assert(is_token_at(first, span.0, span.1));
            assert(spans_of(line)[k] == span);
            assert(line.subrange(span.0, span.1) =~= first.subrange(span.0, span.1));
        } else {
            let j = k - spans_of(first).len();
            let span = spans_of(second)[j];
            assert(is_token_at(second, span.0, span.1));
            assert(spans_of(line)[k] == (span.0 + offset, span.1 + offset));
            assert(line.subrange(span.0 + offset, span.1 + offset) =~= second.subrange(
                span.0,
                span.1,
            ));
        }
    }
    assert(tokens_of(line) =~= joined);
}

/// The places of a sequence of spans.
pub open spec fn span_views(spans: Seq<Span>) -> Seq<(int, int)> {
    spans.map_values(|span: Span| span@)
}

/// Finds the tokens of a line: the runs of characters that are not white
/// space, in their order.
pub fn token_spans(line: &str) -> (spans: Vec<Span>)
    ensures
        span_views(spans@) == spans_of(line@),
{
    let chars = chars_of(line);
    let mut spans: Vec<Span> = Vec::new();
    let mut i: usize = 0;
    assert(chars@.take(0) =~= Seq::<char>::empty());
    assert(span_views(spans@) =~= Seq::<(int, int)>::empty());
    while i < chars.len()
        invariant
            i <= chars.len(),
            span_views(spans@) == spans_of(chars@.take(i as int)),
        decreases chars.len() - i,
    {
        proof {
            assert(chars@.take(i + 1).drop_last() =~= chars@.take(i as int));
        }
        let ghost before = spans@;
        if !is_space(chars[i]) {
            let count = spans.len();
            if count > 0 && spans[count - 1].end == i {
                let start = spans[count - 1].start;
                spans.set(count - 1, Span { start, end: i + 1 });
                assert(span_views(spans@) =~= span_views(before).drop_last().push(
                    (span_views(before).last().0, i + 1),
                ));
            } else {
                spans.push(Span { start: i, end: i + 1 });
                assert(span_views(spans@) =~= span_views(before).push((i as int, i + 1)));
            }
        }
        i += 1;
    }
    assert(chars@.take(i as int) =~= chars@);
    spans
}

/// What a token is taken for.
#[derive(Clone, Copy, Debug, PartialEq, Eq, Structural)]
pub enum TokenKind {
    /// A numeric literal, still to be parsed.
    Number,
    /// One or more operator characters.
    OperatorRun,
    /// Anything else.
    Invalid,
}

/// A token is taken for a number where it is made of digits, `-` and `.`
/// and holds a digit.
pub open spec fn is_number_token(token: Seq<char>) -> bool {
    &&& is_number_text(token)
    &&& exists|i: int| 0 <= i < token.len() && is_digit(#[trigger] token[i])
}

/// A token is a run of operators where it is made of operator characters
/// and is not empty.
pub open spec fn is_operator_run(token: Seq<char>) -> bool {
    &&& token.len() > 0
    &&& forall|i: int| 0 <= i < token.len() ==> is_operator_char(#[trigger] token[i])
}

/// What a token is taken for: a number first, a run of operators next, and
/// invalid otherwise.
pub open spec fn token_kind(token: Seq<char>) -> TokenKind {
    if is_number_token(token) {
        TokenKind::Number
    } else if is_operator_run(token) {
        TokenKind::OperatorRun
    } else {
        TokenKind::Invalid
    }
}

/// Tells what a token is taken for.
pub fn classify(token: &str) -> (kind: TokenKind)
    ensures
        kind == token_kind(token@),
{
    let mut number_chars = true;
    let mut digit_seen = false;
    let mut operator_chars = true;
    let mut empty = true;
    for c in it: token.chars()
        invariant
            it.seq() == token@,
            empty == (it.index() == 0),
            number_chars == (forall|i: int|
                0 <= i < it.index() ==> is_number_char(#[trigger] token@[i])),
            digit_seen == (exists|i: int| 0 <= i < it.index() && is_digit(#[trigger] token@[i])),
            operator_chars == (forall|i: int|
                0 <= i < it.index() ==> is_operator_char(#[trigger] token@[i])),
    {
        let digit = '0' <= c && c <= '9';
        if !(digit || c == '-' || c == '.') {
            number_chars = false;
        }
        if digit {
            digit_seen = true;
        }
        if Operator::from_char(c).is_none() {
            operator_chars = false;
        }
        empty = false;
    }
    if number_chars && digit_seen {
        TokenKind::Number
    } else if operator_chars && !empty {
        TokenKind::OperatorRun
    } else {
        TokenKind::Invalid
    }
}

} // verus!
