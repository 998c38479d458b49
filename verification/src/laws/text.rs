//! What is promised of numbers and white space in texts.
use vstd::prelude::*;

use crate::text::{
    decimal_text, digit_char, is_trimmed, is_white, parsed, read_digits, ParseError,
};

verus! {

/// Whether a character is a decimal digit.
pub open spec fn is_digit(c: char) -> bool {
    48 <= c as int <= 57
}

/// Whether every character of a text is a decimal digit.
pub open spec fn all_digits(text: Seq<char>) -> bool {
    forall|i: int| 0 <= i < text.len() ==> is_digit(#[trigger] text[i])
}

/// The number that digits stand for, the last one for the ones.
pub open spec fn value_of(digits: Seq<char>) -> int
    decreases digits.len(),
{
    if digits.len() == 0 {
        0
    } else {
        10 * value_of(digits.drop_last()) + (digits.last() as int - 48)
    }
}

proof fn lemma_value_grows(digits: Seq<char>, n: int)
    requires
        all_digits(digits),
        0 <= n <= digits.len(),
    ensures
        0 <= value_of(digits.take(n)) <= value_of(digits),
    decreases digits.len(),
{
    if digits.len() > 0 {
        let front = digits.drop_last();
        assert forall|i: int| 0 <= i < front.len() implies is_digit(#[trigger] front[i]) by {
            assert(is_digit(digits[i]));
        }
        assert(is_digit(digits.last()));
        if n < digits.len() {
            lemma_value_grows(front, n);
            assert(front.take(n) =~= digits.take(n));
        } else {
            lemma_value_grows(front, front.len() as int);
            assert(front.take(front.len() as int) =~= front);
            assert(digits.take(n) =~= digits);
        }
    } else {
        assert(digits.take(n) =~= digits);
    }
}

/// A number is written in decimal digits that stand for it, at least one and none too many:
/// a first digit of nought is the only one.
pub proof fn law_decimal_stands_for_its_number(n: nat)
    ensures
        decimal_text(n).len() > 0,
        all_digits(decimal_text(n)),
        value_of(decimal_text(n)) == n,
        decimal_text(n).len() > 1 ==> decimal_text(n)[0] as int != 48,
    decreases n,
{
    let text = decimal_text(n);
    assert forall|d: int| 0 <= d < 10 implies #[trigger] digit_char(d) as int == 48 + d by {}
    if n < 10 {
        assert(text.len() == 1 && text[0] == digit_char(n as int));
        assert(text.drop_last() =~= Seq::<char>::empty());
        assert(value_of(text.drop_last()) == 0);
    } else {
        law_decimal_stands_for_its_number(n / 10);
        let head = decimal_text(n / 10);
        assert(text.drop_last() =~= head);
        assert(text.last() == digit_char((n % 10) as int));
        assert forall|i: int| 0 <= i < text.len() implies is_digit(#[trigger] text[i]) by {
            if i < head.len() {
                assert(is_digit(head[i]));
            }
        }
        if head.len() == 1 {
            assert(head.drop_last() =~= Seq::<char>::empty());
            assert(value_of(head.drop_last()) == 0);
            assert(value_of(head) == head[0] as int - 48);
        }
    }
}

/// The digits of a text that has a sign in front or none.
pub open spec fn unsigned(text: Seq<char>) -> Seq<char> {
    if text.len() > 0 && text[0] as int == 43 {
        text.skip(1)
    } else {
        text
    }
}

/// How reading goes on behind digits that made a number within the limit.
proof fn lemma_reads(digits: Seq<char>, rest: Seq<char>, max: int)
    requires
        all_digits(digits),
        value_of(digits) <= max,
    ensures
        read_digits(digits + rest, 0, max) == read_digits(rest, value_of(digits), max),
    decreases digits.len(),
{
    if digits.len() == 0 {
        assert(digits + rest =~= rest);
    } else {
        let front = digits.drop_last();
        let last = digits.last();
        lemma_value_grows(digits, front.len() as int);
        assert(digits.take(front.len() as int) =~= front);
        assert forall|i: int| 0 <= i < front.len() implies is_digit(#[trigger] front[i]) by {
            assert(is_digit(digits[i]));
        }
        lemma_reads(front, seq![last] + rest, max);
        assert(front + (seq![last] + rest) =~= digits + rest);
        assert((seq![last] + rest).skip(1) =~= rest);
        assert(is_digit(digits[digits.len() - 1]));
    }
}

/// A text is read as a number exactly if it is digits, at least one, with a plus sign in front
/// or none, whose number is within the limit: then it is that number, however many digits
/// there are.
pub proof fn law_digits_are_read(text: Seq<char>, max: int)
    requires
        unsigned(text).len() > 0,
        all_digits(unsigned(text)),
        0 <= max,
    ensures
        value_of(unsigned(text)) <= max ==> parsed(text, max) == Ok::<int, ParseError>(
            value_of(unsigned(text)),
        ),
        value_of(unsigned(text)) > max ==> parsed(text, max) == Err::<int, ParseError>(
            ParseError::Overflow,
        ),
{
    let digits = unsigned(text);
    assert(parsed(text, max) == read_digits(digits, 0, max));
    if value_of(digits) <= max {
        lemma_reads(digits, Seq::empty(), max);
        assert(digits + Seq::<char>::empty() =~= digits);
    } else {
        let n = lemma_first_beyond(digits, max);
        let front = digits.take(n);
        let rest = digits.skip(n);
        assert forall|i: int| 0 <= i < front.len() implies is_digit(#[trigger] front[i]) by {
            assert(is_digit(digits[i]));
        }
        lemma_reads(front, rest, max);
        assert(front + rest =~= digits);
        assert(digits.take(n + 1).drop_last() =~= front);
        assert(is_digit(digits[n]));
    }
}

/// Where digits go beyond the limit first.
proof fn lemma_first_beyond(digits: Seq<char>, max: int) -> (n: int)
    requires
        value_of(digits) > max,
        0 <= max,
    ensures
        0 <= n < digits.len(),
        value_of(digits.take(n)) <= max,
        value_of(digits.take(n + 1)) > max,
    decreases digits.len(),
{
    let last = digits.len() - 1;
    let front = digits.drop_last();
    assert(digits.take(digits.len() as int) =~= digits);
    assert(digits.take(last) =~= front);
    if value_of(front) > max {
        let n = lemma_first_beyond(front, max);
        assert(front.take(n) =~= digits.take(n));
        assert(front.take(n + 1) =~= digits.take(n + 1));
        n
    } else {
        last
    }
}

/// A text with anything but digits behind its sign is no number: the first character that is
/// no digit, at `bad`, or the digits in front of it going beyond the limit, whichever comes
/// first, is the reason. Nothing at all is empty, and a sign alone is no number.
pub proof fn law_other_texts_are_refused(text: Seq<char>, bad: int, max: int)
    requires
        0 <= bad < unsigned(text).len(),
        all_digits(unsigned(text).take(bad)),
        !is_digit(unsigned(text)[bad]),
        0 <= max,
    ensures
        parsed(text, max) == Err::<int, ParseError>(
            if value_of(unsigned(text).take(bad)) <= max {
                ParseError::InvalidDigit
            } else {
                ParseError::Overflow
            },
        ),
        parsed(Seq::empty(), max) == Err::<int, ParseError>(ParseError::Empty),
        parsed(seq!['+'], max) == Err::<int, ParseError>(ParseError::InvalidDigit),
{
    let digits = unsigned(text);
    let front = digits.take(bad);
    assert(parsed(text, max) == read_digits(digits, 0, max));
    if value_of(front) <= max {
        lemma_reads(front, digits.skip(bad), max);
        assert(front + digits.skip(bad) =~= digits);
    } else {
        let n = lemma_first_beyond(front, max);
        let start = digits.take(n);
        assert(front.take(n) =~= start);
        assert(front.take(n + 1) =~= digits.take(n + 1));
        assert forall|i: int| 0 <= i < start.len() implies is_digit(#[trigger] start[i]) by {
            assert(is_digit(front[i]));
        }
        lemma_reads(start, digits.skip(n), max);
        assert(start + digits.skip(n) =~= digits);
        assert(digits.take(n + 1).drop_last() =~= start);
        assert(is_digit(front[n]));
    }
}

/// Trimming takes off white space, all of it and nothing else: the text is white space, then
/// what is left, which neither begins nor ends with white space, then white space. White
/// space are the tabs and line ends, the spaces of every width and the separators of lines
/// and paragraphs.
pub proof fn law_trimming_takes_off_white_space(text: Seq<char>, trimmed: Seq<char>, c: char)
    requires
        is_trimmed(text, trimmed),
    ensures
        exists|lead: Seq<char>, trail: Seq<char>|
            {
                &&& text == #[trigger] (lead + trimmed + trail)
                &&& forall|i: int| 0 <= i < lead.len() ==> is_white(#[trigger] lead[i])
                &&& forall|i: int| 0 <= i < trail.len() ==> is_white(#[trigger] trail[i])
            },
        trimmed.len() > 0 ==> !is_white(trimmed[0]) && !is_white(trimmed[trimmed.len() - 1]),
        is_white(c) <==> (9 <= c as int <= 13 || c as int == 32 || c as int == 133 || c as int
            == 160 || c as int == 5760 || 8192 <= c as int <= 8202 || c as int == 8232 || c as int
            == 8233 || c as int == 8239 || c as int == 8287 || c as int == 12288),
{
    let (from, to) = choose|from: int, to: int|
        {
            &&& 0 <= from <= to <= text.len()
            &&& trimmed == #[trigger] text.subrange(from, to)
            &&& forall|i: int| 0 <= i < from ==> is_white(#[trigger] text[i])
            &&& forall|i: int| to <= i < text.len() ==> is_white(#[trigger] text[i])
        };
    let lead = text.take(from);
    let trail = text.skip(to);
    assert(text =~= lead + trimmed + trail);
    assert forall|i: int| 0 <= i < lead.len() implies is_white(#[trigger] lead[i]) by {
        assert(lead[i] == text[i]);
    }
    assert forall|i: int| 0 <= i < trail.len() implies is_white(#[trigger] trail[i]) by {
        assert(trail[i] == text[to + i]);
    }
}

} // verus!
