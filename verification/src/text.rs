//! Plain work on text: equality, decimal numbers, white space.
use vstd::prelude::*;

verus! {

/// The characters of a text.
pub fn chars_of(text: &str) -> (chars: Vec<char>)
    ensures
        chars@ == text@,
{
    let mut chars: Vec<char> = Vec::new();
    for c in iter: text.chars()
        invariant
            iter.seq() == text@,
            chars@ == text@.take(iter.index() as int),
    {
        let ghost at = chars@.len() as int;
        chars.push(c);
        assert(text@.take(at + 1) =~= text@.take(at).push(c));
    }
    assert(text@.take(text@.len() as int) =~= text@);
    chars
}

/// Whether two texts are the same.
pub fn same_text(a: &str, b: &str) -> (same: bool)
    ensures
        same == (a@ == b@),
{
    a.to_owned() == b.to_owned()
}

/// The lower-case form of an ASCII letter; any other character is its own.
pub open spec fn ascii_lower(c: char) -> char {
    if 'A' <= c <= 'Z' {
        (c as int + 32) as char
    } else {
        c
    }
}

fn to_lower(c: char) -> (lower: char)
    ensures
        lower == ascii_lower(c),
{
    if 'A' <= c && c <= 'Z' {
        (c as u8 + 32) as char
    } else {
        c
    }
}

/// Whether two texts differ at most in the case of ASCII letters.
pub open spec fn same_ignoring_case(a: Seq<char>, b: Seq<char>) -> bool {
    &&& a.len() == b.len()
    &&& forall|i: int| 0 <= i < a.len() ==> ascii_lower(#[trigger] a[i]) == ascii_lower(b[i])
}

/// Whether two texts differ at most in the case of ASCII letters.
pub fn eq_ignore_ascii_case(a: &str, b: &str) -> (same: bool)
    ensures
        same == same_ignoring_case(a@, b@),
{
    let left = chars_of(a);
    let right = chars_of(b);
    if left.len() != right.len() {
        return false;
    }
    let mut i: usize = 0;
    while i < left.len()
        invariant
            i <= left.len(),
            left.len() == right.len(),
            left@ == a@,
            right@ == b@,
            forall|j: int| 0 <= j < i ==> ascii_lower(#[trigger] a@[j]) == ascii_lower(b@[j]),
        decreases left.len() - i,
    {
        if to_lower(left[i]) != to_lower(right[i]) {
            assert(ascii_lower(a@[i as int]) != ascii_lower(b@[i as int]));
            return false;
        }
        i += 1;
    }
    true
}

/// What follows a prefix in a text, if the text starts with it.
pub fn strip_prefix<'a>(text: &'a str, prefix: &str) -> (rest: Option<&'a str>)
    ensures
        rest is Some <==> prefix@.is_prefix_of(text@),
        rest matches Some(rest) ==> text@ == prefix@ + rest@,
{
    let length: usize = prefix.unicode_len();
    let total: usize = text.unicode_len();
    if length > total || !same_text(text.substring_char(0, length), prefix) {
        assert(length <= total ==> text@.take(length as int) =~= text@.subrange(
            0,
            length as int,
        ));
        return None;
    }
    assert(text@.take(length as int) =~= text@.subrange(0, length as int));
    let rest = text.substring_char(length, total);
    assert(text@ =~= prefix@ + rest@);
    Some(rest)
}

/// The character of a digit.
pub open spec fn digit_char(digit: int) -> char {
    (48 + digit) as char
}

/// A number in decimal, without leading zeros.
pub open spec fn decimal_text(n: nat) -> Seq<char>
    decreases n,
{
    if n < 10 {
        seq![digit_char(n as int)]
    } else {
        decimal_text(n / 10).push(digit_char((n % 10) as int))
    }
}

fn digit_text(digit: u64) -> (text: &'static str)
    requires
        digit < 10,
    ensures
        text@ == seq![digit_char(digit as int)],
{
    proof {
        reveal_strlit("0");
        reveal_strlit("1");
        reveal_strlit("2");
        reveal_strlit("3");
        reveal_strlit("4");
        reveal_strlit("5");
        reveal_strlit("6");
        reveal_strlit("7");
        reveal_strlit("8");
        reveal_strlit("9");
    }
    match digit {
        0 => "0",
        1 => "1",
        2 => "2",
        3 => "3",
        4 => "4",
        5 => "5",
        6 => "6",
        7 => "7",
        8 => "8",
        _ => "9",
    }
}

/// A number in decimal.
pub fn decimal(n: u64) -> (text: String)
    ensures
        text@ == decimal_text(n as nat),
    decreases n,
{
    if n < 10 {
        return digit_text(n).to_owned();
    }
    let head = decimal(n / 10);
    let text = head.concat(digit_text(n % 10));
    assert(text@ =~= decimal_text(n as nat));
    text
}

/// Why a text is no number.
#[derive(Clone, Copy, Debug, PartialEq, Eq, Structural)]
pub enum ParseError {
    Empty,
    InvalidDigit,
    Overflow,
}

impl ParseError {
    /// The words that each reason is reported with.
    pub open spec fn spec_message(self) -> Seq<char> {
        match self {
            ParseError::Empty => "cannot parse integer from empty string"@,
            ParseError::InvalidDigit => "invalid digit found in string"@,
            ParseError::Overflow => "number too large to fit in target type"@,
        }
    }

    /// The words that the reason is reported with.
    pub fn message(&self) -> (message: String)
        ensures
            message@ == self.spec_message(),
    {
        match self {
            ParseError::Empty => "cannot parse integer from empty string".to_owned(),
            ParseError::InvalidDigit => "invalid digit found in string".to_owned(),
            ParseError::Overflow => "number too large to fit in target type".to_owned(),
        }
    }
}

/// The number that digits make behind those read already, which made `value`. The first
/// character that is no digit, or that takes the number past `max`, decides.
pub open spec fn read_digits(text: Seq<char>, value: int, max: int) -> Result<int, ParseError>
    decreases text.len(),
{
    if text.len() == 0 {
        Ok(value)
    } else if !('0' <= text[0] <= '9') {
        Err(ParseError::InvalidDigit)
    } else if value * 10 + (text[0] as int - 48) > max {
        Err(ParseError::Overflow)
    } else {
        read_digits(text.skip(1), value * 10 + (text[0] as int - 48), max)
    }
}

/// The number that a text writes in decimal: digits, with a plus sign in front of them or
/// none.
pub open spec fn parsed(text: Seq<char>, max: int) -> Result<int, ParseError> {
    if text.len() == 0 {
        Err(ParseError::Empty)
    } else if text[0] == '+' {
        if text.len() == 1 {
            Err(ParseError::InvalidDigit)
        } else {
            read_digits(text.skip(1), 0, max)
        }
    } else {
        read_digits(text, 0, max)
    }
}

/// Reads a decimal number that is at most `max`.
pub fn parse(text: &str, max: u64) -> (outcome: Result<u64, ParseError>)
    ensures
        match parsed(text@, max as int) {
            Ok(value) => outcome matches Ok(number) && number == value,
            Err(error) => outcome == Err::<u64, ParseError>(error),
        },
{
    let chars = chars_of(text);
    if chars.len() == 0 {
        return Err(ParseError::Empty);
    }
    let mut i: usize = 0;
    if chars[0] == '+' {
        if chars.len() == 1 {
            return Err(ParseError::InvalidDigit);
        }
        i = 1;
    }
    let mut value: u64 = 0;
    assert(chars@.skip(0) =~= chars@);
    while i < chars.len()
        invariant
            i <= chars.len(),
            chars@ == text@,
            value <= max,
            parsed(text@, max as int) == read_digits(
                chars@.skip(i as int),
                value as int,
                max as int,
            ),
        decreases chars.len() - i,
    {
        let c = chars[i];
        assert(chars@.skip(i as int).skip(1) =~= chars@.skip(i + 1));
        if !('0' <= c && c <= '9') {
            return Err(ParseError::InvalidDigit);
        }
        let digit: u64 = (c as u32 - 48) as u64;
        let wide: u128 = value as u128 * 10 + digit as u128;
        if wide > max as u128 {
            return Err(ParseError::Overflow);
        }
        value = wide as u64;
        i += 1;
    }
    Ok(value)
}

/// A number that is written in decimal is read back, with a plus sign in front too.
pub proof fn law_decimal_is_read_back(n: nat, max: int)
    requires
        n <= max,
    ensures
        parsed(decimal_text(n), max) == Ok::<int, ParseError>(n as int),
        parsed(seq!['+'] + decimal_text(n), max) == Ok::<int, ParseError>(n as int),
{
    lemma_decimal_digits(n);
    lemma_read_digits(n, Seq::empty(), max);
    assert(decimal_text(n) + Seq::<char>::empty() =~= decimal_text(n));
    assert((seq!['+'] + decimal_text(n)).skip(1) =~= decimal_text(n));
}

proof fn lemma_decimal_digits(n: nat)
    ensures
        decimal_text(n).len() > 0,
        forall|i: int|
            0 <= i < decimal_text(n).len() ==> '0' <= #[trigger] decimal_text(n)[i] <= '9',
    decreases n,
{
    if n >= 10 {
        lemma_decimal_digits(n / 10);
    }
}

proof fn lemma_read_digits(n: nat, rest: Seq<char>, max: int)
    requires
        n <= max,
    ensures
        read_digits(decimal_text(n) + rest, 0, max) == read_digits(rest, n as int, max),
    decreases n,
{
    let text = decimal_text(n) + rest;
    if n < 10 {
        assert(text.skip(1) =~= rest);
    } else {
        let last = seq![digit_char((n % 10) as int)] + rest;
        lemma_read_digits(n / 10, last, max);
        assert(text =~= decimal_text(n / 10) + last);
        assert(last.skip(1) =~= rest);
    }
}

/// Whether a character is white space.
pub open spec fn is_white(c: char) -> bool {
    let n = c as int;
    9 <= n <= 13 || n == 0x20 || n == 0x85 || n == 0xA0 || n == 0x1680 || 0x2000 <= n <= 0x200A || n
        == 0x2028 || n == 0x2029 || n == 0x202F || n == 0x205F || n == 0x3000
}

fn white(c: char) -> (is: bool)
    ensures
        is == is_white(c),
{
    let n: u32 = c as u32;
    9 <= n && n <= 13 || n == 0x20 || n == 0x85 || n == 0xA0 || n == 0x1680 || 0x2000 <= n && n
        <= 0x200A || n == 0x2028 || n == 0x2029 || n == 0x202F || n == 0x205F || n == 0x3000
}

/// Whether a text is another one without the white space at both ends.
pub open spec fn is_trimmed(text: Seq<char>, trimmed: Seq<char>) -> bool {
    &&& trimmed.len() > 0 ==> !is_white(trimmed[0]) && !is_white(trimmed.last())
    &&& exists|from: int, to: int|
        {
            &&& 0 <= from <= to <= text.len()
            &&& trimmed == #[trigger] text.subrange(from, to)
            &&& forall|i: int| 0 <= i < from ==> is_white(#[trigger] text[i])
            &&& forall|i: int| to <= i < text.len() ==> is_white(#[trigger] text[i])
        }
}

/// A text without the white space at both ends.
pub fn trim(text: &str) -> (trimmed: &str)
    ensures
        is_trimmed(text@, trimmed@),
{
    let chars = chars_of(text);
    let mut from: usize = 0;
    while from < chars.len() && white(chars[from])
        invariant
            from <= chars.len(),
            forall|i: int| 0 <= i < from ==> is_white(#[trigger] chars@[i]),
        ensures
            from <= chars.len(),
            forall|i: int| 0 <= i < from ==> is_white(#[trigger] chars@[i]),
            from < chars.len() ==> !is_white(chars@[from as int]),
        decreases chars.len() - from,
    {
        from += 1;
    }
    let mut to: usize = chars.len();
    while to > from && white(chars[to - 1])
        invariant
            from <= to <= chars.len(),
            forall|i: int| to <= i < chars.len() ==> is_white(#[trigger] chars@[i]),
        ensures
            from <= to <= chars.len(),
            forall|i: int| to <= i < chars.len() ==> is_white(#[trigger] chars@[i]),
            to > from ==> !is_white(chars@[to - 1]),
        decreases to,
    {
        to -= 1;
    }
    let trimmed = text.substring_char(from, to);
    assert(trimmed@ == text@.subrange(from as int, to as int));
    trimmed
}

/// A text has one trimmed form.
pub proof fn law_trimmed_is_unique(text: Seq<char>, a: Seq<char>, b: Seq<char>)
    requires
        is_trimmed(text, a),
        is_trimmed(text, b),
    ensures
        a == b,
{
    let (f, t) = choose|from: int, to: int|
        {
            &&& 0 <= from <= to <= text.len()
            &&& a == #[trigger] text.subrange(from, to)
            &&& forall|i: int| 0 <= i < from ==> is_white(#[trigger] text[i])
            &&& forall|i: int| to <= i < text.len() ==> is_white(#[trigger] text[i])
        };
    let (g, u) = choose|from: int, to: int|
        {
            &&& 0 <= from <= to <= text.len()
            &&& b == #[trigger] text.subrange(from, to)
            &&& forall|i: int| 0 <= i < from ==> is_white(#[trigger] text[i])
            &&& forall|i: int| to <= i < text.len() ==> is_white(#[trigger] text[i])
        };
    if a.len() > 0 {
        assert(a[0] == text[f] && a.last() == text[t - 1]);
    }
    if b.len() > 0 {
        assert(b[0] == text[g] && b.last() == text[u - 1]);
    }
    assert(a =~= b);
}

} // verus!
