//! Reading a signed decimal number from a line of input.
//!
//! A line stands for a number when, with the white space at both ends
//! removed, it is an optional sign followed by one or more decimal digits
//! whose value fits in 32 bits.

use vstd::prelude::*;

verus! {

/// Whether `c` is white space as Unicode defines it (`White_Space`).
pub open spec fn is_whitespace(c: char) -> bool {
    let code = c as u32;
    ||| 0x09 <= code <= 0x0D
    ||| code == 0x20
    ||| code == 0x85
    ||| code == 0xA0
    ||| code == 0x1680
    ||| 0x2000 <= code <= 0x200A
    ||| code == 0x2028
    ||| code == 0x2029
    ||| code == 0x202F
    ||| code == 0x205F
    ||| code == 0x3000
}

/// `text` without the white space at its start.
pub open spec fn trim_start(text: Seq<char>) -> Seq<char>
    decreases text.len(),
{
    if text.len() > 0 && is_whitespace(text.first()) {
        trim_start(text.drop_first())
    } else {
        text
    }
}

/// `text` without the white space at its end.
pub open spec fn trim_end(text: Seq<char>) -> Seq<char>
    decreases text.len(),
{
    if text.len() > 0 && is_whitespace(text.last()) {
        trim_end(text.drop_last())
    } else {
        text
    }
}

/// `text` without the white space at either end.
pub open spec fn trim(text: Seq<char>) -> Seq<char> {
    trim_end(trim_start(text))
}

/// Whether `c` is one of the digits `0` to `9`.
pub open spec fn is_digit(c: char) -> bool {
    '0' <= c <= '9'
}

/// The value of a digit; zero for any other character.
pub open spec fn digit_value(c: char) -> nat {
    if is_digit(c) {
        (c as u32 - '0' as u32) as nat
    } else {
        0
    }
}

/// Whether `text` consists of digits and of nothing else.
pub open spec fn all_digits(text: Seq<char>) -> bool {
    forall|i: int| 0 <= i < text.len() ==> is_digit(#[trigger] text[i])
}

/// The number that a run of digits spells in base ten.
pub open spec fn decimal_value(digits: Seq<char>) -> nat
    decreases digits.len(),
{
    if digits.len() == 0 {
        0
    } else {
        10 * decimal_value(digits.drop_last()) + digit_value(digits.last())
    }
}

/// The number that `text` spells: an optional `+` or `-`, then at least one
/// digit and nothing but digits. There is none where the text has another
/// form or the value lies outside the signed 32-bit range.
pub open spec fn parse_i32(text: Seq<char>) -> Option<i32> {
    let signed = text.len() > 0 && (text[0] == '-' || text[0] == '+');
    let negative = text.len() > 0 && text[0] == '-';
    let digits = if signed {
        text.drop_first()
    } else {
        text
    };
    let value = if negative {
        -(decimal_value(digits) as int)
    } else {
        decimal_value(digits) as int
    };
    if digits.len() > 0 && all_digits(digits) && i32::MIN <= value <= i32::MAX {
        Some(value as i32)
    } else {
        None
    }
}

/// The number that a line of input stands for, if it stands for one.
pub open spec fn line_value(line: Seq<char>) -> Option<i32> {
    parse_i32(trim(line))
}

/// A run of digits is worth at least as much as any of its prefixes.
pub proof fn lemma_decimal_value_grows(digits: Seq<char>, shorter: int)
    requires
        0 <= shorter <= digits.len(),
    ensures
        decimal_value(digits.take(shorter)) <= decimal_value(digits),
    decreases digits.len() - shorter,
{
    if shorter < digits.len() {
        lemma_decimal_value_grows(digits, shorter + 1);
        assert(digits.take(shorter + 1).drop_last() == digits.take(shorter));
    } else {
        assert(digits.take(shorter) == digits);
    }
}

/// Tells whether `c` is white space.
fn whitespace(c: char) -> (yes: bool)
    ensures
        yes == is_whitespace(c),
{
    let code: u32 = c as u32;
    (0x09 <= code && code <= 0x0D) || code == 0x20 || code == 0x85 || code == 0xA0 || code
        == 0x1680 || (0x2000 <= code && code <= 0x200A) || code == 0x2028 || code == 0x2029
        || code == 0x202F || code == 0x205F || code == 0x3000
}

/// The characters of `text`, one by one.
fn characters(text: &str) -> (chars: Vec<char>)
    ensures
        chars@ == text@,
{
    let mut chars: Vec<char> = Vec::new();
    for c in it: text.chars()
        invariant
            it.seq() == text@,
            chars@ == it.seq().take(it.index() as int),
    {
        chars.push(c);
    }
    chars
}

/// Finds where `chars` begins and ends once the white space at both ends is
/// left out.
fn trim_bounds(chars: &Vec<char>) -> (bounds: (usize, usize))
    ensures
        bounds.0 <= bounds.1 <= chars.len(),
        chars@.subrange(bounds.0 as int, bounds.1 as int) == trim(chars@),
{
    let mut start: usize = 0;
    assert(chars@.subrange(0, chars.len() as int) == chars@);
    while start < chars.len() && whitespace(chars[start])
        invariant
            start <= chars.len(),
            trim_start(chars@) == trim_start(chars@.subrange(start as int, chars.len() as int)),
        decreases chars.len() - start,
    {
        assert(chars@.subrange(start as int, chars.len() as int).drop_first()
            == chars@.subrange(start + 1, chars.len() as int));
        start += 1;
    }
    let mut end: usize = chars.len();
    while end > start && whitespace(chars[end - 1])
        invariant
            start <= end <= chars.len(),
            trim(chars@) == trim_end(chars@.subrange(start as int, end as int)),
        decreases end,
    {
        assert(chars@.subrange(start as int, end as int).drop_last() == chars@.subrange(
            start as int,
            end - 1,
        ));
        end -= 1;
    }
    (start, end)
}

/// Reads the run of digits from `from` up to `to`. Gives its value unless a
/// character is no digit or the value exceeds 2^31.
fn read_digits(chars: &Vec<char>, from: usize, to: usize) -> (value: Option<i64>)
    requires
        from <= to <= chars.len(),
    ensures
        match value {
            Some(v) => {
                &&& all_digits(chars@.subrange(from as int, to as int))
                &&& v == decimal_value(chars@.subrange(from as int, to as int))
                &&& v <= 0x8000_0000
            },
            None => {
                ||| !all_digits(chars@.subrange(from as int, to as int))
                ||| decimal_value(chars@.subrange(from as int, to as int)) > 0x8000_0000
            },
        },
{
    let ghost digits = chars@.subrange(from as int, to as int);
    let mut value: i64 = 0;
    let mut i: usize = from;
    while i < to
        invariant
            from <= i <= to <= chars.len(),
            digits == chars@.subrange(from as int, to as int),
            all_digits(digits.take(i - from)),
            value == decimal_value(digits.take(i - from)),
            0 <= value <= 0x8000_0000,
        decreases to - i,
    {
        let c = chars[i];
        if !('0' <= c && c <= '9') {
            assert(!is_digit(digits[i - from]));
            return None;
        }
        proof {
            let longer = digits.take(i - from + 1);
            assert(longer.drop_last() == digits.take(i - from));
            lemma_decimal_value_grows(digits, i - from + 1);
        }
        value = value * 10 + (c as u32 - '0' as u32) as i64;
        if value > 0x8000_0000 {
            return None;
        }
        i += 1;
    }
    assert(digits.take(to - from) == digits);
    Some(value)
}

/// Reads the number that `line` stands for.
pub fn read_number(line: &str) -> (number: Option<i32>)
    ensures
        number == line_value(line@),
{
    let chars = characters(line);
    let (start, end) = trim_bounds(&chars);
    let ghost text = chars@.subrange(start as int, end as int);
    if start == end {
        return None;
    }
    let negative = chars[start] == '-';
    let first: usize = if negative || chars[start] == '+' {
        start + 1
    } else {
        start
    };
    assert(chars@.subrange(first as int, end as int) == if first > start {
        text.drop_first()
    } else {
        text
    });
    if first == end {
        return None;
    }
    match read_digits(&chars, first, end) {
        None => None,
        Some(value) => {
            if negative {
                Some((0 - value) as i32)
            } else if value <= 0x7fff_ffff {
                Some(value as i32)
            } else {
                None
            }
        },
    }
}

} // verus!
