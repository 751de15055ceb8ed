//! Dates of the form `2025-03-07 23:39:44`, and the seconds between two of
//! them on a calendar of months of thirty days and years of 365.

use vstd::prelude::*;
use vstd::string::StrSliceExecFns;

verus! {

/// Seconds in a calendar year of 365 days.
pub const SECONDS_PER_YEAR: u128 = 31536000;

/// Seconds in a calendar month of thirty days.
pub const SECONDS_PER_MONTH: u128 = 2592000;

/// Seconds in a day.
pub const SECONDS_PER_DAY: u128 = 86400;

/// Seconds in an hour.
pub const SECONDS_PER_HOUR: u128 = 3600;

/// Seconds in a minute.
pub const SECONDS_PER_MINUTE: u128 = 60;

/// The year from which seconds are counted.
pub const FIRST_YEAR: u16 = 2001;

/// The pieces of a text between the occurrences of a separator. A text
/// with `n` separators has `n + 1` pieces, some of which may be empty.
pub open spec fn pieces(text: Seq<char>, separator: char) -> Seq<Seq<char>>
    decreases text.len(),
{
    if text.len() == 0 {
        seq![Seq::empty()]
    } else {
        let earlier = pieces(text.drop_last(), separator);
        if text.last() == separator {
            earlier.push(Seq::empty())
        } else {
            earlier.update(earlier.len() - 1, earlier.last().push(text.last()))
        }
    }
}

/// Whether a character is a decimal digit.
pub open spec fn is_digit(c: char) -> bool {
    '0' <= c <= '9'
}

/// The value of a run of decimal digits.
pub open spec fn digits_value(digits: Seq<char>) -> nat
    decreases digits.len(),
{
    if digits.len() == 0 {
        0
    } else {
        digits_value(digits.drop_last()) * 10 + (digits.last() as u32 - '0' as u32) as nat
    }
}

/// The digits of a number written as text: the text itself, without a plus
/// sign at its head.
pub open spec fn unsigned_part(text: Seq<char>) -> Seq<char> {
    if text.len() > 0 && text[0] == '+' {
        text.skip(1)
    } else {
        text
    }
}

/// The number that a text stands for, if it is one: an optional plus sign,
/// then at least one digit and digits only, and a value of at most 65535.
pub open spec fn number(text: Seq<char>) -> Option<u16> {
    let digits = unsigned_part(text);
    if digits.len() > 0 && (forall|i: int| 0 <= i < digits.len() ==> is_digit(#[trigger] digits[i]))
        && digits_value(digits) <= u16::MAX {
        Some(digits_value(digits) as u16)
    } else {
        None
    }
}

/// The numbers that the pieces of a text stand for, if each piece is one.
pub open spec fn numbers(texts: Seq<Seq<char>>) -> Option<Seq<u16>>
    decreases texts.len(),
{
    if texts.len() == 0 {
        Some(Seq::empty())
    } else {
        match (numbers(texts.drop_last()), number(texts.last())) {
            (Some(earlier), Some(last)) => Some(earlier.push(last)),
            _ => None,
        }
    }
}

/// The numbers of a date: those of its first part, between hyphens, and
/// then those of its second part, between colons. The parts are set apart
/// by a space; what follows a second space is not looked at.
pub open spec fn date_numbers(date: Seq<char>) -> Option<Seq<u16>> {
    let parts = pieces(date, ' ');
    if parts.len() < 2 {
        None
    } else {
        match (numbers(pieces(parts[0], '-')), numbers(pieces(parts[1], ':'))) {
            (Some(day), Some(time)) => Some(day + time),
            _ => None,
        }
    }
}

/// The seconds from the beginning of the first year to the date with the
/// given numbers: year, month, day, hour, minute, second.
pub open spec fn seconds_of(date: Seq<u16>) -> int {
    (date[0] - FIRST_YEAR) * SECONDS_PER_YEAR + date[1] * SECONDS_PER_MONTH + date[2]
        * SECONDS_PER_DAY + date[3] * SECONDS_PER_HOUR + date[4] * SECONDS_PER_MINUTE + date[5]
}

/// Whether a text is a date that seconds can be counted to: it has six
/// numbers at least, and its year is not before the first.
pub open spec fn is_datetime(date: Seq<char>) -> bool {
    date_numbers(date) matches Some(parts) && parts.len() >= 6 && parts[0] >= FIRST_YEAR
}

/// The characters of a text.
fn characters(text: &str) -> (chars: Vec<char>)
    ensures
        chars@ == text@,
{
    let n: usize = text.unicode_len();
    let mut chars: Vec<char> = Vec::new();
    let mut i: usize = 0;
    while i < n
        invariant
            n == text@.len(),
            i <= n,
            chars@ == text@.take(i as int),
        decreases n - i,
    {
        chars.push(text.get_char(i));
        assert(text@.take(i as int).push(text@[i as int]) =~= text@.take(i as int + 1));
        i = i + 1;
    }
    assert(text@.take(n as int) =~= text@);
    chars
}

/// Cuts a text into its pieces.
fn split(text: &Vec<char>, separator: char) -> (parts: Vec<Vec<char>>)
    ensures
        parts@.len() == pieces(text@, separator).len(),
        forall|k: int| 0 <= k < parts@.len() ==> (#[trigger] parts@[k])@ == pieces(
            text@,
            separator,
        )[k],
{
    let mut parts: Vec<Vec<char>> = Vec::new();
    let mut current: Vec<char> = Vec::new();
    let mut i: usize = 0;
    while i < text.len()
        invariant
            i <= text@.len(),
            parts@.len() + 1 == pieces(text@.take(i as int), separator).len(),
            forall|k: int| 0 <= k < parts@.len() ==> (#[trigger] parts@[k])@ == pieces(
                text@.take(i as int),
                separator,
            )[k],
            current@ == pieces(text@.take(i as int), separator).last(),
        decreases text@.len() - i,
    {
        proof {
            assert(text@.take(i as int + 1).drop_last() =~= text@.take(i as int));
        }
        if text[i] == separator {
            parts.push(current);
            current = Vec::new();
        } else {
            current.push(text[i]);
        }
        i = i + 1;
    }
    assert(text@.take(text@.len() as int) =~= text@);
    parts.push(current);
    parts
}

/// Reads a number.
fn parse_number(text: &Vec<char>) -> (value: Option<u16>)
    ensures
        value == number(text@),
{
    let start: usize = if text.len() > 0 && text[0] == '+' {
        1
    } else {
        0
    };
    let ghost digits = unsigned_part(text@);
    if start == text.len() {
        return None;
    }
    let mut value: u32 = 0;
    let mut i: usize = start;
    while i < text.len()
        invariant
            start <= i <= text@.len(),
            digits == unsigned_part(text@),
            digits == text@.skip(start as int),
            forall|k: int| 0 <= k < i - start ==> is_digit(#[trigger] digits[k]),
            value == digits_value(digits.take(i - start)),
            value <= u16::MAX,
        decreases text@.len() - i,
    {
        let c = text[i];
        proof {
            assert(digits[i - start] == c);
            assert(digits.take(i - start + 1).drop_last() =~= digits.take(i - start));
        }
        if c < '0' || c > '9' {
            assert(!is_digit(digits[i - start]));
            return None;
        }
        assert(is_digit(digits[i - start]));
        let digit: u32 = c as u32 - '0' as u32;
        value = value * 10 + digit;
        if value > 65535 {
            proof {
                assert(value == digits_value(digits.take(i - start + 1)));
                lemma_digits_value_grows(digits, i - start + 1);
            }
            return None;
        }
        i = i + 1;
    }
    assert(digits.take(digits.len() as int) =~= digits);
    Some(value as u16)
}

/// A run of digits is worth at least as much as any of its beginnings.
proof fn lemma_digits_value_grows(digits: Seq<char>, upto: int)
    requires
        0 <= upto <= digits.len(),
        forall|k: int| 0 <= k < upto ==> is_digit(#[trigger] digits[k]),
    ensures
        (forall|k: int| 0 <= k < digits.len() ==> is_digit(#[trigger] digits[k]))
            ==> digits_value(digits.take(upto)) <= digits_value(digits),
    decreases digits.len() - upto,
{
    if upto < digits.len() {
        if forall|k: int| 0 <= k < digits.len() ==> is_digit(#[trigger] digits[k]) {
            assert(is_digit(digits[upto]));
            lemma_digits_value_grows(digits, upto + 1);
            assert(digits.take(upto + 1).drop_last() =~= digits.take(upto));
        }
    } else {
        assert(digits.take(upto) =~= digits);
    }
}

/// Reads the numbers of the pieces of a text.
fn parse_numbers(text: &Vec<char>, separator: char) -> (parsed: Option<Vec<u16>>)
    ensures
        match parsed {
            Some(found) => numbers(pieces(text@, separator)) == Some(found@),
            None => numbers(pieces(text@, separator)).is_none(),
        },
{
    let parts = split(text, separator);
    let ghost texts = pieces(text@, separator);
    let mut values: Vec<u16> = Vec::new();
    let mut i: usize = 0;
    while i < parts.len()
        invariant
            i <= parts@.len(),
            texts == pieces(text@, separator),
            parts@.len() == texts.len(),
            forall|k: int| 0 <= k < parts@.len() ==> (#[trigger] parts@[k])@ == texts[k],
            numbers(texts.take(i as int)) == Some(values@),
        decreases parts@.len() - i,
    {
        proof {
            assert(texts.take(i as int + 1).drop_last() =~= texts.take(i as int));
            assert(texts.take(i as int + 1).last() == parts@[i as int]@);
        }
        match parse_number(&parts[i]) {
            Some(value) => {
                values.push(value);
            },
            None => {
                proof {
                    assert(numbers(texts.take(i as int + 1)).is_none());
                    lemma_numbers_fail(texts, i as int + 1);
                }
                return None;
            },
        }
        i = i + 1;
    }
    assert(texts.take(texts.len() as int) =~= texts);
    Some(values)
}

/// If the first pieces are not all numbers, the pieces are not.
proof fn lemma_numbers_fail(texts: Seq<Seq<char>>, upto: int)
    requires
        0 <= upto <= texts.len(),
        numbers(texts.take(upto)).is_none(),
    ensures
        numbers(texts).is_none(),
    decreases texts.len() - upto,
{
    if upto < texts.len() {
        assert(texts.take(upto + 1).drop_last() =~= texts.take(upto));
        lemma_numbers_fail(texts, upto + 1);
    } else {
        assert(texts.take(upto) =~= texts);
    }
}

/// Takes a date apart into its numbers, if it is made of numbers.
pub fn try_decompose_date(date: &str) -> (parts: Option<Vec<u16>>)
    ensures
        match parts {
            Some(found) => date_numbers(date@) == Some(found@),
            None => date_numbers(date@).is_none(),
        },
{
    let text = characters(date);
    let halves = split(&text, ' ');
    if halves.len() < 2 {
        return None;
    }
    let day = parse_numbers(&halves[0], '-');
    let time = parse_numbers(&halves[1], ':');
    match (day, time) {
        (Some(mut decomposed_date_int), Some(mut h_m_s)) => {
            decomposed_date_int.append(&mut h_m_s);
            Some(decomposed_date_int)
        },
        _ => None,
    }
}

/// Takes a date apart into its numbers.
pub fn decompose_date(date: &str) -> (parts: Vec<u16>)
    requires
        date_numbers(date@).is_some(),
    ensures
        Some(parts@) == date_numbers(date@),
{
    match try_decompose_date(date) {
        Some(parts) => parts,
        None => Vec::new(),
    }
}

/// The seconds from the beginning of the first year to a date.
pub fn seconds_since_start(decomposed_date: Vec<u16>) -> (seconds: u128)
    requires
        decomposed_date@.len() >= 6,
        decomposed_date@[0] >= FIRST_YEAR,
    ensures
        seconds == seconds_of(decomposed_date@),
{
    let mut seconds_since_start: u128 = 0;
    seconds_since_start += (decomposed_date[0] - FIRST_YEAR) as u128 * SECONDS_PER_YEAR;
    seconds_since_start += decomposed_date[1] as u128 * SECONDS_PER_MONTH;
    seconds_since_start += decomposed_date[2] as u128 * SECONDS_PER_DAY;
    seconds_since_start += decomposed_date[3] as u128 * SECONDS_PER_HOUR;
    seconds_since_start += decomposed_date[4] as u128 * SECONDS_PER_MINUTE;
    seconds_since_start += decomposed_date[5] as u128;
    seconds_since_start
}

/// Tells whether seconds can be counted to a date.
pub fn is_countable(date: &str) -> (yes: bool)
    ensures
        yes == is_datetime(date@),
{
    match try_decompose_date(date) {
        Some(parts) => parts.len() >= 6 && parts[0] >= FIRST_YEAR,
        None => false,
    }
}

/// The seconds between two dates, whichever comes first.
pub fn datetime_difference(start_date: &str, end_date: &str) -> (seconds: u128)
    requires
        is_datetime(start_date@),
        is_datetime(end_date@),
    ensures
        ({
            let start = seconds_of(date_numbers(start_date@).unwrap());
            let end = seconds_of(date_numbers(end_date@).unwrap());
            seconds == if start > end {
                start - end
            } else {
                end - start
            }
        }),
{
    let decomposed_start_date = decompose_date(start_date);
    let decomposed_end_date = decompose_date(end_date);

    let seconds_start = seconds_since_start(decomposed_start_date);
    let seconds_end = seconds_since_start(decomposed_end_date);

    if seconds_start > seconds_end {
        return seconds_start - seconds_end;
    }
    seconds_end - seconds_start
}

} // verus!
