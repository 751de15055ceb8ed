//! Numbers as text.

use vstd::prelude::*;
use vstd::string::StringExecFns;
use vstd::utf8::is_ascii_chars;

verus! {

/// The character of one decimal digit.
pub open spec fn digit(d: nat) -> char {
    if d == 0 {
        '0'
    } else if d == 1 {
        '1'
    } else if d == 2 {
        '2'
    } else if d == 3 {
        '3'
    } else if d == 4 {
        '4'
    } else if d == 5 {
        '5'
    } else if d == 6 {
        '6'
    } else if d == 7 {
        '7'
    } else if d == 8 {
        '8'
    } else {
        '9'
    }
}

/// A number in decimal, most significant digit first, without leading zeros.
pub open spec fn decimal(n: nat) -> Seq<char>
    decreases n,
{
    if n < 10 {
        seq![digit(n)]
    } else {
        decimal(n / 10).push(digit(n % 10))
    }
}

/// A number with its sign in decimal: a minus sign before a negative number,
/// nothing before any other.
pub open spec fn signed_decimal(n: int) -> Seq<char> {
    if n < 0 {
        seq!['-'] + decimal((-n) as nat)
    } else {
        decimal(n as nat)
    }
}

/// A list of numbers as text: between square brackets, with a comma and a
/// space between one number and the next.
pub open spec fn list_text(numbers: Seq<i32>) -> Seq<char> {
    seq!['['] + list_items(numbers) + seq![']']
}

/// The numbers of a list as text, without the brackets.
pub open spec fn list_items(numbers: Seq<i32>) -> Seq<char>
    decreases numbers.len(),
{
    if numbers.len() == 0 {
        Seq::empty()
    } else if numbers.len() == 1 {
        signed_decimal(numbers[0] as int)
    } else {
        list_items(numbers.drop_last()) + seq![',', ' '] + signed_decimal(numbers.last() as int)
    }
}

/// Ten to the power of `exponent`.
pub open spec fn power_of_ten(exponent: nat) -> nat
    decreases exponent,
{
    if exponent == 0 {
        1
    } else {
        10 * power_of_ten((exponent - 1) as nat)
    }
}

/// Two plain texts one after the other are a plain text.
pub proof fn lemma_ascii_concat(first: Seq<char>, second: Seq<char>)
    requires
        is_ascii_chars(first),
        is_ascii_chars(second),
    ensures
        is_ascii_chars(first + second),
{
    assert forall|i: int| 0 <= i < (first + second).len() implies '\0' <= #[trigger] (first
        + second)[i] <= '\u{7f}' by {
        if i < first.len() {
            assert((first + second)[i] == first[i]);
        } else {
            assert((first + second)[i] == second[i - first.len()]);
        }
    }
}

/// A number below a power of ten has no more digits than the exponent, and
/// its digits are plain text.
pub proof fn lemma_decimal_fits(n: nat, exponent: nat)
    requires
        exponent >= 1,
        n < power_of_ten(exponent),
    ensures
        1 <= decimal(n).len() <= exponent,
        is_ascii_chars(decimal(n)),
    decreases n,
{
    if n >= 10 {
        if exponent == 1 {
            assert(power_of_ten(1) == 10) by {
                reveal_with_fuel(power_of_ten, 2);
            }
        }
        lemma_decimal_fits(n / 10, (exponent - 1) as nat);
        lemma_ascii_concat(decimal(n / 10), seq![digit(n % 10)]);
        assert(decimal(n / 10).push(digit(n % 10)) =~= decimal(n / 10) + seq![digit(n % 10)]);
    }
}

/// A number of 32 bits with its sign takes no more than eleven characters,
/// all of them plain text.
pub proof fn lemma_signed_decimal_fits(n: i32)
    ensures
        1 <= signed_decimal(n as int).len() <= 11,
        is_ascii_chars(signed_decimal(n as int)),
{
    assert(power_of_ten(10) == 10_000_000_000) by {
        reveal_with_fuel(power_of_ten, 11);
    }
    if n < 0 {
        lemma_decimal_fits((-n) as nat, 10);
        lemma_ascii_concat(seq!['-'], decimal((-n) as nat));
    } else {
        lemma_decimal_fits(n as nat, 10);
    }
}

/// The text of one decimal digit.
fn digit_str(d: u64) -> (text: &'static str)
    requires
        d < 10,
    ensures
        text@ == seq![digit(d as nat)],
{
    proof {
        reveal_strlit("0");
        reveal_strlit("1");
        reveal_strlit("2");
        reveal_strlit("3");
        reveal_strlit("4");
        reveal_strlit("5");
        reveal_strlit("6");
        reveal_strlit("7");
        reveal_strlit("8");
        reveal_strlit("9");
    }
    let text = if d == 0 {
        "0"
    } else if d == 1 {
        "1"
    } else if d == 2 {
        "2"
    } else if d == 3 {
        "3"
    } else if d == 4 {
        "4"
    } else if d == 5 {
        "5"
    } else if d == 6 {
        "6"
    } else if d == 7 {
        "7"
    } else if d == 8 {
        "8"
    } else {
        "9"
    };
    assert(text@ =~= seq![digit(d as nat)]);
    text
}

/// Writes a number in decimal.
pub fn decimal_string(n: u64) -> (text: String)
    ensures
        text@ == decimal(n as nat),
    decreases n,
{
    if n < 10 {
        String::from_str(digit_str(n))
    } else {
        let mut text = decimal_string(n / 10);
        text.append(digit_str(n % 10));
        assert(text@ =~= decimal((n / 10) as nat).push(digit((n % 10) as nat)));
        text
    }
}

/// Writes a number with its sign in decimal.
pub fn signed_decimal_string(n: i32) -> (text: String)
    ensures
        text@ == signed_decimal(n as int),
{
    if n < 0 {
        proof {
            reveal_strlit("-");
        }
        let mut text = String::from_str("-");
        let magnitude: u64 = (-(n as i64)) as u64;
        let digits = decimal_string(magnitude);
        text.append(digits.as_str());
        assert("-"@ =~= seq!['-']);
        text
    } else {
        decimal_string(n as u64)
    }
}

/// Writes a list of numbers.
pub fn list_string(numbers: &Vec<i32>) -> (text: String)
    ensures
        text@ == list_text(numbers@),
{
    proof {
        reveal_strlit("[");
        reveal_strlit(", ");
        reveal_strlit("]");
    }
    let mut text = String::from_str("[");
    let ghost mut items: Seq<char> = Seq::empty();
    let mut i: usize = 0;
    while i < numbers.len()
        invariant
            i <= numbers@.len(),
            "["@ == seq!['['],
            ", "@ == seq![',', ' '],
            items == list_items(numbers@.take(i as int)),
            text@ == seq!['['] + items,
        decreases numbers@.len() - i,
    {
        proof {
            assert(numbers@.take(i as int + 1).drop_last() =~= numbers@.take(i as int));
        }
        if i > 0 {
            text.append(", ");
        }
        let number = signed_decimal_string(numbers[i]);
        text.append(number.as_str());
        proof {
            let upto = numbers@.take(i as int + 1);
            items = list_items(upto);
            if i == 0 {
                assert(numbers@.take(0).len() == 0);
            }
            assert(text@ =~= seq!['['] + items);
        }
        i = i + 1;
    }
    assert(numbers@.take(numbers@.len() as int) =~= numbers@);
    text.append("]");
    assert("]"@ =~= seq![']']);
    text
}

} // verus!
