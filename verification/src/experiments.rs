//! Dice: vectors of random sums, and their rendering for a file.

use vstd::prelude::*;
use vstd::string::StringExecFns;
use crate::text::{decimal, decimal_string};

verus! {

/// The largest number that four dice can show together.
pub const MAX_FOUR_DICE: u16 = 20;

/// What one die shows for a raw random byte: zero to five.
pub open spec fn pips(raw: u8) -> int {
    raw as int % 6
}

/// `rand::random::<u8>()`: a byte from the thread's random number generator.
/// Nothing is known of it but its type.
#[verifier::external_body]
fn random_byte() -> (raw: u8) {
    rand::random::<u8>()
}

/// What four dice show together for four raw bytes.
pub fn four_dice(a: u8, b: u8, c: u8, d: u8) -> (sum: u16)
    ensures
        sum == pips(a) + pips(b) + pips(c) + pips(d),
        sum <= MAX_FOUR_DICE,
{
    (a % 6) as u16 + (b % 6) as u16 + (c % 6) as u16 + (d % 6) as u16
}

/// Throws four dice `length` times and notes each sum.
fn throws(length: usize) -> (sums: Vec<u16>)
    ensures
        sums@.len() == length,
        forall|i: int| 0 <= i < sums@.len() ==> sums@[i] <= MAX_FOUR_DICE,
{
    let mut sums: Vec<u16> = Vec::new();
    let mut i: usize = 0;
    while i < length
        invariant
            i <= length,
            sums@.len() == i,
            forall|k: int| 0 <= k < sums@.len() ==> sums@[k] <= MAX_FOUR_DICE,
        decreases length - i,
    {
        let sum = four_dice(random_byte(), random_byte(), random_byte(), random_byte());
        sums.push(sum);
        i = i + 1;
    }
    sums
}

/// Adds two vectors of sums, place by place.
pub fn combine(first: &Vec<u16>, second: &Vec<u16>) -> (result: Vec<u32>)
    requires
        first@.len() == second@.len(),
    ensures
        result@.len() == first@.len(),
        forall|i: int| 0 <= i < result@.len() ==> result@[i] == first@[i] + second@[i],
{
    let mut result: Vec<u32> = Vec::new();
    let mut i: usize = 0;
    while i < first.len()
        invariant
            first@.len() == second@.len(),
            i <= first@.len(),
            result@.len() == i,
            forall|k: int| 0 <= k < result@.len() ==> result@[k] == first@[k] + second@[k],
        decreases first@.len() - i,
    {
        result.push(first[i] as u32 + second[i] as u32);
        i = i + 1;
    }
    result
}

/// A vector of `length` random numbers, each the sum of eight dice that
/// count from zero: whatever the dice show, each number is at most forty.
pub fn mntd(length: u128) -> (result: Vec<u32>)
    requires
        length <= usize::MAX,
    ensures
        result@.len() == length,
        forall|i: int| 0 <= i < result@.len() ==> result@[i] <= 2 * MAX_FOUR_DICE,
{
    let temp1 = throws(length as usize);
    let temp = throws(length as usize);
    combine(&temp1, &temp)
}

/// The numbers one after the other, each followed by a comma.
pub open spec fn vector_text(numbers: Seq<u32>) -> Seq<char>
    decreases numbers.len(),
{
    if numbers.len() == 0 {
        Seq::empty()
    } else {
        vector_text(numbers.drop_last()) + decimal(numbers.last() as nat) + seq![',']
    }
}

/// Renders a vector as it is written to a file.
pub fn write_vec_to_file(vec: &Vec<u32>) -> (text: String)
    ensures
        text@ == vector_text(vec@),
{
    proof {
        reveal_strlit(",");
    }
    let mut text = String::new();
    let mut i: usize = 0;
    while i < vec.len()
        invariant
            i <= vec@.len(),
            ","@ == seq![','],
            text@ == vector_text(vec@.take(i as int)),
        decreases vec@.len() - i,
    {
        proof {
            assert(vec@.take(i as int + 1).drop_last() =~= vec@.take(i as int));
        }
        let mut temp = decimal_string(vec[i] as u64);
        temp.append(",");
        text.append(temp.as_str());
        i = i + 1;
    }
    assert(vec@.take(vec@.len() as int) =~= vec@);
    text
}

} // verus!
