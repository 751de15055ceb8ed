//! A pyramid of stars, seen from both sides.

use vstd::prelude::*;
use vstd::string::StringExecFns;

verus! {

/// One character, `count` times.
pub open spec fn run(c: char, count: nat) -> Seq<char> {
    Seq::new(count, |i: int| c)
}

/// The row of a pyramid of the given height that has `stars` stars: the
/// stars flush left in a field as wide as the pyramid is high, and then the
/// same flush right. A row with more stars than the field is wide is not
/// padded.
pub open spec fn pyramid_row(stars: nat, height: nat) -> Seq<char> {
    let padding = if stars < height {
        (height - stars) as nat
    } else {
        0
    };
    run('*', stars) + run(' ', padding) + run(' ', padding) + run('*', stars)
}

/// Appends a run of one character.
fn append_run(text: &mut String, piece: &str, c: char, count: usize)
    requires
        piece@ == seq![c],
    ensures
        final(text)@ == old(text)@ + run(c, count as nat),
{
    let mut i: usize = 0;
    while i < count
        invariant
            i <= count,
            piece@ == seq![c],
            text@ == old(text)@ + run(c, i as nat),
        decreases count - i,
    {
        text.append(piece);
        assert(text@ =~= old(text)@ + run(c, (i + 1) as nat));
        i = i + 1;
    }
}

/// Writes one row of the pyramid.
pub fn pyramider_row(stars: usize, height: usize) -> (row: String)
    ensures
        row@ == pyramid_row(stars as nat, height as nat),
{
    proof {
        reveal_strlit("*");
        reveal_strlit(" ");
    }
    assert("*"@ =~= seq!['*']);
    assert(" "@ =~= seq![' ']);
    let padding: usize = if stars < height {
        height - stars
    } else {
        0
    };
    let mut row = String::new();
    append_run(&mut row, "*", '*', stars);
    append_run(&mut row, " ", ' ', padding);
    append_run(&mut row, " ", ' ', padding);
    append_run(&mut row, "*", '*', stars);
    row
}

/// Writes the pyramid, one row for each number of stars from one up to the
/// height.
pub fn pyramider(height: usize) -> (rows: Vec<String>)
    ensures
        rows@.len() == height,
        forall|i: int| 0 <= i < rows@.len() ==> (#[trigger] rows@[i])@ == pyramid_row(
            (i + 1) as nat,
            height as nat,
        ),
{
    let mut rows: Vec<String> = Vec::new();
    let mut i: usize = 0;
    while i < height
        invariant
            i <= height,
            rows@.len() == i,
            forall|k: int| 0 <= k < rows@.len() ==> (#[trigger] rows@[k])@ == pyramid_row(
                (k + 1) as nat,
                height as nat,
            ),
        decreases height - i,
    {
        rows.push(pyramider_row(i + 1, height));
        i = i + 1;
    }
    rows
}

} // verus!
