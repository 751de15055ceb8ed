//! Tries laid out in three arrays.
//!
//! A node `s` owns a block of `next` that begins at `base[s]`. The edge of
//! `s` for the character `c` is at `t = base[s] + c`: it leads to `next[t]`,
//! if `check[t]` names `s` as the owner of that place.

use vstd::prelude::*;
use vstd::string::{StringExecFns, StringSliceAdditionalSpecFns};
use vstd::utf8::{is_ascii_chars, is_ascii_chars_encode_utf8};
use arrayvec::ArrayString;
use crate::buffer::{buffer_str, clear_buffer, fill_buffer, new_buffer, BUFFER_CAPACITY};
use crate::text::{
    decimal, decimal_string, lemma_ascii_concat, lemma_signed_decimal_fits, list_string, list_text,
    signed_decimal, signed_decimal_string,
};

verus! {

/// The number of a character.
pub open spec fn code(c: char) -> int {
    c as u32 as int
}

/// The place in `next` and `check` of the edge of node `s` for `c`.
pub open spec fn edge_place(base: Seq<i32>, s: usize, c: char) -> int {
    base[s as int] + code(c)
}

/// Where the edge of node `s` for `c` leads, if the node has such an edge.
pub open spec fn transition(
    base: Seq<i32>,
    next: Seq<i32>,
    check: Seq<i32>,
    s: usize,
    c: char,
) -> Option<i32> {
    let t = edge_place(base, s, c);
    if check[t] == s as i32 {
        Some(next[t])
    } else {
        None
    }
}

/// The largest character code among the edges; zero if there are none.
pub open spec fn max_code(edges: Seq<(char, i32)>) -> int
    decreases edges.len(),
{
    if edges.len() == 0 {
        0
    } else {
        let earlier = max_code(edges.drop_last());
        if code(edges.last().0) > earlier {
            code(edges.last().0)
        } else {
            earlier
        }
    }
}

/// A row with the targets of the edges written into the block that begins at
/// `start`, in the order of the edges: a later edge for the same character
/// wins.
pub open spec fn with_targets(row: Seq<i32>, start: int, edges: Seq<(char, i32)>) -> Seq<i32>
    decreases edges.len(),
{
    if edges.len() == 0 {
        row
    } else {
        with_targets(row, start, edges.drop_last()).update(
            start + code(edges.last().0),
            edges.last().1,
        )
    }
}

/// A row with `owner` written at the place of each edge in the block that
/// begins at `start`.
pub open spec fn with_owner(row: Seq<i32>, start: int, edges: Seq<(char, i32)>, owner: i32) -> Seq<
    i32,
>
    decreases edges.len(),
{
    if edges.len() == 0 {
        row
    } else {
        with_owner(row, start, edges.drop_last(), owner).update(
            start + code(edges.last().0),
            owner,
        )
    }
}

/// A row made longer with places that hold no edge, up to `len` places. A
/// row that is long enough stays as it is.
pub open spec fn padded(row: Seq<i32>, len: int) -> Seq<i32> {
    if row.len() >= len {
        row
    } else {
        row + Seq::new((len - row.len()) as nat, |i: int| -1i32)
    }
}

/// Makes a row longer, up to `len` places.
fn pad(row: &mut Vec<i32>, len: usize)
    ensures
        final(row)@ == padded(old(row)@, len as int),
{
    if row.len() < len {
        row.resize(len, -1);
        assert(row@ =~= padded(old(row)@, len as int)) by {
            assert forall|i: int| 0 <= i < len implies row@[i] == padded(
                old(row)@,
                len as int,
            )[i] by {
                if i < old(row)@.len() {
                    assert(row@.subrange(0, old(row)@.len() as int)[i] == old(row)@[i]);
                }
            }
        }
    }
}

/// The text for one edge: the owner of the place, the label of the edge as
/// the distance of the place from the beginning of the owner's block, and the
/// node the edge leads to.
pub open spec fn edge_text(owner: int, label: int, target: int) -> Seq<char> {
    seq![',', ' ', '['] + signed_decimal(owner) + seq![' ', '-', '('] + signed_decimal(label)
        + seq![')', '-', '>', ' '] + signed_decimal(target) + seq![']']
}

/// Whether a place holds an edge: it has an owner and a target.
pub open spec fn holds_edge(next: Seq<i32>, check: Seq<i32>, place: int) -> bool {
    check[place] != -1 && next[place] != -1
}

/// The label of the edge at a place, as the description gives it.
pub open spec fn label_at(base: Seq<i32>, check: Seq<i32>, place: int) -> int {
    (place as i32) - base[check[place] as int]
}

/// The text for the edges at the first `upto` places, in order.
pub open spec fn edges_text(base: Seq<i32>, next: Seq<i32>, check: Seq<i32>, upto: int) -> Seq<
    char,
>
    decreases upto,
{
    if upto <= 0 {
        Seq::empty()
    } else {
        let earlier = edges_text(base, next, check, upto - 1);
        if holds_edge(next, check, upto - 1) {
            earlier + edge_text(
                check[upto - 1] as int,
                label_at(base, check, upto - 1),
                next[upto - 1] as int,
            )
        } else {
            earlier
        }
    }
}

/// The description of a trie: the length and contents of `base`, the length
/// of `next`, and the edges.
pub open spec fn trie_text(base: Seq<i32>, next: Seq<i32>, check: Seq<i32>) -> Seq<char> {
    "base len: "@ + decimal(base.len()) + ", base "@ + list_text(base) + "\nnext len: "@
        + decimal(next.len()) + ", next:"@ + edges_text(base, next, check, next.len() as int)
}

/// A trie in three arrays.
pub struct TATrie {
    base: Vec<i32>,
    next: Vec<i32>,
    check: Vec<i32>,
}

impl TATrie {
    /// For each node the beginning of its block; `-1` for a node without one.
    pub closed spec fn base(&self) -> Seq<i32> {
        self.base@
    }

    /// For each place the node that its edge leads to; `-1` for no edge.
    pub closed spec fn next(&self) -> Seq<i32> {
        self.next@
    }

    /// For each place the node that owns it; `-1` for no owner.
    pub closed spec fn check(&self) -> Seq<i32> {
        self.check@
    }

    /// What holds of every trie: `next` and `check` are of one length.
    pub open spec fn well_formed(&self) -> bool {
        self.next().len() == self.check().len()
    }

    /// A trie without nodes.
    pub fn new() -> (trie: Self)
        ensures
            trie.well_formed(),
            trie.base() == Seq::<i32>::empty(),
            trie.next() == Seq::<i32>::empty(),
            trie.check() == Seq::<i32>::empty(),
    {
        TATrie { base: Vec::new(), next: Vec::new(), check: Vec::new() }
    }

    /// The number of nodes that `base` has room for.
    pub fn base_len(&self) -> (n: usize)
        ensures
            n == self.base().len(),
    {
        self.base.len()
    }

    /// Gives `node` a new block at the end of `next`, as long as the largest
    /// character among the edges asks for, and writes the edges into it.
    /// Edges that the node had before stay where they were, out of its reach.
    pub fn add(&mut self, node: usize, edges: &[(char, i32)])
        requires
            old(self).well_formed(),
            edges@.len() > 0,
            node < usize::MAX,
            old(self).next().len() + max_code(edges@) + 1 <= usize::MAX,
        ensures
            final(self).well_formed(),
            final(self).base() == padded(old(self).base(), node + 1).update(
                node as int,
                old(self).next().len() as i32,
            ),
            final(self).next() == with_targets(
                padded(old(self).next(), old(self).next().len() + max_code(edges@) + 1),
                old(self).next().len() as int,
                edges@,
            ),
            final(self).check() == with_owner(
                padded(old(self).check(), old(self).next().len() + max_code(edges@) + 1),
                old(self).next().len() as int,
                edges@,
                node as i32,
            ),
            old(self).describable() && node <= i32::MAX && old(self).next().len() + max_code(
                edges@,
            ) + 1 <= i32::MAX ==> final(self).describable(),
    {
        pad(&mut self.base, node + 1);
        let next_len: usize = self.next.len();
        self.base.set(node, #[verifier::truncate] (next_len as i32));

        let mut max_trans: usize = 0;
        let mut k: usize = 0;
        while k < edges.len()
            invariant
                k <= edges@.len(),
                max_trans == max_code(edges@.take(k as int)),
            decreases edges@.len() - k,
        {
            assert(edges@.take(k as int + 1).drop_last() =~= edges@.take(k as int));
            let number: usize = edges[k].0 as u32 as usize;
            if number > max_trans {
                max_trans = number;
            }
            k = k + 1;
        }
        assert(edges@.take(edges@.len() as int) =~= edges@);

        pad(&mut self.next, next_len + max_trans + 1);
        pad(&mut self.check, next_len + max_trans + 1);

        let ghost next_row = self.next@;
        let ghost check_row = self.check@;
        let owner: i32 = #[verifier::truncate] (node as i32);
        let mut k: usize = 0;
        while k < edges.len()
            invariant
                k <= edges@.len(),
                max_trans == max_code(edges@),
                next_len + max_trans + 1 <= usize::MAX,
                next_row.len() == next_len + max_trans + 1,
                check_row.len() == next_len + max_trans + 1,
                self.base@ == padded(old(self).base(), node + 1).update(
                    node as int,
                    next_len as i32,
                ),
                self.next@ == with_targets(next_row, next_len as int, edges@.take(k as int)),
                self.check@ == with_owner(
                    check_row,
                    next_len as int,
                    edges@.take(k as int),
                    owner,
                ),
                self.next@.len() == next_row.len(),
                self.check@.len() == check_row.len(),
            decreases edges@.len() - k,
        {
            proof {
                assert(edges@.take(k as int + 1).drop_last() =~= edges@.take(k as int));
                lemma_max_code_bounds(edges@, k as int);
            }
            let idx: usize = next_len + (edges[k].0 as u32 as usize);
            self.next.set(idx, edges[k].1);
            self.check.set(idx, owner);
            k = k + 1;
        }
        assert(edges@.take(edges@.len() as int) =~= edges@);
        proof {
            if old(self).describable() && node <= i32::MAX && next_len + max_trans + 1
                <= i32::MAX {
                assert forall|place: int|
                    0 <= place < self.next().len() && #[trigger] holds_edge(
                        self.next(),
                        self.check(),
                        place,
                    ) implies {
                    &&& 0 <= self.check()[place] < self.base().len()
                    &&& i32::MIN <= label_at(self.base(), self.check(), place) <= i32::MAX
                } by {
                    lemma_block_written(next_row, check_row, next_len as int, edges@, owner, place);
                    if place < next_len {
                        assert(holds_edge(old(self).next(), old(self).check(), place));
                    }
                }
            }
        }
    }

    /// A trie can be described when every edge has an owner that `base`
    /// knows, and a label that is a number of the machine.
    pub open spec fn describable(&self) -> bool {
        forall|place: int|
            0 <= place < self.next().len() && #[trigger] holds_edge(
                self.next(),
                self.check(),
                place,
            ) ==> {
                &&& 0 <= self.check()[place] < self.base().len()
                &&& i32::MIN <= label_at(self.base(), self.check(), place) <= i32::MAX
            }
    }

    /// Tells whether the trie can be described.
    pub fn is_describable(&self) -> (yes: bool)
        requires
            self.well_formed(),
        ensures
            yes == self.describable(),
    {
        let mut place: usize = 0;
        while place < self.next.len()
            invariant
                self.well_formed(),
                place <= self.next@.len(),
                forall|p: int|
                    0 <= p < place && #[trigger] holds_edge(self.next(), self.check(), p) ==> {
                        &&& 0 <= self.check()[p] < self.base().len()
                        &&& i32::MIN <= label_at(self.base(), self.check(), p) <= i32::MAX
                    },
            decreases self.next@.len() - place,
        {
            let owner: i32 = self.check[place];
            if owner != -1 && self.next[place] != -1 {
                assert(holds_edge(self.next(), self.check(), place as int));
                if owner < 0 || owner as usize >= self.base.len() {
                    return false;
                }
                let position: i32 = #[verifier::truncate] (place as i32);
                if position.checked_sub(self.base[owner as usize]).is_none() {
                    return false;
                }
            }
            place = place + 1;
        }
        true
    }

    /// Describes the trie in words: the length and contents of `base`, the
    /// length of `next`, and then each edge as owner, label and target.
    pub fn describe(&self) -> (text: String)
        requires
            self.well_formed(),
            self.describable(),
        ensures
            text@ == trie_text(self.base(), self.next(), self.check()),
    {
        let mut output = String::from_str("base len: ");
        let mut txt_buf: ArrayString<127> = new_buffer();

        output.append(decimal_string(self.base.len() as u64).as_str());
        output.append(", base ");
        output.append(list_string(&self.base).as_str());
        output.append("\nnext len: ");
        output.append(decimal_string(self.next.len() as u64).as_str());
        output.append(", next:");
        let ghost head = output@;

        let mut idx: usize = 0;
        while idx < self.next.len()
            invariant
                self.well_formed(),
                self.describable(),
                idx <= self.next@.len(),
                buffer_text_is_empty(txt_buf),
                output@ == head + edges_text(self.base(), self.next(), self.check(), idx as int),
            decreases self.next@.len() - idx,
        {
            let owner: i32 = self.check[idx];
            let nxt_node: i32 = self.next[idx];
            if owner != -1 && nxt_node != -1 {
                assert(holds_edge(self.next(), self.check(), idx as int));
                let owner_start_idx: i32 = self.base[owner as usize];
                let label: i32 = (#[verifier::truncate] (idx as i32)) - owner_start_idx;
                let edge = edge_string(owner, label, nxt_node);
                proof {
                    lemma_edge_text_fits(owner, label, nxt_node);
                    is_ascii_chars_encode_utf8(edge@);
                }
                fill_buffer(&mut txt_buf, edge.as_str());
                output.append(buffer_str(&txt_buf));
                clear_buffer(&mut txt_buf);
            }
            idx = idx + 1;
        }
        output
    }

    /// Follows the edge of node `s` for the character `c`.
    pub fn walk(self, s: usize, c: char) -> (target: Option<i32>)
        requires
            self.well_formed(),
            s < self.base().len(),
            self.base()[s as int] >= 0,
            edge_place(self.base(), s, c) < self.check().len(),
        ensures
            target == transition(self.base(), self.next(), self.check(), s, c),
    {
        let t: usize = (self.base[s] as usize) + (c as u32 as usize);
        if self.check[t] == #[verifier::truncate] (s as i32) {
            Some(self.next[t])
        } else {
            None
        }
    }
}

/// A buffer that holds no text.
pub open spec fn buffer_text_is_empty(buffer: ArrayString<127>) -> bool {
    crate::buffer::buffer_text(buffer).len() == 0
}

/// The text for an edge is plain text and fits into the buffer.
proof fn lemma_edge_text_fits(owner: i32, label: i32, target: i32)
    ensures
        is_ascii_chars(edge_text(owner as int, label as int, target as int)),
        edge_text(owner as int, label as int, target as int).len() <= BUFFER_CAPACITY,
{
    lemma_signed_decimal_fits(owner);
    lemma_signed_decimal_fits(label);
    lemma_signed_decimal_fits(target);
    let a = seq![',', ' ', '['];
    let b = a + signed_decimal(owner as int);
    let c = b + seq![' ', '-', '('];
    let d = c + signed_decimal(label as int);
    let e = d + seq![')', '-', '>', ' '];
    let f = e + signed_decimal(target as int);
    lemma_ascii_concat(a, signed_decimal(owner as int));
    lemma_ascii_concat(b, seq![' ', '-', '(']);
    lemma_ascii_concat(c, signed_decimal(label as int));
    lemma_ascii_concat(d, seq![')', '-', '>', ' ']);
    lemma_ascii_concat(e, signed_decimal(target as int));
    lemma_ascii_concat(f, seq![']']);
}

/// Writes the text for one edge.
fn edge_string(owner: i32, label: i32, target: i32) -> (text: String)
    ensures
        text@ == edge_text(owner as int, label as int, target as int),
{
    proof {
        reveal_strlit(", [");
        reveal_strlit(" -(");
        reveal_strlit(")-> ");
        reveal_strlit("]");
    }
    let mut text = String::from_str(", [");
    text.append(signed_decimal_string(owner).as_str());
    text.append(" -(");
    text.append(signed_decimal_string(label).as_str());
    text.append(")-> ");
    text.append(signed_decimal_string(target).as_str());
    text.append("]");
    assert(", ["@ =~= seq![',', ' ', '[']);
    assert(" -("@ =~= seq![' ', '-', '(']);
    assert(")-> "@ =~= seq![')', '-', '>', ' ']);
    assert("]"@ =~= seq![']']);
    text
}

/// Writing a block leaves the rows as long as they were and the places
/// before the block as they were; a place of the block is either as it was
/// or has the new owner.
proof fn lemma_block_written(
    next_row: Seq<i32>,
    check_row: Seq<i32>,
    start: int,
    edges: Seq<(char, i32)>,
    owner: i32,
    place: int,
)
    requires
        0 <= start,
        0 <= place < next_row.len(),
        next_row.len() == check_row.len(),
        start + max_code(edges) < next_row.len(),
    ensures
        with_targets(next_row, start, edges).len() == next_row.len(),
        with_owner(check_row, start, edges, owner).len() == check_row.len(),
        place < start ==> with_targets(next_row, start, edges)[place] == next_row[place]
            && with_owner(check_row, start, edges, owner)[place] == check_row[place],
        with_owner(check_row, start, edges, owner)[place] == owner || with_owner(
            check_row,
            start,
            edges,
            owner,
        )[place] == check_row[place],
    decreases edges.len(),
{
    if edges.len() > 0 {
        lemma_max_code_bounds(edges, edges.len() - 1);
        lemma_max_code_nonnegative(edges.drop_last());
        lemma_block_written(next_row, check_row, start, edges.drop_last(), owner, place);
    }
}

/// No edge has a character beyond the largest.
proof fn lemma_max_code_bounds(edges: Seq<(char, i32)>, k: int)
    requires
        0 <= k < edges.len(),
    ensures
        0 <= code(edges[k].0) <= max_code(edges),
    decreases edges.len(),
{
    if k < edges.len() - 1 {
        lemma_max_code_bounds(edges.drop_last(), k);
        assert(edges.drop_last()[k] == edges[k]);
    } else {
        lemma_max_code_nonnegative(edges.drop_last());
    }
}

/// The largest character code is never negative.
proof fn lemma_max_code_nonnegative(edges: Seq<(char, i32)>)
    ensures
        0 <= max_code(edges),
    decreases edges.len(),
{
    if edges.len() > 0 {
        lemma_max_code_nonnegative(edges.drop_last());
    }
}

/// An earlier draft of the trie, with the same three arrays.
#[derive(Debug)]
pub struct DATrie {
    base: Vec<i32>,
    next: Vec<i32>,
    check: Vec<i32>,
}

impl DATrie {
    /// For each node the beginning of its block.
    pub closed spec fn base(&self) -> Seq<i32> {
        self.base@
    }

    /// For each place the node that its edge leads to.
    pub closed spec fn next(&self) -> Seq<i32> {
        self.next@
    }

    /// For each place the node that owns it.
    pub closed spec fn check(&self) -> Seq<i32> {
        self.check@
    }

    /// A trie without nodes.
    pub fn new() -> (trie: Self)
        ensures
            trie.base() == Seq::<i32>::empty(),
            trie.next() == Seq::<i32>::empty(),
            trie.check() == Seq::<i32>::empty(),
    {
        DATrie { base: Vec::new(), next: Vec::new(), check: Vec::new() }
    }

    /// Follows the edge of node `s` for the character `c`.
    pub fn walk(self, s: usize, c: char) -> (target: Option<i32>)
        requires
            s < self.base().len(),
            self.base()[s as int] >= 0,
            edge_place(self.base(), s, c) < self.check().len(),
            edge_place(self.base(), s, c) < self.next().len(),
        ensures
            target == transition(self.base(), self.next(), self.check(), s, c),
    {
        let t: usize = (self.base[s] as usize) + (c as u32 as usize);
        if self.check[t] == #[verifier::truncate] (s as i32) {
            Some(self.next[t])
        } else {
            None
        }
    }
}

} // verus!
