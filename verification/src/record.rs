//! The write-through record: one line of text for each value put into the
//! cache.

use vstd::prelude::*;
use vstd::string::StringExecFns;
use crate::text::{decimal, decimal_string};

verus! {

/// The line written for a value put under a key at the given wall-clock
/// second: the second in decimal, a colon and a space, the key as rendered,
/// an arrow between two spaces, the value as rendered, and a line feed.
pub open spec fn record_text(unix_seconds: u64, key: Seq<char>, value: Seq<char>) -> Seq<char> {
    decimal(unix_seconds as nat) + seq![':', ' '] + key + seq![' ', '-', '>', ' '] + value
        + seq!['\n']
}

/// What the standard library's `Debug` rendering makes of a piece of text:
/// the text between double quotes, with what needs escaping escaped.
pub uninterp spec fn debug_text(text: Seq<char>) -> Seq<char>;

/// Renders a piece of text with `Debug` from the standard library (the
/// implementation of `core::fmt::Debug` for `str`, through `format!`). The
/// rendering depends on the text alone.
#[verifier::external_body]
fn debug_string(text: &str) -> (rendered: String)
    ensures
        rendered@ == debug_text(text@),
{
    format!("{:?}", text)
}

/// A value that can be rendered into a record.
pub trait Describe {
    /// The rendering of the value.
    spec fn description(&self) -> Seq<char>;

    /// Renders the value.
    fn describe(&self) -> (text: String)
        ensures
            text@ == self.description(),
    ;
}

impl Describe for String {
    /// Text is rendered as the standard library's `Debug` does it.
    open spec fn description(&self) -> Seq<char> {
        debug_text(self@)
    }

    fn describe(&self) -> (text: String) {
        debug_string(self.as_str())
    }
}

impl Describe for u64 {
    /// A number is rendered in decimal.
    open spec fn description(&self) -> Seq<char> {
        decimal(*self as nat)
    }

    fn describe(&self) -> (text: String) {
        decimal_string(*self)
    }
}

/// Frames the record for a key and a value that have been rendered already.
pub fn format_record(unix_seconds: u64, key: &str, value: &str) -> (line: String)
    ensures
        line@ == record_text(unix_seconds, key@, value@),
{
    proof {
        reveal_strlit(": ");
        reveal_strlit(" -> ");
        reveal_strlit("\n");
    }
    let mut line = decimal_string(unix_seconds);
    line.append(": ");
    line.append(key);
    line.append(" -> ");
    line.append(value);
    line.append("\n");
    assert(": "@ =~= seq![':', ' ']);
    assert(" -> "@ =~= seq![' ', '-', '>', ' ']);
    assert("\n"@ =~= seq!['\n']);
    line
}

} // verus!
