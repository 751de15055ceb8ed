//! A fixed buffer for short pieces of text, kept on the stack.
//!
//! The buffer is `arrayvec::ArrayString`. What is claimed of it here is taken
//! on trust from that crate; nothing in this file is proved.

use vstd::prelude::*;
use vstd::string::StringSliceAdditionalSpecFns;
use arrayvec::ArrayString;
use std::fmt::Write;

verus! {

/// The number of bytes that a text buffer holds.
pub const BUFFER_CAPACITY: usize = 127;

/// `arrayvec::ArrayString`, a string of fixed capacity. Nothing is seen of
/// its inside.
#[verifier::external_type_specification]
#[verifier::external_body]
pub struct ExArrayString<const CAP: usize>(ArrayString<CAP>);

/// The text that a buffer holds.
pub uninterp spec fn buffer_text(buffer: ArrayString<127>) -> Seq<char>;

/// `ArrayString::new`: a buffer that holds no text.
#[verifier::external_body]
pub(crate) fn new_buffer() -> (buffer: ArrayString<127>)
    ensures
        buffer_text(buffer) == Seq::<char>::empty(),
{
    ArrayString::new()
}

/// `ArrayString`'s `fmt::Write::write_str`, which appends through
/// `ArrayString::try_push_str`: text that fits into an empty buffer is in the
/// buffer afterwards. The call fails when the bytes of the text are more
/// than the buffer has room for; that is ruled out here.
#[verifier::external_body]
pub(crate) fn fill_buffer(buffer: &mut ArrayString<127>, text: &str)
    requires
        buffer_text(*old(buffer)).len() == 0,
        text.spec_bytes().len() <= BUFFER_CAPACITY,
    ensures
        buffer_text(*final(buffer)) == text@,
{
    buffer.write_str(text).unwrap();
}

/// `ArrayString::as_str`: the text of the buffer.
#[verifier::external_body]
pub(crate) fn buffer_str(buffer: &ArrayString<127>) -> (text: &str)
    ensures
        text@ == buffer_text(*buffer),
{
    buffer.as_str()
}

/// `ArrayString::clear`: the buffer holds no text afterwards.
#[verifier::external_body]
pub(crate) fn clear_buffer(buffer: &mut ArrayString<127>)
    ensures
        buffer_text(*final(buffer)) == Seq::<char>::empty(),
{
    buffer.clear();
}

} // verus!
