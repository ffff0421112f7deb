//! Character-level text building.
//!
//! vstd specifies appending a `&str` to a `String`, but not appending a
//! single character, so the one-character append is the crate's sole
//! trusted item over std.

use vstd::prelude::*;

verus! {

/// Appends one character to a string.
///
/// Relies on `String::push`: appends exactly the given character to the
/// end of the string.
#[verifier::external_body]
pub fn push_char(s: &mut String, c: char)
    ensures
        final(s)@ == old(s)@.push(c),
{
    s.push(c)
}

} // verus!
