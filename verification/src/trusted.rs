//! What this crate takes on trust about the standard library's strings.

use vstd::prelude::*;

verus! {

/// `String::push` of the standard library appends the one character to the
/// end of the string and changes nothing else. This is taken from its
/// documentation, not proved.
pub assume_specification[ String::push ](s: &mut String, ch: char)
    ensures
        final(s)@ == old(s)@.push(ch),
;

} // verus!
