//! Contracts for the few std operations the library uses that vstd leaves
//! unspecified.

use vstd::prelude::*;

verus! {

/// `String::push` appends one character (std documentation: "Appends the
/// given char to the end of this String").
pub assume_specification[ String::push ](s: &mut String, ch: char)
    ensures
        final(s)@ == old(s)@.push(ch),
;

} // verus!
