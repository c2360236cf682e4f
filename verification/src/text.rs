//! The standard library's string operations that the scanner uses.

use vstd::prelude::*;

verus! {

/// `String::push` of the standard library appends the character to the end
/// of the string. Not proved.
pub assume_specification[ String::push ](s: &mut String, ch: char)
    ensures
        final(s)@ == old(s)@.push(ch),
;

/// `String::clear` of the standard library removes all contents of the
/// string. Not proved.
pub assume_specification[ String::clear ](s: &mut String)
    ensures
        final(s)@ == Seq::<char>::empty(),
;

} // verus!
