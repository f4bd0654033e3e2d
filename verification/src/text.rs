//! Contracts for the few `String` editing methods of std that vstd leaves
//! unspecified; the filename buffer of the save screen is edited through
//! them.

use vstd::prelude::*;

verus! {

/// Relies on String::push: appends exactly the given character.
pub assume_specification[ String::push ](s: &mut String, ch: char)
    ensures
        final(s)@ == old(s)@.push(ch),
;

/// Relies on String::pop: removes and returns the last character, and
/// leaves an empty string alone.
pub assume_specification[ String::pop ](s: &mut String) -> (r: Option<char>)
    ensures
        old(s)@.len() == 0 ==> r is None && final(s)@ == old(s)@,
        old(s)@.len() > 0 ==> r == Some(old(s)@.last()) && final(s)@ == old(s)@.drop_last(),
;

/// Relies on String::clear: empties the string.
pub assume_specification[ String::clear ](s: &mut String)
    ensures
        final(s)@ == Seq::<char>::empty(),
;

} // verus!
