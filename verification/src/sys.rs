//! What this crate takes from the platform's C library and from the standard
//! library without proof.

use vstd::prelude::*;

verus! {

/// The value that the system's `mmap` returns in place of an address when it
/// could not map: `libc::MAP_FAILED`, read as an integer.
///
/// `libc` defines it on every target as the pointer whose bits are all ones,
/// which is the largest address; that is all the contract claims.
#[verifier::external_body]
pub(crate) fn map_failed() -> (sentinel: usize)
    ensures
        sentinel == usize::MAX,
{
    libc::MAP_FAILED as usize
}

/// `String::push` of the standard library appends the character to the end of
/// the string and changes nothing else.
pub assume_specification[ String::push ](s: &mut String, ch: char)
    ensures
        final(s)@ == old(s)@.push(ch),
;

} // verus!
