//! Scrubbing of secret material held transiently in memory.
//!
//! Long-lived cryptographic secrets must have their backing memory zeroed
//! on every exit path; these helpers do the zeroing through the host's
//! scrubbing primitive, which is written so the compiler cannot elide it.

use vstd::prelude::*;

use zeroize::Zeroize;

verus! {

/// Relies on zeroize::Zeroize for Vec<u8>: the buffer is zeroed, in a way
/// the optimizer must keep, and then cleared.
#[verifier::external_body]
pub fn wipe_bytes(v: &mut Vec<u8>)
    ensures
        final(v)@.len() == 0,
{
    v.zeroize()
}

/// Relies on zeroize::Zeroize for String: the contents are zeroed, in a way
/// the optimizer must keep, and then cleared.
#[verifier::external_body]
pub fn wipe_string(s: &mut String)
    ensures
        final(s)@.len() == 0,
{
    s.zeroize()
}

} // verus!
