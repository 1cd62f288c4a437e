//! Fresh identifier generation for the conditional id setter.
//!
//! Identifiers come in four size classes; the characters themselves are
//! random, so nothing beyond the length is promised.

use rand::distributions::{Alphanumeric, DistString};
use vstd::prelude::*;

verus! {

/// The length of a small identifier.
pub const ID_LEN_SMALL: usize = 8;

/// The length of a medium identifier.
pub const ID_LEN_MEDIUM: usize = 16;

/// The length of a large identifier.
pub const ID_LEN_LARGE: usize = 32;

/// The length of a maximal identifier.
pub const ID_LEN_MAXIMAL: usize = 64;

/// Relies on `rand`'s `Alphanumeric` distribution through
/// `DistString::sample_string`: the result appends exactly `len` sampled
/// alphanumeric ASCII characters to an empty string.  The characters are
/// random, so only the length is stated.
#[verifier::external_body]
pub(crate) fn random_alphanumeric(len: usize) -> (r: String)
    ensures
        r@.len() == len as nat,
{
    Alphanumeric.sample_string(&mut rand::thread_rng(), len)
}

} // verus!
