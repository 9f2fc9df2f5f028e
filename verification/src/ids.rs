//! Generation of fresh opaque identifiers (user ids and session tokens).

use vstd::prelude::*;

verus! {

/// Relies on `uuid::Uuid::new_v4` and its `Display` form: a version-4 UUID
/// rendered as the hyphenated string, which is always 36 characters long.
/// The value is random, so nothing more is promised of it.
#[verifier::external_body]
pub(crate) fn fresh_uuid() -> (r: String)
    ensures
        r@.len() == 36,
{
    uuid::Uuid::new_v4().to_string()
}

} // verus!
