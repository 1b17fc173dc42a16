//! Identifiers that cannot be guessed, made by `uuid`.

use vstd::prelude::*;

verus! {

/// `Uuid::new_v4` followed by `to_string`: a random version 4 UUID in its
/// hyphenated lower-case form, which has 36 characters. The bits come from
/// the operating system's generator; nothing is claimed of the value but its
/// length, and two calls may differ.
#[verifier::external_body]
pub(crate) fn fresh_token() -> (token: String)
    ensures
        token@.len() == 36,
{
    uuid::Uuid::new_v4().to_string()
}

} // verus!
