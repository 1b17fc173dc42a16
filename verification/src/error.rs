//! The failures that the store and the service report.

use vstd::prelude::*;

verus! {

/// Why a request failed. Every failure is handed to the caller as it is;
/// nothing is retried.
#[derive(Clone, Copy, Debug, PartialEq, Eq, Structural)]
pub enum AuthError {
    /// The user or the challenge that the request names is not in the store.
    NotFound,
    /// The response does not satisfy the verification equations.
    Unauthenticated,
    /// The service itself failed: the identifier of a new challenge is
    /// already taken.
    Internal,
}

} // verus!
