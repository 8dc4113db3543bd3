use vstd::prelude::*;

verus! {

/// Why a reconciliation step failed. A failed step leaves the store as it was.
#[derive(Debug, Clone, Copy, PartialEq, Eq, Structural)]
pub enum ReconcileError {
    /// The provider identity is linked to a different account.
    Conflict,
    /// The provider reported a failure instead of an authorization.
    Upstream,
    /// The session is not stored.
    NotFound,
    /// The store could not complete the step (a key collision, or a stale read).
    Internal,
}

/// The hosting identity is linked to another account.
#[derive(Debug, Clone, Copy, PartialEq, Eq, Structural)]
pub struct GithubAccountAlreadyTakenError;

} // verus!
