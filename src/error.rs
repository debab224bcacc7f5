use vstd::prelude::*;

verus! {

/// Failures of the coordination and timing services.
#[derive(Debug, Clone, PartialEq, Eq)]
pub enum CoreError {
    /// No node, state or timeline has the given id.
    NotFound(String),
    /// The local node's role does not allow the operation.
    PermissionDenied,
    /// Shared state could not be locked.
    LockFailure,
    /// Discovery or advertisement could not be set up.
    NetworkFailure(String),
    /// A new entry's id is already taken.
    DuplicateId(String),
    /// An inbound payload could not be decoded.
    SerializationFailure(String),
}

/// `r` is the not-found error for `id`.
pub open spec fn is_not_found<T>(r: Result<T, CoreError>, id: Seq<char>) -> bool {
    match r {
        Err(CoreError::NotFound(m)) => m@ == id,
        _ => false,
    }
}

} // verus!
