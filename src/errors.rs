use vstd::prelude::*;

verus! {

/// Failure taxonomy shared by every operation of the library.
#[derive(Debug, PartialEq, Eq)]
pub enum SdkError {
    /// Malformed or missing input that the caller can correct.
    Validation(String),
    /// No record with the requested identity exists.
    NotFound,
    /// A uniqueness or other constraint of the store was violated.
    Conflict(String),
    /// The store failed for any other reason.
    Storage(String),
    /// The completion service's response did not match the declared schema.
    Generation(String),
}

} // verus!
