use vstd::prelude::*;

verus! {

/// The recoverable error kinds surfaced to callers.  None of them is fatal:
/// every operation reports failure as an explicit result value.
#[derive(Clone, Copy, Debug, PartialEq, Eq, Structural)]
pub enum Error {
    /// An ingested or probe vector whose length differs from the fixed
    /// embedding dimension.
    DimensionMismatch,
    /// The vector and payload arrays handed to an append differ in length;
    /// the whole call is rejected and nothing is written.
    LengthMismatch,
    /// An unknown tenant id was referenced.
    NoSuchTenant,
    /// A permission guard failed; no state was changed.
    PermissionDenied,
    /// An outbound call to an external service failed.
    ExternalServiceError,
}

} // verus!
