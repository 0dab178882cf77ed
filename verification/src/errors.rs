use vstd::prelude::*;

verus! {

/// The entity type that a `NotFound` failure names.
#[derive(Clone, Copy, Debug, PartialEq, Eq)]
pub enum EntityKind {
    Sacco,
    Matatu,
    Driver,
    Trip,
    Route,
    Performance,
}

/// Typed failure value returned by every operation of the core.
///
/// - `InvalidPayload`: a required field of the request was empty; nothing
///   was read from or written to any store.
/// - `NotFound`: a referenced or looked-up entity does not exist; the
///   payload names its type.
/// - `Error`: the request was well-formed but violates a state-machine rule
///   (for example, ending a trip that is not ongoing).
/// - `SizeExceeded`: the record's encoded form is larger than the store's
///   per-record byte ceiling; the caller may shrink the record and retry.
/// - `InvariantViolation`: an internal invariant would break (identifier or
///   accumulator overflow); the operation is aborted with no partial write.
#[derive(Clone, Copy, Debug, PartialEq, Eq)]
pub enum Message {
    InvalidPayload,
    NotFound(EntityKind),
    Error,
    SizeExceeded,
    InvariantViolation,
}

} // verus!
