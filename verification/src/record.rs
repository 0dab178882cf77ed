use vstd::prelude::*;
use vstd::string::StrSliceExecFns;

verus! {

/// Per-record byte ceiling that every entity store enforces: a record whose
/// encoded footprint is larger than this is rejected with `SizeExceeded`.
pub const MAX_RECORD_BYTES: usize = 512;

/// Mathematical footprint of a string field: a four-byte length prefix plus
/// one byte per character.
pub open spec fn str_size(s: Seq<char>) -> nat {
    4 + s.len()
}

/// What an exec size computation can report: the true footprint, clamped to
/// `usize::MAX` (footprints beyond the address space saturate, which cannot
/// affect the comparison against `MAX_RECORD_BYTES`).
pub open spec fn size_clamp(n: nat) -> nat {
    if n > usize::MAX as nat {
        usize::MAX as nat
    } else {
        n
    }
}

/// Footprint of one string field, saturating at `usize::MAX`.
pub fn str_part(s: &str) -> (n: usize)
    ensures
        n as nat == size_clamp(str_size(s@)),
{
    4usize.saturating_add(s.unicode_len())
}

/// Footprint of a homogeneous list of `b`-byte elements, saturating at
/// `usize::MAX`.
pub fn mul_part(a: usize, b: usize) -> (n: usize)
    ensures
        n as nat == size_clamp((a * b) as nat),
{
    match a.checked_mul(b) {
        Some(x) => x,
        None => usize::MAX,
    }
}

/// Bounded-record capability: every storable entity measures its own encoded
/// footprint.  The footprint model is fixed across the crate: 8 bytes for a
/// 64-bit integer, 4 for a 32-bit integer, 16 for a 128-bit integer, 1 for a
/// byte-sized field or a closed status variant, 9 for an optional 64-bit
/// integer, `str_size` for a string, and a four-byte length prefix plus the
/// elements' footprints for a list.
pub trait Record {
    /// True mathematical footprint of the record.
    spec fn encoded_size(&self) -> nat;

    /// Executable footprint, saturating at `usize::MAX`.
    fn encoded_len(&self) -> (n: usize)
        ensures
            n as nat == size_clamp(self.encoded_size()),
    ;
}

/// Identified-record capability: every storable entity carries its own
/// identifier, and a store keeps each record under exactly that key.
pub trait Keyed {
    /// The identifier field of the record.
    spec fn key_id(&self) -> u64;
}

/// Whether a record fits under the store ceiling.
pub open spec fn fits<T: Record>(t: &T) -> bool {
    t.encoded_size() <= MAX_RECORD_BYTES
}

/// Executable ceiling test, exact with respect to `fits`.
pub fn check_fits<T: Record>(t: &T) -> (b: bool)
    ensures
        b == fits(t),
{
    t.encoded_len() <= MAX_RECORD_BYTES
}

} // verus!
