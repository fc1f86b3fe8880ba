//! The error kinds that an encode or decode operation can report.

use vstd::prelude::*;

verus! {

/// Why an encode or decode call could not complete.
///
/// Decoding reports the first three kinds; encoding reports the last two.
/// No operation panics: every failure is surfaced as a value of this type.
#[derive(Clone, Copy, Debug, PartialEq, Eq, Structural)]
pub enum CodecError {
    /// Fewer bytes remain than a declared length or count requires.
    TruncatedInput,
    /// A discriminant byte outside the known set for its variant family.
    UnrecognizedTag,
    /// A well-formed tag stands where a different record was required.
    StructuralMismatch,
    /// More plugins were supplied than the registry engine can buffer,
    /// or a count does not fit in the field that carries it.
    CapacityExceeded,
    /// The caller-supplied output buffer is too short for the encoding.
    BufferTooSmall,
}

} // verus!
