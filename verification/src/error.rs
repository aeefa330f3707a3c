//! The failures that the hashing interfaces report.
use vstd::prelude::*;

verus! {

/// Why an operation of this crate did not produce a value.
#[derive(Clone, Copy, Debug, PartialEq, Eq, Structural)]
pub enum Error {
    /// The bytes are not the encoding of a value: their number is wrong, or
    /// the integer they spell lies outside the field.
    Deserialization,
    /// The destination cannot hold an encoded value.
    BufferTooSmall,
    /// A circuit form could not be synthesised.
    ConstraintSynthesis,
}

} // verus!
