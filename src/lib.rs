//! Gate collections, constraint-system compilation, proving indexes and their
//! binary codec for a five-wire PLONK circuit over the Pasta scalar field.
use vstd::prelude::*;

pub mod gate;
pub mod gate_vector;
pub mod constraints;
pub mod index;
pub mod codec;

verus! {

/// The error kinds of this library.
#[derive(Clone, Copy, Debug, PartialEq, Eq, Structural)]
pub enum IndexError {
    /// Invalid wire reference, inconsistent row indexing, or a circuit too
    /// large for any supported evaluation domain.
    StructuralError,
    /// The byte source cannot be positioned where asked.
    IoError,
    /// Malformed or truncated binary encoding.
    DecodeError,
    /// Index or row argument out of bounds on a direct accessor.
    RangeError,
}

} // verus!
