//! What construction and cursor acquisition can fail with.

use vstd::prelude::*;

verus! {

/// Why a buffer could not be built or a cursor could not be handed out.
#[derive(Debug, Clone, Copy, PartialEq, Eq, Structural)]
pub enum MultitapError {
    /// The capacity is zero: nothing can be indexed modulo zero.
    InvalidCapacity,
    /// The initial contents do not have exactly as many items as the capacity.
    SizeMismatch,
    /// A write head is already out; it has to be released first.
    WriterUnavailable,
}

} // verus!
