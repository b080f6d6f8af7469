//! The ways in which an encoding request is refused.

use vstd::prelude::*;

verus! {

/// Why a sequence, or a group of four sequences, was not encoded.
#[derive(Clone, Copy, Debug, PartialEq, Eq, Structural)]
pub enum EncodeError {
    /// The sequence is empty or longer than 21 symbols.
    InvalidLength,
    /// The four sequences of a batched call are not all of one length.
    LengthMismatch,
}

} // verus!
