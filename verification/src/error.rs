//! Reasons for which the bridge turns a call away.

use vstd::prelude::*;

verus! {

/// Why a call was rejected. At the foreign boundary every one of them becomes
/// the same failure value; here they stay apart so that each can be tested.
#[derive(Clone, Copy, Debug, PartialEq, Eq, Structural)]
pub enum BridgeError {
    /// The token is zero, was never handed out, or was already destroyed.
    InvalidHandle,
    /// The input or the output buffer is missing.
    NullBuffer,
    /// Input and output byte lengths differ.
    LengthMismatch,
    /// The byte length is not a whole number of samples.
    UnalignedLength,
    /// The frame holds more samples than the staging buffer.
    FrameTooLarge,
    /// Offset and length do not describe a region inside the buffer.
    InvalidWindow,
}

} // verus!
