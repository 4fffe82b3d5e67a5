//! Errors reported by the token engine.
use vstd::prelude::*;

verus! {

/// Failure to read a persisted record.
#[derive(Debug, Clone, Copy, PartialEq, Eq, Structural)]
pub enum CodecError {
    /// The buffer is shorter than the record's fixed length.
    TooShort,
}

/// Failure of one instruction.
#[derive(Debug, Clone, Copy, PartialEq, Eq, Structural)]
pub enum TokenError {
    /// The rates handed to the initializer break the rate invariant.
    InvalidConfiguration,
    /// A stored record could not be read.
    Codec(CodecError),
    /// A stored record has not been initialized.
    UninitializedAccount,
    /// A computation left the range of its integer type.
    ArithmeticOverflow,
    /// The instruction bytes do not name a known instruction.
    InvalidInstruction,
}

} // verus!
