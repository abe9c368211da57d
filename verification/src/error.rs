use vstd::prelude::*;

verus! {

/// What can go wrong while decoding an image.
#[derive(Clone, Copy, Debug, PartialEq, Eq, Structural)]
pub enum DecodeError {
    /// The image is too short for the bytes that were asked for.
    IoError,
    /// A magic number or signature is not the expected one.
    MagicMismatch,
    /// A stored checksum differs from the computed one.
    ChecksumMismatch,
    /// A field breaks a constraint of its format.
    InvariantViolation,
    /// The structure uses something this decoder does not handle.
    UnsupportedFeature,
    /// An offset or extent lies beyond what holds it.
    OutOfRange,
}

impl DecodeError {
    /// Whether the enclosing container has to be given up on this error.
    pub open spec fn spec_is_fatal(self) -> bool {
        self == DecodeError::IoError || self == DecodeError::MagicMismatch || self
            == DecodeError::OutOfRange
    }

    /// Whether the enclosing container has to be given up on this error;
    /// the others are warnings.
    pub fn is_fatal(&self) -> (r: bool)
        ensures
            r == self.spec_is_fatal(),
    {
        match self {
            DecodeError::IoError => true,
            DecodeError::MagicMismatch => true,
            DecodeError::OutOfRange => true,
            _ => false,
        }
    }
}

} // verus!
