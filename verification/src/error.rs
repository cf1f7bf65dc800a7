use vstd::prelude::*;

verus! {

/// An opaque failure reported by a wrapped stream. The codec never inspects
/// the code: it is chosen by the stream implementation and handed back to the
/// caller unchanged.
#[derive(Clone, Copy, Debug, PartialEq, Eq, Structural)]
pub struct StreamError {
    pub code: u64,
}

/// Every failure a codec operation can report.
#[derive(Clone, Copy, Debug, PartialEq, Eq, Structural)]
pub enum CodecError {
    /// An order specifier string was neither `"<"` nor `">"`.
    InvalidByteOrder,
    /// A single read call returned fewer bytes than the requested width.
    NotEnoughData,
    /// The key handed to a cyclic XOR transform was empty.
    InvalidKey,
    /// The wrapped stream itself failed; the inner value passes through
    /// unchanged.
    Stream(StreamError),
}

impl CodecError {
    /// A fixed, human-readable description of the error.
    pub fn message(&self) -> (r: &'static str)
        ensures
            r@ == match *self {
                CodecError::InvalidByteOrder => "unknown byte order"@,
                CodecError::NotEnoughData => "not enough data"@,
                CodecError::InvalidKey => "empty key"@,
                CodecError::Stream(_) => "stream error"@,
            },
    {
        match self {
            CodecError::InvalidByteOrder => "unknown byte order",
            CodecError::NotEnoughData => "not enough data",
            CodecError::InvalidKey => "empty key",
            CodecError::Stream(_) => "stream error",
        }
    }
}

} // verus!
