use vstd::prelude::*;

use crate::codec::{
    encode_unsigned, from_signed, lemma_i16_as_u16, lemma_i32_as_u32, lemma_i64_as_u64,
    lemma_i8_as_u8, unsigned_bytes,
};
use crate::error::CodecError;
use crate::order::{ByteOrder, DEFAULT_BYTE_ORDER};
use crate::stream::Stream;

verus! {

/// Encodes fixed-width integers in the byte order resolved at construction
/// and forwards each encoding to the wrapped stream in a single write call,
/// without chunking, retrying or buffering.
pub struct Writer<S: Stream> {
    pub stream: S,
    pub order: ByteOrder,
}

/// Every write leaves the resolved order alone and never consumes from the
/// stream.
pub open spec fn write_frame<S: Stream>(pre: Writer<S>, post: Writer<S>) -> bool {
    &&& post.order == pre.order
    &&& post.stream.remaining() == pre.stream.remaining()
}

/// A successful write: the stream accepted exactly `bytes`, appended to what
/// it had accepted before.
pub open spec fn wrote<S: Stream>(pre: Writer<S>, post: Writer<S>, bytes: Seq<u8>) -> bool {
    post.stream.written() == pre.stream.written() + bytes
}

/// A failed write: the stream itself failed and accepted nothing; the error
/// passes through unchanged.
pub open spec fn write_failed<S: Stream>(pre: Writer<S>, post: Writer<S>, e: CodecError) -> bool {
    &&& e is Stream
    &&& post.stream.written() == pre.stream.written()
}

impl<S: Stream> Writer<S> {
    /// Wraps a stream; an absent order means the default order.
    pub fn new(stream: S, order: Option<ByteOrder>) -> (r: Writer<S>)
        ensures
            r.stream == stream,
            r.order == match order {
                Some(o) => o,
                None => DEFAULT_BYTE_ORDER,
            },
    {
        let resolved = match order {
            Some(o) => o,
            None => DEFAULT_BYTE_ORDER,
        };
        Writer { stream, order: resolved }
    }

    /// Hands a byte slice to the stream in a single write call.
    pub fn write_slice(&mut self, slice: &[u8]) -> (r: Result<(), CodecError>)
        ensures
            write_frame(*old(self), *final(self)),
            match r {
                Ok(_) => wrote(*old(self), *final(self), slice@),
                Err(e) => write_failed(*old(self), *final(self), e),
            },
    {
        match self.stream.write(slice) {
            Ok(_) => Ok(()),
            Err(e) => Err(CodecError::Stream(e)),
        }
    }

    /// Encodes `value % pow256(width)` into `width` bytes in the resolved
    /// order and writes them.
    fn write_unsigned(&mut self, value: u64, width: usize) -> (r: Result<(), CodecError>)
        ensures
            write_frame(*old(self), *final(self)),
            match r {
                Ok(_) => wrote(
                    *old(self),
                    *final(self),
                    unsigned_bytes(value as nat, width as nat, old(self).order),
                ),
                Err(e) => write_failed(*old(self), *final(self), e),
            },
    {
        let bytes = encode_unsigned(value, width, self.order);
        self.write_slice(bytes.as_slice())
    }

    /// Writes one byte.
    pub fn write_u8(&mut self, value: u8) -> (r: Result<(), CodecError>)
        ensures
            write_frame(*old(self), *final(self)),
            match r {
                Ok(_) => wrote(
                    *old(self),
                    *final(self),
                    unsigned_bytes(value as nat, 1, old(self).order),
                ),
                Err(e) => write_failed(*old(self), *final(self), e),
            },
    {
        self.write_unsigned(value as u64, 1)
    }

    /// Writes an unsigned integer as two bytes in the resolved order.
    pub fn write_u16(&mut self, value: u16) -> (r: Result<(), CodecError>)
        ensures
            write_frame(*old(self), *final(self)),
            match r {
                Ok(_) => wrote(
                    *old(self),
                    *final(self),
                    unsigned_bytes(value as nat, 2, old(self).order),
                ),
                Err(e) => write_failed(*old(self), *final(self), e),
            },
    {
        self.write_unsigned(value as u64, 2)
    }

    /// Writes an unsigned integer as four bytes in the resolved order.
    pub fn write_u32(&mut self, value: u32) -> (r: Result<(), CodecError>)
        ensures
            write_frame(*old(self), *final(self)),
            match r {
                Ok(_) => wrote(
                    *old(self),
                    *final(self),
                    unsigned_bytes(value as nat, 4, old(self).order),
                ),
                Err(e) => write_failed(*old(self), *final(self), e),
            },
    {
        self.write_unsigned(value as u64, 4)
    }

    /// Writes an unsigned integer as eight bytes in the resolved order.
    pub fn write_u64(&mut self, value: u64) -> (r: Result<(), CodecError>)
        ensures
            write_frame(*old(self), *final(self)),
            match r {
                Ok(_) => wrote(
                    *old(self),
                    *final(self),
                    unsigned_bytes(value as nat, 8, old(self).order),
                ),
                Err(e) => write_failed(*old(self), *final(self), e),
            },
    {
        self.write_unsigned(value, 8)
    }

    /// Writes a signed integer as its one-byte two's-complement encoding.
    pub fn write_i8(&mut self, value: i8) -> (r: Result<(), CodecError>)
        ensures
            write_frame(*old(self), *final(self)),
            match r {
                Ok(_) => wrote(
                    *old(self),
                    *final(self),
                    unsigned_bytes(from_signed(value as int, 1), 1, old(self).order),
                ),
                Err(e) => write_failed(*old(self), *final(self), e),
            },
    {
        proof {
            lemma_i8_as_u8(value);
            crate::codec::lemma_pow256_values();
        }
        let u = #[verifier::truncate] (value as u8);
        self.write_unsigned(u as u64, 1)
    }

    /// Writes a signed integer as its two-byte two's-complement encoding in
    /// the resolved order.
    pub fn write_i16(&mut self, value: i16) -> (r: Result<(), CodecError>)
        ensures
            write_frame(*old(self), *final(self)),
            match r {
                Ok(_) => wrote(
                    *old(self),
                    *final(self),
                    unsigned_bytes(from_signed(value as int, 2), 2, old(self).order),
                ),
                Err(e) => write_failed(*old(self), *final(self), e),
            },
    {
        proof {
            lemma_i16_as_u16(value);
            crate::codec::lemma_pow256_values();
        }
        let u = #[verifier::truncate] (value as u16);
        self.write_unsigned(u as u64, 2)
    }

    /// Writes a signed integer as its four-byte two's-complement encoding in
    /// the resolved order.
    pub fn write_i32(&mut self, value: i32) -> (r: Result<(), CodecError>)
        ensures
            write_frame(*old(self), *final(self)),
            match r {
                Ok(_) => wrote(
                    *old(self),
                    *final(self),
                    unsigned_bytes(from_signed(value as int, 4), 4, old(self).order),
                ),
                Err(e) => write_failed(*old(self), *final(self), e),
            },
    {
        proof {
            lemma_i32_as_u32(value);
            crate::codec::lemma_pow256_values();
        }
        let u = #[verifier::truncate] (value as u32);
        self.write_unsigned(u as u64, 4)
    }

    /// Writes a signed integer as its eight-byte two's-complement encoding in
    /// the resolved order.
    pub fn write_i64(&mut self, value: i64) -> (r: Result<(), CodecError>)
        ensures
            write_frame(*old(self), *final(self)),
            match r {
                Ok(_) => wrote(
                    *old(self),
                    *final(self),
                    unsigned_bytes(from_signed(value as int, 8), 8, old(self).order),
                ),
                Err(e) => write_failed(*old(self), *final(self), e),
            },
    {
        proof {
            lemma_i64_as_u64(value);
            crate::codec::lemma_pow256_values();
        }
        let u = #[verifier::truncate] (value as u64);
        self.write_unsigned(u, 8)
    }
}

} // verus!
