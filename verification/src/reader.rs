use vstd::prelude::*;

use crate::codec::{
    decode_unsigned, lemma_pow256_values, lemma_u16_as_i16, lemma_u32_as_i32, lemma_u64_as_i64,
    lemma_u8_as_i8, lemma_unsigned_value_bound, signed_value, unsigned_value,
};
use crate::error::CodecError;
use crate::order::{ByteOrder, DEFAULT_BYTE_ORDER};
use crate::stream::Stream;

verus! {

/// Decodes fixed-width integers from a wrapped stream in the byte order
/// resolved at construction. Each read requests the exact width in a single
/// stream call; a shorter answer is reported as `NotEnoughData`, never
/// retried.
pub struct Reader<S: Stream> {
    pub stream: S,
    pub order: ByteOrder,
}

/// Every read leaves the resolved order alone and never writes to the
/// stream.
pub open spec fn read_frame<S: Stream>(pre: Reader<S>, post: Reader<S>) -> bool {
    &&& post.order == pre.order
    &&& post.stream.written() == pre.stream.written()
}

/// A successful width-`w` read: exactly `w` bytes left the front of the
/// stream, and `value` is their unsigned reading in the resolved order.
pub open spec fn read_ok<S: Stream>(pre: Reader<S>, post: Reader<S>, w: nat, value: nat) -> bool {
    &&& pre.stream.remaining().len() >= w
    &&& post.stream.remaining() == pre.stream.remaining().skip(w as int)
    &&& value == unsigned_value(pre.stream.remaining().take(w as int), pre.order)
}

/// A successful width-`w` read of a signed value: as `read_ok`, with the
/// bytes read as two's complement.
pub open spec fn read_ok_signed<S: Stream>(
    pre: Reader<S>,
    post: Reader<S>,
    w: nat,
    value: int,
) -> bool {
    &&& pre.stream.remaining().len() >= w
    &&& post.stream.remaining() == pre.stream.remaining().skip(w as int)
    &&& value == signed_value(pre.stream.remaining().take(w as int), pre.order)
}

/// A failed width-`w` read. Either the stream answered the single request
/// with fewer than `w` bytes, which are consumed and discarded
/// (`NotEnoughData`), or the stream itself failed and nothing was consumed.
pub open spec fn read_failed<S: Stream>(
    pre: Reader<S>,
    post: Reader<S>,
    w: nat,
    e: CodecError,
) -> bool {
    ||| {
        &&& e == CodecError::NotEnoughData
        &&& exists|k: int|
            0 <= k < w && k <= pre.stream.remaining().len() && post.stream.remaining()
                == pre.stream.remaining().skip(k)
    }
    ||| {
        &&& e is Stream
        &&& post.stream.remaining() == pre.stream.remaining()
    }
}

impl<S: Stream> Reader<S> {
    /// Wraps a stream; an absent order means the default order.
    pub fn new(stream: S, order: Option<ByteOrder>) -> (r: Reader<S>)
        ensures
            r.stream == stream,
            r.order == match order {
                Some(o) => o,
                None => DEFAULT_BYTE_ORDER,
            },
    {
        let resolved = match order {
            Some(o) => o,
            None => DEFAULT_BYTE_ORDER,
        };
        Reader { stream, order: resolved }
    }

    /// Requests exactly `n` bytes from the stream in one call. An answer of
    /// fewer bytes means the data ran out: `NotEnoughData`.
    pub fn read_exact(&mut self, n: usize) -> (r: Result<Vec<u8>, CodecError>)
        ensures
            read_frame(*old(self), *final(self)),
            match r {
                Ok(bytes) => {
                    &&& old(self).stream.remaining().len() >= n
                    &&& bytes@ == old(self).stream.remaining().take(n as int)
                    &&& final(self).stream.remaining() == old(self).stream.remaining().skip(
                        n as int,
                    )
                },
                Err(e) => read_failed(*old(self), *final(self), n as nat, e),
            },
    {
        match self.stream.read(n) {
            Ok(data) => {
                if data.len() == n {
                    proof {
                        assert(old(self).stream.remaining().take(n as int) =~= data@);
                        assert(self.stream.remaining() =~= old(self).stream.remaining().skip(
                            n as int,
                        ));
                    }
                    Ok(data)
                } else {
                    proof {
                        let k = data@.len() as int;
                        assert(self.stream.remaining() =~= old(self).stream.remaining().skip(k));
                    }
                    Err(CodecError::NotEnoughData)
                }
            },
            Err(e) => Err(CodecError::Stream(e)),
        }
    }

    /// Reads `width` bytes and decodes them as an unsigned integer in the
    /// resolved order.
    fn read_unsigned(&mut self, width: usize) -> (r: Result<u64, CodecError>)
        requires
            1 <= width <= 8,
        ensures
            read_frame(*old(self), *final(self)),
            match r {
                Ok(v) => read_ok(*old(self), *final(self), width as nat, v as nat),
                Err(e) => read_failed(*old(self), *final(self), width as nat, e),
            },
    {
        let order = self.order;
        match self.read_exact(width) {
            Ok(bytes) => Ok(decode_unsigned(bytes.as_slice(), order)),
            Err(e) => Err(e),
        }
    }

    /// Reads one byte as an unsigned integer.
    pub fn read_u8(&mut self) -> (r: Result<u8, CodecError>)
        ensures
            read_frame(*old(self), *final(self)),
            match r {
                Ok(v) => read_ok(*old(self), *final(self), 1, v as nat),
                Err(e) => read_failed(*old(self), *final(self), 1, e),
            },
    {
        match self.read_unsigned(1) {
            Ok(v) => {
                proof {
                    lemma_unsigned_value_bound(
                        old(self).stream.remaining().take(1),
                        old(self).order,
                    );
                    lemma_pow256_values();
                }
                Ok(v as u8)
            },
            Err(e) => Err(e),
        }
    }

    /// Reads two bytes as an unsigned integer in the resolved order.
    pub fn read_u16(&mut self) -> (r: Result<u16, CodecError>)
        ensures
            read_frame(*old(self), *final(self)),
            match r {
                Ok(v) => read_ok(*old(self), *final(self), 2, v as nat),
                Err(e) => read_failed(*old(self), *final(self), 2, e),
            },
    {
        match self.read_unsigned(2) {
            Ok(v) => {
                proof {
                    lemma_unsigned_value_bound(
                        old(self).stream.remaining().take(2),
                        old(self).order,
                    );
                    lemma_pow256_values();
                }
                Ok(v as u16)
            },
            Err(e) => Err(e),
        }
    }

    /// Reads four bytes as an unsigned integer in the resolved order.
    pub fn read_u32(&mut self) -> (r: Result<u32, CodecError>)
        ensures
            read_frame(*old(self), *final(self)),
            match r {
                Ok(v) => read_ok(*old(self), *final(self), 4, v as nat),
                Err(e) => read_failed(*old(self), *final(self), 4, e),
            },
    {
        match self.read_unsigned(4) {
            Ok(v) => {
                proof {
                    lemma_unsigned_value_bound(
                        old(self).stream.remaining().take(4),
                        old(self).order,
                    );
                    lemma_pow256_values();
                }
                Ok(v as u32)
            },
            Err(e) => Err(e),
        }
    }

    /// Reads eight bytes as an unsigned integer in the resolved order.
    pub fn read_u64(&mut self) -> (r: Result<u64, CodecError>)
        ensures
            read_frame(*old(self), *final(self)),
            match r {
                Ok(v) => read_ok(*old(self), *final(self), 8, v as nat),
                Err(e) => read_failed(*old(self), *final(self), 8, e),
            },
    {
        self.read_unsigned(8)
    }

    /// Reads one byte as a signed (two's-complement) integer.
    pub fn read_i8(&mut self) -> (r: Result<i8, CodecError>)
        ensures
            read_frame(*old(self), *final(self)),
            match r {
                Ok(v) => read_ok_signed(*old(self), *final(self), 1, v as int),
                Err(e) => read_failed(*old(self), *final(self), 1, e),
            },
    {
        match self.read_unsigned(1) {
            Ok(v) => {
                proof {
                    lemma_unsigned_value_bound(
                        old(self).stream.remaining().take(1),
                        old(self).order,
                    );
                    lemma_pow256_values();
                }
                let u = v as u8;
                proof {
                    lemma_u8_as_i8(u);
                }
                Ok(#[verifier::truncate] (u as i8))
            },
            Err(e) => Err(e),
        }
    }

    /// Reads two bytes as a signed (two's-complement) integer in the
    /// resolved order.
    pub fn read_i16(&mut self) -> (r: Result<i16, CodecError>)
        ensures
            read_frame(*old(self), *final(self)),
            match r {
                Ok(v) => read_ok_signed(*old(self), *final(self), 2, v as int),
                Err(e) => read_failed(*old(self), *final(self), 2, e),
            },
    {
        match self.read_unsigned(2) {
            Ok(v) => {
                proof {
                    lemma_unsigned_value_bound(
                        old(self).stream.remaining().take(2),
                        old(self).order,
                    );
                    lemma_pow256_values();
                }
                let u = v as u16;
                proof {
                    lemma_u16_as_i16(u);
                }
                Ok(#[verifier::truncate] (u as i16))
            },
            Err(e) => Err(e),
        }
    }

    /// Reads four bytes as a signed (two's-complement) integer in the
    /// resolved order.
    pub fn read_i32(&mut self) -> (r: Result<i32, CodecError>)
        ensures
            read_frame(*old(self), *final(self)),
            match r {
                Ok(v) => read_ok_signed(*old(self), *final(self), 4, v as int),
                Err(e) => read_failed(*old(self), *final(self), 4, e),
            },
    {
        match self.read_unsigned(4) {
            Ok(v) => {
                proof {
                    lemma_unsigned_value_bound(
                        old(self).stream.remaining().take(4),
                        old(self).order,
                    );
                    lemma_pow256_values();
                }
                let u = v as u32;
                proof {
                    lemma_u32_as_i32(u);
                }
                Ok(#[verifier::truncate] (u as i32))
            },
            Err(e) => Err(e),
        }
    }

    /// Reads eight bytes as a signed (two's-complement) integer in the
    /// resolved order.
    pub fn read_i64(&mut self) -> (r: Result<i64, CodecError>)
        ensures
            read_frame(*old(self), *final(self)),
            match r {
                Ok(v) => read_ok_signed(*old(self), *final(self), 8, v as int),
                Err(e) => read_failed(*old(self), *final(self), 8, e),
            },
    {
        match self.read_unsigned(8) {
            Ok(v) => {
                proof {
                    lemma_unsigned_value_bound(
                        old(self).stream.remaining().take(8),
                        old(self).order,
                    );
                    lemma_pow256_values();
                    lemma_u64_as_i64(v);
                }
                Ok(#[verifier::truncate] (v as i64))
            },
            Err(e) => Err(e),
        }
    }
}

} // verus!
