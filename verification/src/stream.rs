use vstd::prelude::*;

use vstd::slice::{slice_subrange, slice_to_vec};

use crate::error::StreamError;

verus! {

/// The abstraction of the byte stream a reader or writer wraps. The codec
/// consumes this interface; it never implements I/O itself. A stream is
/// modelled by two byte sequences: `remaining`, the bytes a reader has yet to
/// consume, and `written`, the bytes the stream has accepted so far.
pub trait Stream {
    /// The bytes still available to read, front first.
    spec fn remaining(&self) -> Seq<u8>;

    /// The bytes accepted by earlier writes, in order.
    spec fn written(&self) -> Seq<u8>;

    /// Hands out at most `n` bytes from the front of `remaining` in a single
    /// call. The stream may return fewer than `n` bytes even when more are
    /// requested; a caller treats that as end-of-data. A failing read
    /// consumes nothing.
    fn read(&mut self, n: usize) -> (r: Result<Vec<u8>, StreamError>)
        ensures
            final(self).written() == old(self).written(),
            match r {
                Ok(bytes) => bytes@.len() <= n && old(self).remaining() == bytes@
                    + final(self).remaining(),
                Err(_) => final(self).remaining() == old(self).remaining(),
            },
    ;

    /// Accepts `data` in a single call, appending it to `written`. A failing
    /// write accepts nothing.
    fn write(&mut self, data: &[u8]) -> (r: Result<(), StreamError>)
        ensures
            final(self).remaining() == old(self).remaining(),
            match r {
                Ok(_) => final(self).written() == old(self).written() + data@,
                Err(_) => final(self).written() == old(self).written(),
            },
    ;
}

/// An in-memory stream: reads consume `input` starting at `pos`, writes
/// append to `output`. It serves every read in full until `input` is
/// exhausted and accepts every write.
pub struct MemoryStream {
    pub input: Vec<u8>,
    pub pos: usize,
    pub output: Vec<u8>,
}

impl MemoryStream {
    /// A stream that will serve exactly the given bytes and has accepted
    /// nothing yet.
    pub fn new(input: Vec<u8>) -> (r: MemoryStream)
        ensures
            r.remaining() == input@,
            r.written() == Seq::<u8>::empty(),
    {
        MemoryStream { input, pos: 0, output: Vec::new() }
    }
}

impl Stream for MemoryStream {
    open spec fn remaining(&self) -> Seq<u8> {
        if self.pos <= self.input@.len() {
            self.input@.skip(self.pos as int)
        } else {
            Seq::empty()
        }
    }

    open spec fn written(&self) -> Seq<u8> {
        self.output@
    }

    fn read(&mut self, n: usize) -> (r: Result<Vec<u8>, StreamError>)
        ensures
            r matches Ok(bytes) && bytes@.len() == if n <= old(self).remaining().len() {
                n as int
            } else {
                old(self).remaining().len() as int
            },
    {
        let len = self.input.len();
        let start = if self.pos < len {
            self.pos
        } else {
            len
        };
        let avail = len - start;
        let take = if n < avail {
            n
        } else {
            avail
        };
        let sub = slice_subrange(self.input.as_slice(), start, start + take);
        let out = slice_to_vec(sub);
        self.pos = start + take;
        proof {
            assert(old(self).remaining() =~= out@ + self.remaining());
        }
        Ok(out)
    }

    fn write(&mut self, data: &[u8]) -> (r: Result<(), StreamError>)
        ensures
            r is Ok,
    {
        let ghost pre = *self;
        let n = data.len();
        let mut i: usize = 0;
        while i < n
            invariant
                i <= n,
                n == data@.len(),
                self.input == pre.input,
                self.pos == pre.pos,
                self.output@ == pre.output@ + data@.take(i as int),
            decreases n - i,
        {
            self.output.push(data[i]);
            i = i + 1;
            proof {
                assert(pre.output@ + data@.take(i as int) =~= (pre.output@ + data@.take(
                    i - 1,
                )).push(data@[i - 1]));
            }
        }
        proof {
            assert(data@.take(n as int) =~= data@);
        }
        Ok(())
    }
}

/// A stream that fails every operation with a fixed code: it serves no bytes
/// and accepts none. It exists to exercise how callers propagate stream
/// failures.
pub struct FaultyStream {
    pub code: u64,
}

impl Stream for FaultyStream {
    open spec fn remaining(&self) -> Seq<u8> {
        Seq::empty()
    }

    open spec fn written(&self) -> Seq<u8> {
        Seq::empty()
    }

    fn read(&mut self, _n: usize) -> (r: Result<Vec<u8>, StreamError>)
        ensures
            final(self).code == old(self).code,
            r == Err::<Vec<u8>, StreamError>(StreamError { code: old(self).code }),
    {
        Err(StreamError { code: self.code })
    }

    fn write(&mut self, _data: &[u8]) -> (r: Result<(), StreamError>)
        ensures
            final(self).code == old(self).code,
            r == Err::<(), StreamError>(StreamError { code: old(self).code }),
    {
        Err(StreamError { code: self.code })
    }
}

} // verus!
