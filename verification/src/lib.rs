//! A byte-order-aware binary codec: structured readers and writers over an
//! abstract byte stream, together with symmetric XOR transforms on byte
//! buffers.
//!
//! The crate converts between linear byte sequences and fixed-width integers
//! in either byte order, detects short reads, and offers single-byte and
//! cyclic multi-byte XOR in both allocating and in-place forms. It performs
//! no I/O of its own: streams are supplied by the caller through the
//! [`stream::Stream`] trait.

pub mod codec;
pub mod error;
pub mod order;
pub mod reader;
pub mod stream;
pub mod transform;
pub mod writer;

pub use error::CodecError;
pub use error::StreamError;
pub use order::ByteOrder;
pub use order::DEFAULT_BYTE_ORDER;
pub use order::resolve;
pub use reader::Reader;
pub use stream::FaultyStream;
pub use stream::MemoryStream;
pub use stream::Stream;
pub use transform::cyclic_xor;
pub use transform::cyclic_xor_in_place;
pub use transform::xor;
pub use transform::xor_in_place;
pub use writer::Writer;
