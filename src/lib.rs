//! A growable, owned byte buffer with independent read and write cursors and
//! endian-aware encoding of primitive values.

use vstd::prelude::*;

pub mod buffer;
pub mod encoding;
pub mod laws;

pub use buffer::{BufferError, BufferView, ByteBufferAdv};

verus! {

/// The byte order used to encode multi-byte values.
#[derive(Clone, Copy, Debug, PartialEq, Eq, Hash, Structural)]
pub enum Endian {
    BigEndian,
    LittleEndian,
}

} // verus!
