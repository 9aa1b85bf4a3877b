//! The buffer: an owned byte store with a read cursor, a write cursor, a
//! pending bit offset for each, and a byte order.

use crate::encoding::{
    be_read_u128, be_read_u16, be_read_u32, be_read_u64, be_write_u128, be_write_u16, be_write_u32,
    be_write_u64, byte_range, encode, le_read_u128, le_read_u16, le_read_u32, le_read_u64,
    le_write_u128, le_write_u16, le_write_u32, le_write_u64, lemma_encode_injective,
    lemma_encoding_len,
};
use crate::Endian;
use vstd::prelude::*;
use vstd::string::StringSliceAdditionalSpecFns;
use vstd::utf8::{decode_utf8, valid_utf8};

verus! {

/// The abstract state of a buffer.
pub struct BufferView {
    /// The stored bytes.
    pub data: Seq<u8>,
    /// Where the next write begins.
    pub wpos: nat,
    /// Where the next read begins.
    pub rpos: nat,
    /// Bits already written into the byte at `wpos`.
    pub wbit: nat,
    /// Bits already read from the byte at `rpos`.
    pub rbit: nat,
    /// The byte order of typed writes.
    pub endian: Endian,
}

impl BufferView {
    /// A fresh buffer holding `data`, with the write cursor at its end.
    pub open spec fn holding(data: Seq<u8>) -> BufferView {
        BufferView { data, wpos: data.len(), rpos: 0, wbit: 0, rbit: 0, endian: Endian::BigEndian }
    }

    /// The write cursor once a partly written byte counts as consumed.
    pub open spec fn write_start(self) -> nat {
        if self.wbit > 0 {
            self.wpos + 1
        } else {
            self.wpos
        }
    }

    /// The read cursor once a partly read byte counts as consumed.
    pub open spec fn read_start(self) -> nat {
        if self.rbit > 0 {
            self.rpos + 1
        } else {
            self.rpos
        }
    }

    /// Bit offsets stay below eight, and each cursor, once aligned, stays
    /// within the stored bytes.
    pub open spec fn wf(self) -> bool {
        &&& self.wbit < 8
        &&& self.rbit < 8
        &&& self.write_start() <= self.data.len()
        &&& self.read_start() <= self.data.len()
    }

    /// The state after both cursors are aligned to whole bytes.
    pub open spec fn flushed(self) -> BufferView {
        BufferView { wpos: self.write_start(), rpos: self.read_start(), wbit: 0, rbit: 0, ..self }
    }

    /// The state after `b` is written at the aligned write cursor: storage
    /// grows with zeros where needed, the bytes at
    /// `[write_start, write_start + len(b))` become `b`, and the write cursor
    /// moves past them.
    pub open spec fn written(self, b: Seq<u8>) -> BufferView {
        let start = self.write_start();
        let end = start + b.len();
        let len = if end > self.data.len() {
            end
        } else {
            self.data.len()
        };
        BufferView {
            data: Seq::new(
                len,
                |i: int|
                    if start <= i < end {
                        b[i - start]
                    } else if i < self.data.len() {
                        self.data[i]
                    } else {
                        0u8
                    },
            ),
            wpos: end,
            ..self.flushed()
        }
    }

    /// Whether `size` bytes remain past the aligned read cursor.
    pub open spec fn can_read(self, size: nat) -> bool {
        self.read_start() + size <= self.data.len()
    }

    /// The `size` bytes at the aligned read cursor.
    pub open spec fn bytes_at_read(self, size: nat) -> Seq<u8> {
        self.data.subrange(self.read_start() as int, (self.read_start() + size) as int)
    }

    /// The state after `size` bytes are read at the aligned read cursor.
    pub open spec fn after_read(self, size: nat) -> BufferView {
        BufferView { rpos: self.read_start() + size, ..self.flushed() }
    }

    /// Whether the four bytes at the aligned read cursor encode `n` in the
    /// buffer's byte order.
    pub open spec fn length_prefix_is(self, n: u32) -> bool {
        self.can_read(4) && encode(n as nat, 4, self.endian) == self.bytes_at_read(4)
    }

    /// The `n` bytes that follow the four-byte length prefix.
    pub open spec fn string_body(self, n: nat) -> Seq<u8> {
        self.bytes_at_read(4 + n).skip(4)
    }

    /// The number of bytes past the aligned read cursor.
    pub open spec fn remaining(self) -> nat {
        (self.data.len() - self.read_start()) as nat
    }
}

/// What can go wrong with a buffer operation.
#[derive(Clone, Copy, Debug, PartialEq, Eq, Structural)]
pub enum BufferError {
    /// A read asked for more bytes than remain past the read cursor.
    InsufficientData,
    /// A resize asked for fewer bytes than are stored.
    WouldShrink,
    /// A string's bytes are not valid UTF-8.
    InvalidUtf8,
}

impl BufferError {
    /// A description of the error.
    pub fn message(&self) -> &'static str {
        match self {
            BufferError::InsufficientData => "Could not read enough bytes from buffer",
            BufferError::WouldShrink => "A buffer cannot be resized below its length",
            BufferError::InvalidUtf8 => "The bytes of a string are not valid UTF-8",
        }
    }
}

/// A growable byte buffer with independent read and write cursors.
pub struct ByteBufferAdv {
    data: Vec<u8>,
    wpos: usize,
    rpos: usize,
    wbit: usize,
    rbit: usize,
    endian: Endian,
}

impl View for ByteBufferAdv {
    type V = BufferView;

    closed spec fn view(&self) -> BufferView {
        BufferView {
            data: self.data@,
            wpos: self.wpos as nat,
            rpos: self.rpos as nat,
            wbit: self.wbit as nat,
            rbit: self.rbit as nat,
            endian: self.endian,
        }
    }
}

impl ByteBufferAdv {
    /// The buffer's invariant.
    pub open spec fn wf(&self) -> bool {
        self@.wf()
    }

    /// Construct a new, empty buffer.
    pub fn new() -> (r: ByteBufferAdv)
        ensures
            r.wf(),
            r@ == BufferView::holding(Seq::empty()),
    {
        ByteBufferAdv {
            data: Vec::new(),
            wpos: 0,
            rpos: 0,
            wbit: 0,
            rbit: 0,
            endian: Endian::BigEndian,
        }
    }

    /// Construct a buffer that takes ownership of `vec`, with the write
    /// cursor at its end.
    pub fn from_vec(vec: Vec<u8>) -> (r: ByteBufferAdv)
        ensures
            r.wf(),
            r@ == BufferView::holding(vec@),
    {
        let len = vec.len();
        ByteBufferAdv { data: vec, wpos: len, rpos: 0, wbit: 0, rbit: 0, endian: Endian::BigEndian }
    }

    /// Give up the buffer and return its stored bytes.
    pub fn into_vec(self) -> (r: Vec<u8>)
        ensures
            r@ == self@.data,
    {
        self.data
    }

    /// The number of stored bytes.
    pub fn len(&self) -> (r: usize)
        ensures
            r == self@.data.len(),
    {
        self.data.len()
    }

    /// Whether no bytes are stored.
    pub fn is_empty(&self) -> (r: bool)
        ensures
            r == (self@.data.len() == 0),
    {
        self.data.len() == 0
    }

    /// Drop the stored bytes and reset both cursors and both bit offsets.
    pub fn clear(&mut self)
        ensures
            final(self).wf(),
            final(self)@ == (BufferView {
                data: Seq::empty(),
                wpos: 0,
                rpos: 0,
                wbit: 0,
                rbit: 0,
                endian: old(self)@.endian,
            }),
    {
        self.data.clear();
        self.wpos = 0;
        self.rpos = 0;
        self.wbit = 0;
        self.rbit = 0;
    }

    /// Move both cursors back to the start; storage and bit offsets stay.
    pub fn reset_cursors(&mut self)
        requires
            old(self).wf(),
        ensures
            final(self).wf(),
            final(self)@ == (BufferView { wpos: 0, rpos: 0, ..old(self)@ }),
    {
        self.wpos = 0;
        self.rpos = 0;
    }

    /// Reset both bit offsets; storage and cursors stay.
    pub fn reset_bits_cursors(&mut self)
        requires
            old(self).wf(),
        ensures
            final(self).wf(),
            final(self)@ == (BufferView { wbit: 0, rbit: 0, ..old(self)@ }),
    {
        self.wbit = 0;
        self.rbit = 0;
    }

    /// Grow storage to `size` bytes, filling the new tail with zeros. A
    /// `size` below the current length is refused and changes nothing.
    pub fn resize(&mut self, size: usize) -> (r: Result<(), BufferError>)
        requires
            old(self).wf(),
        ensures
            final(self).wf(),
            size < old(self)@.data.len() ==> r == Err::<(), BufferError>(BufferError::WouldShrink)
                && final(self)@ == old(self)@,
            size >= old(self)@.data.len() ==> r is Ok && final(self)@ == (BufferView {
                data: old(self)@.data + Seq::new((size - old(self)@.data.len()) as nat, |i: int| 0u8),
                ..old(self)@
            }),
    {
        if size < self.data.len() {
            return Err(BufferError::WouldShrink);
        }
        let diff = size - self.data.len();
        let ghost start = self.data@;
        let mut i: usize = 0;
        while i < diff
            invariant
                i <= diff,
                diff == size - start.len(),
                self.data@ =~= start + Seq::new(i as nat, |j: int| 0u8),
                self.wpos == old(self).wpos,
                self.rpos == old(self).rpos,
                self.wbit == old(self).wbit,
                self.rbit == old(self).rbit,
                self.endian == old(self).endian,
                start == old(self)@.data,
            decreases diff - i,
        {
            self.data.push(0u8);
            i = i + 1;
        }
        Ok(())
    }

    /// Set the byte order of later typed writes.
    pub fn set_endian(&mut self, endian: Endian)
        requires
            old(self).wf(),
        ensures
            final(self).wf(),
            final(self)@ == (BufferView { endian, ..old(self)@ }),
    {
        self.endian = endian;
    }

    /// The byte order of typed writes.
    pub fn endian(&self) -> (r: Endian)
        ensures
            r == self@.endian,
    {
        self.endian
    }

    /// Align both cursors: a partly read or written byte counts as consumed.
    pub fn flush_bits(&mut self)
        requires
            old(self).wf(),
        ensures
            final(self).wf(),
            final(self)@ == old(self)@.flushed(),
    {
        if self.rbit > 0 {
            self.flush_rbits();
        }
        if self.wbit > 0 {
            self.flush_wbits();
        }
    }

    fn flush_rbits(&mut self)
        requires
            old(self).wf(),
            old(self)@.rbit > 0,
        ensures
            final(self).wf(),
            final(self)@ == (BufferView { rpos: old(self)@.rpos + 1, rbit: 0, ..old(self)@ }),
    {
        let len = self.data.len();
        assert(self.rpos < len);
        self.rpos = self.rpos + 1;
        self.rbit = 0;
    }

    fn flush_wbits(&mut self)
        requires
            old(self).wf(),
            old(self)@.wbit > 0,
        ensures
            final(self).wf(),
            final(self)@ == (BufferView { wpos: old(self)@.wpos + 1, wbit: 0, ..old(self)@ }),
    {
        let len = self.data.len();
        assert(self.wpos < len);
        self.wpos = self.wpos + 1;
        self.wbit = 0;
    }
}

impl ByteBufferAdv {
    /// Write `bytes` at the aligned write cursor, growing storage as needed,
    /// and move the write cursor past them. Both cursors are aligned first.
    pub fn write_bytes(&mut self, bytes: &[u8])
        requires
            old(self).wf(),
            old(self)@.write_start() + bytes@.len() <= usize::MAX,
        ensures
            final(self).wf(),
            final(self)@ == old(self)@.written(bytes@),
    {
        self.flush_bits();
        let size = bytes.len() + self.wpos;
        if size > self.data.len() {
            let _ = self.resize(size);
        }
        let ghost grown = self.data@;
        let ghost start = self.wpos as int;
        let mut i: usize = 0;
        while i < bytes.len()
            invariant
                i <= bytes@.len(),
                start == old(self)@.write_start(),
                size == start + bytes@.len(),
                size <= grown.len(),
                grown.len() == old(self)@.written(bytes@).data.len(),
                forall|j: int| 0 <= j < grown.len() ==> #[trigger] grown[j] == (if j < old(self)@.data.len() {
                    old(self)@.data[j]
                } else {
                    0u8
                }),
                self.data@ =~= Seq::new(
                    grown.len(),
                    |j: int|
                        if start <= j < start + i {
                            bytes@[j - start]
                        } else {
                            grown[j]
                        },
                ),
                self.wpos == start + i,
                self@.rpos == old(self)@.read_start(),
                self.wbit == 0,
                self.rbit == 0,
                self.endian == old(self).endian,
            decreases bytes@.len() - i,
        {
            self.data.set(self.wpos, bytes[i]);
            self.wpos = self.wpos + 1;
            i = i + 1;
        }
        assert(self@.data =~= old(self)@.written(bytes@).data);
    }

    /// Construct a buffer holding a copy of `bytes`, with the write cursor at
    /// its end.
    pub fn from_bytes(bytes: &[u8]) -> (r: ByteBufferAdv)
        ensures
            r.wf(),
            r@ == BufferView::holding(Seq::empty()).written(bytes@),
            r@ == BufferView::holding(bytes@),
    {
        let mut buf = ByteBufferAdv::new();
        assert(bytes@.len() == bytes.len());
        buf.write_bytes(bytes);
        assert(buf@.data =~= bytes@);
        buf
    }

    /// Read `size` bytes at the aligned read cursor and move the read cursor
    /// past them. Both cursors are aligned first; where fewer than `size`
    /// bytes remain, nothing is read and the error is
    /// `BufferError::InsufficientData`.
    pub fn read_bytes(&mut self, size: usize) -> (r: Result<Vec<u8>, BufferError>)
        requires
            old(self).wf(),
        ensures
            final(self).wf(),
            match r {
                Ok(v) => old(self)@.can_read(size as nat)
                    && v@ == old(self)@.bytes_at_read(size as nat)
                    && final(self)@ == old(self)@.after_read(size as nat),
                Err(e) => !old(self)@.can_read(size as nat)
                    && e == BufferError::InsufficientData
                    && final(self)@ == old(self)@.flushed(),
            },
    {
        self.flush_bits();
        if size > self.data.len() - self.rpos {
            return Err(BufferError::InsufficientData);
        }
        let mut res: Vec<u8> = Vec::new();
        let mut i: usize = 0;
        while i < size
            invariant
                i <= size,
                self@ == old(self)@.flushed(),
                self.rpos + size <= self.data@.len() <= usize::MAX,
                res@ =~= self.data@.subrange(self.rpos as int, self.rpos + i),
            decreases size - i,
        {
            res.push(self.data[self.rpos + i]);
            i = i + 1;
        }
        self.rpos = self.rpos + size;
        Ok(res)
    }

    /// Copy as many bytes as fit into `buf` from the aligned read cursor, move
    /// the read cursor past them, and return their number: the lesser of the
    /// remaining bytes and the length of `buf`. Bytes of `buf` past that
    /// number stay as they were.
    pub fn read_into(&mut self, buf: &mut [u8]) -> (r: usize)
        requires
            old(self).wf(),
        ensures
            final(self).wf(),
            r == if old(self)@.remaining() < old(buf)@.len() {
                old(self)@.remaining()
            } else {
                old(buf)@.len() as nat
            },
            final(buf)@ == old(self)@.bytes_at_read(r as nat) + old(buf)@.skip(r as int),
            final(self)@ == old(self)@.after_read(r as nat),
    {
        self.flush_bits();
        let remaining = self.data.len() - self.rpos;
        let n = if remaining < buf.len() {
            remaining
        } else {
            buf.len()
        };
        let mut i: usize = 0;
        while i < n
            invariant
                i <= n,
                n <= buf@.len(),
                buf@.len() == old(buf)@.len(),
                self@ == old(self)@.flushed(),
                self.rpos + n <= self.data@.len() <= usize::MAX,
                buf@ =~= self.data@.subrange(self.rpos as int, self.rpos + i) + old(buf)@.skip(i as int),
            decreases n - i,
        {
            buf[i] = self.data[self.rpos + i];
            i = i + 1;
        }
        self.rpos = self.rpos + n;
        n
    }
}

/// At most one length is encoded by the four bytes at the read cursor.
pub proof fn lemma_length_prefix_unique(s: BufferView, n: u32, m: u32)
    requires
        s.length_prefix_is(n),
        s.length_prefix_is(m),
    ensures
        n == m,
{
    reveal_with_fuel(byte_range, 5);
    assert(byte_range(4) == 0x1_0000_0000);
    lemma_encode_injective(n as nat, m as nat, 4, s.endian);
}

/// Two writes in a row store what one write of both byte runs stores.
pub proof fn lemma_written_twice(s: BufferView, a: Seq<u8>, b: Seq<u8>)
    requires
        s.wf(),
    ensures
        s.written(a).written(b) == s.written(a + b),
{
    assert(s.written(a).written(b).data =~= s.written(a + b).data);
}

impl ByteBufferAdv {
    /// Write one byte.
    pub fn write_u8(&mut self, val: u8)
        requires
            old(self).wf(),
            old(self)@.write_start() + 1 <= usize::MAX,
        ensures
            final(self).wf(),
            final(self)@ == old(self)@.written(seq![val]),
    {
        let buf = [val];
        assert(buf@ =~= seq![val]);
        self.write_bytes(&buf);
    }

    /// Write `val` as 2 bytes in the buffer's byte order.
    pub fn write_u16(&mut self, val: u16)
        requires
            old(self).wf(),
            old(self)@.write_start() + 2 <= usize::MAX,
        ensures
            final(self).wf(),
            final(self)@ == old(self)@.written(encode(val as nat, 2, old(self)@.endian)),
    {
        let buf = match self.endian {
            Endian::BigEndian => be_write_u16(val),
            Endian::LittleEndian => le_write_u16(val),
        };
        self.write_bytes(&buf);
    }

    /// Write `val` as 4 bytes in the buffer's byte order.
    pub fn write_u32(&mut self, val: u32)
        requires
            old(self).wf(),
            old(self)@.write_start() + 4 <= usize::MAX,
        ensures
            final(self).wf(),
            final(self)@ == old(self)@.written(encode(val as nat, 4, old(self)@.endian)),
    {
        let buf = match self.endian {
            Endian::BigEndian => be_write_u32(val),
            Endian::LittleEndian => le_write_u32(val),
        };
        self.write_bytes(&buf);
    }

    /// Write `val` as 8 bytes in the buffer's byte order.
    pub fn write_u64(&mut self, val: u64)
        requires
            old(self).wf(),
            old(self)@.write_start() + 8 <= usize::MAX,
        ensures
            final(self).wf(),
            final(self)@ == old(self)@.written(encode(val as nat, 8, old(self)@.endian)),
    {
        let buf = match self.endian {
            Endian::BigEndian => be_write_u64(val),
            Endian::LittleEndian => le_write_u64(val),
        };
        self.write_bytes(&buf);
    }

    /// Write `val` as 16 bytes in the buffer's byte order.
    pub fn write_u128(&mut self, val: u128)
        requires
            old(self).wf(),
            old(self)@.write_start() + 16 <= usize::MAX,
        ensures
            final(self).wf(),
            final(self)@ == old(self)@.written(encode(val as nat, 16, old(self)@.endian)),
    {
        let buf = match self.endian {
            Endian::BigEndian => be_write_u128(val),
            Endian::LittleEndian => le_write_u128(val),
        };
        self.write_bytes(&buf);
    }

    /// Write the two's-complement bits of `val` as one byte.
    pub fn write_i8(&mut self, val: i8)
        requires
            old(self).wf(),
            old(self)@.write_start() + 1 <= usize::MAX,
        ensures
            final(self).wf(),
            final(self)@ == old(self)@.written(seq![val as u8]),
    {
        self.write_u8(val as u8);
    }

    /// Write the two's-complement bits of `val` as 2 bytes in the buffer's
    /// byte order.
    pub fn write_i16(&mut self, val: i16)
        requires
            old(self).wf(),
            old(self)@.write_start() + 2 <= usize::MAX,
        ensures
            final(self).wf(),
            final(self)@ == old(self)@.written(encode(val as u16 as nat, 2, old(self)@.endian)),
    {
        self.write_u16(val as u16);
    }

    /// Write the two's-complement bits of `val` as 4 bytes in the buffer's
    /// byte order.
    pub fn write_i32(&mut self, val: i32)
        requires
            old(self).wf(),
            old(self)@.write_start() + 4 <= usize::MAX,
        ensures
            final(self).wf(),
            final(self)@ == old(self)@.written(encode(val as u32 as nat, 4, old(self)@.endian)),
    {
        self.write_u32(val as u32);
    }

    /// Write the two's-complement bits of `val` as 8 bytes in the buffer's
    /// byte order.
    pub fn write_i64(&mut self, val: i64)
        requires
            old(self).wf(),
            old(self)@.write_start() + 8 <= usize::MAX,
        ensures
            final(self).wf(),
            final(self)@ == old(self)@.written(encode(val as u64 as nat, 8, old(self)@.endian)),
    {
        self.write_u64(val as u64);
    }

    /// Write the two's-complement bits of `val` as 16 bytes in the buffer's
    /// byte order.
    pub fn write_i128(&mut self, val: i128)
        requires
            old(self).wf(),
            old(self)@.write_start() + 16 <= usize::MAX,
        ensures
            final(self).wf(),
            final(self)@ == old(self)@.written(encode(val as u128 as nat, 16, old(self)@.endian)),
    {
        self.write_u128(val as u128);
    }

    /// Write the UTF-8 byte length of `val` as a `u32` in the buffer's byte
    /// order (truncated to 32 bits), then the UTF-8 bytes themselves.
    pub fn write_string(&mut self, val: &str)
        requires
            old(self).wf(),
            old(self)@.write_start() + 4 + val.spec_bytes().len() <= usize::MAX,
        ensures
            final(self).wf(),
            final(self)@ == old(self)@.written(
                encode(val.spec_bytes().len() as u32 as nat, 4, old(self)@.endian) + val.spec_bytes(),
            ),
    {
        let ghost len_bytes = encode(val.spec_bytes().len() as u32 as nat, 4, self@.endian);
        self.write_u32(val.len() as u32);
        proof {
            lemma_encoding_len(val.spec_bytes().len() as u32 as nat, 4);
            lemma_written_twice(old(self)@, len_bytes, val.spec_bytes());
        }
        self.write_bytes(val.as_bytes());
    }
}

impl ByteBufferAdv {
    /// Read one byte.
    pub fn read_u8(&mut self) -> (r: Result<u8, BufferError>)
        requires
            old(self).wf(),
        ensures
            final(self).wf(),
            match r {
                Ok(v) => old(self)@.can_read(1)
                    && seq![v] == old(self)@.bytes_at_read(1)
                    && final(self)@ == old(self)@.after_read(1),
                Err(e) => !old(self)@.can_read(1)
                    && e == BufferError::InsufficientData
                    && final(self)@ == old(self)@.flushed(),
            },
    {
        match self.read_bytes(1) {
            Ok(bytes) => {
                assert(bytes@ =~= seq![bytes@[0]]);
                Ok(bytes[0])
            },
            Err(e) => Err(e),
        }
    }

    /// Read a `u16` stored as 2 bytes in the buffer's byte order.
    pub fn read_u16(&mut self) -> (r: Result<u16, BufferError>)
        requires
            old(self).wf(),
        ensures
            final(self).wf(),
            match r {
                Ok(v) => old(self)@.can_read(2)
                    && encode(v as nat, 2, old(self)@.endian) == old(self)@.bytes_at_read(2)
                    && final(self)@ == old(self)@.after_read(2),
                Err(e) => !old(self)@.can_read(2)
                    && e == BufferError::InsufficientData
                    && final(self)@ == old(self)@.flushed(),
            },
    {
        match self.read_bytes(2) {
            Ok(bytes) => Ok(
                match self.endian {
                    Endian::BigEndian => be_read_u16(bytes.as_slice()),
                    Endian::LittleEndian => le_read_u16(bytes.as_slice()),
                },
            ),
            Err(e) => Err(e),
        }
    }

    /// Read a `u32` stored as 4 bytes in the buffer's byte order.
    pub fn read_u32(&mut self) -> (r: Result<u32, BufferError>)
        requires
            old(self).wf(),
        ensures
            final(self).wf(),
            match r {
                Ok(v) => old(self)@.can_read(4)
                    && encode(v as nat, 4, old(self)@.endian) == old(self)@.bytes_at_read(4)
                    && final(self)@ == old(self)@.after_read(4),
                Err(e) => !old(self)@.can_read(4)
                    && e == BufferError::InsufficientData
                    && final(self)@ == old(self)@.flushed(),
            },
    {
        match self.read_bytes(4) {
            Ok(bytes) => Ok(
                match self.endian {
                    Endian::BigEndian => be_read_u32(bytes.as_slice()),
                    Endian::LittleEndian => le_read_u32(bytes.as_slice()),
                },
            ),
            Err(e) => Err(e),
        }
    }

    /// Read a `u64` stored as 8 bytes in the buffer's byte order.
    pub fn read_u64(&mut self) -> (r: Result<u64, BufferError>)
        requires
            old(self).wf(),
        ensures
            final(self).wf(),
            match r {
                Ok(v) => old(self)@.can_read(8)
                    && encode(v as nat, 8, old(self)@.endian) == old(self)@.bytes_at_read(8)
                    && final(self)@ == old(self)@.after_read(8),
                Err(e) => !old(self)@.can_read(8)
                    && e == BufferError::InsufficientData
                    && final(self)@ == old(self)@.flushed(),
            },
    {
        match self.read_bytes(8) {
            Ok(bytes) => Ok(
                match self.endian {
                    Endian::BigEndian => be_read_u64(bytes.as_slice()),
                    Endian::LittleEndian => le_read_u64(bytes.as_slice()),
                },
            ),
            Err(e) => Err(e),
        }
    }

    /// Read a `u128` stored as 16 bytes in the buffer's byte order.
    pub fn read_u128(&mut self) -> (r: Result<u128, BufferError>)
        requires
            old(self).wf(),
        ensures
            final(self).wf(),
            match r {
                Ok(v) => old(self)@.can_read(16)
                    && encode(v as nat, 16, old(self)@.endian) == old(self)@.bytes_at_read(16)
                    && final(self)@ == old(self)@.after_read(16),
                Err(e) => !old(self)@.can_read(16)
                    && e == BufferError::InsufficientData
                    && final(self)@ == old(self)@.flushed(),
            },
    {
        match self.read_bytes(16) {
            Ok(bytes) => Ok(
                match self.endian {
                    Endian::BigEndian => be_read_u128(bytes.as_slice()),
                    Endian::LittleEndian => le_read_u128(bytes.as_slice()),
                },
            ),
            Err(e) => Err(e),
        }
    }

    /// Read one byte as a two's-complement `i8`.
    pub fn read_i8(&mut self) -> (r: Result<i8, BufferError>)
        requires
            old(self).wf(),
        ensures
            final(self).wf(),
            match r {
                Ok(v) => old(self)@.can_read(1)
                    && seq![v as u8] == old(self)@.bytes_at_read(1)
                    && final(self)@ == old(self)@.after_read(1),
                Err(e) => !old(self)@.can_read(1)
                    && e == BufferError::InsufficientData
                    && final(self)@ == old(self)@.flushed(),
            },
    {
        match self.read_u8() {
            Ok(v) => {
                assert(v as i8 as u8 == v) by (bit_vector);
                Ok(v as i8)
            },
            Err(e) => Err(e),
        }
    }

    /// Read an `i16` stored as 2 two's-complement bytes in the buffer's
    /// byte order.
    pub fn read_i16(&mut self) -> (r: Result<i16, BufferError>)
        requires
            old(self).wf(),
        ensures
            final(self).wf(),
            match r {
                Ok(v) => old(self)@.can_read(2)
                    && encode(v as u16 as nat, 2, old(self)@.endian) == old(self)@.bytes_at_read(2)
                    && final(self)@ == old(self)@.after_read(2),
                Err(e) => !old(self)@.can_read(2)
                    && e == BufferError::InsufficientData
                    && final(self)@ == old(self)@.flushed(),
            },
    {
        match self.read_u16() {
            Ok(v) => {
                assert(v as i16 as u16 == v) by (bit_vector);
                Ok(v as i16)
            },
            Err(e) => Err(e),
        }
    }

    /// Read an `i32` stored as 4 two's-complement bytes in the buffer's
    /// byte order.
    pub fn read_i32(&mut self) -> (r: Result<i32, BufferError>)
        requires
            old(self).wf(),
        ensures
            final(self).wf(),
            match r {
                Ok(v) => old(self)@.can_read(4)
                    && encode(v as u32 as nat, 4, old(self)@.endian) == old(self)@.bytes_at_read(4)
                    && final(self)@ == old(self)@.after_read(4),
                Err(e) => !old(self)@.can_read(4)
                    && e == BufferError::InsufficientData
                    && final(self)@ == old(self)@.flushed(),
            },
    {
        match self.read_u32() {
            Ok(v) => {
                assert(v as i32 as u32 == v) by (bit_vector);
                Ok(v as i32)
            },
            Err(e) => Err(e),
        }
    }

    /// Read an `i64` stored as 8 two's-complement bytes in the buffer's
    /// byte order.
    pub fn read_i64(&mut self) -> (r: Result<i64, BufferError>)
        requires
            old(self).wf(),
        ensures
            final(self).wf(),
            match r {
                Ok(v) => old(self)@.can_read(8)
                    && encode(v as u64 as nat, 8, old(self)@.endian) == old(self)@.bytes_at_read(8)
                    && final(self)@ == old(self)@.after_read(8),
                Err(e) => !old(self)@.can_read(8)
                    && e == BufferError::InsufficientData
                    && final(self)@ == old(self)@.flushed(),
            },
    {
        match self.read_u64() {
            Ok(v) => {
                assert(v as i64 as u64 == v) by (bit_vector);
                Ok(v as i64)
            },
            Err(e) => Err(e),
        }
    }

    /// Read an `i128` stored as 16 two's-complement bytes in the buffer's
    /// byte order.
    pub fn read_i128(&mut self) -> (r: Result<i128, BufferError>)
        requires
            old(self).wf(),
        ensures
            final(self).wf(),
            match r {
                Ok(v) => old(self)@.can_read(16)
                    && encode(v as u128 as nat, 16, old(self)@.endian) == old(self)@.bytes_at_read(16)
                    && final(self)@ == old(self)@.after_read(16),
                Err(e) => !old(self)@.can_read(16)
                    && e == BufferError::InsufficientData
                    && final(self)@ == old(self)@.flushed(),
            },
    {
        match self.read_u128() {
            Ok(v) => {
                assert(v as i128 as u128 == v) by (bit_vector);
                Ok(v as i128)
            },
            Err(e) => Err(e),
        }
    }
}

/// Relies on std's `String::from_utf8`: it succeeds exactly on valid UTF-8,
/// and then holds the characters that the bytes encode.
#[verifier::external_body]
fn string_from_utf8(b: Vec<u8>) -> (r: Option<String>)
    ensures
        r is Some <==> valid_utf8(b@),
        r matches Some(s) ==> s@ == decode_utf8(b@),
{
    String::from_utf8(b).ok()
}

impl ByteBufferAdv {
    /// Read a string stored as a `u32` byte length in the buffer's byte order
    /// followed by that many UTF-8 bytes. On any failure nothing is consumed:
    /// the read cursor is only aligned.
    pub fn read_string(&mut self) -> (r: Result<String, BufferError>)
        requires
            old(self).wf(),
        ensures
            final(self).wf(),
            match r {
                Ok(s) => exists|n: u32|
                    #[trigger] old(self)@.length_prefix_is(n)
                    && old(self)@.can_read(4 + n as nat)
                    && valid_utf8(old(self)@.string_body(n as nat))
                    && s@ == decode_utf8(old(self)@.string_body(n as nat))
                    && final(self)@ == old(self)@.after_read(4 + n as nat),
                Err(e) => final(self)@ == old(self)@.flushed() && (
                    e == BufferError::InsufficientData && (!old(self)@.can_read(4) || exists|n: u32|
                        #[trigger] old(self)@.length_prefix_is(n) && !old(self)@.can_read(4 + n as nat))
                    || e == BufferError::InvalidUtf8 && exists|n: u32|
                        #[trigger] old(self)@.length_prefix_is(n)
                        && old(self)@.can_read(4 + n as nat)
                        && !valid_utf8(old(self)@.string_body(n as nat))),
            },
    {
        self.flush_bits();
        let start = self.rpos;
        let n = match self.read_u32() {
            Ok(n) => n,
            Err(e) => return Err(e),
        };
        assert(old(self)@.length_prefix_is(n));
        let bytes = match self.read_bytes(n as usize) {
            Ok(b) => b,
            Err(e) => {
                self.rpos = start;
                assert(self@ == old(self)@.flushed());
                return Err(e);
            },
        };
        assert(bytes@ =~= old(self)@.string_body(n as nat));
        match string_from_utf8(bytes) {
            Some(s) => Ok(s),
            None => {
                self.rpos = start;
                assert(self@ == old(self)@.flushed());
                Err(BufferError::InvalidUtf8)
            },
        }
    }
}

impl Default for ByteBufferAdv {
    fn default() -> (r: ByteBufferAdv)
        ensures
            r.wf(),
            r@ == BufferView::holding(Seq::empty()),
    {
        ByteBufferAdv::new()
    }
}

impl ByteBufferAdv {
    /// The write cursor.
    pub fn wpos(&self) -> (r: usize)
        ensures
            r == self@.wpos,
    {
        self.wpos
    }

    /// The read cursor.
    pub fn rpos(&self) -> (r: usize)
        ensures
            r == self@.rpos,
    {
        self.rpos
    }

    /// The pending bit offset of the write cursor.
    pub fn wbit(&self) -> (r: usize)
        ensures
            r == self@.wbit,
    {
        self.wbit
    }

    /// The pending bit offset of the read cursor.
    pub fn rbit(&self) -> (r: usize)
        ensures
            r == self@.rbit,
    {
        self.rbit
    }

    /// All stored bytes.
    pub fn as_bytes(&self) -> (r: &[u8])
        ensures
            r@ == self@.data,
    {
        self.data.as_slice()
    }

    /// A copy of the bytes past the aligned read cursor; the buffer is not
    /// changed.
    pub fn remaining_data(&self) -> (r: Vec<u8>)
        requires
            self.wf(),
        ensures
            r@ == self@.data.skip(self@.read_start() as int),
    {
        let len = self.data.len();
        let start = if self.rbit > 0 {
            self.rpos + 1
        } else {
            self.rpos
        };
        let mut res: Vec<u8> = Vec::new();
        let mut i: usize = start;
        while i < len
            invariant
                start == self@.read_start(),
                start <= i <= len,
                len == self@.data.len(),
                res@ =~= self@.data.subrange(start as int, i as int),
            decreases len - i,
        {
            res.push(self.data[i]);
            i = i + 1;
        }
        res
    }
}

} // verus!
