//! Properties that relate several buffer operations, stated over the
//! abstract state that the operations' contracts use.

use crate::buffer::BufferView;
use crate::encoding::{
    be_bytes, byte_range, encode, lemma_encode_injective, lemma_encoding_len, lemma_le_is_reversed_be,
};
use crate::Endian;
use vstd::prelude::*;

verus! {

/// The state after writing each byte run of `chunks` in turn.
pub open spec fn written_all(s: BufferView, chunks: Seq<Seq<u8>>) -> BufferView
    decreases chunks.len(),
{
    if chunks.len() == 0 {
        s
    } else {
        written_all(s, chunks.drop_last()).written(chunks.last())
    }
}

/// A write keeps the invariant and never shortens storage.
pub proof fn lemma_written_wf(s: BufferView, b: Seq<u8>)
    requires
        s.wf(),
    ensures
        s.written(b).wf(),
        s.written(b).data.len() >= s.data.len(),
{
}

/// Writing `b` and then reading `len(b)` bytes from where the write began
/// yields exactly `b`.
pub proof fn law_round_trip(s: BufferView, b: Seq<u8>)
    requires
        s.wf(),
        s.read_start() == s.write_start(),
    ensures
        s.written(b).can_read(b.len()),
        s.written(b).bytes_at_read(b.len()) == b,
        s.written(b).after_read(b.len()).rpos == s.written(b).wpos,
{
    assert(s.written(b).bytes_at_read(b.len()) =~= b);
}

/// An integer written in big-endian order reads back as its bytes, most
/// significant first; written in little-endian order, as the same bytes in
/// reverse.
pub proof fn law_endian(s: BufferView, v: nat, n: nat)
    requires
        s.wf(),
        s.read_start() == s.write_start(),
    ensures
        s.written(encode(v, n, s.endian)).bytes_at_read(n) == (match s.endian {
            Endian::BigEndian => be_bytes(v, n),
            Endian::LittleEndian => be_bytes(v, n).reverse(),
        }),
{
    lemma_encoding_len(v, n);
    lemma_le_is_reversed_be(v, n);
    law_round_trip(s, encode(v, n, s.endian));
}

/// An integer of `n` bytes written and then read back from where the write
/// began, in the same byte order, is the integer that was written.
pub proof fn law_typed_round_trip(s: BufferView, v: nat, w: nat, n: nat)
    requires
        s.wf(),
        s.read_start() == s.write_start(),
        v < byte_range(n),
        w < byte_range(n),
        encode(w, n, s.endian) == s.written(encode(v, n, s.endian)).bytes_at_read(n),
    ensures
        w == v,
{
    lemma_encoding_len(v, n);
    law_round_trip(s, encode(v, n, s.endian));
    lemma_encode_injective(w, v, n, s.endian);
}

/// After any run of writes, storage is at least as long as it was after each
/// earlier prefix of that run, and at least as long as at the start.
pub proof fn law_growth(s: BufferView, chunks: Seq<Seq<u8>>, k: int)
    requires
        s.wf(),
        0 <= k <= chunks.len(),
    ensures
        written_all(s, chunks).wf(),
        s.data.len() <= written_all(s, chunks.take(k)).data.len() <= written_all(s, chunks).data.len(),
    decreases chunks.len(),
{
    if chunks.len() == 0 {
        assert(chunks.take(k) =~= chunks);
    } else if k == chunks.len() {
        assert(chunks.take(k) =~= chunks);
        law_growth(s, chunks.drop_last(), k - 1);
        lemma_written_wf(written_all(s, chunks.drop_last()), chunks.last());
    } else {
        law_growth(s, chunks.drop_last(), k);
        assert(chunks.drop_last().take(k) =~= chunks.take(k));
        lemma_written_wf(written_all(s, chunks.drop_last()), chunks.last());
    }
}

/// With no pending bits, a write of `n` bytes moves the write cursor by
/// exactly `n`, and a successful read of `n` bytes moves the read cursor by
/// exactly `n`.
pub proof fn law_cursor_advance(s: BufferView, b: Seq<u8>, size: nat)
    requires
        s.wf(),
    ensures
        s.wbit == 0 ==> s.written(b).wpos == s.wpos + b.len(),
        s.rbit == 0 && s.can_read(size) ==> s.after_read(size).rpos == s.rpos + size,
{
}

/// A read of more bytes than remain fails; the failed read only aligns the
/// read cursor, so with no pending read bits the cursor stays where it was.
pub proof fn law_end_of_data(s: BufferView, size: nat)
    requires
        s.wf(),
        size > s.data.len() - s.read_start(),
    ensures
        !s.can_read(size),
        s.flushed().rpos == s.read_start(),
        s.rbit == 0 ==> s.flushed().rpos == s.rpos,
{
}

} // verus!
