//! Byte-order encodings of unsigned integers, and the calls into `byteorder`
//! that produce them.

use crate::Endian;
use byteorder::{BigEndian, ByteOrder, LittleEndian};
use vstd::prelude::*;

verus! {

/// The `n` lowest bytes of `v`, most significant first.
pub open spec fn be_bytes(v: nat, n: nat) -> Seq<u8>
    decreases n,
{
    if n == 0 {
        Seq::empty()
    } else {
        be_bytes(v / 256, (n - 1) as nat).push((v % 256) as u8)
    }
}

/// The `n` lowest bytes of `v`, least significant first.
pub open spec fn le_bytes(v: nat, n: nat) -> Seq<u8>
    decreases n,
{
    if n == 0 {
        Seq::empty()
    } else {
        seq![(v % 256) as u8] + le_bytes(v / 256, (n - 1) as nat)
    }
}

/// The `n`-byte encoding of `v` in the byte order `e`.
pub open spec fn encode(v: nat, n: nat, e: Endian) -> Seq<u8> {
    match e {
        Endian::BigEndian => be_bytes(v, n),
        Endian::LittleEndian => le_bytes(v, n),
    }
}

/// Both encodings have exactly `n` bytes.
pub proof fn lemma_encoding_len(v: nat, n: nat)
    ensures
        be_bytes(v, n).len() == n,
        le_bytes(v, n).len() == n,
    decreases n,
{
    if n > 0 {
        lemma_encoding_len(v / 256, (n - 1) as nat);
    }
}

/// The little-endian encoding is the big-endian one read backwards.
pub proof fn lemma_le_is_reversed_be(v: nat, n: nat)
    ensures
        le_bytes(v, n) == be_bytes(v, n).reverse(),
    decreases n,
{
    if n > 0 {
        let rest = be_bytes(v / 256, (n - 1) as nat);
        lemma_le_is_reversed_be(v / 256, (n - 1) as nat);
        let x = (v % 256) as u8;
        assert(rest.push(x).reverse() =~= seq![x] + rest.reverse());
    }
}

/// The number of values that `n` bytes can hold: 256 to the power `n`.
pub open spec fn byte_range(n: nat) -> nat
    decreases n,
{
    if n == 0 {
        1
    } else {
        256 * byte_range((n - 1) as nat)
    }
}

/// The value of bytes read most significant first.
pub open spec fn be_value(b: Seq<u8>) -> nat
    decreases b.len(),
{
    if b.len() == 0 {
        0
    } else {
        be_value(b.drop_last()) * 256 + b.last() as nat
    }
}

/// Reading the big-endian encoding of a value that fits gives the value back.
pub proof fn lemma_be_value_of_bytes(v: nat, n: nat)
    requires
        v < byte_range(n),
    ensures
        be_value(be_bytes(v, n)) == v,
    decreases n,
{
    if n > 0 {
        let r = byte_range((n - 1) as nat);
        let q = v / 256;
        assert(q < r) by (nonlinear_arith)
            requires
                v < 256 * r,
                q == v / 256,
        ;
        lemma_be_value_of_bytes(q, (n - 1) as nat);
        assert(be_bytes(v, n).drop_last() =~= be_bytes(q, (n - 1) as nat));
        assert(q * 256 + v % 256 == v) by (nonlinear_arith)
            requires
                q == v / 256,
        ;
    }
}

/// Two values that fit in `n` bytes have the same encoding only if they are
/// equal.
pub proof fn lemma_encode_injective(a: nat, b: nat, n: nat, e: Endian)
    requires
        a < byte_range(n),
        b < byte_range(n),
        encode(a, n, e) == encode(b, n, e),
    ensures
        a == b,
{
    lemma_le_is_reversed_be(a, n);
    lemma_le_is_reversed_be(b, n);
    assert(be_bytes(a, n).reverse().reverse() =~= be_bytes(a, n));
    assert(be_bytes(b, n).reverse().reverse() =~= be_bytes(b, n));
    lemma_be_value_of_bytes(a, n);
    lemma_be_value_of_bytes(b, n);
}

/// Relies on byteorder's `BigEndian::write_u16`: the two bytes of `n`, most
/// significant first.
#[verifier::external_body]
pub(crate) fn be_write_u16(n: u16) -> (r: [u8; 2])
    ensures
        r@ == be_bytes(n as nat, 2),
{
    let mut buf = [0u8; 2];
    BigEndian::write_u16(&mut buf, n);
    buf
}

/// Relies on byteorder's `LittleEndian::write_u16`: the two bytes of `n`,
/// least significant first.
#[verifier::external_body]
pub(crate) fn le_write_u16(n: u16) -> (r: [u8; 2])
    ensures
        r@ == le_bytes(n as nat, 2),
{
    let mut buf = [0u8; 2];
    LittleEndian::write_u16(&mut buf, n);
    buf
}

/// Relies on byteorder's `BigEndian::write_u32`: the four bytes of `n`, most
/// significant first.
#[verifier::external_body]
pub(crate) fn be_write_u32(n: u32) -> (r: [u8; 4])
    ensures
        r@ == be_bytes(n as nat, 4),
{
    let mut buf = [0u8; 4];
    BigEndian::write_u32(&mut buf, n);
    buf
}

/// Relies on byteorder's `LittleEndian::write_u32`: the four bytes of `n`, least
/// significant first.
#[verifier::external_body]
pub(crate) fn le_write_u32(n: u32) -> (r: [u8; 4])
    ensures
        r@ == le_bytes(n as nat, 4),
{
    let mut buf = [0u8; 4];
    LittleEndian::write_u32(&mut buf, n);
    buf
}

/// Relies on byteorder's `BigEndian::write_u64`: the eight bytes of `n`, most
/// significant first.
#[verifier::external_body]
pub(crate) fn be_write_u64(n: u64) -> (r: [u8; 8])
    ensures
        r@ == be_bytes(n as nat, 8),
{
    let mut buf = [0u8; 8];
    BigEndian::write_u64(&mut buf, n);
    buf
}

/// Relies on byteorder's `LittleEndian::write_u64`: the eight bytes of `n`, least
/// significant first.
#[verifier::external_body]
pub(crate) fn le_write_u64(n: u64) -> (r: [u8; 8])
    ensures
        r@ == le_bytes(n as nat, 8),
{
    let mut buf = [0u8; 8];
    LittleEndian::write_u64(&mut buf, n);
    buf
}

/// Relies on byteorder's `BigEndian::write_u128`: the sixteen bytes of `n`, most
/// significant first.
#[verifier::external_body]
pub(crate) fn be_write_u128(n: u128) -> (r: [u8; 16])
    ensures
        r@ == be_bytes(n as nat, 16),
{
    let mut buf = [0u8; 16];
    BigEndian::write_u128(&mut buf, n);
    buf
}

/// Relies on byteorder's `LittleEndian::write_u128`: the sixteen bytes of `n`, least
/// significant first.
#[verifier::external_body]
pub(crate) fn le_write_u128(n: u128) -> (r: [u8; 16])
    ensures
        r@ == le_bytes(n as nat, 16),
{
    let mut buf = [0u8; 16];
    LittleEndian::write_u128(&mut buf, n);
    buf
}

/// Relies on byteorder's `BigEndian::read_u16`: the value whose two bytes,
/// most significant first, are `b`.
#[verifier::external_body]
pub(crate) fn be_read_u16(b: &[u8]) -> (r: u16)
    requires
        b@.len() == 2,
    ensures
        be_bytes(r as nat, 2) == b@,
{
    BigEndian::read_u16(b)
}

/// Relies on byteorder's `LittleEndian::read_u16`: the value whose two bytes,
/// least significant first, are `b`.
#[verifier::external_body]
pub(crate) fn le_read_u16(b: &[u8]) -> (r: u16)
    requires
        b@.len() == 2,
    ensures
        le_bytes(r as nat, 2) == b@,
{
    LittleEndian::read_u16(b)
}

/// Relies on byteorder's `BigEndian::read_u32`: the value whose four bytes,
/// most significant first, are `b`.
#[verifier::external_body]
pub(crate) fn be_read_u32(b: &[u8]) -> (r: u32)
    requires
        b@.len() == 4,
    ensures
        be_bytes(r as nat, 4) == b@,
{
    BigEndian::read_u32(b)
}

/// Relies on byteorder's `LittleEndian::read_u32`: the value whose four bytes,
/// least significant first, are `b`.
#[verifier::external_body]
pub(crate) fn le_read_u32(b: &[u8]) -> (r: u32)
    requires
        b@.len() == 4,
    ensures
        le_bytes(r as nat, 4) == b@,
{
    LittleEndian::read_u32(b)
}

/// Relies on byteorder's `BigEndian::read_u64`: the value whose eight bytes,
/// most significant first, are `b`.
#[verifier::external_body]
pub(crate) fn be_read_u64(b: &[u8]) -> (r: u64)
    requires
        b@.len() == 8,
    ensures
        be_bytes(r as nat, 8) == b@,
{
    BigEndian::read_u64(b)
}

/// Relies on byteorder's `LittleEndian::read_u64`: the value whose eight bytes,
/// least significant first, are `b`.
#[verifier::external_body]
pub(crate) fn le_read_u64(b: &[u8]) -> (r: u64)
    requires
        b@.len() == 8,
    ensures
        le_bytes(r as nat, 8) == b@,
{
    LittleEndian::read_u64(b)
}

/// Relies on byteorder's `BigEndian::read_u128`: the value whose sixteen bytes,
/// most significant first, are `b`.
#[verifier::external_body]
pub(crate) fn be_read_u128(b: &[u8]) -> (r: u128)
    requires
        b@.len() == 16,
    ensures
        be_bytes(r as nat, 16) == b@,
{
    BigEndian::read_u128(b)
}

/// Relies on byteorder's `LittleEndian::read_u128`: the value whose sixteen bytes,
/// least significant first, are `b`.
#[verifier::external_body]
pub(crate) fn le_read_u128(b: &[u8]) -> (r: u128)
    requires
        b@.len() == 16,
    ensures
        le_bytes(r as nat, 16) == b@,
{
    LittleEndian::read_u128(b)
}

} // verus!
