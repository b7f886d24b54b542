use vstd::prelude::*;
use byteorder::{ByteOrder, LittleEndian};

verus! {

/// The `n` bytes of `v` in little-endian order (the lowest byte first).
pub open spec fn le_bytes(v: nat, n: nat) -> Seq<u8>
    decreases n,
{
    if n == 0 {
        Seq::empty()
    } else {
        seq![(v % 256) as u8].add(le_bytes(v / 256, (n - 1) as nat))
    }
}

/// The number that the bytes `s` denote in little-endian order.
pub open spec fn le_value(s: Seq<u8>) -> nat
    decreases s.len(),
{
    if s.len() == 0 {
        0
    } else {
        s[0] as nat + 256 * le_value(s.drop_first())
    }
}

/// Writes `n` into 2 bytes, by `byteorder`'s `LittleEndian::write_u16`.
#[verifier::external_body]
pub(crate) fn le_u16_bytes(n: u16) -> (r: [u8; 2])
    ensures
        r@ == le_bytes(n as nat, 2),
{
    let mut buf = [0u8; 2];
    LittleEndian::write_u16(&mut buf, n);
    buf
}

/// Writes `n` into 2 bytes as its two's complement, by `byteorder`'s
/// `LittleEndian::write_i16`.
#[verifier::external_body]
pub(crate) fn le_i16_bytes(n: i16) -> (r: [u8; 2])
    ensures
        r@ == le_bytes((n as u16) as nat, 2),
{
    let mut buf = [0u8; 2];
    LittleEndian::write_i16(&mut buf, n);
    buf
}

/// Reads the first 2 bytes of `buf`, by `byteorder`'s `LittleEndian::read_u16`.
#[verifier::external_body]
pub(crate) fn le_u16_read(buf: &[u8]) -> (r: u16)
    requires
        buf@.len() >= 2,
    ensures
        r as nat == le_value(buf@.subrange(0, 2)),
{
    LittleEndian::read_u16(buf)
}

/// Reads the first 2 bytes of `buf` as a two's complement number, by
/// `byteorder`'s `LittleEndian::read_i16`.
#[verifier::external_body]
pub(crate) fn le_i16_read(buf: &[u8]) -> (r: i16)
    requires
        buf@.len() >= 2,
    ensures
        r == (le_value(buf@.subrange(0, 2)) as u16) as i16,
{
    LittleEndian::read_i16(buf)
}

/// Writes `n` into 4 bytes, by `byteorder`'s `LittleEndian::write_u32`.
#[verifier::external_body]
pub(crate) fn le_u32_bytes(n: u32) -> (r: [u8; 4])
    ensures
        r@ == le_bytes(n as nat, 4),
{
    let mut buf = [0u8; 4];
    LittleEndian::write_u32(&mut buf, n);
    buf
}

/// Writes `n` into 4 bytes as its two's complement, by `byteorder`'s
/// `LittleEndian::write_i32`.
#[verifier::external_body]
pub(crate) fn le_i32_bytes(n: i32) -> (r: [u8; 4])
    ensures
        r@ == le_bytes((n as u32) as nat, 4),
{
    let mut buf = [0u8; 4];
    LittleEndian::write_i32(&mut buf, n);
    buf
}

/// Reads the first 4 bytes of `buf`, by `byteorder`'s `LittleEndian::read_u32`.
#[verifier::external_body]
pub(crate) fn le_u32_read(buf: &[u8]) -> (r: u32)
    requires
        buf@.len() >= 4,
    ensures
        r as nat == le_value(buf@.subrange(0, 4)),
{
    LittleEndian::read_u32(buf)
}

/// Reads the first 4 bytes of `buf` as a two's complement number, by
/// `byteorder`'s `LittleEndian::read_i32`.
#[verifier::external_body]
pub(crate) fn le_i32_read(buf: &[u8]) -> (r: i32)
    requires
        buf@.len() >= 4,
    ensures
        r == (le_value(buf@.subrange(0, 4)) as u32) as i32,
{
    LittleEndian::read_i32(buf)
}

/// Writes `n` into 8 bytes, by `byteorder`'s `LittleEndian::write_u64`.
#[verifier::external_body]
pub(crate) fn le_u64_bytes(n: u64) -> (r: [u8; 8])
    ensures
        r@ == le_bytes(n as nat, 8),
{
    let mut buf = [0u8; 8];
    LittleEndian::write_u64(&mut buf, n);
    buf
}

/// Writes `n` into 8 bytes as its two's complement, by `byteorder`'s
/// `LittleEndian::write_i64`.
#[verifier::external_body]
pub(crate) fn le_i64_bytes(n: i64) -> (r: [u8; 8])
    ensures
        r@ == le_bytes((n as u64) as nat, 8),
{
    let mut buf = [0u8; 8];
    LittleEndian::write_i64(&mut buf, n);
    buf
}

/// Reads the first 8 bytes of `buf`, by `byteorder`'s `LittleEndian::read_u64`.
#[verifier::external_body]
pub(crate) fn le_u64_read(buf: &[u8]) -> (r: u64)
    requires
        buf@.len() >= 8,
    ensures
        r as nat == le_value(buf@.subrange(0, 8)),
{
    LittleEndian::read_u64(buf)
}

/// Reads the first 8 bytes of `buf` as a two's complement number, by
/// `byteorder`'s `LittleEndian::read_i64`.
#[verifier::external_body]
pub(crate) fn le_i64_read(buf: &[u8]) -> (r: i64)
    requires
        buf@.len() >= 8,
    ensures
        r == (le_value(buf@.subrange(0, 8)) as u64) as i64,
{
    LittleEndian::read_i64(buf)
}

/// `256` to the power `n`: one more than the largest number `n` bytes hold.
pub open spec fn byte_range(n: nat) -> nat
    decreases n,
{
    if n == 0 {
        1
    } else {
        256 * byte_range((n - 1) as nat)
    }
}

/// `le_bytes(v, n)` is `n` bytes long.
pub proof fn lemma_le_bytes_len(v: nat, n: nat)
    ensures
        le_bytes(v, n).len() == n,
    decreases n,
{
    if n > 0 {
        lemma_le_bytes_len(v / 256, (n - 1) as nat);
    }
}

/// Reading back the `n` little-endian bytes of a number that fits in them gives the number.
pub proof fn lemma_le_roundtrip(v: nat, n: nat)
    requires
        v < byte_range(n),
    ensures
        le_value(le_bytes(v, n)) == v,
        le_bytes(v, n).len() == n,
    decreases n,
{
    lemma_le_bytes_len(v, n);
    if n > 0 {
        let b = byte_range((n - 1) as nat);
        assert(v / 256 < b) by (nonlinear_arith)
            requires
                v < 256 * b,
        ;
        lemma_le_roundtrip(v / 256, (n - 1) as nat);
        let s = le_bytes(v, n);
        assert(s.drop_first() =~= le_bytes(v / 256, (n - 1) as nat));
        assert(v == v % 256 + 256 * (v / 256)) by (nonlinear_arith);
    }
}

/// The little-endian value of `n` bytes is below `256` to the power `n`.
pub proof fn lemma_le_value_bound(s: Seq<u8>)
    ensures
        le_value(s) < byte_range(s.len()),
    decreases s.len(),
{
    if s.len() > 0 {
        lemma_le_value_bound(s.drop_first());
        let r = le_value(s.drop_first());
        let b = byte_range((s.len() - 1) as nat);
        let s0 = s[0] as nat;
        assert(s0 + 256 * r < 256 * b) by (nonlinear_arith)
            requires
                r < b,
                s0 < 256,
        ;
    }
}

/// Writing back the little-endian value of some bytes gives the same bytes.
pub proof fn lemma_le_bytes_of_value(s: Seq<u8>)
    ensures
        le_bytes(le_value(s), s.len()) == s,
    decreases s.len(),
{
    if s.len() > 0 {
        let r = le_value(s.drop_first());
        let s0 = s[0] as nat;
        lemma_le_bytes_of_value(s.drop_first());
        assert((s0 + 256 * r) % 256 == s0 && (s0 + 256 * r) / 256 == r) by (nonlinear_arith)
            requires
                s0 < 256,
        ;
        assert(le_bytes(le_value(s), s.len()) =~= s);
    }
}

/// The sizes of the fixed-width integers in bytes.
pub proof fn lemma_byte_ranges()
    ensures
        byte_range(1) == 0x100,
        byte_range(2) == 0x1_0000,
        byte_range(4) == 0x1_0000_0000,
        byte_range(8) == 0x1_0000_0000_0000_0000,
{
    reveal_with_fuel(byte_range, 9);
}

} // verus!
