//! Little-endian integer encoding, as used by the sprite archive format.
use vstd::prelude::*;

use byteorder::ByteOrder;

verus! {

/// The value of two bytes read as a little-endian `u16`.
pub open spec fn le_u16(b0: u8, b1: u8) -> int {
    b0 as int + 256 * (b1 as int)
}

/// The value of four bytes read as a little-endian `u32`.
pub open spec fn le_u32(b0: u8, b1: u8, b2: u8, b3: u8) -> int {
    b0 as int + 256 * (b1 as int) + 65536 * (b2 as int) + 16777216 * (b3 as int)
}

/// The two bytes of `n` in little-endian order.
pub open spec fn u16_le_bytes(n: u16) -> Seq<u8> {
    seq![(n % 256) as u8, (n / 256) as u8]
}

/// The four bytes of `n` in little-endian order.
pub open spec fn u32_le_bytes(n: u32) -> Seq<u8> {
    seq![(n % 256) as u8, ((n / 256) % 256) as u8, ((n / 65536) % 256) as u8, (n / 16777216) as u8]
}

/// Reads the little-endian `u16` at `pos`.
/// Calls `byteorder::LittleEndian::read_u16`, which reads the first two bytes of
/// its argument as a little-endian number (and panics on fewer than two bytes,
/// which the `requires` rules out).
#[verifier::external_body]
pub(crate) fn read_u16_le(buf: &[u8], pos: usize) -> (r: u16)
    requires
        pos + 2 <= buf@.len(),
    ensures
        r == le_u16(buf@[pos as int], buf@[pos + 1]),
{
    byteorder::LittleEndian::read_u16(&buf[pos..])
}

/// Reads the little-endian `u32` at `pos`.
/// Calls `byteorder::LittleEndian::read_u32`, which reads the first four bytes of
/// its argument as a little-endian number (and panics on fewer than four bytes,
/// which the `requires` rules out).
#[verifier::external_body]
pub(crate) fn read_u32_le(buf: &[u8], pos: usize) -> (r: u32)
    requires
        pos + 4 <= buf@.len(),
    ensures
        r == le_u32(buf@[pos as int], buf@[pos + 1], buf@[pos + 2], buf@[pos + 3]),
{
    byteorder::LittleEndian::read_u32(&buf[pos..])
}

/// Appends the little-endian bytes of `n`.
pub fn push_u16_le(out: &mut Vec<u8>, n: u16)
    ensures
        final(out)@ == old(out)@ + u16_le_bytes(n),
{
    out.push((n % 256) as u8);
    out.push((n / 256) as u8);
    assert(final(out)@ =~= old(out)@ + u16_le_bytes(n));
}

/// Appends the little-endian bytes of `n`.
pub fn push_u32_le(out: &mut Vec<u8>, n: u32)
    ensures
        final(out)@ == old(out)@ + u32_le_bytes(n),
{
    out.push((n % 256) as u8);
    out.push(((n / 256) % 256) as u8);
    out.push(((n / 65536) % 256) as u8);
    out.push((n / 16777216) as u8);
    assert(final(out)@ =~= old(out)@ + u32_le_bytes(n));
}

/// Reading back the bytes of `n` gives `n`.
pub proof fn lemma_u16_le_roundtrip(n: u16)
    ensures
        le_u16(u16_le_bytes(n)[0], u16_le_bytes(n)[1]) == n,
{
}

/// Reading back the bytes of `n` gives `n`.
pub proof fn lemma_u32_le_roundtrip(n: u32)
    ensures
        le_u32(u32_le_bytes(n)[0], u32_le_bytes(n)[1], u32_le_bytes(n)[2], u32_le_bytes(n)[3]) == n,
{
}

/// Writing the value read from two bytes gives the same two bytes.
pub proof fn lemma_le_u16_bytes(b0: u8, b1: u8)
    ensures
        u16_le_bytes(le_u16(b0, b1) as u16) == seq![b0, b1],
{
    assert(u16_le_bytes(le_u16(b0, b1) as u16) =~= seq![b0, b1]);
}

/// Writing the value read from four bytes gives the same four bytes.
pub proof fn lemma_le_u32_bytes(b0: u8, b1: u8, b2: u8, b3: u8)
    ensures
        u32_le_bytes(le_u32(b0, b1, b2, b3) as u32) == seq![b0, b1, b2, b3],
{
    let v = le_u32(b0, b1, b2, b3);
    assert(0 <= v < 0x1_0000_0000);
    assert(v % 256 == b0 && (v / 256) % 256 == b1 && (v / 65536) % 256 == b2 && v / 16777216 == b3)
        by (nonlinear_arith)
        requires
            v == b0 as int + 256 * (b1 as int) + 65536 * (b2 as int) + 16777216 * (b3 as int),
            0 <= b0 < 256,
            0 <= b1 < 256,
            0 <= b2 < 256,
            0 <= b3 < 256,
    ;
    assert(u32_le_bytes(v as u32) =~= seq![b0, b1, b2, b3]);
}

} // verus!
