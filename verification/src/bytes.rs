//! Little-endian byte layout of 32-bit words, used for the uniform buffer.

use vstd::prelude::*;

verus! {

/// The four little-endian bytes of a 32-bit word.
pub open spec fn le_bytes_of_u32(x: u32) -> Seq<u8> {
    seq![
        (x & 0xff) as u8,
        ((x >> 8) & 0xff) as u8,
        ((x >> 16) & 0xff) as u8,
        ((x >> 24) & 0xff) as u8,
    ]
}

/// The 32-bit word whose little-endian bytes are `b0 b1 b2 b3`.
pub open spec fn spec_u32_of_le_bytes(b0: u8, b1: u8, b2: u8, b3: u8) -> u32 {
    (b0 as u32) | ((b1 as u32) << 8) | ((b2 as u32) << 16) | ((b3 as u32) << 24)
}

/// Writing a word's little-endian bytes and reading them back yields the
/// word again.
pub proof fn lemma_u32_le_round_trip(x: u32)
    ensures
        spec_u32_of_le_bytes(
            (x & 0xff) as u8,
            ((x >> 8) & 0xff) as u8,
            ((x >> 16) & 0xff) as u8,
            ((x >> 24) & 0xff) as u8,
        ) == x,
{
    assert(((x & 0xff) as u8 as u32) | (((x >> 8) & 0xff) as u8 as u32) << 8 | (((x >> 16)
        & 0xff) as u8 as u32) << 16 | (((x >> 24) & 0xff) as u8 as u32) << 24 == x)
        by (bit_vector);
}

/// Appends the four little-endian bytes of `x` to `buf`.
pub fn push_u32_le(buf: &mut Vec<u8>, x: u32)
    requires
        old(buf)@.len() + 4 <= usize::MAX,
    ensures
        final(buf)@ == old(buf)@ + le_bytes_of_u32(x),
{
    buf.push((x & 0xff) as u8);
    buf.push(((x >> 8) & 0xff) as u8);
    buf.push(((x >> 16) & 0xff) as u8);
    buf.push(((x >> 24) & 0xff) as u8);
    assert(buf@ =~= old(buf)@ + le_bytes_of_u32(x));
}

/// Reads the 32-bit word stored little-endian at `offset`.
pub fn read_u32_le(buf: &Vec<u8>, offset: usize) -> (r: u32)
    requires
        offset + 4 <= buf@.len(),
    ensures
        r == spec_u32_of_le_bytes(
            buf@[offset as int],
            buf@[offset as int + 1],
            buf@[offset as int + 2],
            buf@[offset as int + 3],
        ),
{
    let n = buf.len();
    assert(offset + 4 <= n);
    let b0 = buf[offset];
    let b1 = buf[offset + 1];
    let b2 = buf[offset + 2];
    let b3 = buf[offset + 3];
    (b0 as u32) | ((b1 as u32) << 8) | ((b2 as u32) << 16) | ((b3 as u32) << 24)
}

} // verus!
