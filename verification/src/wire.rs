//! Little-endian primitives: the fixed-width integers every structure of the
//! format is built from, as spec-level readers over byte sequences and
//! executable readers and writers proved against them.

use vstd::prelude::*;

verus! {

/// `n` bytes are available at `pos`.
pub open spec fn have(b: Seq<u8>, pos: int, n: int) -> bool {
    0 <= pos && pos + n <= b.len()
}

/// Little-endian value of two bytes.
pub open spec fn u16_of(lo: u8, hi: u8) -> u16 {
    (lo + hi * 0x100) as u16
}

/// The 16-bit value at `pos`.
pub open spec fn u16_at(b: Seq<u8>, pos: int) -> u16 {
    u16_of(b[pos], b[pos + 1])
}

/// Little-endian value of four bytes.
pub open spec fn u32_of(b0: u8, b1: u8, b2: u8, b3: u8) -> u32 {
    (b0 + b1 * 0x100 + b2 * 0x10000 + b3 * 0x1000000) as u32
}

/// The 32-bit value at `pos`.
pub open spec fn u32_at(b: Seq<u8>, pos: int) -> u32 {
    u32_of(b[pos], b[pos + 1], b[pos + 2], b[pos + 3])
}

/// The 64-bit value at `pos`: two 32-bit halves, low half first.
pub open spec fn u64_at(b: Seq<u8>, pos: int) -> u64 {
    (u32_at(b, pos) + u32_at(b, pos + 4) * 0x100000000) as u64
}

/// The two little-endian bytes of a 16-bit value.
pub open spec fn u16_le_bytes(x: u16) -> Seq<u8> {
    seq![(x % 0x100) as u8, (x / 0x100) as u8]
}

/// The four little-endian bytes of a 32-bit value.
pub open spec fn u32_le_bytes(x: u32) -> Seq<u8> {
    seq![
        (x % 0x100) as u8,
        ((x / 0x100) % 0x100) as u8,
        ((x / 0x10000) % 0x100) as u8,
        (x / 0x1000000) as u8,
    ]
}

/// The eight little-endian bytes of a 64-bit value.
pub open spec fn u64_le_bytes(x: u64) -> Seq<u8> {
    u32_le_bytes((x % 0x100000000) as u32) + u32_le_bytes((x / 0x100000000) as u32)
}

/// Reading back the little-endian bytes of a 16-bit value gives it back.
pub proof fn lemma_u16_round_trip(x: u16)
    ensures
        u16_of(u16_le_bytes(x)[0], u16_le_bytes(x)[1]) == x,
{
}

/// Reading back the little-endian bytes of a 32-bit value gives it back.
pub proof fn lemma_u32_round_trip(x: u32)
    ensures
        u32_of(u32_le_bytes(x)[0], u32_le_bytes(x)[1], u32_le_bytes(x)[2], u32_le_bytes(x)[3])
            == x,
{
    assert(x % 0x100 + ((x / 0x100) % 0x100) * 0x100 + ((x / 0x10000) % 0x100) * 0x10000 + (x
        / 0x1000000) * 0x1000000 == x) by (bit_vector);
}

/// Reading back the little-endian bytes of a 64-bit value gives it back.
pub proof fn lemma_u64_round_trip(x: u64)
    ensures
        u32_of(
            u64_le_bytes(x)[0],
            u64_le_bytes(x)[1],
            u64_le_bytes(x)[2],
            u64_le_bytes(x)[3],
        ) == x % 0x100000000,
        u32_of(
            u64_le_bytes(x)[4],
            u64_le_bytes(x)[5],
            u64_le_bytes(x)[6],
            u64_le_bytes(x)[7],
        ) == x / 0x100000000,
        (u32_of(u64_le_bytes(x)[0], u64_le_bytes(x)[1], u64_le_bytes(x)[2], u64_le_bytes(x)[3])
            + u32_of(
            u64_le_bytes(x)[4],
            u64_le_bytes(x)[5],
            u64_le_bytes(x)[6],
            u64_le_bytes(x)[7],
        ) * 0x100000000) as u64 == x,
{
    lemma_u32_round_trip((x % 0x100000000) as u32);
    lemma_u32_round_trip((x / 0x100000000) as u32);
    assert(x % 0x100000000 + (x / 0x100000000) * 0x100000000 == x) by (bit_vector);
}

/// Reads the 16-bit value at `pos`.
pub fn read_u16(data: &Vec<u8>, pos: usize) -> (r: u16)
    requires
        have(data@, pos as int, 2),
    ensures
        r == u16_at(data@, pos as int),
{
    let len = data.len();
    assert(pos + 2 <= len);
    data[pos] as u16 + data[pos + 1] as u16 * 0x100
}

/// Reads the 32-bit value at `pos`.
pub fn read_u32(data: &Vec<u8>, pos: usize) -> (r: u32)
    requires
        have(data@, pos as int, 4),
    ensures
        r == u32_at(data@, pos as int),
{
    let len = data.len();
    assert(pos + 4 <= len);
    data[pos] as u32 + data[pos + 1] as u32 * 0x100 + data[pos + 2] as u32 * 0x10000 + data[pos
        + 3] as u32 * 0x1000000
}

/// Reads the 64-bit value at `pos`.
pub fn read_u64(data: &Vec<u8>, pos: usize) -> (r: u64)
    requires
        have(data@, pos as int, 8),
    ensures
        r == u64_at(data@, pos as int),
{
    let len = data.len();
    assert(pos + 8 <= len);
    read_u32(data, pos) as u64 + read_u32(data, pos + 4) as u64 * 0x100000000
}

/// Appends the two little-endian bytes of a 16-bit value.
pub fn push_u16(out: &mut Vec<u8>, x: u16)
    ensures
        final(out)@ == old(out)@ + u16_le_bytes(x),
{
    out.push((x % 0x100) as u8);
    out.push((x / 0x100) as u8);
    assert(final(out)@ =~= old(out)@ + u16_le_bytes(x));
}

/// Appends the four little-endian bytes of a 32-bit value.
pub fn push_u32(out: &mut Vec<u8>, x: u32)
    ensures
        final(out)@ == old(out)@ + u32_le_bytes(x),
{
    out.push((x % 0x100) as u8);
    out.push(((x / 0x100) % 0x100) as u8);
    out.push(((x / 0x10000) % 0x100) as u8);
    out.push((x / 0x1000000) as u8);
    assert(final(out)@ =~= old(out)@ + u32_le_bytes(x));
}

/// Appends the eight little-endian bytes of a 64-bit value.
pub fn push_u64(out: &mut Vec<u8>, x: u64)
    ensures
        final(out)@ == old(out)@ + u64_le_bytes(x),
{
    push_u32(out, (x % 0x100000000) as u32);
    push_u32(out, (x / 0x100000000) as u32);
    assert(final(out)@ =~= old(out)@ + u64_le_bytes(x));
}

/// The 16-bit read at `pos` depends only on the two bytes there.
/// The 32-bit read at `pos` depends only on the four bytes there.
/// Byte-for-byte equality of two buffers.
pub fn bytes_eq(a: &Vec<u8>, b: &Vec<u8>) -> (r: bool)
    ensures
        r == (a@ == b@),
{
    if a.len() != b.len() {
        return false;
    }
    let mut i: usize = 0;
    while i < a.len()
        invariant
            0 <= i <= a@.len(),
            a@.len() == b@.len(),
            forall|j: int| 0 <= j < i ==> a@[j] == b@[j],
        decreases a@.len() - i,
    {
        if a[i] != b[i] {
            return false;
        }
        i = i + 1;
    }
    proof {
        assert(a@ =~= b@);
    }
    true
}

} // verus!
