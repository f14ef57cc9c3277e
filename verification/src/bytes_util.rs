//! Fixed-width integer encodings used on the wire.

use vstd::prelude::*;

verus! {

/// Big-endian bytes of a `u32` (`u32::to_be_bytes`).
pub open spec fn be32(x: u32) -> Seq<u8> {
    seq![(x >> 24u32) as u8, (x >> 16u32) as u8, (x >> 8u32) as u8, x as u8]
}

/// Little-endian bytes of a `u32` (`u32::to_le_bytes`).
pub open spec fn le32(x: u32) -> Seq<u8> {
    seq![x as u8, (x >> 8u32) as u8, (x >> 16u32) as u8, (x >> 24u32) as u8]
}

/// Big-endian bytes of a `u16` (`u16::to_be_bytes`).
pub open spec fn be16(x: u16) -> Seq<u8> {
    seq![(x >> 8u16) as u8, x as u8]
}

/// `u32::from_be_bytes` of four bytes.
pub open spec fn u32_be(b0: u8, b1: u8, b2: u8, b3: u8) -> u32 {
    ((b0 as u32) << 24u32) | ((b1 as u32) << 16u32) | ((b2 as u32) << 8u32) | (b3 as u32)
}

/// `u32::from_le_bytes` of four bytes.
pub open spec fn u32_le(b0: u8, b1: u8, b2: u8, b3: u8) -> u32 {
    u32_be(b3, b2, b1, b0)
}

/// `u16::from_be_bytes` of two bytes.
pub open spec fn u16_be(b0: u8, b1: u8) -> u16 {
    ((b0 as u16) << 8u16) | (b1 as u16)
}

/// Big-endian `u32` read at `off`.
pub open spec fn be32_at(d: Seq<u8>, off: int) -> u32 {
    u32_be(d[off], d[off + 1], d[off + 2], d[off + 3])
}

/// Little-endian `u32` read at `off`.
pub open spec fn le32_at(d: Seq<u8>, off: int) -> u32 {
    u32_le(d[off], d[off + 1], d[off + 2], d[off + 3])
}

/// Splitting a `u32` into big-endian bytes and joining them gives it back.
pub proof fn lemma_be32_roundtrip(x: u32)
    ensures
        u32_be((x >> 24u32) as u8, (x >> 16u32) as u8, (x >> 8u32) as u8, x as u8) == x,
{
    assert(((((x >> 24u32) as u8) as u32) << 24u32) | ((((x >> 16u32) as u8) as u32) << 16u32)
        | ((((x >> 8u32) as u8) as u32) << 8u32) | ((x as u8) as u32) == x) by (bit_vector);
}

/// Splitting a `u16` into big-endian bytes and joining them gives it back.
pub proof fn lemma_u16_be_roundtrip(x: u16)
    ensures
        u16_be((x >> 8u16) as u8, x as u8) == x,
{
    assert(((((x >> 8u16) as u8) as u16) << 8u16) | ((x as u8) as u16) == x) by (bit_vector);
}

/// Joining four bytes big-endian and splitting the result gives the bytes back.
pub proof fn lemma_be32_bytes(b0: u8, b1: u8, b2: u8, b3: u8)
    ensures
        be32(u32_be(b0, b1, b2, b3)) == seq![b0, b1, b2, b3],
{
    let x = u32_be(b0, b1, b2, b3);
    assert((x >> 24u32) as u8 == b0 && (x >> 16u32) as u8 == b1 && (x >> 8u32) as u8 == b2
        && x as u8 == b3) by (bit_vector)
        requires
            x == ((b0 as u32) << 24u32) | ((b1 as u32) << 16u32) | ((b2 as u32) << 8u32) | (
            b3 as u32),
    ;
    assert(be32(x) =~= seq![b0, b1, b2, b3]);
}

/// Appends the big-endian bytes of `x`.
pub fn push_be32(out: &mut Vec<u8>, x: u32)
    ensures
        final(out)@ == old(out)@ + be32(x),
{
    out.push((x >> 24u32) as u8);
    out.push((x >> 16u32) as u8);
    out.push((x >> 8u32) as u8);
    out.push(x as u8);
    assert(out@ =~= old(out)@ + be32(x));
}

/// Appends the little-endian bytes of `x`.
pub fn push_le32(out: &mut Vec<u8>, x: u32)
    ensures
        final(out)@ == old(out)@ + le32(x),
{
    out.push(x as u8);
    out.push((x >> 8u32) as u8);
    out.push((x >> 16u32) as u8);
    out.push((x >> 24u32) as u8);
    assert(out@ =~= old(out)@ + le32(x));
}

/// Appends the big-endian bytes of `x`.
pub fn push_be16(out: &mut Vec<u8>, x: u16)
    ensures
        final(out)@ == old(out)@ + be16(x),
{
    out.push((x >> 8u16) as u8);
    out.push(x as u8);
    assert(out@ =~= old(out)@ + be16(x));
}

/// Appends all of `b`.
pub fn push_slice(out: &mut Vec<u8>, b: &[u8])
    ensures
        final(out)@ == old(out)@ + b@,
{
    let ghost start = out@;
    let mut i: usize = 0;
    while i < b.len()
        invariant
            i <= b.len(),
            out@ == start + b@.take(i as int),
        decreases b.len() - i,
    {
        out.push(b[i]);
        i = i + 1;
        assert(out@ =~= start + b@.take(i as int));
    }
    assert(b@.take(b.len() as int) =~= b@);
}

/// Reads a big-endian `u32` at `off`.
pub fn read_be32(d: &[u8], off: usize) -> (x: u32)
    requires
        off + 4 <= d.len(),
    ensures
        x == be32_at(d@, off as int),
{
    ((d[off] as u32) << 24u32) | ((d[off + 1] as u32) << 16u32) | ((d[off + 2] as u32) << 8u32)
        | (d[off + 3] as u32)
}

/// Reads a little-endian `u32` at `off`.
pub fn read_le32(d: &[u8], off: usize) -> (x: u32)
    requires
        off + 4 <= d.len(),
    ensures
        x == le32_at(d@, off as int),
{
    ((d[off + 3] as u32) << 24u32) | ((d[off + 2] as u32) << 16u32) | ((d[off + 1] as u32) << 8u32)
        | (d[off] as u32)
}

/// Reads a big-endian `u16` at `off`.
pub fn read_be16(d: &[u8], off: usize) -> (x: u16)
    requires
        off + 2 <= d.len(),
    ensures
        x == u16_be(d@[off as int], d@[off + 1]),
{
    ((d[off] as u16) << 8u16) | (d[off + 1] as u16)
}

/// Copies `d[lo..hi]`.
pub fn copy_bytes(d: &[u8], lo: usize, hi: usize) -> (r: Vec<u8>)
    requires
        lo <= hi <= d.len(),
    ensures
        r@ == d@.subrange(lo as int, hi as int),
{
    let mut r: Vec<u8> = Vec::new();
    let mut i = lo;
    while i < hi
        invariant
            lo <= i <= hi <= d.len(),
            r@ == d@.subrange(lo as int, i as int),
        decreases hi - i,
    {
        r.push(d[i]);
        i = i + 1;
    }
    r
}

/// Whether two identifiers are equal.
pub fn ids_equal(a: &[u8; 16], b: &[u8; 16]) -> (r: bool)
    ensures
        r == (*a == *b),
{
    let mut i: usize = 0;
    while i < 16
        invariant
            i <= 16,
            a@.len() == 16 && b@.len() == 16,
            forall|k: int| 0 <= k < i ==> a@[k] == b@[k],
        decreases 16 - i,
    {
        if a[i] != b[i] {
            assert(a@ != b@);
            return false;
        }
        i = i + 1;
    }
    assert(a@ =~= b@);
    proof {
        vstd::array::axiom_array_ext_equal(*a, *b);
    }
    true
}

} // verus!
