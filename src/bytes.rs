//! Little-endian encoding of the header's 32-bit fields, and byte copies
//! between fixed-size buffers.

use byteorder::{ByteOrder, LittleEndian};
use vstd::prelude::*;

verus! {

/// The value of four bytes read as a little-endian unsigned integer.
pub open spec fn le_u32(b: Seq<u8>) -> u32
    recommends
        b.len() == 4,
{
    (b[0] as int + b[1] as int * 0x100 + b[2] as int * 0x1_0000 + b[3] as int * 0x100_0000) as u32
}

/// The four bytes of `n` in little-endian order.
pub open spec fn u32_le(n: u32) -> Seq<u8> {
    seq![
        (n % 0x100) as u8,
        ((n / 0x100) % 0x100) as u8,
        ((n / 0x1_0000) % 0x100) as u8,
        (n / 0x100_0000) as u8,
    ]
}

/// Reading back what was written gives the same integer.
pub proof fn lemma_le_u32_of_u32_le(n: u32)
    ensures
        le_u32(u32_le(n)) == n,
{
    let b = u32_le(n);
    assert(b[0] as int + b[1] as int * 0x100 + b[2] as int * 0x1_0000 + b[3] as int * 0x100_0000
        == n as int) by (nonlinear_arith)
        requires
            b[0] == (n % 0x100) as u8,
            b[1] == ((n / 0x100) % 0x100) as u8,
            b[2] == ((n / 0x1_0000) % 0x100) as u8,
            b[3] == (n / 0x100_0000) as u8,
    ;
}

/// Writing back what was read gives the same four bytes.
pub proof fn lemma_u32_le_of_le_u32(b: Seq<u8>)
    requires
        b.len() == 4,
    ensures
        u32_le(le_u32(b)) == b,
{
    let v = b[0] as int + b[1] as int * 0x100 + b[2] as int * 0x1_0000 + b[3] as int * 0x100_0000;
    let b0 = b[0] as int;
    let b1 = b[1] as int;
    let b2 = b[2] as int;
    let b3 = b[3] as int;
    assert(0 <= v < 0x1_0000_0000) by (nonlinear_arith)
        requires
            v == b0 + b1 * 0x100 + b2 * 0x1_0000 + b3 * 0x100_0000,
            0 <= b0 < 0x100,
            0 <= b1 < 0x100,
            0 <= b2 < 0x100,
            0 <= b3 < 0x100,
    ;
    assert(v % 0x100 == b0 && (v / 0x100) % 0x100 == b1 && (v / 0x1_0000) % 0x100 == b2 && v
        / 0x100_0000 == b3) by (nonlinear_arith)
        requires
            v == b0 + b1 * 0x100 + b2 * 0x1_0000 + b3 * 0x100_0000,
            0 <= b0 < 0x100,
            0 <= b1 < 0x100,
            0 <= b2 < 0x100,
            0 <= b3 < 0x100,
    ;
    assert(u32_le(le_u32(b)) =~= b);
}

/// Appending two sequences one after the other appends their concatenation.
pub(crate) proof fn lemma_append_assoc(a: Seq<u8>, b: Seq<u8>, c: Seq<u8>)
    ensures
        (a + b) + c == a + (b + c),
{
    assert((a + b) + c =~= a + (b + c));
}

/// Relies on byteorder's `LittleEndian::read_u32`: it decodes the four
/// bytes at `pos` as a little-endian integer.
#[verifier::external_body]
pub(crate) fn read_u32_at(source: &[u8], pos: usize) -> (r: u32)
    requires
        pos + 4 <= source@.len(),
    ensures
        r == le_u32(source@.subrange(pos as int, pos + 4)),
{
    LittleEndian::read_u32(&source[pos..])
}

/// Relies on byteorder's `LittleEndian::write_u32`: it stores `n` in the
/// four bytes it is given, least significant byte first.
#[verifier::external_body]
pub(crate) fn u32_to_le(n: u32) -> (r: [u8; 4])
    ensures
        r@ == u32_le(n),
{
    let mut buf = [0u8; 4];
    LittleEndian::write_u32(&mut buf, n);
    buf
}

/// Copies `N` bytes of `source`, starting at `start`, into a new array.
pub(crate) fn copy_array<const N: usize>(source: &[u8], start: usize) -> (r: [u8; N])
    requires
        start + N <= source@.len(),
    ensures
        r@ == source@.subrange(start as int, start + N),
{
    let mut r = [0u8; N];
    let len = source.len();
    let mut i: usize = 0;
    while i < N
        invariant
            i <= N,
            start + N <= len == source@.len(),
            r@.len() == N,
            forall|j: int| 0 <= j < i ==> r@[j] == source@[start + j],
        decreases N - i,
    {
        r[i] = source[start + i];
        i += 1;
    }
    assert(r@ =~= source@.subrange(start as int, start + N));
    r
}

/// Appends every byte of `bytes` to `out`.
pub(crate) fn push_bytes(out: &mut Vec<u8>, bytes: &[u8])
    ensures
        final(out)@ == old(out)@ + bytes@,
{
    let mut i: usize = 0;
    while i < bytes.len()
        invariant
            i <= bytes@.len(),
            out@ == old(out)@ + bytes@.subrange(0, i as int),
        decreases bytes@.len() - i,
    {
        out.push(bytes[i]);
        i += 1;
        assert(out@ =~= old(out)@ + bytes@.subrange(0, i as int));
    }
    assert(bytes@.subrange(0, i as int) =~= bytes@);
}

} // verus!
