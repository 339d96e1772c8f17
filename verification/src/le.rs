//! Little-endian integer fields inside account and instruction byte buffers.
//!
//! Every account layout of the programs in this crate stores its integers in
//! little-endian order at fixed offsets; these functions read and write such
//! fields and state exactly which bytes they touch.
use vstd::prelude::*;

verus! {

/// Value of the two bytes `b[off]`, `b[off + 1]` read as a little-endian `u16`.
pub open spec fn u16_le(b: Seq<u8>, off: int) -> int {
    b[off] + 0x100 * b[off + 1]
}

/// Value of the eight bytes starting at `b[off]` read as a little-endian `u64`.
pub open spec fn u64_le(b: Seq<u8>, off: int) -> int {
    b[off] + 0x100 * b[off + 1] + 0x1_0000 * b[off + 2] + 0x100_0000 * b[off + 3]
        + 0x1_0000_0000 * b[off + 4] + 0x100_0000_0000 * b[off + 5]
        + 0x1_0000_0000_0000 * b[off + 6] + 0x100_0000_0000_0000 * b[off + 7]
}

/// The two's-complement reading of a 64-bit pattern.
pub open spec fn i64_of_bits(u: int) -> int {
    if u < 0x8000_0000_0000_0000 {
        u
    } else {
        u - 0x1_0000_0000_0000_0000
    }
}

/// The 64-bit pattern of a signed value (two's complement).
pub open spec fn bits_of_i64(v: int) -> int {
    if v >= 0 {
        v
    } else {
        v + 0x1_0000_0000_0000_0000
    }
}

/// The little-endian encoding of `v` (what `u16::to_le_bytes` gives).
pub open spec fn le_bytes_u16(v: u16) -> Seq<u8> {
    seq![(v & 0xff) as u8, ((v >> 8u16) & 0xff) as u8]
}

/// The little-endian encoding of `v` (what `u64::to_le_bytes` gives).
pub open spec fn le_bytes_u64(v: u64) -> Seq<u8> {
    seq![
        (v & 0xff) as u8,
        ((v >> 8u64) & 0xff) as u8,
        ((v >> 16u64) & 0xff) as u8,
        ((v >> 24u64) & 0xff) as u8,
        ((v >> 32u64) & 0xff) as u8,
        ((v >> 40u64) & 0xff) as u8,
        ((v >> 48u64) & 0xff) as u8,
        ((v >> 56u64) & 0xff) as u8,
    ]
}

/// The little-endian encoding of a signed value (what `i64::to_le_bytes` gives).
pub open spec fn le_bytes_i64(v: i64) -> Seq<u8> {
    le_bytes_u64(bits_of_i64(v as int) as u64)
}

/// `data` with the bytes at `off .. off + field.len()` replaced by `field`.
pub open spec fn splice(data: Seq<u8>, off: int, field: Seq<u8>) -> Seq<u8> {
    data.take(off) + field + data.skip(off + field.len())
}

/// Decoding the encoding of a `u64` gives the value back.
pub proof fn lemma_u64_encode_decode(v: u64)
    ensures
        u64_le(le_bytes_u64(v), 0) == v,
{
    let b = le_bytes_u64(v);
    assert(v == (v & 0xff) + 0x100 * ((v >> 8u64) & 0xff) + 0x1_0000 * ((v >> 16u64) & 0xff)
        + 0x100_0000 * ((v >> 24u64) & 0xff) + 0x1_0000_0000 * ((v >> 32u64) & 0xff)
        + 0x100_0000_0000 * ((v >> 40u64) & 0xff) + 0x1_0000_0000_0000 * ((v >> 48u64) & 0xff)
        + 0x100_0000_0000_0000 * ((v >> 56u64) & 0xff)) by (bit_vector);
    assert(((v & 0xff) as u8) as int == v & 0xff) by (bit_vector);
    assert((((v >> 8u64) & 0xff) as u8) as int == (v >> 8u64) & 0xff) by (bit_vector);
    assert((((v >> 16u64) & 0xff) as u8) as int == (v >> 16u64) & 0xff) by (bit_vector);
    assert((((v >> 24u64) & 0xff) as u8) as int == (v >> 24u64) & 0xff) by (bit_vector);
    assert((((v >> 32u64) & 0xff) as u8) as int == (v >> 32u64) & 0xff) by (bit_vector);
    assert((((v >> 40u64) & 0xff) as u8) as int == (v >> 40u64) & 0xff) by (bit_vector);
    assert((((v >> 48u64) & 0xff) as u8) as int == (v >> 48u64) & 0xff) by (bit_vector);
    assert((((v >> 56u64) & 0xff) as u8) as int == (v >> 56u64) & 0xff) by (bit_vector);
}

/// Encoding the value of eight bytes gives the same bytes back.
pub proof fn lemma_u64_decode_encode(b: Seq<u8>)
    requires
        b.len() == 8,
    ensures
        0 <= u64_le(b, 0) <= u64::MAX,
        le_bytes_u64(u64_le(b, 0) as u64) == b,
{
    let (b0, b1, b2, b3, b4, b5, b6, b7) = (b[0], b[1], b[2], b[3], b[4], b[5], b[6], b[7]);
    let v = u64_le(b, 0);
    assert(0 <= v <= u64::MAX);
    let w = v as u64;
    assert(w == b0 as u64 + 0x100 * (b1 as u64) + 0x1_0000 * (b2 as u64) + 0x100_0000 * (b3 as u64)
        + 0x1_0000_0000 * (b4 as u64) + 0x100_0000_0000 * (b5 as u64) + 0x1_0000_0000_0000 * (
    b6 as u64) + 0x100_0000_0000_0000 * (b7 as u64));
    assert(w == b0 as u64 + 0x100 * (b1 as u64) + 0x1_0000 * (b2 as u64) + 0x100_0000 * (b3 as u64)
        + 0x1_0000_0000 * (b4 as u64) + 0x100_0000_0000 * (b5 as u64) + 0x1_0000_0000_0000 * (
    b6 as u64) + 0x100_0000_0000_0000 * (b7 as u64) ==> {
        &&& (w & 0xff) as u8 == b0
        &&& ((w >> 8u64) & 0xff) as u8 == b1
        &&& ((w >> 16u64) & 0xff) as u8 == b2
        &&& ((w >> 24u64) & 0xff) as u8 == b3
        &&& ((w >> 32u64) & 0xff) as u8 == b4
        &&& ((w >> 40u64) & 0xff) as u8 == b5
        &&& ((w >> 48u64) & 0xff) as u8 == b6
        &&& ((w >> 56u64) & 0xff) as u8 == b7
    }) by (bit_vector);
    assert(le_bytes_u64(w) =~= b);
}

/// Decoding the encoding of a `u16` gives the value back.
pub proof fn lemma_u16_encode_decode(v: u16)
    ensures
        u16_le(le_bytes_u16(v), 0) == v,
{
    assert(v == (v & 0xff) + 0x100 * ((v >> 8u16) & 0xff)) by (bit_vector);
    assert(((v & 0xff) as u8) as int == v & 0xff) by (bit_vector);
    assert((((v >> 8u16) & 0xff) as u8) as int == (v >> 8u16) & 0xff) by (bit_vector);
}

/// The signed reading of the bits of a signed value is that value.
pub proof fn lemma_i64_bits_roundtrip(v: i64)
    ensures
        0 <= bits_of_i64(v as int) <= u64::MAX,
        i64_of_bits(bits_of_i64(v as int)) == v,
{
}

/// Reading a `u64` field right after writing it gives the written value,
/// and the bytes outside the field are those that were there before.
pub proof fn lemma_read_after_write_u64(data: Seq<u8>, off: int, v: u64)
    requires
        0 <= off,
        off + 8 <= data.len(),
    ensures
        splice(data, off, le_bytes_u64(v)).len() == data.len(),
        u64_le(splice(data, off, le_bytes_u64(v)), off) == v,
        forall|i: int|
            0 <= i < data.len() && !(off <= i < off + 8) ==> #[trigger] splice(
                data,
                off,
                le_bytes_u64(v),
            )[i] == data[i],
{
    lemma_u64_encode_decode(v);
    let s = splice(data, off, le_bytes_u64(v));
    let b = le_bytes_u64(v);
    assert(s[off] == b[0] && s[off + 1] == b[1] && s[off + 2] == b[2] && s[off + 3] == b[3]
        && s[off + 4] == b[4] && s[off + 5] == b[5] && s[off + 6] == b[6] && s[off + 7] == b[7]);
}

/// Eight bytes that encode a `u64` inside a larger sequence read back as
/// that value.
pub proof fn lemma_u64_field(s: Seq<u8>, off: int, v: u64)
    requires
        0 <= off,
        off + 8 <= s.len(),
        s.subrange(off, off + 8) == le_bytes_u64(v),
    ensures
        u64_le(s, off) == v,
{
    lemma_u64_encode_decode(v);
    let b = le_bytes_u64(v);
    assert(s[off] == b[0] && s[off + 1] == b[1] && s[off + 2] == b[2] && s[off + 3] == b[3]
        && s[off + 4] == b[4] && s[off + 5] == b[5] && s[off + 6] == b[6] && s[off + 7] == b[7]);
}

/// Reads the little-endian `u64` at `data[off .. off + 8]`.
pub fn read_u64_at(data: &[u8], off: usize) -> (r: u64)
    requires
        off + 8 <= data@.len(),
    ensures
        r == u64_le(data@, off as int),
{
    (data[off] as u64) + 0x100 * (data[off + 1] as u64) + 0x1_0000 * (data[off + 2] as u64)
        + 0x100_0000 * (data[off + 3] as u64) + 0x1_0000_0000 * (data[off + 4] as u64)
        + 0x100_0000_0000 * (data[off + 5] as u64) + 0x1_0000_0000_0000 * (data[off + 6] as u64)
        + 0x100_0000_0000_0000 * (data[off + 7] as u64)
}

/// Reads the little-endian `u16` at `data[off .. off + 2]`.
pub fn read_u16_at(data: &[u8], off: usize) -> (r: u16)
    requires
        off + 2 <= data@.len(),
    ensures
        r == u16_le(data@, off as int),
{
    (data[off] as u16) + 0x100 * (data[off + 1] as u16)
}

/// The signed value whose two's-complement bits are `u`.
pub fn i64_from_bits(u: u64) -> (r: i64)
    ensures
        r == i64_of_bits(u as int),
{
    if u <= 0x7fff_ffff_ffff_ffff {
        u as i64
    } else {
        let k: u64 = 0xffff_ffff_ffff_ffff - u;
        -(k as i64) - 1
    }
}

/// The two's-complement bits of `v`.
pub fn bits_from_i64(v: i64) -> (r: u64)
    ensures
        r == bits_of_i64(v as int),
{
    if v >= 0 {
        v as u64
    } else {
        let k: i64 = -(v + 1);
        0xffff_ffff_ffff_ffff - (k as u64)
    }
}

/// Reads the little-endian `i64` at `data[off .. off + 8]`.
pub fn read_i64_at(data: &[u8], off: usize) -> (r: i64)
    requires
        off + 8 <= data@.len(),
    ensures
        r == i64_of_bits(u64_le(data@, off as int)),
{
    i64_from_bits(read_u64_at(data, off))
}

/// Overwrites `data[off .. off + 8]` with the little-endian bytes of `v`.
pub fn write_u64_at(data: &mut Vec<u8>, off: usize, v: u64)
    requires
        off + 8 <= old(data)@.len(),
    ensures
        final(data)@ == splice(old(data)@, off as int, le_bytes_u64(v)),
{
    let ghost d0 = data@;
    let len = data.len();
    assert(off + 8 <= len);
    assert((v & 0xff) < 256 && ((v >> 8u64) & 0xff) < 256 && ((v >> 16u64) & 0xff) < 256 && ((v
        >> 24u64) & 0xff) < 256 && ((v >> 32u64) & 0xff) < 256 && ((v >> 40u64) & 0xff) < 256 && ((
    v >> 48u64) & 0xff) < 256 && ((v >> 56u64) & 0xff) < 256) by (bit_vector);
    data.set(off, (v & 0xff) as u8);
    data.set(off + 1, ((v >> 8u64) & 0xff) as u8);
    data.set(off + 2, ((v >> 16u64) & 0xff) as u8);
    data.set(off + 3, ((v >> 24u64) & 0xff) as u8);
    data.set(off + 4, ((v >> 32u64) & 0xff) as u8);
    data.set(off + 5, ((v >> 40u64) & 0xff) as u8);
    data.set(off + 6, ((v >> 48u64) & 0xff) as u8);
    data.set(off + 7, ((v >> 56u64) & 0xff) as u8);
    assert(data@ =~= splice(d0, off as int, le_bytes_u64(v)));
}

/// Overwrites `data[off .. off + 8]` with the little-endian bytes of `v`.
pub fn write_i64_at(data: &mut Vec<u8>, off: usize, v: i64)
    requires
        off + 8 <= old(data)@.len(),
    ensures
        final(data)@ == splice(old(data)@, off as int, le_bytes_i64(v)),
{
    write_u64_at(data, off, bits_from_i64(v));
}

/// Overwrites `data[off .. off + 2]` with the little-endian bytes of `v`.
pub fn write_u16_at(data: &mut Vec<u8>, off: usize, v: u16)
    requires
        off + 2 <= old(data)@.len(),
    ensures
        final(data)@ == splice(old(data)@, off as int, le_bytes_u16(v)),
{
    let ghost d0 = data@;
    let len = data.len();
    assert(off + 2 <= len);
    assert((v & 0xff) < 256 && ((v >> 8u16) & 0xff) < 256) by (bit_vector);
    data.set(off, (v & 0xff) as u8);
    data.set(off + 1, ((v >> 8u16) & 0xff) as u8);
    assert(data@ =~= splice(d0, off as int, le_bytes_u16(v)));
}

/// Overwrites `data[off .. off + bytes.len()]` with `bytes`.
pub fn write_bytes_at(data: &mut Vec<u8>, off: usize, bytes: &[u8])
    requires
        off + bytes@.len() <= old(data)@.len(),
    ensures
        final(data)@ == splice(old(data)@, off as int, bytes@),
{
    let ghost d0 = data@;
    let len = data.len();
    let n = bytes.len();
    let mut i: usize = 0;
    while i < n
        invariant
            n == bytes@.len(),
            off + n <= d0.len(),
            len == d0.len(),
            i <= n,
            data@.len() == d0.len(),
            forall|j: int| 0 <= j < off ==> data@[j] == d0[j],
            forall|j: int| off + n <= j < d0.len() ==> data@[j] == d0[j],
            forall|j: int| 0 <= j < i ==> #[trigger] data@[off + j] == bytes@[j],
            forall|j: int| i <= j < n ==> #[trigger] data@[off + j] == d0[off + j],
        decreases n - i,
    {
        data.set(off + i, bytes[i]);
        i = i + 1;
    }
    assert forall|j: int| 0 <= j < d0.len() implies data@[j] == splice(d0, off as int, bytes@)[j] by {
        if off <= j < off + n {
            assert(data@[off + (j - off)] == bytes@[j - off]);
        }
    }
    assert(data@ =~= splice(d0, off as int, bytes@));
}

/// A fresh vector holding the bytes of `data`.
pub fn copy_bytes(data: &[u8]) -> (r: Vec<u8>)
    ensures
        r@ == data@,
{
    let mut r: Vec<u8> = Vec::new();
    let n = data.len();
    let mut i: usize = 0;
    while i < n
        invariant
            n == data@.len(),
            i <= n,
            r@ == data@.take(i as int),
        decreases n - i,
    {
        r.push(data[i]);
        i = i + 1;
        assert(r@ =~= data@.take(i as int));
    }
    assert(data@.take(n as int) =~= data@);
    r
}

} // verus!
