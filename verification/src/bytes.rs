//! Little-endian byte images and in-place byte replacement.

use vstd::prelude::*;

verus! {

/// Little-endian bytes of the low 16 bits of `v`.
pub open spec fn le16(v: int) -> Seq<u8> {
    seq![(v % 256) as u8, ((v / 256) % 256) as u8]
}

/// Little-endian bytes of the low 32 bits of `v`.
pub open spec fn le32(v: int) -> Seq<u8> {
    seq![(v % 256) as u8, ((v / 256) % 256) as u8, ((v / 65536) % 256) as u8, ((v / 16777216) % 256) as u8]
}

/// Two's-complement little-endian bytes of a 16-bit signed value.
pub open spec fn le16_signed(v: int) -> Seq<u8> {
    le16(if v < 0 { v + 65536 } else { v })
}

/// The value of four little-endian bytes.
pub open spec fn read_le32(b: Seq<u8>) -> int {
    b[0] + 256 * b[1] + 65536 * b[2] + 16777216 * b[3]
}

/// The value of two little-endian bytes.
pub open spec fn read_le16(b: Seq<u8>) -> int {
    b[0] + 256 * b[1]
}

/// `buf` with the bytes from `at` on replaced by `b`.
#[verifier::opaque]
pub open spec fn splice(buf: Seq<u8>, at: int, b: Seq<u8>) -> Seq<u8> {
    buf.take(at) + b + buf.skip(at + b.len())
}

/// A splice inside the buffer keeps its length.
pub broadcast proof fn lemma_splice_len(buf: Seq<u8>, at: int, b: Seq<u8>)
    requires
        0 <= at,
        at + b.len() <= buf.len(),
    ensures
        #[trigger] splice(buf, at, b).len() == buf.len(),
{
    reveal(splice);
}

/// `n` zero bytes.
pub open spec fn zeros(n: nat) -> Seq<u8> {
    Seq::new(n, |i: int| 0u8)
}


/// Reading back a splice: the spliced range holds the new bytes, and any
/// range apart from it holds what it held before.
pub broadcast proof fn lemma_splice_read(buf: Seq<u8>, at: int, b: Seq<u8>, lo: int, hi: int)
    ensures
        (0 <= at && at + b.len() <= buf.len() && lo == at && hi == at + b.len())
            ==> #[trigger] splice(buf, at, b).subrange(lo, hi) == b,
        (0 <= at && at + b.len() <= buf.len() && 0 <= lo <= hi <= buf.len() && (hi <= at || at + b.len() <= lo))
            ==> splice(buf, at, b).subrange(lo, hi) == buf.subrange(lo, hi),
{
    reveal(splice);
    if 0 <= at && at + b.len() <= buf.len() && lo == at && hi == at + b.len() {
        assert(splice(buf, at, b).subrange(lo, hi) =~= b);
    }
    if 0 <= at && at + b.len() <= buf.len() && 0 <= lo <= hi <= buf.len() && (hi <= at || at + b.len() <= lo) {
        assert(splice(buf, at, b).subrange(lo, hi) =~= buf.subrange(lo, hi));
    }
}

/// Four little-endian bytes read back give the 32-bit value written.
pub proof fn lemma_le32_roundtrip(v: int)
    requires
        0 <= v <= u32::MAX,
    ensures
        read_le32(le32(v)) == v,
{
    let x = v as u32;
    assert(x % 256 + 256 * ((x / 256) % 256) + 65536 * ((x / 65536) % 256) + 16777216 * ((x / 16777216) % 256) == x) by (nonlinear_arith)
        requires x <= u32::MAX;
}

/// Two little-endian bytes read back give the 16-bit value written.
pub proof fn lemma_le16_roundtrip(v: int)
    requires
        0 <= v <= u16::MAX,
    ensures
        read_le16(le16(v)) == v,
{
}

} // verus!
