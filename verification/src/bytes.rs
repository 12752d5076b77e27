//! Fixed-width integers as byte strings, in both byte orders.

use vstd::prelude::*;

verus! {

/// The two bytes of `v`, most significant first.
pub open spec fn be16_bytes(v: u16) -> Seq<u8> {
    seq![(v / 256) as u8, (v % 256) as u8]
}

/// The two bytes of `v`, least significant first.
pub open spec fn le16_bytes(v: u16) -> Seq<u8> {
    seq![(v % 256) as u8, (v / 256) as u8]
}

/// The 16-bit value whose most significant byte is `hi`.
pub open spec fn be16(hi: u8, lo: u8) -> u16 {
    (hi as int * 256 + lo as int) as u16
}

/// The value of the first four bytes of `s`, least significant first.
pub open spec fn le32(s: Seq<u8>) -> int
    recommends
        s.len() >= 4,
{
    s[0] as int + s[1] as int * 0x100 + s[2] as int * 0x1_0000 + s[3] as int * 0x100_0000
}

/// The four bytes of `v`, least significant first.
pub open spec fn le32_bytes(v: u32) -> Seq<u8> {
    seq![
        (v % 256) as u8,
        (v / 0x100 % 256) as u8,
        (v / 0x1_0000 % 256) as u8,
        (v / 0x100_0000) as u8,
    ]
}

/// The value of the first eight bytes of `s`, most significant first.
pub open spec fn be64(s: Seq<u8>) -> int
    recommends
        s.len() >= 8,
{
    s[0] as int * 0x100_0000_0000_0000 + s[1] as int * 0x1_0000_0000_0000 + s[2] as int
        * 0x100_0000_0000 + s[3] as int * 0x1_0000_0000 + s[4] as int * 0x100_0000 + s[5] as int
        * 0x1_0000 + s[6] as int * 0x100 + s[7] as int
}

/// The eight bytes of `v`, most significant first.
pub open spec fn be64_bytes(v: u64) -> Seq<u8> {
    seq![
        (v / 0x100_0000_0000_0000) as u8,
        (v / 0x1_0000_0000_0000 % 256) as u8,
        (v / 0x100_0000_0000 % 256) as u8,
        (v / 0x1_0000_0000 % 256) as u8,
        (v / 0x100_0000 % 256) as u8,
        (v / 0x1_0000 % 256) as u8,
        (v / 0x100 % 256) as u8,
        (v % 256) as u8,
    ]
}

/// A run of 16-bit words as bytes, each word most significant byte first.
pub open spec fn words_be(words: Seq<u16>) -> Seq<u8> {
    Seq::new(
        2 * words.len(),
        |i: int|
            if i % 2 == 0 {
                (words[i / 2] / 256) as u8
            } else {
                (words[i / 2] % 256) as u8
            },
    )
}

/// A run of 16-bit words as bytes, each word least significant byte first.
pub open spec fn words_le(words: Seq<u16>) -> Seq<u8> {
    Seq::new(
        2 * words.len(),
        |i: int|
            if i % 2 == 0 {
                (words[i / 2] % 256) as u8
            } else {
                (words[i / 2] / 256) as u8
            },
    )
}

/// Every pair of bytes exchanged; a trailing single byte stays.
pub open spec fn swap_byte_pairs(s: Seq<u8>) -> Seq<u8> {
    Seq::new(
        s.len(),
        |i: int|
            if i % 2 == 1 {
                s[i - 1]
            } else if i + 1 < s.len() {
                s[i + 1]
            } else {
                s[i]
            },
    )
}

/// Reading back the bytes of a 32-bit value gives the value.
pub proof fn lemma_le32_of_bytes(v: u32)
    ensures
        le32(le32_bytes(v)) == v,
        le32_bytes(v).len() == 4,
{
}

/// Exchanging the bytes of each word turns one byte order into the other.
pub proof fn lemma_swap_words(words: Seq<u16>)
    ensures
        swap_byte_pairs(words_le(words)) == words_be(words),
        swap_byte_pairs(words_be(words)) == words_le(words),
{
    assert(swap_byte_pairs(words_le(words)) =~= words_be(words));
    assert(swap_byte_pairs(words_be(words)) =~= words_le(words));
}

/// Combines two bytes, most significant first.
pub fn u16_from_be(hi: u8, lo: u8) -> (v: u16)
    ensures
        v == be16(hi, lo),
        be16_bytes(v) == seq![hi, lo],
{
    let v: u16 = (hi as u16) * 256 + (lo as u16);
    assert(be16_bytes(v) =~= seq![hi, lo]);
    v
}

/// Combines two bytes, least significant first.
pub fn u16_from_le(lo: u8, hi: u8) -> (v: u16)
    ensures
        v == be16(hi, lo),
        le16_bytes(v) == seq![lo, hi],
{
    let v: u16 = (hi as u16) * 256 + (lo as u16);
    assert(le16_bytes(v) =~= seq![lo, hi]);
    v
}

/// Reads a 32-bit value from the first four bytes, least significant first.
pub fn u32_from_le(s: &[u8]) -> (v: u32)
    requires
        s@.len() >= 4,
    ensures
        v == le32(s@),
{
    (s[0] as u32) + (s[1] as u32) * 0x100 + (s[2] as u32) * 0x1_0000 + (s[3] as u32) * 0x100_0000
}

/// Reads a 64-bit value from the first eight bytes, most significant first.
pub fn u64_from_be(s: &[u8]) -> (v: u64)
    requires
        s@.len() >= 8,
    ensures
        v == be64(s@),
{
    (s[0] as u64) * 0x100_0000_0000_0000 + (s[1] as u64) * 0x1_0000_0000_0000 + (s[2] as u64)
        * 0x100_0000_0000 + (s[3] as u64) * 0x1_0000_0000 + (s[4] as u64) * 0x100_0000 + (
    s[5] as u64) * 0x1_0000 + (s[6] as u64) * 0x100 + (s[7] as u64)
}

/// Appends the eight bytes of `v`, most significant first.
pub fn push_u64_be(out: &mut Vec<u8>, v: u64)
    ensures
        final(out)@ == old(out)@ + be64_bytes(v),
{
    out.push((v / 0x100_0000_0000_0000) as u8);
    out.push((v / 0x1_0000_0000_0000 % 256) as u8);
    out.push((v / 0x100_0000_0000 % 256) as u8);
    out.push((v / 0x1_0000_0000 % 256) as u8);
    out.push((v / 0x100_0000 % 256) as u8);
    out.push((v / 0x1_0000 % 256) as u8);
    out.push((v / 0x100 % 256) as u8);
    out.push((v % 256) as u8);
    assert(out@ =~= old(out)@ + be64_bytes(v));
}

/// Appends the two bytes of `v`, most significant first.
pub fn push_u16_be(out: &mut Vec<u8>, v: u16)
    ensures
        final(out)@ == old(out)@ + be16_bytes(v),
{
    out.push((v / 256) as u8);
    out.push((v % 256) as u8);
    assert(out@ =~= old(out)@ + be16_bytes(v));
}

} // verus!
