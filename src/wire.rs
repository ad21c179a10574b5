//! Little-endian integers and UTF-8 text on byte sequences.
use scroll::{Pread, Pwrite, LE};
use vstd::prelude::*;
use vstd::utf8::{decode_utf8, valid_utf8};

verus! {

/// The 16-bit value stored little-endian at `b[i]`, `b[i + 1]`.
pub open spec fn u16_at(b: Seq<u8>, i: int) -> u16 {
    (b[i] + b[i + 1] * 256) as u16
}

/// The 32-bit value stored little-endian at `b[i]` .. `b[i + 3]`.
pub open spec fn u32_at(b: Seq<u8>, i: int) -> u32 {
    (b[i] + b[i + 1] * 0x100 + b[i + 2] * 0x1_0000 + b[i + 3] * 0x100_0000) as u32
}

/// The two bytes of `v`, least significant first.
pub open spec fn le16(v: u16) -> Seq<u8> {
    seq![(v % 0x100) as u8, (v / 0x100) as u8]
}

/// The four bytes of `v`, least significant first.
pub open spec fn le32(v: u32) -> Seq<u8> {
    seq![
        (v % 0x100) as u8,
        (v / 0x100 % 0x100) as u8,
        (v / 0x1_0000 % 0x100) as u8,
        (v / 0x100_0000) as u8,
    ]
}

/// Relies on scroll's `Pread::pread_with::<u16>` on a byte slice with `LE`:
/// it fails when fewer than two bytes follow `off`, and otherwise reads
/// those two bytes least significant first.
#[verifier::external_body]
pub(crate) fn read_u16_le(b: &[u8], off: usize) -> (r: Option<u16>)
    ensures
        r.is_some() == (off + 2 <= b@.len()),
        r matches Some(v) ==> v == u16_at(b@, off as int),
{
    let r: Result<u16, scroll::Error> = b.pread_with(off, LE);
    r.ok()
}

/// Relies on scroll's `Pread::pread_with::<u32>` on a byte slice with `LE`:
/// it fails when fewer than four bytes follow `off`, and otherwise reads
/// those four bytes least significant first.
#[verifier::external_body]
pub(crate) fn read_u32_le(b: &[u8], off: usize) -> (r: Option<u32>)
    ensures
        r.is_some() == (off + 4 <= b@.len()),
        r matches Some(v) ==> v == u32_at(b@, off as int),
{
    let r: Result<u32, scroll::Error> = b.pread_with(off, LE);
    r.ok()
}

/// Relies on scroll's `Pwrite::pwrite_with::<u16>` with `LE` into a
/// two-byte buffer, which has room for it: the bytes of `v`, least
/// significant first.
#[verifier::external_body]
pub(crate) fn u16_le_bytes(v: u16) -> (r: Vec<u8>)
    ensures
        r@ == le16(v),
{
    let mut b = [0u8; 2];
    let _n: Result<usize, scroll::Error> = b.pwrite_with(v, 0, LE);
    b.to_vec()
}

/// Relies on scroll's `Pwrite::pwrite_with::<u32>` with `LE` into a
/// four-byte buffer, which has room for it: the bytes of `v`, least
/// significant first.
#[verifier::external_body]
pub(crate) fn u32_le_bytes(v: u32) -> (r: Vec<u8>)
    ensures
        r@ == le32(v),
{
    let mut b = [0u8; 4];
    let _n: Result<usize, scroll::Error> = b.pwrite_with(v, 0, LE);
    b.to_vec()
}

/// Relies on `std::str::from_utf8`: it accepts exactly the well-formed UTF-8
/// byte sequences, and the text it returns is the one those bytes encode.
#[verifier::external_body]
pub(crate) fn utf8_text(b: &[u8]) -> (r: Option<String>)
    ensures
        r.is_some() == valid_utf8(b@),
        r matches Some(s) ==> s@ == decode_utf8(b@),
{
    std::str::from_utf8(b).ok().map(String::from)
}

/// Appends `src` to `out`.
pub fn append(out: &mut Vec<u8>, src: &[u8])
    ensures
        final(out)@ == old(out)@ + src@,
{
    let mut i: usize = 0;
    while i < src.len()
        invariant
            i <= src@.len(),
            out@ == old(out)@ + src@.subrange(0, i as int),
        decreases src@.len() - i,
    {
        out.push(src[i]);
        i += 1;
        assert(src@.subrange(0, i as int) == src@.subrange(0, i - 1) + seq![src@[i - 1]]);
    }
    assert(src@.subrange(0, i as int) == src@);
}

} // verus!
