//! Little-endian integers on the wire, read and written by the `byteorder`
//! crate.

use vstd::prelude::*;
use byteorder::{ByteOrder, LittleEndian};

verus! {

/// The number that the first four bytes of `b` spell, least significant byte
/// first.
pub open spec fn le_u32(b: Seq<u8>) -> int
    recommends
        b.len() >= 4,
{
    b[0] as int + 0x100 * (b[1] as int) + 0x1_0000 * (b[2] as int) + 0x100_0000 * (b[3] as int)
}

/// The number that the first two bytes of `b` spell, least significant byte
/// first.
pub open spec fn le_u16(b: Seq<u8>) -> int
    recommends
        b.len() >= 2,
{
    b[0] as int + 0x100 * (b[1] as int)
}

/// The four bytes of `n`, least significant first.
pub open spec fn u32_le_bytes(n: u32) -> Seq<u8> {
    seq![
        (n % 0x100) as u8,
        (n / 0x100 % 0x100) as u8,
        (n / 0x1_0000 % 0x100) as u8,
        (n / 0x100_0000) as u8,
    ]
}

/// The two bytes of `n`, least significant first.
pub open spec fn u16_le_bytes(n: u16) -> Seq<u8> {
    seq![(n % 0x100) as u8, (n / 0x100) as u8]
}

/// Reading back the four bytes written for `n` gives `n`.
pub proof fn lemma_u32_round_trip(n: u32)
    ensures
        u32_le_bytes(n).len() == 4,
        le_u32(u32_le_bytes(n)) == n,
{
}

/// Reading back the two bytes written for `n` gives `n`.
pub proof fn lemma_u16_round_trip(n: u16)
    ensures
        u16_le_bytes(n).len() == 2,
        le_u16(u16_le_bytes(n)) == n,
{
}

/// Trusted: `byteorder::LittleEndian::read_u32`. It takes the first four
/// bytes of `buf` as a little-endian `u32` and panics on a shorter buffer,
/// which the precondition excludes.
#[verifier::external_body]
pub(crate) fn read_u32(buf: &[u8]) -> (n: u32)
    requires
        buf@.len() >= 4,
    ensures
        n as int == le_u32(buf@),
{
    LittleEndian::read_u32(buf)
}

/// Trusted: `byteorder::LittleEndian::read_u16`. It takes the first two
/// bytes of `buf` as a little-endian `u16` and panics on a shorter buffer,
/// which the precondition excludes.
#[verifier::external_body]
pub(crate) fn read_u16(buf: &[u8]) -> (n: u16)
    requires
        buf@.len() >= 2,
    ensures
        n as int == le_u16(buf@),
{
    LittleEndian::read_u16(buf)
}

/// Trusted: `byteorder::LittleEndian::write_u32` on a fresh buffer of four
/// bytes, which it fills with `n`, least significant byte first.
#[verifier::external_body]
pub(crate) fn u32_bytes(n: u32) -> (out: [u8; 4])
    ensures
        out@ == u32_le_bytes(n),
{
    let mut out = [0u8; 4];
    LittleEndian::write_u32(&mut out, n);
    out
}

/// Trusted: `byteorder::LittleEndian::write_u16` on a fresh buffer of two
/// bytes, which it fills with `n`, least significant byte first.
#[verifier::external_body]
pub(crate) fn u16_bytes(n: u16) -> (out: [u8; 2])
    ensures
        out@ == u16_le_bytes(n),
{
    let mut out = [0u8; 2];
    LittleEndian::write_u16(&mut out, n);
    out
}

} // verus!
