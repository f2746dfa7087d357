//! The 16-byte header record and its wire codec.
//!
//! Wire layout (offset, size): `next_hdr` 0/1, `hdr_ext_len` 1/1, `crypt_off`
//! 2/1, flags 3/1, `spi` 4/4 big-endian, `iv` 8/8 big-endian.
use vstd::prelude::*;
use crate::flags::{Flags, DEFAULT_FLAGS};

verus! {

/// Length in bytes of an encoded header.
pub const HEADER_LEN: usize = 16;

/// The fixed part of a packet header.
#[derive(Clone, Copy, Debug, PartialEq, Eq, Structural)]
pub struct PspHeader {
    /// Protocol number of the header or payload that follows.
    pub next_hdr: u8,
    /// Number of 4-byte words that follow the 16 mandatory header bytes.
    pub hdr_ext_len: u8,
    /// Offset, in 4-byte words, into the payload where encryption starts.
    pub crypt_off: u8,
    /// The S, D, version, VC and R sub-fields.
    pub flags: Flags,
    /// Security-parameter index.
    pub spi: u32,
    /// Initialization vector.
    pub iv: u64,
}

/// The header versions defined so far; versions 4 to 15 fit the field but are reserved.
#[derive(Clone, Copy, Debug, PartialEq, Eq, Structural)]
pub enum PspVersion {
    PspVer0,
    PspVer1,
    PspVer2,
    PspVer3,
}

/// Why a buffer could not be decoded.
#[derive(Clone, Copy, Debug, PartialEq, Eq, Structural)]
pub enum CodecError {
    /// The buffer holds fewer than 16 bytes.
    TooShort,
}

/// The record with every field at its default value.
pub open spec fn default_header() -> PspHeader {
    PspHeader { next_hdr: 0, hdr_ext_len: 0, crypt_off: 0, flags: Flags(0x80), spi: 0, iv: 0 }
}

/// Big-endian bytes of a 32-bit value.
pub open spec fn be_bytes_u32(x: u32) -> Seq<u8> {
    seq![
        ((x >> 24) & 0xff) as u8,
        ((x >> 16) & 0xff) as u8,
        ((x >> 8) & 0xff) as u8,
        (x & 0xff) as u8,
    ]
}

/// Big-endian bytes of a 64-bit value.
pub open spec fn be_bytes_u64(x: u64) -> Seq<u8> {
    seq![
        ((x >> 56) & 0xff) as u8,
        ((x >> 48) & 0xff) as u8,
        ((x >> 40) & 0xff) as u8,
        ((x >> 32) & 0xff) as u8,
        ((x >> 24) & 0xff) as u8,
        ((x >> 16) & 0xff) as u8,
        ((x >> 8) & 0xff) as u8,
        (x & 0xff) as u8,
    ]
}

/// The 32-bit value whose big-endian bytes are `b[at..at + 4]`.
pub open spec fn be_u32_at(b: Seq<u8>, at: int) -> u32 {
    ((b[at] as u32) << 24) | ((b[at + 1] as u32) << 16) | ((b[at + 2] as u32) << 8) | (b[at
        + 3] as u32)
}

/// The 64-bit value whose big-endian bytes are `b[at..at + 8]`.
pub open spec fn be_u64_at(b: Seq<u8>, at: int) -> u64 {
    ((b[at] as u64) << 56) | ((b[at + 1] as u64) << 48) | ((b[at + 2] as u64) << 40) | ((b[at
        + 3] as u64) << 32) | ((b[at + 4] as u64) << 24) | ((b[at + 5] as u64) << 16) | ((b[at
        + 6] as u64) << 8) | (b[at + 7] as u64)
}

/// The 16 wire bytes of a header.
pub open spec fn spec_encode(h: PspHeader) -> Seq<u8> {
    seq![h.next_hdr, h.hdr_ext_len, h.crypt_off, h.flags.0] + be_bytes_u32(h.spi) + be_bytes_u64(
        h.iv,
    )
}

/// The header held in the first 16 bytes of `b`.
pub open spec fn spec_decode(b: Seq<u8>) -> PspHeader {
    PspHeader {
        next_hdr: b[0],
        hdr_ext_len: b[1],
        crypt_off: b[2],
        flags: Flags(b[3]),
        spi: be_u32_at(b, 4),
        iv: be_u64_at(b, 8),
    }
}

proof fn lemma_be_u32(x: u32)
    ensures
        be_u32_at(be_bytes_u32(x), 0) == x,
{
    let b = be_bytes_u32(x);
    let (b0, b1, b2, b3) = (b[0], b[1], b[2], b[3]);
    assert(((b0 as u32) << 24) | ((b1 as u32) << 16) | ((b2 as u32) << 8) | (b3 as u32) == x)
        by (bit_vector)
        requires
            b0 == ((x >> 24) & 0xff) as u8,
            b1 == ((x >> 16) & 0xff) as u8,
            b2 == ((x >> 8) & 0xff) as u8,
            b3 == (x & 0xff) as u8,
    ;
}

proof fn lemma_be_u64(x: u64)
    ensures
        be_u64_at(be_bytes_u64(x), 0) == x,
{
    let b = be_bytes_u64(x);
    let (b0, b1, b2, b3, b4, b5, b6, b7) = (b[0], b[1], b[2], b[3], b[4], b[5], b[6], b[7]);
    assert(((b0 as u64) << 56) | ((b1 as u64) << 48) | ((b2 as u64) << 40) | ((b3 as u64) << 32)
        | ((b4 as u64) << 24) | ((b5 as u64) << 16) | ((b6 as u64) << 8) | (b7 as u64) == x)
        by (bit_vector)
        requires
            b0 == ((x >> 56) & 0xff) as u8,
            b1 == ((x >> 48) & 0xff) as u8,
            b2 == ((x >> 40) & 0xff) as u8,
            b3 == ((x >> 32) & 0xff) as u8,
            b4 == ((x >> 24) & 0xff) as u8,
            b5 == ((x >> 16) & 0xff) as u8,
            b6 == ((x >> 8) & 0xff) as u8,
            b7 == (x & 0xff) as u8,
    ;
}

proof fn lemma_bytes_be_u32(b0: u8, b1: u8, b2: u8, b3: u8)
    ensures
        be_bytes_u32(be_u32_at(seq![b0, b1, b2, b3], 0)) == seq![b0, b1, b2, b3],
{
    let x = be_u32_at(seq![b0, b1, b2, b3], 0);
    assert(((x >> 24) & 0xff) as u8 == b0 && ((x >> 16) & 0xff) as u8 == b1 && ((x >> 8)
        & 0xff) as u8 == b2 && (x & 0xff) as u8 == b3) by (bit_vector)
        requires
            x == ((b0 as u32) << 24) | ((b1 as u32) << 16) | ((b2 as u32) << 8) | (b3 as u32),
    ;
    assert(be_bytes_u32(x) =~= seq![b0, b1, b2, b3]);
}

proof fn lemma_bytes_be_u64(b: Seq<u8>)
    requires
        b.len() == 8,
    ensures
        be_bytes_u64(be_u64_at(b, 0)) == b,
{
    let x = be_u64_at(b, 0);
    let (b0, b1, b2, b3, b4, b5, b6, b7) = (b[0], b[1], b[2], b[3], b[4], b[5], b[6], b[7]);
    assert(((x >> 56) & 0xff) as u8 == b0 && ((x >> 48) & 0xff) as u8 == b1 && ((x >> 40)
        & 0xff) as u8 == b2 && ((x >> 32) & 0xff) as u8 == b3 && ((x >> 24) & 0xff) as u8 == b4
        && ((x >> 16) & 0xff) as u8 == b5 && ((x >> 8) & 0xff) as u8 == b6 && (x & 0xff) as u8
        == b7) by (bit_vector)
        requires
            x == ((b0 as u64) << 56) | ((b1 as u64) << 48) | ((b2 as u64) << 40) | ((b3 as u64)
                << 32) | ((b4 as u64) << 24) | ((b5 as u64) << 16) | ((b6 as u64) << 8) | (b7
                as u64),
    ;
    assert(be_bytes_u64(x) =~= b);
}

/// Decoding the encoding of any header gives back that header.
pub proof fn lemma_decode_encode(h: PspHeader)
    ensures
        spec_encode(h).len() == HEADER_LEN,
        spec_decode(spec_encode(h)) == h,
{
    let e = spec_encode(h);
    lemma_be_u32(h.spi);
    lemma_be_u64(h.iv);
    assert(e.subrange(4, 8) =~= be_bytes_u32(h.spi));
    assert(e.subrange(8, 16) =~= be_bytes_u64(h.iv));
    assert(be_u32_at(e, 4) == be_u32_at(e.subrange(4, 8), 0));
    assert(be_u64_at(e, 8) == be_u64_at(e.subrange(8, 16), 0));
}

/// Encoding the header decoded from any 16 bytes gives back those bytes:
/// every 16-byte buffer is the encoding of exactly one header.
pub proof fn lemma_encode_decode(b: Seq<u8>)
    requires
        b.len() == HEADER_LEN,
    ensures
        spec_encode(spec_decode(b)) == b,
{
    let h = spec_decode(b);
    lemma_bytes_be_u32(b[4], b[5], b[6], b[7]);
    lemma_bytes_be_u64(b.subrange(8, 16));
    assert(be_u32_at(b, 4) == be_u32_at(seq![b[4], b[5], b[6], b[7]], 0));
    assert(be_u64_at(b, 8) == be_u64_at(b.subrange(8, 16), 0));
    assert(spec_encode(h) =~= b);
}

impl PspVersion {
    /// The number that the version field holds for this version.
    pub fn as_u8(&self) -> (v: u8)
        ensures
            v == match self {
                PspVersion::PspVer0 => 0u8,
                PspVersion::PspVer1 => 1u8,
                PspVersion::PspVer2 => 2u8,
                PspVersion::PspVer3 => 3u8,
            },
    {
        match self {
            PspVersion::PspVer0 => 0,
            PspVersion::PspVer1 => 1,
            PspVersion::PspVer2 => 2,
            PspVersion::PspVer3 => 3,
        }
    }
}

impl PspHeader {
    /// The 16 wire bytes of this header.
    pub fn encode(&self) -> (out: [u8; 16])
        ensures
            out@ == spec_encode(*self),
    {
        let spi = self.spi;
        let iv = self.iv;
        let out: [u8; 16] = [
            self.next_hdr,
            self.hdr_ext_len,
            self.crypt_off,
            self.flags.0,
            ((spi >> 24) & 0xff) as u8,
            ((spi >> 16) & 0xff) as u8,
            ((spi >> 8) & 0xff) as u8,
            (spi & 0xff) as u8,
            ((iv >> 56) & 0xff) as u8,
            ((iv >> 48) & 0xff) as u8,
            ((iv >> 40) & 0xff) as u8,
            ((iv >> 32) & 0xff) as u8,
            ((iv >> 24) & 0xff) as u8,
            ((iv >> 16) & 0xff) as u8,
            ((iv >> 8) & 0xff) as u8,
            (iv & 0xff) as u8,
        ];
        assert(out@ =~= spec_encode(*self));
        out
    }

    /// Reads a header from the first 16 bytes of `buf`; further bytes are
    /// not looked at. Fails only when `buf` is shorter than 16 bytes.
    pub fn decode(buf: &[u8]) -> (r: Result<PspHeader, CodecError>)
        ensures
            buf@.len() < HEADER_LEN ==> r == Err::<PspHeader, CodecError>(CodecError::TooShort),
            buf@.len() >= HEADER_LEN ==> r == Ok::<PspHeader, CodecError>(spec_decode(buf@)),
    {
        if buf.len() < HEADER_LEN {
            return Err(CodecError::TooShort);
        }
        let spi: u32 = ((buf[4] as u32) << 24) | ((buf[5] as u32) << 16) | ((buf[6] as u32) << 8)
            | (buf[7] as u32);
        let iv: u64 = ((buf[8] as u64) << 56) | ((buf[9] as u64) << 48) | ((buf[10] as u64) << 40)
            | ((buf[11] as u64) << 32) | ((buf[12] as u64) << 24) | ((buf[13] as u64) << 16) | ((
        buf[14] as u64) << 8) | (buf[15] as u64);
        Ok(
            PspHeader {
                next_hdr: buf[0],
                hdr_ext_len: buf[1],
                crypt_off: buf[2],
                flags: Flags(buf[3]),
                spi,
                iv,
            },
        )
    }
}

impl Default for PspHeader {
    fn default() -> (h: PspHeader)
        ensures
            h == default_header(),
    {
        PspHeader {
            next_hdr: 0,
            hdr_ext_len: 0,
            crypt_off: 0,
            flags: Flags(DEFAULT_FLAGS),
            spi: 0,
            iv: 0,
        }
    }
}

} // verus!
