//! Settings of a security association as a configuration file gives them.
use vstd::prelude::*;
use vstd::string::*;
use crate::number::{lemma_parse_uint_bounded, parse_uint, spec_parse_uint, IntError};
use crate::text::{chars_of, line_len, substring, trim, trim_bounds};

verus! {

/// Encapsulation mode.
#[derive(Clone, Copy, Debug, PartialEq, Eq, Structural)]
pub enum PspEncap {
    Transport,
    Tunnel,
}

/// Cipher used on the payload.
#[derive(Clone, Copy, Debug, PartialEq, Eq, Structural)]
pub enum CryptoAlg {
    AesGcm128,
    AesGcm256,
}

impl Default for PspEncap {
    fn default() -> (e: PspEncap)
        ensures
            e == PspEncap::Transport,
    {
        PspEncap::Transport
    }
}

impl Default for CryptoAlg {
    fn default() -> (a: CryptoAlg)
        ensures
            a == CryptoAlg::AesGcm256,
    {
        CryptoAlg::AesGcm256
    }
}


#[verifier::external_type_specification]
#[verifier::external_body]
pub struct ExFromHexError(hex::FromHexError);

/// The value of an ASCII hex digit of either case.
pub open spec fn hex_value(c: u8) -> Option<u8> {
    if 0x30 <= c <= 0x39 {
        Some((c - 0x30) as u8)
    } else if 0x41 <= c <= 0x46 {
        Some((c - 0x41 + 10) as u8)
    } else if 0x61 <= c <= 0x66 {
        Some((c - 0x61 + 10) as u8)
    } else {
        None
    }
}

/// Whether `h` is hex text: an even number of hex digits.
pub open spec fn hex_ok(h: Seq<u8>) -> bool {
    h.len() % 2 == 0 && forall|i: int| 0 <= i < h.len() ==> (#[trigger] hex_value(h[i])) is Some
}

/// The bytes that hex text `h` writes, two digits each, the high half first.
pub open spec fn hex_bytes(h: Seq<u8>) -> Seq<u8> {
    Seq::new(
        h.len() / 2,
        |i: int| (hex_value(h[2 * i])->0 * 16 + hex_value(h[2 * i + 1])->0) as u8,
    )
}

/// Relies on `hex::decode`: it fails on an odd length or on a byte that is no
/// hex digit, and else returns one byte for each two digits.
#[verifier::external_body]
fn hex_decode(h: &Vec<u8>) -> (r: Result<Vec<u8>, hex::FromHexError>)
    ensures
        r is Ok <==> hex_ok(h@),
        r matches Ok(b) ==> b@ == hex_bytes(h@),
{
    hex::decode(h)
}

/// The upper-case hex digit of a value below 16.
pub open spec fn upper_hex_digit(v: u8) -> char {
    if v < 10 {
        ('0' as u8 + v) as char
    } else {
        ('A' as u8 + v - 10) as char
    }
}

/// Two upper-case hex digits for a byte.
pub open spec fn byte_text(b: u8) -> Seq<char> {
    seq![upper_hex_digit(b / 16), upper_hex_digit(b % 16)]
}

/// Relies on std's `format!` with `{:02X}`: a byte as two upper-case hex digits.
#[verifier::external_body]
fn hex_byte_text(b: u8) -> (r: String)
    ensures
        r@ == byte_text(b),
{
    format!("{:02X}", b)
}

/// The bytes of `k` written in hex, two digits each, separated by spaces.
pub open spec fn key_text(k: Seq<u8>) -> Seq<char>
    decreases k.len(),
{
    if k.len() == 0 {
        Seq::empty()
    } else if k.len() == 1 {
        byte_text(k[0])
    } else {
        key_text(k.drop_last()) + seq![' '] + byte_text(k.last())
    }
}

/// The key written in hex, two upper-case digits per byte, with a space
/// between each two bytes.
pub fn key_to_string(key: &[u8]) -> (r: String)
    ensures
        r@ == key_text(key@),
{
    let mut out = String::new();
    let mut i: usize = 0;
    while i < key.len()
        invariant
            i <= key@.len(),
            out@ == key_text(key@.take(i as int)),
        decreases key@.len() - i,
    {
        if i > 0 {
            proof {
                reveal_strlit(" ");
            }
            out.append(" ");
        }
        let piece = hex_byte_text(key[i]);
        out.append(piece.as_str());
        proof {
            assert(key@.take(i + 1).drop_last() =~= key@.take(i as int));
        }
        i = i + 1;
    }
    assert(key@.take(i as int) =~= key@);
    out
}

/// The bytes `b` with every space (0x20) left out.
pub open spec fn without_spaces(b: Seq<u8>) -> Seq<u8>
    decreases b.len(),
{
    if b.len() == 0 {
        Seq::empty()
    } else if b.last() == 0x20 {
        without_spaces(b.drop_last())
    } else {
        without_spaces(b.drop_last()).push(b.last())
    }
}

/// The hex text of a key line: its UTF-8 bytes without the spaces.
pub open spec fn key_digits(line: Seq<char>) -> Seq<u8> {
    without_spaces(vstd::utf8::encode_utf8(line))
}

/// Which line of a configuration a value comes from.
#[derive(Clone, Copy, Debug, PartialEq, Eq, Structural)]
pub enum CfgItem {
    Key1,
    Key2,
    Spi,
    Mode,
    Algorithm,
    TransportCryptOffset,
    Ipv4TunnelCryptOffset,
    Ipv6TunnelCryptOffset,
    Vc,
}

/// Why a configuration could not be read.
#[derive(Clone, Copy, Debug, PartialEq, Eq, Structural)]
pub enum CfgError {
    /// The text ends before the line of this item.
    Missing(CfgItem),
    /// A key line is not hex text.
    BadKey,
    /// The SPI line is not a hex number that fits 32 bits.
    BadSpi(IntError),
    /// The line of this offset is not a decimal number that fits 8 bits.
    BadOffset(CfgItem, IntError),
}

/// Reads a master key: hex digits, spaces anywhere between them ignored.
pub fn parse_key(line: &str) -> (r: Result<Vec<u8>, CfgError>)
    ensures
        r is Ok <==> hex_ok(key_digits(line@)),
        r matches Ok(k) ==> k@ == hex_bytes(key_digits(line@)),
        r matches Err(e) ==> e == CfgError::BadKey,
{
    let bytes = line.as_bytes();
    let ghost b = bytes@;
    proof {
        assert(b == vstd::utf8::encode_utf8(line@));
    }
    let mut digits: Vec<u8> = Vec::new();
    let mut i: usize = 0;
    while i < bytes.len()
        invariant
            i <= b.len(),
            b == bytes@,
            digits@ == without_spaces(b.take(i as int)),
        decreases b.len() - i,
    {
        proof {
            assert(b.take(i + 1).drop_last() =~= b.take(i as int));
        }
        if bytes[i] != 0x20 {
            digits.push(bytes[i]);
        }
        i = i + 1;
    }
    assert(b.take(i as int) =~= b);
    match hex_decode(&digits) {
        Ok(k) => Ok(k),
        Err(_) => Err(CfgError::BadKey),
    }
}

/// Reads a security-parameter index written in hex.
pub fn parse_spi(line: &str) -> (r: Result<u32, CfgError>)
    ensures
        r == match spec_parse_uint(line@, 16, 0xffff_ffff) {
            Ok(v) => Ok::<u32, CfgError>(v as u32),
            Err(e) => Err::<u32, CfgError>(CfgError::BadSpi(e)),
        },
{
    let v = chars_of(line);
    assert(v@.subrange(0, v@.len() as int) =~= line@);
    proof {
        lemma_parse_uint_bounded(line@, 16, 0xffff_ffff);
    }
    match parse_uint(&v, 0, v.len(), 16, 0xffff_ffff) {
        Ok(n) => Ok(n as u32),
        Err(ie) => Err(CfgError::BadSpi(ie)),
    }
}


/// The pieces of `s` from index `start` on, as `str::split('\n')` gives
/// them: split at each `'\n'`, with a last piece after a final newline.
pub open spec fn pieces_from(s: Seq<char>, start: int) -> Seq<Seq<char>>
    decreases s.len() - start,
{
    if start < 0 || start > s.len() {
        Seq::empty()
    } else if start + line_len(s, start) >= s.len() {
        seq![s.subrange(start, s.len() as int)]
    } else {
        seq![s.subrange(start, start + line_len(s, start))] + pieces_from(
            s,
            start + line_len(s, start) + 1,
        )
    }
}

/// The lines of a configuration text, each trimmed.
pub open spec fn cfg_lines(s: Seq<char>) -> Seq<Seq<char>> {
    pieces_from(s, 0).map_values(|p: Seq<char>| trim(p))
}

/// The first line of `l` that is missing or does not read, in the order in
/// which the lines are read; `None` when all of them read.
pub open spec fn cfg_error(l: Seq<Seq<char>>) -> Option<CfgError> {
    if l.len() < 1 {
        Some(CfgError::Missing(CfgItem::Key1))
    } else if !hex_ok(key_digits(l[0])) {
        Some(CfgError::BadKey)
    } else if l.len() < 2 {
        Some(CfgError::Missing(CfgItem::Key2))
    } else if !hex_ok(key_digits(l[1])) {
        Some(CfgError::BadKey)
    } else if l.len() < 3 {
        Some(CfgError::Missing(CfgItem::Spi))
    } else if spec_parse_uint(l[2], 16, 0xffff_ffff) is Err {
        Some(CfgError::BadSpi(spec_parse_uint(l[2], 16, 0xffff_ffff)->Err_0))
    } else if l.len() < 4 {
        Some(CfgError::Missing(CfgItem::Mode))
    } else if l.len() < 5 {
        Some(CfgError::Missing(CfgItem::Algorithm))
    } else if l.len() < 6 {
        Some(CfgError::Missing(CfgItem::TransportCryptOffset))
    } else if spec_parse_uint(l[5], 10, 255) is Err {
        Some(
            CfgError::BadOffset(
                CfgItem::TransportCryptOffset,
                spec_parse_uint(l[5], 10, 255)->Err_0,
            ),
        )
    } else if l.len() < 7 {
        Some(CfgError::Missing(CfgItem::Ipv4TunnelCryptOffset))
    } else if spec_parse_uint(l[6], 10, 255) is Err {
        Some(
            CfgError::BadOffset(
                CfgItem::Ipv4TunnelCryptOffset,
                spec_parse_uint(l[6], 10, 255)->Err_0,
            ),
        )
    } else if l.len() < 8 {
        Some(CfgError::Missing(CfgItem::Ipv6TunnelCryptOffset))
    } else if spec_parse_uint(l[7], 10, 255) is Err {
        Some(
            CfgError::BadOffset(
                CfgItem::Ipv6TunnelCryptOffset,
                spec_parse_uint(l[7], 10, 255)->Err_0,
            ),
        )
    } else if l.len() < 9 {
        Some(CfgError::Missing(CfgItem::Vc))
    } else {
        None
    }
}

/// The settings that a configuration text gives, line by line: two master
/// keys in hex, the SPI in hex, the mode, the algorithm, three crypt offsets
/// in decimal, and `vc` or anything else for the VC setting.
pub struct CfgSettings {
    pub key1: Vec<u8>,
    pub key2: Vec<u8>,
    pub spi: u32,
    pub mode: String,
    pub algorithm: String,
    pub transport_crypt_off: u8,
    pub ipv4_tunnel_crypt_off: u8,
    pub ipv6_tunnel_crypt_off: u8,
    pub vc: bool,
}

/// Bounds of the trimmed pieces of `v`, as `cfg_lines` gives them.
fn trimmed_pieces(v: &Vec<char>) -> (r: Vec<(usize, usize)>)
    ensures
        r@.len() == cfg_lines(v@).len(),
        forall|i: int|
            #![trigger r@[i]]
            0 <= i < r@.len() ==> r@[i].0 <= r@[i].1 <= v@.len() && v@.subrange(
                r@[i].0 as int,
                r@[i].1 as int,
            ) == cfg_lines(v@)[i],
{
    let ghost s = v@;
    let n = v.len();
    let mut out: Vec<(usize, usize)> = Vec::new();
    let ghost mut done: Seq<Seq<char>> = Seq::empty();
    let mut start: usize = 0;
    loop
        invariant_except_break
            pieces_from(s, 0) == done + pieces_from(s, start as int),
        invariant
            s == v@,
            n == s.len(),
            start <= n,
            out@.len() == done.len(),
            forall|i: int|
                #![trigger out@[i]]
                0 <= i < out@.len() ==> out@[i].0 <= out@[i].1 <= n && s.subrange(
                    out@[i].0 as int,
                    out@[i].1 as int,
                ) == trim(done[i]),
        ensures
            pieces_from(s, 0) == done,
        decreases n - start,
    {
        let mut e = start;
        while e < n && v[e] != '\n'
            invariant
                start <= e <= n,
                s == v@,
                n == s.len(),
                line_len(s, start as int) == (e - start) + line_len(s, e as int),
            decreases n - e,
        {
            e = e + 1;
        }
        assert(line_len(s, e as int) == 0);
        let (a, b) = trim_bounds(v, start, e);
        let ghost old_out = out@;
        let ghost old_done = done;
        out.push((a, b));
        proof {
            let piece = s.subrange(start as int, e as int);
            assert(pieces_from(s, 0) =~= done.push(piece) + pieces_from(
                s,
                if e < n { e + 1 } else { n + 1 },
            ));
            done = done.push(piece);
            assert forall|i: int|
                #![trigger out@[i]]
                0 <= i < out@.len() implies out@[i].0 <= out@[i].1 <= n && s.subrange(
                    out@[i].0 as int,
                    out@[i].1 as int,
                ) == trim(done[i]) by {
                if i < old_out.len() {
                    assert(out@[i] == old_out[i]);
                    assert(done[i] == old_done[i]);
                }
            }
        }
        if e >= n {
            assert(pieces_from(s, 0) =~= done);
            break;
        }
        start = e + 1;
    }
    proof {
        assert(cfg_lines(s).len() == done.len());
        assert forall|i: int|
            #![trigger out@[i]]
            0 <= i < out@.len() implies out@[i].0 <= out@[i].1 <= v@.len() && v@.subrange(
                out@[i].0 as int,
                out@[i].1 as int,
            ) == cfg_lines(v@)[i] by {
            assert(cfg_lines(s)[i] == trim(done[i]));
        }
    }
    out
}

/// Reads the settings from the text of a configuration file. Fails on the
/// first line, in reading order, that is missing or does not read.
pub fn parse_cfg(contents: &str) -> (r: Result<CfgSettings, CfgError>)
    ensures
        r matches Err(e) ==> cfg_error(cfg_lines(contents@)) == Some(e),
        r is Ok <==> cfg_error(cfg_lines(contents@)) is None,
        r matches Ok(c) ==> {
            let l = cfg_lines(contents@);
            &&& c.key1@ == hex_bytes(key_digits(l[0]))
            &&& c.key2@ == hex_bytes(key_digits(l[1]))
            &&& c.spi as nat == spec_parse_uint(l[2], 16, 0xffff_ffff)->Ok_0
            &&& c.mode@ == l[3]
            &&& c.algorithm@ == l[4]
            &&& c.transport_crypt_off as nat == spec_parse_uint(l[5], 10, 255)->Ok_0
            &&& c.ipv4_tunnel_crypt_off as nat == spec_parse_uint(l[6], 10, 255)->Ok_0
            &&& c.ipv6_tunnel_crypt_off as nat == spec_parse_uint(l[7], 10, 255)->Ok_0
            &&& c.vc == (l[8] == seq!['v', 'c'])
        },
{
    let v = chars_of(contents);
    let lines = trimmed_pieces(&v);
    let ghost l = cfg_lines(contents@);
    let n = lines.len();
    if n < 1 {
        return Err(CfgError::Missing(CfgItem::Key1));
    }
    let key1 = match parse_key(substring(contents, &v, lines[0].0, lines[0].1).as_str()) {
        Ok(k) => k,
        Err(e) => {
            return Err(e);
        },
    };
    if n < 2 {
        return Err(CfgError::Missing(CfgItem::Key2));
    }
    let key2 = match parse_key(substring(contents, &v, lines[1].0, lines[1].1).as_str()) {
        Ok(k) => k,
        Err(e) => {
            return Err(e);
        },
    };
    if n < 3 {
        return Err(CfgError::Missing(CfgItem::Spi));
    }
    proof {
        lemma_parse_uint_bounded(l[2], 16, 0xffff_ffff);
    }
    let spi = match parse_uint(&v, lines[2].0, lines[2].1, 16, 0xffff_ffff) {
        Ok(x) => x as u32,
        Err(e) => {
            return Err(CfgError::BadSpi(e));
        },
    };
    if n < 4 {
        return Err(CfgError::Missing(CfgItem::Mode));
    }
    let mode = substring(contents, &v, lines[3].0, lines[3].1);
    if n < 5 {
        return Err(CfgError::Missing(CfgItem::Algorithm));
    }
    let algorithm = substring(contents, &v, lines[4].0, lines[4].1);
    if n < 6 {
        return Err(CfgError::Missing(CfgItem::TransportCryptOffset));
    }
    proof {
        lemma_parse_uint_bounded(l[5], 10, 255);
    }
    let transport_crypt_off = match parse_uint(&v, lines[5].0, lines[5].1, 10, 255) {
        Ok(x) => x as u8,
        Err(e) => {
            return Err(CfgError::BadOffset(CfgItem::TransportCryptOffset, e));
        },
    };
    if n < 7 {
        return Err(CfgError::Missing(CfgItem::Ipv4TunnelCryptOffset));
    }
    proof {
        lemma_parse_uint_bounded(l[6], 10, 255);
    }
    let ipv4_tunnel_crypt_off = match parse_uint(&v, lines[6].0, lines[6].1, 10, 255) {
        Ok(x) => x as u8,
        Err(e) => {
            return Err(CfgError::BadOffset(CfgItem::Ipv4TunnelCryptOffset, e));
        },
    };
    if n < 8 {
        return Err(CfgError::Missing(CfgItem::Ipv6TunnelCryptOffset));
    }
    proof {
        lemma_parse_uint_bounded(l[7], 10, 255);
    }
    let ipv6_tunnel_crypt_off = match parse_uint(&v, lines[7].0, lines[7].1, 10, 255) {
        Ok(x) => x as u8,
        Err(e) => {
            return Err(CfgError::BadOffset(CfgItem::Ipv6TunnelCryptOffset, e));
        },
    };
    if n < 9 {
        return Err(CfgError::Missing(CfgItem::Vc));
    }
    let (a, b) = lines[8];
    let vc = b - a == 2 && v[a] == 'v' && v[a + 1] == 'c';
    proof {
        if vc {
            assert(l[8] =~= seq!['v', 'c']);
        } else if l[8] == seq!['v', 'c'] {
            assert(l[8] == v@.subrange(a as int, b as int));
            assert(seq!['v', 'c'].len() == 2 && seq!['v', 'c'][0] == 'v' && seq!['v', 'c'][1] == 'c');
            assert(l[8].len() == b - a);
            assert(v@.subrange(a as int, b as int)[0] == v@[a as int]);
            assert(v@.subrange(a as int, b as int)[1] == v@[a + 1]);
        }
    }
    Ok(
        CfgSettings {
            key1,
            key2,
            spi,
            mode,
            algorithm,
            transport_crypt_off,
            ipv4_tunnel_crypt_off,
            ipv6_tunnel_crypt_off,
            vc,
        },
    )
}

} // verus!
