//! Tunnelling an Ethernet frame: an IPv4 header goes in between the
//! Ethernet header and what the frame carries.
use vstd::prelude::*;
use vstd::slice::slice_subrange;

verus! {

/// Time to live of the tunnel header.
pub const TUNNEL_TTL: u8 = 32;

/// IP protocol number of IPv4 carried in IPv4.
pub const IP_PROTOCOL_IPV4: u8 = 4;

/// Largest payload an IPv4 header without options can announce.
pub const MAX_IPV4_PAYLOAD: u16 = 65515;

/// The checksum that etherparse computes over an IPv4 header whose checksum
/// bytes are zero.
pub uninterp spec fn ipv4_checksum(header: Seq<u8>) -> u16;

/// The bytes of an IPv4 header without options, with its checksum bytes zero:
/// version 4, header length 5 words, no DSCP or ECN, identification 0,
/// "don't fragment" set, fragment offset 0.
pub open spec fn ipv4_header_unsummed(
    payload_len: u16,
    ttl: u8,
    protocol: u8,
    source: Seq<u8>,
    destination: Seq<u8>,
) -> Seq<u8> {
    let total = payload_len + 20;
    seq![0x45u8, 0, (total / 256) as u8, (total % 256) as u8, 0, 0, 0x40, 0, ttl, protocol, 0, 0]
        + source + destination
}

/// The same header with its checksum in place.
pub open spec fn ipv4_header(
    payload_len: u16,
    ttl: u8,
    protocol: u8,
    source: Seq<u8>,
    destination: Seq<u8>,
) -> Seq<u8> {
    let h = ipv4_header_unsummed(payload_len, ttl, protocol, source, destination);
    with_checksum(h, ipv4_checksum(h))
}

/// Header bytes `h` with checksum `c` put in bytes 10 and 11.
pub open spec fn with_checksum(h: Seq<u8>, c: u16) -> Seq<u8> {
    h.update(10, (c / 256) as u8).update(11, (c % 256) as u8)
}

/// Relies on etherparse's `Ipv4Header::new` written with `Ipv4Header::write`:
/// the 20 header bytes with the checksum computed, or an error when the
/// payload length leaves no room for the header in 16 bits.
#[verifier::external_body]
fn write_ipv4_header(
    payload_len: u16,
    ttl: u8,
    protocol: u8,
    source: [u8; 4],
    destination: [u8; 4],
) -> (r: Option<Vec<u8>>)
    ensures
        r is Some <==> payload_len <= MAX_IPV4_PAYLOAD,
        r matches Some(h) ==> h@ == with_checksum(
            ipv4_header_unsummed(payload_len, ttl, protocol, source@, destination@),
            ipv4_checksum(ipv4_header_unsummed(payload_len, ttl, protocol, source@, destination@)),
        ),
{
    let header = etherparse::Ipv4Header::new(payload_len, ttl, protocol, source, destination);
    let mut out = Vec::with_capacity(20);
    header.write(&mut out).ok().map(|_| out)
}

/// The payload length that the tunnel header announces for a frame of `len`
/// bytes: what follows the Ethernet header, kept to 16 bits.
pub open spec fn tunnel_payload_len(len: nat) -> u16 {
    ((len - 14) % 0x10000) as u16
}

/// The frame with `header` put after its 14-byte Ethernet header.
pub fn insert_header(pkt: &[u8], header: &[u8]) -> (out: Vec<u8>)
    requires
        pkt@.len() >= 14,
    ensures
        out@ == pkt@.subrange(0, 14) + header@ + pkt@.subrange(14, pkt@.len() as int),
{
    let mut out: Vec<u8> = Vec::new();
    let mut i: usize = 0;
    while i < 14
        invariant
            i <= 14 <= pkt@.len(),
            out@ == pkt@.subrange(0, i as int),
        decreases 14 - i,
    {
        out.push(pkt[i]);
        assert(out@ =~= pkt@.subrange(0, i + 1));
        i = i + 1;
    }
    let ghost head = out@;
    let mut j: usize = 0;
    while j < header.len()
        invariant
            j <= header@.len(),
            out@ == head + header@.subrange(0, j as int),
        decreases header@.len() - j,
    {
        out.push(header[j]);
        assert(out@ =~= head + header@.subrange(0, j + 1));
        j = j + 1;
    }
    assert(header@.subrange(0, j as int) =~= header@);
    let ghost mid = out@;
    let rest = slice_subrange(pkt, 14, pkt.len());
    let mut k: usize = 0;
    while k < rest.len()
        invariant
            k <= rest@.len(),
            out@ == mid + rest@.subrange(0, k as int),
        decreases rest@.len() - k,
    {
        out.push(rest[k]);
        assert(out@ =~= mid + rest@.subrange(0, k + 1));
        k = k + 1;
    }
    assert(rest@.subrange(0, k as int) =~= rest@);
    out
}

/// The frame with an IPv4 header from 192.168.10.2 to 192.168.20.2 put after
/// its Ethernet header. `None` when the frame is shorter than an Ethernet
/// header, or carries more than an IPv4 packet can.
pub fn encap_pkt(pkt: &[u8]) -> (r: Option<Vec<u8>>)
    ensures
        r is Some <==> pkt@.len() >= 14 && tunnel_payload_len(pkt@.len()) <= MAX_IPV4_PAYLOAD,
        r matches Some(out) ==> out@ == pkt@.subrange(0, 14) + ipv4_header(
            tunnel_payload_len(pkt@.len()),
            TUNNEL_TTL,
            IP_PROTOCOL_IPV4,
            seq![192u8, 168, 10, 2],
            seq![192u8, 168, 20, 2],
        ) + pkt@.subrange(14, pkt@.len() as int),
{
    if pkt.len() < 14 {
        return None;
    }
    let payload_len = ((pkt.len() - 14) % 0x10000) as u16;
    let source: [u8; 4] = [192, 168, 10, 2];
    let destination: [u8; 4] = [192, 168, 20, 2];
    assert(source@ =~= seq![192u8, 168, 10, 2]);
    assert(destination@ =~= seq![192u8, 168, 20, 2]);
    let header = match write_ipv4_header(payload_len, TUNNEL_TTL, IP_PROTOCOL_IPV4, source, destination) {
        Some(h) => h,
        None => {
            return None;
        },
    };
    Some(insert_header(pkt, header.as_slice()))
}

} // verus!
