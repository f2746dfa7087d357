//! What an Ethernet frame carries: its addresses and EtherType and, for IPv4
//! and IPv6, the network header and a UDP header inside it.
//!
//! Offsets and payload bounds are those of the packet views of the `pnet`
//! crate: an Ethernet header of 14 bytes, an IPv4 header of at least 20
//! (its length field in 4-byte words), an IPv6 header of 40, a UDP header of 8.
use vstd::prelude::*;
use vstd::slice::slice_subrange;
use crate::dns::be_u16_at;

verus! {

pub const ETHERTYPE_IPV4: u16 = 0x0800;

pub const ETHERTYPE_IPV6: u16 = 0x86dd;

pub const IP_PROTOCOL_UDP: u8 = 17;

#[derive(Clone, Copy, Debug, PartialEq, Eq, Structural)]
pub struct UdpSummary {
    pub source_port: u16,
    pub destination_port: u16,
    pub length: u16,
}

/// What an IP packet carries.
#[derive(Clone, Copy, Debug, PartialEq, Eq, Structural)]
pub enum TransportSummary {
    Udp(UdpSummary),
    /// UDP, but shorter than a UDP header.
    MalformedUdp,
    /// Another protocol, with the length of what the IP packet carries.
    Other { protocol: u8, length: usize },
}

/// What an Ethernet frame carries.
#[derive(Clone, Copy, Debug)]
pub enum NetworkSummary {
    Ipv4 {
        source: [u8; 4],
        destination: [u8; 4],
        protocol: u8,
        total_length: u16,
        transport: TransportSummary,
    },
    Ipv6 {
        source: [u8; 16],
        destination: [u8; 16],
        next_header: u8,
        /// Length of the IPv6 packet as the frame holds it.
        length: usize,
        transport: TransportSummary,
    },
    /// The EtherType names IPv4 or IPv6 but the frame is too short for that header.
    Truncated,
    /// Another EtherType.
    Other,
}

#[derive(Clone, Copy, Debug)]
pub struct FrameSummary {
    pub destination: [u8; 6],
    pub source: [u8; 6],
    pub ethertype: u16,
    /// Length of the whole frame.
    pub length: usize,
    pub network: NetworkSummary,
}

/// The part of IPv4 packet `p` after its header, as far as its total length
/// says and `p` holds.
pub open spec fn ipv4_payload(p: Seq<u8>) -> Seq<u8> {
    let hlen = (p[0] % 16) * 4;
    let start = if hlen > 20 { hlen } else { 20 };
    let plen = if be_u16_at(p, 2) > hlen { be_u16_at(p, 2) - hlen } else { 0 };
    let end = if start + plen < p.len() { start + plen } else { p.len() as int };
    if p.len() <= start {
        Seq::empty()
    } else {
        p.subrange(start, end)
    }
}

/// The part of IPv6 packet `p` after its header, as far as its payload length
/// says and `p` holds.
pub open spec fn ipv6_payload(p: Seq<u8>) -> Seq<u8> {
    let end = if 40 + be_u16_at(p, 4) < p.len() { 40 + be_u16_at(p, 4) } else { p.len() as int };
    if p.len() <= 40 {
        Seq::empty()
    } else {
        p.subrange(40, end)
    }
}

/// What `payload` carries for IP protocol number `protocol`.
pub open spec fn spec_transport(protocol: u8, payload: Seq<u8>) -> TransportSummary {
    if protocol == IP_PROTOCOL_UDP {
        if payload.len() >= 8 {
            TransportSummary::Udp(
                UdpSummary {
                    source_port: be_u16_at(payload, 0),
                    destination_port: be_u16_at(payload, 2),
                    length: be_u16_at(payload, 4),
                },
            )
        } else {
            TransportSummary::MalformedUdp
        }
    } else {
        TransportSummary::Other { protocol, length: payload.len() as usize }
    }
}

/// Whether `n` is what the Ethernet payload `p` of EtherType `ethertype` carries.
pub open spec fn network_of(n: NetworkSummary, ethertype: u16, p: Seq<u8>) -> bool {
    if ethertype == ETHERTYPE_IPV4 {
        if p.len() < 20 {
            n is Truncated
        } else {
            &&& n matches NetworkSummary::Ipv4 { source, destination, protocol, total_length, transport }
            &&& source@ == p.subrange(12, 16)
            &&& destination@ == p.subrange(16, 20)
            &&& protocol == p[9]
            &&& total_length == be_u16_at(p, 2)
            &&& transport == spec_transport(p[9], ipv4_payload(p))
        }
    } else if ethertype == ETHERTYPE_IPV6 {
        if p.len() < 40 {
            n is Truncated
        } else {
            &&& n matches NetworkSummary::Ipv6 { source, destination, next_header, length, transport }
            &&& source@ == p.subrange(8, 24)
            &&& destination@ == p.subrange(24, 40)
            &&& next_header == p[6]
            &&& length == p.len()
            &&& transport == spec_transport(p[6], ipv6_payload(p))
        }
    } else {
        n is Other
    }
}

fn read_u16(b: &[u8], at: usize) -> (v: u16)
    requires
        at + 2 <= b@.len(),
    ensures
        v == be_u16_at(b@, at as int),
{
    (b[at] as u16) * 256 + (b[at + 1] as u16)
}

fn transport(protocol: u8, payload: &[u8]) -> (t: TransportSummary)
    ensures
        t == spec_transport(protocol, payload@),
{
    if protocol == IP_PROTOCOL_UDP {
        if payload.len() >= 8 {
            TransportSummary::Udp(
                UdpSummary {
                    source_port: read_u16(payload, 0),
                    destination_port: read_u16(payload, 2),
                    length: read_u16(payload, 4),
                },
            )
        } else {
            TransportSummary::MalformedUdp
        }
    } else {
        TransportSummary::Other { protocol, length: payload.len() }
    }
}

fn ipv4_payload_of(p: &[u8]) -> (r: &[u8])
    requires
        p@.len() >= 20,
    ensures
        r@ == ipv4_payload(p@),
{
    let hlen: usize = ((p[0] % 16) as usize) * 4;
    let start: usize = if hlen > 20 { hlen } else { 20 };
    let total = read_u16(p, 2) as usize;
    let plen: usize = if total > hlen { total - hlen } else { 0 };
    if p.len() <= start {
        return slice_subrange(p, 0, 0);
    }
    let end: usize = if plen < p.len() - start { start + plen } else { p.len() };
    slice_subrange(p, start, end)
}

fn ipv6_payload_of(p: &[u8]) -> (r: &[u8])
    requires
        p@.len() >= 40,
    ensures
        r@ == ipv6_payload(p@),
{
    if p.len() <= 40 {
        return slice_subrange(p, 0, 0);
    }
    let plen = read_u16(p, 4) as usize;
    let end: usize = if plen < p.len() - 40 { 40 + plen } else { p.len() };
    slice_subrange(p, 40, end)
}

/// Dissects an Ethernet frame; `None` when it is shorter than an Ethernet header.
pub fn dissect_frame(frame: &[u8]) -> (r: Option<FrameSummary>)
    ensures
        r is None <==> frame@.len() < 14,
        r matches Some(f) ==> {
            &&& f.destination@ == frame@.subrange(0, 6)
            &&& f.source@ == frame@.subrange(6, 12)
            &&& f.ethertype == be_u16_at(frame@, 12)
            &&& f.length == frame@.len()
            &&& network_of(f.network, f.ethertype, frame@.subrange(14, frame@.len() as int))
        },
{
    if frame.len() < 14 {
        return None;
    }
    let b = frame;
    let destination = [b[0], b[1], b[2], b[3], b[4], b[5]];
    let source = [b[6], b[7], b[8], b[9], b[10], b[11]];
    let ethertype = read_u16(b, 12);
    let p = slice_subrange(b, 14, b.len());
    let network = if ethertype == ETHERTYPE_IPV4 {
        if p.len() < 20 {
            NetworkSummary::Truncated
        } else {
            let protocol = p[9];
            NetworkSummary::Ipv4 {
                source: [p[12], p[13], p[14], p[15]],
                destination: [p[16], p[17], p[18], p[19]],
                protocol,
                total_length: read_u16(p, 2),
                transport: transport(protocol, ipv4_payload_of(p)),
            }
        }
    } else if ethertype == ETHERTYPE_IPV6 {
        if p.len() < 40 {
            NetworkSummary::Truncated
        } else {
            let next_header = p[6];
            NetworkSummary::Ipv6 {
                source: [
                    p[8], p[9], p[10], p[11], p[12], p[13], p[14], p[15], p[16], p[17], p[18],
                    p[19], p[20], p[21], p[22], p[23],
                ],
                destination: [
                    p[24], p[25], p[26], p[27], p[28], p[29], p[30], p[31], p[32], p[33], p[34],
                    p[35], p[36], p[37], p[38], p[39],
                ],
                next_header,
                length: p.len(),
                transport: transport(next_header, ipv6_payload_of(p)),
            }
        }
    } else {
        NetworkSummary::Other
    };
    let f = FrameSummary { destination, source, ethertype, length: b.len(), network };
    assert(f.destination@ =~= frame@.subrange(0, 6));
    assert(f.source@ =~= frame@.subrange(6, 12));
    proof {
        match f.network {
            NetworkSummary::Ipv4 { source, destination, .. } => {
                assert(source@ =~= p@.subrange(12, 16));
                assert(destination@ =~= p@.subrange(16, 20));
            },
            NetworkSummary::Ipv6 { source, destination, .. } => {
                assert(source@ =~= p@.subrange(8, 24));
                assert(destination@ =~= p@.subrange(24, 40));
            },
            _ => {},
        }
    }
    Some(f)
}

} // verus!
