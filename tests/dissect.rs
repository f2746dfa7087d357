use pspkit::dissect::{dissect_frame, NetworkSummary, TransportSummary, UdpSummary};

fn ether(ethertype: u16, payload: &[u8]) -> Vec<u8> {
    let mut f = vec![1, 2, 3, 4, 5, 6, 7, 8, 9, 10, 11, 12];
    f.extend_from_slice(&ethertype.to_be_bytes());
    f.extend_from_slice(payload);
    f
}

fn ipv4(protocol: u8, ihl: u8, total_length: u16, body: &[u8]) -> Vec<u8> {
    let mut p = vec![0x40 | ihl, 0];
    p.extend_from_slice(&total_length.to_be_bytes());
    p.extend_from_slice(&[0, 0, 0, 0, 64, protocol, 0, 0, 192, 168, 1, 1, 192, 168, 1, 2]);
    p.resize(usize::from(ihl) * 4, 0);
    p.extend_from_slice(body);
    p
}

#[test]
fn short_frame() {
    assert!(dissect_frame(&[0u8; 13]).is_none());
    let f = dissect_frame(&[0u8; 14]).unwrap();
    assert_eq!(f.length, 14);
    assert!(matches!(f.network, NetworkSummary::Other));
}

#[test]
fn ethernet_fields() {
    let f = dissect_frame(&ether(0x1234, &[9, 9])).unwrap();
    assert_eq!(f.destination, [1, 2, 3, 4, 5, 6]);
    assert_eq!(f.source, [7, 8, 9, 10, 11, 12]);
    assert_eq!(f.ethertype, 0x1234);
    assert_eq!(f.length, 16);
    assert!(matches!(f.network, NetworkSummary::Other));
    assert!(matches!(dissect_frame(&ether(0x0800, &[0; 19])).unwrap().network, NetworkSummary::Truncated));
    assert!(matches!(dissect_frame(&ether(0x86dd, &[0; 39])).unwrap().network, NetworkSummary::Truncated));
}

#[test]
fn ipv4_udp() {
    let udp = [0x27, 0x11, 0x27, 0x12, 0, 12, 0, 0, 0xaa, 0xbb, 0xcc, 0xdd];
    let f = dissect_frame(&ether(0x0800, &ipv4(17, 5, 32, &udp))).unwrap();
    match f.network {
        NetworkSummary::Ipv4 { source, destination, protocol, total_length, transport } => {
            assert_eq!(source, [192, 168, 1, 1]);
            assert_eq!(destination, [192, 168, 1, 2]);
            assert_eq!(protocol, 17);
            assert_eq!(total_length, 32);
            assert_eq!(
                transport,
                TransportSummary::Udp(UdpSummary {
                    source_port: 10001,
                    destination_port: 10002,
                    length: 12
                })
            );
        }
        _ => panic!("expected IPv4"),
    }
}

#[test]
fn ipv4_payload_bounds() {
    // Options make the header 24 bytes; the total length cuts off trailing bytes.
    let f = dissect_frame(&ether(0x0800, &ipv4(6, 6, 30, &[0; 20]))).unwrap();
    match f.network {
        NetworkSummary::Ipv4 { transport, .. } => {
            assert_eq!(transport, TransportSummary::Other { protocol: 6, length: 6 })
        }
        _ => panic!("expected IPv4"),
    }
    let f = dissect_frame(&ether(0x0800, &ipv4(17, 5, 24, &[0; 4]))).unwrap();
    match f.network {
        NetworkSummary::Ipv4 { transport, .. } => assert_eq!(transport, TransportSummary::MalformedUdp),
        _ => panic!("expected IPv4"),
    }
}

#[test]
fn ipv6_other() {
    let mut p = vec![0x60, 0, 0, 0, 0, 3, 58, 64];
    p.extend((0u8..32).collect::<Vec<u8>>());
    p.extend_from_slice(&[1, 2, 3, 4, 5]);
    let f = dissect_frame(&ether(0x86dd, &p)).unwrap();
    match f.network {
        NetworkSummary::Ipv6 { source, destination, next_header, length, transport } => {
            assert_eq!(source[0], 0);
            assert_eq!(source[15], 15);
            assert_eq!(destination[0], 16);
            assert_eq!(next_header, 58);
            assert_eq!(length, 45);
            assert_eq!(transport, TransportSummary::Other { protocol: 58, length: 3 });
        }
        _ => panic!("expected IPv6"),
    }
}
