use pspkit::dns::{DnsHeader, DnsQuestion, ParseError};

#[test]
fn test_dns_pkt_hdr_parse() {
    let mut dns: Vec<u8> = Vec::new();
    dns.extend_from_slice(&40500u16.to_be_bytes());
    dns.extend_from_slice(&288u16.to_be_bytes());
    dns.extend_from_slice(&1u16.to_be_bytes());
    dns.extend_from_slice(&0u16.to_be_bytes());
    dns.extend_from_slice(&0u16.to_be_bytes());
    dns.extend_from_slice(&1u16.to_be_bytes());

    let expected = DnsHeader {
        id: 40500,
        flags: 288,
        qdcount: 1,
        ancount: 0,
        nscount: 0,
        arcount: 1,
    };

    let (dnshdr, size) = DnsHeader::parse(&dns).unwrap();
    assert_eq!(dnshdr, expected);
    assert_eq!(size, dns.len());
}

#[test]
fn test_dns_question_parse() {
    let buf = b"\x03www\x06google\x03com\x00\x12\x34\x56\x78";
    let (qd, size) = DnsQuestion::parse(buf).unwrap();
    assert_eq!(size, 20);
    assert_eq!(qd.name, "www.google.com");
    assert_eq!(qd.qtype, 0x1234);
    assert_eq!(qd.qclass, 0x5678);
}

#[test]
fn dns_header_too_short() {
    assert_eq!(DnsHeader::parse(&[0u8; 11]), Err(ParseError::InvalidHeader));
    assert_eq!(DnsHeader::parse(&[]), Err(ParseError::InvalidHeader));
}

#[test]
fn dns_question_root_name() {
    let (qd, size) = DnsQuestion::parse(b"\x00\x00\x01\x00\x01\xff").unwrap();
    assert_eq!(qd.name, "");
    assert_eq!(qd.qtype, 1);
    assert_eq!(qd.qclass, 1);
    assert_eq!(size, 5);
}

#[test]
fn dns_question_malformed() {
    assert!(DnsQuestion::parse(b"").is_err());
    assert!(DnsQuestion::parse(b"\x05ab").is_err());
    assert!(DnsQuestion::parse(b"\x01a\x00\x00\x01\x00").is_err());
    assert!(matches!(DnsQuestion::parse(b"\x01\xff\x00\x00\x01\x00\x01"), Err(ParseError::InvalidQuestion)));
}
