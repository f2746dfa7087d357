use pspkit::encap::{encap_pkt, insert_header};

fn checksum_ok(h: &[u8]) -> bool {
    let mut sum: u32 = 0;
    for w in h.chunks(2) {
        sum += u32::from(u16::from_be_bytes([w[0], w[1]]));
    }
    while sum > 0xffff {
        sum = (sum & 0xffff) + (sum >> 16);
    }
    sum == 0xffff
}

#[test]
fn header_goes_after_ethernet() {
    assert_eq!(insert_header(&[1u8; 16], &[7, 8]), {
        let mut v = vec![1u8; 14];
        v.extend_from_slice(&[7, 8, 1, 1]);
        v
    });
}

#[test]
fn tunnel_header_fields() {
    let mut frame: Vec<u8> = (0u8..14).collect();
    frame.extend_from_slice(&[0xaa; 30]);
    let out = encap_pkt(&frame).unwrap();
    assert_eq!(out.len(), 14 + 20 + 30);
    assert_eq!(&out[..14], &frame[..14]);
    let h = &out[14..34];
    assert_eq!(h[0], 0x45);
    assert_eq!(h[1], 0);
    assert_eq!(u16::from_be_bytes([h[2], h[3]]), 50);
    assert_eq!(&h[4..8], &[0, 0, 0x40, 0]);
    assert_eq!(h[8], 32);
    assert_eq!(h[9], 4);
    assert_eq!(&h[12..16], &[192, 168, 10, 2]);
    assert_eq!(&h[16..20], &[192, 168, 20, 2]);
    assert!(checksum_ok(h));
    assert_ne!(&h[10..12], &[0, 0]);
    assert_eq!(&out[34..], &frame[14..]);
}

#[test]
fn tunnel_limits() {
    assert!(encap_pkt(&[0u8; 13]).is_none());
    assert_eq!(encap_pkt(&[0u8; 14]).unwrap().len(), 34);
    assert!(encap_pkt(&vec![0u8; 14 + 65515]).is_some());
    assert!(encap_pkt(&vec![0u8; 14 + 65516]).is_none());
}
