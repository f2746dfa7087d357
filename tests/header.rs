use pspkit::builder::PspHeaderBuilder;
use pspkit::flags::Flags;
use pspkit::header::{CodecError, PspHeader, PspVersion, HEADER_LEN};

#[test]
fn check_psp_header_builder() {
    let hdr = PspHeaderBuilder::default()
        .next_hdr(17)
        .spi(0x12345678)
        .iv(0x12345678_9ABCDEF0)
        .build();

    assert_eq!(hdr.spi, 0x12345678);
    assert_eq!(hdr.iv, 0x12345678_9ABCDEF0);
    assert_eq!(hdr.next_hdr, 17);
    assert_eq!(hdr.flags.0, 0x80u8);
}

#[test]
fn check_serde() {
    let mut flags = Flags::default();
    flags.set_version(PspVersion::PspVer1.as_u8());

    let hdr = PspHeaderBuilder::default()
        .next_hdr(17)
        .spi(0x12345678)
        .iv(0x12345678_9ABCDEF0)
        .flags(flags)
        .build();

    let encoded = hdr.encode();
    assert_eq!(encoded.len(), 16);

    let decoded = PspHeader::decode(&encoded);
    assert!(decoded.is_ok());
    assert_eq!(decoded.unwrap(), hdr);
    assert_eq!(hdr.spi, 0x12345678);
    assert_eq!(hdr.iv, 0x12345678_9ABCDEF0);
    assert_eq!(hdr.next_hdr, 17);
    assert_eq!(hdr.flags.0, 0x84u8);
}

#[test]
fn default_header_encoding() {
    let hdr = PspHeaderBuilder::default().build();
    assert_eq!(hdr, PspHeader::default());
    assert_eq!(hdr.encode(), [0, 0, 0, 0x80, 0, 0, 0, 0, 0, 0, 0, 0, 0, 0, 0, 0]);
}

#[test]
fn concrete_header_encoding() {
    let mut flags = Flags::default();
    flags.set_version(1);
    let hdr = PspHeaderBuilder::default()
        .next_hdr(17)
        .spi(0x12345678)
        .iv(0x12345678_9ABCDEF0)
        .flags(flags)
        .build();
    assert_eq!(
        hdr.encode(),
        [17, 0, 0, 0x84, 0x12, 0x34, 0x56, 0x78, 0x12, 0x34, 0x56, 0x78, 0x9A, 0xBC, 0xDE, 0xF0]
    );
}

#[test]
fn decode_too_short() {
    let buf = [0u8; 16];
    for len in [0usize, 1, 15] {
        assert_eq!(PspHeader::decode(&buf[..len]), Err(CodecError::TooShort));
    }
}

#[test]
fn decode_ignores_trailing_bytes() {
    let mut buf = vec![0xAAu8; 20];
    buf[..16].copy_from_slice(&[6, 2, 3, 0x41, 0, 0, 0, 9, 0, 0, 0, 0, 0, 0, 1, 0]);
    let hdr = PspHeader::decode(&buf).unwrap();
    assert_eq!(hdr.next_hdr, 6);
    assert_eq!(hdr.hdr_ext_len, 2);
    assert_eq!(hdr.crypt_off, 3);
    assert_eq!(hdr.flags.0, 0x41);
    assert!(hdr.flags.s() && hdr.flags.vc() && !hdr.flags.r());
    assert_eq!(hdr.spi, 9);
    assert_eq!(hdr.iv, 256);
}

#[test]
fn round_trip_boundary_values() {
    for version in [0u8, 3, 15] {
        for bits in 0u8..16 {
            for (spi, iv) in [(0u32, 0u64), (u32::MAX, u64::MAX), (0x01020304, 0x0102030405060708)] {
                let flags = Flags::from_fields(
                    bits & 1 != 0,
                    bits & 2 != 0,
                    version,
                    bits & 4 != 0,
                    bits & 8 != 0,
                );
                let hdr = PspHeaderBuilder::default()
                    .next_hdr(255)
                    .hdr_ext_len(bits)
                    .crypt_off(version)
                    .flags(flags)
                    .spi(spi)
                    .iv(iv)
                    .build();
                let decoded = PspHeader::decode(&hdr.encode()).unwrap();
                assert_eq!(decoded, hdr);
                assert_eq!(decoded.flags.version(), version);
            }
        }
    }
}

#[test]
fn reserved_bit_clear_still_decodes() {
    let hdr = PspHeader::decode(&[0u8; 16]).unwrap();
    assert!(!hdr.flags.r());
    assert_eq!(hdr.encode(), [0u8; 16]);
}

#[test]
fn psp_header_test() {
    let buf = vec![
        0x12, 0x23, 0x34, 0x56, 0x00, 0x00, 0x00, 0x03,
        0x01, 0x02, 0x03, 0x04, 0x05, 0x06, 0x07, 0x08,
        0x09, 0x0A, 0x0B, 0x0C, 0x0D, 0x0E, 0x0F, 0x00,
        0x01, 0x02, 0x03, 0x04, 0x05, 0x06, 0x07, 0x08,
        0x01, 0x02, 0x03, 0x04, 0x05, 0x06, 0x07, 0x08];
    let psp = PspHeader::decode(&buf).unwrap();
    assert_eq!(psp.spi, 3);
    assert_eq!(psp.iv, 0x0102030405060708);
    assert_eq!(buf[HEADER_LEN..].len(), 24);
    assert_eq!(buf.len(), 40);
    assert_eq!(psp.next_hdr, 0x12);
    assert_eq!(psp.flags.0, 0x56);
}
