use pspkit::config::{
    key_to_string, parse_cfg, parse_key, parse_spi, CfgError, CfgItem, CryptoAlg, PspEncap,
};
use pspkit::number::IntError;

const SAMPLE: &str = "00 11 22 33 44 55 66 77\n\
    aabb ccdd\n\
    1234abcd\n\
    transport\n\
    aes-gcm-256\n\
    1\n\
    \t2 \r\n\
    3\n\
    vc\n";

#[test]
fn config_enum_defaults() {
    assert_eq!(PspEncap::default(), PspEncap::Transport);
    assert_eq!(CryptoAlg::default(), CryptoAlg::AesGcm256);
}

#[test]
fn key_text_round() {
    assert_eq!(key_to_string(&[0xde, 0xad, 0x01]), "DE AD 01");
    assert_eq!(key_to_string(&[]), "");
    assert_eq!(key_to_string(&[0x0f]), "0F");
}

#[test]
fn keys_in_hex() {
    assert_eq!(parse_key("de ad BE ef").unwrap(), vec![0xde, 0xad, 0xbe, 0xef]);
    assert_eq!(parse_key("").unwrap(), Vec::<u8>::new());
    assert_eq!(parse_key("abc"), Err(CfgError::BadKey));
    assert_eq!(parse_key("zz"), Err(CfgError::BadKey));
}

#[test]
fn spi_in_hex() {
    assert_eq!(parse_spi("12345678"), Ok(0x12345678));
    assert_eq!(parse_spi("+ff"), Ok(255));
    assert_eq!(parse_spi("FFFFFFFF"), Ok(u32::MAX));
    assert_eq!(parse_spi("100000000"), Err(CfgError::BadSpi(IntError::Overflow)));
    assert_eq!(parse_spi(""), Err(CfgError::BadSpi(IntError::Empty)));
    assert_eq!(parse_spi("+"), Err(CfgError::BadSpi(IntError::InvalidDigit)));
    assert_eq!(parse_spi(" 1"), Err(CfgError::BadSpi(IntError::InvalidDigit)));
    assert_eq!(parse_spi("-1"), Err(CfgError::BadSpi(IntError::InvalidDigit)));
}

#[test]
fn whole_configuration() {
    let c = parse_cfg(SAMPLE).unwrap();
    assert_eq!(c.key1, vec![0x00, 0x11, 0x22, 0x33, 0x44, 0x55, 0x66, 0x77]);
    assert_eq!(c.key2, vec![0xaa, 0xbb, 0xcc, 0xdd]);
    assert_eq!(c.spi, 0x1234abcd);
    assert_eq!(c.mode, "transport");
    assert_eq!(c.algorithm, "aes-gcm-256");
    assert_eq!(c.transport_crypt_off, 1);
    assert_eq!(c.ipv4_tunnel_crypt_off, 2);
    assert_eq!(c.ipv6_tunnel_crypt_off, 3);
    assert!(c.vc);
}

#[test]
fn configuration_errors() {
    assert!(matches!(parse_cfg("00\n11"), Err(CfgError::Missing(CfgItem::Spi))));
    assert!(matches!(parse_cfg("0"), Err(CfgError::BadKey)));
    assert!(matches!(
        parse_cfg("00\n11\n1\nm\na\n256\n"),
        Err(CfgError::BadOffset(CfgItem::TransportCryptOffset, IntError::Overflow))
    ));
    assert!(matches!(
        parse_cfg("00\n11\n1\nm\na\n1\n2\n3"),
        Err(CfgError::Missing(CfgItem::Vc))
    ));
    let c = parse_cfg("00\n11\n1\nm\na\n1\n2\n3\nno vc").unwrap();
    assert!(!c.vc);
    assert!(matches!(parse_cfg(""), Err(CfgError::Missing(CfgItem::Key2))));
}
