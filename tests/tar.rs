use pspkit::number::IntError;
use pspkit::tar::{get_file_header, TarError, TarField, TarFileHeader};

fn put(rec: &mut [u8], at: usize, text: &[u8]) {
    rec[at..at + text.len()].copy_from_slice(text);
}

fn record() -> Vec<u8> {
    let mut rec = vec![0u8; 512];
    put(&mut rec, 0, b"notes/hello.txt");
    put(&mut rec, 100, b"000644 \0");
    put(&mut rec, 108, b"001750 \0");
    put(&mut rec, 116, b"000144 \0");
    put(&mut rec, 124, b"00000000014 ");
    put(&mut rec, 136, b"14621221775 ");
    put(&mut rec, 148, b"011325\0 ");
    rec[156] = b'2';
    put(&mut rec, 157, b"target.txt");
    rec
}

#[test]
fn empty_header() {
    let h = TarFileHeader::new();
    assert_eq!(h.name, "");
    assert_eq!(h.link_name, "");
    assert_eq!((h.mode, h.owner, h.group, h.checksum, h.link_ind), (0, 0, 0, 0, 0));
    assert_eq!((h.size, h.lastmod), (0, 0));
}

#[test]
fn header_fields() {
    let h = get_file_header(&record()).unwrap();
    assert_eq!(h.name, "notes/hello.txt");
    assert_eq!(h.mode, 0o644);
    assert_eq!(h.owner, 0o1750);
    assert_eq!(h.group, 0o144);
    assert_eq!(h.size, 12);
    assert_eq!(h.lastmod, 0o1462122177);
    assert_eq!(h.checksum, 0o11325);
    assert_eq!(h.link_ind, b'2');
    assert_eq!(h.link_name, "target.txt");
}

#[test]
fn header_errors() {
    assert!(matches!(get_file_header(&[0u8; 256]), Err(TarError::TooShort)));
    let mut rec = record();
    rec[3] = 0xff;
    assert!(matches!(get_file_header(&rec), Err(TarError::BadText(TarField::Name))));
    let mut rec = record();
    rec[101] = b'9';
    assert!(matches!(
        get_file_header(&rec),
        Err(TarError::BadNumber(TarField::Mode, IntError::InvalidDigit))
    ));
    let mut rec = record();
    put(&mut rec, 148, b"      ");
    assert!(matches!(
        get_file_header(&rec),
        Err(TarError::BadNumber(TarField::Checksum, IntError::InvalidDigit))
    ));
}
