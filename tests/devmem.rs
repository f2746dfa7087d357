use pspkit::devmem::{check_alignment, map_window, AccessWidth, DevMemError, MapWindow};

#[test]
fn test_access_width() {
    assert_eq!(AccessWidth::Byte.size(), 1);
    assert_eq!(AccessWidth::Word.size(), 2);
    assert_eq!(AccessWidth::Long.size(), 4);
    assert_eq!(AccessWidth::LongLong.size(), 8);
}

#[test]
fn test_from_size() {
    assert_eq!(AccessWidth::from_size(1).unwrap(), AccessWidth::Byte);
    assert_eq!(AccessWidth::from_size(2).unwrap(), AccessWidth::Word);
    assert_eq!(AccessWidth::from_size(4).unwrap(), AccessWidth::Long);
    assert_eq!(AccessWidth::from_size(8).unwrap(), AccessWidth::LongLong);
    assert!(AccessWidth::from_size(3).is_err());
}

#[test]
fn from_size_reports_the_size() {
    assert!(matches!(AccessWidth::from_size(16), Err(DevMemError::InvalidSize(16))));
    assert!(matches!(AccessWidth::from_size(0), Err(DevMemError::InvalidSize(0))));
}

#[test]
fn alignment() {
    assert!(check_alignment(0x1000, AccessWidth::LongLong).is_ok());
    assert!(check_alignment(0x1001, AccessWidth::Byte).is_ok());
    assert!(check_alignment(0x1002, AccessWidth::Word).is_ok());
    match check_alignment(0x1002, AccessWidth::Long) {
        Err(DevMemError::AlignmentError { address, size }) => {
            assert_eq!(address, 0x1002);
            assert_eq!(size, 4);
        }
        _ => panic!("expected an alignment error"),
    }
}

#[test]
fn window_within_a_page() {
    assert_eq!(
        map_window(0x1234_5678, AccessWidth::Long, 4096),
        MapWindow { base: 0x1234_5000, offset: 0x678, len: 0x67c }
    );
    assert_eq!(
        map_window(0x2000, AccessWidth::LongLong, 4096),
        MapWindow { base: 0x2000, offset: 0, len: 8 }
    );
}
