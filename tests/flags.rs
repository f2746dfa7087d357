use pspkit::flags::{pack, unpack, Flags};

#[test]
fn check_default() {
    assert_eq!(Flags::default().0, 0x80);
}

#[test]
fn check_set_s() {
    let mut flags = Flags { 0: 0 };
    flags.set_s(true);
    assert_eq!(flags.0, 1);
    flags.set_s(false);
    assert_eq!(flags.0, 0);
}

#[test]
fn check_set_d() {
    let mut flags = Flags { 0: 0 };
    flags.set_d(true);
    assert_eq!(flags.0, 2);
    flags.set_d(false);
    assert_eq!(flags.0, 0);
}

#[test]
fn check_set_s_and_d() {
    let mut flags = Flags { 0: 0 };
    flags.set_s(true).set_d(true);
    assert_eq!(flags.0, 3);
    flags.set_s(true).set_d(false);
    assert_eq!(flags.0, 1);
    flags.set_s(false).set_d(true);
    assert_eq!(flags.0, 2);
    flags.set_s(false).set_d(false);
    assert_eq!(flags.0, 0);
}

#[test]
fn check_builder_with_default() {
    let flags = Flags::default().set_s(true).set_d(true).build();
    assert_eq!(flags, Flags(0x83));
}

#[test]
fn set_version_replaces_only_the_version_bits() {
    let mut flags = Flags(0xff);
    flags.set_version(0);
    assert_eq!(flags.0, 0xc3);
    flags.set_version(0b0101);
    assert_eq!(flags.0, 0xd7);
    assert_eq!(flags.version(), 5);
    assert!(flags.s() && flags.d() && flags.vc() && flags.r());
}

#[test]
fn set_version_keeps_low_four_bits() {
    let mut flags = Flags::default();
    flags.set_version(0b1111_0001);
    assert_eq!(flags.version(), 1);
    assert_eq!(flags.0, 0x84);
}

#[test]
fn setters_touch_one_field_each() {
    let mut flags = Flags(0);
    flags.set_vc(true);
    assert_eq!(flags.0, 0x40);
    flags.set_r(true);
    assert_eq!(flags.0, 0xc0);
    flags.set_version(3);
    assert_eq!(flags.0, 0xcc);
    flags.set_vc(false);
    assert_eq!(flags.0, 0x8c);
    assert_eq!(flags.version(), 3);
    assert!(!flags.s() && !flags.d() && !flags.vc() && flags.r());
    flags.set_r(false);
    assert_eq!(flags.0, 0x0c);
}

#[test]
fn pack_truncates_version() {
    let b = pack(false, false, 0b1111_0001, false, true);
    assert_eq!(b, 0x84);
    assert_eq!(unpack(b), (false, false, 1, false, true));
}

#[test]
fn pack_bit_positions() {
    assert_eq!(pack(true, false, 0, false, false), 0x01);
    assert_eq!(pack(false, true, 0, false, false), 0x02);
    assert_eq!(pack(false, false, 15, false, false), 0x3c);
    assert_eq!(pack(false, false, 0, true, false), 0x40);
    assert_eq!(pack(false, false, 0, false, true), 0x80);
    assert_eq!(pack(true, true, 15, true, true), 0xff);
}

#[test]
fn pack_isolation_on_concrete_values() {
    for v in 0u8..16 {
        let (s, d, _, vc, r) = unpack(pack(true, false, v, true, false));
        assert_eq!((s, d, vc, r), (true, false, true, false));
    }
    let (_, _, v, _, _) = unpack(pack(true, true, 9, true, true));
    assert_eq!(v, 9);
    let (_, _, v, _, _) = unpack(pack(false, false, 9, false, false));
    assert_eq!(v, 9);
}

#[test]
fn unpack_pack_every_byte() {
    for b in 0u16..256 {
        let b = b as u8;
        let (s, d, v, vc, r) = unpack(b);
        assert_eq!(pack(s, d, v, vc, r), b);
        assert_eq!(Flags::from_fields(s, d, v, vc, r).fields(), (s, d, v, vc, r));
    }
}
