use exfat_utils::errors::MkfsError;
use exfat_utils::param::{
    logarithm2, serial_from_time, setup_params, setup_spc_bits, setup_volume_label,
    setup_volume_serial,
};
use exfat_utils::attrib::{
    apply_attrib_flags, attrib_flags_conflict, EXFAT_ATTRIB_ARCH, EXFAT_ATTRIB_HIDDEN,
    EXFAT_ATTRIB_RO,
};
use exfat_utils::utf::utf8_to_utf16;

#[test]
fn logarithm2_powers() {
    assert_eq!(logarithm2(1), 0);
    assert_eq!(logarithm2(2), 1);
    assert_eq!(logarithm2(8), 3);
    assert_eq!(logarithm2(1 << 30), 30);
}

#[test]
fn logarithm2_non_powers() {
    assert_eq!(logarithm2(0), -1);
    assert_eq!(logarithm2(7), -1);
    assert_eq!(logarithm2(-4), -1);
    assert_eq!(logarithm2(100), -1);
}

#[test]
fn user_cluster_size_accepted() {
    assert_eq!(setup_spc_bits(9, 5, 64 * 1024 * 1024), Ok(5));
}

#[test]
fn user_cluster_size_too_small() {
    // 512-byte clusters on a 4 TiB volume exceed the addressable
    // cluster count; the error suggests the smallest workable value.
    let r = setup_spc_bits(9, 0, 4 * 1024 * 1024 * 1024 * 1024);
    assert_eq!(
        r,
        Err(MkfsError::ClusterSizeTooSmall { spc_bits: 0, suggested_spc_bits: 8 })
    );
}

#[test]
fn utf16_encoding_basic() {
    assert_eq!(utf8_to_utf16(""), Vec::<u16>::new());
    assert_eq!(utf8_to_utf16("Ab1"), vec![0x41, 0x62, 0x31]);
    // two-byte and three-byte UTF-8 sequences are single units
    assert_eq!(utf8_to_utf16("\u{e9}\u{4e2d}"), vec![0xe9, 0x4e2d]);
    // a supplementary-plane scalar becomes a surrogate pair
    assert_eq!(utf8_to_utf16("\u{10437}"), vec![0xd801, 0xdc37]);
}

#[test]
fn volume_label_padded() {
    let a = setup_volume_label("VOL").unwrap();
    let mut want = [0u16; 15];
    want[0] = 0x56;
    want[1] = 0x4f;
    want[2] = 0x4c;
    assert_eq!(a, want);
}

#[test]
fn volume_label_empty() {
    assert_eq!(setup_volume_label("").unwrap(), [0u16; 15]);
}

#[test]
fn volume_label_full_width() {
    let a = setup_volume_label("ABCDEFGHIJKLMNO").unwrap();
    assert_eq!(a[14], 0x4f);
}

#[test]
fn volume_label_too_long() {
    assert_eq!(setup_volume_label("ABCDEFGHIJKLMNOP"), Err(MkfsError::LabelTooLong));
    // a surrogate pair counts as two units
    assert_eq!(
        setup_volume_label("ABCDEFGHIJKLMN\u{10437}"),
        Err(MkfsError::LabelTooLong)
    );
}

#[test]
fn serial_keeps_user_value() {
    assert_eq!(setup_volume_serial(0xdead_beef), Ok(0xdead_beef));
}

#[test]
fn serial_from_time_layout() {
    // low twelve bits of the seconds above the twenty-bit microsecond
    // part
    assert_eq!(serial_from_time(1_234_567_890, 123_456), 0x2d21_e240);
    assert_eq!(serial_from_time(0, 0), 0);
    assert_eq!(serial_from_time(0x1000, 1), 1);
}

#[test]
fn setup_params_derives_everything() {
    let p = setup_params(64 * 1024 * 1024, 9, -1, "VOL", 0x42, 0).unwrap();
    assert_eq!(p.sector_bits, 9);
    assert_eq!(p.spc_bits, 3);
    assert_eq!(p.sector_size, 512);
    assert_eq!(p.cluster_size, 4096);
    assert_eq!(p.volume_serial, 0x42);
    assert_eq!(p.volume_label[0], 0x56);
    assert_eq!(p.volume_label[3], 0);
}

#[test]
fn setup_params_rejects_long_label() {
    let r = setup_params(64 * 1024 * 1024, 9, -1, "ABCDEFGHIJKLMNOP", 0x42, 0);
    assert_eq!(r.unwrap_err(), MkfsError::LabelTooLong);
}

#[test]
fn serial_derived_from_clock_when_zero() {
    // with no caller value the serial comes from the clock
    assert!(setup_volume_serial(0).is_ok());
}

#[test]
fn attribute_flags_applied() {
    let a = apply_attrib_flags(EXFAT_ATTRIB_ARCH, EXFAT_ATTRIB_RO, 0);
    assert_eq!(a, EXFAT_ATTRIB_ARCH | EXFAT_ATTRIB_RO);
    let b = apply_attrib_flags(a, EXFAT_ATTRIB_HIDDEN, EXFAT_ATTRIB_ARCH);
    assert_eq!(b, EXFAT_ATTRIB_RO | EXFAT_ATTRIB_HIDDEN);
    assert!(attrib_flags_conflict(EXFAT_ATTRIB_RO, EXFAT_ATTRIB_RO));
    assert!(!attrib_flags_conflict(EXFAT_ATTRIB_RO, EXFAT_ATTRIB_HIDDEN));
}

#[test]
fn setup_params_error_order() {
    // the cluster-size rejection comes before the label check
    let r = setup_params(
        4 * 1024 * 1024 * 1024 * 1024,
        9,
        0,
        "ABCDEFGHIJKLMNOP",
        5,
        0,
    );
    assert_eq!(
        r.unwrap_err(),
        MkfsError::ClusterSizeTooSmall { spc_bits: 0, suggested_spc_bits: 8 }
    );
}
