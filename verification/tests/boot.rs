use exfat_utils::param::MkfsParam;
use exfat_utils::rootdir::rootdir_bytes;
use exfat_utils::uct::upcase_table_bytes;
use exfat_utils::vbr::{build_super_block, sb_bytes, vbr_bytes};

fn param_64m() -> MkfsParam {
    MkfsParam::new(9, 3, 64 * 1024 * 1024, [0u16; 15], 0x1234_5678, 7)
}

fn label(units: &[u16]) -> [u16; 15] {
    let mut a = [0u16; 15];
    a[..units.len()].copy_from_slice(units);
    a
}

#[test]
fn super_block_fields_64m() {
    let sb = build_super_block(&param_64m()).unwrap();
    assert_eq!(sb.sector_start, 7);
    assert_eq!(sb.sector_count, 131072);
    assert_eq!(sb.fat_sector_start, 128);
    assert_eq!(sb.fat_sector_count, 128);
    assert_eq!(sb.cluster_sector_start, 256);
    assert_eq!(sb.cluster_count, 16352);
    assert_eq!(sb.rootdir_cluster, 35);
    assert_eq!(sb.volume_serial, 0x1234_5678);
    assert_eq!(sb.version_major, 1);
    assert_eq!(sb.version_minor, 0);
    assert_eq!(sb.volume_state, 0);
    assert_eq!(sb.sector_bits, 9);
    assert_eq!(sb.spc_bits, 3);
    assert_eq!(sb.fat_count, 1);
    assert_eq!(sb.drive_no, 0x80);
    assert_eq!(sb.allocated_percent, 0);
}

#[test]
fn rootdir_cluster_matches_heap_distance() {
    // rootdir_cluster = (position(Rootdir) - position(Cbm)) / cluster + 2
    let p = param_64m();
    let sb = build_super_block(&p).unwrap();
    let pos_cbm = exfat_utils::layout::position_of(&p, exfat_utils::layout::FsObjectType::Cbm);
    let pos_rd =
        exfat_utils::layout::position_of(&p, exfat_utils::layout::FsObjectType::Rootdir);
    assert_eq!(sb.rootdir_cluster as u64, (pos_rd - pos_cbm) / p.cluster_size + 2);
}

#[test]
fn super_block_sector_layout() {
    let sb = build_super_block(&param_64m()).unwrap();
    let b = sb_bytes(&sb);
    assert_eq!(b.len(), 512);
    assert_eq!(&b[0..3], &[0xeb, 0x76, 0x90]);
    assert_eq!(&b[3..11], b"EXFAT   ");
    assert!(b[11..64].iter().all(|x| *x == 0));
    assert_eq!(&b[64..72], &7u64.to_le_bytes());
    assert_eq!(&b[72..80], &131072u64.to_le_bytes());
    assert_eq!(&b[80..84], &128u32.to_le_bytes());
    assert_eq!(&b[84..88], &128u32.to_le_bytes());
    assert_eq!(&b[88..92], &256u32.to_le_bytes());
    assert_eq!(&b[92..96], &16352u32.to_le_bytes());
    assert_eq!(&b[96..100], &35u32.to_le_bytes());
    assert_eq!(&b[100..104], &0x1234_5678u32.to_le_bytes());
    assert_eq!(b[104], 0); // minor
    assert_eq!(b[105], 1); // major
    assert_eq!(&b[106..108], &[0, 0]);
    assert_eq!(b[108], 9);
    assert_eq!(b[109], 3);
    assert_eq!(b[110], 1);
    assert_eq!(b[111], 0x80);
    assert_eq!(b[112], 0);
    assert!(b[113..510].iter().all(|x| *x == 0));
    assert_eq!(&b[510..512], &[0x55, 0xaa]);
}

fn rotate_add(bytes: &[u8], skip_boot_fields: bool) -> u32 {
    let mut sum: u32 = 0;
    for (i, b) in bytes.iter().enumerate() {
        if skip_boot_fields && (i == 0x6a || i == 0x6b || i == 0x70) {
            continue;
        }
        sum = sum.rotate_right(1).wrapping_add(*b as u32);
    }
    sum
}

#[test]
fn vbr_image_shape() {
    let img = vbr_bytes(&param_64m()).unwrap();
    assert_eq!(img.len(), 512 + 11 * 512);
    // eight signature sectors
    for k in 0..8 {
        let s = &img[512 + k * 512..512 + (k + 1) * 512];
        assert!(s[..510].iter().all(|x| *x == 0));
        assert_eq!(&s[510..], &[0x55, 0xaa]);
    }
    // two reserved zero sectors
    assert!(img[512 + 8 * 512..512 + 10 * 512].iter().all(|x| *x == 0));
}

#[test]
fn vbr_checksum_round_trips() {
    // Recomputing the rotate-and-add reduction over the first eleven
    // sectors reproduces the word repeated across the checksum sector.
    let img = vbr_bytes(&param_64m()).unwrap();
    let body = 512 + 10 * 512;
    let sum = rotate_add(&img[..body], true);
    for k in 0..(512 / 4) {
        let w = u32::from_le_bytes(img[body + 4 * k..body + 4 * k + 4].try_into().unwrap());
        assert_eq!(w, sum);
    }
}

#[test]
fn label_entry_empty_label_invalid() {
    let mut p = param_64m();
    p.volume_label = [0u16; 15];
    let r = rootdir_bytes(&p).unwrap();
    assert_eq!(r.len(), 96);
    assert_eq!(r[0], 0x03);
    assert_eq!(r[0] & 0x80, 0);
    assert!(r[1..32].iter().all(|x| *x == 0));
}

#[test]
fn label_entry_named_volume() {
    let mut p = param_64m();
    p.volume_label = label(&[0x56, 0x4f, 0x4c]); // "VOL"
    let r = rootdir_bytes(&p).unwrap();
    assert_eq!(r[0], 0x83);
    assert_eq!(r[1], 3);
    assert_eq!(&r[2..8], &[0x56, 0, 0x4f, 0, 0x4c, 0]);
    assert!(r[8..32].iter().all(|x| *x == 0));
}

#[test]
fn bitmap_entry_fields() {
    let r = rootdir_bytes(&param_64m()).unwrap();
    let e = &r[32..64];
    assert_eq!(e[0], 0x81);
    assert!(e[1..20].iter().all(|x| *x == 0));
    assert_eq!(&e[20..24], &2u32.to_le_bytes());
    assert_eq!(&e[24..32], &2044u64.to_le_bytes());
}

#[test]
fn upcase_entry_fields() {
    let r = rootdir_bytes(&param_64m()).unwrap();
    let e = &r[64..96];
    assert_eq!(e[0], 0x82);
    assert!(e[1..4].iter().all(|x| *x == 0));
    let table = upcase_table_bytes();
    let sum = rotate_add(&table, false);
    assert_eq!(&e[4..8], &sum.to_le_bytes());
    assert!(e[8..20].iter().all(|x| *x == 0));
    assert_eq!(&e[20..24], &3u32.to_le_bytes());
    assert_eq!(&e[24..32], &131072u64.to_le_bytes());
}

#[test]
fn super_block_rejects_unaddressable_cluster_count() {
    // 128 PiB with 512-byte clusters: the cluster count does not fit
    // its 32-bit field.
    let p = MkfsParam::new(9, 0, 1u64 << 57, [0u16; 15], 0, 0);
    assert_eq!(
        build_super_block(&p),
        Err(exfat_utils::errors::MkfsError::FieldOverflow)
    );
}

#[test]
fn super_block_parses_back() {
    let sb = build_super_block(&param_64m()).unwrap();
    let b = sb_bytes(&sb);
    assert_eq!(exfat_utils::vbr::parse_super_block(&b), Some(sb));
}

#[test]
fn parse_rejects_foreign_sector() {
    let sb = build_super_block(&param_64m()).unwrap();
    let mut b = sb_bytes(&sb);
    b[3] = b'F'; // not the exFAT OEM name any more
    assert_eq!(exfat_utils::vbr::parse_super_block(&b), None);
    let short = vec![0u8; 511];
    assert_eq!(exfat_utils::vbr::parse_super_block(&short), None);
}

#[test]
fn label_entry_bytes_direct() {
    let e = exfat_utils::rootdir::label_entry_bytes(&[0u16; 15]);
    assert_eq!(e[0], 0x03);
    assert!(e[1..].iter().all(|x| *x == 0));
    let e = exfat_utils::rootdir::label_entry_bytes(&label(&[0x41, 0x42]));
    assert_eq!(e[0], 0x83);
    assert_eq!(e[1], 2);
    assert_eq!(&e[2..6], &[0x41, 0, 0x42, 0]);
    assert!(e[6..].iter().all(|x| *x == 0));
}
