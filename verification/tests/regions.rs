use exfat_utils::cbm::{allocated_clusters, cbm_bytes};
use exfat_utils::checksum::upcase_checksum;
use exfat_utils::fat::{fat_bytes, fat_entries};
use exfat_utils::param::MkfsParam;
use exfat_utils::uct::upcase_table_bytes;

fn param_64m() -> MkfsParam {
    MkfsParam::new(9, 3, 64 * 1024 * 1024, [0u16; 15], 0x1234_5678, 0)
}

#[test]
fn fat_reserved_entries_are_constant() {
    // Entries 0 and 1 whatever the volume size.
    for vol in [64u64 * 1024 * 1024, 512 * 1024 * 1024, 8 * 1024 * 1024 * 1024] {
        let spc = if vol < 256 * 1024 * 1024 { 3 } else { 6 };
        let p = MkfsParam::new(9, spc, vol, [0u16; 15], 0, 0);
        let e = fat_entries(&p).unwrap();
        assert_eq!(e[0], 0xffff_fff8);
        assert_eq!(e[1], 0xffff_ffff);
    }
}

#[test]
fn fat_chains_64m() {
    // Bitmap: one cluster at 2; upper-case table: 32 clusters at 3;
    // root directory: one cluster at 35.
    let e = fat_entries(&param_64m()).unwrap();
    assert_eq!(e.len(), 36);
    assert_eq!(e[2], 0xffff_ffff);
    for k in 0..31 {
        assert_eq!(e[3 + k], 4 + k as u32);
    }
    assert_eq!(e[34], 0xffff_ffff);
    assert_eq!(e[35], 0xffff_ffff);
}

#[test]
fn fat_bytes_little_endian() {
    let b = fat_bytes(&param_64m()).unwrap();
    assert_eq!(b.len(), 4 * 36);
    assert_eq!(&b[0..8], &[0xf8, 0xff, 0xff, 0xff, 0xff, 0xff, 0xff, 0xff]);
    // entry 3 points at cluster 4
    assert_eq!(&b[12..16], &[0x04, 0x00, 0x00, 0x00]);
}

#[test]
fn bitmap_bits_cover_allocated_clusters() {
    // 34 allocated clusters: four full bytes then the two low bits.
    let p = param_64m();
    assert_eq!(allocated_clusters(&p), 34);
    let b = cbm_bytes(&p).unwrap();
    assert_eq!(b, vec![0xff, 0xff, 0xff, 0xff, 0x03]);
    for i in 0..(8 * b.len()) {
        let bit = (b[i / 8] >> (i % 8)) & 1;
        assert_eq!(bit == 1, i < 34);
    }
}

#[test]
fn upcase_table_folds_ascii() {
    let t = upcase_table_bytes();
    assert_eq!(t.len(), 131072);
    // 'a' maps to 'A'
    assert_eq!(t[2 * 0x61], 0x41);
    assert_eq!(t[2 * 0x61 + 1], 0);
    // 'A' stays
    assert_eq!(t[2 * 0x41], 0x41);
    // a unit outside ASCII stays
    assert_eq!(t[2 * 0xe9], 0xe9);
    assert_eq!(t[2 * 0xe9 + 1], 0);
    // a unit of the upper half keeps both bytes
    assert_eq!(t[2 * 0x4e2d], 0x2d);
    assert_eq!(t[2 * 0x4e2d + 1], 0x4e);
}

#[test]
fn upcase_checksum_matches_reduction() {
    let t = upcase_table_bytes();
    let mut sum: u32 = 0;
    for b in &t {
        sum = (sum.rotate_right(1)).wrapping_add(*b as u32);
    }
    assert_eq!(upcase_checksum(&t), sum);
}

#[test]
fn fat_chain_overflow_on_pathological_geometry() {
    // 128 PiB with 512-byte clusters: the bitmap chain alone leaves
    // the 32-bit cluster space.
    let p = MkfsParam::new(9, 0, 1u64 << 57, [0u16; 15], 0, 0);
    assert_eq!(
        fat_entries(&p),
        Err(exfat_utils::errors::MkfsError::ClusterChainOverflow)
    );
}
