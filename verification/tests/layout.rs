use exfat_utils::errors::MkfsError;
use exfat_utils::layout::{
    alignment_of, check_capacity, layout_report, position_of, size_of, FsObjectType,
};
use exfat_utils::param::{setup_spc_bits, MkfsParam};

fn param_64m() -> MkfsParam {
    MkfsParam::new(9, 3, 64 * 1024 * 1024, [0u16; 15], 0x1234_5678, 0)
}

#[test]
fn default_cluster_size_below_256m_is_4k() {
    // 64 MiB with 512-byte sectors and no override: 4 KiB clusters.
    let spc = setup_spc_bits(9, -1, 64 * 1024 * 1024).unwrap();
    assert_eq!(spc, 3);
    let p = MkfsParam::new(9, spc, 64 * 1024 * 1024, [0u16; 15], 0, 0);
    assert_eq!(p.sector_size, 512);
    assert_eq!(p.cluster_size, 4096);
}

#[test]
fn default_cluster_size_below_32g_is_32k() {
    let spc = setup_spc_bits(9, -1, 1024 * 1024 * 1024).unwrap();
    assert_eq!(spc, 6);
    let p = MkfsParam::new(9, spc, 1024 * 1024 * 1024, [0u16; 15], 0, 0);
    assert_eq!(p.cluster_size, 32768);
}

#[test]
fn default_cluster_size_large_volume() {
    // 64 GiB: the smallest power of two from 128 KiB keeping the
    // cluster count addressable.
    let spc = setup_spc_bits(9, -1, 64 * 1024 * 1024 * 1024).unwrap();
    assert_eq!(spc, 8);
}

#[test]
fn resolved_positions_64m() {
    let p = param_64m();
    assert_eq!(position_of(&p, FsObjectType::Vbr1), 0);
    assert_eq!(position_of(&p, FsObjectType::Vbr2), 6144);
    assert_eq!(position_of(&p, FsObjectType::Fat), 65536);
    assert_eq!(position_of(&p, FsObjectType::Cbm), 131072);
    assert_eq!(position_of(&p, FsObjectType::Uct), 135168);
    assert_eq!(position_of(&p, FsObjectType::Rootdir), 266240);
}

#[test]
fn resolved_sizes_64m() {
    let p = param_64m();
    assert_eq!(size_of(&p, FsObjectType::Vbr1), 6144);
    assert_eq!(size_of(&p, FsObjectType::Vbr2), 6144);
    assert_eq!(size_of(&p, FsObjectType::Fat), 65536);
    assert_eq!(size_of(&p, FsObjectType::Cbm), 2044);
    assert_eq!(size_of(&p, FsObjectType::Uct), 131072);
    assert_eq!(size_of(&p, FsObjectType::Rootdir), 4096);
}

#[test]
fn positions_ordered_and_aligned() {
    // Positions never decrease along the placement order and each is
    // a multiple of its region's alignment.
    for vol in [8u64 * 1024 * 1024, 64 * 1024 * 1024, 3 * 1024 * 1024 * 1024] {
        for spc in [0i32, 3, 6] {
            let p = MkfsParam::new(9, spc, vol, [0u16; 15], 0, 0);
            let order = FsObjectType::iterator();
            let mut last = 0u64;
            for t in order {
                let pos = position_of(&p, t);
                assert!(pos >= last);
                assert_eq!(pos % alignment_of(&p, t), 0);
                last = pos;
            }
        }
    }
}

#[test]
fn iterator_order_is_fixed() {
    let order = FsObjectType::iterator();
    assert_eq!(
        order,
        vec![
            FsObjectType::Vbr1,
            FsObjectType::Vbr2,
            FsObjectType::Fat,
            FsObjectType::Cbm,
            FsObjectType::Uct,
            FsObjectType::Rootdir,
        ]
    );
}

#[test]
fn capacity_ok_64m() {
    let p = param_64m();
    assert!(check_capacity(&p).is_ok());
}

#[test]
fn capacity_error_small_volume() {
    // 128 KiB with default parameters: the footprint of 208896 bytes
    // does not fit, and the error reports both byte counts.
    let p = MkfsParam::new(9, 3, 128 * 1024, [0u16; 15], 0, 0);
    assert_eq!(
        check_capacity(&p),
        Err(MkfsError::CapacityExceeded { required: 208896, available: 131072 })
    );
}

#[test]
fn report_lists_all_regions() {
    let p = param_64m();
    let rep = layout_report(&p);
    assert_eq!(rep.len(), 6);
    assert_eq!(rep[0], (512, 6144, 0));
    assert_eq!(rep[2], (65536, 65536, 65536));
    assert_eq!(rep[5], (4096, 4096, 266240));
}
