use exfat_utils::errors::MkfsError;
use exfat_utils::layout::{position_of, FsObjectType};
use exfat_utils::mkexfat::{erase_chunks, mkfs_plan, write_ops};
use exfat_utils::param::MkfsParam;

fn param_64m() -> MkfsParam {
    MkfsParam::new(9, 3, 64 * 1024 * 1024, [0u16; 15], 0x1234_5678, 0)
}

#[test]
fn plan_has_all_regions_in_order() {
    let p = param_64m();
    let ops = mkfs_plan(&p).unwrap();
    assert_eq!(ops.len(), 6);
    let order = FsObjectType::iterator();
    for (k, op) in ops.iter().enumerate() {
        assert_eq!(op.region, order[k]);
        assert_eq!(op.offset, position_of(&p, order[k]));
    }
    assert_eq!(ops[0].bytes.len(), 6144);
    assert_eq!(ops[1].bytes, ops[0].bytes);
    assert_eq!(ops[2].bytes.len(), 144);
    assert_eq!(ops[3].bytes.len(), 5);
    assert_eq!(ops[4].bytes.len(), 131072);
    assert_eq!(ops[5].bytes.len(), 96);
}

#[test]
fn plan_stops_at_capacity_error() {
    // A 128 KiB volume with default parameters: the capacity check
    // reports the shortfall and no write operation is produced.
    let p = MkfsParam::new(9, 3, 128 * 1024, [0u16; 15], 0, 0);
    match mkfs_plan(&p) {
        Err(MkfsError::CapacityExceeded { required, available }) => {
            assert_eq!(required, 208896);
            assert_eq!(available, 131072);
        }
        other => panic!("expected a capacity error, got {:?}", other.map(|v| v.len())),
    }
}

#[test]
fn write_ops_match_region_content() {
    let p = param_64m();
    let ops = write_ops(&p).unwrap();
    assert_eq!(ops[0].bytes, exfat_utils::vbr::vbr_bytes(&p).unwrap());
    assert_eq!(ops[2].bytes, exfat_utils::fat::fat_bytes(&p).unwrap());
    assert_eq!(ops[3].bytes, exfat_utils::cbm::cbm_bytes(&p).unwrap());
    assert_eq!(ops[4].bytes, exfat_utils::uct::upcase_table_bytes());
    assert_eq!(ops[5].bytes, exfat_utils::rootdir::rootdir_bytes(&p).unwrap());
}

#[test]
fn erase_chunks_tile_footprint() {
    let block = 1024 * 1024u64;
    let r = erase_chunks(4096, 2 * block + 512, block);
    assert_eq!(
        r,
        vec![(4096, block), (4096 + block, block), (4096 + 2 * block, 512)]
    );
}

#[test]
fn erase_chunks_empty_region() {
    assert_eq!(erase_chunks(4096, 0, 1024 * 1024), vec![]);
}

#[test]
fn erase_chunks_single_partial_block() {
    assert_eq!(erase_chunks(0, 100, 1024 * 1024), vec![(0, 100)]);
}
