//! Construction driver: turns the volume parameters into the byte
//! operations that format the volume.
//!
//! The run is linear: resolve the layout, validate the capacity,
//! zero-fill every region's footprint, write every region's content,
//! flush.  The library computes what to write and where; the caller
//! performs the device writes in the given order and stops at the
//! first failure.

use crate::cbm::{cbm_bytes, spec_cbm_bytes};
use crate::codec::spec_le32_seq;
use crate::errors::MkfsError;
use crate::fat::{fat_bytes, spec_fat_entries};
use crate::layout::{
    check_capacity, position_of, spec_allocated_clusters, spec_layout_end, spec_position,
    FsObjectType,
};
use crate::param::{MkfsParam, EXFAT_LAST_DATA_CLUSTER};
use crate::rootdir::{rootdir_bytes, spec_rootdir_bytes};
use crate::uct::{spec_upcase_table, upcase_table_bytes};
use crate::vbr::{spec_vbr_bytes, vbr_bytes};
use vstd::prelude::*;

verus! {

/// One positioned write: `bytes` go to the device at `offset`; the
/// region is kept for diagnostics.
pub struct WriteOp {
    /// Device byte offset of the write.
    pub offset: u64,
    /// The bytes to write.
    pub bytes: Vec<u8>,
    /// The region the write belongs to.
    pub region: FsObjectType,
}

/// The content each region write carries, by placement rank.
pub open spec fn spec_region_bytes(p: MkfsParam, k: int) -> Seq<u8> {
    if k <= 1 {
        spec_vbr_bytes(p)
    } else if k == 2 {
        spec_le32_seq(spec_fat_entries(p))
    } else if k == 3 {
        spec_cbm_bytes(p)
    } else if k == 4 {
        spec_upcase_table()
    } else {
        spec_rootdir_bytes(p)
    }
}

/// Computes the six region writes in placement order.  Each write
/// lands at its region's resolved position; both boot-region copies
/// carry identical bytes.  Validation must have passed; success is
/// owed whenever every on-disk field fits, which holds for every
/// volume whose cluster count and heap start sector are addressable.
#[verifier::rlimit(100)]
pub fn write_ops(p: &MkfsParam) -> (r: Result<Vec<WriteOp>, MkfsError>)
    requires
        p.wf(),
        spec_layout_end(*p) <= p.volume_size,
    ensures
        r matches Ok(ops) ==> {
            &&& ops@.len() == 6
            &&& forall|k: int|
                0 <= k < 6 ==> (#[trigger] ops@[k]).region.index() == k && ops@[k].offset
                    == spec_position(*p, k) && ops@[k].bytes@ == spec_region_bytes(*p, k)
            &&& ops@[1].bytes@ == ops@[0].bytes@
        },
        r matches Err(e) ==> e == MkfsError::FieldOverflow || e
            == MkfsError::ClusterChainOverflow,
        (p.volume_size as int / p.cluster_size as int <= EXFAT_LAST_DATA_CLUSTER
            && spec_position(*p, 3) / p.sector_size as int <= u32::MAX && crate::arith::div_ceil(
            spec_allocated_clusters(*p),
            8,
        ) <= usize::MAX) ==> r is Ok,
{
    proof {
        crate::param::lemma_param_bounds(*p);
        crate::layout::lemma_layout_bounds(*p);
        crate::layout::lemma_heap_chain_fits(*p);
        crate::layout::lemma_allocated_bound(*p);
        let c = p.cluster_size as int;
        let n1 = crate::layout::spec_chain_len(*p, 3);
        assert(n1 * c == c * n1) by (nonlinear_arith);
        vstd::arithmetic::div_mod::lemma_div_by_multiple(n1, c);
        assert((spec_position(*p, 4) - spec_position(*p, 3)) / c == n1);
    }
    let vbr1 = match vbr_bytes(p) {
        Ok(v) => v,
        Err(e) => {
            return Err(e);
        },
    };
    let vbr2 = match vbr_bytes(p) {
        Ok(v) => v,
        Err(e) => {
            return Err(e);
        },
    };
    let fat = match fat_bytes(p) {
        Ok(v) => v,
        Err(e) => {
            return Err(e);
        },
    };
    let cbm = match cbm_bytes(p) {
        Ok(v) => v,
        Err(e) => {
            return Err(e);
        },
    };
    let uct = upcase_table_bytes();
    let rootdir = match rootdir_bytes(p) {
        Ok(v) => v,
        Err(e) => {
            return Err(e);
        },
    };
    let mut ops: Vec<WriteOp> = Vec::new();
    ops.push(
        WriteOp {
            offset: position_of(p, FsObjectType::Vbr1),
            bytes: vbr1,
            region: FsObjectType::Vbr1,
        },
    );
    ops.push(
        WriteOp {
            offset: position_of(p, FsObjectType::Vbr2),
            bytes: vbr2,
            region: FsObjectType::Vbr2,
        },
    );
    ops.push(
        WriteOp {
            offset: position_of(p, FsObjectType::Fat),
            bytes: fat,
            region: FsObjectType::Fat,
        },
    );
    ops.push(
        WriteOp {
            offset: position_of(p, FsObjectType::Cbm),
            bytes: cbm,
            region: FsObjectType::Cbm,
        },
    );
    ops.push(
        WriteOp {
            offset: position_of(p, FsObjectType::Uct),
            bytes: uct,
            region: FsObjectType::Uct,
        },
    );
    ops.push(
        WriteOp {
            offset: position_of(p, FsObjectType::Rootdir),
            bytes: rootdir,
            region: FsObjectType::Rootdir,
        },
    );
    Ok(ops)
}

/// Splits one region's zero-fill into device writes of at most
/// `block_size` bytes: consecutive chunks that tile the region's
/// footprint exactly.
pub fn erase_chunks(start: u64, size: u64, block_size: u64) -> (r: Vec<(u64, u64)>)
    requires
        block_size > 0,
        start + size <= u64::MAX,
    ensures
        size == 0 ==> r@.len() == 0,
        size > 0 ==> r@.len() >= 1 && r@[0].0 == start && r@[r@.len() - 1].0 + r@[r@.len()
            - 1].1 == start + size,
        forall|k: int|
            0 <= k < r@.len() ==> (#[trigger] r@[k]).1 == (if start + size - r@[k].0
                < block_size {
                start + size - r@[k].0
            } else {
                block_size as int
            }) && r@[k].1 > 0,
        forall|k: int| 0 < k < r@.len() ==> (#[trigger] r@[k]).0 == r@[k - 1].0 + r@[k - 1].1,
{
    let end = start + size;
    let mut r: Vec<(u64, u64)> = Vec::new();
    let mut off = start;
    while off < end
        invariant
            block_size > 0,
            start <= off <= end,
            end == start + size,
            r@.len() == 0 ==> off == start,
            r@.len() > 0 ==> r@[0].0 == start && r@[r@.len() - 1].0 + r@[r@.len() - 1].1 == off,
            forall|k: int|
                0 <= k < r@.len() ==> (#[trigger] r@[k]).1 == (if end - r@[k].0 < block_size {
                    end - r@[k].0
                } else {
                    block_size as int
                }) && r@[k].1 > 0 && r@[k].0 < end,
            forall|k: int|
                0 < k < r@.len() ==> (#[trigger] r@[k]).0 == r@[k - 1].0 + r@[k - 1].1,
        decreases end - off,
    {
        let len = if end - off < block_size {
            end - off
        } else {
            block_size
        };
        r.push((off, len));
        off = off + len;
    }
    r
}

/// Validates the capacity and computes the write plan in one step:
/// the capacity error comes first, before any region content is
/// computed, exactly as the construction run orders its phases.
pub fn mkfs_plan(p: &MkfsParam) -> (r: Result<Vec<WriteOp>, MkfsError>)
    requires
        p.wf(),
    ensures
        spec_layout_end(*p) > p.volume_size ==> r == Result::<Vec<WriteOp>, MkfsError>::Err(
            MkfsError::CapacityExceeded {
                required: spec_layout_end(*p) as u64,
                available: p.volume_size,
            },
        ),
        r matches Ok(ops) ==> spec_layout_end(*p) <= p.volume_size && ops@.len() == 6
            && (forall|k: int|
            0 <= k < 6 ==> (#[trigger] ops@[k]).offset == spec_position(*p, k) && ops@[k].bytes@
                == spec_region_bytes(*p, k)),
        r matches Err(e) ==> e matches MkfsError::CapacityExceeded { .. } || e
            == MkfsError::FieldOverflow || e == MkfsError::ClusterChainOverflow,
        (spec_layout_end(*p) <= p.volume_size && p.volume_size as int / p.cluster_size as int
            <= EXFAT_LAST_DATA_CLUSTER && spec_position(*p, 3) / p.sector_size as int
            <= u32::MAX && crate::arith::div_ceil(spec_allocated_clusters(*p), 8) <= usize::MAX)
            ==> r is Ok,
{
    match check_capacity(p) {
        Ok(()) => (),
        Err(e) => {
            return Err(e);
        },
    }
    write_ops(p)
}

} // verus!
