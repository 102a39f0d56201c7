//! File-allocation-table writer.
//!
//! The table holds one 32-bit entry per cluster slot of the whole
//! volume.  Only the reserved head and the chains of the three heap
//! metadata regions are emitted; the rest of the region is left to the
//! erase pass, which zero-fills it.

use crate::arith::div_round_up;
use crate::codec::{le32_seq_bytes, spec_le32_seq};
use crate::errors::MkfsError;
use crate::layout::{
    lemma_heap_chain_fits, size_of, spec_allocated_clusters, spec_chain_len, spec_layout_end,
    spec_size, FsObjectType,
};
use crate::param::{lemma_param_bounds, EXFAT_LAST_DATA_CLUSTER, MkfsParam};
use crate::uct::UPCASE_TABLE_BYTES;
use vstd::prelude::*;

verus! {

/// Entry 0 of the table: the media descriptor.
pub const FAT_ENTRY_MEDIA: u32 = 0xffff_fff8;

/// End-of-chain marker.
pub const EXFAT_CLUSTER_END: u32 = 0xffff_ffff;

/// Entries of one contiguous run of `n` clusters starting at cluster
/// `start`: every entry points to the next cluster, the last one
/// carries the end-of-chain marker.
pub open spec fn spec_chain(start: int, n: int) -> Seq<u32> {
    Seq::new(
        n as nat,
        |k: int|
            if k == n - 1 {
                EXFAT_CLUSTER_END
            } else {
                (start + k + 1) as u32
            },
    )
}

/// The emitted prefix of the table: the two reserved entries followed
/// by the chains of the bitmap, the upper-case table and the root
/// directory, in placement order.
pub open spec fn spec_fat_entries(p: MkfsParam) -> Seq<u32> {
    let n1 = spec_chain_len(p, 3);
    let n2 = spec_chain_len(p, 4);
    let n3 = spec_chain_len(p, 5);
    seq![FAT_ENTRY_MEDIA, EXFAT_CLUSTER_END] + spec_chain(2, n1) + spec_chain(2 + n1, n2)
        + spec_chain(2 + n1 + n2, n3)
}

/// Appends one cluster run.  Rejects a run whose chain would leave
/// the 32-bit cluster space; such a run signals a pathological
/// sector-size and cluster-size combination, not an expected runtime
/// condition.
fn push_chain(out: &mut Vec<u32>, start: u64, n: u64) -> (r: Result<(), MkfsError>)
    requires
        2 <= start,
        start + n <= u64::MAX,
    ensures
        match r {
            Ok(()) => (n == 0 || start + n - 1 <= u32::MAX) && final(out)@ == old(out)@
                + spec_chain(start as int, n as int),
            Err(e) => {
                &&& e == MkfsError::ClusterChainOverflow
                &&& n > 0 && start + n - 1 > u32::MAX
                &&& final(out)@ == old(out)@
            },
        },
{
    if n > 0 && (n - 1 > u32::MAX as u64 || start > u32::MAX as u64 - (n - 1)) {
        return Err(MkfsError::ClusterChainOverflow);
    }
    let ghost chain = spec_chain(start as int, n as int);
    let mut k: u64 = 0;
    while k < n
        invariant
            0 <= k <= n,
            2 <= start,
            n == 0 || start + n - 1 <= u32::MAX,
            chain == spec_chain(start as int, n as int),
            out@ == old(out)@ + chain.take(k as int),
        decreases n - k,
    {
        if k == n - 1 {
            out.push(EXFAT_CLUSTER_END);
        } else {
            out.push((start + k + 1) as u32);
        }
        proof {
            assert(out@ =~= old(out)@ + chain.take(k + 1));
        }
        k = k + 1;
    }
    proof {
        assert(chain.take(n as int) =~= chain);
    }
    Ok(())
}

/// Computes the emitted table entries.  The first two entries are the
/// media descriptor and the required constant, whatever the volume
/// size.  Success is owed whenever the volume's cluster count is
/// addressable; only a cluster chain past the 32-bit space is
/// rejected.
pub fn fat_entries(p: &MkfsParam) -> (r: Result<Vec<u32>, MkfsError>)
    requires
        p.wf(),
        spec_layout_end(*p) <= p.volume_size,
    ensures
        match r {
            Ok(v) => {
                &&& v@ == spec_fat_entries(*p)
                &&& v@.len() == 2 + spec_allocated_clusters(*p)
                &&& v@[0] == FAT_ENTRY_MEDIA
                &&& v@[1] == EXFAT_CLUSTER_END
            },
            Err(e) => e == MkfsError::ClusterChainOverflow,
        },
        r is Err <==> spec_allocated_clusters(*p) + 1 > u32::MAX,
        p.volume_size as int / p.cluster_size as int <= EXFAT_LAST_DATA_CLUSTER ==> r is Ok,
{
    proof {
        lemma_param_bounds(*p);
        crate::layout::lemma_layout_bounds(*p);
        lemma_heap_chain_fits(*p);
        crate::layout::lemma_allocated_bound(*p);
        crate::arith::lemma_div_shrinks(spec_size(*p, 3), 1, p.cluster_size as int);
    }
    let c = p.cluster_size;
    let cbm_size = size_of(p, FsObjectType::Cbm);
    let n1 = div_round_up(cbm_size, c);
    let n2 = div_round_up(UPCASE_TABLE_BYTES, c);
    let n3 = div_round_up(c, c);
    let mut out: Vec<u32> = Vec::new();
    out.push(FAT_ENTRY_MEDIA);
    out.push(EXFAT_CLUSTER_END);
    proof {
        assert(out@ =~= seq![FAT_ENTRY_MEDIA, EXFAT_CLUSTER_END]);
    }
    match push_chain(&mut out, 2, n1) {
        Ok(()) => (),
        Err(e) => {
            return Err(e);
        },
    }
    match push_chain(&mut out, 2 + n1, n2) {
        Ok(()) => (),
        Err(e) => {
            return Err(e);
        },
    }
    match push_chain(&mut out, 2 + n1 + n2, n3) {
        Ok(()) => (),
        Err(e) => {
            return Err(e);
        },
    }
    proof {
        assert(out@ =~= spec_fat_entries(*p));
    }
    Ok(out)
}

/// The emitted table prefix as bytes: each entry little endian.
pub fn fat_bytes(p: &MkfsParam) -> (r: Result<Vec<u8>, MkfsError>)
    requires
        p.wf(),
        spec_layout_end(*p) <= p.volume_size,
    ensures
        match r {
            Ok(v) => v@ == spec_le32_seq(spec_fat_entries(*p)),
            Err(e) => e == MkfsError::ClusterChainOverflow,
        },
        p.volume_size as int / p.cluster_size as int <= EXFAT_LAST_DATA_CLUSTER ==> r is Ok,
{
    match fat_entries(p) {
        Ok(entries) => Ok(le32_seq_bytes(&entries)),
        Err(e) => Err(e),
    }
}

} // verus!
