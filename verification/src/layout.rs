//! Region registry and layout resolver.
//!
//! Six metadata regions make up a fresh volume.  Their identifiers
//! carry a permanent total order which is both the placement order on
//! the device and the iteration order of every pass.  A region's
//! resolved position is the running end of its predecessors rounded up
//! to the region's alignment; positions and sizes are pure functions
//! of the volume parameters and are recomputed on demand.

use crate::arith::{div_ceil, div_round_up, lemma_div_mono, lemma_div_shrinks,
    lemma_round_up_offset, lemma_round_up_to, round_up, round_up_to};
use crate::errors::MkfsError;
use crate::param::{lemma_param_bounds, MkfsParam};
use crate::uct::UPCASE_TABLE_BYTES;
use vstd::prelude::*;

verus! {

/// The six metadata regions, in placement order.
#[derive(Clone, Copy, Debug, PartialEq, Eq, Structural)]
pub enum FsObjectType {
    /// Primary boot region.
    Vbr1,
    /// Backup boot region.
    Vbr2,
    /// File allocation table.
    Fat,
    /// Cluster allocation bitmap; first region of the cluster heap.
    Cbm,
    /// Upper-case table.
    Uct,
    /// Root directory.
    Rootdir,
}

impl FsObjectType {
    /// Rank of the region in the placement order.
    pub open spec fn index(self) -> int {
        match self {
            FsObjectType::Vbr1 => 0,
            FsObjectType::Vbr2 => 1,
            FsObjectType::Fat => 2,
            FsObjectType::Cbm => 3,
            FsObjectType::Uct => 4,
            FsObjectType::Rootdir => 5,
        }
    }

    /// The placement order as a sequence to walk.
    pub fn iterator() -> (r: Vec<FsObjectType>)
        ensures
            r@.len() == 6,
            forall|k: int| 0 <= k < 6 ==> #[trigger] r@[k].index() == k,
    {
        let mut r: Vec<FsObjectType> = Vec::new();
        r.push(FsObjectType::Vbr1);
        r.push(FsObjectType::Vbr2);
        r.push(FsObjectType::Fat);
        r.push(FsObjectType::Cbm);
        r.push(FsObjectType::Uct);
        r.push(FsObjectType::Rootdir);
        r
    }
}

/// Byte alignment of the region with rank `i`: the boot regions align
/// to a sector, the allocation table to 128 sectors, the heap regions
/// to a cluster.
pub open spec fn spec_alignment(p: MkfsParam, i: int) -> int {
    if i <= 1 {
        p.sector_size as int
    } else if i == 2 {
        128 * p.sector_size as int
    } else {
        p.cluster_size as int
    }
}

/// Byte size of the region with rank `i`.  The boot regions take 12
/// sectors, the allocation table one 32-bit entry per cluster of the
/// whole volume, the bitmap one bit per cluster from its own start to
/// the volume end, the upper-case table its fixed byte length, and the
/// root directory one cluster.
pub open spec fn spec_size(p: MkfsParam, i: int) -> int
    decreases i, 2int,
{
    if i <= 1 {
        12 * p.sector_size as int
    } else if i == 2 {
        (p.volume_size as int / p.cluster_size as int) * 4
    } else if i == 3 {
        let pos = spec_position(p, 3);
        if pos <= p.volume_size {
            div_ceil((p.volume_size - pos) / p.cluster_size as int, 8)
        } else {
            0
        }
    } else if i == 4 {
        UPCASE_TABLE_BYTES as int
    } else {
        p.cluster_size as int
    }
}

/// Accumulated end position after the first `i` regions are placed.
pub open spec fn spec_end(p: MkfsParam, i: int) -> int
    decreases i, 0int,
{
    if i <= 0 {
        0
    } else {
        spec_position(p, i - 1) + spec_size(p, i - 1)
    }
}

/// Resolved byte position of the region with rank `i`: the end of its
/// predecessors rounded up to its alignment.
pub open spec fn spec_position(p: MkfsParam, i: int) -> int
    decreases i, 1int,
{
    round_up_to(spec_end(p, i), spec_alignment(p, i))
}

/// Required footprint of the whole layout.
pub open spec fn spec_layout_end(p: MkfsParam) -> int {
    spec_end(p, 6)
}

/// Every position is within `0x0400_0000_0000_0000`; keeps the walk
/// far from the 64-bit range.
pub proof fn lemma_layout_bounds(p: MkfsParam)
    requires
        p.wf(),
    ensures
        forall|i: int| 0 <= i <= 6 ==> 0 <= #[trigger] spec_end(p, i) <= 0x400_0000_0000_0000,
        forall|i: int| 0 <= i < 6 ==> 0 <= #[trigger] spec_position(p, i) <= 0x401_0000_0000_0000,
        forall|i: int| 0 <= i < 6 ==> 0 <= #[trigger] spec_size(p, i) <= 0x200_0000_0000_0000,
{
    reveal_with_fuel(spec_end, 8);
    reveal_with_fuel(spec_position, 8);
    reveal_with_fuel(spec_size, 8);
    lemma_param_bounds(p);
    let v = p.volume_size as int;
    let c = p.cluster_size as int;
    assert(v / c <= v / 512 && v / c >= 0) by {
        lemma_div_shrinks(v, 512, c);
    }
    assert(v / 512 <= u64::MAX as int / 512) by {
        lemma_div_mono(v, u64::MAX as int, 512);
    }
    assert(spec_size(p, 2) <= 0x200_0000_0000_0000);
    assert_forall_ends(p);
}

/// Unrolls the six placement steps, bounding each.
proof fn assert_forall_ends(p: MkfsParam)
    requires
        p.wf(),
        512 <= p.sector_size <= 4096,
        p.sector_size <= p.cluster_size <= 0x200_0000,
        0 <= spec_size(p, 2) <= 0x200_0000_0000_0000,
    ensures
        forall|i: int| 0 <= i <= 6 ==> 0 <= #[trigger] spec_end(p, i) <= 0x400_0000_0000_0000,
        forall|i: int| 0 <= i < 6 ==> 0 <= #[trigger] spec_position(p, i) <= 0x401_0000_0000_0000,
        forall|i: int| 0 <= i < 6 ==> 0 <= #[trigger] spec_size(p, i) <= 0x200_0000_0000_0000,
{
    reveal_with_fuel(spec_end, 8);
    reveal_with_fuel(spec_position, 8);
    reveal_with_fuel(spec_size, 8);
    let v = p.volume_size as int;
    let c = p.cluster_size as int;
    assert(spec_end(p, 0) == 0);
    lemma_round_up_to(spec_end(p, 0), spec_alignment(p, 0));
    assert(spec_position(p, 0) < 4096);
    assert(spec_size(p, 0) == 12 * p.sector_size as int <= 49152);
    assert(spec_end(p, 1) <= 53248);
    lemma_round_up_to(spec_end(p, 1), spec_alignment(p, 1));
    assert(spec_position(p, 1) < 57344);
    assert(spec_end(p, 2) <= 106496);
    lemma_round_up_to(spec_end(p, 2), spec_alignment(p, 2));
    assert(spec_position(p, 2) < 106496 + 128 * 4096);
    assert(spec_end(p, 3) <= 0x200_0000_000a_0000);
    lemma_round_up_to(spec_end(p, 3), spec_alignment(p, 3));
    assert(spec_position(p, 3) <= 0x200_0000_020a_0000);
    assert(0 <= spec_size(p, 3) <= 0x20_0000_0000_0000) by {
        let pos = spec_position(p, 3);
        if pos <= v {
            lemma_div_shrinks(v - pos, 512, c);
            lemma_div_mono(v - pos, u64::MAX as int, 512);
            assert((v - pos) / c <= 0x80_0000_0000_0000);
        }
    }
    assert(spec_end(p, 4) <= 0x220_0000_020a_0000);
    lemma_round_up_to(spec_end(p, 4), spec_alignment(p, 4));
    assert(spec_position(p, 4) <= 0x220_0000_040a_0000);
    assert(spec_size(p, 4) == 0x20000);
    assert(spec_end(p, 5) <= 0x220_0000_040c_0000);
    lemma_round_up_to(spec_end(p, 5), spec_alignment(p, 5));
    assert(spec_position(p, 5) <= 0x220_0000_060c_0000);
    assert(spec_size(p, 5) == c);
    assert(spec_end(p, 6) <= 0x220_0000_080c_0000);
}

/// Resolves all six positions and the final footprint in one walk.
/// Returns `(positions of ranks 0 to 5, footprint)`.
fn resolve_walk(p: &MkfsParam) -> (r: (u64, u64, u64, u64, u64, u64, u64))
    requires
        p.wf(),
    ensures
        r.0 == spec_position(*p, 0),
        r.1 == spec_position(*p, 1),
        r.2 == spec_position(*p, 2),
        r.3 == spec_position(*p, 3),
        r.4 == spec_position(*p, 4),
        r.5 == spec_position(*p, 5),
        r.6 == spec_layout_end(*p),
{
    proof {
        reveal_with_fuel(spec_end, 8);
        reveal_with_fuel(spec_position, 8);
        reveal_with_fuel(spec_size, 8);
        lemma_param_bounds(*p);
        lemma_layout_bounds(*p);
    }
    let ss = p.sector_size;
    let cs = p.cluster_size;
    let vbr_size: u64 = 12 * ss;

    let p0 = round_up(0, ss);
    let e1 = p0 + vbr_size;
    let p1 = round_up(e1, ss);
    let e2 = p1 + vbr_size;
    let p2 = round_up(e2, 128 * ss);
    proof {
        lemma_div_shrinks(p.volume_size as int, 512, cs as int);
        lemma_div_mono(p.volume_size as int, u64::MAX as int, 512);
    }
    let fat_size: u64 = (p.volume_size / cs) * 4;
    let e3 = p2 + fat_size;
    let p3 = round_up(e3, cs);
    let cbm_size: u64 = if p3 <= p.volume_size {
        div_round_up((p.volume_size - p3) / cs, 8)
    } else {
        0
    };
    proof {
        assert(cbm_size == spec_size(*p, 3));
    }
    let e4 = p3 + cbm_size;
    let p4 = round_up(e4, cs);
    let e5 = p4 + UPCASE_TABLE_BYTES;
    let p5 = round_up(e5, cs);
    let e6 = p5 + cs;
    (p0, p1, p2, p3, p4, p5, e6)
}

/// Byte alignment of a region.
pub fn alignment_of(p: &MkfsParam, t: FsObjectType) -> (r: u64)
    requires
        p.wf(),
    ensures
        r == spec_alignment(*p, t.index()),
        r > 0,
{
    proof {
        lemma_param_bounds(*p);
    }
    match t {
        FsObjectType::Vbr1 => p.sector_size,
        FsObjectType::Vbr2 => p.sector_size,
        FsObjectType::Fat => 128 * p.sector_size,
        FsObjectType::Cbm => p.cluster_size,
        FsObjectType::Uct => p.cluster_size,
        FsObjectType::Rootdir => p.cluster_size,
    }
}

/// Resolved byte position of a region.
pub fn position_of(p: &MkfsParam, t: FsObjectType) -> (r: u64)
    requires
        p.wf(),
    ensures
        r == spec_position(*p, t.index()),
{
    let w = resolve_walk(p);
    match t {
        FsObjectType::Vbr1 => w.0,
        FsObjectType::Vbr2 => w.1,
        FsObjectType::Fat => w.2,
        FsObjectType::Cbm => w.3,
        FsObjectType::Uct => w.4,
        FsObjectType::Rootdir => w.5,
    }
}

/// Byte size of a region.
pub fn size_of(p: &MkfsParam, t: FsObjectType) -> (r: u64)
    requires
        p.wf(),
    ensures
        r == spec_size(*p, t.index()),
{
    proof {
        lemma_param_bounds(*p);
        lemma_layout_bounds(*p);
    }
    match t {
        FsObjectType::Vbr1 => 12 * p.sector_size,
        FsObjectType::Vbr2 => 12 * p.sector_size,
        FsObjectType::Fat => {
            proof {
                lemma_div_shrinks(p.volume_size as int, 512, p.cluster_size as int);
                lemma_div_mono(p.volume_size as int, u64::MAX as int, 512);
            }
            (p.volume_size / p.cluster_size) * 4
        },
        FsObjectType::Cbm => {
            let p3 = position_of(p, FsObjectType::Cbm);
            if p3 <= p.volume_size {
                div_round_up((p.volume_size - p3) / p.cluster_size, 8)
            } else {
                0
            }
        },
        FsObjectType::Uct => UPCASE_TABLE_BYTES,
        FsObjectType::Rootdir => p.cluster_size,
    }
}

/// Checks that the resolved layout fits the volume; nothing may be
/// written when it does not.  Succeeds exactly when the footprint does
/// not exceed the volume size; the error carries both byte counts.
pub fn check_capacity(p: &MkfsParam) -> (r: Result<(), MkfsError>)
    requires
        p.wf(),
    ensures
        r is Ok <==> spec_layout_end(*p) <= p.volume_size,
        r matches Err(e) ==> e == (MkfsError::CapacityExceeded {
            required: spec_layout_end(*p) as u64,
            available: p.volume_size,
        }),
{
    let w = resolve_walk(p);
    if w.6 > p.volume_size {
        Err(MkfsError::CapacityExceeded { required: w.6, available: p.volume_size })
    } else {
        Ok(())
    }
}

/// Alignment, size and resolved position of every region in placement
/// order; diagnostic introspection with no side effects.
pub fn layout_report(p: &MkfsParam) -> (r: Vec<(u64, u64, u64)>)
    requires
        p.wf(),
    ensures
        r@.len() == 6,
        forall|k: int| 0 <= k < 6 ==> #[trigger] r@[k] == (spec_alignment(*p, k) as u64,
        spec_size(*p, k) as u64, spec_position(*p, k) as u64),
{
    proof {
        lemma_layout_bounds(*p);
    }
    let order = FsObjectType::iterator();
    let mut r: Vec<(u64, u64, u64)> = Vec::new();
    let mut k: usize = 0;
    while k < 6
        invariant
            p.wf(),
            0 <= k <= 6,
            order@.len() == 6,
            forall|j: int| 0 <= j < 6 ==> #[trigger] order@[j].index() == j,
            r@.len() == k,
            forall|j: int| 0 <= j < k ==> #[trigger] r@[j] == (spec_alignment(*p, j) as u64,
            spec_size(*p, j) as u64, spec_position(*p, j) as u64),
        decreases 6 - k,
    {
        let t = order[k];
        r.push((alignment_of(p, t), size_of(p, t), position_of(p, t)));
        k = k + 1;
    }
    r
}

/// Positions never decrease along the placement order, each region's
/// position is a multiple of its alignment, and every region ends at
/// or before the next region's position: the footprints never
/// overlap.
pub proof fn lemma_layout_ordered(p: MkfsParam)
    requires
        p.wf(),
    ensures
        forall|i: int, j: int| 0 <= i <= j < 6 ==> spec_position(p, i) <= spec_position(p, j),
        forall|i: int|
            0 <= i < 6 ==> #[trigger] spec_position(p, i) % spec_alignment(p, i) == 0,
        forall|i: int|
            0 <= i < 5 ==> #[trigger] spec_position(p, i) + spec_size(p, i) <= spec_position(
                p,
                i + 1,
            ),
{
    reveal_with_fuel(spec_end, 8);
    reveal_with_fuel(spec_position, 8);
    reveal_with_fuel(spec_size, 8);
    assert forall|i: int| 0 <= i < 5 implies #[trigger] spec_position(p, i) + spec_size(p, i)
        <= spec_position(p, i + 1) by {
        lemma_param_bounds(p);
        lemma_layout_bounds(p);
        lemma_round_up_to(spec_end(p, i + 1), spec_alignment(p, i + 1));
        assert(spec_end(p, i + 1) == spec_position(p, i) + spec_size(p, i));
    }
    lemma_param_bounds(p);
    lemma_layout_bounds(p);
    assert forall|i: int| 0 <= i < 6 implies #[trigger] spec_position(p, i) % spec_alignment(
        p,
        i,
    ) == 0 by {
        lemma_round_up_to(spec_end(p, i), spec_alignment(p, i));
    }
    assert forall|i: int, j: int| 0 <= i <= j < 6 implies spec_position(p, i) <= spec_position(
        p,
        j,
    ) by {
        lemma_position_chain(p, i, j);
    }
}

/// Transitive step of the ordering argument.
proof fn lemma_position_chain(p: MkfsParam, i: int, j: int)
    requires
        p.wf(),
        0 <= i <= j < 6,
    ensures
        spec_position(p, i) <= spec_position(p, j),
    decreases j - i,
{
    lemma_param_bounds(p);
    lemma_layout_bounds(p);
    if i < j {
        lemma_position_chain(p, i, j - 1);
        lemma_round_up_to(spec_end(p, j - 1), spec_alignment(p, j - 1));
        lemma_round_up_to(spec_end(p, j), spec_alignment(p, j));
        assert(spec_size(p, j - 1) >= 0);
        assert(spec_end(p, j) == spec_position(p, j - 1) + spec_size(p, j - 1));
    }
}


/// Number of clusters a heap region occupies: its byte size rounded
/// up to whole clusters.
pub open spec fn spec_chain_len(p: MkfsParam, i: int) -> int {
    div_ceil(spec_size(p, i), p.cluster_size as int)
}

/// Clusters taken by the three heap metadata regions together: the
/// bitmap, the upper-case table and the root directory, placed
/// contiguously from the first data cluster.
pub open spec fn spec_allocated_clusters(p: MkfsParam) -> int {
    spec_chain_len(p, 3) + spec_chain_len(p, 4) + spec_chain_len(p, 5)
}

/// Under a layout that fits the volume, the three heap regions stand
/// back to back in whole clusters, the root directory takes exactly
/// one cluster, and their total cluster count stays within the
/// volume's cluster count.
pub proof fn lemma_heap_chain_fits(p: MkfsParam)
    requires
        p.wf(),
        spec_layout_end(p) <= p.volume_size,
    ensures
        spec_chain_len(p, 5) == 1,
        0 <= spec_chain_len(p, 3),
        0 <= spec_chain_len(p, 4),
        spec_position(p, 4) == spec_position(p, 3) + spec_chain_len(p, 3) * p.cluster_size,
        spec_position(p, 5) == spec_position(p, 4) + spec_chain_len(p, 4) * p.cluster_size,
        spec_allocated_clusters(p) <= p.volume_size as int / p.cluster_size as int,
        spec_position(p, 3) <= p.volume_size,
        spec_position(p, 3) % p.cluster_size as int == 0,
{
    reveal_with_fuel(spec_end, 8);
    reveal_with_fuel(spec_position, 8);
    reveal_with_fuel(spec_size, 8);
    lemma_param_bounds(p);
    lemma_layout_bounds(p);
    let c = p.cluster_size as int;
    let v = p.volume_size as int;
    let pos3 = spec_position(p, 3);
    let pos4 = spec_position(p, 4);
    let pos5 = spec_position(p, 5);
    let n1 = spec_chain_len(p, 3);
    let n2 = spec_chain_len(p, 4);
    assert(spec_size(p, 5) == c);
    vstd::arithmetic::div_mod::lemma_div_by_self(c);
    assert(spec_chain_len(p, 5) == 1);
    lemma_round_up_to(spec_end(p, 3), spec_alignment(p, 3));
    assert(pos3 % c == 0);
    assert(spec_end(p, 4) == pos3 + spec_size(p, 3));
    lemma_round_up_offset(pos3, spec_size(p, 3), c);
    assert(pos4 == pos3 + n1 * c);
    lemma_round_up_to(spec_end(p, 4), spec_alignment(p, 4));
    assert(pos4 % c == 0);
    assert(spec_end(p, 5) == pos4 + spec_size(p, 4));
    lemma_round_up_offset(pos4, spec_size(p, 4), c);
    assert(pos5 == pos4 + n2 * c);
    assert(spec_end(p, 6) == pos5 + c);
    assert(pos3 + n1 * c + n2 * c + c <= v);
    assert(n1 >= 0 && n2 >= 0) by {
        lemma_div_shrinks(spec_size(p, 3), 1, c);
        lemma_div_shrinks(spec_size(p, 4), 1, c);
    }
    assert((n1 + n2 + 1) * c == n1 * c + n2 * c + c) by (nonlinear_arith);
    assert(n1 * c >= 0 && n2 * c >= 0) by (nonlinear_arith)
        requires
            n1 >= 0,
            n2 >= 0,
            c > 0,
    ;
    assert(n1 + n2 + 1 <= v / c) by {
        lemma_div_mono((n1 + n2 + 1) * c, v, c);
        vstd::arithmetic::div_mod::lemma_div_by_multiple(n1 + n2 + 1, c);
    }
}


/// The heap metadata cannot fill the whole cluster heap: at least one
/// cluster of the volume lies below the heap's start, so the
/// allocated count stays strictly below the volume's cluster count.
pub proof fn lemma_allocated_bound(p: MkfsParam)
    requires
        p.wf(),
        spec_layout_end(p) <= p.volume_size,
    ensures
        spec_allocated_clusters(p) >= 2,
        spec_allocated_clusters(p) + spec_position(p, 3) / p.cluster_size as int
            <= p.volume_size as int / p.cluster_size as int,
        spec_position(p, 3) / p.cluster_size as int >= 1,
        spec_allocated_clusters(p) + 1 <= p.volume_size as int / p.cluster_size as int,
{
    reveal_with_fuel(spec_end, 8);
    reveal_with_fuel(spec_position, 8);
    reveal_with_fuel(spec_size, 8);
    lemma_param_bounds(p);
    lemma_layout_bounds(p);
    lemma_heap_chain_fits(p);
    let c = p.cluster_size as int;
    let v = p.volume_size as int;
    let pos3 = spec_position(p, 3);
    let alloc = spec_allocated_clusters(p);
    assert(spec_chain_len(p, 4) >= 1) by {
        crate::arith::lemma_div_ceil_pos(UPCASE_TABLE_BYTES as int, c);
    }
    assert(alloc >= 2);
    assert(pos3 + alloc * c <= v) by {
        assert(spec_end(p, 6) == spec_position(p, 5) + c);
        assert((spec_chain_len(p, 3) + spec_chain_len(p, 4) + 1) * c == spec_chain_len(p, 3) * c
            + spec_chain_len(p, 4) * c + c) by (nonlinear_arith);
    }
    assert(pos3 >= 1) by {
        lemma_round_up_to(spec_end(p, 3), spec_alignment(p, 3));
        assert(spec_end(p, 2) >= 12 * p.sector_size as int);
    }
    let q3 = pos3 / c;
    vstd::arithmetic::div_mod::lemma_fundamental_div_mod(pos3, c);
    assert(pos3 == c * q3);
    assert(q3 >= 1) by (nonlinear_arith)
        requires
            c * q3 >= 1,
            c >= 1,
    ;
    assert((q3 + alloc) * c <= v) by (nonlinear_arith)
        requires
            pos3 == c * q3,
            pos3 + alloc * c <= v,
    ;
    assert(q3 + alloc <= v / c) by {
        crate::arith::lemma_div_mono((q3 + alloc) * c, v, c);
        vstd::arithmetic::div_mod::lemma_div_by_multiple(q3 + alloc, c);
    }
}

} // verus!
