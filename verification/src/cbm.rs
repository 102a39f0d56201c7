//! Cluster-bitmap writer.
//!
//! One bit per cluster, least significant bit first within each byte;
//! bit `k` stands for cluster `k + 2`.  The written buffer covers the
//! allocated clusters rounded up to whole bytes; the rest of the
//! region stays zero from the erase pass, marking those clusters
//! free.

use crate::arith::{div_ceil, div_round_up, lemma_div_shrinks, lemma_round_up_to, round_up};
use crate::errors::MkfsError;
use crate::layout::{
    lemma_layout_bounds, size_of, spec_allocated_clusters, spec_size, FsObjectType,
};
use crate::param::{lemma_param_bounds, MkfsParam};
use crate::uct::UPCASE_TABLE_BYTES;
use vstd::prelude::*;

verus! {

/// Whether bit `i` of the bitmap is set, counting least significant
/// first within each byte.
pub open spec fn spec_bitmap_bit(bytes: Seq<u8>, i: int) -> bool
    recommends
        0 <= i < 8 * bytes.len(),
{
    (bytes[i / 8] >> ((i % 8) as u8)) & 1 == 1
}

/// The byte at index `b` of a bitmap whose first `alloc` bits are
/// set: full bytes of ones, then the partial byte, then zeros.
pub open spec fn spec_cbm_byte(alloc: int, b: int) -> u8 {
    if b < alloc / 8 {
        0xff
    } else if b == alloc / 8 && alloc % 8 > 0 {
        ((1u8 << ((alloc % 8) as u8)) - 1) as u8
    } else {
        0
    }
}

/// The written bitmap buffer as a byte sequence.
pub open spec fn spec_cbm_bytes(p: MkfsParam) -> Seq<u8> {
    Seq::new(
        div_ceil(spec_allocated_clusters(p), 8) as nat,
        |b: int| spec_cbm_byte(spec_allocated_clusters(p), b),
    )
}

/// Cluster-count footprint of the three heap metadata regions, which
/// is the number of bits the bitmap sets.
pub fn allocated_clusters(p: &MkfsParam) -> (r: u64)
    requires
        p.wf(),
    ensures
        r == spec_allocated_clusters(*p),
{
    proof {
        lemma_param_bounds(*p);
        lemma_layout_bounds(*p);
        lemma_div_shrinks(spec_size(*p, 3), 1, p.cluster_size as int);
    }
    let c = p.cluster_size;
    let n1 = div_round_up(size_of(p, FsObjectType::Cbm), c);
    let n2 = div_round_up(UPCASE_TABLE_BYTES, c);
    let n3 = div_round_up(c, c);
    n1 + n2 + n3
}

/// Builds the written bitmap bytes: bits `[0, allocated)` set, every
/// higher bit of the buffer clear, the buffer padded to whole bytes.
/// Fails only when the buffer cannot be addressed in memory.
pub fn cbm_bytes(p: &MkfsParam) -> (r: Result<Vec<u8>, MkfsError>)
    requires
        p.wf(),
    ensures
        r is Ok <==> div_ceil(spec_allocated_clusters(*p), 8) <= usize::MAX,
        r matches Err(e) ==> e == MkfsError::FieldOverflow,
        r matches Ok(v) ==> {
            &&& v@ == spec_cbm_bytes(*p)
            &&& v@.len() == div_ceil(spec_allocated_clusters(*p), 8)
            &&& forall|i: int|
                0 <= i < spec_allocated_clusters(*p) ==> spec_bitmap_bit(v@, i)
            &&& forall|i: int|
                spec_allocated_clusters(*p) <= i < 8 * v@.len() ==> !spec_bitmap_bit(v@, i)
        },
{
    proof {
        lemma_param_bounds(*p);
        lemma_layout_bounds(*p);
        lemma_div_shrinks(spec_size(*p, 3), 1, p.cluster_size as int);
    }
    let alloc = allocated_clusters(p);
    let count = round_up(alloc, 8);
    proof {
        lemma_round_up_to(alloc as int, 8);
        vstd::arithmetic::div_mod::lemma_div_by_multiple(div_ceil(alloc as int, 8), 8);
    }
    let len: u64 = count / 8;
    if len > usize::MAX as u64 {
        return Err(MkfsError::FieldOverflow);
    }
    let len: usize = len as usize;
    let full: u64 = alloc / 8;
    let rem: u64 = alloc % 8;
    let mut v: Vec<u8> = Vec::new();
    let mut b: usize = 0;
    while b < len
        invariant
            0 <= b <= len,
            full == alloc as int / 8,
            rem == alloc as int % 8,
            v@.len() == b,
            forall|j: int| 0 <= j < b ==> v@[j] == spec_cbm_byte(alloc as int, j),
        decreases len - b,
    {
        let byte: u8 = if (b as u64) < full {
            0xff
        } else if b as u64 == full && rem > 0 {
            proof {
                assert(1u8 << (rem as u8) >= 1) by (bit_vector)
                    requires
                        0 < (rem as u8),
                        (rem as u8) < 8,
                ;
            }
            (1u8 << (rem as u8)) - 1
        } else {
            0
        };
        v.push(byte);
        b = b + 1;
    }
    proof {
        let al = alloc as int;
        assert forall|i: int| 0 <= i < al implies spec_bitmap_bit(v@, i) by {
            let bb = i / 8;
            let jj = (i % 8) as u8;
            assert(0 <= bb < v@.len());
            assert(v@[bb] == spec_cbm_byte(al, bb));
            if bb < al / 8 {
                assert(v@[bb] == 0xff);
                assert((0xffu8 >> jj) & 1 == 1) by (bit_vector)
                    requires
                        jj < 8,
                ;
            } else {
                assert(bb == al / 8 && i % 8 < al % 8);
                let rr = (al % 8) as u8;
                assert(v@[bb] == ((1u8 << rr) - 1) as u8);
                assert(((((1u8 << rr) - 1) as u8) >> jj) & 1 == 1) by (bit_vector)
                    requires
                        jj < rr < 8,
                ;
            }
        }
        assert(v@ =~= spec_cbm_bytes(*p));
        assert forall|i: int| al <= i < 8 * v@.len() implies !spec_bitmap_bit(v@, i) by {
            let bb = i / 8;
            let jj = (i % 8) as u8;
            assert(0 <= bb < v@.len());
            assert(v@[bb] == spec_cbm_byte(al, bb));
            if bb == al / 8 && al % 8 > 0 {
                let rr = (al % 8) as u8;
                assert(v@[bb] == ((1u8 << rr) - 1) as u8);
                assert(((((1u8 << rr) - 1) as u8) >> jj) & 1 == 0) by (bit_vector)
                    requires
                        rr <= jj < 8,
                ;
            } else {
                assert(v@[bb] == 0);
                assert((0u8 >> jj) & 1 == 0) by (bit_vector);
            }
        }
    }
    Ok(v)
}

} // verus!
