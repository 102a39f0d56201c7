//! Root-directory writer: the three bootstrap entries.
//!
//! Exactly three 32-byte records stand at the start of the root
//! directory's cluster: the volume-label entry, the bitmap entry and
//! the upper-case-table entry.  The remainder of the cluster stays
//! zero from the erase pass.

use crate::checksum::{spec_upcase_checksum, upcase_checksum};
use crate::codec::{
    lemma_le16_seq_len, lemma_le16_seq_push, push_le16, push_le32, push_le64, push_zeros,
    spec_le16_seq, spec_le32, spec_le64, spec_zeros,
};
use crate::errors::MkfsError;
use crate::layout::{
    lemma_heap_chain_fits, position_of, size_of, spec_layout_end, spec_position, spec_size,
    FsObjectType,
};
use crate::param::{lemma_param_bounds, MkfsParam, EXFAT_FIRST_DATA_CLUSTER};
use crate::uct::{spec_upcase_table, upcase_table_bytes, UPCASE_TABLE_BYTES};
use vstd::prelude::*;

verus! {

/// Type tag of a volume-label entry, with the valid bit set.
pub const EXFAT_ENTRY_LABEL: u8 = 0x83;

/// Type tag of a bitmap entry.
pub const EXFAT_ENTRY_BITMAP: u8 = 0x81;

/// Type tag of an upper-case-table entry.
pub const EXFAT_ENTRY_UPCASE: u8 = 0x82;

/// The in-use flag of an entry's type tag: cleared on the label entry
/// of an unlabelled volume.
pub const EXFAT_ENTRY_VALID: u8 = 0x80;

/// Number of UTF-16 units before the first zero unit: the label's
/// length.
pub open spec fn spec_utf16_length(s: Seq<u16>) -> int
    decreases s.len(),
{
    if s.len() == 0 || s[0] == 0 {
        0
    } else {
        1 + spec_utf16_length(s.drop_first())
    }
}

/// The length never exceeds the unit count.
pub proof fn lemma_utf16_length_le(s: Seq<u16>)
    ensures
        0 <= spec_utf16_length(s) <= s.len(),
    decreases s.len(),
{
    if s.len() > 0 && s[0] != 0 {
        lemma_utf16_length_le(s.drop_first());
    }
}

/// A zero-terminated prefix of `i` nonzero units gives length `i`.
proof fn lemma_utf16_length_at(s: Seq<u16>, i: int)
    requires
        0 <= i <= s.len(),
        forall|j: int| 0 <= j < i ==> s[j] != 0,
        i == s.len() || s[i] == 0,
    ensures
        spec_utf16_length(s) == i,
    decreases i,
{
    if i == 0 {
    } else {
        assert(s[0] != 0);
        let t = s.drop_first();
        assert forall|j: int| 0 <= j < i - 1 implies t[j] != 0 by {
            assert(t[j] == s[j + 1]);
        }
        lemma_utf16_length_at(t, i - 1);
    }
}

/// Counts the label's UTF-16 units before the first zero unit.
pub fn utf16_length(s: &[u16; 15]) -> (r: usize)
    ensures
        r == spec_utf16_length(s@),
        0 <= r <= 15,
{
    let mut i: usize = 0;
    while i < 15
        invariant
            0 <= i <= 15,
            forall|j: int| 0 <= j < i ==> s@[j] != 0,
        decreases 15 - i,
    {
        if s[i] == 0 {
            proof {
                lemma_utf16_length_at(s@, i as int);
            }
            return i;
        }
        i = i + 1;
    }
    proof {
        lemma_utf16_length_at(s@, 15);
    }
    15
}

/// Bytes of the volume-label entry.  An empty label gives a record
/// with the valid bit cleared and no name; otherwise the tag carries
/// the valid bit, the length counts the label's UTF-16 units, and the
/// fifteen name units follow little endian.
pub open spec fn spec_label_entry(label: Seq<u16>) -> Seq<u8> {
    let n = spec_utf16_length(label);
    if n == 0 {
        seq![(EXFAT_ENTRY_LABEL ^ EXFAT_ENTRY_VALID) as u8, 0u8] + spec_zeros(30)
    } else {
        seq![EXFAT_ENTRY_LABEL, n as u8] + spec_le16_seq(label)
    }
}

/// Bytes of the bitmap entry: tag, start cluster (always the first
/// data cluster) and the bitmap's byte size.
pub open spec fn spec_bitmap_entry(cbm_size: u64) -> Seq<u8> {
    seq![EXFAT_ENTRY_BITMAP] + spec_zeros(19) + spec_le32(EXFAT_FIRST_DATA_CLUSTER) + spec_le64(
        cbm_size,
    )
}

/// Bytes of the upper-case-table entry: tag, table checksum, start
/// cluster and table byte size.
pub open spec fn spec_upcase_entry(checksum: u32, start_cluster: u32, size: u64) -> Seq<u8> {
    seq![EXFAT_ENTRY_UPCASE] + spec_zeros(3) + spec_le32(checksum) + spec_zeros(12) + spec_le32(
        start_cluster,
    ) + spec_le64(size)
}

/// The three bootstrap records of a fresh volume, in order.
pub open spec fn spec_rootdir_bytes(p: MkfsParam) -> Seq<u8> {
    spec_label_entry(p.volume_label@) + spec_bitmap_entry(spec_size(p, 3) as u64)
        + spec_upcase_entry(
        spec_upcase_checksum(spec_upcase_table()),
        ((spec_position(p, 4) - spec_position(p, 3)) / p.cluster_size as int
            + EXFAT_FIRST_DATA_CLUSTER) as u32,
        UPCASE_TABLE_BYTES,
    )
}

/// Serializes the volume-label entry.  An empty label clears the
/// valid bit; a named volume carries the valid bit, its UTF-16 unit
/// count and the fifteen padded name units.
pub fn label_entry_bytes(label: &[u16; 15]) -> (r: Vec<u8>)
    ensures
        r@ == spec_label_entry(label@),
        r@.len() == 32,
        spec_utf16_length(label@) == 0 ==> r@[0] & EXFAT_ENTRY_VALID == 0 && r@[1] == 0
            && r@.subrange(2, 32) == spec_zeros(30),
        spec_utf16_length(label@) > 0 ==> r@[0] == EXFAT_ENTRY_LABEL && r@[1]
            == spec_utf16_length(label@) && r@.subrange(2, 32) == spec_le16_seq(label@),
{
    let n = utf16_length(label);
    let mut r: Vec<u8> = Vec::new();
    if n == 0 {
        r.push(EXFAT_ENTRY_LABEL ^ EXFAT_ENTRY_VALID);
        r.push(0);
        push_zeros(&mut r, 30);
        proof {
            assert(r@ =~= spec_label_entry(label@));
            assert((EXFAT_ENTRY_LABEL ^ EXFAT_ENTRY_VALID) & EXFAT_ENTRY_VALID == 0) by (
            bit_vector);
            assert(r@.subrange(2, 32) =~= spec_zeros(30));
        }
        return r;
    }
    r.push(EXFAT_ENTRY_LABEL);
    r.push(n as u8);
    let ghost head = r@;
    let mut i: usize = 0;
    while i < 15
        invariant
            0 <= i <= 15,
            r@ == head + spec_le16_seq(label@.take(i as int)),
        decreases 15 - i,
    {
        push_le16(&mut r, label[i]);
        proof {
            assert(label@.take(i + 1) =~= label@.take(i as int).push(label@[i as int]));
            lemma_le16_seq_push(label@.take(i as int), label@[i as int]);
            assert(r@ =~= head + spec_le16_seq(label@.take(i + 1)));
        }
        i = i + 1;
    }
    proof {
        assert(label@.take(15) =~= label@);
        lemma_le16_seq_len(label@);
        assert(r@ =~= spec_label_entry(label@));
        lemma_utf16_length_le(label@);
        assert(r@.subrange(2, 32) =~= spec_le16_seq(label@));
    }
    r
}

/// Builds the three records.  Fails exactly when the upper-case
/// table's start cluster does not fit its 32-bit field.
pub fn rootdir_bytes(p: &MkfsParam) -> (r: Result<Vec<u8>, MkfsError>)
    requires
        p.wf(),
        spec_layout_end(*p) <= p.volume_size,
    ensures
        r is Err <==> (spec_position(*p, 4) - spec_position(*p, 3)) / p.cluster_size as int
            + EXFAT_FIRST_DATA_CLUSTER > u32::MAX,
        r matches Err(e) ==> e == MkfsError::FieldOverflow,
        r matches Ok(v) ==> {
            &&& v@ == spec_rootdir_bytes(*p)
            &&& v@.len() == 96
            &&& (spec_utf16_length(p.volume_label@) == 0 ==> v@[0] & EXFAT_ENTRY_VALID == 0)
            &&& (spec_utf16_length(p.volume_label@) > 0 ==> v@[0] == EXFAT_ENTRY_LABEL && v@[1]
                == spec_utf16_length(p.volume_label@))
        },
{
    proof {
        lemma_param_bounds(*p);
        crate::layout::lemma_layout_bounds(*p);
        lemma_heap_chain_fits(*p);
        crate::layout::lemma_allocated_bound(*p);
    }
    let c = p.cluster_size;
    let pos_cbm = position_of(p, FsObjectType::Cbm);
    let pos_uct = position_of(p, FsObjectType::Uct);
    proof {
        let n1 = crate::layout::spec_chain_len(*p, 3);
        assert(n1 * c as int >= 0) by (nonlinear_arith)
            requires
                n1 >= 0,
                c > 0,
        ;
        vstd::arithmetic::div_mod::lemma_div_by_multiple(n1, c as int);
    }
    let start64: u64 = (pos_uct - pos_cbm) / c;
    if start64 > (u32::MAX - EXFAT_FIRST_DATA_CLUSTER) as u64 {
        return Err(MkfsError::FieldOverflow);
    }
    let start: u32 = start64 as u32 + EXFAT_FIRST_DATA_CLUSTER;
    let mut out = label_entry_bytes(&p.volume_label);
    let ghost label_part = out@;
    out.push(EXFAT_ENTRY_BITMAP);
    push_zeros(&mut out, 19);
    push_le32(&mut out, EXFAT_FIRST_DATA_CLUSTER);
    let cbm_size = size_of(p, FsObjectType::Cbm);
    push_le64(&mut out, cbm_size);
    proof {
        assert(out@ =~= label_part + spec_bitmap_entry(spec_size(*p, 3) as u64));
    }
    let ghost two_parts = out@;
    let table = upcase_table_bytes();
    let sum = upcase_checksum(&table);
    out.push(EXFAT_ENTRY_UPCASE);
    push_zeros(&mut out, 3);
    push_le32(&mut out, sum);
    push_zeros(&mut out, 12);
    push_le32(&mut out, start);
    push_le64(&mut out, UPCASE_TABLE_BYTES);
    proof {
        assert(out@ =~= two_parts + spec_upcase_entry(sum, start, UPCASE_TABLE_BYTES));
        assert(out@ =~= spec_rootdir_bytes(*p));
        let n = spec_utf16_length(p.volume_label@);
        lemma_utf16_length_le(p.volume_label@);
        if n == 0 {
            assert(out@[0] == (EXFAT_ENTRY_LABEL ^ EXFAT_ENTRY_VALID) as u8);
            assert((EXFAT_ENTRY_LABEL ^ EXFAT_ENTRY_VALID) & EXFAT_ENTRY_VALID == 0) by (
            bit_vector);
        } else {
            assert(out@[0] == EXFAT_ENTRY_LABEL);
            assert(out@[1] == n as u8);
        }
    }
    Ok(out)
}

} // verus!
