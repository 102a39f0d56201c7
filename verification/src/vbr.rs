//! Boot-region (VBR) writer: the super block, the boot-signature
//! sectors and the checksum sector.
//!
//! Both boot-region copies emit the same bytes, each at its own
//! resolved position.

use crate::arith::{
    div_ceil, div_round_up, lemma_div_mono, lemma_round_up_offset, lemma_round_up_to, round_up,
    round_up_to,
};
use crate::checksum::{spec_vbr_checksum, vbr_checksum};
use crate::codec::{lemma_le16_roundtrip, lemma_le32_roundtrip, lemma_le64_roundtrip, push_le16,
    push_le32, push_le64, push_zeros, read_le16, read_le32, read_le64, spec_le16, spec_le32,
    spec_le64, spec_read_le16, spec_read_le32, spec_read_le64, spec_zeros};
use crate::errors::MkfsError;
use crate::layout::{
    lemma_allocated_bound, lemma_heap_chain_fits, lemma_layout_bounds, position_of,
    spec_allocated_clusters, spec_end, spec_layout_end, spec_position, spec_size, FsObjectType,
};
use crate::param::{lemma_param_bounds, MkfsParam};
use vstd::arithmetic::power2::{lemma2_to64, lemma_pow2_adds, lemma_pow2_pos, pow2};
use vstd::bits::{lemma_u64_pow2_no_overflow, lemma_u64_shl_is_mul, lemma_u64_shr_is_div};
use vstd::prelude::*;

verus! {

/// The super block: every field of the first boot sector that is not
/// a fixed constant of the format.
#[derive(Clone, Copy, Debug, PartialEq, Eq, Structural)]
pub struct ExfatSuperBlock {
    /// First sector of the partition on the whole disk.
    pub sector_start: u64,
    /// Total sector count of the volume.
    pub sector_count: u64,
    /// First sector of the allocation table.
    pub fat_sector_start: u32,
    /// Sector count of the allocation table, padded to whole clusters.
    pub fat_sector_count: u32,
    /// First sector of the cluster heap.
    pub cluster_sector_start: u32,
    /// Number of clusters of the cluster heap.
    pub cluster_count: u32,
    /// Cluster of the root directory.
    pub rootdir_cluster: u32,
    /// Volume serial number.
    pub volume_serial: u32,
    /// File-system version, major part.
    pub version_major: u8,
    /// File-system version, minor part.
    pub version_minor: u8,
    /// Volume-state flags.
    pub volume_state: u16,
    /// Sector size as a power-of-two exponent.
    pub sector_bits: u8,
    /// Sectors per cluster as a power-of-two exponent.
    pub spc_bits: u8,
    /// Number of allocation tables.
    pub fat_count: u8,
    /// BIOS drive number.
    pub drive_no: u8,
    /// Percentage of allocated clusters.
    pub allocated_percent: u8,
}

/// Sector at which the allocation-table region ends, after padding
/// its sector count to whole clusters so that the region after it
/// stays cluster aligned.
pub open spec fn spec_fat_end_sectors(p: MkfsParam) -> int {
    round_up_to(
        128 + div_ceil(spec_size(p, 2), p.sector_size as int),
        pow2(p.spc_bits as nat) as int,
    )
}

/// The super block the builder produces: each field a pure function
/// of the parameters and the resolved layout.
pub open spec fn spec_super_block(p: MkfsParam) -> ExfatSuperBlock {
    ExfatSuperBlock {
        sector_start: p.first_sector,
        sector_count: (p.volume_size as int / p.sector_size as int) as u64,
        fat_sector_start: 128,
        fat_sector_count: (spec_fat_end_sectors(p) - 128) as u32,
        cluster_sector_start: (spec_position(p, 3) / p.sector_size as int) as u32,
        cluster_count: (p.volume_size as int / p.cluster_size as int - spec_fat_end_sectors(p)
            / pow2(p.spc_bits as nat) as int) as u32,
        rootdir_cluster: ((spec_position(p, 5) - spec_position(p, 3)) / p.cluster_size as int
            + 2) as u32,
        volume_serial: p.volume_serial,
        version_major: 1,
        version_minor: 0,
        volume_state: 0,
        sector_bits: p.sector_bits as u8,
        spc_bits: p.spc_bits as u8,
        fat_count: 1,
        drive_no: 0x80,
        allocated_percent: 0,
    }
}

/// The padded allocation-table accounting stays consistent with the
/// resolved layout: the table's padded end lies at most one cluster
/// past the cluster heap's start, and in cluster units it leaves at
/// least one cluster of the volume.
proof fn lemma_fat_accounting(p: MkfsParam)
    requires
        p.wf(),
        spec_layout_end(p) <= p.volume_size,
    ensures
        128 <= spec_fat_end_sectors(p),
        spec_fat_end_sectors(p) * p.sector_size as int <= spec_position(p, 3)
            + p.cluster_size as int,
        spec_fat_end_sectors(p) / pow2(p.spc_bits as nat) as int <= p.volume_size as int
            / p.cluster_size as int - 1,
{
    reveal_with_fuel(spec_end, 8);
    reveal_with_fuel(spec_position, 8);
    reveal_with_fuel(spec_size, 8);
    lemma_param_bounds(p);
    lemma_layout_bounds(p);
    lemma_heap_chain_fits(p);
    lemma_allocated_bound(p);
    let ss = p.sector_size as int;
    let c = p.cluster_size as int;
    let v = p.volume_size as int;
    let m = pow2(p.spc_bits as nat) as int;
    let s2 = spec_size(p, 2);
    let fs = div_ceil(s2, ss);
    let fe = spec_fat_end_sectors(p);
    let pos3 = spec_position(p, 3);
    assert(m >= 1) by {
        lemma_pow2_pos(p.spc_bits as nat);
    }
    assert(m * ss == c) by {
        lemma_pow2_adds(p.spc_bits as nat, p.sector_bits as nat);
        assert(pow2(p.spc_bits as nat) * pow2(p.sector_bits as nat) == pow2(
            (p.spc_bits + p.sector_bits) as nat,
        ));
    }
    assert(fs >= 0) by {
        crate::arith::lemma_div_shrinks(s2, 1, ss);
    }
    lemma_round_up_to(128 + fs, m);
    lemma_round_up_to(s2, ss);
    assert(fs * ss < s2 + ss);
    let k = div_ceil(128 + fs, m);
    assert(fe == k * m);
    assert(fe < 128 + fs + m);
    assert(fe * ss < (128 + fs + m) * ss) by (nonlinear_arith)
        requires
            ss >= 1,
            fe < 128 + fs + m,
    ;
    assert((128 + fs + m) * ss == 128 * ss + fs * ss + m * ss) by (nonlinear_arith);
    assert(fe * ss < 128 * ss + s2 + ss + c);
    // the walk puts the table region exactly at sector 128
    assert(spec_position(p, 0) == 0) by {
        lemma_round_up_to(spec_end(p, 0), ss);
        vstd::arithmetic::div_mod::lemma_mod_self_0(ss);
    }
    assert(spec_position(p, 1) == 12 * ss) by {
        lemma_round_up_to(12 * ss, ss);
        vstd::arithmetic::div_mod::lemma_mod_multiples_basic(12, ss);
        assert(12 * ss == ss * 12) by (nonlinear_arith);
    }
    assert(spec_position(p, 2) == 128 * ss) by {
        assert(spec_end(p, 2) == 24 * ss);
        lemma_round_up_to(24 * ss, 128 * ss);
        assert(0 <= 24 * ss < 128 * ss) by (nonlinear_arith)
            requires
                ss >= 512,
        ;
        vstd::arithmetic::div_mod::lemma_small_mod((24 * ss) as nat, (128 * ss) as nat);
    }
    assert(pos3 >= 128 * ss + s2) by {
        lemma_round_up_to(spec_end(p, 3), c);
    }
    assert(fe * ss < pos3 + ss + c);
    // both ends are cluster multiples, so one cluster of slack closes
    let q3 = pos3 / c;
    vstd::arithmetic::div_mod::lemma_fundamental_div_mod(pos3, c);
    assert(pos3 == c * q3);
    assert(fe * ss == k * c) by (nonlinear_arith)
        requires
            fe == k * m,
            m * ss == c,
    ;
    assert(k * c < (q3 + 2) * c) by (nonlinear_arith)
        requires
            k * c < c * q3 + 2 * c,
    ;
    assert(k < q3 + 2) by (nonlinear_arith)
        requires
            c > 0,
            k * c < (q3 + 2) * c,
    ;
    assert(fe * ss <= (q3 + 1) * c) by (nonlinear_arith)
        requires
            fe * ss == k * c,
            k <= q3 + 1,
            c > 0,
    ;
    assert((q3 + 1) * c == pos3 + c) by (nonlinear_arith)
        requires
            pos3 == c * q3,
    ;
    // in cluster units
    assert(fe / m == k) by {
        assert(k >= 0) by {
            crate::arith::lemma_div_shrinks(128 + fs, 1, m);
        }
        vstd::arithmetic::div_mod::lemma_div_by_multiple(k, m);
    }
    assert(q3 + 2 <= v / c) by {
        assert(spec_allocated_clusters(p) >= 2);
        assert(q3 + spec_allocated_clusters(p) <= v / c);
    }
    assert(fe / m <= v / c - 1);
}

/// Builds the super block.  The root-directory field is the distance
/// from the cluster heap's start to the root directory's position in
/// cluster units, offset by the first data cluster index; the cluster
/// count subtracts the padded allocation-table footprint.  Fails
/// exactly when the cluster count or the heap's start sector does not
/// fit its 32-bit field.
pub fn build_super_block(p: &MkfsParam) -> (r: Result<ExfatSuperBlock, MkfsError>)
    requires
        p.wf(),
        spec_layout_end(*p) <= p.volume_size,
    ensures
        r is Err <==> p.volume_size as int / p.cluster_size as int > u32::MAX || spec_position(
            *p,
            3,
        ) / p.sector_size as int > u32::MAX,
        r matches Err(e) ==> e == MkfsError::FieldOverflow,
        r matches Ok(sb) ==> {
            &&& sb == spec_super_block(*p)
            &&& sb.rootdir_cluster == (spec_position(*p, 5) - spec_position(*p, 3))
                / p.cluster_size as int + 2
        },
{
    proof {
        lemma_param_bounds(*p);
        lemma_layout_bounds(*p);
        lemma_heap_chain_fits(*p);
        lemma_allocated_bound(*p);
        lemma_fat_accounting(*p);
        lemma_u64_pow2_no_overflow(p.spc_bits as nat);
        lemma2_to64();
    }
    let ss = p.sector_size;
    let c = p.cluster_size;
    let clusters_max: u64 = p.volume_size / c;
    if clusters_max > u32::MAX as u64 {
        return Err(MkfsError::FieldOverflow);
    }
    let pos_cbm = position_of(p, FsObjectType::Cbm);
    let cluster_sector_start: u64 = pos_cbm / ss;
    if cluster_sector_start > u32::MAX as u64 {
        return Err(MkfsError::FieldOverflow);
    }
    let fat_sectors: u64 = div_round_up(clusters_max * 4, ss);
    proof {
        assert(clusters_max * 4 == spec_size(*p, 2));
        lemma_u64_shl_is_mul(1u64, p.spc_bits as u64);
    }
    let spc_mult: u64 = 1u64 << (p.spc_bits as u64);
    let fat_sector_start: u64 = (128 * ss) / ss;
    proof {
        vstd::arithmetic::div_mod::lemma_div_by_multiple(128, ss as int);
        assert(128 * ss as int == 128 * ss as int);
        assert((128 * ss as int) / ss as int == 128);
        assert(spec_fat_end_sectors(*p) >= 128 + div_ceil(spec_size(*p, 2), ss as int)) by {
            lemma_round_up_to(
                128 + div_ceil(spec_size(*p, 2), ss as int),
                pow2(p.spc_bits as nat) as int,
            );
        }
        assert(spec_fat_end_sectors(*p) * ss as int <= spec_position(*p, 3) + c);
        assert(spec_fat_end_sectors(*p) <= 0x500_0000_0000_0000) by (nonlinear_arith)
            requires
                spec_fat_end_sectors(*p) * ss as int <= spec_position(*p, 3) + c,
                ss >= 512,
                0 <= spec_position(*p, 3) <= 0x401_0000_0000_0000,
                c <= 0x200_0000,
                spec_fat_end_sectors(*p) >= 0,
        ;
    }
    let fat_end_sectors: u64 = round_up(fat_sector_start + fat_sectors, spc_mult);
    let fat_sector_count: u64 = fat_end_sectors - 128;
    proof {
        lemma_u64_shr_is_div(fat_end_sectors, p.spc_bits as u64);
    }
    let fat_end_clusters: u64 = fat_end_sectors >> (p.spc_bits as u64);
    let cluster_count: u64 = clusters_max - fat_end_clusters;
    let pos_rd = position_of(p, FsObjectType::Rootdir);
    let rootdir_cluster: u64 = (pos_rd - pos_cbm) / c + 2;
    proof {
        assert((pos_rd - pos_cbm) as int / c as int + 2 <= clusters_max) by {
            let n1 = crate::layout::spec_chain_len(*p, 3);
            let n2 = crate::layout::spec_chain_len(*p, 4);
            assert((n1 + n2) * c as int == n1 * c as int + n2 * c as int) by (nonlinear_arith);
            assert(pos_rd as int - pos_cbm as int == (spec_chain_len_sum(*p)) * c as int);
            vstd::arithmetic::div_mod::lemma_div_by_multiple(
                spec_chain_len_sum(*p),
                c as int,
            );
            assert(spec_allocated_clusters(*p) == n1 + n2 + 1);
        }
        assert(fat_end_sectors as int / pow2(p.spc_bits as nat) as int <= clusters_max - 1);
        assert(fat_sector_count <= u32::MAX) by {
            assert(fat_end_sectors as int <= 0x500_0000_0000_0000);
            assert(spec_size(*p, 2) <= 4 * 0xffff_ffff);
            assert(div_ceil(spec_size(*p, 2), ss as int) <= spec_size(*p, 2) / 512 + 1) by {
                crate::arith::lemma_div_shrinks(spec_size(*p, 2), 512, ss as int);
            }
            lemma_round_up_to(
                128 + div_ceil(spec_size(*p, 2), ss as int),
                pow2(p.spc_bits as nat) as int,
            );
            assert(pow2(p.spc_bits as nat) <= pow2(16)) by {
                if p.spc_bits < 16 {
                    vstd::arithmetic::power2::lemma_pow2_strictly_increases(
                        p.spc_bits as nat,
                        16,
                    );
                }
            }
        }
    }
    Ok(
        ExfatSuperBlock {
            sector_start: p.first_sector,
            sector_count: p.volume_size / ss,
            fat_sector_start: fat_sector_start as u32,
            fat_sector_count: fat_sector_count as u32,
            cluster_sector_start: cluster_sector_start as u32,
            cluster_count: cluster_count as u32,
            rootdir_cluster: rootdir_cluster as u32,
            volume_serial: p.volume_serial,
            version_major: 1,
            version_minor: 0,
            volume_state: 0,
            sector_bits: p.sector_bits as u8,
            spc_bits: p.spc_bits as u8,
            fat_count: 1,
            drive_no: 0x80,
            allocated_percent: 0,
        },
    )
}

/// Clusters of the bitmap and the upper-case table together: the
/// distance from the heap's start to the root directory.
pub open spec fn spec_chain_len_sum(p: MkfsParam) -> int {
    crate::layout::spec_chain_len(p, 3) + crate::layout::spec_chain_len(p, 4)
}


/// On-disk bytes of the super-block sector: the jump code, the OEM
/// name, the fields of `ExfatSuperBlock` little endian at their fixed
/// offsets, zero padding, and the boot signature.
pub open spec fn spec_sb_bytes(sb: ExfatSuperBlock) -> Seq<u8> {
    seq![0xebu8, 0x76u8, 0x90u8] + seq![
        0x45u8,
        0x58u8,
        0x46u8,
        0x41u8,
        0x54u8,
        0x20u8,
        0x20u8,
        0x20u8,
    ] + spec_zeros(53) + spec_le64(sb.sector_start) + spec_le64(sb.sector_count) + spec_le32(
        sb.fat_sector_start,
    ) + spec_le32(sb.fat_sector_count) + spec_le32(sb.cluster_sector_start) + spec_le32(
        sb.cluster_count,
    ) + spec_le32(sb.rootdir_cluster) + spec_le32(sb.volume_serial) + seq![
        sb.version_minor,
        sb.version_major,
    ] + spec_le16(sb.volume_state) + seq![
        sb.sector_bits,
        sb.spc_bits,
        sb.fat_count,
        sb.drive_no,
        sb.allocated_percent,
    ] + spec_zeros(397) + spec_le16(0xaa55)
}

/// Serializes the super-block sector.
#[verifier::rlimit(100)]
pub fn sb_bytes(sb: &ExfatSuperBlock) -> (r: Vec<u8>)
    ensures
        r@ == spec_sb_bytes(*sb),
        r@.len() == 512,
{
    let mut r: Vec<u8> = Vec::new();
    r.push(0xeb);
    r.push(0x76);
    r.push(0x90);
    r.push(0x45);
    r.push(0x58);
    r.push(0x46);
    r.push(0x41);
    r.push(0x54);
    r.push(0x20);
    r.push(0x20);
    r.push(0x20);
    push_zeros(&mut r, 53);
    push_le64(&mut r, sb.sector_start);
    push_le64(&mut r, sb.sector_count);
    push_le32(&mut r, sb.fat_sector_start);
    push_le32(&mut r, sb.fat_sector_count);
    push_le32(&mut r, sb.cluster_sector_start);
    push_le32(&mut r, sb.cluster_count);
    push_le32(&mut r, sb.rootdir_cluster);
    push_le32(&mut r, sb.volume_serial);
    r.push(sb.version_minor);
    r.push(sb.version_major);
    push_le16(&mut r, sb.volume_state);
    r.push(sb.sector_bits);
    r.push(sb.spc_bits);
    r.push(sb.fat_count);
    r.push(sb.drive_no);
    r.push(sb.allocated_percent);
    push_zeros(&mut r, 397);
    push_le16(&mut r, 0xaa55);
    proof {
        assert(r@ =~= spec_sb_bytes(*sb));
    }
    r
}

/// A boot-signature sector: zeros with `0x55 0xaa` as its last two
/// bytes.
pub open spec fn spec_signature_sector(ss: int) -> Seq<u8> {
    spec_zeros(ss - 2) + seq![0x55u8, 0xaau8]
}

/// `k` copies of a byte sequence.
pub open spec fn spec_repeat(s: Seq<u8>, k: int) -> Seq<u8>
    decreases k,
{
    if k <= 0 {
        Seq::empty()
    } else {
        spec_repeat(s, k - 1) + s
    }
}

/// Length of a repetition.
pub proof fn lemma_repeat_len(s: Seq<u8>, k: int)
    requires
        k >= 0,
    ensures
        spec_repeat(s, k).len() == k * s.len(),
    decreases k,
{
    if k == 0 {
        assert(k * s.len() == 0) by (nonlinear_arith)
            requires
                k == 0,
        ;
    } else {
        lemma_repeat_len(s, k - 1);
        assert((k - 1) * s.len() + s.len() == k * s.len()) by (nonlinear_arith);
    }
}

/// Every aligned chunk of a repetition is the repeated sequence.
pub proof fn lemma_repeat_chunk(s: Seq<u8>, k: int, j: int)
    requires
        0 <= j < k,
        s.len() > 0,
    ensures
        spec_repeat(s, k).subrange(j * s.len(), (j + 1) * s.len()) == s,
    decreases k,
{
    lemma_repeat_len(s, k);
    lemma_repeat_len(s, k - 1);
    let n = s.len() as int;
    if j == k - 1 {
        assert(j * n + n == k * n) by (nonlinear_arith)
            requires
                j == k - 1,
        ;
        assert(spec_repeat(s, k).subrange(j * n, j * n + n) =~= s);
    } else {
        lemma_repeat_chunk(s, k - 1, j);
        assert(0 <= j * n && (j + 1) * n <= (k - 1) * n && (k - 1) * n <= k * n && (j + 1) * n
            == j * n + n) by (nonlinear_arith)
            requires
                0 <= j < k - 1,
                n > 0,
        ;
        assert forall|i: int| 0 <= i < n implies spec_repeat(s, k).subrange(
            j * n,
            (j + 1) * n,
        )[i] == s[i] by {
            assert(spec_repeat(s, k) == spec_repeat(s, k - 1) + s);
            assert(0 <= j * n + i && j * n + i < (k - 1) * n) by (nonlinear_arith)
                requires
                    0 <= j < k - 1,
                    0 <= i < n,
                    n > 0,
            ;
            assert((spec_repeat(s, k - 1) + s)[j * n + i] == spec_repeat(s, k - 1)[j * n + i]);
            assert(spec_repeat(s, k - 1).subrange(j * n, (j + 1) * n)[i] == s[i]);
        }
        assert(spec_repeat(s, k).subrange(j * n, (j + 1) * n) =~= s);
    }
}

/// The boot region's first eleven sectors: the super-block sector,
/// eight boot-signature sectors and two reserved zero sectors.
pub open spec fn spec_vbr_prefix(p: MkfsParam) -> Seq<u8> {
    spec_sb_bytes(spec_super_block(p)) + spec_repeat(
        spec_signature_sector(p.sector_size as int),
        8,
    ) + spec_zeros(2 * p.sector_size as int)
}

/// The whole emitted boot region: the prefix followed by the checksum
/// sector, which repeats the 32-bit reduction of the prefix across
/// the sector.
pub open spec fn spec_vbr_bytes(p: MkfsParam) -> Seq<u8> {
    spec_vbr_prefix(p) + spec_repeat(
        spec_le32(spec_vbr_checksum(spec_vbr_prefix(p))),
        p.sector_size as int / 4,
    )
}

/// Builds the boot-region bytes.  Both copies of the region use this
/// same image, so their content is identical by construction.
pub fn vbr_bytes(p: &MkfsParam) -> (r: Result<Vec<u8>, MkfsError>)
    requires
        p.wf(),
        spec_layout_end(*p) <= p.volume_size,
    ensures
        r is Err <==> p.volume_size as int / p.cluster_size as int > u32::MAX || spec_position(
            *p,
            3,
        ) / p.sector_size as int > u32::MAX,
        r matches Err(e) ==> e == MkfsError::FieldOverflow,
        r matches Ok(v) ==> v@ == spec_vbr_bytes(*p) && v@.len() == 512 + 11 * p.sector_size,
{
    proof {
        lemma_param_bounds(*p);
        lemma_sector_size_mod4(*p);
    }
    let sb = match build_super_block(p) {
        Ok(sb) => sb,
        Err(e) => {
            return Err(e);
        },
    };
    let ss: usize = p.sector_size as usize;
    let mut img = sb_bytes(&sb);
    let mut sig: Vec<u8> = Vec::new();
    push_zeros(&mut sig, ss - 2);
    sig.push(0x55);
    sig.push(0xaa);
    proof {
        assert(sig@ =~= spec_signature_sector(p.sector_size as int));
    }
    let mut k: usize = 0;
    while k < 8
        invariant
            0 <= k <= 8,
            sig@ == spec_signature_sector(p.sector_size as int),
            sig@.len() == p.sector_size,
            img@ == spec_sb_bytes(sb) + spec_repeat(
                spec_signature_sector(p.sector_size as int),
                k as int,
            ),
        decreases 8 - k,
    {
        img.extend_from_slice(sig.as_slice());
        proof {
            assert(img@ =~= spec_sb_bytes(sb) + spec_repeat(
                spec_signature_sector(p.sector_size as int),
                k + 1,
            ));
        }
        k = k + 1;
    }
    proof {
        lemma_repeat_len(spec_signature_sector(p.sector_size as int), 8);
    }
    push_zeros(&mut img, 2 * ss);
    let ghost pre = spec_vbr_prefix(*p);
    proof {
        assert(img@ =~= pre);
    }
    let n = img.len();
    let sum = vbr_checksum(&img, n);
    proof {
        assert(img@.take(n as int) =~= img@);
    }
    let words: usize = ss / 4;
    let mut j: usize = 0;
    while j < words
        invariant
            0 <= j <= words,
            sum == spec_vbr_checksum(pre),
            img@ == pre + spec_repeat(spec_le32(sum), j as int),
            pre == spec_vbr_prefix(*p),
            pre.len() == 512 + 10 * p.sector_size,
            words == p.sector_size / 4,
        decreases words - j,
    {
        push_le32(&mut img, sum);
        proof {
            assert(img@ =~= pre + spec_repeat(spec_le32(sum), j + 1));
        }
        j = j + 1;
    }
    proof {
        lemma_repeat_len(spec_le32(sum), words as int);
        assert(spec_le32(sum).len() == 4);
        assert(img@.len() == 512 + 10 * p.sector_size + (p.sector_size as int / 4) * 4);
        assert((p.sector_size as int / 4) * 4 == p.sector_size as int);
    }
    Ok(img)
}

/// A sector size is a multiple of four, so the checksum words tile
/// the checksum sector exactly.
proof fn lemma_sector_size_mod4(p: MkfsParam)
    requires
        p.wf(),
    ensures
        p.sector_size as int % 4 == 0,
        (p.sector_size as int / 4) * 4 == p.sector_size as int,
{
    lemma_pow2_adds(2, (p.sector_bits - 2) as nat);
    let q = pow2((p.sector_bits - 2) as nat) as int;
    assert(pow2(2) == 4) by {
        lemma2_to64();
    }
    assert(p.sector_size as int == q * 4) by (nonlinear_arith)
        requires
            p.sector_size == pow2(2) * pow2((p.sector_bits - 2) as nat),
            pow2(2) == 4,
            q == pow2((p.sector_bits - 2) as nat),
    ;
    vstd::arithmetic::div_mod::lemma_mod_multiples_basic(q, 4);
    assert((q * 4) % 4 == 0);
    vstd::arithmetic::div_mod::lemma_div_by_multiple(q, 4);
    assert((q * 4) / 4 == q);
}

/// Reading the checksum sector back reproduces the reduction over the
/// first eleven sectors: every aligned word of the written checksum
/// sector equals the little-endian reduction of everything before it.
pub proof fn lemma_vbr_checksum_roundtrip(p: MkfsParam)
    requires
        p.wf(),
        spec_layout_end(p) <= p.volume_size,
    ensures
        forall|k: int|
            0 <= k < p.sector_size as int / 4 ==> #[trigger] spec_vbr_bytes(p).subrange(
                512 + 10 * p.sector_size as int + 4 * k,
                512 + 10 * p.sector_size as int + 4 * k + 4,
            ) == spec_le32(
                spec_vbr_checksum(spec_vbr_bytes(p).take(512 + 10 * p.sector_size as int)),
            ),
{
    lemma_param_bounds(p);
    lemma_sector_size_mod4(p);
    let ss = p.sector_size as int;
    let pre = spec_vbr_prefix(p);
    let sum = spec_vbr_checksum(pre);
    let img = spec_vbr_bytes(p);
    assert(pre.len() == 512 + 10 * ss) by {
        lemma_repeat_len(spec_signature_sector(ss), 8);
    }
    lemma_repeat_len(spec_le32(sum), ss / 4);
    assert(img.take(512 + 10 * ss) =~= pre);
    assert forall|k: int| 0 <= k < ss / 4 implies #[trigger] img.subrange(
        512 + 10 * ss + 4 * k,
        512 + 10 * ss + 4 * k + 4,
    ) == spec_le32(spec_vbr_checksum(img.take(512 + 10 * ss))) by {
        lemma_repeat_chunk(spec_le32(sum), ss / 4, k);
        assert(0 <= 4 * k && 4 * k + 4 <= (ss / 4) * 4) by (nonlinear_arith)
            requires
                0 <= k < ss / 4,
        ;
        assert(img.subrange(512 + 10 * ss + 4 * k, 512 + 10 * ss + 4 * k + 4) =~= spec_repeat(
            spec_le32(sum),
            ss / 4,
        ).subrange(4 * k, 4 * k + 4));
        assert(spec_repeat(spec_le32(sum), ss / 4).subrange(k * 4, (k + 1) * 4) == spec_le32(
            sum,
        ));
        assert(4 * k == k * 4 && 4 * k + 4 == (k + 1) * 4) by (nonlinear_arith);
    }
}


/// The OEM name every exFAT boot sector carries.
pub open spec fn spec_oem_name() -> Seq<u8> {
    seq![0x45u8, 0x58u8, 0x46u8, 0x41u8, 0x54u8, 0x20u8, 0x20u8, 0x20u8]
}

/// The super block read back from a boot-sector image: the fields at
/// their fixed offsets, provided the sector carries the exFAT OEM
/// name.
pub open spec fn spec_parse_super_block(b: Seq<u8>) -> Option<ExfatSuperBlock> {
    if b.len() == 512 && b.subrange(3, 11) == spec_oem_name() {
        Some(
            ExfatSuperBlock {
                sector_start: spec_read_le64(b, 64),
                sector_count: spec_read_le64(b, 72),
                fat_sector_start: spec_read_le32(b, 80),
                fat_sector_count: spec_read_le32(b, 84),
                cluster_sector_start: spec_read_le32(b, 88),
                cluster_count: spec_read_le32(b, 92),
                rootdir_cluster: spec_read_le32(b, 96),
                volume_serial: spec_read_le32(b, 100),
                version_major: b[105],
                version_minor: b[104],
                volume_state: spec_read_le16(b, 106),
                sector_bits: b[108],
                spc_bits: b[109],
                fat_count: b[110],
                drive_no: b[111],
                allocated_percent: b[112],
            },
        )
    } else {
        None
    }
}

/// Reads a super block back from a boot-sector image; `None` when
/// the buffer is not one boot sector with the exFAT OEM name.
pub fn parse_super_block(b: &Vec<u8>) -> (r: Option<ExfatSuperBlock>)
    ensures
        r == spec_parse_super_block(b@),
{
    if b.len() != 512 {
        return None;
    }
    let oem: [u8; 8] = [0x45, 0x58, 0x46, 0x41, 0x54, 0x20, 0x20, 0x20];
    let mut i: usize = 0;
    while i < 8
        invariant
            0 <= i <= 8,
            b@.len() == 512,
            oem@ == spec_oem_name(),
            forall|j: int| 0 <= j < i ==> b@[3 + j] == spec_oem_name()[j],
        decreases 8 - i,
    {
        if b[3 + i] != oem[i] {
            proof {
                assert(b@.subrange(3, 11)[i as int] == b@[3 + i]);
            }
            return None;
        }
        i = i + 1;
    }
    proof {
        assert(b@.subrange(3, 11) =~= spec_oem_name());
    }
    Some(
        ExfatSuperBlock {
            sector_start: read_le64(b, 64),
            sector_count: read_le64(b, 72),
            fat_sector_start: read_le32(b, 80),
            fat_sector_count: read_le32(b, 84),
            cluster_sector_start: read_le32(b, 88),
            cluster_count: read_le32(b, 92),
            rootdir_cluster: read_le32(b, 96),
            volume_serial: read_le32(b, 100),
            version_major: b[105],
            version_minor: b[104],
            volume_state: read_le16(b, 106),
            sector_bits: b[108],
            spc_bits: b[109],
            fat_count: b[110],
            drive_no: b[111],
            allocated_percent: b[112],
        },
    )
}

/// Serializing a super block and reading it back yields the same
/// record: the sector layout loses no field.
#[verifier::rlimit(100)]
pub proof fn lemma_super_block_roundtrip(sb: ExfatSuperBlock)
    ensures
        spec_parse_super_block(spec_sb_bytes(sb)) == Some(sb),
{
    let b = spec_sb_bytes(sb);
    assert(b.len() == 512);
    assert(b.subrange(3, 11) =~= spec_oem_name());
    assert(b.subrange(64, 72) =~= spec_le64(sb.sector_start));
    lemma_le64_roundtrip(b, 64, sb.sector_start);
    assert(b.subrange(72, 80) =~= spec_le64(sb.sector_count));
    lemma_le64_roundtrip(b, 72, sb.sector_count);
    assert(b.subrange(80, 84) =~= spec_le32(sb.fat_sector_start));
    lemma_le32_roundtrip(b, 80, sb.fat_sector_start);
    assert(b.subrange(84, 88) =~= spec_le32(sb.fat_sector_count));
    lemma_le32_roundtrip(b, 84, sb.fat_sector_count);
    assert(b.subrange(88, 92) =~= spec_le32(sb.cluster_sector_start));
    lemma_le32_roundtrip(b, 88, sb.cluster_sector_start);
    assert(b.subrange(92, 96) =~= spec_le32(sb.cluster_count));
    lemma_le32_roundtrip(b, 92, sb.cluster_count);
    assert(b.subrange(96, 100) =~= spec_le32(sb.rootdir_cluster));
    lemma_le32_roundtrip(b, 96, sb.rootdir_cluster);
    assert(b.subrange(100, 104) =~= spec_le32(sb.volume_serial));
    lemma_le32_roundtrip(b, 100, sb.volume_serial);
    assert(b[104] == sb.version_minor && b[105] == sb.version_major);
    assert(b.subrange(106, 108) =~= spec_le16(sb.volume_state));
    lemma_le16_roundtrip(b, 106, sb.volume_state);
    assert(b[108] == sb.sector_bits && b[109] == sb.spc_bits && b[110] == sb.fat_count && b[111]
        == sb.drive_no && b[112] == sb.allocated_percent);
}

} // verus!
