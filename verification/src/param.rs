//! Volume parameters: the immutable configuration every region writer
//! reads.  The sector and cluster sizes are powers of two given by
//! their exponents; the label is stored as a fixed array of UTF-16
//! units.

use crate::arith::div_ceil;
use crate::errors::MkfsError;
use crate::utf::{spec_utf16, utf8_to_utf16};
use vstd::arithmetic::power2::{
    lemma2_to64, lemma2_to64_rest, lemma_pow2_adds, lemma_pow2_pos, lemma_pow2_strictly_increases,
    pow2,
};
use vstd::bits::{lemma_u64_pow2_no_overflow, lemma_u64_shl_is_mul};
use vstd::prelude::*;

verus! {

/// Highest number of UTF-16 units a volume label entry can hold.
pub const EXFAT_ENAME_MAX: usize = 15;

/// First cluster index of the cluster heap.
pub const EXFAT_FIRST_DATA_CLUSTER: u32 = 2;

/// Highest cluster index exFAT can address.
pub const EXFAT_LAST_DATA_CLUSTER: u32 = 0xffff_fff6;

/// Largest volume size the engine accepts: every addressable cluster
/// index stays within `EXFAT_LAST_DATA_CLUSTER` at the largest
/// supported cluster size of 32 MiB.
pub const VOLUME_SIZE_MAX: u64 = 0x1ff_ffff_ec00_0000;

/// Immutable configuration of one construction run.
#[derive(Clone, Copy, Debug)]
pub struct MkfsParam {
    /// Sector size as a power-of-two exponent.
    pub sector_bits: i32,
    /// Sectors per cluster as a power-of-two exponent.
    pub spc_bits: i32,
    /// Size of the device in bytes.
    pub volume_size: u64,
    /// Volume label, UTF-16, zero padded.
    pub volume_label: [u16; 15],
    /// Volume serial number.
    pub volume_serial: u32,
    /// First sector of the partition on the whole disk.
    pub first_sector: u64,
    /// Derived byte size of one sector.
    pub sector_size: u64,
    /// Derived byte size of one cluster.
    pub cluster_size: u64,
}

impl MkfsParam {
    /// The exponents lie in the supported range (sectors of 512 bytes
    /// to 4 KiB, clusters up to 32 MiB) and the derived sizes agree
    /// with them.
    pub open spec fn wf(self) -> bool {
        &&& 9 <= self.sector_bits <= 12
        &&& 0 <= self.spc_bits
        &&& self.sector_bits + self.spc_bits <= 25
        &&& self.sector_size == pow2(self.sector_bits as nat)
        &&& self.cluster_size == pow2((self.sector_bits + self.spc_bits) as nat)
    }

    /// Derives the sector and cluster byte sizes from the exponents.
    pub fn new(
        sector_bits: i32,
        spc_bits: i32,
        volume_size: u64,
        volume_label: [u16; 15],
        volume_serial: u32,
        first_sector: u64,
    ) -> (r: Self)
        requires
            9 <= sector_bits <= 12,
            0 <= spc_bits,
            sector_bits + spc_bits <= 25,
        ensures
            r.wf(),
            r.sector_bits == sector_bits,
            r.spc_bits == spc_bits,
            r.volume_size == volume_size,
            r.volume_label == volume_label,
            r.volume_serial == volume_serial,
            r.first_sector == first_sector,
    {
        proof {
            lemma_u64_pow2_no_overflow(sector_bits as nat);
            lemma_u64_pow2_no_overflow((sector_bits + spc_bits) as nat);
            lemma_u64_shl_is_mul(1u64, sector_bits as u64);
        }
        let sector_size: u64 = 1u64 << (sector_bits as u64);
        proof {
            lemma_pow2_adds(sector_bits as nat, spc_bits as nat);
            lemma_u64_shl_is_mul(sector_size, spc_bits as u64);
        }
        let cluster_size: u64 = sector_size << (spc_bits as u64);
        Self {
            sector_bits,
            spc_bits,
            volume_size,
            volume_label,
            volume_serial,
            first_sector,
            sector_size,
            cluster_size,
        }
    }
}

/// Well-formed parameters have sector sizes between 512 bytes and
/// 4 KiB and cluster sizes between the sector size and 32 MiB, with
/// the cluster size a sector multiple.
pub proof fn lemma_param_bounds(p: MkfsParam)
    requires
        p.wf(),
    ensures
        512 <= p.sector_size <= 4096,
        p.sector_size <= p.cluster_size <= 0x200_0000,
        p.cluster_size == p.sector_size * pow2(p.spc_bits as nat),
        pow2(p.spc_bits as nat) >= 1,
{
    lemma2_to64();
    lemma_pow2_adds(p.sector_bits as nat, p.spc_bits as nat);
    lemma_pow2_pos(p.spc_bits as nat);
    if p.sector_bits < 12 {
        lemma_pow2_strictly_increases(p.sector_bits as nat, 12);
    }
    if p.sector_bits > 9 {
        lemma_pow2_strictly_increases(9, p.sector_bits as nat);
    }
    if p.sector_bits + p.spc_bits < 25 {
        lemma_pow2_strictly_increases((p.sector_bits + p.spc_bits) as nat, 25);
    }
    if p.spc_bits > 0 {
        lemma_pow2_strictly_increases(p.sector_bits as nat, (p.sector_bits + p.spc_bits) as nat);
    }
    assert(pow2(25) == 0x200_0000) by {
        lemma2_to64_rest();
    }
}

/// Exponent of the cluster size the engine picks on its own for a
/// volume: 4 KiB clusters below 256 MiB, 32 KiB clusters below 32 GiB,
/// and above that the smallest power of two from 128 KiB up that keeps
/// every cluster index addressable.
pub open spec fn spec_auto_cluster_exp(volume_size: int) -> int
    recommends
        0 <= volume_size <= VOLUME_SIZE_MAX,
{
    if volume_size < 0x1000_0000 {
        12
    } else if volume_size < 0x8_0000_0000 {
        15
    } else {
        spec_cluster_exp_from(volume_size, 17)
    }
}

/// The smallest exponent at or above `i` whose cluster count stays
/// addressable; stops at 25 (32 MiB), which always suffices below
/// `VOLUME_SIZE_MAX`.
pub open spec fn spec_cluster_exp_from(volume_size: int, i: int) -> int
    recommends
        17 <= i <= 25,
    decreases 25 - i,
{
    if i >= 25 || div_ceil(volume_size, pow2(i as nat) as int) <= EXFAT_LAST_DATA_CLUSTER {
        i
    } else {
        spec_cluster_exp_from(volume_size, i + 1)
    }
}

/// Picks the sectors-per-cluster exponent.  A caller-chosen exponent
/// is validated: it is rejected exactly when it would make the cluster
/// count exceed the addressable range, and the rejection carries the
/// smallest workable exponent.  Without a caller choice the default
/// rule of `spec_auto_cluster_exp` applies.
pub fn setup_spc_bits(sector_bits: i32, user_defined: i32, volume_size: u64) -> (r: Result<
    i32,
    MkfsError,
>)
    requires
        9 <= sector_bits <= 12,
        user_defined == -1 || (0 <= user_defined && sector_bits + user_defined <= 25),
        volume_size <= VOLUME_SIZE_MAX,
    ensures
        match r {
            Ok(spc) => {
                &&& 0 <= spc
                &&& sector_bits + spc <= 25
                &&& (user_defined != -1 ==> spc == user_defined && volume_size as int / pow2(
                    (sector_bits + user_defined) as nat,
                ) as int <= EXFAT_LAST_DATA_CLUSTER)
                &&& (user_defined == -1 ==> sector_bits + spc == spec_auto_cluster_exp(
                    volume_size as int,
                ) || (spc == 0 && sector_bits >= spec_auto_cluster_exp(volume_size as int)))
            },
            Err(e) => {
                &&& user_defined != -1
                &&& e matches MkfsError::ClusterSizeTooSmall { spc_bits: b, suggested_spc_bits: s }
                    && b == user_defined && s == (if spec_auto_cluster_exp(volume_size as int)
                    > sector_bits {
                    spec_auto_cluster_exp(volume_size as int) - sector_bits
                } else {
                    0
                })
                &&& volume_size as int / pow2((sector_bits + user_defined) as nat) as int
                    > EXFAT_LAST_DATA_CLUSTER
            },
        },
{
    proof {
        lemma_u64_pow2_no_overflow((sector_bits + 25) as nat);
    }
    if user_defined != -1 {
        proof {
            lemma_u64_pow2_no_overflow((sector_bits + user_defined) as nat);
            lemma_u64_shl_is_mul(1u64, (sector_bits + user_defined) as u64);
            lemma_pow2_pos((sector_bits + user_defined) as nat);
        }
        let cluster_size: u64 = 1u64 << ((sector_bits + user_defined) as u64);
        if volume_size / cluster_size > EXFAT_LAST_DATA_CLUSTER as u64 {
            let suggested = auto_cluster_exp(volume_size);
            let suggested_spc_bits: i32 = if suggested > sector_bits {
                suggested - sector_bits
            } else {
                0
            };
            return Err(MkfsError::ClusterSizeTooSmall { spc_bits: user_defined, suggested_spc_bits });
        }
        return Ok(user_defined);
    }
    let exp = auto_cluster_exp(volume_size);
    if exp > sector_bits {
        Ok(exp - sector_bits)
    } else {
        Ok(0)
    }
}

/// The cluster-size exponent of the default rule, before subtracting
/// the sector-size exponent.
fn auto_cluster_exp(volume_size: u64) -> (r: i32)
    requires
        volume_size <= VOLUME_SIZE_MAX,
    ensures
        r == spec_auto_cluster_exp(volume_size as int),
        12 <= r <= 25,
{
    if volume_size < 256 * 1024 * 1024 {
        return 12;
    }
    if volume_size < 32 * 1024 * 1024 * 1024 {
        return 15;
    }
    let mut i: i32 = 17;
    loop
        invariant
            17 <= i <= 25,
            volume_size <= VOLUME_SIZE_MAX,
            0x8_0000_0000 <= volume_size,
            spec_cluster_exp_from(volume_size as int, 17) == spec_cluster_exp_from(
                volume_size as int,
                i as int,
            ),
        ensures
            17 <= i <= 25,
            i == spec_cluster_exp_from(volume_size as int, 17),
        decreases 25 - i,
    {
        proof {
            lemma_u64_pow2_no_overflow(i as nat);
            lemma_u64_shl_is_mul(1u64, i as u64);
            lemma_pow2_pos(i as nat);
        }
        let cluster: u64 = 1u64 << (i as u64);
        if crate::arith::div_round_up(volume_size, cluster) <= EXFAT_LAST_DATA_CLUSTER as u64 {
            return i;
        }
        if i >= 25 {
            return i;
        }
        i = i + 1;
    }
}


/// Zero padding for the label array.
pub open spec fn spec_label_padding(n: int) -> Seq<u16> {
    Seq::new((15 - n) as nat, |i: int| 0u16)
}

/// Encodes the volume label into the fixed fifteen-unit array, zero
/// padded.  Rejected exactly when the label needs more than fifteen
/// UTF-16 units.
pub fn setup_volume_label(s: &str) -> (r: Result<[u16; 15], MkfsError>)
    ensures
        r is Ok <==> spec_utf16(s@).len() <= 15,
        r matches Ok(a) ==> a@ == spec_utf16(s@) + spec_label_padding(spec_utf16(s@).len() as int),
        r matches Err(e) ==> e == MkfsError::LabelTooLong,
{
    let mut v = utf8_to_utf16(s);
    if v.len() > 15 {
        return Err(MkfsError::LabelTooLong);
    }
    let ghost units = v@;
    while v.len() < 15
        invariant
            units == spec_utf16(s@),
            units.len() <= 15,
            v@.len() <= 15,
            v@ == units + Seq::new((v@.len() - units.len()) as nat, |i: int| 0u16),
        decreases 15 - v@.len(),
    {
        v.push(0);
        proof {
            assert(v@ =~= units + Seq::new((v@.len() - units.len()) as nat, |i: int| 0u16));
        }
    }
    let a: [u16; 15] = [
        v[0],
        v[1],
        v[2],
        v[3],
        v[4],
        v[5],
        v[6],
        v[7],
        v[8],
        v[9],
        v[10],
        v[11],
        v[12],
        v[13],
        v[14],
    ];
    proof {
        assert(a@ =~= v@);
    }
    Ok(a)
}

/// Relies on `std::time::SystemTime::now` and `duration_since`: the
/// clock's seconds since the epoch and its sub-second microsecond
/// part, which is below one million; nothing else is assumed of the
/// clock's value.
#[verifier::external_body]
fn unix_time_parts() -> (r: Option<(u64, u32)>)
    ensures
        r matches Some(t) ==> t.1 < 1_000_000,
{
    match std::time::SystemTime::now().duration_since(std::time::UNIX_EPOCH) {
        Ok(v) => Some((v.as_secs(), v.subsec_micros())),
        Err(_) => None,
    }
}

/// Serial number derived from a clock reading: the low twelve bits of
/// the seconds shifted above the twenty-bit microsecond part.
pub fn serial_from_time(secs: u64, micros: u32) -> (r: u32)
    requires
        micros < 1_000_000,
    ensures
        r == (secs as int % 0x1000) * 0x100000 + micros,
        r as int % 0x100000 == micros,
{
    proof {
        let a = secs as int % 0x1000;
        vstd::arithmetic::div_mod::lemma_mod_multiples_vanish(a, micros as int, 0x100000);
        vstd::arithmetic::div_mod::lemma_small_mod(micros as nat, 0x100000);
    }
    ((secs % 0x1000) as u32) * 0x100000 + micros
}

/// Picks the volume serial: the caller's value when nonzero, else a
/// value derived from the current time.  Fails only when the clock
/// cannot be read, which can happen only without a caller value.
pub fn setup_volume_serial(user_defined: u32) -> (r: Result<u32, MkfsError>)
    ensures
        user_defined != 0 ==> (r matches Ok(v) && v == user_defined),
        user_defined == 0 ==> (r matches Ok(v) ==> v as int % 0x100000 < 1_000_000),
        r matches Err(e) ==> e == MkfsError::ClockUnavailable && user_defined == 0,
{
    if user_defined != 0 {
        return Ok(user_defined);
    }
    match unix_time_parts() {
        Some(t) => Ok(serial_from_time(t.0, t.1)),
        None => Err(MkfsError::ClockUnavailable),
    }
}

/// Base-two logarithm of a sectors-per-cluster count: the exponent
/// when the count is a power of two below `2^31`, and `-1` otherwise.
pub fn logarithm2(n: i32) -> (r: i32)
    ensures
        -1 <= r < 31,
        r >= 0 ==> n == pow2(r as nat),
        r == -1 ==> forall|e: nat| e < 31 ==> pow2(e) != n,
{
    if n <= 0 {
        proof {
            assert forall|e: nat| e < 31 implies pow2(e) != n by {
                lemma_pow2_pos(e);
            }
        }
        return -1;
    }
    let mut i: i32 = 0;
    let mut p: u64 = 1;
    proof {
        lemma2_to64();
    }
    while i < 31
        invariant
            0 <= i <= 31,
            n > 0,
            p == pow2(i as nat),
            p <= 0x8000_0000,
            forall|e: nat| e < i ==> pow2(e) != n,
        decreases 31 - i,
    {
        if p == n as u64 {
            return i;
        }
        proof {
            if i < 30 {
                lemma_pow2_strictly_increases((i + 1) as nat, 31);
            }
            lemma2_to64();
            vstd::arithmetic::power2::lemma_pow2_unfold((i + 1) as nat);
        }
        p = p * 2;
        i = i + 1;
    }
    -1
}

/// Whether a caller-chosen cluster-size exponent is rejected: its
/// cluster count exceeds the addressable range.
pub open spec fn spec_spc_rejected(sector_bits: int, spc_bits: int, volume_size: int) -> bool {
    spc_bits != -1 && volume_size / pow2((sector_bits + spc_bits) as nat) as int
        > EXFAT_LAST_DATA_CLUSTER
}

/// Derives the full parameter set from the caller's inputs and the
/// device size: resolves the cluster-size exponent, encodes the
/// label, picks the serial, and computes the derived byte sizes.
/// The steps run in order and the first failing step's error comes
/// back: the cluster-size rejection, then the overlong label, then
/// the unreadable clock (possible only without a caller serial).
pub fn setup_params(
    volume_size: u64,
    sector_bits: i32,
    spc_bits: i32,
    volume_label: &str,
    volume_serial: u32,
    first_sector: u64,
) -> (r: Result<MkfsParam, MkfsError>)
    requires
        9 <= sector_bits <= 12,
        spc_bits == -1 || (0 <= spc_bits && sector_bits + spc_bits <= 25),
        volume_size <= VOLUME_SIZE_MAX,
    ensures
        r matches Ok(p) ==> {
            &&& p.wf()
            &&& p.volume_size == volume_size
            &&& p.sector_bits == sector_bits
            &&& p.first_sector == first_sector
            &&& (volume_serial != 0 ==> p.volume_serial == volume_serial)
            &&& p.volume_label@ == spec_utf16(volume_label@) + spec_label_padding(
                spec_utf16(volume_label@).len() as int,
            )
            &&& (spc_bits != -1 ==> p.spc_bits == spc_bits)
            &&& (spc_bits == -1 ==> sector_bits + p.spc_bits == spec_auto_cluster_exp(
                volume_size as int,
            ) || (p.spc_bits == 0 && sector_bits >= spec_auto_cluster_exp(volume_size as int)))
        },
        r matches Ok(p) ==> (volume_serial == 0 ==> p.volume_serial as int % 0x100000
            < 1_000_000),
        (r matches Err(MkfsError::ClusterSizeTooSmall { .. })) <==> spec_spc_rejected(
            sector_bits as int,
            spc_bits as int,
            volume_size as int,
        ),
        r == Err::<MkfsParam, MkfsError>(MkfsError::LabelTooLong) <==> (!spec_spc_rejected(
            sector_bits as int,
            spc_bits as int,
            volume_size as int,
        ) && spec_utf16(volume_label@).len() > 15),
        r == Err::<MkfsParam, MkfsError>(MkfsError::ClockUnavailable) ==> (!spec_spc_rejected(
            sector_bits as int,
            spc_bits as int,
            volume_size as int,
        ) && spec_utf16(volume_label@).len() <= 15 && volume_serial == 0),
        (!spec_spc_rejected(sector_bits as int, spc_bits as int, volume_size as int)
            && spec_utf16(volume_label@).len() <= 15 && volume_serial != 0) ==> r is Ok,
        r matches Err(e) ==> (e matches MkfsError::ClusterSizeTooSmall { .. } || e
            == MkfsError::LabelTooLong || e == MkfsError::ClockUnavailable),
{
    let spc = match setup_spc_bits(sector_bits, spc_bits, volume_size) {
        Ok(v) => v,
        Err(e) => {
            return Err(e);
        },
    };
    let label = match setup_volume_label(volume_label) {
        Ok(v) => v,
        Err(e) => {
            return Err(e);
        },
    };
    let serial = match setup_volume_serial(volume_serial) {
        Ok(v) => v,
        Err(e) => {
            return Err(e);
        },
    };
    Ok(MkfsParam::new(sector_bits, spc, volume_size, label, serial, first_sector))
}

} // verus!
