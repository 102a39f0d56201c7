//! The 32-bit rotating checksum of the boot region and the upper-case
//! table: the running sum is rotated right by one bit, then the next
//! byte is added with 32-bit wrap-around.  For the boot region the
//! three bytes holding the volume-state flags and the percent-in-use
//! field are left out of the reduction, so that a checker can accept a
//! volume whose state changed after formatting.

use vstd::prelude::*;

verus! {

/// Offsets of the boot sector excluded from the boot-region checksum:
/// the two volume-state bytes and the percent-in-use byte.
pub open spec fn vbr_checksum_skips(i: int) -> bool {
    i == 0x6a || i == 0x6b || i == 0x70
}

/// One reduction step: rotate the sum right one bit, add the byte,
/// wrap to 32 bits.
pub open spec fn spec_checksum_step(sum: u32, b: u8) -> u32 {
    (((((sum >> 1) | (sum << 31)) as u64 + b as u64) % 0x1_0000_0000) as u32)
}

/// Reduction over `bytes[i..]` starting from `sum`, skipping the
/// excluded boot-sector offsets.
pub open spec fn spec_vbr_checksum_from(bytes: Seq<u8>, i: int, sum: u32) -> u32
    decreases bytes.len() - i,
{
    if i < 0 || i >= bytes.len() {
        sum
    } else if vbr_checksum_skips(i) {
        spec_vbr_checksum_from(bytes, i + 1, sum)
    } else {
        spec_vbr_checksum_from(bytes, i + 1, spec_checksum_step(sum, bytes[i]))
    }
}

/// Boot-region checksum of a byte sequence.
pub open spec fn spec_vbr_checksum(bytes: Seq<u8>) -> u32 {
    spec_vbr_checksum_from(bytes, 0, 0)
}

/// Reduction over `bytes[i..]` starting from `sum`, taking every byte.
pub open spec fn spec_plain_checksum_from(bytes: Seq<u8>, i: int, sum: u32) -> u32
    decreases bytes.len() - i,
{
    if i < 0 || i >= bytes.len() {
        sum
    } else {
        spec_plain_checksum_from(bytes, i + 1, spec_checksum_step(sum, bytes[i]))
    }
}

/// Checksum of the upper-case table: the same reduction over every
/// byte of the table.
pub open spec fn spec_upcase_checksum(bytes: Seq<u8>) -> u32 {
    spec_plain_checksum_from(bytes, 0, 0)
}

/// Computes the boot-region checksum of the first `n` bytes.
pub fn vbr_checksum(buf: &Vec<u8>, n: usize) -> (r: u32)
    requires
        n <= buf@.len(),
    ensures
        r == spec_vbr_checksum(buf@.take(n as int)),
{
    let ghost pfx = buf@.take(n as int);
    let mut sum: u32 = 0;
    let mut i: usize = 0;
    while i < n
        invariant
            0 <= i <= n <= buf@.len(),
            pfx == buf@.take(n as int),
            spec_vbr_checksum_from(pfx, i as int, sum) == spec_vbr_checksum(pfx),
        decreases n - i,
    {
        if !(i == 0x6a || i == 0x6b || i == 0x70) {
            let rot: u32 = (sum >> 1u32) | (sum << 31u32);
            let wide: u64 = rot as u64 + buf[i] as u64;
            proof {
                assert(pfx[i as int] == buf@[i as int]);
            }
            sum = (wide % 0x1_0000_0000) as u32;
        }
        i = i + 1;
    }
    sum
}

/// Computes the upper-case table checksum of the whole buffer.
pub fn upcase_checksum(buf: &Vec<u8>) -> (r: u32)
    ensures
        r == spec_upcase_checksum(buf@),
{
    let n = buf.len();
    let mut sum: u32 = 0;
    let mut i: usize = 0;
    while i < n
        invariant
            0 <= i <= n == buf@.len(),
            spec_plain_checksum_from(buf@, i as int, sum) == spec_upcase_checksum(buf@),
        decreases n - i,
    {
        let rot: u32 = (sum >> 1u32) | (sum << 31u32);
        let wide: u64 = rot as u64 + buf[i] as u64;
        sum = (wide % 0x1_0000_0000) as u32;
        i = i + 1;
    }
    sum
}

} // verus!
