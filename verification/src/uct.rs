//! Upper-case table region: the static case-folding data of the
//! volume.  The table maps every code unit of the basic plane to its
//! upper-case form, folding the ASCII letters and leaving every other
//! unit unchanged, and is emitted as little-endian 16-bit entries.

use vstd::prelude::*;

verus! {

/// Number of 16-bit entries of the table: one per code unit of the
/// basic plane.
pub const UPCASE_TABLE_CHARS: u64 = 0x10000;

/// Byte size of the table: two bytes per entry.
pub const UPCASE_TABLE_BYTES: u64 = 0x20000;

/// Upper-case form of a code unit: ASCII letters fold, everything
/// else stays.
pub open spec fn spec_upcase_unit(c: int) -> int {
    if 0x61 <= c <= 0x7a {
        c - 0x20
    } else {
        c
    }
}

/// The byte at offset `i` of the table: the little-endian pair of the
/// upper-case form of unit `i / 2`.
pub open spec fn spec_upcase_byte(i: int) -> int {
    let u = spec_upcase_unit(i / 2);
    if i % 2 == 0 {
        u % 0x100
    } else {
        u / 0x100
    }
}

/// The whole table as a byte sequence.
pub open spec fn spec_upcase_table() -> Seq<u8> {
    Seq::new(UPCASE_TABLE_BYTES as nat, |i: int| spec_upcase_byte(i) as u8)
}

/// Builds the table bytes.
pub fn upcase_table_bytes() -> (r: Vec<u8>)
    ensures
        r@ == spec_upcase_table(),
        r@.len() == UPCASE_TABLE_BYTES,
        forall|i: int| 0 <= i < r@.len() ==> r@[i] == spec_upcase_byte(i),
{
    let mut r: Vec<u8> = Vec::new();
    let mut c: u64 = 0;
    while c < UPCASE_TABLE_CHARS
        invariant
            0 <= c <= UPCASE_TABLE_CHARS,
            r@.len() == 2 * c,
            forall|i: int| 0 <= i < r@.len() ==> r@[i] == spec_upcase_byte(i),
        decreases UPCASE_TABLE_CHARS - c,
    {
        let u: u64 = if 0x61 <= c && c <= 0x7a {
            c - 0x20
        } else {
            c
        };
        r.push((u % 0x100) as u8);
        r.push((u / 0x100) as u8);
        proof {
            assert(2 * c as int / 2 == c as int);
            assert((2 * c as int + 1) / 2 == c as int);
        }
        c = c + 1;
    }
    proof {
        assert(r@ =~= spec_upcase_table());
    }
    r
}

} // verus!
