//! Attribute-flag decision of the attribute-editing tool: computing a
//! node's new attribute word from the flags to set and to clear.  The
//! tool reads the word from a mounted volume, applies this decision
//! and writes the result back; only the decision itself is pure.

use vstd::prelude::*;

verus! {

/// Read-only flag.
pub const EXFAT_ATTRIB_RO: u16 = 0x01;

/// Hidden flag.
pub const EXFAT_ATTRIB_HIDDEN: u16 = 0x02;

/// System flag.
pub const EXFAT_ATTRIB_SYSTEM: u16 = 0x04;

/// Volume flag; read only.
pub const EXFAT_ATTRIB_VOLUME: u16 = 0x08;

/// Directory flag; read only.
pub const EXFAT_ATTRIB_DIR: u16 = 0x10;

/// Archive flag.
pub const EXFAT_ATTRIB_ARCH: u16 = 0x20;

/// The new attribute word: the added flags set, the cleared flags
/// removed.
pub fn apply_attrib_flags(attrib: u16, add_flags: u16, clear_flags: u16) -> (r: u16)
    ensures
        r == (attrib | add_flags) & !clear_flags,
{
    (attrib | add_flags) & !clear_flags
}

/// Whether a flag set asks to set and clear the same flag, which the
/// tool refuses before touching the volume.
pub fn attrib_flags_conflict(add_flags: u16, clear_flags: u16) -> (r: bool)
    ensures
        r == (add_flags & clear_flags != 0),
{
    add_flags & clear_flags != 0
}

} // verus!
