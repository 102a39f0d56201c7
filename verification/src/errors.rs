//! Error taxonomy of the construction engine.
//!
//! Configuration errors are detected before any layout work, the
//! capacity error after layout resolution but before any byte is
//! produced, and the overflow errors while a region's content is being
//! computed.  Device input/output failures are not represented here:
//! the library performs no device access, so those stay with the
//! caller.

use vstd::prelude::*;

verus! {

/// Everything that can go wrong while computing a volume's layout and
/// its region contents.
#[derive(Clone, Copy, Debug, PartialEq, Eq, Structural)]
pub enum MkfsError {
    /// The requested cluster size yields more clusters than exFAT can
    /// address on this volume; `suggested_spc_bits` is the smallest
    /// workable sectors-per-cluster exponent.
    ClusterSizeTooSmall { spc_bits: i32, suggested_spc_bits: i32 },
    /// The volume label does not fit the fifteen UTF-16 units of the
    /// label directory entry.
    LabelTooLong,
    /// The resolved layout needs `required` bytes but the device only
    /// offers `available`.
    CapacityExceeded { required: u64, available: u64 },
    /// A cluster-chain entry wrapped around the 32-bit cluster space.
    ClusterChainOverflow,
    /// A computed value does not fit its on-disk field.
    FieldOverflow,
    /// The system clock could not supply a serial number.
    ClockUnavailable,
}

} // verus!
