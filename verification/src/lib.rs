//! Construction engine for fresh exFAT volumes.
//!
//! The library computes the physical layout of every on-disk metadata
//! region of a new exFAT file system and produces the byte-exact content
//! of each region: the boot region (VBR) with its checksum sector, the
//! file allocation table, the cluster allocation bitmap, the upper-case
//! table and the bootstrap root directory.  All device input and output
//! is left to the caller, which hands the produced bytes to a block
//! device at the positions the layout resolver assigns.

pub mod arith;
pub mod attrib;
pub mod cbm;
pub mod checksum;
pub mod codec;
pub mod errors;
pub mod fat;
pub mod layout;
pub mod mkexfat;
pub mod modfs;
pub mod param;
pub mod rootdir;
pub mod uct;
pub mod utf;
pub mod vbr;
