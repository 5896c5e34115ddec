//! Decoders for the on-disk layout of a FAT32 volume: the boot sector's
//! BIOS Parameter Block, the FAT32 extended BPB, and 32-byte directory
//! entries, including reassembly of long file names that FAT32 spreads
//! across several auxiliary entries.
//!
//! Every decoder is a pure function over a fixed-size byte window; a
//! window shorter than the structure it should hold is rejected with
//! [`FatError::TruncatedInput`] rather than zero-filled.

use vstd::prelude::*;

pub mod boot;
pub mod bytes;
pub mod dir;
pub mod ext;
pub mod scan;
pub mod time;

verus! {

/// Errors surfaced by the decoders, plus the I/O failure that a caller
/// doing the actual reads may need to report alongside them.
#[derive(Debug, Clone, Copy, PartialEq, Eq)]
pub enum FatError {
    /// Fewer bytes were available than the fixed-layout structure requires.
    TruncatedInput { expected: usize, available: usize },
    /// An underlying read or seek failed; produced only by callers that own
    /// the byte source, never by the decoders themselves.
    IoFailure,
}

} // verus!
