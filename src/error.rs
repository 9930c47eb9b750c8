//! What can go wrong when a volume is read or laid out.

use vstd::prelude::*;

verus! {

/// Structurally impossible volume data, or a layout that cannot be made.
#[derive(Clone, Copy, Debug, PartialEq, Eq, Structural)]
pub enum FormatError {
    /// The superblock holds fewer bytes than its fixed fields need.
    TooSmall,
    /// The superblock does not start with the magic tag.
    BadMagic,
    /// The superblock records a block size of zero.
    ZeroBlockSize,
    /// More blocks or inodes were asked for than the bitmaps can track.
    CapacityOutOfRange,
    /// The requested block size lies outside the supported range.
    BlockSizeOutOfRange,
    /// The fixed regions leave no room for a single data block.
    NoDataRegion,
}

/// Why a query on a mounted volume has no answer.
#[derive(Clone, Copy, Debug, PartialEq, Eq, Structural)]
pub enum FsError {
    /// A block that the query needs cannot be read.
    Io,
    /// No such name or inode.
    NotFound,
    /// A directory was required.
    NotADirectory,
    /// A regular file was required.
    IsADirectory,
}

} // verus!

verus! {

/// Why a volume could not be mounted.
#[derive(Clone, Copy, Debug, PartialEq, Eq, Structural)]
pub enum MountError {
    /// Block 0 or a block of the inode table cannot be read.
    Io,
    /// Block 0 does not hold a usable superblock.
    Format(FormatError),
}

} // verus!
