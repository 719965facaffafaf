//! The failures of the file system engine.

use vstd::prelude::*;
use crate::device::IoError;
use crate::mbr;

verus! {

/// Why an operation of the file system failed.
#[derive(Clone, Copy, Debug, PartialEq, Eq, Structural)]
pub enum Error {
    /// The block device failed with the error held.
    Io(IoError),
    /// The signature of the master boot record or of the BIOS parameter
    /// block is wrong.
    BadSignature,
    /// Partition `.0` (0-indexed) of the master boot record has a boot
    /// indicator that the format does not define.
    UnknownBootIndicator(u8),
    /// The BIOS parameter block describes sectors or clusters whose size is
    /// not a power of two, or sectors smaller than those of the device.
    InvalidGeometry,
    /// A cluster chain runs into a bad cluster, a free or reserved entry, or
    /// a cluster that the volume does not have.
    CorruptChain,
    /// A cluster chain is longer than the number of clusters of the volume,
    /// as a chain with a cycle is.
    ChainTooLong,
    /// The disk has no FAT32 partition, or a directory has no entry of the
    /// name looked for.
    NotFound,
    /// A component of a path other than the last names a file.
    NotADirectory,
    /// The operation would change the volume.
    ReadOnlyFilesystem,
}

/// The failure of the engine that stands for a failure to read the master
/// boot record.
pub open spec fn spec_from_mbr(e: mbr::Error) -> Error {
    match e {
        mbr::Error::Io(io) => Error::Io(io),
        mbr::Error::UnknownBootIndicator(n) => Error::UnknownBootIndicator(n),
        mbr::Error::BadSignature => Error::BadSignature,
    }
}

impl Error {
    /// Takes a failure to read the master boot record over, kind by kind.
    pub fn from_mbr(e: mbr::Error) -> (r: Error)
        ensures
            r == spec_from_mbr(e),
    {
        match e {
            mbr::Error::Io(io) => Error::Io(io),
            mbr::Error::UnknownBootIndicator(n) => Error::UnknownBootIndicator(n),
            mbr::Error::BadSignature => Error::BadSignature,
        }
    }

    /// Whether this is a failure of the block device.
    pub fn is_io(&self) -> (r: bool)
        ensures
            r == (*self matches Error::Io(_)),
    {
        match self {
            Error::Io(_) => true,
            _ => false,
        }
    }
}

} // verus!
