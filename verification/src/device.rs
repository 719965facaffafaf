//! The block device that the file system reads from.

use vstd::prelude::*;

verus! {

/// Why a block device could not complete a request.
#[derive(Clone, Copy, Debug, PartialEq, Eq, Structural)]
pub enum IoError {
    /// The request named a sector that the medium does not have.
    InvalidInput,
    /// The device did not answer in time.
    TimedOut,
    /// The medium cannot be written.
    Unsupported,
    /// Any other failure of the device.
    Other,
}

/// Whether a medium holding `contents` has a whole sector number `n`.
pub open spec fn has_sector(contents: Seq<u8>, n: int) -> bool {
    0 <= n && (n + 1) * 512 <= contents.len()
}

/// The bytes of sector `n` of a medium holding `contents`.
pub open spec fn sector_of(contents: Seq<u8>, n: int) -> Seq<u8> {
    contents.subrange(n * 512, n * 512 + 512)
}

/// A medium that is read one 512-byte sector at a time.
///
/// The medium is immutable: no operation changes `contents()`. A device that
/// is `reliable()` fails a read only for a sector that the medium does not
/// have; any other device may fail any read.
pub trait BlockDevice: Sized {
    /// The bytes on the medium, sector 0 first.
    ///
    /// A device that does not say what its medium holds leaves this at an
    /// unspecified sequence, and vouches that what it reads is what one
    /// unchanging medium holds.
    open spec fn contents(&self) -> Seq<u8> {
        arbitrary()
    }

    /// Whether every read of an existing sector succeeds. A device that does
    /// not say so makes no such promise.
    open spec fn reliable(&self) -> bool {
        false
    }

    /// Reads sector `n`.
    fn read_sector(&mut self, n: u64) -> (r: Result<[u8; 512], IoError>)
        ensures
            final(self).contents() == old(self).contents(),
            final(self).reliable() == old(self).reliable(),
            match r {
                Ok(data) => has_sector(old(self).contents(), n as int) && data@ == sector_of(
                    old(self).contents(),
                    n as int,
                ),
                Err(e) => old(self).reliable() ==> !has_sector(old(self).contents(), n as int)
                    && e == IoError::InvalidInput,
            },
    ;

    /// Refuses to write: the medium is read-only.
    fn write_sector(&mut self, n: u64, buf: &[u8]) -> (r: Result<usize, IoError>)
        ensures
            final(self).contents() == old(self).contents(),
            final(self).reliable() == old(self).reliable(),
            r == Err::<usize, IoError>(IoError::Unsupported),
    ;
}

/// A disk image held in memory.
pub struct RamDisk {
    image: Vec<u8>,
}

impl RamDisk {
    /// A device over the bytes of `image`. A trailing part of the image that
    /// does not fill a sector cannot be read.
    pub fn new(image: Vec<u8>) -> (disk: RamDisk)
        ensures
            disk.contents() == image@,
            disk.reliable(),
    {
        RamDisk { image }
    }

    /// Number of whole sectors in the image.
    pub fn sector_count(&self) -> (n: usize)
        ensures
            n == self.contents().len() / 512,
    {
        self.image.len() / 512
    }
}

impl BlockDevice for RamDisk {
    closed spec fn contents(&self) -> Seq<u8> {
        self.image@
    }

    open spec fn reliable(&self) -> bool {
        true
    }

    fn read_sector(&mut self, n: u64) -> (r: Result<[u8; 512], IoError>) {
        let count = self.image.len() / 512;
        if n >= count as u64 {
            return Err(IoError::InvalidInput);
        }
        let start: usize = (n as usize) * 512;
        let mut data = [0u8; 512];
        let mut i: usize = 0;
        while i < 512
            invariant
                i <= 512,
                start + 512 <= self.image.len(),
                start == n * 512,
                forall|j: int| 0 <= j < i ==> data@[j] == self.image@[start + j],
            decreases 512 - i,
        {
            data[i] = self.image[start + i];
            i += 1;
        }
        assert(data@ =~= sector_of(self.image@, n as int));
        Ok(data)
    }

    fn write_sector(&mut self, n: u64, buf: &[u8]) -> (r: Result<usize, IoError>) {
        Err(IoError::Unsupported)
    }
}

} // verus!
