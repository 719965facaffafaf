//! A block device seen from the start of a partition, with the sector read
//! last kept in memory.

use vstd::prelude::*;
use crate::device::{has_sector, sector_of, BlockDevice, IoError};

verus! {

/// The bytes of the partition that starts at sector `origin` of a medium
/// holding `contents`.
pub open spec fn volume_of(contents: Seq<u8>, origin: int) -> Seq<u8> {
    if 0 <= origin && origin * 512 <= contents.len() {
        contents.skip(origin * 512)
    } else {
        Seq::empty()
    }
}

/// Sector `n` of a partition is sector `origin + n` of the medium.
pub proof fn lemma_volume_sector(contents: Seq<u8>, origin: int, n: int)
    requires
        0 <= origin,
        0 <= n,
    ensures
        has_sector(volume_of(contents, origin), n) == has_sector(contents, origin + n),
        has_sector(contents, origin + n) ==> sector_of(volume_of(contents, origin), n) == sector_of(
            contents,
            origin + n,
        ),
{
    if has_sector(contents, origin + n) {
        assert(origin * 512 <= contents.len());
        assert(sector_of(volume_of(contents, origin), n) =~= sector_of(contents, origin + n));
    }
}

/// A block device whose sectors are counted from the start of a partition.
///
/// The sector read last is kept in a single slot, under its index on the
/// device: reading it again does not reach the device. Only the read of
/// another sector replaces it.
pub struct CachedDevice<D: BlockDevice> {
    device: D,
    origin: u64,
    slot: Option<(u64, [u8; 512])>,
}

impl<D: BlockDevice> CachedDevice<D> {
    /// The device underneath.
    pub closed spec fn device(&self) -> D {
        self.device
    }

    /// The sector of the device at which the partition starts.
    pub closed spec fn origin(&self) -> u64 {
        self.origin
    }

    /// The index on the device of the sector that the slot holds.
    pub closed spec fn cached(&self) -> Option<u64> {
        match self.slot {
            Some((index, _)) => Some(index),
            None => None,
        }
    }

    /// The bytes of the partition.
    pub open spec fn volume(&self) -> Seq<u8> {
        volume_of(self.device().contents(), self.origin() as int)
    }

    /// Whether every read of an existing sector succeeds.
    pub open spec fn reliable(&self) -> bool {
        self.device().reliable()
    }

    /// The slot holds what the medium holds.
    pub closed spec fn inv(&self) -> bool {
        match self.slot {
            Some((index, data)) => has_sector(self.device.contents(), index as int) && data@
                == sector_of(self.device.contents(), index as int),
            None => true,
        }
    }

    /// A reader of the partition of `device` that starts at sector `origin`,
    /// with nothing cached.
    pub fn new(device: D, origin: u64) -> (cached: CachedDevice<D>)
        ensures
            cached.inv(),
            cached.device() == device,
            cached.origin() == origin,
            cached.cached() is None,
    {
        CachedDevice { device, origin, slot: None }
    }

    /// Gives the device back.
    pub fn into_inner(self) -> (device: D)
        ensures
            device == self.device(),
    {
        self.device
    }

    /// Reads sector `n` of the partition: sector `origin + n` of the device.
    ///
    /// If the slot holds that sector, the read succeeds without reaching the
    /// device. Otherwise the device is read once, and the slot takes the
    /// sector if that succeeds and stays as it is if not.
    pub fn read_sector(&mut self, n: u64) -> (r: Result<[u8; 512], IoError>)
        requires
            old(self).inv(),
            old(self).origin() + n <= u64::MAX,
        ensures
            final(self).inv(),
            final(self).origin() == old(self).origin(),
            final(self).device().contents() == old(self).device().contents(),
            final(self).device().reliable() == old(self).device().reliable(),
            final(self).volume() == old(self).volume(),
            old(self).cached() == Some((old(self).origin() + n) as u64) ==> r is Ok && *final(self)
                == *old(self),
            match r {
                Ok(data) => has_sector(old(self).volume(), n as int) && data@ == sector_of(
                    old(self).volume(),
                    n as int,
                ) && final(self).cached() == Some((old(self).origin() + n) as u64),
                Err(e) => final(self).cached() == old(self).cached() && (old(self).reliable()
                    ==> !has_sector(old(self).volume(), n as int) && e == IoError::InvalidInput),
            },
    {
        proof {
            lemma_volume_sector(self.device.contents(), self.origin as int, n as int);
        }
        let index = self.origin + n;
        match &self.slot {
            Some((held, data)) => {
                if *held == index {
                    return Ok(*data);
                }
            },
            None => {},
        }
        match self.device.read_sector(index) {
            Ok(data) => {
                self.slot = Some((index, data));
                Ok(data)
            },
            Err(e) => Err(e),
        }
    }
}

} // verus!
