//! A mounted FAT32 volume.

use vstd::prelude::*;
use crate::cache::{volume_of, CachedDevice};
use crate::device::{has_sector, sector_of, BlockDevice, IoError};
use crate::ebpb;
use crate::ebpb::BiosParameterBlock;
use crate::error::{spec_from_mbr, Error};
use crate::fat::{
    lemma_clusters_data_fails, reads_cluster, reads_table, span, walk_reads, spec_chain, spec_chain_within, spec_clusters_data,
    spec_next, spec_read_chain, spec_read_cluster, spec_sector_geometry, spec_step, spec_walk,
    Geometry, Link,
};
use crate::mbr;
use crate::mbr::MasterBootRecord;
use crate::util::{copy_into, le_u32, spec_le_u32};

verus! {

/// The sector at which the first FAT32 partition of a medium holding
/// `contents` starts, or why none is found.
pub open spec fn spec_partition(contents: Seq<u8>) -> Result<u32, Error> {
    match mbr::spec_read(contents) {
        Err(e) => Err(spec_from_mbr(e)),
        Ok(table) => match mbr::spec_fat_partition_offset(table) {
            None => Err(Error::NotFound),
            Some(origin) => Ok(origin),
        },
    }
}

/// What mounting a medium holding `contents` gives when the device does not
/// fail: the sector at which the first FAT32 partition starts and the layout
/// of its volume, or the first failure in reading the master boot record,
/// finding the partition, reading its parameter block and computing the
/// layout.
pub open spec fn spec_mount(contents: Seq<u8>) -> Result<(u32, Geometry), Error> {
    match spec_partition(contents) {
        Err(e) => Err(e),
        Ok(origin) => if !has_sector(contents, origin as int) {
            Err(Error::Io(IoError::InvalidInput))
        } else if !ebpb::signature_ok(sector_of(contents, origin as int)) {
            Err(Error::BadSignature)
        } else {
            match spec_sector_geometry(sector_of(contents, origin as int)) {
                Err(e) => Err(e),
                Ok(geometry) => Ok((origin, geometry)),
            }
        },
    }
}

/// The result `r` with the vector replaced by the sequence that it holds.
pub open spec fn seq_of<T>(r: Result<Vec<T>, Error>) -> Result<Seq<T>, Error> {
    match r {
        Ok(v) => Ok(v@),
        Err(e) => Err(e),
    }
}

/// Whether `r` is a failure of the block device.
pub open spec fn is_io_failure<T>(r: Result<T, Error>) -> bool {
    r matches Err(Error::Io(_))
}

/// A mounted volume: the block device, read from the start of the partition,
/// and the layout of the volume.
pub struct VFat<D: BlockDevice> {
    device: CachedDevice<D>,
    geometry: Geometry,
}

impl<D: BlockDevice> VFat<D> {
    /// The reader of the partition.
    pub closed spec fn cached_device(&self) -> CachedDevice<D> {
        self.device
    }

    /// The layout of the volume.
    pub closed spec fn geometry(&self) -> Geometry {
        self.geometry
    }

    /// The bytes of the partition.
    pub open spec fn volume(&self) -> Seq<u8> {
        self.cached_device().volume()
    }

    /// Whether the device fails only reads of sectors that do not exist.
    pub open spec fn reliable(&self) -> bool {
        self.cached_device().reliable()
    }

    /// The sector of the device at which the partition starts.
    pub open spec fn origin(&self) -> u64 {
        self.cached_device().origin()
    }

    /// The cache is true to the medium, and the layout keeps its bounds.
    pub closed spec fn inv(&self) -> bool {
        &&& self.device.inv()
        &&& self.device.origin() <= u32::MAX
        &&& self.geometry.wf()
    }

    /// Whether `self` is the volume `before` after some reads: the medium,
    /// the partition and the layout are the same.
    pub open spec fn same_volume(&self, before: &VFat<D>) -> bool {
        &&& self.volume() == before.volume()
        &&& self.geometry() == before.geometry()
        &&& self.reliable() == before.reliable()
        &&& self.origin() == before.origin()
        &&& self.cached_device().device().contents() == before.cached_device().device().contents()
    }

    /// Mounts the first FAT32 partition of `device`.
    ///
    /// Reads the master boot record, takes the first partition of type `0x0B`
    /// or `0x0C`, reads the parameter block in its first sector and computes
    /// the layout of the volume. Fails with `NotFound` if the disk has no
    /// such partition, and with the failure of the step that failed
    /// otherwise.
    pub fn from(device: D) -> (r: Result<VFat<D>, Error>)
        ensures
            match r {
                Ok(fs) => {
                    &&& fs.inv()
                    &&& spec_mount(device.contents()) == Ok::<(u32, Geometry), Error>(
                        (fs.origin() as u32, fs.geometry()),
                    )
                    &&& fs.origin() <= u32::MAX
                    &&& fs.cached_device().device().contents() == device.contents()
                    &&& fs.reliable() == device.reliable()
                    &&& fs.volume() == volume_of(device.contents(), fs.origin() as int)
                },
                Err(e) => spec_mount(device.contents()) == Err::<(u32, Geometry), Error>(e) || (
                !device.reliable() && e matches Error::Io(_)),
            },
    {
        let mut device = device;
        let record = match MasterBootRecord::from(&mut device) {
            Ok(record) => record,
            Err(e) => {
                return Err(Error::from_mbr(e));
            },
        };
        let origin = match record.get_fat_partition_offset() {
            Some(origin) => origin,
            None => {
                return Err(Error::NotFound);
            },
        };
        let block = match BiosParameterBlock::from(&mut device, origin as u64) {
            Ok(block) => block,
            Err(e) => {
                return Err(e);
            },
        };
        let geometry = match Geometry::from_block(&block) {
            Ok(geometry) => geometry,
            Err(e) => {
                return Err(e);
            },
        };
        Ok(VFat { device: CachedDevice::new(device, origin as u64), geometry })
    }

    /// Gives the device back.
    pub fn into_inner(self) -> (device: D)
        ensures
            device == self.cached_device().device(),
    {
        self.device.into_inner()
    }

    /// The layout of the volume.
    pub fn layout(&self) -> (geometry: Geometry)
        ensures
            geometry == self.geometry(),
    {
        self.geometry
    }

    /// The layout of a mounted volume keeps its bounds.
    pub proof fn lemma_layout_wf(&self)
        requires
            self.inv(),
        ensures
            self.geometry().wf(),
    {
    }

    /// Looks up the table entry of `cluster`: the number that the file
    /// allocation table holds for the cluster that follows `cluster`.
    ///
    /// Reads the sector of the table that holds the entry and returns the low
    /// 28 bits of the entry. Fails with `CorruptChain` if the volume has no
    /// data cluster `cluster`.
    pub fn next(&mut self, cluster: u32) -> (r: Result<u32, Error>)
        requires
            old(self).inv(),
        ensures
            final(self).inv(),
            final(self).same_volume(old(self)),
            r == spec_next(old(self).volume(), old(self).geometry(), cluster) || (
            !old(self).reliable() && reads_table(old(self).geometry(), cluster) && is_io_failure(r)),
    {
        if !self.geometry.has_cluster(cluster) {
            return Err(Error::CorruptChain);
        }
        let sector: u64 = self.geometry.fat_start + (cluster / 128) as u64;
        let at: usize = (cluster % 128) as usize * 4;
        match self.device.read_sector(sector) {
            Err(e) => Err(Error::Io(e)),
            Ok(data) => {
                let entry = le_u32(data.as_slice(), at) % 0x1000_0000;
                proof {
                    let volume = self.volume();
                    let start = self.geometry.fat_start * 512 + cluster * 4;
                    assert(start == sector * 512 + at);
                    assert(data@[at as int] == volume[start]);
                    assert(data@[at + 1] == volume[start + 1]);
                    assert(data@[at + 2] == volume[start + 2]);
                    assert(data@[at + 3] == volume[start + 3]);
                    assert(spec_le_u32(data@, at as int) == spec_le_u32(volume, start));
                }
                Ok(entry)
            },
        }
    }

    /// Takes one step along a chain: looks up the table entry of `cluster`
    /// and says whether the chain goes on, and with which cluster, or ends.
    /// Fails with `CorruptChain` if the entry is neither an end-of-chain mark
    /// nor the number of a data cluster of the volume.
    pub fn step(&mut self, cluster: u32) -> (r: Result<Link, Error>)
        requires
            old(self).inv(),
        ensures
            final(self).inv(),
            final(self).same_volume(old(self)),
            r == spec_step(old(self).volume(), old(self).geometry(), cluster) || (
            !old(self).reliable() && reads_table(old(self).geometry(), cluster) && is_io_failure(r)),
    {
        match self.next(cluster) {
            Ok(entry) => self.geometry.link(entry),
            Err(e) => Err(e),
        }
    }

    /// Follows the chain that starts at `start` to its end and returns its
    /// clusters in order.
    ///
    /// Fails with `CorruptChain` if `start` or a cluster that the chain leads
    /// to is no data cluster of the volume, and with `ChainTooLong` if the
    /// chain has more clusters than the volume, as a chain with a cycle has.
    pub fn chain(&mut self, start: u32) -> (r: Result<Vec<u32>, Error>)
        requires
            old(self).inv(),
        ensures
            final(self).inv(),
            final(self).same_volume(old(self)),
            seq_of(r) == spec_chain(old(self).volume(), old(self).geometry(), start) || (
            !old(self).reliable() && reads_table(old(self).geometry(), start) && is_io_failure(r)),
    {
        let mut clusters: Vec<u32> = Vec::new();
        if !self.geometry.has_cluster(start) {
            return Err(Error::CorruptChain);
        }
        let limit: u32 = self.geometry.data_clusters;
        let mut current: u32 = start;
        let ghost volume = self.volume();
        let ghost geometry = self.geometry;
        proof {
            let whole = spec_chain(volume, geometry, start);
            if whole is Ok {
                assert(clusters@ + whole->Ok_0 =~= whole->Ok_0);
            }
        }
        loop
            invariant
                self.inv(),
                self.same_volume(old(self)),
                volume == old(self).volume(),
                geometry == old(self).geometry(),
                limit == geometry.data_clusters,
                clusters.len() <= limit,
                geometry.is_data_cluster(start),
                geometry.is_data_cluster(current),
                spec_chain(volume, geometry, start) == match spec_chain_within(
                    volume,
                    geometry,
                    current,
                    (limit - clusters.len()) as nat,
                ) {
                    Ok(rest) => Ok(clusters@ + rest),
                    Err(e) => Err(e),
                },
            decreases limit - clusters.len(),
        {
            if clusters.len() >= limit as usize {
                return Err(Error::ChainTooLong);
            }
            let ghost before = clusters@;
            match self.step(current) {
                Err(e) => {
                    return Err(e);
                },
                Ok(Link::End) => {
                    clusters.push(current);
                    assert(before + seq![current] =~= clusters@);
                    return Ok(clusters);
                },
                Ok(Link::Next(next)) => {
                    clusters.push(current);
                    proof {
                        let rest = spec_chain_within(
                            volume,
                            geometry,
                            next,
                            (limit - clusters.len()) as nat,
                        );
                        if rest is Ok {
                            assert(before + (seq![current] + rest->Ok_0) =~= clusters@
                                + rest->Ok_0);
                        }
                    }
                    current = next;
                },
            }
        }
    }

    /// Follows `steps` links from `start` and returns the cluster reached.
    ///
    /// Fails with `CorruptChain` if `start` or a cluster on the way is no
    /// data cluster of the volume, or if the chain ends before the last step.
    pub fn walk(&mut self, start: u32, steps: u32) -> (r: Result<u32, Error>)
        requires
            old(self).inv(),
        ensures
            final(self).inv(),
            final(self).same_volume(old(self)),
            r == spec_walk(old(self).volume(), old(self).geometry(), start, steps as nat) || (
            !old(self).reliable() && walk_reads(old(self).geometry(), start, steps as nat)
                && is_io_failure(r)),
    {
        if !self.geometry.has_cluster(start) {
            return Err(Error::CorruptChain);
        }
        let mut current: u32 = start;
        let mut left: u32 = steps;
        let ghost volume = self.volume();
        let ghost geometry = self.geometry;
        while left > 0
            invariant
                self.inv(),
                self.same_volume(old(self)),
                volume == old(self).volume(),
                geometry == old(self).geometry(),
                geometry.is_data_cluster(start),
                geometry.is_data_cluster(current),
                left <= steps,
                spec_walk(volume, geometry, start, steps as nat) == spec_walk(
                    volume,
                    geometry,
                    current,
                    left as nat,
                ),
            decreases left,
        {
            match self.step(current) {
                Err(e) => {
                    return Err(e);
                },
                Ok(Link::End) => {
                    return Err(Error::CorruptChain);
                },
                Ok(Link::Next(next)) => {
                    current = next;
                    left -= 1;
                },
            }
        }
        Ok(current)
    }

    /// Reads bytes of the data cluster `cluster` into the start of `buf`,
    /// from byte `offset` of the cluster on: as many as `buf` has room for,
    /// but no more than `limit` and none past the end of the cluster.
    /// Returns the number of bytes read; the rest of `buf` stays as it is.
    ///
    /// Fails with `CorruptChain` if the volume has no data cluster `cluster`.
    /// After a failure the contents of `buf` are unspecified.
    pub fn read_cluster_part(
        &mut self,
        cluster: u32,
        offset: usize,
        buf: &mut [u8],
        limit: usize,
    ) -> (r: Result<usize, Error>)
        requires
            old(self).inv(),
        ensures
            final(self).inv(),
            final(self).same_volume(old(self)),
            final(buf).len() == old(buf).len(),
            match r {
                Ok(n) => {
                    &&& n <= old(buf).len()
                    &&& n <= limit
                    &&& spec_read_cluster(
                        old(self).volume(),
                        old(self).geometry(),
                        cluster,
                        offset as int,
                        vstd::math::min(old(buf).len() as int, limit as int),
                    ) == Ok::<Seq<u8>, Error>(final(buf)@.subrange(0, n as int))
                    &&& final(buf)@.skip(n as int) == old(buf)@.skip(n as int)
                },
                Err(e) => spec_read_cluster(
                    old(self).volume(),
                    old(self).geometry(),
                    cluster,
                    offset as int,
                    vstd::math::min(old(buf).len() as int, limit as int),
                ) == Err::<Seq<u8>, Error>(e) || (!old(self).reliable() && reads_cluster(
                    old(self).geometry(),
                    cluster,
                    offset as int,
                    vstd::math::min(old(buf).len() as int, limit as int),
                ) && e matches Error::Io(_)),
            },
    {
        if !self.geometry.has_cluster(cluster) {
            return Err(Error::CorruptChain);
        }
        let cluster_bytes: usize = (self.geometry.cluster_sectors * 512) as usize;
        let room: usize = if buf.len() <= limit {
            buf.len()
        } else {
            limit
        };
        if offset >= cluster_bytes || room == 0 {
            assert(buf@.subrange(0, 0) =~= Seq::<u8>::empty());
            return Ok(0);
        }
        let n: usize = if room <= cluster_bytes - offset {
            room
        } else {
            cluster_bytes - offset
        };
        assert((cluster - 2) * self.geometry.cluster_sectors <= 0x0FFF_FFF5 * 0x2000)
            by (nonlinear_arith)
            requires
                2 <= cluster <= 0x0FFF_FFF7,
                self.geometry.cluster_sectors <= 0x2000,
        ;
        let first: u64 = self.geometry.data_start + (cluster - 2) as u64
            * self.geometry.cluster_sectors;
        let ghost volume = self.volume();
        let ghost geometry = self.geometry;
        let ghost base = first * 512 + offset;
        let mut done: usize = 0;
        while done < n
            invariant
                self.inv(),
                self.same_volume(old(self)),
                volume == old(self).volume(),
                geometry == old(self).geometry(),
                geometry.is_data_cluster(cluster),
                buf.len() == old(buf).len(),
                done <= n <= buf.len(),
                0 < n == span(
                    geometry,
                    offset as int,
                    vstd::math::min(old(buf).len() as int, limit as int),
                ),
                n <= limit,
                offset + n <= cluster_bytes <= 0x40_0000,
                first == geometry.cluster_sector(cluster),
                first <= 0x4000_0000_0000 + 0x0FFF_FFF5 * 0x2000,
                base == first * 512 + offset,
                done > 0 ==> has_sector(volume, (base + done - 1) / 512),
                forall|j: int| 0 <= j < done ==> #[trigger] buf@[j] == volume[base + j],
                forall|j: int| done <= j < buf.len() ==> buf@[j] == old(buf)@[j],
            decreases n - done,
        {
            let at: usize = offset + done;
            let sector: u64 = first + (at / 512) as u64;
            let within: usize = at % 512;
            let data = match self.device.read_sector(sector) {
                Ok(data) => data,
                Err(e) => {
                    proof {
                        // The volume ends before this sector, so before the
                        // last one wanted too.
                        assert(sector <= (base + n - 1) / 512);
                    }
                    return Err(Error::Io(e));
                },
            };
            let take: usize = if 512 - within <= n - done {
                512 - within
            } else {
                n - done
            };
            let ghost before = buf@;
            copy_into(buf, done, data.as_slice(), within, take);
            proof {
                assert(sector * 512 + within == base + done);
                assert forall|j: int| 0 <= j < done + take implies #[trigger] buf@[j] == volume[base
                    + j] by {
                    if j >= done {
                        assert(buf@[j] == data@[within + (j - done)]);
                        assert(data@[within + (j - done)] == volume[sector * 512 + (within + (j
                            - done))]);
                    } else {
                        assert(buf@[j] == before[j]);
                    }
                }
                assert forall|j: int| done + take <= j < buf.len() implies buf@[j] == old(buf)@[j] by {
                    assert(buf@[j] == before[j]);
                }
                assert((base + done + take - 1) / 512 == sector as int);
            }
            done += take;
        }
        proof {
            assert(base + n <= volume.len());
            assert(buf@.subrange(0, n as int) =~= volume.subrange(base, base + n));
            assert(buf@.skip(n as int) =~= old(buf)@.skip(n as int));
        }
        Ok(n)
    }

    /// Reads bytes of the data cluster `cluster` into the start of `buf`,
    /// from byte `offset` of the cluster on: as many as `buf` has room for
    /// and the cluster has left. Returns the number of bytes read; the rest
    /// of `buf` stays as it is.
    ///
    /// Fails with `CorruptChain` if the volume has no data cluster `cluster`.
    /// After a failure the contents of `buf` are unspecified.
    pub fn read_cluster(&mut self, cluster: u32, offset: usize, buf: &mut [u8]) -> (r: Result<
        usize,
        Error,
    >)
        requires
            old(self).inv(),
        ensures
            final(self).inv(),
            final(self).same_volume(old(self)),
            final(buf).len() == old(buf).len(),
            match r {
                Ok(n) => {
                    &&& n <= old(buf).len()
                    &&& spec_read_cluster(
                        old(self).volume(),
                        old(self).geometry(),
                        cluster,
                        offset as int,
                        old(buf).len() as int,
                    ) == Ok::<Seq<u8>, Error>(final(buf)@.subrange(0, n as int))
                    &&& final(buf)@.skip(n as int) == old(buf)@.skip(n as int)
                },
                Err(e) => spec_read_cluster(
                    old(self).volume(),
                    old(self).geometry(),
                    cluster,
                    offset as int,
                    old(buf).len() as int,
                ) == Err::<Seq<u8>, Error>(e) || (!old(self).reliable() && reads_cluster(
                    old(self).geometry(),
                    cluster,
                    offset as int,
                    old(buf).len() as int,
                ) && e matches Error::Io(_)),
            },
    {
        let limit = buf.len();
        self.read_cluster_part(cluster, offset, buf, limit)
    }

    /// Reads the chain that starts at `start`: follows it to its end, then
    /// reads its clusters in order and returns their bytes, one cluster
    /// after the other.
    ///
    /// Fails as `chain` does, or with the failure of the first cluster that
    /// could not be read.
    pub fn read_chain(&mut self, start: u32) -> (r: Result<Vec<u8>, Error>)
        requires
            old(self).inv(),
        ensures
            final(self).inv(),
            final(self).same_volume(old(self)),
            seq_of(r) == spec_read_chain(old(self).volume(), old(self).geometry(), start) || (
            !old(self).reliable() && reads_table(old(self).geometry(), start) && is_io_failure(r)),
    {
        let clusters = match self.chain(start) {
            Ok(clusters) => clusters,
            Err(e) => {
                return Err(e);
            },
        };
        let cluster_bytes: usize = (self.geometry.cluster_sectors * 512) as usize;
        let mut bytes: Vec<u8> = Vec::new();
        let mut i: usize = 0;
        let ghost volume = self.volume();
        let ghost geometry = self.geometry;
        while i < clusters.len()
            invariant
                self.inv(),
                self.same_volume(old(self)),
                volume == old(self).volume(),
                geometry == old(self).geometry(),
                cluster_bytes == geometry.cluster_bytes(),
                spec_chain(volume, geometry, start) == Ok::<Seq<u32>, Error>(clusters@),
                i <= clusters.len(),
                spec_clusters_data(volume, geometry, clusters@, i as nat) == Ok::<Seq<u8>, Error>(
                    bytes@,
                ),
            decreases clusters.len() - i,
        {
            let mut data: Vec<u8> = vec![0u8; cluster_bytes];
            match self.read_cluster(clusters[i], 0, data.as_mut_slice()) {
                Err(e) => {
                    proof {
                        if spec_read_cluster(
                            volume,
                            geometry,
                            clusters@[i as int],
                            0,
                            cluster_bytes as int,
                        ) is Err {
                            lemma_clusters_data_fails(
                                volume,
                                geometry,
                                clusters@,
                                (i + 1) as nat,
                                clusters@.len(),
                            );
                        }
                    }
                    return Err(e);
                },
                Ok(n) => {
                    assert(n == cluster_bytes);
                    assert(data@.subrange(0, n as int) =~= data@);
                    bytes.append(&mut data);
                },
            }
            i += 1;
        }
        Ok(bytes)
    }
}

} // verus!
