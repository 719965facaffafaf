//! The layout of a FAT32 volume and the cluster chains of its file
//! allocation table, as functions of the bytes of the volume.

use vstd::prelude::*;
use crate::device::{has_sector, IoError};
use crate::ebpb::BiosParameterBlock;
use crate::error::Error;
use crate::util::{spec_le_u16, spec_le_u32};

verus! {

/// The smallest value of a table entry that ends a chain.
pub const END_OF_CHAIN: u32 = 0x0FFF_FFF8;

/// The value of a table entry that marks a bad cluster.
pub const BAD_CLUSTER: u32 = 0x0FFF_FFF7;

/// The largest number of data clusters that a volume can have: cluster
/// numbers start at 2 and end below the mark of a bad cluster.
pub const MAX_DATA_CLUSTERS: u32 = 0x0FFF_FFF5;

/// Where the parts of a volume lie, counted in 512-byte sectors from the
/// start of the partition.
#[derive(Clone, Copy, Debug, PartialEq, Eq, Structural)]
pub struct Geometry {
    /// First sector of the first file allocation table.
    pub fat_start: u64,
    /// Number of sectors of one file allocation table.
    pub fat_sectors: u64,
    /// First sector of the data region, where cluster 2 starts.
    pub data_start: u64,
    /// Number of sectors of one cluster.
    pub cluster_sectors: u64,
    /// Number of data clusters. The clusters of the volume are numbered from
    /// 2 to `data_clusters + 1`.
    pub data_clusters: u32,
    /// First cluster of the root directory.
    pub root: u32,
}

/// Whether `bytes_per_sector` is a power of two that is at least the sector
/// size of the device.
pub open spec fn sector_size_ok(bytes_per_sector: u16) -> bool {
    bytes_per_sector == 512 || bytes_per_sector == 1024 || bytes_per_sector == 2048
        || bytes_per_sector == 4096 || bytes_per_sector == 8192 || bytes_per_sector == 16384
        || bytes_per_sector == 32768
}

/// Whether `sectors_per_cluster` is a power of two.
pub open spec fn cluster_size_ok(sectors_per_cluster: u8) -> bool {
    sectors_per_cluster == 1 || sectors_per_cluster == 2 || sectors_per_cluster == 4
        || sectors_per_cluster == 8 || sectors_per_cluster == 16 || sectors_per_cluster == 32
        || sectors_per_cluster == 64 || sectors_per_cluster == 128
}

/// The smallest of three numbers.
pub open spec fn min3(a: int, b: int, c: int) -> int {
    if a <= b && a <= c {
        a
    } else if b <= c {
        b
    } else {
        c
    }
}

/// The layout of a volume whose parameter block holds the given values, or
/// `InvalidGeometry` if the sector or cluster size is not acceptable.
///
/// A sector of the volume is `bytes_per_sector / 512` sectors of the device.
/// The reserved sectors come first, then the file allocation tables, then the
/// data region. The volume has as many data clusters as fit between the start
/// of the data region and the end of the volume, but no more than one table
/// has entries for (none where there is no table), and no more than
/// `MAX_DATA_CLUSTERS`.
pub open spec fn spec_layout(
    bytes_per_sector: u16,
    sectors_per_cluster: u8,
    num_reserved: u16,
    num_fat: u8,
    total_sectors: u32,
    sectors_per_fat32: u32,
    root: u32,
) -> Result<Geometry, Error> {
    if !sector_size_ok(bytes_per_sector) || !cluster_size_ok(sectors_per_cluster) {
        Err(Error::InvalidGeometry)
    } else {
        let factor = bytes_per_sector as int / 512;
        let total = total_sectors as int * factor;
        let fat_start = num_reserved as int * factor;
        let fat_sectors = sectors_per_fat32 as int * factor;
        let data_start = fat_start + num_fat as int * fat_sectors;
        let cluster_sectors = sectors_per_cluster as int * factor;
        let by_size = if total >= data_start {
            (total - data_start) / cluster_sectors
        } else {
            0
        };
        let by_table = if num_fat != 0 && fat_sectors * 128 >= 2 {
            fat_sectors * 128 - 2
        } else {
            0
        };
        Ok(
            Geometry {
                fat_start: fat_start as u64,
                fat_sectors: fat_sectors as u64,
                data_start: data_start as u64,
                cluster_sectors: cluster_sectors as u64,
                data_clusters: min3(by_size, by_table, MAX_DATA_CLUSTERS as int) as u32,
                root,
            },
        )
    }
}

/// The layout that `block` describes.
pub open spec fn spec_geometry(block: BiosParameterBlock) -> Result<Geometry, Error> {
    spec_layout(
        block.bytes_per_sector,
        block.sectors_per_cluster,
        block.num_reserved,
        block.num_fat,
        block.spec_total_sectors(),
        block.sectors_per_fat32,
        block.root,
    )
}

/// The layout that the parameter block stored in `sector` describes.
pub open spec fn spec_sector_geometry(sector: Seq<u8>) -> Result<Geometry, Error> {
    spec_layout(
        spec_le_u16(sector, 11),
        sector[13],
        spec_le_u16(sector, 14),
        sector[16],
        if spec_le_u16(sector, 19) != 0 {
            spec_le_u16(sector, 19) as u32
        } else {
            spec_le_u32(sector, 32)
        },
        spec_le_u32(sector, 36),
        spec_le_u32(sector, 44),
    )
}

impl Geometry {
    /// The bounds that every layout computed from a parameter block keeps:
    /// clusters are not empty, the table has an entry for every cluster, and
    /// no sector number leaves the range of 64 bits.
    pub open spec fn wf(&self) -> bool {
        &&& 1 <= self.cluster_sectors <= 0x2000
        &&& self.fat_start <= 0x40_0000
        &&& self.fat_sectors <= 0x40_0000_0000
        &&& self.data_start <= 0x4000_0000_0000
        &&& self.data_clusters <= MAX_DATA_CLUSTERS
        &&& self.data_clusters > 0 ==> self.data_clusters + 2 <= self.fat_sectors * 128
    }

    /// Number of bytes of one cluster.
    pub open spec fn cluster_bytes(&self) -> int {
        self.cluster_sectors * 512
    }

    /// Whether the volume has a data cluster of number `cluster`.
    pub open spec fn is_data_cluster(&self, cluster: u32) -> bool {
        2 <= cluster < self.data_clusters + 2
    }

    /// The sector at which `cluster` starts.
    pub open spec fn cluster_sector(&self, cluster: u32) -> int {
        self.data_start + (cluster - 2) * self.cluster_sectors
    }

    /// The sector that holds the table entry of `cluster`.
    pub open spec fn entry_sector(&self, cluster: u32) -> int {
        self.fat_start + cluster / 128
    }

    /// Whether the volume has a data cluster of number `cluster`.
    pub fn has_cluster(&self, cluster: u32) -> (r: bool)
        ensures
            r == self.is_data_cluster(cluster),
    {
        2 <= cluster && cluster - 2 < self.data_clusters
    }

    /// What the table entry `entry` says of the chain that it belongs to.
    pub fn link(&self, entry: u32) -> (r: Result<Link, Error>)
        ensures
            r == spec_link(*self, entry),
    {
        if entry >= END_OF_CHAIN {
            Ok(Link::End)
        } else if self.has_cluster(entry) {
            Ok(Link::Next(entry))
        } else {
            Err(Error::CorruptChain)
        }
    }

    /// Computes the layout that `block` describes.
    pub fn from_block(block: &BiosParameterBlock) -> (r: Result<Geometry, Error>)
        ensures
            r == spec_geometry(*block),
            r matches Ok(geometry) ==> geometry.wf(),
    {
        let bps = block.bytes_per_sector;
        let spc = block.sectors_per_cluster;
        let sector_ok = bps == 512 || bps == 1024 || bps == 2048 || bps == 4096 || bps == 8192
            || bps == 16384 || bps == 32768;
        let cluster_ok = spc == 1 || spc == 2 || spc == 4 || spc == 8 || spc == 16 || spc == 32
            || spc == 64 || spc == 128;
        if !sector_ok || !cluster_ok {
            return Err(Error::InvalidGeometry);
        }
        let factor: u64 = (bps / 512) as u64;
        assert(1 <= factor <= 64);
        let sectors: u64 = block.total_sectors() as u64;
        let per_fat: u64 = block.sectors_per_fat32 as u64;
        let fats: u64 = block.num_fat as u64;
        assert(sectors * factor <= 0x40_0000_0000 && per_fat * factor <= 0x40_0000_0000
            && block.num_reserved as u64 * factor <= 0x40_0000 && 1 <= spc as u64 * factor
            <= 0x2000) by (nonlinear_arith)
            requires
                1 <= factor <= 64,
                sectors <= 0xFFFF_FFFF,
                per_fat <= 0xFFFF_FFFF,
                block.num_reserved <= 0xFFFF,
                1 <= spc <= 128,
        ;
        let total: u64 = sectors * factor;
        let fat_start: u64 = block.num_reserved as u64 * factor;
        let fat_sectors: u64 = per_fat * factor;
        assert(fats * fat_sectors <= 0x3FC0_0000_0000) by (nonlinear_arith)
            requires
                fat_sectors <= 0x40_0000_0000,
                fats <= 255,
        ;
        let data_start: u64 = fat_start + fats * fat_sectors;
        let cluster_sectors: u64 = spc as u64 * factor;
        let by_size: u64 = if total >= data_start {
            (total - data_start) / cluster_sectors
        } else {
            0
        };
        let by_table: u64 = if block.num_fat != 0 && fat_sectors * 128 >= 2 {
            fat_sectors * 128 - 2
        } else {
            0
        };
        let limit: u64 = MAX_DATA_CLUSTERS as u64;
        let data_clusters: u64 = if by_size <= by_table && by_size <= limit {
            by_size
        } else if by_table <= limit {
            by_table
        } else {
            limit
        };
        let geometry = Geometry {
            fat_start,
            fat_sectors,
            data_start,
            cluster_sectors,
            data_clusters: data_clusters as u32,
            root: block.root,
        };
        Ok(geometry)
    }
}

/// The number of the cluster that follows `cluster`, as the table stores it:
/// the low 28 bits of the 32-bit little-endian entry at byte `cluster * 4` of
/// the table. The upper four bits of an entry are reserved and ignored.
pub open spec fn fat_entry(volume: Seq<u8>, geometry: Geometry, cluster: u32) -> u32 {
    (spec_le_u32(volume, geometry.fat_start * 512 + cluster * 4) % 0x1000_0000) as u32
}

/// What looking up the table entry of `cluster` gives when the device does
/// not fail: `CorruptChain` if the volume has no such data cluster, an I/O
/// error if the volume ends before the entry, and the entry otherwise.
pub open spec fn spec_next(volume: Seq<u8>, geometry: Geometry, cluster: u32) -> Result<u32, Error> {
    if !geometry.is_data_cluster(cluster) {
        Err(Error::CorruptChain)
    } else if !has_sector(volume, geometry.entry_sector(cluster)) {
        Err(Error::Io(IoError::InvalidInput))
    } else {
        Ok(fat_entry(volume, geometry, cluster))
    }
}

/// Whether looking up the table entry of `cluster` reads the device: it does
/// for a data cluster of the volume, and is refused before any read for any
/// other number.
pub open spec fn reads_table(geometry: Geometry, cluster: u32) -> bool {
    geometry.is_data_cluster(cluster)
}

/// Whether following `steps` links from `start` reads the device.
pub open spec fn walk_reads(geometry: Geometry, start: u32, steps: nat) -> bool {
    reads_table(geometry, start) && steps > 0
}

/// What a table entry says of the chain that it belongs to.
#[derive(Clone, Copy, Debug, PartialEq, Eq, Structural)]
pub enum Link {
    /// The chain goes on with the data cluster held.
    Next(u32),
    /// The chain ends here.
    End,
}

/// What the table entry `entry` says: values from `END_OF_CHAIN` up end the
/// chain, the number of a data cluster of the volume continues it, and
/// anything else (a free or reserved entry, the mark of a bad cluster, a
/// number beyond the last cluster) is a corrupt chain.
pub open spec fn spec_link(geometry: Geometry, entry: u32) -> Result<Link, Error> {
    if entry >= END_OF_CHAIN {
        Ok(Link::End)
    } else if geometry.is_data_cluster(entry) {
        Ok(Link::Next(entry))
    } else {
        Err(Error::CorruptChain)
    }
}

/// One step along a chain: the link that the table entry of `cluster` holds.
pub open spec fn spec_step(volume: Seq<u8>, geometry: Geometry, cluster: u32) -> Result<Link, Error> {
    match spec_next(volume, geometry, cluster) {
        Ok(entry) => spec_link(geometry, entry),
        Err(e) => Err(e),
    }
}

/// The clusters of the chain that starts at `start`, in order, where the
/// chain has at most `fuel` clusters; `ChainTooLong` where it has more.
pub open spec fn spec_chain_within(
    volume: Seq<u8>,
    geometry: Geometry,
    start: u32,
    fuel: nat,
) -> Result<Seq<u32>, Error>
    decreases fuel,
{
    if !geometry.is_data_cluster(start) {
        Err(Error::CorruptChain)
    } else if fuel == 0 {
        Err(Error::ChainTooLong)
    } else {
        match spec_step(volume, geometry, start) {
            Err(e) => Err(e),
            Ok(Link::End) => Ok(seq![start]),
            Ok(Link::Next(next)) => match spec_chain_within(
                volume,
                geometry,
                next,
                (fuel - 1) as nat,
            ) {
                Err(e) => Err(e),
                Ok(rest) => Ok(seq![start] + rest),
            },
        }
    }
}

/// The clusters of the chain that starts at `start`, in order. A chain is
/// followed for as many clusters as the volume has and no further.
pub open spec fn spec_chain(volume: Seq<u8>, geometry: Geometry, start: u32) -> Result<
    Seq<u32>,
    Error,
> {
    spec_chain_within(volume, geometry, start, geometry.data_clusters as nat)
}

/// The cluster reached from `start` after `steps` links, where each of those
/// links leads to a further cluster. A chain that ends before that is
/// corrupt.
pub open spec fn spec_walk(volume: Seq<u8>, geometry: Geometry, start: u32, steps: nat) -> Result<
    u32,
    Error,
>
    decreases steps,
{
    if !geometry.is_data_cluster(start) {
        Err(Error::CorruptChain)
    } else if steps == 0 {
        Ok(start)
    } else {
        match spec_step(volume, geometry, start) {
            Err(e) => Err(e),
            Ok(Link::End) => Err(Error::CorruptChain),
            Ok(Link::Next(next)) => spec_walk(volume, geometry, next, (steps - 1) as nat),
        }
    }
}

/// The bytes of the data cluster `cluster`, where the volume holds all of
/// them.
pub open spec fn cluster_data(volume: Seq<u8>, geometry: Geometry, cluster: u32) -> Seq<u8> {
    volume.subrange(
        geometry.cluster_sector(cluster) * 512,
        geometry.cluster_sector(cluster) * 512 + geometry.cluster_bytes(),
    )
}

/// Number of bytes that a read of at most `len` bytes takes from a cluster,
/// starting at byte `offset` of the cluster: the read ends where the cluster
/// ends.
pub open spec fn span(geometry: Geometry, offset: int, len: int) -> int {
    if offset >= geometry.cluster_bytes() || len <= 0 {
        0
    } else if len <= geometry.cluster_bytes() - offset {
        len
    } else {
        geometry.cluster_bytes() - offset
    }
}

/// Whether reading at most `len` bytes of `cluster`, from byte `offset` of
/// the cluster on, reads the device: it does where `cluster` is a data
/// cluster of the volume and there is a byte to read.
pub open spec fn reads_cluster(geometry: Geometry, cluster: u32, offset: int, len: int) -> bool {
    geometry.is_data_cluster(cluster) && span(geometry, offset, len) > 0
}

/// What reading at most `len` bytes of `cluster`, from byte `offset` of the
/// cluster on, gives when the device does not fail: `CorruptChain` if the
/// volume has no such data cluster, an I/O error if the volume ends before
/// the last byte wanted, and the bytes otherwise.
pub open spec fn spec_read_cluster(
    volume: Seq<u8>,
    geometry: Geometry,
    cluster: u32,
    offset: int,
    len: int,
) -> Result<Seq<u8>, Error> {
    let n = span(geometry, offset, len);
    let base = geometry.cluster_sector(cluster) * 512 + offset;
    if !geometry.is_data_cluster(cluster) {
        Err(Error::CorruptChain)
    } else if n == 0 {
        Ok(Seq::empty())
    } else if !has_sector(volume, (base + n - 1) / 512) {
        Err(Error::Io(IoError::InvalidInput))
    } else {
        Ok(volume.subrange(base, base + n))
    }
}

/// The bytes of the first `n` clusters of `clusters`, one cluster after the
/// other, or the failure of the first cluster that cannot be read.
pub open spec fn spec_clusters_data(
    volume: Seq<u8>,
    geometry: Geometry,
    clusters: Seq<u32>,
    n: nat,
) -> Result<Seq<u8>, Error>
    decreases n,
{
    if n == 0 {
        Ok(Seq::empty())
    } else {
        match spec_clusters_data(volume, geometry, clusters, (n - 1) as nat) {
            Err(e) => Err(e),
            Ok(before) => match spec_read_cluster(
                volume,
                geometry,
                clusters[n - 1],
                0,
                geometry.cluster_bytes(),
            ) {
                Err(e) => Err(e),
                Ok(data) => Ok(before + data),
            },
        }
    }
}

/// Once a cluster cannot be read, reading further clusters gives the same
/// failure.
pub proof fn lemma_clusters_data_fails(
    volume: Seq<u8>,
    geometry: Geometry,
    clusters: Seq<u32>,
    n: nat,
    m: nat,
)
    requires
        n <= m,
        spec_clusters_data(volume, geometry, clusters, n) is Err,
    ensures
        spec_clusters_data(volume, geometry, clusters, m) == spec_clusters_data(
            volume,
            geometry,
            clusters,
            n,
        ),
    decreases m,
{
    if n < m {
        lemma_clusters_data_fails(volume, geometry, clusters, n, (m - 1) as nat);
    }
}

/// What reading the chain that starts at `start` gives when the device does
/// not fail: the failure of following the chain, else the bytes of its
/// clusters, or the failure of the first cluster that cannot be read.
pub open spec fn spec_read_chain(volume: Seq<u8>, geometry: Geometry, start: u32) -> Result<
    Seq<u8>,
    Error,
> {
    match spec_chain(volume, geometry, start) {
        Err(e) => Err(e),
        Ok(clusters) => spec_clusters_data(volume, geometry, clusters, clusters.len()),
    }
}

/// Whether the table links cluster `i` of `clusters` to the one after it.
pub open spec fn linked(volume: Seq<u8>, geometry: Geometry, clusters: Seq<u32>, i: int) -> bool {
    spec_step(volume, geometry, clusters[i]) == Ok::<Link, Error>(Link::Next(clusters[i + 1]))
}

/// Whether `clusters` is a chain of the table: each is a data cluster of the
/// volume, each but the last is linked to the one after it, and the last
/// holds an end-of-chain mark.
pub open spec fn is_chain(volume: Seq<u8>, geometry: Geometry, clusters: Seq<u32>) -> bool {
    &&& clusters.len() >= 1
    &&& forall|i: int|
        0 <= i < clusters.len() ==> geometry.is_data_cluster(#[trigger] clusters[i])
    &&& forall|i: int|
        0 <= i < clusters.len() - 1 ==> #[trigger] linked(volume, geometry, clusters, i)
    &&& spec_step(volume, geometry, clusters[clusters.len() - 1]) == Ok::<Link, Error>(Link::End)
}

/// A chain that was followed to its end is a chain of the table that starts
/// where the walk started and has no more clusters than were allowed.
pub proof fn lemma_chain_is_chain(
    volume: Seq<u8>,
    geometry: Geometry,
    start: u32,
    fuel: nat,
    clusters: Seq<u32>,
)
    requires
        spec_chain_within(volume, geometry, start, fuel) == Ok::<Seq<u32>, Error>(clusters),
    ensures
        is_chain(volume, geometry, clusters),
        clusters[0] == start,
        clusters.len() <= fuel,
    decreases fuel,
{
    match spec_step(volume, geometry, start) {
        Ok(Link::Next(next)) => {
            let rest = spec_chain_within(volume, geometry, next, (fuel - 1) as nat)->Ok_0;
            lemma_chain_is_chain(volume, geometry, next, (fuel - 1) as nat, rest);
            assert(clusters == seq![start] + rest);
            assert forall|i: int| 0 <= i < clusters.len() implies geometry.is_data_cluster(
                #[trigger] clusters[i],
            ) by {
                if i > 0 {
                    assert(clusters[i] == rest[i - 1]);
                }
            }
            assert forall|i: int| 0 <= i < clusters.len() - 1 implies #[trigger] linked(
                volume,
                geometry,
                clusters,
                i,
            ) by {
                assert(clusters[i + 1] == rest[i]);
                if i > 0 {
                    assert(clusters[i] == rest[i - 1]);
                    assert(linked(volume, geometry, rest, i - 1));
                }
            }
            assert(clusters[clusters.len() - 1] == rest[rest.len() - 1]);
        },
        Ok(Link::End) => {
            assert(clusters == seq![start]);
        },
        Err(_) => {},
    }
}

/// The part of a chain of the table that follows its first cluster is a chain
/// of the table.
pub proof fn lemma_chain_tail(volume: Seq<u8>, geometry: Geometry, clusters: Seq<u32>)
    requires
        is_chain(volume, geometry, clusters),
        clusters.len() >= 2,
    ensures
        is_chain(volume, geometry, clusters.subrange(1, clusters.len() as int)),
        spec_step(volume, geometry, clusters[0]) == Ok::<Link, Error>(Link::Next(clusters[1])),
{
    let rest = clusters.subrange(1, clusters.len() as int);
    assert(linked(volume, geometry, clusters, 0));
    assert forall|i: int| 0 <= i < rest.len() implies geometry.is_data_cluster(
        #[trigger] rest[i],
    ) by {
        assert(rest[i] == clusters[i + 1]);
    }
    assert forall|i: int| 0 <= i < rest.len() - 1 implies #[trigger] linked(
        volume,
        geometry,
        rest,
        i,
    ) by {
        assert(linked(volume, geometry, clusters, i + 1));
        assert(rest[i] == clusters[i + 1]);
        assert(rest[i + 1] == clusters[i + 2]);
    }
    assert(rest[rest.len() - 1] == clusters[clusters.len() - 1]);
}

/// Following a chain of the table that has no more clusters than are allowed
/// gives that chain.
pub proof fn lemma_chain_is_followed(
    volume: Seq<u8>,
    geometry: Geometry,
    clusters: Seq<u32>,
    fuel: nat,
)
    requires
        is_chain(volume, geometry, clusters),
        clusters.len() <= fuel,
    ensures
        spec_chain_within(volume, geometry, clusters[0], fuel) == Ok::<Seq<u32>, Error>(clusters),
    decreases fuel,
{
    if clusters.len() == 1 {
        assert(clusters =~= seq![clusters[0]]);
    } else {
        let rest = clusters.subrange(1, clusters.len() as int);
        lemma_chain_tail(volume, geometry, clusters);
        lemma_chain_is_followed(volume, geometry, rest, (fuel - 1) as nat);
        assert(rest[0] == clusters[1]);
        assert(clusters =~= seq![clusters[0]] + rest);
    }
}

/// No cluster occurs twice in a chain of the table: following a chain visits
/// each of its clusters once.
pub proof fn lemma_chain_has_no_repeats(volume: Seq<u8>, geometry: Geometry, clusters: Seq<u32>)
    requires
        is_chain(volume, geometry, clusters),
    ensures
        forall|i: int, j: int| 0 <= i < j < clusters.len() ==> clusters[i] != clusters[j],
{
    assert forall|i: int, j: int| 0 <= i < j < clusters.len() implies clusters[i] != clusters[j] by {
        if clusters[i] == clusters[j] {
            let last = clusters.len() - 1;
            lemma_repeat_shifts(volume, geometry, clusters, i, j, last - j);
            // The cluster at `last - (j - i)` equals the last, yet it is
            // linked to a successor while the last ends the chain.
            assert(clusters[i + (last - j)] == clusters[last]);
            assert(linked(volume, geometry, clusters, i + (last - j)));
        }
    }
}

/// Every chain of the table that has no more clusters than the volume is
/// followed to its end, and each of its clusters is visited once: following
/// it from its first cluster gives exactly its clusters, in order, and no
/// cluster occurs twice among them.
pub proof fn lemma_chain_is_visited_once(volume: Seq<u8>, geometry: Geometry, clusters: Seq<u32>)
    requires
        is_chain(volume, geometry, clusters),
        clusters.len() <= geometry.data_clusters,
    ensures
        spec_chain(volume, geometry, clusters[0]) == Ok::<Seq<u32>, Error>(clusters),
        forall|i: int, j: int| 0 <= i < j < clusters.len() ==> clusters[i] != clusters[j],
{
    lemma_chain_is_followed(volume, geometry, clusters, geometry.data_clusters as nat);
    lemma_chain_has_no_repeats(volume, geometry, clusters);
}

/// In a chain of the table, two equal clusters are followed by equal
/// clusters.
proof fn lemma_repeat_shifts(
    volume: Seq<u8>,
    geometry: Geometry,
    clusters: Seq<u32>,
    i: int,
    j: int,
    k: int,
)
    requires
        is_chain(volume, geometry, clusters),
        0 <= i < j,
        0 <= k,
        j + k < clusters.len(),
        clusters[i] == clusters[j],
    ensures
        clusters[i + k] == clusters[j + k],
    decreases k,
{
    if k > 0 {
        lemma_repeat_shifts(volume, geometry, clusters, i, j, k - 1);
        assert(linked(volume, geometry, clusters, i + k - 1));
        assert(linked(volume, geometry, clusters, j + k - 1));
    }
}

/// If the links from `start` lead back to a cluster already passed, they
/// never end: a cluster is reached after any number of steps.
pub proof fn lemma_cycle_never_ends(
    volume: Seq<u8>,
    geometry: Geometry,
    start: u32,
    i: nat,
    j: nat,
    steps: nat,
)
    requires
        i < j,
        spec_walk(volume, geometry, start, i) is Ok,
        spec_walk(volume, geometry, start, i) == spec_walk(volume, geometry, start, j),
    ensures
        spec_walk(volume, geometry, start, steps) is Ok,
    decreases steps,
{
    if steps <= j {
        lemma_walk_prefix(volume, geometry, start, steps, j);
    } else {
        lemma_cycle_never_ends(volume, geometry, start, i, j, (steps - (j - i)) as nat);
        let back = (steps - (j - i)) as nat;
        // `steps` links are `j` links and then `steps - j`; `back` links are
        // `i` links and then `steps - j`. Both detours start at one cluster.
        lemma_walk_splits(volume, geometry, start, j, (steps - j) as nat);
        lemma_walk_splits(volume, geometry, start, i, (steps - j) as nat);
        assert(i + (steps - j) == back);
    }
}

/// Where a walk of `more` steps reaches a cluster, so does any shorter walk.
pub proof fn lemma_walk_prefix(
    volume: Seq<u8>,
    geometry: Geometry,
    start: u32,
    steps: nat,
    more: nat,
)
    requires
        steps <= more,
        spec_walk(volume, geometry, start, more) is Ok,
    ensures
        spec_walk(volume, geometry, start, steps) is Ok,
    decreases steps,
{
    if steps > 0 {
        match spec_step(volume, geometry, start) {
            Ok(Link::Next(next)) => {
                lemma_walk_prefix(volume, geometry, next, (steps - 1) as nat, (more - 1) as nat);
            },
            _ => {},
        }
    }
}

/// A walk of `a + b` steps is a walk of `a` steps followed by one of `b`.
pub proof fn lemma_walk_splits(volume: Seq<u8>, geometry: Geometry, start: u32, a: nat, b: nat)
    ensures
        spec_walk(volume, geometry, start, a + b) == match spec_walk(volume, geometry, start, a) {
            Ok(middle) => spec_walk(volume, geometry, middle, b),
            Err(e) => Err(e),
        },
    decreases a,
{
    if geometry.is_data_cluster(start) && a > 0 {
        match spec_step(volume, geometry, start) {
            Ok(Link::Next(next)) => {
                lemma_walk_splits(volume, geometry, next, (a - 1) as nat, b);
                assert((a - 1) as nat + b == (a + b - 1) as nat);
            },
            _ => {},
        }
    }
}

/// If a cluster is reached from `start` after any number of steps up to
/// `fuel`, following the chain from `start` for at most `fuel` clusters gives
/// `ChainTooLong`.
pub proof fn lemma_endless_is_too_long(volume: Seq<u8>, geometry: Geometry, start: u32, fuel: nat)
    requires
        forall|steps: nat| steps <= fuel ==> spec_walk(volume, geometry, start, steps) is Ok,
    ensures
        spec_chain_within(volume, geometry, start, fuel) == Err::<Seq<u32>, Error>(
            Error::ChainTooLong,
        ),
    decreases fuel,
{
    assert(spec_walk(volume, geometry, start, 0) is Ok);
    if fuel > 0 {
        assert(spec_walk(volume, geometry, start, 1) is Ok);
        match spec_step(volume, geometry, start) {
            Ok(Link::Next(next)) => {
                assert forall|steps: nat| steps <= fuel - 1 implies spec_walk(
                    volume,
                    geometry,
                    next,
                    steps,
                ) is Ok by {
                    assert(spec_walk(volume, geometry, start, steps + 1) is Ok);
                }
                lemma_endless_is_too_long(volume, geometry, next, (fuel - 1) as nat);
            },
            _ => {},
        }
    }
}

/// A chain with a cycle is reported as `ChainTooLong`: if the links from
/// `start` lead, after `j` steps, to the cluster that they led to after
/// `i < j` steps, following the chain from `start` fails with that error.
pub proof fn lemma_cycle_is_too_long(
    volume: Seq<u8>,
    geometry: Geometry,
    start: u32,
    i: nat,
    j: nat,
)
    requires
        i < j,
        spec_walk(volume, geometry, start, i) is Ok,
        spec_walk(volume, geometry, start, i) == spec_walk(volume, geometry, start, j),
    ensures
        spec_chain(volume, geometry, start) == Err::<Seq<u32>, Error>(Error::ChainTooLong),
{
    assert forall|steps: nat| steps <= geometry.data_clusters as nat implies spec_walk(
        volume,
        geometry,
        start,
        steps,
    ) is Ok by {
        lemma_cycle_never_ends(volume, geometry, start, i, j, steps);
    }
    lemma_endless_is_too_long(volume, geometry, start, geometry.data_clusters as nat);
}

/// The cluster reached after `steps` links along a chain of the table is the
/// chain's cluster of that index; past the end of the chain there is none.
pub proof fn lemma_walk_along_chain(
    volume: Seq<u8>,
    geometry: Geometry,
    clusters: Seq<u32>,
    steps: nat,
)
    requires
        is_chain(volume, geometry, clusters),
    ensures
        spec_walk(volume, geometry, clusters[0], steps) == (if steps < clusters.len() {
            Ok::<u32, Error>(clusters[steps as int])
        } else {
            Err::<u32, Error>(Error::CorruptChain)
        }),
    decreases steps,
{
    if steps > 0 && clusters.len() > 1 {
        let rest = clusters.subrange(1, clusters.len() as int);
        lemma_chain_tail(volume, geometry, clusters);
        lemma_walk_along_chain(volume, geometry, rest, (steps - 1) as nat);
        assert(rest[0] == clusters[1]);
        if steps < clusters.len() {
            assert(rest[steps - 1] == clusters[steps as int]);
        }
    }
}

} // verus!
