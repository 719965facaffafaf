//! Opening, listing and reading the files and directories of a mounted
//! volume.

use vstd::prelude::*;
use crate::device::BlockDevice;
use crate::dir::{
    lookup, spec_entries, spec_lookup, views, Dir, DirView, Entry, EntryView, File, FileView,
};
use crate::error::Error;
use crate::fat::{
    lemma_chain_is_chain, reads_table, lemma_walk_along_chain, span, spec_chain, spec_clusters_data,
    spec_read_chain, spec_read_cluster, spec_walk, Geometry,
};
use crate::metadata::{Attributes, Metadata, MetadataView, DIRECTORY};
use crate::path::{chars_of, components, deep, spec_components};
use crate::vfat::{is_io_failure, VFat};

verus! {

/// The cluster at which the directory whose record names `first_cluster`
/// starts: the root directory where the record names cluster 0, as the
/// record `..` of a directory in the root does.
pub open spec fn spec_dir_start(geometry: Geometry, first_cluster: u32) -> u32 {
    if first_cluster == 0 {
        geometry.root
    } else {
        first_cluster
    }
}

/// The entries of the directory whose record names `first_cluster`, when the
/// device does not fail: the failure of reading its chain, else the entries
/// that the bytes of the chain decode to.
pub open spec fn spec_dir_entries(volume: Seq<u8>, geometry: Geometry, first_cluster: u32) -> Result<
    Seq<EntryView>,
    Error,
> {
    match spec_read_chain(volume, geometry, spec_dir_start(geometry, first_cluster)) {
        Err(e) => Err(e),
        Ok(bytes) => Ok(spec_entries(bytes)),
    }
}

/// Whether reading the directory whose record names `first_cluster` reads the
/// device: it does where the directory starts at a data cluster of the
/// volume, and is refused before any read where it does not.
pub open spec fn entries_read(geometry: Geometry, first_cluster: u32) -> bool {
    reads_table(geometry, spec_dir_start(geometry, first_cluster))
}

/// Whether opening the entry that the components `parts` name reads the
/// device: it does where there is a component to look up and the root
/// directory starts at a data cluster of the volume.
pub open spec fn open_reads(geometry: Geometry, parts: Seq<Seq<char>>) -> bool {
    parts.len() > 0 && entries_read(geometry, geometry.root)
}

/// Whether a read of at most `len` bytes of `file` reads the device: it does
/// where the file has a byte left and `len` is not 0, the volume has more
/// clusters than whole clusters precede the position, and the file starts at
/// a data cluster of the volume.
pub open spec fn read_reads(geometry: Geometry, file: FileView, len: int) -> bool {
    &&& file.position < file.metadata.size
    &&& len > 0
    &&& file.position as int / geometry.cluster_bytes() < geometry.data_clusters
    &&& reads_table(geometry, file.metadata.first_cluster)
}

/// An entry is opened through components only if the root directory starts
/// at a data cluster of the volume.
pub proof fn lemma_opened_has_root(volume: Seq<u8>, geometry: Geometry, parts: Seq<Seq<char>>)
    requires
        parts.len() > 0,
        spec_open_parts(volume, geometry, parts) is Ok,
    ensures
        open_reads(geometry, parts),
{
    lemma_listed_is_read(volume, geometry, geometry.root);
}

/// A directory is listed only if it starts at a data cluster of the volume.
pub proof fn lemma_listed_is_read(volume: Seq<u8>, geometry: Geometry, first_cluster: u32)
    requires
        spec_dir_entries(volume, geometry, first_cluster) is Ok,
    ensures
        entries_read(geometry, first_cluster),
{
}

/// A read gives bytes only if it reads the device.
pub proof fn lemma_bytes_are_read(volume: Seq<u8>, geometry: Geometry, file: FileView, len: int)
    requires
        spec_file_read(volume, geometry, file, len) matches Ok(bytes) && bytes.len() > 0,
    ensures
        read_reads(geometry, file, len),
{
}

/// The result `r` with the entries replaced by their values.
pub open spec fn entries_of(r: Result<Vec<Entry>, Error>) -> Result<Seq<EntryView>, Error> {
    match r {
        Ok(entries) => Ok(views(entries@)),
        Err(e) => Err(e),
    }
}

/// The result `r` with the entry replaced by its value.
pub open spec fn entry_of(r: Result<Entry, Error>) -> Result<EntryView, Error> {
    match r {
        Ok(entry) => Ok(entry@),
        Err(e) => Err(e),
    }
}

/// The root directory: a directory without a name, dates or size that starts
/// at the root cluster of the volume.
pub open spec fn spec_root(geometry: Geometry) -> DirView {
    DirView {
        metadata: MetadataView {
            name: Seq::empty(),
            attributes: Attributes(DIRECTORY),
            created: None,
            accessed: None,
            modified: None,
            first_cluster: geometry.root,
            size: 0,
        },
    }
}

/// The entry that the components of `parts` from component `i` on lead to,
/// starting in the directory whose record names `first_cluster`.
///
/// The component is looked up among the entries of the directory: `NotFound`
/// if none bears its name. The entry found is the result if the component is
/// the last; if not, the search goes on in the directory found, and fails
/// with `NotADirectory` if a file was found.
pub open spec fn spec_resolve(
    volume: Seq<u8>,
    geometry: Geometry,
    first_cluster: u32,
    parts: Seq<Seq<char>>,
    i: nat,
) -> Result<EntryView, Error>
    decreases parts.len() - i,
{
    if i >= parts.len() {
        Err(Error::NotFound)
    } else {
        match spec_dir_entries(volume, geometry, first_cluster) {
            Err(e) => Err(e),
            Ok(entries) => match spec_lookup(entries, parts[i as int]) {
                None => Err(Error::NotFound),
                Some(entry) => if i + 1 == parts.len() {
                    Ok(entry)
                } else {
                    match entry {
                        EntryView::File(_) => Err(Error::NotADirectory),
                        EntryView::Dir(dir) => spec_resolve(
                            volume,
                            geometry,
                            dir.metadata.first_cluster,
                            parts,
                            i + 1,
                        ),
                    }
                },
            },
        }
    }
}

/// The entry that the components `parts` name, when the device does not
/// fail: the root directory where there are none, and what they lead to from
/// the root directory otherwise.
pub open spec fn spec_open_parts(volume: Seq<u8>, geometry: Geometry, parts: Seq<Seq<char>>) -> Result<
    EntryView,
    Error,
> {
    if parts.len() == 0 {
        Ok(EntryView::Dir(spec_root(geometry)))
    } else {
        spec_resolve(volume, geometry, geometry.root, parts, 0)
    }
}

/// The entry that `path` names, when the device does not fail: the entry that
/// its components name.
pub open spec fn spec_open(volume: Seq<u8>, geometry: Geometry, path: Seq<char>) -> Result<
    EntryView,
    Error,
> {
    spec_open_parts(volume, geometry, spec_components(path))
}

/// A path whose first component names no entry of the root directory is not
/// found.
pub proof fn lemma_open_missing(volume: Seq<u8>, geometry: Geometry, parts: Seq<Seq<char>>)
    requires
        parts.len() > 0,
        spec_dir_entries(volume, geometry, geometry.root) matches Ok(entries) && spec_lookup(
            entries,
            parts[0],
        ) is None,
    ensures
        spec_open_parts(volume, geometry, parts) == Err::<EntryView, Error>(Error::NotFound),
{
}

/// A path that goes on after a component that names a file of the root
/// directory is refused: a file is no directory.
pub proof fn lemma_open_through_file(volume: Seq<u8>, geometry: Geometry, parts: Seq<Seq<char>>)
    requires
        parts.len() > 1,
        spec_dir_entries(volume, geometry, geometry.root) matches Ok(entries) && spec_lookup(
            entries,
            parts[0],
        ) matches Some(EntryView::File(_)),
    ensures
        spec_open_parts(volume, geometry, parts) == Err::<EntryView, Error>(Error::NotADirectory),
{
}

/// A path of one component that names an entry of the root directory opens
/// that entry.
pub proof fn lemma_open_in_root(volume: Seq<u8>, geometry: Geometry, parts: Seq<Seq<char>>)
    requires
        parts.len() == 1,
        spec_dir_entries(volume, geometry, geometry.root) matches Ok(entries) && spec_lookup(
            entries,
            parts[0],
        ) is Some,
    ensures
        spec_open_parts(volume, geometry, parts) == Ok::<EntryView, Error>(
            spec_lookup(spec_dir_entries(volume, geometry, geometry.root)->Ok_0, parts[0])->Some_0,
        ),
{
}

/// What a read of at most `len` bytes of `file` gives when the device does
/// not fail.
///
/// At or past the end of the file, nothing. Before it, the bytes from the
/// position on, as many as asked for but none past the declared size of the
/// file and none past the end of the cluster that the position lies in. That
/// cluster is reached from the first cluster of the file by as many links as
/// whole clusters precede the position: `ChainTooLong` if the volume has no
/// more clusters than that, `CorruptChain` if the chain ends or breaks
/// before.
pub open spec fn spec_file_read(volume: Seq<u8>, geometry: Geometry, file: FileView, len: int) -> Result<
    Seq<u8>,
    Error,
> {
    let size = file.metadata.size as int;
    let position = file.position as int;
    let wanted = if len <= size - position {
        len
    } else {
        size - position
    };
    if wanted <= 0 {
        Ok(Seq::empty())
    } else if position / geometry.cluster_bytes() >= geometry.data_clusters {
        Err(Error::ChainTooLong)
    } else {
        match spec_walk(
            volume,
            geometry,
            file.metadata.first_cluster,
            (position / geometry.cluster_bytes()) as nat,
        ) {
            Err(e) => Err(e),
            Ok(cluster) => spec_read_cluster(
                volume,
                geometry,
                cluster,
                position % geometry.cluster_bytes(),
                wanted,
            ),
        }
    }
}

/// The contents of the file that `metadata` describes, when the device does
/// not fail: nothing for a file of size 0; otherwise the bytes of the chain
/// that starts at its first cluster, cut at its declared size.
/// `CorruptChain` if the chain holds fewer bytes than that.
pub open spec fn spec_contents(volume: Seq<u8>, geometry: Geometry, metadata: MetadataView) -> Result<
    Seq<u8>,
    Error,
> {
    if metadata.size == 0 {
        Ok(Seq::empty())
    } else {
        match spec_read_chain(volume, geometry, metadata.first_cluster) {
            Err(e) => Err(e),
            Ok(bytes) => if bytes.len() < metadata.size {
                Err(Error::CorruptChain)
            } else {
                Ok(bytes.take(metadata.size as int))
            },
        }
    }
}

/// Where the first `n` clusters of `clusters` can be read, their bytes are
/// `n` times the bytes of a cluster, and each cluster can be read whole and
/// lies in them at its place.
pub proof fn lemma_clusters_data_layout(
    volume: Seq<u8>,
    geometry: Geometry,
    clusters: Seq<u32>,
    n: nat,
    i: int,
)
    requires
        geometry.wf(),
        0 <= i < n,
        spec_clusters_data(volume, geometry, clusters, n) is Ok,
    ensures
        spec_clusters_data(volume, geometry, clusters, n)->Ok_0.len() == n
            * geometry.cluster_bytes(),
        geometry.is_data_cluster(clusters[i]),
        (geometry.cluster_sector(clusters[i]) + geometry.cluster_sectors) * 512 <= volume.len(),
        forall|t: int|
            0 <= t < geometry.cluster_bytes() ==> spec_clusters_data(
                volume,
                geometry,
                clusters,
                n,
            )->Ok_0[i * geometry.cluster_bytes() + t] == #[trigger] volume[geometry.cluster_sector(
                clusters[i],
            ) * 512 + t],
    decreases n,
{
    let size = geometry.cluster_bytes();
    let before = spec_clusters_data(volume, geometry, clusters, (n - 1) as nat)->Ok_0;
    let last = spec_read_cluster(volume, geometry, clusters[n - 1], 0, size)->Ok_0;
    let base = geometry.cluster_sector(clusters[n - 1]) * 512;
    assert(span(geometry, 0, size) == size);
    assert(last == volume.subrange(base, base + size));
    assert(base + size <= volume.len());
    if n > 1 {
        lemma_clusters_data_layout(volume, geometry, clusters, (n - 1) as nat, 0);
    } else {
        assert(before =~= Seq::<u8>::empty());
        assert((n - 1) * size == 0) by (nonlinear_arith)
            requires
                n == 1,
        ;
    }
    assert((n - 1) * size + size == n * size) by (nonlinear_arith);
    assert(before.len() == (n - 1) * size);
    if i < n - 1 {
        lemma_clusters_data_layout(volume, geometry, clusters, (n - 1) as nat, i);
        assert(i * size + size <= (n - 1) * size) by (nonlinear_arith)
            requires
                i < n - 1,
                size >= 0,
        ;
    }
}

/// A read of a file gives bytes of its contents: where the chain of the file
/// can be read and holds as many bytes as the file declares, a read of at
/// most `len` bytes before the end of the file gives the contents from the
/// position on, up to `len` bytes, the end of the file or the end of the
/// cluster that the position lies in, whichever comes first.
pub proof fn lemma_read_gives_contents(
    volume: Seq<u8>,
    geometry: Geometry,
    file: FileView,
    len: int,
)
    requires
        geometry.wf(),
        spec_contents(volume, geometry, file.metadata) is Ok,
        file.position < file.metadata.size,
        len > 0,
    ensures
        ({
            let contents = spec_contents(volume, geometry, file.metadata)->Ok_0;
            let in_cluster = geometry.cluster_bytes() - (file.position as int) % geometry.cluster_bytes();
            let in_file = file.metadata.size - file.position;
            let n = if len <= in_cluster && len <= in_file {
                len
            } else if in_cluster <= in_file {
                in_cluster
            } else {
                in_file
            };
            &&& contents.len() == file.metadata.size
            &&& 0 < n
            &&& spec_file_read(volume, geometry, file, len) == Ok::<Seq<u8>, Error>(
                contents.subrange(file.position as int, file.position + n),
            )
        }),
{
    let size = file.metadata.size as int;
    let position = file.position as int;
    let start = file.metadata.first_cluster;
    let cb = geometry.cluster_bytes();
    let clusters = spec_chain(volume, geometry, start)->Ok_0;
    let bytes = spec_read_chain(volume, geometry, start)->Ok_0;
    let contents = spec_contents(volume, geometry, file.metadata)->Ok_0;
    let index = position / cb;
    let offset = position % cb;
    lemma_chain_is_chain(volume, geometry, start, geometry.data_clusters as nat, clusters);
    lemma_clusters_data_layout(volume, geometry, clusters, clusters.len(), 0);
    // The position lies in a cluster of the chain.
    assert(index < clusters.len()) by (nonlinear_arith)
        requires
            index == position / cb,
            position < size <= clusters.len() * cb,
            cb > 0,
    ;
    assert(position == index * cb + offset && 0 <= offset < cb) by (nonlinear_arith)
        requires
            index == position / cb,
            offset == position % cb,
            cb > 0,
    ;
    lemma_walk_along_chain(volume, geometry, clusters, index as nat);
    lemma_clusters_data_layout(volume, geometry, clusters, clusters.len(), index);
    let cluster = clusters[index];
    let wanted = if len <= size - position {
        len
    } else {
        size - position
    };
    let n = span(geometry, offset, wanted);
    let base = geometry.cluster_sector(cluster) * 512 + offset;
    assert(base + n <= volume.len());
    assert(spec_file_read(volume, geometry, file, len) == Ok::<Seq<u8>, Error>(
        volume.subrange(base, base + n),
    ));
    let part = contents.subrange(position, position + n);
    let data = volume.subrange(base, base + n);
    assert(part =~= data) by {
        assert forall|t: int| 0 <= t < n implies #[trigger] part[t] == data[t] by {
            assert(part[t] == bytes[index * cb + (offset + t)]);
            assert(bytes[index * cb + (offset + t)] == volume[geometry.cluster_sector(cluster)
                * 512 + (offset + t)]);
        }
    }
}

/// The file `file` moved to `position`.
pub open spec fn at_position(file: FileView, position: int) -> FileView {
    FileView { metadata: file.metadata, position: position as u32 }
}

/// What reading `file` from its position to its end gives, in reads of at
/// most `chunk` bytes, when the device does not fail: the bytes of all the
/// reads, or the failure of the first read that fails.
pub open spec fn spec_read_all(volume: Seq<u8>, geometry: Geometry, file: FileView, chunk: int) -> Result<
    Seq<u8>,
    Error,
>
    decreases file.metadata.size - file.position,
{
    if file.position >= file.metadata.size {
        Ok(Seq::empty())
    } else {
        match spec_file_read(volume, geometry, file, chunk) {
            Err(e) => Err(e),
            Ok(part) => if part.len() == 0 || file.position + part.len() > file.metadata.size {
                Ok(part)
            } else {
                match spec_read_all(
                    volume,
                    geometry,
                    at_position(file, file.position + part.len()),
                    chunk,
                ) {
                    Err(e) => Err(e),
                    Ok(rest) => Ok(part + rest),
                }
            },
        }
    }
}

/// Reading a file to its end gives the rest of its contents: where the chain
/// of the file can be read and holds as many bytes as the file declares,
/// reading from a position in the file gives the contents from that position
/// on.
pub proof fn lemma_read_all_gives_contents(
    volume: Seq<u8>,
    geometry: Geometry,
    file: FileView,
    chunk: int,
)
    requires
        geometry.wf(),
        spec_contents(volume, geometry, file.metadata) is Ok,
        file.position <= file.metadata.size,
        chunk > 0,
    ensures
        spec_read_all(volume, geometry, file, chunk) == Ok::<Seq<u8>, Error>(
            spec_contents(volume, geometry, file.metadata)->Ok_0.skip(file.position as int),
        ),
    decreases file.metadata.size - file.position,
{
    let contents = spec_contents(volume, geometry, file.metadata)->Ok_0;
    if file.position < file.metadata.size {
        lemma_read_gives_contents(volume, geometry, file, chunk);
        let part = spec_file_read(volume, geometry, file, chunk)->Ok_0;
        let next = at_position(file, file.position + part.len());
        lemma_read_all_gives_contents(volume, geometry, next, chunk);
        assert(part + contents.skip(next.position as int) =~= contents.skip(file.position as int));
    } else {
        if file.metadata.size > 0 {
            assert(contents.len() == file.metadata.size);
        }
        assert(contents.skip(file.position as int) =~= Seq::<u8>::empty());
    }
}

impl<D: BlockDevice> VFat<D> {
    /// The root directory of the volume.
    pub fn root(&self) -> (dir: Dir)
        ensures
            dir@ == spec_root(self.geometry()),
    {
        let geometry = self.layout();
        Dir {
            metadata: Metadata {
                name: String::new(),
                attributes: Attributes(DIRECTORY),
                created: None,
                accessed: None,
                modified: None,
                first_cluster: geometry.root,
                size: 0,
            },
        }
    }

    /// Reads the entries of the directory whose record names
    /// `first_cluster`, in the order of their records. Cluster 0 stands for
    /// the root directory.
    pub fn entries(&mut self, first_cluster: u32) -> (r: Result<Vec<Entry>, Error>)
        requires
            old(self).inv(),
        ensures
            final(self).inv(),
            final(self).same_volume(old(self)),
            entries_of(r) == spec_dir_entries(
                old(self).volume(),
                old(self).geometry(),
                first_cluster,
            ) || (!old(self).reliable() && entries_read(old(self).geometry(), first_cluster)
                && is_io_failure(r)),
    {
        let start = if first_cluster == 0 {
            self.layout().root
        } else {
            first_cluster
        };
        match self.read_chain(start) {
            Err(e) => Err(e),
            Ok(bytes) => Ok(Entry::decode_all(bytes.as_slice())),
        }
    }

    /// Opens the entry at `path`.
    ///
    /// The path is split at its slashes. Starting at the root directory, each
    /// component is looked up, without regard to the case of ASCII letters,
    /// among the entries of the directory reached so far. Fails with
    /// `NotFound` if a component names no entry, and with `NotADirectory` if
    /// a component other than the last names a file. A path without
    /// components names the root directory.
    pub fn open(&mut self, path: &str) -> (r: Result<Entry, Error>)
        requires
            old(self).inv(),
        ensures
            final(self).inv(),
            final(self).same_volume(old(self)),
            entry_of(r) == spec_open(old(self).volume(), old(self).geometry(), path@) || (
            !old(self).reliable() && open_reads(old(self).geometry(), spec_components(path@))
                && is_io_failure(r)),
    {
        let parts = components(path);
        self.open_parts(&parts)
    }

    /// Opens the entry that the components `parts` of a path lead to, as
    /// `open` does for the components of its path.
    pub fn open_parts(&mut self, parts: &Vec<Vec<char>>) -> (r: Result<Entry, Error>)
        requires
            old(self).inv(),
        ensures
            final(self).inv(),
            final(self).same_volume(old(self)),
            entry_of(r) == spec_open_parts(
                old(self).volume(),
                old(self).geometry(),
                deep(parts@),
            ) || (!old(self).reliable() && open_reads(old(self).geometry(), deep(parts@))
                && is_io_failure(r)),
    {
        if parts.len() == 0 {
            return Ok(Entry::Dir(self.root()));
        }
        let ghost volume = self.volume();
        let ghost geometry = self.geometry();
        let mut first_cluster: u32 = self.layout().root;
        let mut i: usize = 0;
        loop
            invariant
                self.inv(),
                self.same_volume(old(self)),
                volume == old(self).volume(),
                geometry == old(self).geometry(),
                i < parts.len(),
                i == 0 ==> first_cluster == geometry.root,
                i > 0 ==> open_reads(geometry, deep(parts@)),
                spec_open_parts(volume, geometry, deep(parts@)) == spec_resolve(
                    volume,
                    geometry,
                    first_cluster,
                    deep(parts@),
                    i as nat,
                ),
            decreases parts.len() - i,
        {
            let entries = match self.entries(first_cluster) {
                Ok(entries) => entries,
                Err(e) => {
                    return Err(e);
                },
            };
            proof {
                if i == 0 {
                    lemma_listed_is_read(volume, geometry, geometry.root);
                }
            }
            assert(deep(parts@)[i as int] == parts@[i as int]@);
            let entry = match lookup(entries, &parts[i]) {
                Some(entry) => entry,
                None => {
                    return Err(Error::NotFound);
                },
            };
            if i + 1 == parts.len() {
                return Ok(entry);
            }
            match entry {
                Entry::File(_) => {
                    return Err(Error::NotADirectory);
                },
                Entry::Dir(dir) => {
                    first_cluster = dir.metadata.first_cluster;
                },
            }
            i += 1;
        }
    }

    /// Refuses to create a file: the volume is read-only.
    pub fn create_file(&mut self, path: &str) -> (r: Result<File, Error>)
        ensures
            *final(self) == *old(self),
            r matches Err(Error::ReadOnlyFilesystem),
    {
        Err(Error::ReadOnlyFilesystem)
    }

    /// Refuses to create a directory: the volume is read-only.
    pub fn create_dir(&mut self, path: &str, parents: bool) -> (r: Result<Dir, Error>)
        ensures
            *final(self) == *old(self),
            r matches Err(Error::ReadOnlyFilesystem),
    {
        Err(Error::ReadOnlyFilesystem)
    }

    /// Refuses to rename an entry: the volume is read-only.
    pub fn rename(&mut self, from: &str, to: &str) -> (r: Result<(), Error>)
        ensures
            *final(self) == *old(self),
            r == Err::<(), Error>(Error::ReadOnlyFilesystem),
    {
        Err(Error::ReadOnlyFilesystem)
    }

    /// Refuses to remove an entry: the volume is read-only.
    pub fn remove(&mut self, path: &str, children: bool) -> (r: Result<(), Error>)
        ensures
            *final(self) == *old(self),
            r == Err::<(), Error>(Error::ReadOnlyFilesystem),
    {
        Err(Error::ReadOnlyFilesystem)
    }
}

impl Dir {
    /// Reads the entries of the directory, in the order of their records.
    /// Every call reads the directory anew, from its first cluster.
    pub fn entries<D: BlockDevice>(&self, fs: &mut VFat<D>) -> (r: Result<Vec<Entry>, Error>)
        requires
            old(fs).inv(),
        ensures
            final(fs).inv(),
            final(fs).same_volume(old(fs)),
            entries_of(r) == spec_dir_entries(
                old(fs).volume(),
                old(fs).geometry(),
                self@.metadata.first_cluster,
            ) || (!old(fs).reliable() && entries_read(
                old(fs).geometry(),
                self@.metadata.first_cluster,
            ) && is_io_failure(r)),
    {
        fs.entries(self.metadata.first_cluster)
    }

    /// Looks `name` up among the entries of the directory, without regard to
    /// the case of ASCII letters. Fails with `NotFound` if no entry bears the
    /// name.
    pub fn find<D: BlockDevice>(&self, fs: &mut VFat<D>, name: &str) -> (r: Result<Entry, Error>)
        requires
            old(fs).inv(),
        ensures
            final(fs).inv(),
            final(fs).same_volume(old(fs)),
            entry_of(r) == (match spec_dir_entries(
                old(fs).volume(),
                old(fs).geometry(),
                self@.metadata.first_cluster,
            ) {
                Err(e) => Err(e),
                Ok(entries) => match spec_lookup(entries, name@) {
                    Some(entry) => Ok(entry),
                    None => Err(Error::NotFound),
                },
            }) || (!old(fs).reliable() && entries_read(
                old(fs).geometry(),
                self@.metadata.first_cluster,
            ) && is_io_failure(r)),
    {
        let entries = match fs.entries(self.metadata.first_cluster) {
            Ok(entries) => entries,
            Err(e) => {
                return Err(e);
            },
        };
        let wanted = chars_of(name);
        match lookup(entries, &wanted) {
            Some(entry) => Ok(entry),
            None => Err(Error::NotFound),
        }
    }

    /// What the record of the directory says of it.
    pub fn metadata(&self) -> (metadata: &Metadata)
        ensures
            metadata@ == self@.metadata,
    {
        &self.metadata
    }
}

impl File {
    /// Reads bytes of the file into the start of `buf`, from the position of
    /// the file on, and moves the position past them. Returns the number of
    /// bytes read: 0 at the end of the file, however often it is asked.
    ///
    /// One call reads as many bytes as `buf` has room for, but none past the
    /// size that the record of the file declares, and none past the end of
    /// the cluster that the position lies in. The rest of `buf` stays as it
    /// is. After a failure the file is where it was, and the contents of
    /// `buf` are unspecified.
    pub fn read<D: BlockDevice>(&mut self, fs: &mut VFat<D>, buf: &mut [u8]) -> (r: Result<
        usize,
        Error,
    >)
        requires
            old(fs).inv(),
        ensures
            final(fs).inv(),
            final(fs).same_volume(old(fs)),
            final(buf).len() == old(buf).len(),
            final(self)@.metadata == old(self)@.metadata,
            old(self)@.position >= old(self)@.metadata.size || old(buf).len() == 0 ==> r == Ok::<
                usize,
                Error,
            >(0) && final(self)@ == old(self)@ && final(buf)@ == old(buf)@,
            match r {
                Ok(n) => {
                    &&& n <= old(buf).len()
                    &&& old(self)@.position + n <= u32::MAX
                    &&& final(self)@.position == old(self)@.position + n
                    &&& n > 0 ==> old(self)@.position + n <= old(self)@.metadata.size
                    &&& old(self)@.position >= old(self)@.metadata.size ==> n == 0
                    &&& (old(self)@.position < old(self)@.metadata.size && old(buf).len() > 0)
                        ==> n > 0
                    &&& spec_file_read(
                        old(fs).volume(),
                        old(fs).geometry(),
                        old(self)@,
                        old(buf).len() as int,
                    ) == Ok::<Seq<u8>, Error>(final(buf)@.subrange(0, n as int))
                    &&& final(buf)@.skip(n as int) == old(buf)@.skip(n as int)
                },
                Err(e) => {
                    &&& final(self)@ == old(self)@
                    &&& spec_file_read(
                        old(fs).volume(),
                        old(fs).geometry(),
                        old(self)@,
                        old(buf).len() as int,
                    ) == Err::<Seq<u8>, Error>(e) || (!old(fs).reliable() && read_reads(
                        old(fs).geometry(),
                        old(self)@,
                        old(buf).len() as int,
                    ) && e matches Error::Io(_))
                },
            },
    {
        let size = self.metadata.size;
        let position = self.position;
        if position >= size || buf.len() == 0 {
            assert(buf@.subrange(0, 0) =~= Seq::<u8>::empty());
            assert(buf@.skip(0) =~= buf@);
            return Ok(0);
        }
        let geometry = fs.layout();
        proof {
            fs.lemma_layout_wf();
        }
        let cluster_bytes: u32 = (geometry.cluster_sectors * 512) as u32;
        let index: u32 = position / cluster_bytes;
        if index >= geometry.data_clusters {
            return Err(Error::ChainTooLong);
        }
        let cluster = match fs.walk(self.metadata.first_cluster, index) {
            Ok(cluster) => cluster,
            Err(e) => {
                return Err(e);
            },
        };
        let left: u32 = size - position;
        let limit: usize = if (left as u64) <= usize::MAX as u64 {
            left as usize
        } else {
            usize::MAX
        };
        let offset: usize = (position % cluster_bytes) as usize;
        match fs.read_cluster_part(cluster, offset, buf, limit) {
            Err(e) => Err(e),
            Ok(n) => {
                proof {
                    let wanted = vstd::math::min(old(buf).len() as int, limit as int);
                    assert(span(geometry, offset as int, wanted) > 0);
                    assert(buf@.subrange(0, n as int).len() == n);
                }
                self.position = position + n as u32;
                Ok(n)
            },
        }
    }

    /// Reads the file from its position to its end, in reads of at most 512
    /// bytes, and appends the bytes read to `out`. Returns their number.
    ///
    /// After a failure `out` holds what it held before, followed by the bytes
    /// of the reads that succeeded, and the file stands after those bytes.
    pub fn read_to_end<D: BlockDevice>(&mut self, fs: &mut VFat<D>, out: &mut Vec<u8>) -> (r: Result<
        usize,
        Error,
    >)
        requires
            old(fs).inv(),
        ensures
            final(fs).inv(),
            final(fs).same_volume(old(fs)),
            final(self)@.metadata == old(self)@.metadata,
            old(out)@.is_prefix_of(final(out)@),
            old(self)@.position >= old(self)@.metadata.size ==> r == Ok::<usize, Error>(0)
                && final(self)@ == old(self)@ && final(out)@ == old(out)@,
            match r {
                Ok(n) => {
                    &&& spec_read_all(old(fs).volume(), old(fs).geometry(), old(self)@, 512)
                        == Ok::<Seq<u8>, Error>(final(out)@.skip(old(out)@.len() as int))
                    &&& n == final(out)@.len() - old(out)@.len()
                    &&& final(self)@.position == old(self)@.position + n
                    &&& final(self)@.position >= final(self)@.metadata.size
                },
                Err(e) => spec_read_all(old(fs).volume(), old(fs).geometry(), old(self)@, 512)
                    == Err::<Seq<u8>, Error>(e) || (!old(fs).reliable() && read_reads(
                    old(fs).geometry(),
                    old(self)@,
                    512,
                ) && e matches Error::Io(_)),
            },
    {
        let ghost volume = fs.volume();
        let ghost geometry = fs.geometry();
        let ghost start = self@;
        let ghost held = out@;
        let mut total: usize = 0;
        proof {
            let all = spec_read_all(volume, geometry, start, 512);
            if all is Ok {
                assert(Seq::<u8>::empty() + all->Ok_0 =~= all->Ok_0);
            }
            assert(out@.skip(held.len() as int) =~= Seq::<u8>::empty());
        }
        loop
            invariant
                fs.inv(),
                fs.same_volume(old(fs)),
                volume == old(fs).volume(),
                geometry == old(fs).geometry(),
                start == old(self)@,
                held == old(out)@,
                self@.metadata == start.metadata,
                held.is_prefix_of(out@),
                total == out@.len() - held.len(),
                self@.position == start.position + total,
                total > 0 ==> read_reads(geometry, start, 512),
                spec_read_all(volume, geometry, start, 512) == match spec_read_all(
                    volume,
                    geometry,
                    self@,
                    512,
                ) {
                    Ok(rest) => Ok(out@.skip(held.len() as int) + rest),
                    Err(e) => Err(e),
                },
            decreases u32::MAX - self.position,
        {
            if self.position >= self.metadata.size {
                assert(out@.skip(held.len() as int) + Seq::<u8>::empty() =~= out@.skip(
                    held.len() as int,
                ));
                return Ok(total);
            }
            let mut buf: Vec<u8> = vec![0u8; 512];
            let ghost before = self@;
            let n = match self.read(fs, buf.as_mut_slice()) {
                Ok(n) => n,
                Err(e) => {
                    return Err(e);
                },
            };
            let ghost part = buf@.subrange(0, n as int);
            let ghost so_far = out@;
            let mut i: usize = 0;
            while i < n
                invariant
                    i <= n <= 512,
                    buf.len() == 512,
                    part == buf@.subrange(0, n as int),
                    out@ == so_far + part.take(i as int),
                decreases n - i,
            {
                out.push(buf[i]);
                assert(so_far + part.take(i + 1) =~= (so_far + part.take(i as int)).push(
                    part[i as int],
                ));
                i += 1;
            }
            proof {
                assert(part.take(n as int) =~= part);
                assert(n > 0);
                if total == 0 {
                    assert(before == start);
                    lemma_bytes_are_read(volume, geometry, before, 512);
                }
                assert(self@ == at_position(before, before.position + part.len()));
                let rest = spec_read_all(volume, geometry, self@, 512);
                assert(out@.skip(held.len() as int) =~= so_far.skip(held.len() as int) + part);
                if rest is Ok {
                    assert(so_far.skip(held.len() as int) + (part + rest->Ok_0) =~= out@.skip(
                        held.len() as int,
                    ) + rest->Ok_0);
                }
            }
            total = total + n;
        }
    }

    /// What the record of the file says of it.
    pub fn metadata(&self) -> (metadata: &Metadata)
        ensures
            metadata@ == self@.metadata,
    {
        &self.metadata
    }

    /// The offset, from the start of the file, of the next byte to read.
    pub fn position(&self) -> (position: u64)
        ensures
            position == self@.position,
    {
        self.position as u64
    }
}

} // verus!
