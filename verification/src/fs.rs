//! A file system that is mounted once and used afterwards.

use vstd::prelude::*;
use crate::device::BlockDevice;
use crate::dir::{Dir, Entry, File};
use crate::error::Error;
use crate::fat::Geometry;
use crate::file::{
    entries_of, entries_read, entry_of, open_reads, read_reads, spec_dir_entries,
    spec_file_read, spec_open, spec_open_parts, spec_read_all,
};
use crate::path::{deep, spec_components};
use crate::vfat::{is_io_failure, spec_mount, VFat};

verus! {

/// Where a file system stands between its creation and its use.
pub enum Mount<D: BlockDevice> {
    /// No attempt to mount was made.
    Unmounted,
    /// The volume held is mounted.
    Mounted(VFat<D>),
    /// The one attempt to mount failed with the error held.
    Failed(Error),
}

/// A file system that starts out unmounted, is mounted by the first call of
/// `initialize`, and answers requests once that has succeeded.
pub struct FileSystem<D: BlockDevice> {
    state: Mount<D>,
}

impl<D: BlockDevice> FileSystem<D> {
    /// Where the file system stands.
    pub closed spec fn state(&self) -> Mount<D> {
        self.state
    }

    /// Whether a volume is mounted.
    pub open spec fn mounted(&self) -> bool {
        self.state() is Mounted
    }

    /// The volume that is mounted.
    pub open spec fn volume(&self) -> VFat<D>
        recommends
            self.mounted(),
    {
        self.state()->Mounted_0
    }

    /// A mounted volume is in order.
    pub open spec fn inv(&self) -> bool {
        self.mounted() ==> self.volume().inv()
    }

    /// Returns an uninitialized `FileSystem`.
    ///
    /// The file system must be initialized by calling `initialize()` before
    /// the first request.
    pub fn uninitialized() -> (fs: FileSystem<D>)
        ensures
            fs.state() is Unmounted,
            fs.inv(),
    {
        FileSystem { state: Mount::Unmounted }
    }

    /// Initializes the file system: mounts the first FAT32 partition of
    /// `device`, if no attempt to mount was made before.
    ///
    /// The first call decides: afterwards the file system is mounted, or has
    /// failed with the failure of the mount. Any later call changes nothing.
    pub fn initialize(&mut self, device: D)
        requires
            old(self).inv(),
        ensures
            final(self).inv(),
            !(old(self).state() is Unmounted) ==> *final(self) == *old(self),
            old(self).state() is Unmounted ==> match final(self).state() {
                Mount::Unmounted => false,
                Mount::Mounted(fs) => {
                    &&& spec_mount(device.contents()) == Ok::<(u32, Geometry), Error>(
                        (fs.origin() as u32, fs.geometry()),
                    )
                    &&& fs.origin() <= u32::MAX
                    &&& fs.cached_device().device().contents() == device.contents()
                    &&& fs.reliable() == device.reliable()
                },
                Mount::Failed(e) => spec_mount(device.contents()) == Err::<(u32, Geometry), Error>(e)
                    || (!device.reliable() && e matches Error::Io(_)),
            },
    {
        match self.state {
            Mount::Unmounted => {
                self.state = match VFat::from(device) {
                    Ok(fs) => Mount::Mounted(fs),
                    Err(e) => Mount::Failed(e),
                };
            },
            _ => {},
        }
    }

    /// Whether a volume is mounted.
    pub fn is_mounted(&self) -> (r: bool)
        ensures
            r == self.mounted(),
    {
        match self.state {
            Mount::Mounted(_) => true,
            _ => false,
        }
    }

    /// The failure of the mount, if it failed.
    pub fn failure(&self) -> (r: Option<Error>)
        ensures
            r == (match self.state() {
                Mount::Failed(e) => Some(e),
                _ => None,
            }),
    {
        match self.state {
            Mount::Failed(e) => Some(e),
            _ => None,
        }
    }

    /// Opens the entry at `path` of the mounted volume, as `VFat::open` does.
    pub fn open(&mut self, path: &str) -> (r: Result<Entry, Error>)
        requires
            old(self).inv(),
            old(self).mounted(),
        ensures
            final(self).inv(),
            final(self).mounted(),
            final(self).volume().same_volume(&old(self).volume()),
            entry_of(r) == spec_open(
                old(self).volume().volume(),
                old(self).volume().geometry(),
                path@,
            ) || (!old(self).volume().reliable() && open_reads(
                old(self).volume().geometry(),
                spec_components(path@),
            ) && is_io_failure(r)),
    {
        match &mut self.state {
            Mount::Mounted(fs) => fs.open(path),
            _ => Err(Error::NotFound),
        }
    }

    /// Opens the entry that the components `parts` of a path lead to in the
    /// mounted volume, as `VFat::open_parts` does.
    pub fn open_parts(&mut self, parts: &Vec<Vec<char>>) -> (r: Result<Entry, Error>)
        requires
            old(self).inv(),
            old(self).mounted(),
        ensures
            final(self).inv(),
            final(self).mounted(),
            final(self).volume().same_volume(&old(self).volume()),
            entry_of(r) == spec_open_parts(
                old(self).volume().volume(),
                old(self).volume().geometry(),
                deep(parts@),
            ) || (!old(self).volume().reliable() && open_reads(
                old(self).volume().geometry(),
                deep(parts@),
            ) && is_io_failure(r)),
    {
        match &mut self.state {
            Mount::Mounted(fs) => fs.open_parts(parts),
            _ => Err(Error::NotFound),
        }
    }

    /// Reads the entries of `dir` in the mounted volume, as `Dir::entries`
    /// does.
    pub fn entries(&mut self, dir: &Dir) -> (r: Result<Vec<Entry>, Error>)
        requires
            old(self).inv(),
            old(self).mounted(),
        ensures
            final(self).inv(),
            final(self).mounted(),
            final(self).volume().same_volume(&old(self).volume()),
            entries_of(r) == spec_dir_entries(
                old(self).volume().volume(),
                old(self).volume().geometry(),
                dir@.metadata.first_cluster,
            ) || (!old(self).volume().reliable() && entries_read(
                old(self).volume().geometry(),
                dir@.metadata.first_cluster,
            ) && is_io_failure(r)),
    {
        match &mut self.state {
            Mount::Mounted(fs) => dir.entries(fs),
            _ => Err(Error::NotFound),
        }
    }

    /// Reads `file` of the mounted volume from its position to its end, as
    /// `File::read_to_end` does, and returns the bytes read.
    pub fn read_to_end(&mut self, file: &mut File) -> (r: Result<Vec<u8>, Error>)
        requires
            old(self).inv(),
            old(self).mounted(),
        ensures
            final(self).inv(),
            final(self).mounted(),
            final(self).volume().same_volume(&old(self).volume()),
            final(file)@.metadata == old(file)@.metadata,
            old(file)@.position >= old(file)@.metadata.size ==> crate::vfat::seq_of(r) == Ok::<
                Seq<u8>,
                Error,
            >(Seq::empty()) && final(file)@ == old(file)@,
            crate::vfat::seq_of(r) == spec_read_all(
                old(self).volume().volume(),
                old(self).volume().geometry(),
                old(file)@,
                512,
            ) || (!old(self).volume().reliable() && read_reads(
                old(self).volume().geometry(),
                old(file)@,
                512,
            ) && is_io_failure(r)),
    {
        let mut out: Vec<u8> = Vec::new();
        match &mut self.state {
            Mount::Mounted(fs) => match file.read_to_end(fs, &mut out) {
                Ok(_) => {
                    assert(out@.skip(0) =~= out@);
                    Ok(out)
                },
                Err(e) => Err(e),
            },
            _ => Err(Error::NotFound),
        }
    }

    /// Reads bytes of `file` of the mounted volume into `buf`, as
    /// `File::read` does.
    pub fn read(&mut self, file: &mut File, buf: &mut [u8]) -> (r: Result<usize, Error>)
        requires
            old(self).inv(),
            old(self).mounted(),
        ensures
            final(self).inv(),
            final(self).mounted(),
            final(self).volume().same_volume(&old(self).volume()),
            final(buf).len() == old(buf).len(),
            final(file)@.metadata == old(file)@.metadata,
            old(file)@.position >= old(file)@.metadata.size || old(buf).len() == 0 ==> r == Ok::<
                usize,
                Error,
            >(0) && final(file)@ == old(file)@ && final(buf)@ == old(buf)@,
            match r {
                Ok(n) => {
                    &&& n <= old(buf).len()
                    &&& final(file)@.position == old(file)@.position + n
                    &&& n > 0 ==> old(file)@.position + n <= old(file)@.metadata.size
                    &&& old(file)@.position >= old(file)@.metadata.size ==> n == 0
                    &&& spec_file_read(
                        old(self).volume().volume(),
                        old(self).volume().geometry(),
                        old(file)@,
                        old(buf).len() as int,
                    ) == Ok::<Seq<u8>, Error>(final(buf)@.subrange(0, n as int))
                    &&& final(buf)@.skip(n as int) == old(buf)@.skip(n as int)
                },
                Err(e) => {
                    &&& final(file)@ == old(file)@
                    &&& spec_file_read(
                        old(self).volume().volume(),
                        old(self).volume().geometry(),
                        old(file)@,
                        old(buf).len() as int,
                    ) == Err::<Seq<u8>, Error>(e) || (!old(self).volume().reliable()
                        && read_reads(
                        old(self).volume().geometry(),
                        old(file)@,
                        old(buf).len() as int,
                    ) && e matches Error::Io(_))
                },
            },
    {
        match &mut self.state {
            Mount::Mounted(fs) => file.read(fs, buf),
            _ => Err(Error::NotFound),
        }
    }

    /// Refuses to create a file: the file system is read-only.
    pub fn create_file(&mut self, path: &str) -> (r: Result<File, Error>)
        ensures
            *final(self) == *old(self),
            r matches Err(Error::ReadOnlyFilesystem),
    {
        Err(Error::ReadOnlyFilesystem)
    }

    /// Refuses to create a directory: the file system is read-only.
    pub fn create_dir(&mut self, path: &str, parents: bool) -> (r: Result<Dir, Error>)
        ensures
            *final(self) == *old(self),
            r matches Err(Error::ReadOnlyFilesystem),
    {
        Err(Error::ReadOnlyFilesystem)
    }

    /// Refuses to rename an entry: the file system is read-only.
    pub fn rename(&mut self, from: &str, to: &str) -> (r: Result<(), Error>)
        ensures
            *final(self) == *old(self),
            r == Err::<(), Error>(Error::ReadOnlyFilesystem),
    {
        Err(Error::ReadOnlyFilesystem)
    }

    /// Refuses to remove an entry: the file system is read-only.
    pub fn remove(&mut self, path: &str, children: bool) -> (r: Result<(), Error>)
        ensures
            *final(self) == *old(self),
            r == Err::<(), Error>(Error::ReadOnlyFilesystem),
    {
        Err(Error::ReadOnlyFilesystem)
    }
}

} // verus!
