//! Directory records: the 32-byte records of a directory, decoded into files
//! and subdirectories.
//!
//! A record whose first byte is `0x00` ends the directory; one whose first
//! byte is `0xE5` is deleted and passed over. A record whose attribute byte
//! is `0x0F` holds a part of the long name of the entry whose record follows.
//! Every other record stands for one entry: a directory if its directory bit
//! is set, a file if not.

use vstd::prelude::*;
use crate::metadata::{spec_timestamp, Attributes, Metadata, MetadataView, Timestamp, LONG_NAME};
use crate::name::{entry_name, spec_name};
use crate::path::{chars_of, names_match, same_name};
use crate::util::{le_u16, le_u32, spec_le_u16, spec_le_u32};

verus! {

/// First byte of the record that ends a directory.
pub const END_OF_DIRECTORY: u8 = 0x00;

/// First byte of a deleted record.
pub const DELETED: u8 = 0xE5;

/// A file of the volume, open for reading.
#[derive(Debug)]
pub struct File {
    pub metadata: Metadata,
    /// Offset in bytes, from the start of the file, of the next byte to read.
    pub position: u32,
}

/// A directory of the volume.
#[derive(Debug)]
pub struct Dir {
    pub metadata: Metadata,
}

/// An entry of a directory.
#[derive(Debug)]
pub enum Entry {
    File(File),
    Dir(Dir),
}

/// The mathematical value of a `File`.
pub ghost struct FileView {
    pub metadata: MetadataView,
    pub position: u32,
}

/// The mathematical value of a `Dir`.
pub ghost struct DirView {
    pub metadata: MetadataView,
}

/// The mathematical value of an `Entry`.
pub ghost enum EntryView {
    File(FileView),
    Dir(DirView),
}

impl View for File {
    type V = FileView;

    open spec fn view(&self) -> FileView {
        FileView { metadata: self.metadata@, position: self.position }
    }
}

impl View for Dir {
    type V = DirView;

    open spec fn view(&self) -> DirView {
        DirView { metadata: self.metadata@ }
    }
}

impl View for Entry {
    type V = EntryView;

    open spec fn view(&self) -> EntryView {
        match self {
            Entry::File(file) => EntryView::File(file@),
            Entry::Dir(dir) => EntryView::Dir(dir@),
        }
    }
}

impl EntryView {
    /// What the record of the entry says of it.
    pub open spec fn metadata(self) -> MetadataView {
        match self {
            EntryView::File(file) => file.metadata,
            EntryView::Dir(dir) => dir.metadata,
        }
    }
}

/// The values of the entries of `entries`, in order.
pub open spec fn views(entries: Seq<Entry>) -> Seq<EntryView> {
    Seq::new(entries.len(), |i: int| entries[i]@)
}

/// What the record `short` says of its entry, where the `k` long-name records
/// in `long` precede it.
///
/// The attribute byte is byte 11; time and date of creation are at bytes 14
/// and 16, the date of the last access at byte 18, time and date of the last
/// change at bytes 22 and 24. The number of the first cluster has its upper
/// half at byte 20 and its lower half at byte 26. The size is at byte 28.
pub open spec fn spec_metadata(long: Seq<u8>, k: nat, short: Seq<u8>) -> MetadataView {
    MetadataView {
        name: spec_name(long, k, short),
        attributes: Attributes(short[11]),
        created: spec_timestamp(spec_le_u16(short, 16), spec_le_u16(short, 14)),
        accessed: spec_timestamp(spec_le_u16(short, 18), 0),
        modified: spec_timestamp(spec_le_u16(short, 24), spec_le_u16(short, 22)),
        first_cluster: (spec_le_u16(short, 20) as int * 0x1_0000 + spec_le_u16(short, 26) as int) as u32,
        size: spec_le_u32(short, 28),
    }
}

/// The entry that the record `short` stands for, where the `k` long-name
/// records in `long` precede it: a directory if the directory bit of the
/// record is set, and a file at position 0 if not.
pub open spec fn spec_entry(long: Seq<u8>, k: nat, short: Seq<u8>) -> EntryView {
    let metadata = spec_metadata(long, k, short);
    if metadata.attributes.directory() {
        EntryView::Dir(DirView { metadata })
    } else {
        EntryView::File(FileView { metadata, position: 0 })
    }
}

/// Record `i` of the directory whose bytes are `bytes`.
pub open spec fn record(bytes: Seq<u8>, i: int) -> Seq<u8> {
    bytes.subrange(32 * i, 32 * i + 32)
}

/// The entries that the records of `bytes` from record `i` on stand for,
/// where the `k` records before record `i` are long-name records waiting for
/// their entry.
pub open spec fn spec_entries_from(bytes: Seq<u8>, i: nat, k: nat) -> Seq<EntryView>
    decreases bytes.len() - 32 * i,
{
    if 32 * i + 32 > bytes.len() || k > i {
        Seq::empty()
    } else {
        let current = record(bytes, i as int);
        if current[0] == END_OF_DIRECTORY {
            Seq::empty()
        } else if current[0] == DELETED {
            spec_entries_from(bytes, i + 1, 0)
        } else if current[11] == LONG_NAME {
            spec_entries_from(bytes, i + 1, k + 1)
        } else {
            seq![spec_entry(bytes.subrange(32 * (i - k), 32 * i as int), k, current)] + spec_entries_from(
                bytes,
                i + 1,
                0,
            )
        }
    }
}

/// The entries of the directory whose bytes are `bytes`, in the order of
/// their records. Bytes after the last whole record are ignored.
pub open spec fn spec_entries(bytes: Seq<u8>) -> Seq<EntryView> {
    spec_entries_from(bytes, 0, 0)
}

impl Metadata {
    /// Decodes what the record at the start of `short` says of its entry,
    /// where the `k` long-name records at the start of `long` precede it.
    pub fn decode(long: &[u8], k: usize, short: &[u8]) -> (metadata: Metadata)
        requires
            32 * k <= long.len(),
            short.len() >= 32,
        ensures
            metadata@ == spec_metadata(long@, k as nat, short@),
    {
        let name = entry_name(long, k, short);
        let cluster_high = le_u16(short, 20);
        let cluster_low = le_u16(short, 26);
        Metadata {
            name,
            attributes: Attributes(short[11]),
            created: Timestamp::new(le_u16(short, 16), le_u16(short, 14)),
            accessed: Timestamp::new(le_u16(short, 18), 0),
            modified: Timestamp::new(le_u16(short, 24), le_u16(short, 22)),
            first_cluster: cluster_high as u32 * 0x1_0000 + cluster_low as u32,
            size: le_u32(short, 28),
        }
    }
}

impl Entry {
    /// Decodes the entry that the record at the start of `short` stands for,
    /// where the `k` long-name records at the start of `long` precede it.
    pub fn decode(long: &[u8], k: usize, short: &[u8]) -> (entry: Entry)
        requires
            32 * k <= long.len(),
            short.len() >= 32,
        ensures
            entry@ == spec_entry(long@, k as nat, short@),
    {
        let metadata = Metadata::decode(long, k, short);
        if metadata.attributes.directory() {
            Entry::Dir(Dir { metadata })
        } else {
            Entry::File(File { metadata, position: 0 })
        }
    }

    /// Decodes the entries of the directory whose bytes are `bytes`, in the
    /// order of their records, up to the record that ends the directory.
    pub fn decode_all(bytes: &[u8]) -> (entries: Vec<Entry>)
        ensures
            views(entries@) == spec_entries(bytes@),
    {
        let mut entries: Vec<Entry> = Vec::new();
        let count: usize = bytes.len() / 32;
        let mut i: usize = 0;
        let mut k: usize = 0;
        proof {
            assert(views(entries@) + spec_entries(bytes@) =~= spec_entries(bytes@));
        }
        while i < count
            invariant
                k <= i <= count,
                count == bytes.len() / 32,
                spec_entries(bytes@) == views(entries@) + spec_entries_from(
                    bytes@,
                    i as nat,
                    k as nat,
                ),
            decreases count - i,
        {
            let current = &bytes[32 * i..32 * i + 32];
            assert(current@ == record(bytes@, i as int));
            if current[0] == END_OF_DIRECTORY {
                proof {
                    assert(views(entries@) + Seq::<EntryView>::empty() =~= views(entries@));
                }
                return entries;
            } else if current[0] == DELETED {
                k = 0;
            } else if current[11] == LONG_NAME {
                k = k + 1;
            } else {
                let long = &bytes[32 * (i - k)..32 * i];
                let entry = Entry::decode(long, k, current);
                proof {
                    let rest = spec_entries_from(bytes@, (i + 1) as nat, 0);
                    assert(views(entries@.push(entry)) =~= views(entries@).push(entry@));
                    assert(views(entries@) + (seq![entry@] + rest) =~= views(entries@).push(entry@)
                        + rest);
                }
                entries.push(entry);
                k = 0;
            }
            i += 1;
        }
        proof {
            assert(views(entries@) + Seq::<EntryView>::empty() =~= views(entries@));
        }
        entries
    }

    /// What the record of the entry says of it.
    pub fn metadata(&self) -> (metadata: &Metadata)
        ensures
            metadata@ == self@.metadata(),
    {
        match self {
            Entry::File(file) => &file.metadata,
            Entry::Dir(dir) => &dir.metadata,
        }
    }

    /// The name of the entry.
    pub fn name(&self) -> (name: &str)
        ensures
            name@ == self@.metadata().name,
    {
        self.metadata().name()
    }

    /// Whether the entry is a file.
    pub fn is_file(&self) -> (r: bool)
        ensures
            r == (self@ is File),
    {
        match self {
            Entry::File(_) => true,
            Entry::Dir(_) => false,
        }
    }

    /// Whether the entry is a directory.
    pub fn is_dir(&self) -> (r: bool)
        ensures
            r == (self@ is Dir),
    {
        match self {
            Entry::File(_) => false,
            Entry::Dir(_) => true,
        }
    }

    /// The file that the entry is, if it is one.
    pub fn into_file(self) -> (r: Option<File>)
        ensures
            match r {
                Some(file) => self@ == EntryView::File(file@),
                None => self@ is Dir,
            },
    {
        match self {
            Entry::File(file) => Some(file),
            Entry::Dir(_) => None,
        }
    }

    /// The directory that the entry is, if it is one.
    pub fn into_dir(self) -> (r: Option<Dir>)
        ensures
            match r {
                Some(dir) => self@ == EntryView::Dir(dir@),
                None => self@ is File,
            },
    {
        match self {
            Entry::File(_) => None,
            Entry::Dir(dir) => Some(dir),
        }
    }
}

/// Whether `entry` bears the name `name`, but for the case of ASCII letters.
pub open spec fn bears(entry: EntryView, name: Seq<char>) -> bool {
    names_match(entry.metadata().name, name)
}

/// The first of `entries` that bears the name `name`, if one does.
pub open spec fn spec_lookup(entries: Seq<EntryView>, name: Seq<char>) -> Option<EntryView> {
    if exists|i: int| 0 <= i < entries.len() && bears(#[trigger] entries[i], name) {
        let i = choose|i: int|
            0 <= i < entries.len() && bears(#[trigger] entries[i], name) && forall|j: int|
                0 <= j < i ==> !bears(#[trigger] entries[j], name);
        Some(entries[i])
    } else {
        None
    }
}

/// If entry `i` of `entries` bears the name `name` and no entry before it
/// does, looking `name` up in `entries` gives entry `i`.
pub proof fn lemma_first_bearer(entries: Seq<EntryView>, name: Seq<char>, i: int)
    requires
        0 <= i < entries.len(),
        bears(entries[i], name),
        forall|j: int| 0 <= j < i ==> !bears(#[trigger] entries[j], name),
    ensures
        spec_lookup(entries, name) == Some(entries[i]),
{
    let k = choose|k: int|
        0 <= k < entries.len() && bears(#[trigger] entries[k], name) && forall|j: int|
            0 <= j < k ==> !bears(#[trigger] entries[j], name);
    assert(k == i) by {
        if k < i {
            assert(!bears(entries[k], name));
        } else if i < k {
            assert(!bears(entries[i], name));
        }
    }
}

/// The index in `entries` of the first entry that bears the name `name`, but
/// for the case of ASCII letters, if one does.
pub fn position(entries: &Vec<Entry>, name: &Vec<char>) -> (r: Option<usize>)
    ensures
        match r {
            Some(i) => i < entries.len() && spec_lookup(views(entries@), name@) == Some(
                entries@[i as int]@,
            ),
            None => spec_lookup(views(entries@), name@) is None,
        },
{
    let mut i: usize = 0;
    while i < entries.len()
        invariant
            i <= entries.len(),
            forall|j: int| 0 <= j < i ==> !bears(#[trigger] entries@[j]@, name@),
        decreases entries.len() - i,
    {
        let held = chars_of(entries[i].name());
        if same_name(&held, name) {
            proof {
                assert forall|j: int| 0 <= j < i implies !bears(
                    #[trigger] views(entries@)[j],
                    name@,
                ) by {
                    assert(!bears(entries@[j]@, name@));
                }
                lemma_first_bearer(views(entries@), name@, i as int);
            }
            return Some(i);
        }
        i += 1;
    }
    proof {
        assert forall|j: int| 0 <= j < entries.len() implies !bears(
            #[trigger] views(entries@)[j],
            name@,
        ) by {
            assert(!bears(entries@[j]@, name@));
        }
    }
    None
}

/// Takes out of `entries` the first entry that bears the name `name`, but for
/// the case of ASCII letters, if one does.
pub fn lookup(entries: Vec<Entry>, name: &Vec<char>) -> (r: Option<Entry>)
    ensures
        match r {
            Some(entry) => spec_lookup(views(entries@), name@) == Some(entry@),
            None => spec_lookup(views(entries@), name@) is None,
        },
{
    match position(&entries, name) {
        Some(i) => {
            let mut entries = entries;
            Some(entries.remove(i))
        },
        None => None,
    }
}

} // verus!
