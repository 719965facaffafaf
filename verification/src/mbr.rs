//! The master boot record: the partition table in the first sector of a disk.

use vstd::prelude::*;
use crate::device::{has_sector, sector_of, BlockDevice, IoError};
use crate::util::{le_u32, spec_le_u32};

verus! {

/// Byte offset of the partition table within the sector.
pub const TABLE_OFFSET: usize = 446;

/// Size in bytes of one entry of the partition table.
pub const ENTRY_SIZE: usize = 16;

/// A cylinder-head-sector address, kept as the three bytes stored on disk.
/// Nothing in the engine interprets it.
#[derive(Clone, Copy, Debug, PartialEq, Eq, Structural)]
pub struct CHS {
    pub head: u8,
    pub sector: u8,
    pub cylinder: u8,
}

/// One entry of the partition table.
#[derive(Clone, Copy, Debug, PartialEq, Eq, Structural)]
pub struct PartitionEntry {
    pub bootable: bool,
    pub first_chs: CHS,
    pub partition_type: u8,
    pub last_chs: CHS,
    /// Offset, in sectors, from the start of the disk to the start of the
    /// partition.
    pub relative_sector: u32,
    pub total_sectors: u32,
}

/// The master boot record (MBR).
#[derive(Clone, Copy, Debug)]
pub struct MasterBootRecord {
    pub partitions: [PartitionEntry; 4],
}

/// Why a master boot record could not be read.
#[derive(Clone, Copy, Debug, PartialEq, Eq, Structural)]
pub enum Error {
    /// There was an I/O error while reading the MBR.
    Io(IoError),
    /// Partition `.0` (0-indexed) contains an invalid or unknown boot
    /// indicator.
    UnknownBootIndicator(u8),
    /// The MBR magic signature was invalid.
    BadSignature,
}

/// Whether `b` is a boot indicator that the format defines.
pub open spec fn boot_indicator_ok(b: u8) -> bool {
    b == 0x00 || b == 0x80
}

/// Whether `partition_type` marks a FAT32 partition.
pub open spec fn is_fat32_type(partition_type: u8) -> bool {
    partition_type == 0x0B || partition_type == 0x0C
}

/// The partition entry that the 16 bytes of `buf` encode, where the boot
/// indicator is one that the format defines.
pub open spec fn entry_of(buf: Seq<u8>) -> PartitionEntry {
    PartitionEntry {
        bootable: buf[0] == 0x80,
        first_chs: CHS { head: buf[1], sector: buf[2], cylinder: buf[3] },
        partition_type: buf[4],
        last_chs: CHS { head: buf[5], sector: buf[6], cylinder: buf[7] },
        relative_sector: spec_le_u32(buf, 8),
        total_sectors: spec_le_u32(buf, 12),
    }
}

/// The 16 bytes of entry `i` of the partition table in `sector`.
pub open spec fn entry_bytes(sector: Seq<u8>, i: int) -> Seq<u8> {
    sector.subrange(446 + 16 * i, 446 + 16 * i + 16)
}

/// Whether `sector` ends in the two signature bytes.
pub open spec fn signature_ok(sector: Seq<u8>) -> bool {
    sector[510] == 0x55 && sector[511] == 0xAA
}

/// Whether each of the first `n` table entries of `sector` has a boot
/// indicator that the format defines.
pub open spec fn indicators_ok(sector: Seq<u8>, n: int) -> bool {
    forall|j: int| 0 <= j < n ==> boot_indicator_ok(#[trigger] entry_bytes(sector, j)[0])
}

/// What a 512-byte `sector` decodes to: the four entries of its partition
/// table, or the reason why it is no master boot record. A wrong signature is
/// reported before any entry is looked at, and of several entries with an
/// unknown boot indicator the first is reported.
pub open spec fn spec_parse(sector: Seq<u8>) -> Result<Seq<PartitionEntry>, Error> {
    if !signature_ok(sector) {
        Err(Error::BadSignature)
    } else if exists|i: int| 0 <= i < 4 && !boot_indicator_ok(#[trigger] entry_bytes(sector, i)[0]) {
        let i = choose|i: int|
            0 <= i < 4 && !boot_indicator_ok(#[trigger] entry_bytes(sector, i)[0]) && indicators_ok(
                sector,
                i,
            );
        Err(Error::UnknownBootIndicator(i as u8))
    } else {
        Ok(Seq::new(4, |i: int| entry_of(entry_bytes(sector, i))))
    }
}

/// What reading the master boot record of a medium holding `contents` gives
/// when the device does not fail.
pub open spec fn spec_read(contents: Seq<u8>) -> Result<Seq<PartitionEntry>, Error> {
    if has_sector(contents, 0) {
        spec_parse(sector_of(contents, 0))
    } else {
        Err(Error::Io(IoError::InvalidInput))
    }
}

/// The result `r` with the record replaced by its table.
pub open spec fn table_of(r: Result<MasterBootRecord, Error>) -> Result<Seq<PartitionEntry>, Error> {
    match r {
        Ok(mbr) => Ok(mbr.partitions@),
        Err(e) => Err(e),
    }
}

/// The starting sector of the first FAT32 partition in `table`, if it has one.
pub open spec fn spec_fat_partition_offset(table: Seq<PartitionEntry>) -> Option<u32> {
    if exists|i: int| 0 <= i < table.len() && is_fat32_type(#[trigger] table[i].partition_type) {
        let i = choose|i: int|
            0 <= i < table.len() && is_fat32_type(#[trigger] table[i].partition_type) && forall|j: int|
                0 <= j < i ==> !is_fat32_type(#[trigger] table[j].partition_type);
        Some(table[i].relative_sector)
    } else {
        None
    }
}

impl PartitionEntry {
    /// An entry that describes no partition: every field is zero.
    pub fn new() -> (entry: PartitionEntry)
        ensures
            entry == entry_of(Seq::new(16, |i: int| 0u8)),
            !entry.bootable,
            entry.partition_type == 0,
            entry.relative_sector == 0,
            entry.total_sectors == 0,
    {
        PartitionEntry {
            bootable: false,
            first_chs: CHS { head: 0, sector: 0, cylinder: 0 },
            partition_type: 0,
            last_chs: CHS { head: 0, sector: 0, cylinder: 0 },
            relative_sector: 0,
            total_sectors: 0,
        }
    }

    /// Decodes the 16-byte table entry at the start of `buf` into `self`.
    /// Fails, and leaves `self` as it was, when the boot indicator is neither
    /// `0x00` nor `0x80`.
    pub fn read_data(&mut self, buf: &[u8]) -> (r: Result<(), ()>)
        requires
            buf.len() >= 16,
        ensures
            r is Ok <==> boot_indicator_ok(buf@[0]),
            r is Ok ==> *final(self) == entry_of(buf@),
            r is Err ==> *final(self) == *old(self),
    {
        let bootable = match buf[0] {
            0 => false,
            0x80 => true,
            _ => {
                return Err(());
            },
        };
        self.bootable = bootable;
        self.first_chs = CHS { head: buf[1], sector: buf[2], cylinder: buf[3] };
        self.partition_type = buf[4];
        self.last_chs = CHS { head: buf[5], sector: buf[6], cylinder: buf[7] };
        self.relative_sector = le_u32(buf, 8);
        self.total_sectors = le_u32(buf, 12);
        Ok(())
    }
}

impl MasterBootRecord {
    /// Decodes a master boot record from the first sector of a disk.
    ///
    /// Returns `BadSignature` if the sector does not end in `0x55, 0xAA`, and
    /// `UnknownBootIndicator(n)` if entry `n` is the first whose boot
    /// indicator is neither `0x00` nor `0x80`.
    pub fn parse(sector: &[u8; 512]) -> (r: Result<MasterBootRecord, Error>)
        ensures
            table_of(r) == spec_parse(sector@),
            !signature_ok(sector@) ==> r == Err::<MasterBootRecord, Error>(Error::BadSignature),
            r is Ok <==> signature_ok(sector@) && indicators_ok(sector@, 4),
    {
        if sector[510] != 0x55 || sector[511] != 0xAA {
            return Err(Error::BadSignature);
        }
        let mut partitions = [PartitionEntry::new();4];
        let mut i: usize = 0;
        while i < 4
            invariant
                i <= 4,
                signature_ok(sector@),
                indicators_ok(sector@, i as int),
                forall|j: int| 0 <= j < i ==> partitions@[j] == entry_of(entry_bytes(sector@, j)),
            decreases 4 - i,
        {
            let start = TABLE_OFFSET + i * ENTRY_SIZE;
            let raw_entry = &sector.as_slice()[start..start + ENTRY_SIZE];
            assert(raw_entry@ == entry_bytes(sector@, i as int));
            let mut entry = PartitionEntry::new();
            if entry.read_data(raw_entry).is_err() {
                proof {
                    lemma_first_unknown_indicator(sector@, i as int);
                }
                return Err(Error::UnknownBootIndicator(i as u8));
            }
            partitions[i] = entry;
            i += 1;
        }
        assert(partitions@ =~= Seq::new(4, |i: int| entry_of(entry_bytes(sector@, i))));
        Ok(MasterBootRecord { partitions })
    }

    /// What the result `read` of reading the first sector of a disk leads to:
    /// `Io(err)` if the read failed with `err`, and what `parse` returns for
    /// the sector if it did not.
    pub fn of_read(read: Result<[u8; 512], IoError>) -> (r: Result<MasterBootRecord, Error>)
        ensures
            match read {
                Err(e) => r == Err::<MasterBootRecord, Error>(Error::Io(e)),
                Ok(sector) => table_of(r) == spec_parse(sector@),
            },
    {
        match read {
            Err(io_err) => Err(Error::Io(io_err)),
            Ok(raw_mbr) => MasterBootRecord::parse(&raw_mbr),
        }
    }

    /// Reads and returns the master boot record (MBR) from `device`.
    ///
    /// Reads exactly sector 0, once, and returns what `of_read` returns for
    /// the result of that read: `Io(err)` if the device failed with `err`,
    /// and what `parse` returns for the sector otherwise.
    pub fn from<T: BlockDevice>(device: &mut T) -> (r: Result<MasterBootRecord, Error>)
        ensures
            final(device).contents() == old(device).contents(),
            final(device).reliable() == old(device).reliable(),
            table_of(r) == spec_read(old(device).contents()) || (!old(device).reliable()
                && r matches Err(Error::Io(_))),
    {
        let read = device.read_sector(0);
        MasterBootRecord::of_read(read)
    }

    /// Return the offset in physical sectors of the first FAT partition if
    /// one exists: the starting sector of the first entry, in table order,
    /// whose type is `0x0B` or `0x0C`.
    pub fn get_fat_partition_offset(&self) -> (r: Option<u32>)
        ensures
            r == spec_fat_partition_offset(self.partitions@),
            match r {
                Some(offset) => exists|i: int|
                    0 <= i < 4 && is_fat32_type(#[trigger] self.partitions@[i].partition_type)
                        && self.partitions@[i].relative_sector == offset && forall|j: int|
                        0 <= j < i ==> !is_fat32_type(#[trigger] self.partitions@[j].partition_type),
                None => forall|i: int|
                    0 <= i < 4 ==> !is_fat32_type(#[trigger] self.partitions@[i].partition_type),
            },
    {
        let mut i: usize = 0;
        while i < 4
            invariant
                i <= 4,
                forall|j: int| 0 <= j < i ==> !is_fat32_type(#[trigger] self.partitions@[j].partition_type),
            decreases 4 - i,
        {
            let partition = &self.partitions[i];
            if partition.partition_type == 0x0b || partition.partition_type == 0x0c {
                proof {
                    lemma_first_fat_partition(self.partitions@, i as int);
                }
                return Some(partition.relative_sector);
            }
            i += 1;
        }
        None
    }
}

/// If entry `i` of the table in `sector` has an unknown boot indicator and no
/// entry before it has one, `sector` decodes to `UnknownBootIndicator(i)`.
pub proof fn lemma_first_unknown_indicator(sector: Seq<u8>, i: int)
    requires
        signature_ok(sector),
        0 <= i < 4,
        !boot_indicator_ok(entry_bytes(sector, i)[0]),
        indicators_ok(sector, i),
    ensures
        spec_parse(sector) == Err::<Seq<PartitionEntry>, Error>(Error::UnknownBootIndicator(i as u8)),
{
    let k = choose|k: int|
        0 <= k < 4 && !boot_indicator_ok(#[trigger] entry_bytes(sector, k)[0]) && indicators_ok(
            sector,
            k,
        );
    assert(k == i) by {
        if k < i {
            assert(boot_indicator_ok(entry_bytes(sector, k)[0]));
        } else if i < k {
            assert(boot_indicator_ok(entry_bytes(sector, i)[0]));
        }
    }
}

/// If entry `i` of `table` is a FAT32 partition and no entry before it is
/// one, the table's FAT partition offset is the starting sector of entry `i`.
pub proof fn lemma_first_fat_partition(table: Seq<PartitionEntry>, i: int)
    requires
        0 <= i < table.len(),
        is_fat32_type(table[i].partition_type),
        forall|j: int| 0 <= j < i ==> !is_fat32_type(#[trigger] table[j].partition_type),
    ensures
        spec_fat_partition_offset(table) == Some(table[i].relative_sector),
{
    let k = choose|k: int|
        0 <= k < table.len() && is_fat32_type(#[trigger] table[k].partition_type) && forall|j: int|
            0 <= j < k ==> !is_fat32_type(#[trigger] table[j].partition_type);
    assert(k == i) by {
        if k < i {
            assert(!is_fat32_type(table[k].partition_type));
        } else if i < k {
            assert(!is_fat32_type(table[i].partition_type));
        }
    }
}

/// A sector with the signature and four defined boot indicators decodes to a
/// master boot record; the same sector with either signature byte replaced by
/// any other value decodes to `BadSignature`.
pub proof fn lemma_signature_decides(sector: Seq<u8>, at: int, byte: u8)
    requires
        sector.len() == 512,
        signature_ok(sector),
        indicators_ok(sector, 4),
        at == 510 || at == 511,
        byte != sector[at],
    ensures
        spec_parse(sector) is Ok,
        spec_parse(sector.update(at, byte)) == Err::<Seq<PartitionEntry>, Error>(Error::BadSignature),
{
}

} // verus!
