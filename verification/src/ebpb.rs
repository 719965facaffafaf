//! The FAT32 extended BIOS parameter block: the geometry of a volume, stored
//! in the first sector of its partition.

use vstd::prelude::*;
use vstd::array::array_fill_for_copy_types;
use crate::device::{has_sector, sector_of, BlockDevice, IoError};
use crate::error::Error;
use crate::util::{le_u16, le_u32, le_u64, spec_le_u16, spec_le_u32, spec_le_u64};

verus! {

/// The extended BIOS parameter block, field by field in the order and width
/// in which the sector stores them. Integers are little-endian.
#[derive(Clone, Copy, Debug)]
pub struct BiosParameterBlock {
    pub jmp: [u8; 3],
    pub oem_id: u64,
    pub bytes_per_sector: u16,
    pub sectors_per_cluster: u8,
    pub num_reserved: u16,
    pub num_fat: u8,
    pub max_dirs: u16,
    /// if this is 0, use value in total_sectors_hi
    pub total_sectors_lo: u16,
    pub fat_id: u8,
    /// 0 for FAT32, use sectors_per_fat32 instead
    pub sectors_per_fat: u16,
    pub sectors_per_track: u16,
    pub heads: u16,
    pub hidden_sectors: u32,
    pub total_sectors_hi: u32,
    pub sectors_per_fat32: u32,
    pub flags: u16,
    pub fat_version: u16,
    /// cluster number of the root directory, often 2
    pub root: u32,
    /// sector number of the FSInfo structure
    pub fsinfo: u16,
    pub backup_boot: u16,
    pub __reserved: [u8; 12],
    pub drive_number: u8,
    pub windows_flags: u8,
    pub signature: u8,
    pub volume_id: u32,
    pub volume_label: [u8; 11],
    pub system_id: u64,
    pub boot_code: [u8; 420],
    pub bootable_signature: u16,
}

/// Whether `sector` ends in the signature `0xAA55`, stored little-endian.
pub open spec fn signature_ok(sector: Seq<u8>) -> bool {
    spec_le_u16(sector, 510) == 0xAA55
}

impl BiosParameterBlock {
    /// Whether every field of `self` holds what the 512 bytes of `sector`
    /// store at the field's offset.
    pub open spec fn decodes(&self, sector: Seq<u8>) -> bool {
        &&& self.jmp@ == sector.subrange(0, 3)
        &&& self.oem_id == spec_le_u64(sector, 3)
        &&& self.bytes_per_sector == spec_le_u16(sector, 11)
        &&& self.sectors_per_cluster == sector[13]
        &&& self.num_reserved == spec_le_u16(sector, 14)
        &&& self.num_fat == sector[16]
        &&& self.max_dirs == spec_le_u16(sector, 17)
        &&& self.total_sectors_lo == spec_le_u16(sector, 19)
        &&& self.fat_id == sector[21]
        &&& self.sectors_per_fat == spec_le_u16(sector, 22)
        &&& self.sectors_per_track == spec_le_u16(sector, 24)
        &&& self.heads == spec_le_u16(sector, 26)
        &&& self.hidden_sectors == spec_le_u32(sector, 28)
        &&& self.total_sectors_hi == spec_le_u32(sector, 32)
        &&& self.sectors_per_fat32 == spec_le_u32(sector, 36)
        &&& self.flags == spec_le_u16(sector, 40)
        &&& self.fat_version == spec_le_u16(sector, 42)
        &&& self.root == spec_le_u32(sector, 44)
        &&& self.fsinfo == spec_le_u16(sector, 48)
        &&& self.backup_boot == spec_le_u16(sector, 50)
        &&& self.__reserved@ == sector.subrange(52, 64)
        &&& self.drive_number == sector[64]
        &&& self.windows_flags == sector[65]
        &&& self.signature == sector[66]
        &&& self.volume_id == spec_le_u32(sector, 67)
        &&& self.volume_label@ == sector.subrange(71, 82)
        &&& self.system_id == spec_le_u64(sector, 82)
        &&& self.boot_code@ == sector.subrange(90, 510)
        &&& self.bootable_signature == spec_le_u16(sector, 510)
    }

    /// Whether `r` is what reading the parameter block at sector `n` of a
    /// medium holding `contents` gives when the device does not fail.
    pub open spec fn read_gives(
        contents: Seq<u8>,
        n: int,
        r: Result<BiosParameterBlock, Error>,
    ) -> bool {
        match r {
            Ok(block) => has_sector(contents, n) && signature_ok(sector_of(contents, n))
                && block.decodes(sector_of(contents, n)),
            Err(e) => if !has_sector(contents, n) {
                e == Error::Io(IoError::InvalidInput)
            } else {
                e == Error::BadSignature && !signature_ok(sector_of(contents, n))
            },
        }
    }

    /// Decodes the parameter block that the first sector of a partition
    /// stores. Fails with `BadSignature` if, and only if, the sector does not
    /// end in the signature `0xAA55`.
    pub fn parse(sector: &[u8; 512]) -> (r: Result<BiosParameterBlock, Error>)
        ensures
            match r {
                Ok(block) => signature_ok(sector@) && block.decodes(sector@),
                Err(e) => e == Error::BadSignature && !signature_ok(sector@),
            },
    {
        let raw = sector.as_slice();
        let bootable_signature = le_u16(raw, 510);
        if bootable_signature != 0xAA55 {
            return Err(Error::BadSignature);
        }
        let jmp: [u8; 3] = copy_bytes(raw, 0);
        let reserved: [u8; 12] = copy_bytes(raw, 52);
        let volume_label: [u8; 11] = copy_bytes(raw, 71);
        let boot_code: [u8; 420] = copy_bytes(raw, 90);
        Ok(
            BiosParameterBlock {
                jmp,
                oem_id: le_u64(raw, 3),
                bytes_per_sector: le_u16(raw, 11),
                sectors_per_cluster: raw[13],
                num_reserved: le_u16(raw, 14),
                num_fat: raw[16],
                max_dirs: le_u16(raw, 17),
                total_sectors_lo: le_u16(raw, 19),
                fat_id: raw[21],
                sectors_per_fat: le_u16(raw, 22),
                sectors_per_track: le_u16(raw, 24),
                heads: le_u16(raw, 26),
                hidden_sectors: le_u32(raw, 28),
                total_sectors_hi: le_u32(raw, 32),
                sectors_per_fat32: le_u32(raw, 36),
                flags: le_u16(raw, 40),
                fat_version: le_u16(raw, 42),
                root: le_u32(raw, 44),
                fsinfo: le_u16(raw, 48),
                backup_boot: le_u16(raw, 50),
                __reserved: reserved,
                drive_number: raw[64],
                windows_flags: raw[65],
                signature: raw[66],
                volume_id: le_u32(raw, 67),
                volume_label,
                system_id: le_u64(raw, 82),
                boot_code,
                bootable_signature,
            },
        )
    }

    /// What the result `read` of reading the first sector of a partition
    /// leads to: `Io(err)` if the read failed with `err`, and what `parse`
    /// returns for the sector if it did not.
    pub fn of_read(read: Result<[u8; 512], IoError>) -> (r: Result<BiosParameterBlock, Error>)
        ensures
            match read {
                Err(e) => r matches Err(failure) && failure == Error::Io(e),
                Ok(sector) => match r {
                    Ok(block) => signature_ok(sector@) && block.decodes(sector@),
                    Err(failure) => failure == Error::BadSignature && !signature_ok(sector@),
                },
            },
    {
        match read {
            Err(io_err) => Err(Error::Io(io_err)),
            Ok(raw_bios_block) => BiosParameterBlock::parse(&raw_bios_block),
        }
    }

    /// Reads the FAT32 extended BIOS parameter block from sector `sector` of
    /// device `device`.
    ///
    /// Reads exactly that sector, once, and returns what `of_read` returns
    /// for the result of that read: `Io(err)` if the device failed with
    /// `err`, and `BadSignature` if the signature of the block is invalid.
    pub fn from<T: BlockDevice>(device: &mut T, sector: u64) -> (r: Result<
        BiosParameterBlock,
        Error,
    >)
        ensures
            final(device).contents() == old(device).contents(),
            final(device).reliable() == old(device).reliable(),
            Self::read_gives(old(device).contents(), sector as int, r) || (!old(device).reliable()
                && r matches Err(Error::Io(_))),
    {
        let read = device.read_sector(sector);
        BiosParameterBlock::of_read(read)
    }

    /// Number of sectors of the volume: the 16-bit count where it is not
    /// zero, the 32-bit count otherwise.
    pub open spec fn spec_total_sectors(&self) -> u32 {
        if self.total_sectors_lo != 0 {
            self.total_sectors_lo as u32
        } else {
            self.total_sectors_hi
        }
    }

    /// Number of sectors of the volume.
    pub fn total_sectors(&self) -> (n: u32)
        ensures
            n == self.spec_total_sectors(),
    {
        if self.total_sectors_lo != 0 {
            self.total_sectors_lo as u32
        } else {
            self.total_sectors_hi
        }
    }
}

/// Copies the `N` bytes of `src` that start at `at` into an array.
pub fn copy_bytes<const N: usize>(src: &[u8], at: usize) -> (out: [u8; N])
    requires
        at + N <= src.len(),
    ensures
        out@ == src@.subrange(at as int, at + N),
{
    let mut out: [u8; N] = array_fill_for_copy_types(0u8);
    let mut i: usize = 0;
    while i < N
        invariant
            i <= N,
            at + N <= src.len(),
            forall|j: int| 0 <= j < i ==> out@[j] == src@[at + j],
        decreases N - i,
    {
        out[i] = src[at + i];
        i += 1;
    }
    assert(out@ =~= src@.subrange(at as int, at + N));
    out
}

} // verus!
