use fat32::device::{BlockDevice, IoError, RamDisk};
use fat32::error::Error as FsError;
use fat32::mbr::{Error, MasterBootRecord, PartitionEntry, CHS};

fn blank_mbr() -> Vec<u8> {
    let mut sector = vec![0u8; 512];
    sector[510] = 0x55;
    sector[511] = 0xAA;
    sector
}

fn put_entry(sector: &mut Vec<u8>, index: usize, boot: u8, kind: u8, start: u32, count: u32) {
    let at = 446 + 16 * index;
    sector[at] = boot;
    sector[at + 1] = 0x01;
    sector[at + 2] = 0x02;
    sector[at + 3] = 0x03;
    sector[at + 4] = kind;
    sector[at + 5] = 0xFE;
    sector[at + 6] = 0xFF;
    sector[at + 7] = 0xFD;
    sector[at + 8..at + 12].copy_from_slice(&start.to_le_bytes());
    sector[at + 12..at + 16].copy_from_slice(&count.to_le_bytes());
}

fn as_sector(bytes: &[u8]) -> [u8; 512] {
    let mut sector = [0u8; 512];
    sector.copy_from_slice(&bytes[..512]);
    sector
}

struct Flaky;

impl BlockDevice for Flaky {
    fn read_sector(&mut self, _n: u64) -> Result<[u8; 512], IoError> {
        Err(IoError::TimedOut)
    }

    fn write_sector(&mut self, _n: u64, _buf: &[u8]) -> Result<usize, IoError> {
        Err(IoError::Unsupported)
    }
}

#[test]
fn new_entry_is_zero() {
    let entry = PartitionEntry::new();
    assert!(!entry.bootable);
    assert_eq!(entry.partition_type, 0);
    assert_eq!(entry.relative_sector, 0);
    assert_eq!(entry.total_sectors, 0);
    assert_eq!(entry.first_chs, CHS { head: 0, sector: 0, cylinder: 0 });
}

#[test]
fn blank_table_has_no_fat_partition() {
    let mut disk = RamDisk::new(blank_mbr());
    let mbr = MasterBootRecord::from(&mut disk).unwrap();
    assert_eq!(mbr.get_fat_partition_offset(), None);
}

#[test]
fn device_failure_is_reported() {
    let mut disk = Flaky;
    match MasterBootRecord::from(&mut disk) {
        Err(Error::Io(IoError::TimedOut)) => {}
        other => panic!("unexpected result: {:?}", other),
    }
}

#[test]
fn missing_first_sector_is_invalid_input() {
    let mut disk = RamDisk::new(vec![0u8; 511]);
    match MasterBootRecord::from(&mut disk) {
        Err(Error::Io(IoError::InvalidInput)) => {}
        other => panic!("unexpected result: {:?}", other),
    }
}

#[test]
fn valid_sector_parses() {
    let mut sector = blank_mbr();
    put_entry(&mut sector, 0, 0x80, 0x83, 2048, 4096);
    put_entry(&mut sector, 1, 0x00, 0x0C, 0x0102_0304, 0xA0B0_C0D0);
    let mbr = MasterBootRecord::parse(&as_sector(&sector)).unwrap();
    assert!(mbr.partitions[0].bootable);
    assert_eq!(mbr.partitions[0].partition_type, 0x83);
    assert_eq!(mbr.partitions[0].relative_sector, 2048);
    assert_eq!(mbr.partitions[0].total_sectors, 4096);
    assert_eq!(mbr.partitions[0].first_chs, CHS { head: 1, sector: 2, cylinder: 3 });
    assert_eq!(mbr.partitions[0].last_chs, CHS { head: 0xFE, sector: 0xFF, cylinder: 0xFD });
    assert!(!mbr.partitions[1].bootable);
    assert_eq!(mbr.partitions[1].partition_type, 0x0C);
    assert_eq!(mbr.partitions[1].relative_sector, 0x0102_0304);
    assert_eq!(mbr.partitions[1].total_sectors, 0xA0B0_C0D0);
    assert_eq!(mbr.partitions[2], PartitionEntry::new());
    assert_eq!(mbr.partitions[3], PartitionEntry::new());
}

#[test]
fn flipped_signature_byte_is_bad_signature() {
    for at in [510usize, 511] {
        for bit in 0..8 {
            let mut sector = blank_mbr();
            put_entry(&mut sector, 0, 0x80, 0x0B, 1, 100);
            sector[at] ^= 1 << bit;
            match MasterBootRecord::parse(&as_sector(&sector)) {
                Err(Error::BadSignature) => {}
                other => panic!("unexpected result: {:?}", other),
            }
        }
    }
}

#[test]
fn bad_signature_comes_before_boot_indicator() {
    let mut sector = vec![0u8; 512];
    put_entry(&mut sector, 0, 0x7F, 0x0B, 1, 100);
    match MasterBootRecord::parse(&as_sector(&sector)) {
        Err(Error::BadSignature) => {}
        other => panic!("unexpected result: {:?}", other),
    }
}

#[test]
fn unknown_boot_indicator_names_its_entry() {
    for index in 0..4usize {
        let mut sector = blank_mbr();
        put_entry(&mut sector, index, 0x01, 0x0B, 1, 100);
        match MasterBootRecord::parse(&as_sector(&sector)) {
            Err(Error::UnknownBootIndicator(n)) => assert_eq!(n as usize, index),
            other => panic!("unexpected result: {:?}", other),
        }
    }
}

#[test]
fn first_unknown_boot_indicator_is_reported() {
    let mut sector = blank_mbr();
    put_entry(&mut sector, 0, 0x80, 0x0B, 1, 100);
    put_entry(&mut sector, 2, 0xFF, 0x0B, 1, 100);
    put_entry(&mut sector, 3, 0x81, 0x0B, 1, 100);
    match MasterBootRecord::parse(&as_sector(&sector)) {
        Err(Error::UnknownBootIndicator(2)) => {}
        other => panic!("unexpected result: {:?}", other),
    }
}

#[test]
fn first_fat_partition_in_table_order() {
    let mut sector = blank_mbr();
    put_entry(&mut sector, 0, 0x00, 0x83, 10, 10);
    put_entry(&mut sector, 1, 0x00, 0x0C, 20, 10);
    put_entry(&mut sector, 2, 0x00, 0x0B, 30, 10);
    let mbr = MasterBootRecord::parse(&as_sector(&sector)).unwrap();
    assert_eq!(mbr.get_fat_partition_offset(), Some(20));
}

#[test]
fn partition_type_0b_is_fat() {
    let mut sector = blank_mbr();
    put_entry(&mut sector, 3, 0x80, 0x0B, 77, 10);
    let mbr = MasterBootRecord::parse(&as_sector(&sector)).unwrap();
    assert_eq!(mbr.get_fat_partition_offset(), Some(77));
}

#[test]
fn other_partition_types_are_not_fat() {
    let mut sector = blank_mbr();
    put_entry(&mut sector, 0, 0x00, 0x0A, 1, 10);
    put_entry(&mut sector, 1, 0x00, 0x0D, 2, 10);
    put_entry(&mut sector, 2, 0x00, 0x06, 3, 10);
    put_entry(&mut sector, 3, 0x00, 0x0E, 4, 10);
    let mbr = MasterBootRecord::parse(&as_sector(&sector)).unwrap();
    assert_eq!(mbr.get_fat_partition_offset(), None);
}

#[test]
fn read_data_decodes_an_entry() {
    let mut raw = [0u8; 16];
    raw[0] = 0x80;
    raw[4] = 0x0C;
    raw[8..12].copy_from_slice(&[0x78, 0x56, 0x34, 0x12]);
    raw[12..16].copy_from_slice(&[0x01, 0x00, 0x00, 0x80]);
    let mut entry = PartitionEntry::new();
    assert_eq!(entry.read_data(&raw), Ok(()));
    assert!(entry.bootable);
    assert_eq!(entry.partition_type, 0x0C);
    assert_eq!(entry.relative_sector, 0x1234_5678);
    assert_eq!(entry.total_sectors, 0x8000_0001);
}

#[test]
fn read_data_leaves_entry_on_error() {
    let mut raw = [0xEEu8; 16];
    raw[0] = 0x40;
    let mut entry = PartitionEntry::new();
    assert_eq!(entry.read_data(&raw), Err(()));
    assert_eq!(entry, PartitionEntry::new());
}

#[test]
fn ram_disk_refuses_to_write() {
    let mut disk = RamDisk::new(blank_mbr());
    assert_eq!(disk.write_sector(0, &[0u8; 512]), Err(IoError::Unsupported));
    assert_eq!(disk.sector_count(), 1);
    let sector = disk.read_sector(0).unwrap();
    assert_eq!(sector[510], 0x55);
    assert_eq!(sector[511], 0xAA);
    assert_eq!(disk.read_sector(1), Err(IoError::InvalidInput));
}

#[test]
fn mount_failures_take_over_the_kinds() {
    assert_eq!(FsError::from_mbr(Error::BadSignature), FsError::BadSignature);
    assert_eq!(FsError::from_mbr(Error::UnknownBootIndicator(3)), FsError::UnknownBootIndicator(3));
    assert_eq!(FsError::from_mbr(Error::Io(IoError::Other)), FsError::Io(IoError::Other));
    assert!(FsError::Io(IoError::TimedOut).is_io());
    assert!(!FsError::NotFound.is_io());
    assert!(!FsError::CorruptChain.is_io());
}

#[test]
fn failed_read_keeps_the_error_of_the_device() {
    for e in [IoError::TimedOut, IoError::InvalidInput, IoError::Other, IoError::Unsupported] {
        match MasterBootRecord::of_read(Err(e)) {
            Err(Error::Io(held)) => assert_eq!(held, e),
            other => panic!("unexpected result: {:?}", other),
        }
    }
}

#[test]
fn sector_that_was_read_is_parsed() {
    let mut sector = blank_mbr();
    put_entry(&mut sector, 2, 0x80, 0x0C, 9, 100);
    let mbr = MasterBootRecord::of_read(Ok(as_sector(&sector))).unwrap();
    assert_eq!(mbr.get_fat_partition_offset(), Some(9));
    sector[510] = 0;
    assert!(matches!(MasterBootRecord::of_read(Ok(as_sector(&sector))), Err(Error::BadSignature)));
}
