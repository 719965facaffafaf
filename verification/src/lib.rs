//! A read-only FAT32 file system engine over a raw block device, with the
//! parts of a small kernel that are built on it.
//!
//! The engine finds the first FAT32 partition of a disk through the master
//! boot record (`mbr`), reads the volume geometry from the extended BIOS
//! parameter block (`ebpb`), reads sectors through a one-slot cache
//! (`cache`), follows cluster chains through the file allocation table
//! (`fat`, `vfat`), decodes directory records (`dir`, `name`, `metadata`),
//! and offers files and directories for reading (`file`).
//!
//! Every function of the engine states what it returns as a function of the
//! bytes on the medium, and is proved to do so.
//!
//! On top of the engine stand the file system that a kernel mounts once
//! (`fs`) and a command shell over it (`shell`, `console`). Beside it stand
//! the meaning of the status codes of an SD card controller (`sd`), a bin
//! allocator over a region of addresses (`allocator`), and two small
//! utilities (`builder`, `duration`).

pub mod util;
pub mod text;
pub mod device;
pub mod mbr;
pub mod error;
pub mod ebpb;
pub mod cache;
pub mod fat;
pub mod metadata;
pub mod name;
pub mod dir;
pub mod path;
pub mod vfat;
pub mod file;
pub mod fs;
pub mod sd;
pub mod shell;
pub mod console;
pub mod allocator;
pub mod builder;
pub mod duration;
