//! The FAT16 file system.

use vstd::prelude::*;
use crate::storage::{BlockDevice, FsError};
use direntry::{Cluster, DirEntry};

pub mod direntry;
pub mod file;
pub mod fs;
pub mod impls;

verus! {

/// The number whose bytes are `b0` and `b1`, the lower first.
pub open spec fn spec_le_u16(b0: u8, b1: u8) -> u16 {
    (b0 + b1 * 0x100) as u16
}

/// The number whose bytes are `b0` and `b1`, the lower first.
pub fn le_u16(b0: u8, b1: u8) -> (n: u16)
    ensures
        n == spec_le_u16(b0, b1),
{
    let n: u16 = (b0 as u16) | ((b1 as u16) << 8);
    assert(((b0 as u16) | ((b1 as u16) << 8)) == (b0 + b1 * 0x100) as u16) by (bit_vector);
    n
}

/// The signature at the end of a boot sector.
pub const BOOT_SIGNATURE: u16 = 0xAA55;

/// What the boot sector of a FAT16 volume tells of its layout.
#[derive(Clone, Copy, Debug, PartialEq, Eq, Structural)]
pub struct Fat16Bpb {
    pub bytes_per_sector: u16,
    pub sectors_per_cluster: u8,
    pub reserved_sector_count: u16,
    pub fat_count: u8,
    pub root_entries_count: u16,
    pub sectors_per_fat: u16,
}

impl Fat16Bpb {
    /// What the boot sector `data` tells of the layout of its volume.
    pub open spec fn spec_new(data: Seq<u8>) -> Fat16Bpb {
        Fat16Bpb {
            bytes_per_sector: spec_le_u16(data[11], data[12]),
            sectors_per_cluster: data[13],
            reserved_sector_count: spec_le_u16(data[14], data[15]),
            fat_count: data[16],
            root_entries_count: spec_le_u16(data[17], data[18]),
            sectors_per_fat: spec_le_u16(data[22], data[23]),
        }
    }

    /// Whether `data` is a boot sector: 512 bytes that end in the
    /// signature.
    pub open spec fn spec_is_boot_sector(data: Seq<u8>) -> bool {
        data.len() == 512 && spec_le_u16(data[510], data[511]) == BOOT_SIGNATURE
    }

    /// Reads the layout of a volume from its boot sector.
    ///
    /// The sector has 512 bytes and ends in the signature `0xAA55`; else
    /// the result is an error. Bytes 11 and 12 give the bytes in a
    /// sector, byte 13 the sectors in a cluster, bytes 14 and 15 the
    /// reserved sectors, byte 16 the number of file allocation tables,
    /// bytes 17 and 18 the entries of the root directory, and bytes 22 and
    /// 23 the sectors of one table.
    pub fn new(data: &[u8]) -> (bpb: Result<Fat16Bpb, FsError>)
        ensures
            data@.len() != 512 ==> bpb == Err::<Fat16Bpb, FsError>(FsError::InvalidDataLength),
            data@.len() == 512 && !Self::spec_is_boot_sector(data@) ==> bpb == Err::<
                Fat16Bpb,
                FsError,
            >(FsError::InvalidOperation),
            Self::spec_is_boot_sector(data@) ==> bpb == Ok::<Fat16Bpb, FsError>(
                Self::spec_new(data@),
            ),
    {
        if data.len() != 512 {
            return Err(FsError::InvalidDataLength);
        }
        if le_u16(data[510], data[511]) != BOOT_SIGNATURE {
            return Err(FsError::InvalidOperation);
        }
        Ok(
            Fat16Bpb {
                bytes_per_sector: le_u16(data[11], data[12]),
                sectors_per_cluster: data[13],
                reserved_sector_count: le_u16(data[14], data[15]),
                fat_count: data[16],
                root_entries_count: le_u16(data[17], data[18]),
                sectors_per_fat: le_u16(data[22], data[23]),
            },
        )
    }

    pub fn bytes_per_sector(&self) -> (n: u16)
        ensures
            n == self.bytes_per_sector,
    {
        self.bytes_per_sector
    }

    pub fn sectors_per_cluster(&self) -> (n: u8)
        ensures
            n == self.sectors_per_cluster,
    {
        self.sectors_per_cluster
    }

    pub fn reserved_sector_count(&self) -> (n: u16)
        ensures
            n == self.reserved_sector_count,
    {
        self.reserved_sector_count
    }

    pub fn fat_count(&self) -> (n: u8)
        ensures
            n == self.fat_count,
    {
        self.fat_count
    }

    pub fn root_entries_count(&self) -> (n: u16)
        ensures
            n == self.root_entries_count,
    {
        self.root_entries_count
    }

    pub fn sectors_per_fat(&self) -> (n: u16)
        ensures
            n == self.sectors_per_fat,
    {
        self.sectors_per_fat
    }
}

/// A directory: the cluster in which it starts, and its own entry in the
/// directory above it. The root directory has no entry.
#[derive(Clone, Copy, Debug)]
pub struct Directory {
    pub cluster: Cluster,
    pub entry: Option<DirEntry>,
}

impl Directory {
    /// The directory that starts in `cluster`, without an entry.
    pub fn new(cluster: Cluster) -> (dir: Directory)
        ensures
            dir.cluster == cluster,
            dir.entry is None,
    {
        Directory { cluster, entry: None }
    }

    /// The directory that `entry` names.
    pub fn from_entry(entry: DirEntry) -> (dir: Directory)
        ensures
            dir.cluster == entry.cluster,
            dir.entry == Some(entry),
    {
        Directory { cluster: entry.cluster, entry: Some(entry) }
    }
}

/// A FAT16 volume on a block device.
pub struct Fat16Impl<T: BlockDevice> {
    pub inner: T,
    pub bpb: Fat16Bpb,
    /// The sector in which the first file allocation table starts.
    pub fat_start: usize,
    /// The sector in which the cluster 2 starts.
    pub first_data_sector: usize,
    /// The sector in which the root directory starts.
    pub first_root_dir_sector: usize,
}

} // verus!
