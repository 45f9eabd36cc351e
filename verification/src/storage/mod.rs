//! Block devices and the FAT16 file system that is read from them.

use vstd::prelude::*;

pub mod fat16;
pub mod partition;

verus! {

/// The size of a block in bytes.
pub const BLOCK_SIZE: usize = 512;

/// One block of a device.
pub struct Block {
    pub contents: [u8; 512],
}

impl View for Block {
    type V = Seq<u8>;

    open spec fn view(&self) -> Seq<u8> {
        self.contents@
    }
}

impl Block {
    /// A block of zeros.
    pub fn default() -> (block: Block)
        ensures
            block@.len() == BLOCK_SIZE,
            forall|i: int| 0 <= i < BLOCK_SIZE ==> block@[i] == 0,
    {
        Block { contents: [0u8; 512] }
    }
}

/// Why a file name is not a short file name.
#[derive(Clone, Copy, Debug, PartialEq, Eq, Structural)]
pub enum FilenameError {
    InvalidCharacter,
    FilenameEmpty,
    NameTooLong,
    MisalignedFileName,
    UnableToParse,
}

/// Why an operation on a device or a file system failed.
#[derive(Clone, Copy, Debug, PartialEq, Eq, Structural)]
pub enum FsError {
    FileNotFound,
    InvalidOperation,
    AlreadyOpen,
    EndOfFile,
    NotADirectory,
    NotAFile,
    ReadOnly,
    WriteZero,
    BadCluster,
    FileNameError(FilenameError),
    InvalidOffset,
    InvalidDataLength,
    DeviceError,
}

/// A moment in time: the seconds since the start of 1970 in UTC.
#[derive(Clone, Copy, Debug, PartialEq, Eq, Structural)]
pub struct FsTime {
    pub secs: i64,
}

/// Whether an entry of a directory is a file or a directory.
#[derive(Clone, Copy, Debug, PartialEq, Eq, Structural)]
pub enum FileType {
    File,
    Directory,
}

/// What a file system tells of a file or a directory.
pub struct Metadata {
    pub entry_type: FileType,
    pub name: String,
    pub len: usize,
    pub created: Option<FsTime>,
    pub modified: Option<FsTime>,
    pub accessed: Option<FsTime>,
}

impl Metadata {
    /// What a file system tells of its root directory.
    pub fn root() -> (meta: Metadata)
        ensures
            meta.entry_type == FileType::Directory,
            meta.name@ == "/"@,
            meta.len == 0,
            meta.created is None,
            meta.modified is None,
            meta.accessed is None,
    {
        Metadata {
            entry_type: FileType::Directory,
            name: "/".to_owned(),
            len: 0,
            created: None,
            modified: None,
            accessed: None,
        }
    }

    pub fn is_dir(&self) -> (dir: bool)
        ensures
            dir == (self.entry_type == FileType::Directory),
    {
        self.entry_type == FileType::Directory
    }
}

/// A device that is read and written in blocks of 512 bytes.
///
/// `blocks` says what the device holds. A read that succeeds hands out
/// the block at the offset, and a write that succeeds puts the block
/// there. Either may fail at any offset, unless the device is reliable:
/// then it fails behind the last block only. A device keeps its number of
/// blocks; of what it holds after a write that failed nothing is known.
pub trait BlockDevice {
    /// What the device holds, block by block.
    spec fn blocks(&self) -> Seq<Seq<u8>>;

    /// Whether the device never fails to count its blocks or to read one
    /// of them. A device that can fail, as one of hardware can, is not
    /// reliable.
    spec fn reliable(&self) -> bool;

    /// The number of blocks of the device.
    fn block_count(&self) -> (count: Result<usize, FsError>)
        ensures
            count matches Ok(n) ==> n == self.blocks().len(),
            self.reliable() ==> count is Ok,
    ;

    /// Reads the block at `offset` into `block`.
    fn read_block(&self, offset: usize, block: &mut Block) -> (res: Result<(), FsError>)
        ensures
            res is Ok ==> offset < self.blocks().len(),
            res is Ok ==> final(block)@ == self.blocks()[offset as int],
            self.reliable() && offset < self.blocks().len() ==> res is Ok,
    ;

    /// Writes `block` to the block at `offset`.
    fn write_block(&mut self, offset: usize, block: &Block) -> (res: Result<(), FsError>)
        ensures
            final(self).blocks().len() == old(self).blocks().len(),
            final(self).reliable() == old(self).reliable(),
            res is Ok ==> offset < old(self).blocks().len(),
            res is Ok ==> final(self).blocks() == old(self).blocks().update(offset as int, block@),
            old(self).reliable() && offset < old(self).blocks().len() ==> res is Ok,
    ;
}

/// A block device in memory.
pub struct RamDisk {
    pub data: Vec<Block>,
}

impl RamDisk {
    /// A device that holds `data`.
    pub fn new(data: Vec<Block>) -> (disk: RamDisk)
        ensures
            disk.data == data,
    {
        RamDisk { data }
    }
}

impl BlockDevice for RamDisk {
    open spec fn blocks(&self) -> Seq<Seq<u8>> {
        Seq::new(self.data@.len(), |i: int| self.data@[i]@)
    }

    /// A device in memory reads every block that it holds.
    open spec fn reliable(&self) -> bool {
        true
    }

    /// The number of blocks that the device holds.
    fn block_count(&self) -> (count: Result<usize, FsError>)
        ensures
            count == Ok::<usize, FsError>(self.data@.len() as usize),
    {
        Ok(self.data.len())
    }

    /// Copies the block at `offset` into `block`; an offset behind the
    /// last block is an error, and leaves `block` as it was.
    fn read_block(&self, offset: usize, block: &mut Block) -> (res: Result<(), FsError>)
        ensures
            offset < self.data@.len() ==> res is Ok && *final(block) == self.data@[offset as int],
            offset >= self.data@.len() ==> res == Err::<(), FsError>(FsError::InvalidOffset)
                && *final(block) == *old(block),
    {
        if offset >= self.data.len() {
            return Err(FsError::InvalidOffset);
        }
        block.contents = self.data[offset].contents;
        Ok(())
    }

    /// Copies `block` to the block at `offset`; an offset behind the last
    /// block is an error, and leaves the device as it was.
    fn write_block(&mut self, offset: usize, block: &Block) -> (res: Result<(), FsError>)
        ensures
            offset < old(self).data@.len() ==> res is Ok && final(self).data@ == old(self).data@.update(offset as int, *block),
            offset >= old(self).data@.len() ==> res == Err::<(), FsError>(FsError::InvalidOffset)
                && *final(self) == *old(self),
    {
        if offset >= self.data.len() {
            return Err(FsError::InvalidOffset);
        }
        self.data.set(offset, Block { contents: block.contents });
        proof {
            assert(self.blocks() =~= old(self).blocks().update(offset as int, block@));
        }
        Ok(())
    }
}

} // verus!
