//! Partitions of a block device.

use vstd::prelude::*;
use crate::storage::fat16::direntry::{le_u32, spec_le_u32};
use crate::storage::fat16::{le_u16, spec_le_u16, BOOT_SIGNATURE};
use crate::storage::{Block, BlockDevice, FsError};

verus! {

/// A table of the partitions of a device.
pub trait PartitionTable<T: BlockDevice>: Sized {
    /// Reads the table from `inner`.
    fn parse(inner: T) -> Result<Self, FsError>;

    /// The partitions that the table names.
    fn partitions(&self) -> Result<Vec<Partition<T>>, FsError>;
}

/// A part of a device: `size` blocks from the block `offset` on.
pub struct Partition<T: BlockDevice> {
    pub inner: T,
    pub offset: usize,
    pub size: usize,
}

impl<T: BlockDevice> Partition<T> {
    /// The partition of `inner` that starts at the block `offset` and has
    /// `size` blocks.
    pub fn new(inner: T, offset: usize, size: usize) -> (partition: Partition<T>)
        ensures
            partition.inner == inner,
            partition.offset == offset,
            partition.size == size,
    {
        Partition { inner, offset, size }
    }
}

impl<T: BlockDevice> BlockDevice for Partition<T> {
    /// The blocks of the device from the start of the partition on;
    /// nothing in place of a block that the device does not hold.
    open spec fn blocks(&self) -> Seq<Seq<u8>> {
        Seq::new(
            self.size as nat,
            |i: int|
                if self.offset + i < self.inner.blocks().len() {
                    self.inner.blocks()[self.offset + i]
                } else {
                    Seq::empty()
                },
        )
    }

    /// A partition is reliable where its device is, and holds all of it
    /// within what can be counted.
    open spec fn reliable(&self) -> bool {
        self.inner.reliable() && self.offset + self.size <= self.inner.blocks().len()
            && self.offset + self.size <= usize::MAX
    }

    /// The number of blocks of the partition.
    fn block_count(&self) -> (count: Result<usize, FsError>)
        ensures
            count == Ok::<usize, FsError>(self.size),
    {
        Ok(self.size)
    }

    /// Reads the block at `offset` of the partition from the device: the
    /// block of the device that lies `offset` blocks behind the start of
    /// the partition. An offset behind the partition is an error, and so
    /// is one that the device cannot count to; both leave `block` as it
    /// was. An error of the device is handed on.
    fn read_block(&self, offset: usize, block: &mut Block) -> (res: Result<(), FsError>)
        ensures
            offset >= self.size || self.offset + offset > usize::MAX ==> res == Err::<(), FsError>(
                FsError::InvalidOffset,
            ) && *final(block) == *old(block),
            res is Ok ==> self.offset + offset < self.inner.blocks().len() && final(block)@
                == self.inner.blocks()[self.offset + offset],
    {
        if offset >= self.size {
            return Err(FsError::InvalidOffset);
        }
        let inner_offset: usize = match self.offset.checked_add(offset) {
            Some(sum) => sum,
            None => {
                return Err(FsError::InvalidOffset);
            },
        };
        self.inner.read_block(inner_offset, block)
    }

    /// Writes `block` to the block at `offset` of the partition: to the
    /// block of the device that lies `offset` blocks behind the start of
    /// the partition. An offset behind the partition is an error, and so
    /// is one that the device cannot count to; both leave the device as it
    /// was. An error of the device is handed on.
    fn write_block(&mut self, offset: usize, block: &Block) -> (res: Result<(), FsError>)
        ensures
            final(self).offset == old(self).offset,
            final(self).size == old(self).size,
            offset >= old(self).size || old(self).offset + offset > usize::MAX ==> res == Err::<
                (),
                FsError,
            >(FsError::InvalidOffset) && *final(self) == *old(self),
            res is Ok ==> old(self).offset + offset < old(self).inner.blocks().len() && final(self).inner.blocks() == old(self).inner.blocks().update(
                old(self).offset + offset,
                block@,
            ),
    {
        if offset >= self.size {
            return Err(FsError::InvalidOffset);
        }
        let inner_offset: usize = match self.offset.checked_add(offset) {
            Some(sum) => sum,
            None => {
                return Err(FsError::InvalidOffset);
            },
        };
        let res = self.inner.write_block(inner_offset, block);
        proof {
            if res is Ok {
                assert(self.blocks() =~= old(self).blocks().update(offset as int, block@));
            }
        }
        res
    }
}

/// The place of the first entry of the partition table in the first block
/// of a device.
pub const MBR_TABLE_START: usize = 0x1BE;

/// The length of an entry of the partition table.
pub const MBR_ENTRY_LEN: usize = 16;

/// The status of a partition that is active.
pub const MBR_ACTIVE: u8 = 0x80;

/// One entry of the partition table of a master boot record.
#[derive(Clone, Copy, Debug, PartialEq, Eq, Structural)]
pub struct MbrPartition {
    /// `0x80` for an active partition.
    pub status: u8,
    /// The kind of file system that the partition holds.
    pub kind: u8,
    /// The block at which the partition begins.
    pub begin_lba: u32,
    /// The number of blocks of the partition.
    pub total_lba: u32,
}

impl MbrPartition {
    /// The entry number `index` of the partition table in the first block
    /// `block` of a device.
    pub open spec fn spec_parse(block: Seq<u8>, index: int) -> MbrPartition {
        let at = 0x1BE + index * 16;
        MbrPartition {
            status: block[at],
            kind: block[at + 4],
            begin_lba: spec_le_u32(block[at + 8], block[at + 9], block[at + 10], block[at + 11]),
            total_lba: spec_le_u32(block[at + 12], block[at + 13], block[at + 14], block[at + 15]),
        }
    }

    /// The entry number `index`, from 0 to 3, of the partition table in
    /// the first block of a device: the status in its first byte, the kind
    /// in its fifth, then the first block and the number of blocks, each in
    /// four bytes with the lowest first.
    pub fn parse(block: &Block, index: usize) -> (entry: MbrPartition)
        requires
            index < 4,
        ensures
            entry == Self::spec_parse(block@, index as int),
    {
        let at: usize = MBR_TABLE_START + index * MBR_ENTRY_LEN;
        let data = &block.contents;
        MbrPartition {
            status: data[at],
            kind: data[at + 4],
            begin_lba: le_u32(data[at + 8], data[at + 9], data[at + 10], data[at + 11]),
            total_lba: le_u32(data[at + 12], data[at + 13], data[at + 14], data[at + 15]),
        }
    }

    /// Whether the partition is active.
    pub fn is_active(&self) -> (active: bool)
        ensures
            active == (self.status == MBR_ACTIVE),
    {
        self.status == MBR_ACTIVE
    }
}

/// The partition table of a master boot record, with the device that it
/// was read from.
pub struct MbrTable<T: BlockDevice> {
    pub inner: T,
    pub partitions: [MbrPartition; 4],
}

/// Whether `block` is a master boot record: it ends in the boot
/// signature.
pub open spec fn spec_is_mbr(block: Seq<u8>) -> bool {
    spec_le_u16(block[510], block[511]) == BOOT_SIGNATURE
}

impl<T: BlockDevice> MbrTable<T> {
    /// The partition table of `inner`, whose first block is `block`, or an
    /// error where the block does not end in the boot signature.
    pub fn from_block(inner: T, block: &Block) -> (table: Result<MbrTable<T>, FsError>)
        ensures
            table is Ok == spec_is_mbr(block@),
            table matches Ok(t) ==> t.inner == inner && forall|i: int|
                0 <= i < 4 ==> t.partitions@[i] == MbrPartition::spec_parse(block@, i),
            table matches Err(e) ==> e == FsError::InvalidOperation,
    {
        if le_u16(block.contents[510], block.contents[511]) != BOOT_SIGNATURE {
            return Err(FsError::InvalidOperation);
        }
        Ok(
            MbrTable {
                inner,
                partitions: [
                    MbrPartition::parse(block, 0),
                    MbrPartition::parse(block, 1),
                    MbrPartition::parse(block, 2),
                    MbrPartition::parse(block, 3),
                ],
            },
        )
    }

    /// Reads the partition table from the first block of `inner`, as
    /// [`MbrTable::from_block`] takes it from that block. An error of the
    /// device is handed on; on a reliable device the table is read
    /// wherever the first block is a master boot record.
    pub fn read(inner: T) -> (table: Result<MbrTable<T>, FsError>)
        ensures
            table matches Ok(t) ==> t.inner == inner && inner.blocks().len() > 0 && spec_is_mbr(
                inner.blocks()[0],
            ) && forall|i: int|
                0 <= i < 4 ==> t.partitions@[i] == MbrPartition::spec_parse(inner.blocks()[0], i),
            inner.reliable() ==> (table is Ok <==> inner.blocks().len() > 0 && spec_is_mbr(
                inner.blocks()[0],
            )),
            inner.reliable() && inner.blocks().len() > 0 ==> (table matches Err(e) ==> e
                == FsError::InvalidOperation),
    {
        let mut block = Block::default();
        match inner.read_block(0, &mut block) {
            Ok(()) => {},
            Err(e) => {
                return Err(e);
            },
        }
        Self::from_block(inner, &block)
    }

    /// The first and the number of blocks of each active partition of the
    /// table, in the order of the table.
    pub fn active(&self) -> (found: Vec<(usize, usize)>)
        ensures
            found@ == spec_active(self.partitions@),
    {
        let mut found: Vec<(usize, usize)> = Vec::new();
        let mut i: usize = 0;
        assert(self.partitions@.take(0) =~= Seq::<MbrPartition>::empty());
        while i < 4
            invariant
                0 <= i <= 4,
                found@ == spec_active(self.partitions@.take(i as int)),
            decreases 4 - i,
        {
            let entry = self.partitions[i];
            assert(self.partitions@.take(i + 1).drop_last() =~= self.partitions@.take(i as int));
            if entry.is_active() {
                found.push((entry.begin_lba as usize, entry.total_lba as usize));
            }
            i = i + 1;
        }
        assert(self.partitions@.take(4) =~= self.partitions@);
        found
    }
}

impl<T: BlockDevice + Copy> PartitionTable<T> for MbrTable<T> {
    /// Reads the partition table from the first block of `inner`, as
    /// [`MbrTable::read`] does.
    fn parse(inner: T) -> (table: Result<Self, FsError>)
        ensures
            table matches Ok(t) ==> t.inner == inner && inner.blocks().len() > 0 && spec_is_mbr(
                inner.blocks()[0],
            ) && forall|i: int|
                0 <= i < 4 ==> t.partitions@[i] == MbrPartition::spec_parse(inner.blocks()[0], i),
            inner.reliable() ==> (table is Ok <==> inner.blocks().len() > 0 && spec_is_mbr(
                inner.blocks()[0],
            )),
            inner.reliable() && inner.blocks().len() > 0 ==> (table matches Err(e) ==> e
                == FsError::InvalidOperation),
    {
        Self::read(inner)
    }

    /// The active partitions of the table, in its order: each is a part
    /// of the device of the table, from the first block that its entry
    /// names and with as many blocks.
    fn partitions(&self) -> (found: Result<Vec<Partition<T>>, FsError>)
        ensures
            found matches Ok(list) && list@.len() == spec_active(self.partitions@).len()
                && forall|k: int|
                0 <= k < list@.len() ==> (#[trigger] list@[k]).inner == self.inner && list@[k].offset
                    == spec_active(self.partitions@)[k].0 && list@[k].size == spec_active(
                    self.partitions@,
                )[k].1,
    {
        let active = self.active();
        let mut partitions: Vec<Partition<T>> = Vec::new();
        let mut i: usize = 0;
        while i < active.len()
            invariant
                0 <= i <= active.len(),
                active@ == spec_active(self.partitions@),
                partitions@.len() == i,
                forall|k: int|
                    0 <= k < i ==> (#[trigger] partitions@[k]).inner == self.inner
                        && partitions@[k].offset == active@[k].0 && partitions@[k].size
                        == active@[k].1,
            decreases active.len() - i,
        {
            partitions.push(Partition::new(self.inner, active[i].0, active[i].1));
            i = i + 1;
        }
        Ok(partitions)
    }
}

/// The first and the number of blocks of each active partition of
/// `partitions`, in their order.
pub open spec fn spec_active(partitions: Seq<MbrPartition>) -> Seq<(usize, usize)>
    decreases partitions.len(),
{
    if partitions.len() == 0 {
        Seq::empty()
    } else if partitions.last().status == MBR_ACTIVE {
        spec_active(partitions.drop_last()).push(
            (partitions.last().begin_lba as usize, partitions.last().total_lba as usize),
        )
    } else {
        spec_active(partitions.drop_last())
    }
}

} // verus!
