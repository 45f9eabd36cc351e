//! Reading a FAT16 volume: the chain of clusters and the directories.

use vstd::prelude::*;
use vstd::string::StringSliceAdditionalSpecFns;
use vstd::utf8::valid_utf8;
use crate::storage::{Block, BlockDevice, FsError, BLOCK_SIZE};
use super::direntry::{
    spec_name_error,
    spec_trim,
    utf8_str,
    Cluster,
    DirEntry,
    ShortFileName,
    CLUSTER_END_OF_FILE,
    CLUSTER_ROOT_DIR,
    DIR_ENTRY_LEN,
};
use super::{le_u16, spec_le_u16, Directory, Fat16Bpb, Fat16Impl};

verus! {

/// The most clusters that a chain is followed through: a FAT16 volume has
/// fewer.
pub const MAX_CHAIN: u32 = 0x1_0000;

/// The number of entries in a block of a directory.
pub const ENTRIES_PER_BLOCK: usize = 16;

/// The sectors that a root directory of `entries` entries takes.
pub open spec fn spec_root_dir_sectors(entries: u16) -> int {
    (entries * 32 + 511) / 512
}

/// What the entry of the file allocation table in the bytes `b0` and `b1`
/// says of the cluster that follows: the end of the file from `0xFFF8` up,
/// a bad cluster for `0xFFF7`, else the number of the cluster.
pub open spec fn spec_fat_entry(b0: u8, b1: u8) -> Result<Cluster, FsError> {
    let raw = spec_le_u16(b0, b1);
    if raw >= 0xFFF8 {
        Ok(Cluster(CLUSTER_END_OF_FILE))
    } else if raw == 0xFFF7 {
        Err(FsError::BadCluster)
    } else {
        Ok(Cluster(raw as u32))
    }
}

/// The place of the entry of `cluster` within its block of the file
/// allocation table.
pub open spec fn spec_fat_within(cluster: Cluster) -> int {
    (cluster.0 % 256) * 2
}

/// The block of the file allocation table that holds the entry of
/// `cluster`, counted from the start of the table.
pub open spec fn spec_fat_block(cluster: Cluster) -> int {
    cluster.0 as int / 256
}

/// What `block`, the block of the file allocation table that holds the
/// entry of `cluster`, says of the cluster that follows it.
pub fn fat_entry_of(block: &Block, cluster: Cluster) -> (next: Result<Cluster, FsError>)
    ensures
        next == spec_fat_entry(
            block@[spec_fat_within(cluster)],
            block@[spec_fat_within(cluster) + 1],
        ),
{
    let within: usize = (cluster.0 % 256) as usize * 2;
    let raw: u16 = le_u16(block.contents[within], block.contents[within + 1]);
    if raw >= 0xFFF8 {
        Ok(Cluster(CLUSTER_END_OF_FILE))
    } else if raw == 0xFFF7 {
        Err(FsError::BadCluster)
    } else {
        Ok(Cluster(raw as u32))
    }
}

/// Whether the `i`-th entry of the block `block` of a directory is the
/// file named `name`: it is in use, holds no part of a long name, and has
/// that name.
pub open spec fn spec_entry_matches(block: Seq<u8>, i: int, name: ShortFileName) -> bool {
    let data = block.subrange(i * 32, i * 32 + 32);
    &&& !(data[0] == 0x00 && data[8] == 0x00)
    &&& data[0] != 0xE5
    &&& (data[11] & super::direntry::ATTR_ALL) & super::direntry::ATTR_LFN
        != super::direntry::ATTR_LFN
    &&& data.subrange(0, 8) == name.name@
    &&& data.subrange(8, 11) == name.ext@
}

/// The first entry of the block `block` of a directory that is the file
/// named `name`, or `None` where the block has none.
pub fn find_in_block(block: &Block, name: &ShortFileName) -> (found: Option<DirEntry>)
    ensures
        found is None ==> forall|i: int|
            0 <= i < ENTRIES_PER_BLOCK ==> !spec_entry_matches(block@, i, *name),
        found matches Some(entry) ==> exists|i: int|
            {
                &&& 0 <= i < ENTRIES_PER_BLOCK
                &&& #[trigger] spec_entry_matches(block@, i, *name)
                &&& DirEntry::spec_parsed(block@.subrange(i * 32, i * 32 + 32), entry)
                &&& forall|j: int| 0 <= j < i ==> !spec_entry_matches(block@, j, *name)
            },
{
    let mut i: usize = 0;
    while i < ENTRIES_PER_BLOCK
        invariant
            0 <= i <= ENTRIES_PER_BLOCK,
            block@.len() == 512,
            forall|j: int| 0 <= j < i ==> !spec_entry_matches(block@, j, *name),
        decreases ENTRIES_PER_BLOCK - i,
    {
        let off: usize = i * DIR_ENTRY_LEN;
        let end: usize = off + DIR_ENTRY_LEN;
        let slot = vstd::slice::slice_subrange(block.contents.as_slice(), off, end);
        assert(slot@ =~= block@.subrange(i * 32, i * 32 + 32));
        match DirEntry::parse(slot) {
            Ok(entry) => {
                if entry.is_valid() && !entry.is_long_name() && entry.filename.matches(name) {
                    assert(slot@.subrange(0, 8)[0] == slot@[0]);
                    assert(slot@.subrange(8, 11)[0] == slot@[8]);
                    assert(spec_entry_matches(block@, i as int, *name));
                    return Some(entry);
                }
                assert(slot@.subrange(0, 8)[0] == slot@[0]);
                assert(slot@.subrange(8, 11)[0] == slot@[8]);
                assert(!spec_entry_matches(block@, i as int, *name));
            },
            Err(_) => {},
        }
        i = i + 1;
    }
    None
}

impl<T: BlockDevice> Fat16Impl<T> {
    /// The layout is that of the boot sector: the file allocation tables
    /// follow the reserved sectors, the root directory follows the tables,
    /// and the clusters follow the root directory.
    pub open spec fn wf(&self) -> bool {
        &&& self.fat_start == self.bpb.reserved_sector_count
        &&& self.first_root_dir_sector == self.fat_start + self.bpb.fat_count
            * self.bpb.sectors_per_fat
        &&& self.first_data_sector == self.first_root_dir_sector + spec_root_dir_sectors(
            self.bpb.root_entries_count,
        )
    }

    /// Opens the volume on `inner`: reads its first block and takes the
    /// layout from it, as [`Fat16Impl::from_boot_sector`] does. An error
    /// of the device is handed on; on a reliable device the volume is
    /// opened wherever the first block is a boot sector.
    pub fn new(inner: T) -> (volume: Result<Fat16Impl<T>, FsError>)
        ensures
            volume matches Ok(v) ==> v.wf() && v.inner == inner && inner.blocks().len() > 0
                && Fat16Bpb::spec_is_boot_sector(inner.blocks()[0]) && v.bpb
                == Fat16Bpb::spec_new(inner.blocks()[0]),
            inner.reliable() ==> (volume is Ok <==> inner.blocks().len() > 0
                && Fat16Bpb::spec_is_boot_sector(inner.blocks()[0])),
            inner.reliable() && inner.blocks().len() > 0 ==> (volume matches Err(e) ==> e
                == FsError::InvalidOperation),
    {
        let mut block = Block::default();
        match inner.read_block(0, &mut block) {
            Ok(()) => {},
            Err(e) => {
                return Err(e);
            },
        }
        Self::from_boot_sector(inner, &block)
    }

    /// The volume on `inner` whose boot sector is `block`.
    ///
    /// The first file allocation table starts behind the reserved
    /// sectors. The root directory starts behind the tables and takes as
    /// many sectors as its entries of 32 bytes need. The first cluster
    /// starts behind the root directory. A block that is no boot sector is
    /// an error.
    pub fn from_boot_sector(inner: T, block: &Block) -> (volume: Result<Fat16Impl<T>, FsError>)
        ensures
            volume is Ok == Fat16Bpb::spec_is_boot_sector(block@),
            volume matches Ok(v) ==> v.wf() && v.inner == inner && v.bpb == Fat16Bpb::spec_new(
                block@,
            ),
            volume matches Err(e) ==> e == FsError::InvalidOperation,
    {
        let bpb = match Fat16Bpb::new(block.contents.as_slice()) {
            Ok(bpb) => bpb,
            Err(e) => {
                return Err(FsError::InvalidOperation);
            },
        };
        let fat_start: usize = bpb.reserved_sector_count() as usize;
        let root_entries_count: usize = bpb.root_entries_count() as usize;
        let root_dir_size: usize = (root_entries_count * DIR_ENTRY_LEN + BLOCK_SIZE - 1)
            / BLOCK_SIZE;
        let fat_count: usize = bpb.fat_count() as usize;
        let sectors_per_fat: usize = bpb.sectors_per_fat() as usize;
        assert(fat_count * sectors_per_fat <= 255 * 65535) by (nonlinear_arith)
            requires
                fat_count <= 255,
                sectors_per_fat <= 65535,
        ;
        let first_root_dir_sector: usize = fat_start + (fat_count * sectors_per_fat);
        let first_data_sector: usize = first_root_dir_sector + root_dir_size;
        Ok(Fat16Impl { bpb, inner, fat_start, first_data_sector, first_root_dir_sector })
    }

    /// The sector in which `cluster` starts.
    pub open spec fn spec_cluster_to_sector(&self, cluster: Cluster) -> int {
        if cluster.0 == CLUSTER_ROOT_DIR {
            self.first_root_dir_sector as int
        } else {
            (cluster.0 - 2) * self.bpb.sectors_per_cluster + self.first_data_sector
        }
    }

    /// Whether `cluster` is the root directory or a cluster of a FAT16
    /// volume: a number from 2 to `0xFFFF`.
    pub open spec fn spec_is_cluster(cluster: Cluster) -> bool {
        cluster.0 == CLUSTER_ROOT_DIR || 2 <= cluster.0 <= 0xFFFF
    }

    /// The sector in which a cluster of a FAT16 volume starts can be
    /// counted to.
    pub proof fn lemma_cluster_fits(&self, cluster: Cluster)
        requires
            self.wf(),
            Self::spec_is_cluster(cluster),
        ensures
            0 <= self.spec_cluster_to_sector(cluster) <= usize::MAX,
            self.spec_cluster_to_sector(cluster) <= 0x1_0000 + 255 * 65535 + 4096 + 0xFFFF * 255,
    {
        assert(self.bpb.fat_count * self.bpb.sectors_per_fat <= 255 * 65535) by (nonlinear_arith);
        if cluster.0 != CLUSTER_ROOT_DIR {
            assert((cluster.0 - 2) * self.bpb.sectors_per_cluster <= 0xFFFF * 255)
                by (nonlinear_arith)
                requires
                    2 <= cluster.0 <= 0xFFFF,
                    0 <= self.bpb.sectors_per_cluster <= 255,
            ;
            assert((cluster.0 - 2) * self.bpb.sectors_per_cluster >= 0) by (nonlinear_arith)
                requires
                    2 <= cluster.0,
                    0 <= self.bpb.sectors_per_cluster,
            ;
        }
    }

    /// The sector in which `cluster` starts: the first of the root
    /// directory for the root directory, else as many clusters behind the
    /// first data sector as `cluster` is above 2. The sector has to be
    /// one that can be counted to, as that of every cluster of a FAT16
    /// volume is.
    pub fn cluster_to_sector(&self, cluster: &Cluster) -> (sector: usize)
        requires
            cluster.0 == CLUSTER_ROOT_DIR || cluster.0 >= 2,
            self.spec_cluster_to_sector(*cluster) <= usize::MAX,
        ensures
            sector == self.spec_cluster_to_sector(*cluster),
    {
        if cluster.0 == CLUSTER_ROOT_DIR {
            self.first_root_dir_sector
        } else {
            let n: usize = (cluster.0 - 2) as usize;
            let per: usize = self.bpb.sectors_per_cluster() as usize;
            assert(0 <= n * per <= n * per + self.first_data_sector) by (nonlinear_arith)
                requires
                    0 <= n,
                    0 <= per,
                    0 <= self.first_data_sector,
            ;
            (n * per) + self.first_data_sector
        }
    }

    /// The cluster that follows `cluster` in its chain, as the device
    /// tells it, or `None` where the device is too short.
    pub open spec fn spec_next_cluster(&self, cluster: Cluster) -> Option<Result<Cluster, FsError>> {
        let sector = self.fat_start + spec_fat_block(cluster);
        if cluster.0 == CLUSTER_ROOT_DIR {
            Some(Ok(Cluster(CLUSTER_ROOT_DIR)))
        } else if sector < self.inner.blocks().len() {
            Some(
                spec_fat_entry(
                    self.inner.blocks()[sector][spec_fat_within(cluster)],
                    self.inner.blocks()[sector][spec_fat_within(cluster) + 1],
                ),
            )
        } else {
            None
        }
    }

    /// The cluster that follows `cluster` in its chain.
    ///
    /// The root directory follows itself. For any other cluster the
    /// entry of two bytes at twice its number in the file allocation
    /// table is read, as [`fat_entry_of`] reads it. An error of the device
    /// is handed on; a reliable device fails only where it does not hold
    /// that part of the table.
    pub fn next_cluster(&self, cluster: Cluster) -> (next: Result<Cluster, FsError>)
        requires
            self.wf(),
        ensures
            cluster.0 == CLUSTER_ROOT_DIR ==> next == Ok::<Cluster, FsError>(cluster),
            next is Ok ==> Some(next) == self.spec_next_cluster(cluster),
            self.inner.reliable() ==> (match self.spec_next_cluster(cluster) {
                Some(found) => next == found,
                None => next is Err,
            }),
    {
        if cluster.0 == CLUSTER_ROOT_DIR {
            return Ok(Cluster(CLUSTER_ROOT_DIR));
        }
        let sector_index: usize = self.fat_start + (cluster.0 / 256) as usize;
        let mut block = Block::default();
        match self.inner.read_block(sector_index, &mut block) {
            Ok(()) => {},
            Err(e) => {
                return Err(e);
            },
        }
        fat_entry_of(&block, cluster)
    }

    /// The root directory of the volume.
    pub fn root_dir(&self) -> (dir: Result<Directory, FsError>)
        ensures
            dir matches Ok(d) && d.cluster == Cluster(CLUSTER_ROOT_DIR) && d.entry is None,
    {
        Ok(Directory::new(Cluster(CLUSTER_ROOT_DIR)))
    }
}

/// Whether the block `block` of a directory holds the file named `name`.
pub open spec fn spec_block_has(block: Seq<u8>, name: ShortFileName) -> bool {
    exists|i: int| 0 <= i < ENTRIES_PER_BLOCK && #[trigger] spec_entry_matches(block, i, name)
}

/// Whether `entry` is the first entry of the block `block` of a directory
/// that is the file named `name`.
pub open spec fn spec_first_in_block(block: Seq<u8>, name: ShortFileName, entry: DirEntry) -> bool {
    exists|i: int|
        {
            &&& 0 <= i < ENTRIES_PER_BLOCK
            &&& #[trigger] spec_entry_matches(block, i, name)
            &&& DirEntry::spec_parsed(block.subrange(i * 32, i * 32 + 32), entry)
            &&& forall|j: int| 0 <= j < i ==> !spec_entry_matches(block, j, name)
        }
}

impl<T: BlockDevice> Fat16Impl<T> {
    /// The first of the `count` sectors from `first` on that holds the
    /// file named `name`, or `None` where none of them does.
    pub open spec fn spec_sector_with(&self, first: int, count: nat, name: ShortFileName) -> Option<
        int,
    >
        decreases count,
    {
        if count == 0 {
            None
        } else if 0 <= first < self.inner.blocks().len() && spec_block_has(
            self.inner.blocks()[first],
            name,
        ) {
            Some(first)
        } else {
            self.spec_sector_with(first + 1, (count - 1) as nat, name)
        }
    }

    /// The number of sectors that belong to `cluster` in a directory: all
    /// those of the root directory for the root directory, else those of
    /// one cluster.
    pub open spec fn spec_sector_count(&self, cluster: Cluster) -> nat {
        if cluster.0 == CLUSTER_ROOT_DIR {
            (self.first_data_sector - self.first_root_dir_sector) as nat
        } else {
            self.bpb.sectors_per_cluster as nat
        }
    }

    /// The sector that holds the first entry named `name` of the
    /// directory that starts in `cluster`, where its sectors are searched
    /// in their order through at most `fuel` clusters; `None` where there
    /// is none, or the chain cannot be followed.
    pub open spec fn spec_lookup(&self, cluster: Cluster, name: ShortFileName, fuel: nat) -> Option<
        int,
    >
        decreases fuel,
    {
        if fuel == 0 || !Self::spec_is_cluster(cluster) {
            None
        } else {
            match self.spec_sector_with(
                self.spec_cluster_to_sector(cluster),
                self.spec_sector_count(cluster),
                name,
            ) {
                Some(sector) => Some(sector),
                None => if cluster.0 == CLUSTER_ROOT_DIR {
                    None
                } else {
                    match self.spec_next_cluster(cluster) {
                        Some(Ok(next)) => if next.0 == CLUSTER_END_OF_FILE {
                            None
                        } else {
                            self.spec_lookup(next, name, (fuel - 1) as nat)
                        },
                        _ => None,
                    }
                },
            }
        }
    }

    /// Whether the search for the file named `name` in the directory that
    /// starts in `cluster`, through at most `fuel` clusters, comes to a
    /// sector that the device does not hold before it has found the file:
    /// a sector of the directory, or the sector of the file allocation
    /// table that tells the next cluster.
    pub open spec fn spec_blocked(&self, cluster: Cluster, name: ShortFileName, fuel: nat) -> bool
        decreases fuel,
    {
        if fuel == 0 || !Self::spec_is_cluster(cluster) {
            false
        } else if self.spec_sector_with(
            self.spec_cluster_to_sector(cluster),
            self.spec_sector_count(cluster),
            name,
        ) is Some {
            false
        } else if self.spec_sector_count(cluster) > 0 && self.spec_cluster_to_sector(cluster)
            + self.spec_sector_count(cluster) > self.inner.blocks().len() {
            true
        } else if cluster.0 == CLUSTER_ROOT_DIR {
            false
        } else {
            match self.spec_next_cluster(cluster) {
                Some(Ok(next)) => next.0 != CLUSTER_END_OF_FILE && self.spec_blocked(
                    next,
                    name,
                    (fuel - 1) as nat,
                ),
                Some(Err(_)) => false,
                None => true,
            }
        }
    }

    /// Whether the directory that starts in `cluster` has no entry named
    /// `name`: a search through at most `fuel` clusters finds none in the
    /// sectors of the directory, all of which the device holds, up to the
    /// end of its chain.
    pub open spec fn spec_missing(&self, cluster: Cluster, name: ShortFileName, fuel: nat) -> bool
        decreases fuel,
    {
        &&& fuel > 0
        &&& Self::spec_is_cluster(cluster)
        &&& self.spec_sector_with(
            self.spec_cluster_to_sector(cluster),
            self.spec_sector_count(cluster),
            name,
        ) is None
        &&& (self.spec_sector_count(cluster) == 0 || self.spec_cluster_to_sector(cluster)
            + self.spec_sector_count(cluster) <= self.inner.blocks().len())
        &&& (cluster.0 == CLUSTER_ROOT_DIR || (match self.spec_next_cluster(cluster) {
            Some(Ok(next)) => next.0 == CLUSTER_END_OF_FILE || self.spec_missing(
                next,
                name,
                (fuel - 1) as nat,
            ),
            _ => false,
        }))
    }

    /// Whether the search for the file named `name` in the directory that
    /// starts in `cluster` comes to a bad cluster before it has found the
    /// file: a cluster that is none of a FAT16 volume, one that the file
    /// allocation table calls bad, or one behind the first `fuel` of the
    /// chain.
    pub open spec fn spec_broken(&self, cluster: Cluster, name: ShortFileName, fuel: nat) -> bool
        decreases fuel,
    {
        if fuel == 0 || !Self::spec_is_cluster(cluster) {
            true
        } else {
            &&& self.spec_sector_with(
                self.spec_cluster_to_sector(cluster),
                self.spec_sector_count(cluster),
                name,
            ) is None
            &&& (self.spec_sector_count(cluster) == 0 || self.spec_cluster_to_sector(cluster)
                + self.spec_sector_count(cluster) <= self.inner.blocks().len())
            &&& cluster.0 != CLUSTER_ROOT_DIR
            &&& (match self.spec_next_cluster(cluster) {
                Some(Ok(next)) => next.0 != CLUSTER_END_OF_FILE && self.spec_broken(
                    next,
                    name,
                    (fuel - 1) as nat,
                ),
                Some(Err(_)) => true,
                None => false,
            })
        }
    }

    /// Whether the directory that starts in `cluster` has an entry named
    /// `name` that a search finds before it comes to a sector that the
    /// device does not hold.
    pub open spec fn spec_has_entry(&self, cluster: Cluster, name: ShortFileName) -> bool {
        self.spec_lookup(cluster, name, MAX_CHAIN as nat) is Some && !self.spec_blocked(
            cluster,
            name,
            MAX_CHAIN as nat,
        )
    }

    /// Whether `entry` is the entry named `name` of the directory that
    /// starts in `cluster`: the first with the name that is in use and
    /// holds no part of a long name, in the order of the sectors of the
    /// directory, all of which the device holds up to there.
    pub open spec fn spec_is_entry(
        &self,
        cluster: Cluster,
        entry: DirEntry,
        name: ShortFileName,
    ) -> bool {
        &&& self.spec_has_entry(cluster, name)
        &&& self.spec_lookup(cluster, name, MAX_CHAIN as nat) matches Some(sector) && 0 <= sector
            < self.inner.blocks().len() && spec_first_in_block(
            self.inner.blocks()[sector],
            name,
            entry,
        )
    }

    /// No sector behind the last block of the device holds a file.
    proof fn lemma_no_sector_behind(&self, first: int, count: nat, name: ShortFileName)
        requires
            first >= self.inner.blocks().len(),
        ensures
            self.spec_sector_with(first, count, name) is None,
        decreases count,
    {
        if count > 0 {
            self.lemma_no_sector_behind(first + 1, (count - 1) as nat, name);
        }
    }

    /// Looks in the sectors from `first` on, `count` of them, for the
    /// file named `name`: the sectors are read in their order, up to the
    /// first that holds such a file. An error of the device is handed on;
    /// a reliable device fails only where a sector behind its last block
    /// is reached before the file is found.
    fn find_in_sectors(&self, first: usize, count: usize, name: &ShortFileName) -> (found: Result<
        Option<DirEntry>,
        FsError,
    >)
        requires
            first + count <= usize::MAX,
        ensures
            count == 0 ==> found == Ok::<Option<DirEntry>, FsError>(None),
            self.inner.reliable() ==> (found is Err <==> count > 0 && first + count
                > self.inner.blocks().len() && self.spec_sector_with(
                first as int,
                count as nat,
                *name,
            ) is None),
            found matches Ok(Some(entry)) ==> (self.spec_sector_with(
                first as int,
                count as nat,
                *name,
            ) matches Some(sector) && 0 <= sector < self.inner.blocks().len()
                && spec_first_in_block(self.inner.blocks()[sector], *name, entry)),
            found matches Ok(None) ==> self.spec_sector_with(first as int, count as nat, *name)
                is None && (count == 0 || first + count <= self.inner.blocks().len()),
    {
        let mut block = Block::default();
        let mut sec: usize = first;
        while sec < first + count
            invariant
                first <= sec <= first + count <= usize::MAX,
                sec > first ==> sec <= self.inner.blocks().len(),
                self.spec_sector_with(first as int, count as nat, *name) == self.spec_sector_with(
                    sec as int,
                    (first + count - sec) as nat,
                    *name,
                ),
            decreases first + count - sec,
        {
            match self.inner.read_block(sec, &mut block) {
                Ok(()) => {},
                Err(e) => {
                    proof {
                        if self.inner.reliable() {
                            self.lemma_no_sector_behind(
                                sec as int,
                                (first + count - sec) as nat,
                                *name,
                            );
                        }
                    }
                    return Err(e);
                },
            }
            match find_in_block(&block, name) {
                Some(entry) => {
                    proof {
                        let i = choose|i: int|
                            {
                                &&& 0 <= i < ENTRIES_PER_BLOCK
                                &&& #[trigger] spec_entry_matches(block@, i, *name)
                                &&& DirEntry::spec_parsed(
                                    block@.subrange(i * 32, i * 32 + 32),
                                    entry,
                                )
                                &&& forall|j: int|
                                    0 <= j < i ==> !spec_entry_matches(block@, j, *name)
                            };
                        assert(spec_entry_matches(self.inner.blocks()[sec as int], i, *name));
                        assert(spec_block_has(self.inner.blocks()[sec as int], *name));
                        assert(spec_first_in_block(self.inner.blocks()[sec as int], *name, entry));
                    }
                    return Ok(Some(entry));
                },
                None => {
                    assert(!spec_block_has(self.inner.blocks()[sec as int], *name));
                },
            }
            sec = sec + 1;
        }
        Ok(None)
    }

    /// Looks in the directory `dir` for the file named by the short file
    /// name `name`.
    ///
    /// The sectors of the root directory, or those of the clusters of the
    /// chain of `dir`, are read in their order, and each for its first
    /// entry with the name that is in use and holds no part of a long
    /// name. The file is not found where the chain ends without one. A
    /// cluster that is none of a FAT16 volume is a bad cluster, and so is
    /// a chain of more than [`MAX_CHAIN`] clusters. An error of the device
    /// is handed on; on a reliable device the entry is found wherever the
    /// directory has it before a sector that the device does not hold, a
    /// directory that has none gives [`FsError::FileNotFound`], and a bad
    /// cluster on the way gives [`FsError::BadCluster`].
    pub fn entry_of(&self, dir: &Directory, name: &ShortFileName) -> (entry: Result<
        DirEntry,
        FsError,
    >)
        requires
            self.wf(),
        ensures
            entry matches Ok(e) ==> self.spec_is_entry(dir.cluster, e, *name),
            !Self::spec_is_cluster(dir.cluster) ==> entry == Err::<DirEntry, FsError>(
                FsError::BadCluster,
            ),
            self.inner.reliable() ==> (entry is Ok <==> self.spec_has_entry(dir.cluster, *name)),
            self.inner.reliable() && self.spec_missing(dir.cluster, *name, MAX_CHAIN as nat)
                ==> entry == Err::<DirEntry, FsError>(FsError::FileNotFound),
            self.inner.reliable() && self.spec_broken(dir.cluster, *name, MAX_CHAIN as nat)
                ==> entry == Err::<DirEntry, FsError>(FsError::BadCluster),
    {
        let sectors_per_cluster: usize = self.bpb.sectors_per_cluster() as usize;
        let root_dir_sectors: usize = self.first_data_sector - self.first_root_dir_sector;
        let mut cluster = dir.cluster;
        let mut steps: u32 = 0;
        assert(self.bpb.fat_count * self.bpb.sectors_per_fat <= 255 * 65535) by (nonlinear_arith);
        while steps < MAX_CHAIN
            invariant
                0 <= steps <= MAX_CHAIN,
                self.wf(),
                sectors_per_cluster == self.bpb.sectors_per_cluster,
                root_dir_sectors == self.first_data_sector - self.first_root_dir_sector,
                self.bpb.fat_count * self.bpb.sectors_per_fat <= 255 * 65535,
                steps == 0 ==> cluster == dir.cluster,
                steps > 0 ==> Self::spec_is_cluster(dir.cluster),
                self.spec_lookup(dir.cluster, *name, MAX_CHAIN as nat) == self.spec_lookup(
                    cluster,
                    *name,
                    (MAX_CHAIN - steps) as nat,
                ),
                self.spec_blocked(dir.cluster, *name, MAX_CHAIN as nat) == self.spec_blocked(
                    cluster,
                    *name,
                    (MAX_CHAIN - steps) as nat,
                ),
                self.spec_missing(dir.cluster, *name, MAX_CHAIN as nat) == self.spec_missing(
                    cluster,
                    *name,
                    (MAX_CHAIN - steps) as nat,
                ),
                self.spec_broken(dir.cluster, *name, MAX_CHAIN as nat) == self.spec_broken(
                    cluster,
                    *name,
                    (MAX_CHAIN - steps) as nat,
                ),
            decreases MAX_CHAIN - steps,
        {
            if !(cluster.0 == CLUSTER_ROOT_DIR || (2 <= cluster.0 && cluster.0 <= 0xFFFF)) {
                return Err(FsError::BadCluster);
            }
            proof {
                self.lemma_cluster_fits(cluster);
            }
            let first_sector: usize = self.cluster_to_sector(&cluster);
            let sector_cnt: usize = if cluster.0 == CLUSTER_ROOT_DIR {
                root_dir_sectors
            } else {
                sectors_per_cluster
            };
            assert(Self::spec_is_cluster(dir.cluster));
            if cluster.0 != CLUSTER_ROOT_DIR {
                assert((cluster.0 - 2) * self.bpb.sectors_per_cluster <= 0xFFFF * 255)
                    by (nonlinear_arith)
                    requires
                        2 <= cluster.0 <= 0xFFFF,
                        0 <= self.bpb.sectors_per_cluster <= 255,
                ;
            }
            match self.find_in_sectors(first_sector, sector_cnt, name) {
                Ok(Some(entry)) => {
                    return Ok(entry);
                },
                Ok(None) => {},
                Err(e) => {
                    return Err(e);
                },
            }
            if cluster.0 == CLUSTER_ROOT_DIR {
                return Err(FsError::FileNotFound);
            }
            cluster = match self.next_cluster(cluster) {
                Ok(next) => {
                    if next.0 == CLUSTER_END_OF_FILE {
                        return Err(FsError::FileNotFound);
                    }
                    next
                },
                Err(FsError::EndOfFile) => {
                    return Err(FsError::FileNotFound);
                },
                Err(e) => {
                    return Err(e);
                },
            };
            steps = steps + 1;
        }
        Err(FsError::BadCluster)
    }

    /// Whether the directory that starts in `cluster` has no entry with
    /// the short file name that the bytes `name` spell, as
    /// [`Fat16Impl::spec_missing`] says.
    pub open spec fn spec_missing_named(&self, cluster: Cluster, name: Seq<u8>) -> bool {
        exists|short_name: ShortFileName|
            {
                &&& #[trigger] self.spec_missing(cluster, short_name, MAX_CHAIN as nat)
                &&& short_name.name@ == super::direntry::spec_padded(
                    super::direntry::spec_name_part(spec_trim(name)),
                    8,
                )
                &&& short_name.ext@ == super::direntry::spec_padded(
                    super::direntry::spec_ext_part(spec_trim(name)),
                    3,
                )
            }
    }

    /// Whether the directory that starts in `cluster` has an entry with
    /// the short file name that the bytes `name` spell, as
    /// [`Fat16Impl::spec_has_entry`] says.
    pub open spec fn spec_has_named(&self, cluster: Cluster, name: Seq<u8>) -> bool {
        exists|short_name: ShortFileName|
            {
                &&& #[trigger] self.spec_has_entry(cluster, short_name)
                &&& short_name.name@ == super::direntry::spec_padded(
                    super::direntry::spec_name_part(spec_trim(name)),
                    8,
                )
                &&& short_name.ext@ == super::direntry::spec_padded(
                    super::direntry::spec_ext_part(spec_trim(name)),
                    3,
                )
            }
    }

    /// A directory has one entry of a name: two entries that are both the
    /// entry named `name` of the directory that starts in `cluster` hold
    /// the same.
    pub proof fn lemma_entry_unique(
        &self,
        cluster: Cluster,
        one: DirEntry,
        other: DirEntry,
        name: ShortFileName,
    )
        requires
            self.spec_is_entry(cluster, one, name),
            self.spec_is_entry(cluster, other, name),
        ensures
            one.filename.name@ == other.filename.name@,
            one.filename.ext@ == other.filename.ext@,
            one.attributes == other.attributes,
            one.cluster == other.cluster,
            one.size == other.size,
            one.created_time == other.created_time,
            one.accessed_time == other.accessed_time,
            one.modified_time == other.modified_time,
    {
        let sector = self.spec_lookup(cluster, name, MAX_CHAIN as nat)->0;
        let block = self.inner.blocks()[sector];
        let i = choose|i: int|
            {
                &&& 0 <= i < ENTRIES_PER_BLOCK
                &&& #[trigger] spec_entry_matches(block, i, name)
                &&& DirEntry::spec_parsed(block.subrange(i * 32, i * 32 + 32), one)
                &&& forall|j: int| 0 <= j < i ==> !spec_entry_matches(block, j, name)
            };
        let k = choose|k: int|
            {
                &&& 0 <= k < ENTRIES_PER_BLOCK
                &&& #[trigger] spec_entry_matches(block, k, name)
                &&& DirEntry::spec_parsed(block.subrange(k * 32, k * 32 + 32), other)
                &&& forall|j: int| 0 <= j < k ==> !spec_entry_matches(block, j, name)
            };
        assert(i == k);
    }

    /// Looks in the directory `dir` for the file named `name`.
    ///
    /// A name that is no short file name is an error, as
    /// [`ShortFileName::parse`] says. Else the entry is looked for as
    /// [`Fat16Impl::entry_of`] does: on a reliable device it is found
    /// where that function finds it, and not found where the directory has
    /// none of the name.
    pub fn name_to_entry(&self, dir: &Directory, name: &str) -> (entry: Result<DirEntry, FsError>)
        requires
            self.wf(),
        ensures
            spec_name_error(name.spec_bytes(), spec_trim(name.spec_bytes())) matches Some(e)
                ==> entry == Err::<DirEntry, FsError>(FsError::FileNameError(e)),
            spec_name_error(name.spec_bytes(), spec_trim(name.spec_bytes())) is None
                && !Self::spec_is_cluster(dir.cluster) ==> entry == Err::<DirEntry, FsError>(
                FsError::BadCluster,
            ),
            entry matches Ok(e) ==> exists|short_name: ShortFileName|
                #[trigger] self.spec_is_entry(dir.cluster, e, short_name) && short_name.name@
                    == super::direntry::spec_padded(
                    super::direntry::spec_name_part(spec_trim(name.spec_bytes())),
                    8,
                ) && short_name.ext@ == super::direntry::spec_padded(
                    super::direntry::spec_ext_part(spec_trim(name.spec_bytes())),
                    3,
                ),
            self.inner.reliable() ==> (entry is Ok <==> spec_name_error(
                name.spec_bytes(),
                spec_trim(name.spec_bytes()),
            ) is None && self.spec_has_named(dir.cluster, name.spec_bytes())),
            self.inner.reliable() && spec_name_error(
                name.spec_bytes(),
                spec_trim(name.spec_bytes()),
            ) is None && self.spec_missing_named(dir.cluster, name.spec_bytes()) ==> entry == Err::<
                DirEntry,
                FsError,
            >(FsError::FileNotFound),
    {
        let short_name = match ShortFileName::parse(name) {
            Ok(short_name) => short_name,
            Err(e) => {
                return Err(e);
            },
        };
        let entry = self.entry_of(dir, &short_name);
        proof {
            if entry is Ok {
                assert(self.spec_is_entry(dir.cluster, entry->Ok_0, short_name));
                assert(self.spec_has_entry(dir.cluster, short_name));
            }
            if self.spec_has_named(dir.cluster, name.spec_bytes()) {
                let other = choose|other: ShortFileName|
                    {
                        &&& #[trigger] self.spec_has_entry(dir.cluster, other)
                        &&& other.name@ == super::direntry::spec_padded(
                            super::direntry::spec_name_part(spec_trim(name.spec_bytes())),
                            8,
                        )
                        &&& other.ext@ == super::direntry::spec_padded(
                            super::direntry::spec_ext_part(spec_trim(name.spec_bytes())),
                            3,
                        )
                    };
                assert(other.name =~= short_name.name);
                assert(other.ext =~= short_name.ext);
                assert(other == short_name);
            }
            if self.spec_missing_named(dir.cluster, name.spec_bytes()) {
                let other = choose|other: ShortFileName|
                    {
                        &&& #[trigger] self.spec_missing(dir.cluster, other, MAX_CHAIN as nat)
                        &&& other.name@ == super::direntry::spec_padded(
                            super::direntry::spec_name_part(spec_trim(name.spec_bytes())),
                            8,
                        )
                        &&& other.ext@ == super::direntry::spec_padded(
                            super::direntry::spec_ext_part(spec_trim(name.spec_bytes())),
                            3,
                        )
                    };
                assert(other.name =~= short_name.name);
                assert(other.ext =~= short_name.ext);
                assert(other == short_name);
            }
        }
        entry
    }
}

/// Whether a path with the bytes `path` names the root directory: it has
/// no part between its slashes.
pub open spec fn spec_is_root_path(path: Seq<u8>) -> bool {
    forall|i: int| 0 <= i < path.len() ==> path[i] == 0x2F
}

/// A path while it is read: the parts that are complete, and the bytes of
/// the part that is being read.
pub struct PathParts {
    pub done: Seq<Seq<u8>>,
    pub part: Seq<u8>,
}

/// The parts `done` of a path with the part `part` behind them, where it
/// is not empty.
pub open spec fn spec_with_part(done: Seq<Seq<u8>>, part: Seq<u8>) -> Seq<Seq<u8>> {
    if part.len() > 0 {
        done.push(part)
    } else {
        done
    }
}

/// The path `path` read byte by byte: a slash ends a part, any other byte
/// joins the part that is being read.
pub open spec fn spec_read_parts(path: Seq<u8>) -> PathParts
    decreases path.len(),
{
    if path.len() == 0 {
        PathParts { done: Seq::empty(), part: Seq::empty() }
    } else {
        let before = spec_read_parts(path.drop_last());
        if path.last() == 0x2F {
            PathParts { done: spec_with_part(before.done, before.part), part: Seq::empty() }
        } else {
            PathParts { done: before.done, part: before.part.push(path.last()) }
        }
    }
}

/// The parts of the path `path`: what stands between its slashes, without
/// the empty parts.
pub open spec fn spec_parts(path: Seq<u8>) -> Seq<Seq<u8>> {
    spec_with_part(spec_read_parts(path).done, spec_read_parts(path).part)
}

impl<T: BlockDevice> Fat16Impl<T> {
    /// Whether `to` is the directory named by the bytes `part` in the
    /// directory `from`: its entry is the entry of that name there, and is
    /// a directory.
    pub open spec fn spec_descends(&self, from: Directory, part: Seq<u8>, to: Directory) -> bool {
        exists|short_name: ShortFileName|
            {
                &&& to.entry is Some
                &&& #[trigger] self.spec_is_entry(from.cluster, to.entry->0, short_name)
                &&& short_name.name@ == super::direntry::spec_padded(
                    super::direntry::spec_name_part(spec_trim(part)),
                    8,
                )
                &&& short_name.ext@ == super::direntry::spec_padded(
                    super::direntry::spec_ext_part(spec_trim(part)),
                    3,
                )
                &&& to.entry->0.spec_is_directory()
                &&& to.cluster == to.entry->0.cluster
                &&& valid_utf8(part)
                &&& spec_name_error(part, spec_trim(part)) is None
            }
    }

    /// Whether the directory `from` holds a directory named by the bytes
    /// `part`.
    pub open spec fn spec_has_below(&self, from: Directory, part: Seq<u8>) -> bool {
        exists|to: Directory| #[trigger] self.spec_descends(from, part, to)
    }

    /// Whether `dirs` are the directories on the way from the root
    /// directory through the directories named by `parts`, one in the
    /// other: the root directory first, then the directory of each part.
    pub open spec fn spec_way(&self, parts: Seq<Seq<u8>>, dirs: Seq<Directory>) -> bool {
        &&& dirs.len() == parts.len() + 1
        &&& dirs[0].cluster == Cluster(CLUSTER_ROOT_DIR)
        &&& dirs[0].entry is None
        &&& forall|i: int|
            0 <= i < parts.len() ==> self.spec_descends(#[trigger] dirs[i], parts[i], dirs[i + 1])
    }

    /// Whether `dir` is the directory that is reached from the root
    /// directory through the directories named by `parts`, one in the
    /// other.
    pub open spec fn spec_reaches(&self, parts: Seq<Seq<u8>>, dir: Directory) -> bool {
        exists|dirs: Seq<Directory>| #[trigger] self.spec_way(parts, dirs) && dirs.last() == dir
    }

    /// Whether there is a way from the root directory through the
    /// directories named by `parts`, one in the other.
    pub open spec fn spec_leads(&self, parts: Seq<Seq<u8>>) -> bool {
        exists|dirs: Seq<Directory>| #[trigger] self.spec_way(parts, dirs)
    }

    /// A directory holds one directory of a name: what is reached by the
    /// same part from directories that start in the same cluster starts
    /// in the same cluster.
    pub proof fn lemma_descends_unique(
        &self,
        from: Directory,
        other_from: Directory,
        part: Seq<u8>,
        to: Directory,
        other_to: Directory,
    )
        requires
            from.cluster == other_from.cluster,
            self.spec_descends(from, part, to),
            self.spec_descends(other_from, part, other_to),
        ensures
            to.cluster == other_to.cluster,
    {
        let one = choose|one: ShortFileName|
            {
                &&& #[trigger] self.spec_is_entry(from.cluster, to.entry->0, one)
                &&& one.name@ == super::direntry::spec_padded(
                    super::direntry::spec_name_part(spec_trim(part)),
                    8,
                )
                &&& one.ext@ == super::direntry::spec_padded(
                    super::direntry::spec_ext_part(spec_trim(part)),
                    3,
                )
                &&& to.cluster == to.entry->0.cluster
            };
        let other = choose|other: ShortFileName|
            {
                &&& #[trigger] self.spec_is_entry(other_from.cluster, other_to.entry->0, other)
                &&& other.name@ == super::direntry::spec_padded(
                    super::direntry::spec_name_part(spec_trim(part)),
                    8,
                )
                &&& other.ext@ == super::direntry::spec_padded(
                    super::direntry::spec_ext_part(spec_trim(part)),
                    3,
                )
                &&& other_to.cluster == other_to.entry->0.cluster
            };
        assert(other.name =~= one.name);
        assert(other.ext =~= one.ext);
        assert(other == one);
        self.lemma_entry_unique(from.cluster, to.entry->0, other_to.entry->0, one);
    }

    /// There is one way through the directories that parts name: two ways
    /// whose first `k` parts are the same come to the same cluster after
    /// them.
    pub proof fn lemma_way_unique(
        &self,
        parts: Seq<Seq<u8>>,
        dirs: Seq<Directory>,
        other_parts: Seq<Seq<u8>>,
        other_dirs: Seq<Directory>,
        k: int,
    )
        requires
            self.spec_way(parts, dirs),
            self.spec_way(other_parts, other_dirs),
            0 <= k <= parts.len(),
            k <= other_parts.len(),
            forall|j: int| 0 <= j < k ==> parts[j] == other_parts[j],
        ensures
            dirs[k].cluster == other_dirs[k].cluster,
        decreases k,
    {
        if k > 0 {
            self.lemma_way_unique(parts, dirs, other_parts, other_dirs, k - 1);
            assert(self.spec_descends(dirs[k - 1], parts[k - 1], dirs[k - 1 + 1]));
            assert(self.spec_descends(
                other_dirs[k - 1],
                other_parts[k - 1],
                other_dirs[k - 1 + 1],
            ));
            self.lemma_descends_unique(
                dirs[k - 1],
                other_dirs[k - 1],
                parts[k - 1],
                dirs[k],
                other_dirs[k],
            );
        }
    }

    /// Where a way through the parts `done` ends in a directory that
    /// holds no directory named `part`, no way leads through parts that
    /// go on with `part` after `done`.
    pub proof fn lemma_no_way(
        &self,
        parts: Seq<Seq<u8>>,
        done: Seq<Seq<u8>>,
        dirs: Seq<Directory>,
        part: Seq<u8>,
    )
        requires
            self.spec_way(done, dirs),
            !self.spec_has_below(dirs.last(), part),
            done.len() < parts.len(),
            forall|j: int| 0 <= j < done.len() ==> parts[j] == done[j],
            parts[done.len() as int] == part,
        ensures
            !self.spec_leads(parts),
    {
        let k = done.len() as int;
        assert forall|way: Seq<Directory>| !self.spec_way(parts, way) by {
            if self.spec_way(parts, way) {
                self.lemma_way_unique(parts, way, done, dirs, k);
                assert(self.spec_descends(way[k], parts[k], way[k + 1]));
                assert(dirs.last() == dirs[k]);
                assert(self.spec_descends(dirs.last(), part, way[k + 1]));
            }
        }
    }

    /// The directory that `root_path` names, from the root directory down.
    ///
    /// The parts of the path are what stands between its slashes; empty
    /// parts do not count. A path without parts names the root directory.
    /// Else each part is looked for in the directory that the parts before
    /// it name, as [`Fat16Impl::name_to_entry`] does, and has to be a
    /// directory. `None` where a part is not found or is no directory. On
    /// a reliable device the directory is found wherever there is a way
    /// through the parts.
    pub fn parse_path(&self, root_path: &str) -> (dir: Option<Directory>)
        requires
            self.wf(),
        ensures
            spec_is_root_path(root_path.spec_bytes()) ==> (dir matches Some(d) && d.cluster
                == Cluster(CLUSTER_ROOT_DIR) && d.entry is None),
            dir matches Some(d) ==> self.spec_reaches(spec_parts(root_path.spec_bytes()), d),
            self.inner.reliable() ==> (dir is Some <==> self.spec_leads(
                spec_parts(root_path.spec_bytes()),
            )),
    {
        let bytes = root_path.as_bytes();
        let mut cur_dir = Directory::new(Cluster(CLUSTER_ROOT_DIR));
        let mut start: usize = 0;
        let mut i: usize = 0;
        let mut found_part: bool = false;
        let ghost mut dirs: Seq<Directory> = seq![cur_dir];
        proof {
            assert(bytes@.take(0) =~= Seq::<u8>::empty());
            assert(bytes@.subrange(0, 0) =~= Seq::<u8>::empty());
        }
        while i < bytes.len()
            invariant
                0 <= start <= i <= bytes.len(),
                self.wf(),
                bytes@ == root_path.spec_bytes(),
                forall|j: int| start <= j < i ==> bytes@[j] != 0x2F,
                !found_part ==> forall|j: int| 0 <= j < start ==> bytes@[j] == 0x2F,
                found_part ==> !spec_is_root_path(bytes@),
                spec_read_parts(bytes@.take(i as int)).part == bytes@.subrange(
                    start as int,
                    i as int,
                ),
                self.spec_way(spec_read_parts(bytes@.take(i as int)).done, dirs),
                dirs.last() == cur_dir,
            decreases bytes.len() - i,
        {
            let ghost before = spec_read_parts(bytes@.take(i as int));
            proof {
                assert(bytes@.take(i + 1).drop_last() =~= bytes@.take(i as int));
                assert(bytes@.take(i + 1).last() == bytes@[i as int]);
            }
            if bytes[i] == 0x2F {
                if i > start {
                    assert(bytes@[start as int] != 0x2F);
                    let part = vstd::slice::slice_subrange(bytes, start, i);
                    let ghost above = cur_dir;
                    cur_dir = match self.descend(&cur_dir, part) {
                        Some(dir) => dir,
                        None => {
                            proof {
                                if self.inner.reliable() {
                                    lemma_parts_stay(bytes@, i + 1);
                                    self.lemma_no_way(
                                        spec_parts(bytes@),
                                        before.done,
                                        dirs,
                                        part@,
                                    );
                                }
                            }
                            return None;
                        },
                    };
                    found_part = true;
                    proof {
                        let done = before.done.push(before.part);
                        let way = dirs.push(cur_dir);
                        assert forall|k: int| 0 <= k < done.len() implies self.spec_descends(
                            #[trigger] way[k],
                            done[k],
                            way[k + 1],
                        ) by {
                            if k < before.done.len() {
                                assert(self.spec_descends(dirs[k], before.done[k], dirs[k + 1]));
                            }
                        }
                        dirs = way;
                    }
                }
                start = i + 1;
                assert(bytes@.subrange(start as int, i + 1) =~= Seq::<u8>::empty());
            } else {
                assert(bytes@.subrange(start as int, i as int).push(bytes@[i as int])
                    =~= bytes@.subrange(start as int, i + 1));
            }
            i = i + 1;
        }
        assert(bytes@.take(i as int) =~= bytes@);
        if i > start {
            assert(bytes@[start as int] != 0x2F);
            let part = vstd::slice::slice_subrange(bytes, start, i);
            let ghost above = cur_dir;
            let ghost before = spec_read_parts(bytes@);
            cur_dir = match self.descend(&cur_dir, part) {
                Some(dir) => dir,
                None => {
                    proof {
                        if self.inner.reliable() {
                            self.lemma_no_way(spec_parts(bytes@), before.done, dirs, part@);
                        }
                    }
                    return None;
                },
            };
            found_part = true;
            proof {
                let done = before.done.push(before.part);
                let way = dirs.push(cur_dir);
                assert forall|k: int| 0 <= k < done.len() implies self.spec_descends(
                    #[trigger] way[k],
                    done[k],
                    way[k + 1],
                ) by {
                    if k < before.done.len() {
                        assert(self.spec_descends(dirs[k], before.done[k], dirs[k + 1]));
                    }
                }
                dirs = way;
            }
        }
        proof {
            if spec_is_root_path(bytes@) {
                assert(!found_part);
                lemma_root_path_has_no_parts(bytes@);
            }
            assert(self.spec_way(spec_parts(bytes@), dirs));
        }
        Some(cur_dir)
    }

    /// The directory named by `part`, the bytes of one part of a path, in
    /// the directory `dir`; `None` where it is not found there or is no
    /// directory. On a reliable device it is found wherever `dir` holds a
    /// directory of that name.
    fn descend(&self, dir: &Directory, part: &[u8]) -> (below: Option<Directory>)
        requires
            self.wf(),
        ensures
            !valid_utf8(part@) || spec_name_error(part@, spec_trim(part@)) is Some
                || !Self::spec_is_cluster(dir.cluster) ==> below is None,
            below matches Some(d) ==> self.spec_descends(*dir, part@, d),
            self.inner.reliable() ==> (below is Some <==> self.spec_has_below(*dir, part@)),
    {
        let name = match utf8_str(part) {
            Some(name) => name,
            None => {
                return None;
            },
        };
        let entry = match self.name_to_entry(dir, name) {
            Ok(entry) => entry,
            Err(_) => {
                proof {
                    if self.inner.reliable() {
                        assert forall|to: Directory| !self.spec_descends(*dir, part@, to) by {
                            if self.spec_descends(*dir, part@, to) {
                                let other = choose|other: ShortFileName|
                                    {
                                        &&& to.entry is Some
                                        &&& #[trigger] self.spec_is_entry(
                                            dir.cluster,
                                            to.entry->0,
                                            other,
                                        )
                                        &&& other.name@ == super::direntry::spec_padded(
                                            super::direntry::spec_name_part(spec_trim(part@)),
                                            8,
                                        )
                                        &&& other.ext@ == super::direntry::spec_padded(
                                            super::direntry::spec_ext_part(spec_trim(part@)),
                                            3,
                                        )
                                    };
                                assert(self.spec_has_entry(dir.cluster, other));
                                assert(self.spec_has_named(dir.cluster, part@));
                            }
                        }
                    }
                }
                return None;
            },
        };
        let ghost short_name = choose|short_name: ShortFileName|
            #[trigger] self.spec_is_entry(dir.cluster, entry, short_name) && short_name.name@
                == super::direntry::spec_padded(
                super::direntry::spec_name_part(spec_trim(name.spec_bytes())),
                8,
            ) && short_name.ext@ == super::direntry::spec_padded(
                super::direntry::spec_ext_part(spec_trim(name.spec_bytes())),
                3,
            );
        if !entry.is_directory() {
            proof {
                assert forall|to: Directory| !self.spec_descends(*dir, part@, to) by {
                    if self.spec_descends(*dir, part@, to) {
                        let other = choose|other: ShortFileName|
                            {
                                &&& to.entry is Some
                                &&& #[trigger] self.spec_is_entry(dir.cluster, to.entry->0, other)
                                &&& other.name@ == super::direntry::spec_padded(
                                    super::direntry::spec_name_part(spec_trim(part@)),
                                    8,
                                )
                                &&& other.ext@ == super::direntry::spec_padded(
                                    super::direntry::spec_ext_part(spec_trim(part@)),
                                    3,
                                )
                                &&& to.entry->0.spec_is_directory()
                            };
                        assert(other.name =~= short_name.name);
                        assert(other.ext =~= short_name.ext);
                        assert(other == short_name);
                        self.lemma_entry_unique(dir.cluster, entry, to.entry->0, short_name);
                    }
                }
            }
            return None;
        }
        let below = Directory::from_entry(entry);
        proof {
            assert(self.spec_is_entry(dir.cluster, below.entry->0, short_name));
            assert(self.spec_descends(*dir, part@, below));
        }
        Some(below)
    }
}

/// The parts that are complete after the first `i` bytes of a path stay
/// the first parts as the rest of the path is read.
pub proof fn lemma_parts_stay(path: Seq<u8>, i: int)
    requires
        0 <= i <= path.len(),
    ensures
        spec_read_parts(path.take(i)).done.len() <= spec_read_parts(path).done.len(),
        spec_read_parts(path).done.len() <= spec_parts(path).len(),
        forall|k: int|
            0 <= k < spec_read_parts(path.take(i)).done.len() ==> spec_read_parts(path).done[k]
                == spec_read_parts(path.take(i)).done[k],
        forall|k: int|
            0 <= k < spec_read_parts(path).done.len() ==> spec_parts(path)[k] == spec_read_parts(
                path,
            ).done[k],
    decreases path.len(),
{
    if i == path.len() {
        assert(path.take(i) =~= path);
    } else {
        assert(path.take(i) =~= path.drop_last().take(i));
        lemma_parts_stay(path.drop_last(), i);
    }
}

/// A path of slashes alone has no parts.
pub proof fn lemma_root_path_has_no_parts(path: Seq<u8>)
    requires
        spec_is_root_path(path),
    ensures
        spec_read_parts(path).done.len() == 0,
        spec_read_parts(path).part.len() == 0,
        spec_parts(path).len() == 0,
    decreases path.len(),
{
    if path.len() > 0 {
        assert(path.last() == path[path.len() - 1]);
        assert forall|i: int| 0 <= i < path.drop_last().len() implies path.drop_last()[i]
            == 0x2F by {
            assert(path.drop_last()[i] == path[i]);
        }
        lemma_root_path_has_no_parts(path.drop_last());
    }
}

} // verus!
