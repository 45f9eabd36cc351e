//! The FAT16 volume as a file system: paths, files and directories.

use vstd::prelude::*;
use vstd::string::StringSliceAdditionalSpecFns;
use std::sync::Arc;
use crate::storage::{Block, BlockDevice, FsError, Metadata};
use super::direntry::{utf8_str, Cluster, DirEntry, CLUSTER_END_OF_FILE, CLUSTER_ROOT_DIR};
use super::file::File;
use super::impls::{spec_is_root_path, ENTRIES_PER_BLOCK, MAX_CHAIN};
use super::{Directory, Fat16Impl};

verus! {

/// A FAT16 file system.
pub struct Fat16<T: BlockDevice> {
    pub handle: Arc<Fat16Impl<T>>,
}

/// An open file with what the file system tells of it.
pub struct FileHandle<T: BlockDevice> {
    pub meta: Metadata,
    pub file: File<T>,
}

/// The place of the last slash in `path`, or -1 where it has none.
pub open spec fn spec_last_slash(path: Seq<u8>) -> int
    decreases path.len(),
{
    if path.len() == 0 {
        -1
    } else if path.last() == 0x2F {
        path.len() - 1
    } else {
        spec_last_slash(path.drop_last())
    }
}

/// The last slash lies within the path, is a slash, and no slash follows
/// it.
pub proof fn lemma_last_slash(path: Seq<u8>)
    ensures
        -1 <= spec_last_slash(path) < path.len(),
        spec_last_slash(path) >= 0 ==> path[spec_last_slash(path)] == 0x2F,
        forall|j: int| spec_last_slash(path) < j < path.len() ==> path[j] != 0x2F,
    decreases path.len(),
{
    if path.len() > 0 && path.last() != 0x2F {
        lemma_last_slash(path.drop_last());
        assert forall|j: int| spec_last_slash(path) < j < path.len() implies path[j] != 0x2F by {
            if j < path.len() - 1 {
                assert(path.drop_last()[j] == path[j]);
            }
        }
    }
}

/// Where `i` names a slash that no slash follows, or is -1 and the path
/// has no slash, `i` is the place of the last slash.
pub proof fn lemma_last_slash_is(path: Seq<u8>, i: int)
    requires
        -1 <= i < path.len(),
        i >= 0 ==> path[i] == 0x2F,
        forall|j: int| i < j < path.len() ==> path[j] != 0x2F,
    ensures
        spec_last_slash(path) == i,
    decreases path.len(),
{
    if path.len() > 0 && i < path.len() - 1 {
        assert(path.last() != 0x2F);
        assert forall|j: int| i < j < path.drop_last().len() implies path.drop_last()[j]
            != 0x2F by {
            assert(path.drop_last()[j] == path[j]);
        }
        if i >= 0 {
            assert(path.drop_last()[i] == path[i]);
        }
        lemma_last_slash_is(path.drop_last(), i);
    }
}

/// The place of the last slash in `path`, or `None` where it has none.
pub fn last_slash(path: &[u8]) -> (place: Option<usize>)
    ensures
        match place {
            Some(i) => spec_last_slash(path@) == i && i < path@.len(),
            None => spec_last_slash(path@) == -1,
        },
{
    let mut i: usize = path.len();
    while i > 0
        invariant
            0 <= i <= path.len(),
            forall|j: int| i <= j < path.len() ==> path@[j] != 0x2F,
        decreases i,
    {
        if path[i - 1] == 0x2F {
            proof {
                lemma_last_slash_is(path@, i - 1);
            }
            return Some(i - 1);
        }
        i = i - 1;
    }
    proof {
        lemma_last_slash_is(path@, -1);
    }
    None
}

/// Whether a path with the bytes `path` names the root directory: it has
/// no part between its slashes.
pub fn is_root_path(path: &[u8]) -> (root: bool)
    ensures
        root == spec_is_root_path(path@),
{
    let mut i: usize = 0;
    while i < path.len()
        invariant
            0 <= i <= path.len(),
            forall|j: int| 0 <= j < i ==> path@[j] == 0x2F,
        decreases path.len() - i,
    {
        if path[i] != 0x2F {
            return false;
        }
        i = i + 1;
    }
    true
}

/// Whether `meta` is what the file system tells of `entry`.
pub open spec fn spec_meta_of(meta: Metadata, entry: DirEntry) -> bool {
    &&& meta.entry_type == (if entry.spec_is_directory() {
        crate::storage::FileType::Directory
    } else {
        crate::storage::FileType::File
    })
    &&& meta.name@ == entry.spec_filename()
    &&& meta.len == entry.size
    &&& meta.created == Some(entry.created_time)
    &&& meta.accessed == Some(entry.accessed_time)
    &&& meta.modified == Some(entry.modified_time)
}

/// Whether `entry` is the entry number `i` of the block `block` of a
/// directory.
pub open spec fn spec_slot_holds(block: Seq<u8>, i: int, entry: DirEntry) -> bool {
    0 <= i < ENTRIES_PER_BLOCK && DirEntry::spec_parsed(block.subrange(i * 32, i * 32 + 32), entry)
}

/// Whether `meta` is what the file system tells of an entry of the block
/// `block` of a directory that is in use and holds no part of a long name.
pub open spec fn spec_listed_in(block: Seq<u8>, meta: Metadata) -> bool {
    exists|i: int, entry: DirEntry|
        {
            &&& #[trigger] spec_slot_holds(block, i, entry)
            &&& entry.spec_is_valid()
            &&& !entry.spec_is_long_name()
            &&& spec_meta_of(meta, entry)
        }
}

/// Whether the entry number `i` of the block `block` of a directory is
/// shown in a listing: it is in use, does not mark the end, and holds no
/// part of a long name.
pub open spec fn spec_slot_shown(block: Seq<u8>, i: int) -> bool {
    let data = block.subrange(i * 32, i * 32 + 32);
    &&& !(data[0] == 0x00 && data[8] == 0x00)
    &&& data[0] != 0xE5
    &&& (data[11] & super::direntry::ATTR_ALL) & super::direntry::ATTR_LFN
        != super::direntry::ATTR_LFN
}

/// Whether `meta` is what the file system tells of the entry number `i`
/// of the block `block` of a directory.
pub open spec fn spec_slot_meta(block: Seq<u8>, i: int, meta: Metadata) -> bool {
    exists|entry: DirEntry| #[trigger] spec_slot_holds(block, i, entry) && spec_meta_of(meta, entry)
}

/// The places of the entries that are shown among the first `upto` of the
/// block `block`, which is the sector `sector`: each with its sector and
/// its number in the block, in the order of the block.
pub open spec fn spec_block_slots(block: Seq<u8>, sector: int, upto: int) -> Seq<(int, int)>
    decreases upto,
{
    if upto <= 0 {
        Seq::empty()
    } else if spec_slot_shown(block, upto - 1) {
        spec_block_slots(block, sector, upto - 1).push((sector, upto - 1))
    } else {
        spec_block_slots(block, sector, upto - 1)
    }
}

impl<T: BlockDevice> Fat16Impl<T> {
    /// The places of the entries that are shown in the `count` sectors
    /// from `first` on, in their order.
    pub open spec fn spec_sector_slots(&self, first: int, count: nat) -> Seq<(int, int)>
        decreases count,
    {
        if count == 0 {
            Seq::empty()
        } else {
            self.spec_sector_slots(first, (count - 1) as nat) + spec_block_slots(
                self.inner.blocks()[first + count - 1],
                first + count - 1,
                ENTRIES_PER_BLOCK as int,
            )
        }
    }

    /// The cluster number `n` of the directory that starts in `cluster`,
    /// counted from 0, or `None` where the directory has fewer. The root
    /// directory has one; any other goes on as its chain does.
    pub open spec fn spec_dir_cluster(&self, cluster: Cluster, n: nat) -> Option<Cluster>
        decreases n,
    {
        if n == 0 {
            Some(cluster)
        } else {
            match self.spec_dir_cluster(cluster, (n - 1) as nat) {
                Some(last) => if last.0 == CLUSTER_ROOT_DIR {
                    None
                } else {
                    match self.spec_next_cluster(last) {
                        Some(Ok(next)) => if next.0 == CLUSTER_END_OF_FILE {
                            None
                        } else {
                            Some(next)
                        },
                        _ => None,
                    }
                },
                None => None,
            }
        }
    }

    /// The places of the entries that are shown in the first `n` clusters
    /// of the directory that starts in `cluster`, in the order of the
    /// directory.
    pub open spec fn spec_dir_slots(&self, cluster: Cluster, n: nat) -> Seq<(int, int)>
        decreases n,
    {
        if n == 0 {
            Seq::empty()
        } else {
            self.spec_dir_slots(cluster, (n - 1) as nat) + (match self.spec_dir_cluster(
                cluster,
                (n - 1) as nat,
            ) {
                Some(last) => self.spec_sector_slots(
                    self.spec_cluster_to_sector(last),
                    self.spec_sector_count(last),
                ),
                None => Seq::empty(),
            })
        }
    }
}

/// Whether the name of the entry number `i` of the block `block` of a
/// directory can be shown: both of its parts are UTF-8.
pub open spec fn spec_slot_named(block: Seq<u8>, i: int) -> bool {
    vstd::utf8::valid_utf8(block.subrange(i * 32, i * 32 + 8)) && vstd::utf8::valid_utf8(
        block.subrange(i * 32 + 8, i * 32 + 11),
    )
}

impl<T: BlockDevice> Fat16Impl<T> {
    /// Whether the `count` sectors from `first` on can be listed: the
    /// device holds them, and the name of each entry that is shown there
    /// can be shown.
    pub open spec fn spec_sectors_listable(&self, first: int, count: nat) -> bool {
        &&& count > 0 ==> first + count <= self.inner.blocks().len()
        &&& forall|sector: int, i: int|
            first <= sector < first + count && 0 <= i < ENTRIES_PER_BLOCK && #[trigger] spec_slot_shown(
                self.inner.blocks()[sector],
                i,
            ) ==> spec_slot_named(self.inner.blocks()[sector], i)
    }

    /// Whether the directory that starts in `cluster` can be listed
    /// through at most `fuel` clusters: each of its clusters is one of a
    /// FAT16 volume and can be listed, and the file allocation table tells
    /// the cluster that follows, up to the end of the chain.
    pub open spec fn spec_dir_listable(&self, cluster: Cluster, fuel: nat) -> bool
        decreases fuel,
    {
        &&& fuel > 0
        &&& Self::spec_is_cluster(cluster)
        &&& self.spec_sectors_listable(
            self.spec_cluster_to_sector(cluster),
            self.spec_sector_count(cluster),
        )
        &&& (cluster.0 == CLUSTER_ROOT_DIR || (match self.spec_next_cluster(cluster) {
            Some(Ok(next)) => next.0 == CLUSTER_END_OF_FILE || self.spec_dir_listable(
                next,
                (fuel - 1) as nat,
            ),
            _ => false,
        }))
    }

    /// A directory that has no cluster number `n` has none behind it, and
    /// no entries there.
    pub proof fn lemma_slots_end(&self, cluster: Cluster, n: nat, m: nat)
        requires
            self.spec_dir_cluster(cluster, n) is None,
            n <= m,
        ensures
            self.spec_dir_cluster(cluster, m) is None,
            self.spec_dir_slots(cluster, m) == self.spec_dir_slots(cluster, n),
        decreases m,
    {
        if m > n {
            self.lemma_slots_end(cluster, n, (m - 1) as nat);
            assert(self.spec_dir_slots(cluster, m) =~= self.spec_dir_slots(
                cluster,
                (m - 1) as nat,
            ));
        }
    }
}

/// What stands before the last slash of `path`; nothing where it has
/// none.
pub open spec fn spec_parent(path: Seq<u8>) -> Seq<u8> {
    if spec_last_slash(path) >= 0 {
        path.subrange(0, spec_last_slash(path))
    } else {
        Seq::empty()
    }
}

/// What stands behind the last slash of `path`; all of it where it has
/// none.
pub open spec fn spec_file_name(path: Seq<u8>) -> Seq<u8> {
    path.subrange(spec_last_slash(path) + 1, path.len() as int)
}

/// Whether the path `path` ends in a slash.
pub open spec fn spec_ends_in_slash(path: Seq<u8>) -> bool {
    path.len() > 0 && spec_last_slash(path) == path.len() - 1
}

/// Whether what stands before the last slash of `path` and what stands
/// behind it are UTF-8, and what stands behind it is a short file name.
pub open spec fn spec_well_named(path: Seq<u8>) -> bool {
    &&& vstd::utf8::valid_utf8(spec_parent(path))
    &&& vstd::utf8::valid_utf8(spec_file_name(path))
    &&& super::direntry::spec_name_error(
        spec_file_name(path),
        super::direntry::spec_trim(spec_file_name(path)),
    ) is None
}

impl<T: BlockDevice> Fat16<T> {
    /// Whether `entry` is the entry that the path `path` names: the entry
    /// named by what stands behind its last slash, in the directory that
    /// is reached through what stands before it.
    pub open spec fn spec_names(&self, path: Seq<u8>, entry: DirEntry) -> bool {
        exists|dir: Directory, short_name: super::direntry::ShortFileName|
            {
                &&& self.handle.spec_reaches(super::impls::spec_parts(spec_parent(path)), dir)
                &&& #[trigger] self.handle.spec_is_entry(dir.cluster, entry, short_name)
                &&& short_name.name@ == super::direntry::spec_padded(
                    super::direntry::spec_name_part(
                        super::direntry::spec_trim(spec_file_name(path)),
                    ),
                    8,
                )
                &&& short_name.ext@ == super::direntry::spec_padded(
                    super::direntry::spec_ext_part(
                        super::direntry::spec_trim(spec_file_name(path)),
                    ),
                    3,
                )
                &&& spec_well_named(path)
            }
    }

    /// Whether the path `path` names an entry: the directory that is
    /// reached through what stands before its last slash has an entry
    /// named by what stands behind it.
    pub open spec fn spec_found(&self, path: Seq<u8>) -> bool {
        &&& spec_well_named(path)
        &&& exists|dir: Directory|
            #[trigger] self.handle.spec_reaches(super::impls::spec_parts(spec_parent(path)), dir)
                && self.handle.spec_has_named(dir.cluster, spec_file_name(path))
    }

    /// Whether the path `path` names nothing: no way leads through what
    /// stands before its last slash, or the directory that is reached
    /// there has no entry named by what stands behind it.
    pub open spec fn spec_absent(&self, path: Seq<u8>) -> bool {
        &&& !spec_ends_in_slash(path)
        &&& {
            ||| !vstd::utf8::valid_utf8(spec_parent(path))
            ||| !vstd::utf8::valid_utf8(spec_file_name(path))
            ||| !self.handle.spec_leads(super::impls::spec_parts(spec_parent(path)))
            ||| (spec_well_named(path) && exists|dir: Directory|
                #[trigger] self.handle.spec_reaches(
                    super::impls::spec_parts(spec_parent(path)),
                    dir,
                ) && self.handle.spec_missing_named(dir.cluster, spec_file_name(path)))
        }
    }

    /// A path names one entry: two entries that `path` names hold the
    /// same.
    pub proof fn lemma_names_unique(&self, path: Seq<u8>, one: DirEntry, other: DirEntry)
        requires
            self.spec_names(path, one),
            self.spec_names(path, other),
        ensures
            one.filename.name@ == other.filename.name@,
            one.filename.ext@ == other.filename.ext@,
            one.attributes == other.attributes,
            one.cluster == other.cluster,
            one.size == other.size,
            one.created_time == other.created_time,
            one.accessed_time == other.accessed_time,
            one.modified_time == other.modified_time,
    {
        let parts = super::impls::spec_parts(spec_parent(path));
        let (dir, name) = choose|dir: Directory, name: super::direntry::ShortFileName|
            {
                &&& self.handle.spec_reaches(parts, dir)
                &&& #[trigger] self.handle.spec_is_entry(dir.cluster, one, name)
                &&& name.name@ == super::direntry::spec_padded(
                    super::direntry::spec_name_part(
                        super::direntry::spec_trim(spec_file_name(path)),
                    ),
                    8,
                )
                &&& name.ext@ == super::direntry::spec_padded(
                    super::direntry::spec_ext_part(
                        super::direntry::spec_trim(spec_file_name(path)),
                    ),
                    3,
                )
            };
        let (other_dir, other_name) = choose|dir: Directory, name: super::direntry::ShortFileName|
            {
                &&& self.handle.spec_reaches(parts, dir)
                &&& #[trigger] self.handle.spec_is_entry(dir.cluster, other, name)
                &&& name.name@ == super::direntry::spec_padded(
                    super::direntry::spec_name_part(
                        super::direntry::spec_trim(spec_file_name(path)),
                    ),
                    8,
                )
                &&& name.ext@ == super::direntry::spec_padded(
                    super::direntry::spec_ext_part(
                        super::direntry::spec_trim(spec_file_name(path)),
                    ),
                    3,
                )
            };
        self.lemma_same_cluster(parts, dir, other_dir);
        assert(other_name.name =~= name.name);
        assert(other_name.ext =~= name.ext);
        assert(other_name == name);
        self.handle.lemma_entry_unique(dir.cluster, one, other, name);
    }

    /// Parts lead to one directory: two directories that are reached
    /// through `parts` start in the same cluster.
    pub proof fn lemma_same_cluster(&self, parts: Seq<Seq<u8>>, dir: Directory, other: Directory)
        requires
            self.handle.spec_reaches(parts, dir),
            self.handle.spec_reaches(parts, other),
        ensures
            dir.cluster == other.cluster,
    {
        let way = choose|way: Seq<Directory>| #[trigger]
            self.handle.spec_way(parts, way) && way.last() == dir;
        let other_way = choose|way: Seq<Directory>| #[trigger]
            self.handle.spec_way(parts, way) && way.last() == other;
        self.handle.lemma_way_unique(parts, way, parts, other_way, parts.len() as int);
    }

    /// An entry that a path names is found.
    pub proof fn lemma_names_found(&self, path: Seq<u8>, entry: DirEntry)
        requires
            self.spec_names(path, entry),
        ensures
            self.spec_found(path),
    {
        let (dir, name) = choose|dir: Directory, name: super::direntry::ShortFileName|
            {
                &&& self.handle.spec_reaches(super::impls::spec_parts(spec_parent(path)), dir)
                &&& #[trigger] self.handle.spec_is_entry(dir.cluster, entry, name)
                &&& name.name@ == super::direntry::spec_padded(
                    super::direntry::spec_name_part(
                        super::direntry::spec_trim(spec_file_name(path)),
                    ),
                    8,
                )
                &&& name.ext@ == super::direntry::spec_padded(
                    super::direntry::spec_ext_part(
                        super::direntry::spec_trim(spec_file_name(path)),
                    ),
                    3,
                )
            };
        assert(self.handle.spec_has_entry(dir.cluster, name));
        assert(self.handle.spec_has_named(dir.cluster, spec_file_name(path)));
        assert(self.handle.spec_reaches(super::impls::spec_parts(spec_parent(path)), dir));
    }

    /// Whether the path `path` names an entry whose name can be shown.
    pub open spec fn spec_names_shown(&self, path: Seq<u8>) -> bool {
        exists|entry: DirEntry| #[trigger] self.spec_names(path, entry) && entry.spec_name_shown()
    }

    /// Whether the path `path` names a file whose name can be shown.
    pub open spec fn spec_names_file(&self, path: Seq<u8>) -> bool {
        exists|entry: DirEntry| #[trigger]
            self.spec_names(path, entry) && entry.spec_name_shown() && !entry.spec_is_directory()
    }

    /// Whether the path `path` names a directory whose name can be shown.
    pub open spec fn spec_names_dir(&self, path: Seq<u8>) -> bool {
        exists|entry: DirEntry| #[trigger]
            self.spec_names(path, entry) && entry.spec_name_shown() && entry.spec_is_directory()
    }

    /// Whether `list` is the listing of the first `clusters` clusters of
    /// `dir`, the directory that `path` names: for each entry that is
    /// shown there, in the order of the directory, what the file system
    /// tells of it.
    pub open spec fn spec_listing(
        &self,
        path: Seq<u8>,
        dir: Directory,
        clusters: nat,
        list: Seq<Metadata>,
    ) -> bool {
        let slots = self.handle.spec_dir_slots(dir.cluster, clusters);
        &&& self.handle.spec_reaches(super::impls::spec_parts(path), dir)
        &&& 1 <= clusters <= MAX_CHAIN
        &&& list.len() == slots.len()
        &&& forall|k: int|
            0 <= k < list.len() ==> spec_slot_meta(
                self.handle.inner.blocks()[slots[k].0],
                slots[k].1,
                #[trigger] list[k],
            )
    }

    /// Whether the directory that `path` names can be listed, as
    /// [`Fat16Impl::spec_dir_listable`] says.
    pub open spec fn spec_listable(&self, path: Seq<u8>) -> bool {
        exists|dir: Directory|
            #[trigger] self.handle.spec_reaches(super::impls::spec_parts(path), dir)
                && self.handle.spec_dir_listable(dir.cluster, MAX_CHAIN as nat)
    }

    /// Whether `list` is the listing of the whole directory that `path`
    /// names.
    pub open spec fn spec_lists_whole(&self, path: Seq<u8>, list: Seq<Metadata>) -> bool {
        exists|dir: Directory| #[trigger] self.spec_listing(path, dir, MAX_CHAIN as nat, list)
    }

    /// Whether `list` is the listing of the directory that `path` names,
    /// through some of its clusters from the first on.
    pub open spec fn spec_lists_dir(&self, path: Seq<u8>, list: Seq<Metadata>) -> bool {
        exists|dir: Directory, clusters: nat| #[trigger]
            self.spec_listing(path, dir, clusters, list)
    }

    /// Whether `meta` is what the file system tells of an entry of a
    /// directory of the volume.
    pub open spec fn spec_lists(&self, meta: Metadata) -> bool {
        exists|sector: int|
            0 <= sector < self.handle.inner.blocks().len() && spec_listed_in(
                #[trigger] self.handle.inner.blocks()[sector],
                meta,
            )
    }

    /// The file system on the volume `handle`.
    pub fn new(handle: Fat16Impl<T>) -> (fs: Fat16<T>)
        ensures
            *fs.handle == handle,
    {
        Fat16 { handle: Arc::new(handle) }
    }

    /// The entry of the file or directory that `path` names: the entry
    /// named by what follows the last slash, in the directory named by what
    /// stands before it. A path that ends in a slash names no file. On a
    /// reliable device the entry is found wherever the path names one, and
    /// there is none where the path names nothing.
    fn lookup(&self, path: &[u8]) -> (entry: Result<Option<DirEntry>, FsError>)
        requires
            self.handle.wf(),
        ensures
            spec_ends_in_slash(path@) ==> entry == Err::<Option<DirEntry>, FsError>(
                FsError::NotAFile,
            ),
            entry matches Ok(Some(e)) ==> self.spec_names(path@, e),
            self.handle.inner.reliable() ==> (entry matches Ok(Some(_)) <==> !spec_ends_in_slash(
                path@,
            ) && self.spec_found(path@)),
            self.handle.inner.reliable() && self.spec_absent(path@) ==> entry == Ok::<
                Option<DirEntry>,
                FsError,
            >(None),
    {
        let (parent, name): (&[u8], &[u8]) = match last_slash(path) {
            None => (vstd::slice::slice_subrange(path, 0, 0), path),
            Some(idx) => {
                if idx == path.len() - 1 {
                    return Err(FsError::NotAFile);
                }
                (
                    vstd::slice::slice_subrange(path, 0, idx),
                    vstd::slice::slice_subrange(path, idx + 1, path.len()),
                )
            },
        };
        assert(parent@ =~= spec_parent(path@));
        assert(name@ =~= spec_file_name(path@));
        let parent = match utf8_str(parent) {
            Some(parent) => parent,
            None => {
                return Ok(None);
            },
        };
        let name = match utf8_str(name) {
            Some(name) => name,
            None => {
                return Ok(None);
            },
        };
        let ghost parts = super::impls::spec_parts(spec_parent(path@));
        let dir = match self.handle.parse_path(parent) {
            Some(dir) => dir,
            None => {
                proof {
                    if self.handle.inner.reliable() && self.spec_found(path@) {
                        let other = choose|other: Directory| #[trigger]
                            self.handle.spec_reaches(parts, other);
                        let way = choose|way: Seq<Directory>| #[trigger]
                            self.handle.spec_way(parts, way) && way.last() == other;
                        assert(self.handle.spec_leads(parts));
                    }
                }
                return Ok(None);
            },
        };
        let found = self.handle.name_to_entry(&dir, name);
        proof {
            let way = choose|way: Seq<Directory>| #[trigger]
                self.handle.spec_way(parts, way) && way.last() == dir;
            assert(self.handle.spec_leads(parts));
            if self.handle.inner.reliable() && self.spec_absent(path@) {
                let other = choose|other: Directory|
                    #[trigger] self.handle.spec_reaches(parts, other)
                        && self.handle.spec_missing_named(other.cluster, spec_file_name(path@));
                self.lemma_same_cluster(parts, dir, other);
                assert(found == Err::<DirEntry, FsError>(FsError::FileNotFound));
            }
            if self.handle.inner.reliable() && self.spec_found(path@) {
                let other = choose|other: Directory| #[trigger]
                    self.handle.spec_reaches(parts, other) && self.handle.spec_has_named(
                        other.cluster,
                        spec_file_name(path@),
                    );
                self.lemma_same_cluster(parts, dir, other);
                assert(found is Ok);
            }
        }
        match found {
            Ok(entry) => {
                proof {
                    let short_name = choose|short_name: super::direntry::ShortFileName|
                        #[trigger] self.handle.spec_is_entry(dir.cluster, entry, short_name)
                            && short_name.name@ == super::direntry::spec_padded(
                            super::direntry::spec_name_part(
                                super::direntry::spec_trim(name.spec_bytes()),
                            ),
                            8,
                        ) && short_name.ext@ == super::direntry::spec_padded(
                            super::direntry::spec_ext_part(
                                super::direntry::spec_trim(name.spec_bytes()),
                            ),
                            3,
                        );
                    assert(self.handle.spec_is_entry(dir.cluster, entry, short_name));
                    assert(self.handle.spec_has_entry(dir.cluster, short_name));
                    assert(self.handle.spec_has_named(dir.cluster, spec_file_name(path@)));
                    assert(self.spec_names(path@, entry));
                    assert(self.spec_found(path@));
                }
                Ok(Some(entry))
            },
            Err(FsError::FileNotFound) => Ok(None),
            Err(e) => Err(e),
        }
    }

    /// Whether `path` names a file or a directory.
    ///
    /// A path without parts names the root directory, which is there. Any
    /// other path that ends in a slash is an error. Else the result says
    /// whether the directory before the last slash is found and holds what
    /// follows it; an error of the device or of the name is handed on. On
    /// a reliable device the answer is yes exactly where the path names an
    /// entry.
    pub fn path_exists(&self, path: &str) -> (found: Result<bool, FsError>)
        requires
            self.handle.wf(),
        ensures
            spec_is_root_path(path.spec_bytes()) ==> found == Ok::<bool, FsError>(true),
            !spec_is_root_path(path.spec_bytes()) && spec_last_slash(path.spec_bytes())
                == path.spec_bytes().len() - 1 ==> found == Err::<bool, FsError>(
                FsError::NotAFile,
            ),
            !spec_is_root_path(path.spec_bytes()) && found == Ok::<bool, FsError>(true)
                ==> exists|entry: DirEntry| #[trigger] self.spec_names(path.spec_bytes(), entry),
            self.handle.inner.reliable() ==> (found == Ok::<bool, FsError>(true)
                <==> spec_is_root_path(path.spec_bytes()) || (!spec_ends_in_slash(
                path.spec_bytes(),
            ) && self.spec_found(path.spec_bytes()))),
            self.handle.inner.reliable() && !spec_is_root_path(path.spec_bytes())
                && self.spec_absent(path.spec_bytes()) ==> found == Ok::<bool, FsError>(false),
    {
        let bytes = path.as_bytes();
        if is_root_path(bytes) {
            return Ok(true);
        }
        match self.lookup(bytes) {
            Ok(Some(entry)) => {
                assert(self.spec_names(path.spec_bytes(), entry));
                Ok(true)
            },
            Ok(None) => Ok(false),
            Err(e) => Err(e),
        }
    }

    /// What the file system tells of the file or directory that `path`
    /// names.
    ///
    /// A path without parts names the root directory. Any other path that
    /// ends in a slash is an error. Else the entry is looked for as
    /// [`Fat16::path_exists`] does; what is told of it is what
    /// [`DirEntry::as_meta`] makes of it. An entry that is not found is an
    /// error, and so is one whose name is no UTF-8. On a reliable device
    /// every other entry that a path names is told of.
    pub fn metadata(&self, path: &str) -> (meta: Result<Metadata, FsError>)
        requires
            self.handle.wf(),
        ensures
            spec_is_root_path(path.spec_bytes()) ==> (meta matches Ok(m) && m.entry_type
                == crate::storage::FileType::Directory && m.name@ == "/"@ && m.len == 0),
            !spec_is_root_path(path.spec_bytes()) && spec_last_slash(path.spec_bytes())
                == path.spec_bytes().len() - 1 ==> meta is Err,
            !spec_is_root_path(path.spec_bytes()) ==> (meta matches Ok(m) ==> exists|
                entry: DirEntry,
            | #[trigger]
                self.spec_names(path.spec_bytes(), entry) && spec_meta_of(m, entry)
                    && entry.spec_name_shown()),
            self.handle.inner.reliable() ==> (meta is Ok <==> spec_is_root_path(path.spec_bytes())
                || (!spec_ends_in_slash(path.spec_bytes()) && self.spec_names_shown(
                path.spec_bytes(),
            ))),
            self.handle.inner.reliable() && !spec_is_root_path(path.spec_bytes())
                && self.spec_absent(path.spec_bytes()) ==> (meta matches Err(e) && e
                == FsError::FileNotFound),
    {
        let bytes = path.as_bytes();
        if is_root_path(bytes) {
            return Ok(Metadata::root());
        }
        let found = self.lookup(bytes);
        proof {
            if self.spec_names_shown(bytes@) {
                let other = choose|other: DirEntry| #[trigger]
                    self.spec_names(bytes@, other) && other.spec_name_shown();
                self.lemma_names_found(bytes@, other);
                match found {
                    Ok(Some(entry)) => {
                        self.lemma_names_unique(bytes@, entry, other);
                    },
                    _ => {},
                }
            }
        }
        match found {
            Ok(Some(entry)) => {
                if !entry.name_shown() {
                    return Err(
                        FsError::FileNameError(crate::storage::FilenameError::UnableToParse),
                    );
                }
                let meta = entry.as_meta();
                assert(self.spec_names(path.spec_bytes(), entry) && spec_meta_of(meta, entry)
                    && entry.spec_name_shown());
                Ok(meta)
            },
            Ok(None) => Err(FsError::FileNotFound),
            Err(e) => Err(e),
        }
    }

    /// Opens the file that `path` names, at its start.
    ///
    /// A path that ends in a slash, and one that names a directory, name
    /// no file. An entry that is not found is an error, and so is one
    /// whose name is no UTF-8. On a reliable device every other file that
    /// a path names is opened.
    pub fn open_file(&self, path: &str) -> (handle: Result<FileHandle<T>, FsError>)
        requires
            self.handle.wf(),
        ensures
            path.spec_bytes().len() > 0 && spec_last_slash(path.spec_bytes())
                == path.spec_bytes().len() - 1 ==> (handle matches Err(e) && e == FsError::NotAFile),
            handle matches Ok(h) ==> h.file.offset == 0 && h.file.handle == self.handle
                && h.file.current_cluster == h.file.entry.cluster && !h.file.entry.spec_is_directory()
                && self.spec_names(path.spec_bytes(), h.file.entry) && spec_meta_of(
                h.meta,
                h.file.entry,
            ),
            self.handle.inner.reliable() ==> (handle is Ok <==> !spec_ends_in_slash(
                path.spec_bytes(),
            ) && self.spec_names_file(path.spec_bytes())),
            self.handle.inner.reliable() && self.spec_absent(path.spec_bytes()) ==> (
            handle matches Err(e) && e == FsError::FileNotFound),
    {
        let found = self.lookup(path.as_bytes());
        proof {
            let bytes = path.spec_bytes();
            if self.spec_names_file(bytes) {
                let other = choose|other: DirEntry| #[trigger]
                    self.spec_names(bytes, other) && other.spec_name_shown()
                        && !other.spec_is_directory();
                self.lemma_names_found(bytes, other);
                match found {
                    Ok(Some(entry)) => {
                        self.lemma_names_unique(bytes, entry, other);
                    },
                    _ => {},
                }
            }
        }
        let entry = match found {
            Ok(Some(entry)) => entry,
            Ok(None) => {
                return Err(FsError::FileNotFound);
            },
            Err(e) => {
                return Err(e);
            },
        };
        if entry.is_directory() {
            return Err(FsError::NotAFile);
        }
        if !entry.name_shown() {
            return Err(FsError::FileNameError(crate::storage::FilenameError::UnableToParse));
        }
        let file = File::new(self.handle.clone(), entry);
        let meta = entry.as_meta();
        Ok(FileHandle { meta, file })
    }

    /// What the file system tells of the entries of the directory that
    /// `path` names, in the order in which they stand there.
    ///
    /// The sectors of the root directory, or those of the clusters of the
    /// chain of the directory, are read in their order. Entries that are
    /// not in use, the end mark, and parts of long names are passed over.
    /// The listing ends with the chain, or with the cluster at which the
    /// device tells the end of the file. A path that names no directory is
    /// an error; so is an entry whose name is no UTF-8, a cluster that is
    /// none of a FAT16 volume, and a chain of more than [`MAX_CHAIN`]
    /// clusters. Any other error of the device is handed on. On a
    /// reliable device a directory that can be listed is listed whole, and
    /// a path that leads to none is no directory.
    pub fn read_dir(&self, path: &str) -> (entries: Result<Vec<Metadata>, FsError>)
        requires
            self.handle.wf(),
        ensures
            entries matches Ok(list) ==> forall|k: int|
                0 <= k < list@.len() ==> self.spec_lists(#[trigger] list@[k]),
            entries matches Ok(list) ==> self.spec_lists_dir(path.spec_bytes(), list@),
            self.handle.inner.reliable() && !self.handle.spec_leads(
                super::impls::spec_parts(path.spec_bytes()),
            ) ==> (entries matches Err(e) && e == FsError::NotADirectory),
            self.handle.inner.reliable() && self.spec_listable(path.spec_bytes()) ==> (
            entries matches Ok(list) && self.spec_lists_whole(path.spec_bytes(), list@)),
    {
        let dir = match self.handle.parse_path(path) {
            Some(dir) => dir,
            None => {
                proof {
                    if self.spec_listable(path.spec_bytes()) {
                        let other = choose|other: Directory|
                            #[trigger] self.handle.spec_reaches(
                                super::impls::spec_parts(path.spec_bytes()),
                                other,
                            ) && self.handle.spec_dir_listable(other.cluster, MAX_CHAIN as nat);
                        let way = choose|way: Seq<Directory>| #[trigger]
                            self.handle.spec_way(super::impls::spec_parts(path.spec_bytes()), way)
                                && way.last() == other;
                        assert(self.handle.spec_leads(super::impls::spec_parts(path.spec_bytes())));
                    }
                }
                return Err(FsError::NotADirectory);
            },
        };
        let ghost whole = self.handle.inner.reliable() && self.handle.spec_dir_listable(
            dir.cluster,
            MAX_CHAIN as nat,
        );
        proof {
            let parts = super::impls::spec_parts(path.spec_bytes());
            let way = choose|way: Seq<Directory>| #[trigger]
                self.handle.spec_way(parts, way) && way.last() == dir;
            assert(self.handle.spec_leads(parts));
            if self.spec_listable(path.spec_bytes()) {
                let other = choose|other: Directory|
                    #[trigger] self.handle.spec_reaches(parts, other)
                        && self.handle.spec_dir_listable(other.cluster, MAX_CHAIN as nat);
                self.lemma_same_cluster(parts, dir, other);
            }
        }
        let mut metas: Vec<Metadata> = Vec::new();
        let sectors_per_cluster: usize = self.handle.bpb.sectors_per_cluster() as usize;
        let root_dir_sectors: usize = self.handle.first_data_sector
            - self.handle.first_root_dir_sector;
        let mut cluster = dir.cluster;
        let mut block = Block::default();
        let mut steps: u32 = 0;
        let ghost mut slots: Seq<(int, int)> = Seq::empty();
        assert(self.handle.bpb.fat_count * self.handle.bpb.sectors_per_fat <= 255 * 65535)
            by (nonlinear_arith);
        while steps < MAX_CHAIN
            invariant
                0 <= steps <= MAX_CHAIN,
                self.handle.wf(),
                sectors_per_cluster == self.handle.bpb.sectors_per_cluster,
                root_dir_sectors == self.handle.first_data_sector
                    - self.handle.first_root_dir_sector,
                self.handle.bpb.fat_count * self.handle.bpb.sectors_per_fat <= 255 * 65535,
                block@.len() == 512,
                forall|k: int| 0 <= k < metas@.len() ==> self.spec_lists(#[trigger] metas@[k]),
                self.handle.spec_reaches(super::impls::spec_parts(path.spec_bytes()), dir),
                self.handle.spec_dir_cluster(dir.cluster, steps as nat) == Some(cluster),
                self.handle.spec_leads(super::impls::spec_parts(path.spec_bytes())),
                self.handle.inner.reliable() && self.spec_listable(path.spec_bytes()) ==> whole,
                whole ==> self.handle.inner.reliable() && self.handle.spec_dir_listable(
                    cluster,
                    (MAX_CHAIN - steps) as nat,
                ),
                slots == self.handle.spec_dir_slots(dir.cluster, steps as nat),
                metas@.len() == slots.len(),
                forall|k: int|
                    0 <= k < metas@.len() ==> spec_slot_meta(
                        self.handle.inner.blocks()[slots[k].0],
                        slots[k].1,
                        #[trigger] metas@[k],
                    ),
            decreases MAX_CHAIN - steps,
        {
            if !(cluster.0 == CLUSTER_ROOT_DIR || (2 <= cluster.0 && cluster.0 <= 0xFFFF)) {
                return Err(FsError::BadCluster);
            }
            proof {
                self.handle.lemma_cluster_fits(cluster);
            }
            let first_sector: usize = self.handle.cluster_to_sector(&cluster);
            let sector_cnt: usize = if cluster.0 == CLUSTER_ROOT_DIR {
                root_dir_sectors
            } else {
                sectors_per_cluster
            };
            if cluster.0 != CLUSTER_ROOT_DIR {
                assert((cluster.0 - 2) * self.handle.bpb.sectors_per_cluster <= 0xFFFF * 255)
                    by (nonlinear_arith)
                    requires
                        2 <= cluster.0 <= 0xFFFF,
                        0 <= self.handle.bpb.sectors_per_cluster <= 255,
                ;
            }
            let ghost above = slots;
            let mut sec: usize = first_sector;
            while sec < first_sector + sector_cnt
                invariant
                    first_sector <= sec <= first_sector + sector_cnt <= usize::MAX,
                    block@.len() == 512,
                    forall|k: int| 0 <= k < metas@.len() ==> self.spec_lists(#[trigger] metas@[k]),
                    slots == above + self.handle.spec_sector_slots(
                        first_sector as int,
                        (sec - first_sector) as nat,
                    ),
                    self.handle.spec_leads(super::impls::spec_parts(path.spec_bytes())),
                    self.handle.inner.reliable() && self.spec_listable(path.spec_bytes())
                        ==> whole,
                    whole ==> self.handle.inner.reliable() && self.handle.spec_sectors_listable(
                        first_sector as int,
                        sector_cnt as nat,
                    ),
                    metas@.len() == slots.len(),
                    forall|k: int|
                        0 <= k < metas@.len() ==> spec_slot_meta(
                            self.handle.inner.blocks()[slots[k].0],
                            slots[k].1,
                            #[trigger] metas@[k],
                        ),
                decreases first_sector + sector_cnt - sec,
            {
                match self.handle.inner.read_block(sec, &mut block) {
                    Ok(()) => {},
                    Err(e) => {
                        return Err(e);
                    },
                }
                let ghost before = slots;
                let mut i: usize = 0;
                while i < ENTRIES_PER_BLOCK
                    invariant
                        0 <= i <= ENTRIES_PER_BLOCK,
                        block@.len() == 512,
                        0 <= sec < self.handle.inner.blocks().len(),
                        block@ == self.handle.inner.blocks()[sec as int],
                        forall|k: int|
                            0 <= k < metas@.len() ==> self.spec_lists(#[trigger] metas@[k]),
                        slots == before + spec_block_slots(block@, sec as int, i as int),
                        first_sector <= sec < first_sector + sector_cnt,
                        self.handle.spec_leads(super::impls::spec_parts(path.spec_bytes())),
                        self.handle.inner.reliable() && self.spec_listable(path.spec_bytes())
                            ==> whole,
                        whole ==> self.handle.spec_sectors_listable(
                            first_sector as int,
                            sector_cnt as nat,
                        ),
                        metas@.len() == slots.len(),
                        forall|k: int|
                            0 <= k < metas@.len() ==> spec_slot_meta(
                                self.handle.inner.blocks()[slots[k].0],
                                slots[k].1,
                                #[trigger] metas@[k],
                            ),
                    decreases ENTRIES_PER_BLOCK - i,
                {
                    let off: usize = i * 32;
                    let slot = vstd::slice::slice_subrange(
                        block.contents.as_slice(),
                        off,
                        off + 32,
                    );
                    match DirEntry::parse(slot) {
                        Ok(entry) => {
                            proof {
                                assert(slot@ =~= block@.subrange(i * 32, i * 32 + 32));
                                assert(slot@.subrange(0, 8)[0] == slot@[0]);
                                assert(slot@.subrange(8, 11)[0] == slot@[8]);
                                assert(spec_slot_shown(block@, i as int) == (entry.spec_is_valid()
                                    && !entry.spec_is_long_name()));
                            }
                            if entry.is_valid() && !entry.is_long_name() {
                                if !entry.name_shown() {
                                    proof {
                                        assert(slot@.subrange(0, 8) =~= block@.subrange(
                                            i * 32,
                                            i * 32 + 8,
                                        ));
                                        assert(slot@.subrange(8, 11) =~= block@.subrange(
                                            i * 32 + 8,
                                            i * 32 + 11,
                                        ));
                                        assert(spec_slot_shown(
                                            self.handle.inner.blocks()[sec as int],
                                            i as int,
                                        ));
                                        assert(!spec_slot_named(
                                            self.handle.inner.blocks()[sec as int],
                                            i as int,
                                        ));
                                    }
                                    return Err(
                                        FsError::FileNameError(
                                            crate::storage::FilenameError::UnableToParse,
                                        ),
                                    );
                                }
                                let meta = entry.as_meta();
                                proof {
                                    assert(spec_meta_of(meta, entry));
                                    assert(spec_slot_holds(
                                        self.handle.inner.blocks()[sec as int],
                                        i as int,
                                        entry,
                                    ));
                                    assert(spec_listed_in(
                                        self.handle.inner.blocks()[sec as int],
                                        meta,
                                    ));
                                    assert(self.spec_lists(meta));
                                    assert(spec_slot_meta(
                                        self.handle.inner.blocks()[sec as int],
                                        i as int,
                                        meta,
                                    ));
                                }
                                let ghost listed = metas@;
                                let ghost places = slots;
                                metas.push(meta);
                                proof {
                                    slots = slots.push((sec as int, i as int));
                                    assert(slots =~= before + spec_block_slots(
                                        block@,
                                        sec as int,
                                        i + 1,
                                    ));
                                }
                                assert forall|k: int| 0 <= k < metas@.len() implies self.spec_lists(
                                    #[trigger] metas@[k],
                                ) by {
                                    if k < listed.len() {
                                        assert(metas@[k] == listed[k]);
                                    }
                                }
                                assert forall|k: int| 0 <= k < metas@.len() implies spec_slot_meta(
                                    self.handle.inner.blocks()[slots[k].0],
                                    slots[k].1,
                                    #[trigger] metas@[k],
                                ) by {
                                    if k < listed.len() {
                                        assert(metas@[k] == listed[k]);
                                        assert(slots[k] == places[k]);
                                    }
                                }
                            }
                        },
                        Err(e) => {
                            return Err(e);
                        },
                    }
                    i = i + 1;
                }
                proof {
                    assert(slots =~= above + self.handle.spec_sector_slots(
                        first_sector as int,
                        (sec + 1 - first_sector) as nat,
                    ));
                }
                sec = sec + 1;
            }
            proof {
                assert(slots =~= self.handle.spec_dir_slots(dir.cluster, (steps + 1) as nat));
            }
            if cluster.0 == CLUSTER_ROOT_DIR {
                assert(self.spec_listing(path.spec_bytes(), dir, (steps + 1) as nat, metas@));
                assert(self.spec_lists_dir(path.spec_bytes(), metas@));
                proof {
                    self.handle.lemma_slots_end(
                        dir.cluster,
                        (steps + 1) as nat,
                        MAX_CHAIN as nat,
                    );
                    assert(self.spec_listing(path.spec_bytes(), dir, MAX_CHAIN as nat, metas@));
                }
                return Ok(metas);
            }
            cluster = match self.handle.next_cluster(cluster) {
                Ok(next) => {
                    if next.0 == CLUSTER_END_OF_FILE {
                        assert(self.spec_listing(
                            path.spec_bytes(),
                            dir,
                            (steps + 1) as nat,
                            metas@,
                        ));
                        assert(self.spec_lists_dir(path.spec_bytes(), metas@));
                        proof {
                            self.handle.lemma_slots_end(
                                dir.cluster,
                                (steps + 1) as nat,
                                MAX_CHAIN as nat,
                            );
                            assert(self.spec_listing(
                                path.spec_bytes(),
                                dir,
                                MAX_CHAIN as nat,
                                metas@,
                            ));
                        }
                        return Ok(metas);
                    }
                    next
                },
                Err(FsError::EndOfFile) => {
                    assert(self.spec_listing(path.spec_bytes(), dir, (steps + 1) as nat, metas@));
                    assert(self.spec_lists_dir(path.spec_bytes(), metas@));
                    return Ok(metas);
                },
                Err(e) => {
                    return Err(e);
                },
            };
            steps = steps + 1;
        }
        Err(FsError::BadCluster)
    }
}

/// Whether `path` names a directory of the file system `fs`: the root
/// directory, or an entry that is a directory and whose name can be shown.
/// Where the device fails, the answer is no.
pub fn check_dir_exists<T: BlockDevice>(fs: &Fat16<T>, path: &str) -> (found: bool)
    requires
        fs.handle.wf(),
    ensures
        spec_is_root_path(path.spec_bytes()) ==> found,
        !spec_is_root_path(path.spec_bytes()) && spec_last_slash(path.spec_bytes())
            == path.spec_bytes().len() - 1 ==> !found,
        !spec_is_root_path(path.spec_bytes()) && found ==> exists|entry: DirEntry| #[trigger]
            fs.spec_names(path.spec_bytes(), entry) && entry.spec_is_directory(),
        fs.handle.inner.reliable() ==> (found <==> spec_is_root_path(path.spec_bytes()) || (
        !spec_ends_in_slash(path.spec_bytes()) && fs.spec_names_dir(path.spec_bytes()))),
{
    let meta = fs.metadata(path);
    proof {
        let bytes = path.spec_bytes();
        if !spec_is_root_path(bytes) && meta is Ok {
            let entry = choose|entry: DirEntry| #[trigger]
                fs.spec_names(bytes, entry) && spec_meta_of(meta->Ok_0, entry)
                    && entry.spec_name_shown();
            if fs.spec_names_dir(bytes) {
                let other = choose|other: DirEntry| #[trigger]
                    fs.spec_names(bytes, other) && other.spec_name_shown()
                        && other.spec_is_directory();
                fs.lemma_names_unique(bytes, entry, other);
                assert(entry.spec_is_directory());
            }
            if entry.spec_is_directory() {
                assert(fs.spec_names_dir(bytes));
            }
        }
        if !spec_is_root_path(bytes) && fs.spec_names_dir(bytes) {
            let other = choose|other: DirEntry| #[trigger]
                fs.spec_names(bytes, other) && other.spec_name_shown()
                    && other.spec_is_directory();
            assert(fs.spec_names_shown(bytes));
        }
    }
    match meta {
        Ok(meta) => meta.is_dir(),
        Err(_) => false,
    }
}

} // verus!
