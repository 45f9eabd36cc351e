//! An open file of a FAT16 volume.

use vstd::prelude::*;
use std::sync::Arc;
use crate::storage::{Block, BlockDevice, FsError, BLOCK_SIZE};
use super::direntry::{Cluster, DirEntry, CLUSTER_END_OF_FILE, CLUSTER_ROOT_DIR};
use super::Fat16Impl;

verus! {

/// An open file.
pub struct File<T: BlockDevice> {
    /// How many bytes of the file were read.
    pub offset: usize,
    /// The cluster in which the next byte lies.
    pub current_cluster: Cluster,
    /// The entry of the file in its directory.
    pub entry: DirEntry,
    /// The volume that holds the file.
    pub handle: Arc<Fat16Impl<T>>,
}

impl<T: BlockDevice> File<T> {
    /// The file of `entry` on the volume `handle`, opened at its start.
    pub fn new(handle: Arc<Fat16Impl<T>>, entry: DirEntry) -> (file: File<T>)
        ensures
            file.offset == 0,
            file.current_cluster == entry.cluster,
            file.entry == entry,
            file.handle == handle,
    {
        File { offset: 0, current_cluster: entry.cluster, entry, handle }
    }

    /// The length of the file in bytes.
    pub fn length(&self) -> (len: usize)
        ensures
            len == self.entry.size,
    {
        self.entry.size as usize
    }
}

/// The smaller of `a` and `b`.
pub fn min(a: usize, b: usize) -> (m: usize)
    ensures
        m == (if a <= b {
            a
        } else {
            b
        }),
{
    if a <= b {
        a
    } else {
        b
    }
}

/// What a read finds: the bytes, and the cluster in which it ends.
pub struct ReadOutcome {
    pub bytes: Seq<u8>,
    pub cluster: Cluster,
}

impl<T: BlockDevice> Fat16Impl<T> {
    /// The size of a cluster in bytes.
    pub open spec fn spec_cluster_size(&self) -> int {
        self.bpb.sectors_per_cluster * 512
    }

    /// The byte at the place `at` of `cluster`, counted from the start of
    /// its first sector.
    pub open spec fn spec_cluster_byte(&self, cluster: Cluster, at: int) -> u8 {
        self.inner.blocks()[self.spec_cluster_to_sector(cluster) + at / 512][at % 512]
    }

    /// The `count` bytes of `cluster` from the place `at` on.
    pub open spec fn spec_cluster_bytes(&self, cluster: Cluster, at: int, count: nat) -> Seq<u8> {
        Seq::new(count, |k: int| self.spec_cluster_byte(cluster, at + k))
    }

    /// What a read of `want` bytes finds from the place `offset` of a
    /// file on, where that place lies in `cluster`.
    ///
    /// The bytes of `cluster` are taken from the place of `offset` within
    /// it, up to its end or until there are `want`. Where more are wanted,
    /// the read goes on at the start of the cluster that follows, and ends
    /// where the chain ends.
    pub open spec fn spec_read_chain(&self, cluster: Cluster, offset: int, want: nat) -> ReadOutcome
        decreases want,
    {
        let size = self.spec_cluster_size();
        let within = if size > 0 {
            offset % size
        } else {
            0
        };
        let take = if size - within <= want {
            size - within
        } else {
            want as int
        };
        let here = self.spec_cluster_bytes(cluster, within, take as nat);
        if take <= 0 || take >= want {
            ReadOutcome { bytes: here, cluster }
        } else {
            match self.spec_next_cluster(cluster) {
                Some(Ok(next)) => if next.0 == CLUSTER_END_OF_FILE {
                    ReadOutcome { bytes: here, cluster }
                } else {
                    let rest = self.spec_read_chain(next, offset + take, (want - take) as nat);
                    ReadOutcome { bytes: here + rest.bytes, cluster: rest.cluster }
                },
                _ => ReadOutcome { bytes: here, cluster },
            }
        }
    }
}

impl<T: BlockDevice> Fat16Impl<T> {
    /// Whether the device holds the sectors in which the `count` bytes of
    /// `cluster` from the place `at` on lie, and can count to them.
    pub open spec fn spec_holds(&self, cluster: Cluster, at: int, count: int) -> bool {
        let last = self.spec_cluster_to_sector(cluster) + (at + count - 1) / 512;
        last < self.inner.blocks().len() && last <= usize::MAX
    }

    /// Whether a read of `want` bytes from the place `offset` of a file
    /// on, where that place lies in `cluster`, cannot be done even by a
    /// reliable device.
    ///
    /// That is so where the clusters of the volume have no sectors; where
    /// the read comes to a cluster that is none of a FAT16 volume, or that
    /// the file allocation table calls bad; where it comes to a sector
    /// that the device does not hold; and where the device does not hold
    /// the part of the table that tells the next cluster.
    pub open spec fn spec_read_fails(&self, cluster: Cluster, offset: int, want: nat) -> bool
        decreases want,
    {
        let size = self.spec_cluster_size();
        let within = if size > 0 {
            offset % size
        } else {
            0
        };
        let take = if size - within <= want {
            size - within
        } else {
            want as int
        };
        if want == 0 {
            false
        } else if take <= 0 || !Self::spec_is_cluster(cluster) || !self.spec_holds(
            cluster,
            within,
            take,
        ) {
            true
        } else if take >= want {
            false
        } else {
            match self.spec_next_cluster(cluster) {
                Some(Ok(next)) => next.0 != CLUSTER_END_OF_FILE && self.spec_read_fails(
                    next,
                    offset + take,
                    (want - take) as nat,
                ),
                _ => true,
            }
        }
    }
}

impl<T: BlockDevice> File<T> {
    /// The number of bytes that a read into a buffer of `len` bytes
    /// takes: as many as the buffer holds, but no more than are left of
    /// the file.
    pub open spec fn spec_to_read(&self, len: nat) -> nat {
        if self.offset >= self.entry.size {
            0
        } else if len <= self.entry.size - self.offset {
            len
        } else {
            (self.entry.size - self.offset) as nat
        }
    }

    /// What a read into a buffer of `len` bytes finds, as
    /// [`Fat16Impl::spec_read_chain`] says, from the present offset and
    /// cluster on.
    pub open spec fn spec_read(&self, len: nat) -> ReadOutcome {
        self.handle.spec_read_chain(
            self.current_cluster,
            self.offset as int,
            self.spec_to_read(len),
        )
    }

    /// Whether a read into a buffer of `len` bytes cannot be done even by
    /// a reliable device, as [`Fat16Impl::spec_read_fails`] says, from the
    /// present offset and cluster on.
    pub open spec fn spec_fails(&self, len: nat) -> bool {
        self.handle.spec_read_fails(
            self.current_cluster,
            self.offset as int,
            self.spec_to_read(len),
        )
    }

    /// Reads the next bytes of the file into `buf`; the result is their
    /// number.
    ///
    /// As many bytes are read as `buf` holds, but no more than are left
    /// of the file, and fewer where the chain of clusters ends before. The
    /// bytes come from the sectors of the present cluster from the present
    /// offset on, and then from the clusters that follow it. They stand at
    /// the start of `buf`, the offset moves on by their number, the
    /// present cluster is the one in which the read ended, and the rest of
    /// `buf` stays as it was.
    /// Where bytes are to be read, a volume without sectors in its
    /// clusters is an error, and a present cluster that is none of a FAT16
    /// volume is a bad cluster. An error of the device is handed on; a
    /// reliable device fails only where the read comes to a sector that
    /// the device does not hold.
    pub fn read(&mut self, buf: &mut [u8]) -> (res: Result<usize, FsError>)
        requires
            old(self).handle.wf(),
        ensures
            final(self).handle == old(self).handle,
            final(self).entry == old(self).entry,
            final(buf)@.len() == old(buf)@.len(),
            old(self).spec_to_read(old(buf)@.len()) == 0 ==> res == Ok::<usize, FsError>(0)
                && *final(self) == *old(self) && final(buf)@ == old(buf)@,
            old(self).spec_to_read(old(buf)@.len()) > 0 && old(self).handle.bpb.sectors_per_cluster
                == 0 ==> res == Err::<usize, FsError>(FsError::InvalidOperation),
            old(self).spec_to_read(old(buf)@.len()) > 0 && old(self).handle.bpb.sectors_per_cluster
                > 0 && !Fat16Impl::<T>::spec_is_cluster(old(self).current_cluster) ==> res == Err::<
                usize,
                FsError,
            >(FsError::BadCluster),
            res is Ok ==> !old(self).spec_fails(old(buf)@.len()),
            old(self).handle.inner.reliable() && !old(self).spec_fails(old(buf)@.len()) ==> res
                is Ok,
            res matches Ok(n) ==> {
                &&& n <= old(self).spec_to_read(old(buf)@.len())
                &&& n == old(self).spec_read(old(buf)@.len()).bytes.len()
                &&& final(buf)@.subrange(0, n as int) == old(self).spec_read(
                    old(buf)@.len(),
                ).bytes
                &&& final(self).current_cluster == old(self).spec_read(old(buf)@.len()).cluster
                &&& final(self).offset == old(self).offset + n
                &&& forall|i: int| n <= i < old(buf)@.len() ==> final(buf)@[i] == old(buf)@[i]
            },
    {
        if buf.len() == 0 {
            assert(buf@.subrange(0, 0) =~= Seq::<u8>::empty());
            return Ok(0);
        }
        let file_len: usize = self.length();
        if self.offset >= file_len {
            assert(buf@.subrange(0, 0) =~= Seq::<u8>::empty());
            return Ok(0);
        }
        let to_read: usize = min(buf.len(), file_len - self.offset);
        let mut read_bytes: usize = 0;
        let sec_per_clus: usize = self.handle.bpb.sectors_per_cluster() as usize;
        if sec_per_clus == 0 {
            return Err(FsError::InvalidOperation);
        }
        let clus_size: usize = sec_per_clus * BLOCK_SIZE;
        let mut cluster = self.current_cluster;
        let mut block = Block::default();
        let ghost goal = old(self).spec_read(old(buf)@.len());
        assert(buf@.subrange(0, 0) =~= Seq::<u8>::empty());
        while read_bytes < to_read
            invariant
                0 <= read_bytes <= to_read <= buf@.len(),
                buf@.len() == old(buf)@.len(),
                self.handle == old(self).handle,
                self.entry == old(self).entry,
                self.handle.wf(),
                self.offset == old(self).offset + read_bytes,
                old(self).offset + to_read <= file_len,
                to_read == old(self).spec_to_read(old(buf)@.len()),
                to_read > 0,
                0 < sec_per_clus <= 255,
                sec_per_clus == self.handle.bpb.sectors_per_cluster,
                clus_size == sec_per_clus * BLOCK_SIZE,
                block@.len() == 512,
                forall|i: int| read_bytes <= i < buf@.len() ==> buf@[i] == old(buf)@[i],
                self.current_cluster == cluster,
                goal == old(self).spec_read(old(buf)@.len()),
                old(self).spec_fails(old(buf)@.len()) == self.handle.spec_read_fails(
                    cluster,
                    self.offset as int,
                    (to_read - read_bytes) as nat,
                ),
                read_bytes == 0 ==> cluster == old(self).current_cluster,
                read_bytes > 0 ==> Fat16Impl::<T>::spec_is_cluster(old(self).current_cluster),
                goal.bytes == buf@.subrange(0, read_bytes as int) + self.handle.spec_read_chain(
                    cluster,
                    self.offset as int,
                    (to_read - read_bytes) as nat,
                ).bytes,
                goal.cluster == self.handle.spec_read_chain(
                    cluster,
                    self.offset as int,
                    (to_read - read_bytes) as nat,
                ).cluster,
            decreases to_read - read_bytes,
        {
            if !(cluster.0 == CLUSTER_ROOT_DIR || (2 <= cluster.0 && cluster.0 <= 0xFFFF)) {
                return Err(FsError::BadCluster);
            }
            let in_clus_off: usize = self.offset % clus_size;
            let remain_in_clus: usize = clus_size - in_clus_off;
            proof {
                self.handle.lemma_cluster_fits(cluster);
            }
            let first: usize = self.handle.cluster_to_sector(&cluster);
            let mut sector: usize = match first.checked_add(in_clus_off / BLOCK_SIZE) {
                Some(sector) => sector,
                None => {
                    proof {
                        let rest = to_read - read_bytes;
                        let take = if clus_size - in_clus_off <= rest {
                            clus_size - in_clus_off
                        } else {
                            rest
                        };
                        assert(self.handle.spec_cluster_size() == clus_size);
                        assert(in_clus_off / 512 <= (in_clus_off + take - 1) / 512);
                        assert(!self.handle.spec_holds(cluster, in_clus_off as int, take));
                    }
                    return Err(FsError::InvalidOffset);
                },
            };
            let mut in_sector_off: usize = in_clus_off % BLOCK_SIZE;
            let mut left: usize = min(remain_in_clus, to_read - read_bytes);
            let ghost start = read_bytes;
            let ghost total = left;
            let ghost snap = buf@;
            let ghost from = self.offset as int;
            let ghost tail = self.handle.spec_read_chain(
                cluster,
                self.offset as int,
                (to_read - read_bytes) as nat,
            );
            let ghost here = self.handle.spec_cluster_bytes(
                cluster,
                in_clus_off as int,
                total as nat,
            );
            let ghost last = first + (in_clus_off + total - 1) / 512;
            let ghost fails = old(self).spec_fails(old(buf)@.len());
            proof {
                assert(self.handle.spec_cluster_size() == clus_size);
                assert(in_clus_off == from % self.handle.spec_cluster_size());
                assert(in_clus_off / 512 <= (in_clus_off + total - 1) / 512);
                assert(fails == self.handle.spec_read_fails(
                    cluster,
                    from,
                    (to_read - start) as nat,
                ));
                assert(!self.handle.spec_holds(cluster, in_clus_off as int, total as int)
                    ==> fails);
            }
            while left > 0
                invariant
                    0 <= read_bytes <= to_read <= buf@.len(),
                    read_bytes + left <= to_read,
                    read_bytes + left == start + total,
                    start <= read_bytes,
                    total >= 1,
                    self.handle.bpb.sectors_per_cluster > 0,
                    Fat16Impl::<T>::spec_is_cluster(old(self).current_cluster),
                    to_read == old(self).spec_to_read(old(buf)@.len()),
                    buf@.len() == old(buf)@.len(),
                    buf@.len() == snap.len(),
                    self.handle == old(self).handle,
                    self.entry == old(self).entry,
                    self.current_cluster == cluster,
                    self.offset == old(self).offset + read_bytes,
                    old(self).offset + to_read <= file_len,
                    0 <= in_sector_off < BLOCK_SIZE,
                    block@.len() == 512,
                    first == self.handle.spec_cluster_to_sector(cluster),
                    fails == old(self).spec_fails(old(buf)@.len()),
                    last == first + (in_clus_off + total - 1) / 512,
                    last >= self.handle.inner.blocks().len() || last > usize::MAX ==> fails,
                    left > 0 ==> sector <= last,
                    left == 0 ==> last < self.handle.inner.blocks().len() && last <= usize::MAX,
                    left > 0 ==> sector == first + (in_clus_off + (read_bytes - start)) / 512,
                    left > 0 ==> in_sector_off == (in_clus_off + (read_bytes - start)) % 512,
                    forall|i: int| read_bytes <= i < buf@.len() ==> buf@[i] == old(buf)@[i],
                    forall|i: int| 0 <= i < start ==> buf@[i] == snap[i],
                    forall|i: int|
                        start <= i < read_bytes ==> #[trigger] buf@[i]
                            == self.handle.spec_cluster_byte(cluster, in_clus_off + (i - start)),
                decreases left,
            {
                let copy_len: usize = min(BLOCK_SIZE - in_sector_off, left);
                match self.handle.inner.read_block(sector, &mut block) {
                    Ok(()) => {},
                    Err(e) => {
                        return Err(e);
                    },
                }
                let ghost done = read_bytes - start;
                let mut k: usize = 0;
                while k < copy_len
                    invariant
                        0 <= k <= copy_len,
                        copy_len <= left,
                        in_sector_off + copy_len <= BLOCK_SIZE,
                        read_bytes + left <= to_read <= buf@.len(),
                        start <= read_bytes,
                        done == read_bytes - start,
                        buf@.len() == old(buf)@.len(),
                        buf@.len() == snap.len(),
                        block@.len() == 512,
                        forall|i: int|
                            read_bytes + k <= i < buf@.len() ==> buf@[i] == old(buf)@[i],
                        forall|i: int| 0 <= i < start ==> buf@[i] == snap[i],
                        forall|i: int|
                            start <= i < read_bytes ==> #[trigger] buf@[i]
                                == self.handle.spec_cluster_byte(
                                cluster,
                                in_clus_off + (i - start),
                            ),
                        forall|i: int|
                            read_bytes <= i < read_bytes + k ==> #[trigger] buf@[i] == block@[i
                                - read_bytes + in_sector_off],
                    decreases copy_len - k,
                {
                    buf[read_bytes + k] = block.contents[in_sector_off + k];
                    k = k + 1;
                }
                proof {
                    assert forall|i: int| start <= i < read_bytes + copy_len implies #[trigger] buf@[i]
                        == self.handle.spec_cluster_byte(cluster, in_clus_off + (i - start)) by {
                        if i >= read_bytes {
                            let at = in_clus_off + done;
                            let more = i - read_bytes;
                            assert(buf@[i] == block@[in_sector_off + more]);
                            assert((at + more) / 512 == at / 512 && (at + more) % 512 == at % 512
                                + more) by {
                                assert(at % 512 + more < 512);
                                assert(at == 512 * (at / 512) + at % 512);
                            }
                        }
                    }
                    if left > copy_len {
                        let at = in_clus_off + done;
                        assert((at + copy_len) / 512 == at / 512 + 1 && (at + copy_len) % 512
                            == 0) by {
                            assert(at % 512 + copy_len == 512);
                            assert(at == 512 * (at / 512) + at % 512);
                        }
                        assert((at + copy_len) / 512 <= (in_clus_off + total - 1) / 512);
                        assert(sector + 1 <= last);
                    } else {
                        let at = in_clus_off + done;
                        assert((at + copy_len - 1) / 512 == at / 512) by {
                            assert(at % 512 + copy_len <= 512);
                            assert(copy_len >= 1);
                            assert(at == 512 * (at / 512) + at % 512);
                        }
                        assert(sector == last);
                    }
                }
                read_bytes = read_bytes + copy_len;
                self.offset = self.offset + copy_len;
                left = left - copy_len;
                in_sector_off = 0;
                if left > 0 {
                    sector = match sector.checked_add(1) {
                        Some(sector) => sector,
                        None => {
                            return Err(FsError::InvalidOffset);
                        },
                    };
                }
            }
            proof {
                assert(read_bytes == start + total);
                assert(self.offset == from + total);
                assert(self.handle.spec_cluster_size() == clus_size);
                assert(in_clus_off == from % self.handle.spec_cluster_size());
                assert(buf@.subrange(0, read_bytes as int) =~= snap.subrange(0, start as int)
                    + here);
                assert(goal.bytes == snap.subrange(0, start as int) + tail.bytes);
                assert(goal.cluster == tail.cluster);
                if total >= to_read - start {
                    assert(tail.bytes == here);
                    assert(tail.cluster == cluster);
                }
            }
            if read_bytes < to_read {
                match self.handle.next_cluster(cluster) {
                    Ok(next) => {
                        assert(self.handle.spec_next_cluster(cluster) == Some(
                            Ok::<Cluster, FsError>(next),
                        ));
                        if next.0 == CLUSTER_END_OF_FILE {
                            assert(tail.bytes == here);
                            assert(tail.cluster == cluster);
                            assert(goal.bytes =~= buf@.subrange(0, read_bytes as int));
                            return Ok(read_bytes);
                        }
                        assert(tail.bytes == here + self.handle.spec_read_chain(
                            next,
                            from + total,
                            (to_read - start - total) as nat,
                        ).bytes);
                        self.current_cluster = next;
                        cluster = next;
                    },
                    Err(e) => {
                        return Err(e);
                    },
                }
            }
            assert(goal.bytes =~= buf@.subrange(0, read_bytes as int)
                + self.handle.spec_read_chain(
                cluster,
                self.offset as int,
                (to_read - read_bytes) as nat,
            ).bytes);
        }
        assert(goal.bytes =~= buf@.subrange(0, read_bytes as int));
        Ok(read_bytes)
    }
}

} // verus!
