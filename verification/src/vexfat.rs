//! The served volume as the protocol sees it: its geometry, the byte cursor
//! of the block stream, and the block size that RDMA packets are cut to.
//!
//! The sectors themselves come from a virtual exFAT device that the caller
//! owns. This type decides where that device is read; it holds no sector
//! data.

use vstd::prelude::*;
use vstd::arithmetic::power2::{lemma2_to64, pow2};
use crate::protocol::{block_size_of, RDMA_MAX_PAYLOAD};
use crate::utils::{
    aligned_to, lemma_rounded_up_div_bounds, names, rounded_up_div, unsigned_align_to,
    unsigned_rounded_up_div,
};

verus! {

/// Sectors are 512 bytes.
pub const BYTES_PER_SECTOR_SHIFT: u8 = 9;

/// Clusters are 2048 sectors, which is 1 MiB.
pub const SECTORS_PER_CLUSTER_SHIFT: u8 = 11;

/// The size of a sector in bytes.
pub const SECTOR_SIZE: u16 = 512;

/// The number of sectors in a cluster.
pub const SECTORS_PER_CLUSTER: u64 = 2048;

/// The size of a cluster in bytes.
pub const BYTES_PER_CLUSTER: u64 = 1048576;

/// The clusters kept free for the metadata of each directory and each
/// file.
pub const SLACK_CLUSTERS_PER_ENTRY: u64 = 3;

/// Why a volume could not be laid out.
#[derive(Debug, Clone, Copy, PartialEq, Eq, Structural)]
pub enum BuildError {
    /// The tree needs more sectors than a 32-bit sector count can hold.
    TooLarge,
}

/// Why the cursor could not be moved or advanced.
#[derive(Debug, Clone, Copy, PartialEq, Eq, Structural)]
pub enum StreamError {
    /// A seek to a sector at or past the end of the volume.
    SectorOutOfRange,
    /// A read that would run past the end of the volume.
    PastEndOfVolume,
}

/// The number of clusters of a volume that holds `files_bytes` bytes of
/// file data in `entries` files and directories: the clusters of the data,
/// three more for each entry, rounded up to an even number.
pub open spec fn cluster_count_for(files_bytes: nat, entries: nat) -> nat {
    aligned_to(
        rounded_up_div(files_bytes, BYTES_PER_CLUSTER as nat) + (SLACK_CLUSTERS_PER_ENTRY as nat)
            * entries,
        2,
    )
}

/// The number of sectors of that volume.
pub open spec fn sector_count_for(files_bytes: nat, entries: nat) -> nat {
    cluster_count_for(files_bytes, entries) * (SECTORS_PER_CLUSTER as nat)
}

/// The data bytes of one RDMA packet at a block shift: as many whole
/// blocks as fit behind the header and the block type.
pub open spec fn payload_cap(shift: nat) -> nat {
    (RDMA_MAX_PAYLOAD as nat / block_size_of(shift)) * block_size_of(shift)
}

/// The number of packets that `size` bytes take at a block shift.
pub open spec fn packets_needed(size: nat, shift: nat) -> nat {
    rounded_up_div(size, payload_cap(shift))
}

/// The block shifts the server chooses among: blocks of 512, 256, 128 and
/// 32 bytes.
pub open spec fn is_candidate_shift(shift: nat) -> bool {
    shift == 7 || shift == 6 || shift == 5 || shift == 3
}

/// The block shift for a read of `sectors` sectors: the largest candidate
/// that needs no more packets than blocks of 32 bytes do.
pub open spec fn best_shift(sectors: nat) -> nat {
    let size = sectors * 512;
    let packets_min = packets_needed(size, 3);
    if packets_needed(size, 7) == packets_min {
        7
    } else if packets_needed(size, 6) == packets_min {
        6
    } else if packets_needed(size, 5) == packets_min {
        5
    } else {
        3
    }
}

/// The payload caps of the candidate shifts are 1024, 1280, 1408 and 1440
/// bytes.
pub proof fn lemma_payload_caps()
    ensures
        block_size_of(7) == 512,
        block_size_of(6) == 256,
        block_size_of(5) == 128,
        block_size_of(3) == 32,
        payload_cap(7) == 1024,
        payload_cap(6) == 1280,
        payload_cap(5) == 1408,
        payload_cap(3) == 1440,
{
    lemma2_to64();
}

/// The products of known block sizes and block counts.
proof fn lemma_tuned_products(v: VexFat, size: int, per_packet: int, per_sector: int)
    requires
        v.block_size == size,
        v.blocks_per_packet == per_packet,
        v.blocks_per_socket == per_sector,
        size * per_sector == 512,
        size * per_packet <= 1466,
    ensures
        v.block_size * v.blocks_per_socket == 512,
        v.block_size * v.blocks_per_packet <= 1466,
{
}

/// The block size, the blocks per packet and the blocks per sector of each
/// block shift.
pub proof fn lemma_tuned_values(v: VexFat)
    requires
        v.tuned(),
    ensures
        v.block_shift == 0 ==> v.block_size == 4 && v.blocks_per_packet == 366
            && v.blocks_per_socket == 128,
        v.block_shift == 1 ==> v.block_size == 8 && v.blocks_per_packet == 183
            && v.blocks_per_socket == 64,
        v.block_shift == 2 ==> v.block_size == 16 && v.blocks_per_packet == 91
            && v.blocks_per_socket == 32,
        v.block_shift == 3 ==> v.block_size == 32 && v.blocks_per_packet == 45
            && v.blocks_per_socket == 16,
        v.block_shift == 4 ==> v.block_size == 64 && v.blocks_per_packet == 22
            && v.blocks_per_socket == 8,
        v.block_shift == 5 ==> v.block_size == 128 && v.blocks_per_packet == 11
            && v.blocks_per_socket == 4,
        v.block_shift == 6 ==> v.block_size == 256 && v.blocks_per_packet == 5
            && v.blocks_per_socket == 2,
        v.block_shift == 7 ==> v.block_size == 512 && v.blocks_per_packet == 2
            && v.blocks_per_socket == 1,
        v.block_size * v.blocks_per_socket == 512,
        v.block_size * v.blocks_per_packet <= RDMA_MAX_PAYLOAD,
        v.blocks_per_packet >= 1,
{
    lemma2_to64();
    let size = block_size_of(v.block_shift as nat);
    if v.block_shift == 0 {
        assert(size == pow2(2));
        assert(1466nat / 4 == 366 && 512nat / 4 == 128);
        lemma_tuned_products(v, 4, 366, 128);
    } else if v.block_shift == 1 {
        assert(size == pow2(3));
        assert(1466nat / 8 == 183 && 512nat / 8 == 64);
        lemma_tuned_products(v, 8, 183, 64);
    } else if v.block_shift == 2 {
        assert(size == pow2(4));
        assert(1466nat / 16 == 91 && 512nat / 16 == 32);
        lemma_tuned_products(v, 16, 91, 32);
    } else if v.block_shift == 3 {
        assert(size == pow2(5));
        assert(1466nat / 32 == 45 && 512nat / 32 == 16);
        lemma_tuned_products(v, 32, 45, 16);
    } else if v.block_shift == 4 {
        assert(size == pow2(6));
        assert(1466nat / 64 == 22 && 512nat / 64 == 8);
        lemma_tuned_products(v, 64, 22, 8);
    } else if v.block_shift == 5 {
        assert(size == pow2(7));
        assert(1466nat / 128 == 11 && 512nat / 128 == 4);
        lemma_tuned_products(v, 128, 11, 4);
    } else if v.block_shift == 6 {
        assert(size == pow2(8));
        assert(1466nat / 256 == 5 && 512nat / 256 == 2);
        lemma_tuned_products(v, 256, 5, 2);
    } else {
        assert(v.block_shift == 7);
        assert(size == pow2(9));
        assert(1466nat / 512 == 2 && 512nat / 512 == 1);
        lemma_tuned_products(v, 512, 2, 1);
    }
}

/// The chosen shift needs the fewest packets of all candidates, and among
/// the candidates that need as few it has the largest blocks.
pub proof fn lemma_best_shift_is_optimal(sectors: nat, other: nat)
    requires
        is_candidate_shift(other),
    ensures
        is_candidate_shift(best_shift(sectors)),
        packets_needed(sectors * 512, best_shift(sectors)) <= packets_needed(
            sectors * 512,
            other,
        ),
        packets_needed(sectors * 512, other) == packets_needed(
            sectors * 512,
            best_shift(sectors),
        ) ==> block_size_of(other) <= block_size_of(best_shift(sectors)),
{
    lemma_payload_caps();
    let size = sectors * 512;
    lemma_rounded_up_div_bounds(size, 1024);
    lemma_rounded_up_div_bounds(size, 1280);
    lemma_rounded_up_div_bounds(size, 1408);
    lemma_rounded_up_div_bounds(size, 1440);
    crate::utils::lemma_rounded_up_div_is_least(size, 1440, rounded_up_div(size, 1408));
    crate::utils::lemma_rounded_up_div_is_least(size, 1440, rounded_up_div(size, 1280));
    crate::utils::lemma_rounded_up_div_is_least(size, 1440, rounded_up_div(size, 1024));
}

/// One entry of the served tree, below its root.
#[derive(Debug)]
pub struct TreeItem {
    /// The names from the root down to the entry, the entry's own name
    /// last.
    pub path: Vec<String>,
    /// Whether the entry is a file; otherwise it is a directory.
    pub is_file: bool,
    /// The size of the file in bytes; not used for a directory.
    pub size: u64,
}

/// Where an entry of the tree is attached when the tree is mapped into the
/// volume.
#[derive(Debug, Clone, Copy, PartialEq, Eq, Structural)]
pub enum Parent {
    /// Directly below the directory that the tree is mapped into.
    Root,
    /// Below the directory that is the item at this index.
    Item(usize),
    /// Below a directory that is not among the items before the entry.
    Missing,
}

/// Whether the item at `j` is the directory that holds the item at `i`:
/// its path is the path of `i` without the last name.
pub open spec fn is_parent_of(items: Seq<TreeItem>, j: int, i: int) -> bool {
    &&& !items[j].is_file
    &&& names(items[j].path@) == names(items[i].path@).drop_last()
}

/// Whether `parent` is `child` without its last name.
fn path_is_parent(parent: &Vec<String>, child: &Vec<String>) -> (r: bool)
    requires
        child@.len() >= 1,
    ensures
        r == (names(parent@) == names(child@).drop_last()),
{
    if parent.len() != child.len() - 1 {
        assert(names(parent@).len() != names(child@).drop_last().len());
        return false;
    }
    let mut k: usize = 0;
    while k < parent.len()
        invariant
            k <= parent@.len(),
            parent@.len() + 1 == child@.len(),
            forall|m: int| 0 <= m < k ==> parent@[m]@ == child@[m]@,
        decreases parent@.len() - k,
    {
        if !parent[k].eq(&child[k]) {
            assert(names(parent@)[k as int] != names(child@).drop_last()[k as int]);
            return false;
        }
        k += 1;
    }
    assert(names(parent@) =~= names(child@).drop_last());
    true
}

/// Finds the directory that holds the item at `i` among the items before
/// it, the nearest one first. Entries are attached in the order of the
/// items, so a directory that comes later cannot take the entry.
pub fn parent_of(items: &Vec<TreeItem>, i: usize) -> (parent: Parent)
    requires
        i < items@.len(),
    ensures
        match parent {
            Parent::Root => items@[i as int].path@.len() <= 1,
            Parent::Item(j) => {
                &&& items@[i as int].path@.len() > 1
                &&& j < i
                &&& is_parent_of(items@, j as int, i as int)
                &&& forall|k: int| j < k < i ==> !is_parent_of(items@, k, i as int)
            },
            Parent::Missing => {
                &&& items@[i as int].path@.len() > 1
                &&& forall|k: int| 0 <= k < i ==> !is_parent_of(items@, k, i as int)
            },
        },
{
    if items[i].path.len() <= 1 {
        return Parent::Root;
    }
    let mut j: usize = i;
    while j > 0
        invariant
            j <= i < items@.len(),
            items@[i as int].path@.len() > 1,
            forall|k: int| j <= k < i ==> !is_parent_of(items@, k, i as int),
        decreases j,
    {
        j -= 1;
        if !items[j].is_file && path_is_parent(&items[j].path, &items[i].path) {
            return Parent::Item(j);
        }
    }
    Parent::Missing
}

/// The bytes of the files among the first `n` items.
pub open spec fn files_bytes(items: Seq<TreeItem>, n: nat) -> nat
    recommends
        n <= items.len(),
    decreases n,
{
    if n == 0 {
        0
    } else {
        files_bytes(items, (n - 1) as nat) + if items[n - 1].is_file {
            items[n - 1].size as nat
        } else {
            0
        }
    }
}

/// The volume: geometry, cursor and packet tuning.
#[derive(Debug, Clone, Copy, PartialEq, Eq, Structural)]
pub struct VexFat {
    /// The number of clusters of the volume.
    pub cluster_count: u32,
    /// The number of sectors of the volume.
    pub sector_count: u32,
    /// The byte offset at which the next read starts.
    pub position: u64,
    /// The block shift in use; the three fields below follow from it.
    pub block_shift: u8,
    /// The size of a block in bytes.
    pub block_size: u16,
    /// The number of blocks that one RDMA packet carries at most.
    pub blocks_per_packet: u16,
    /// The number of blocks in a sector.
    pub blocks_per_socket: u16,
}

impl VexFat {
    /// The sector count is that of the clusters.
    pub open spec fn wf(self) -> bool {
        self.sector_count == self.cluster_count * SECTORS_PER_CLUSTER
    }

    /// A block shift is set, and the block size and the two block counts
    /// are the ones that follow from it.
    pub open spec fn tuned(self) -> bool {
        &&& self.block_shift <= 7
        &&& self.block_size == block_size_of(self.block_shift as nat)
        &&& self.blocks_per_packet == RDMA_MAX_PAYLOAD as nat / block_size_of(
            self.block_shift as nat,
        )
        &&& self.blocks_per_socket == 512nat / block_size_of(self.block_shift as nat)
    }

    /// The size of the volume in bytes.
    pub open spec fn spec_volume_size(self) -> nat {
        (self.sector_count as nat) * 512
    }

    /// Lays out the volume for the entries of a tree. No block shift is set
    /// yet and the cursor stands at the start.
    pub fn new(items: &Vec<TreeItem>) -> (r: Result<VexFat, BuildError>)
        ensures
            r is Ok <==> sector_count_for(files_bytes(items@, items@.len()), items@.len())
                <= u32::MAX,
            r is Ok ==> {
                let v = r->Ok_0;
                &&& v.wf()
                &&& v.cluster_count == cluster_count_for(
                    files_bytes(items@, items@.len()),
                    items@.len(),
                )
                &&& v.sector_count == sector_count_for(
                    files_bytes(items@, items@.len()),
                    items@.len(),
                )
                &&& v.position == 0
                &&& v.block_shift == 0
                &&& v.block_size == 0
                &&& v.blocks_per_packet == 0
                &&& v.blocks_per_socket == 0
            },
            r is Err ==> r->Err_0 == BuildError::TooLarge,
    {
        let mut total_files_bytes: u64 = 0;
        let mut fits: bool = true;
        let mut i: usize = 0;
        while i < items.len()
            invariant
                i <= items@.len(),
                fits ==> files_bytes(items@, i as nat) == total_files_bytes,
                !fits ==> files_bytes(items@, i as nat) > u64::MAX,
            decreases items@.len() - i,
        {
            if fits && items[i].is_file {
                match total_files_bytes.checked_add(items[i].size) {
                    Some(sum) => {
                        total_files_bytes = sum;
                    },
                    None => {
                        fits = false;
                    },
                }
            }
            i += 1;
        }
        // More entries than this never fit a 32-bit sector count.
        if !fits || items.len() > 2097151 {
            proof {
                lemma_too_large(files_bytes(items@, items@.len()), items@.len());
            }
            return Err(BuildError::TooLarge);
        }
        let entries: u64 = items.len() as u64;
        let data: u64 = if total_files_bytes == 0 {
            proof {
                lemma_rounded_up_div_bounds(0, BYTES_PER_CLUSTER as nat);
            }
            0
        } else {
            unsigned_rounded_up_div(total_files_bytes, BYTES_PER_CLUSTER)
        };
        proof {
            lemma_rounded_up_div_bounds(total_files_bytes as nat, BYTES_PER_CLUSTER as nat);
        }
        let unaligned: u64 = data + SLACK_CLUSTERS_PER_ENTRY * entries;
        let cluster_count: u64 = if unaligned == 0 {
            proof {
                lemma_rounded_up_div_bounds(0, 2);
            }
            0
        } else {
            proof {
                lemma_rounded_up_div_bounds(unaligned as nat, 2);
            }
            unsigned_align_to(unaligned, 2)
        };
        if cluster_count > 2097151 {
            return Err(BuildError::TooLarge);
        }
        let sector_count: u64 = cluster_count * SECTORS_PER_CLUSTER;
        Ok(
            VexFat {
                cluster_count: cluster_count as u32,
                sector_count: sector_count as u32,
                position: 0,
                block_shift: 0,
                block_size: 0,
                blocks_per_packet: 0,
                blocks_per_socket: 0,
            },
        )
    }

    /// Moves the cursor to the start of `sector`. Fails, and leaves the
    /// cursor where it was, when the volume has no such sector.
    pub fn seek(&mut self, sector: u32) -> (r: Result<(), StreamError>)
        ensures
            r is Ok <==> sector < old(self).sector_count,
            r is Ok ==> *final(self) == (VexFat { position: (sector * 512) as u64, ..*old(self) }),
            r is Err ==> r->Err_0 == StreamError::SectorOutOfRange && *final(self) == *old(self),
    {
        if sector >= self.sector_count {
            return Err(StreamError::SectorOutOfRange);
        }
        let sector_size: u64 = self.sector_size() as u64;
        let offset: u64 = (sector as u64) * sector_size;
        self.position = offset;
        Ok(())
    }

    /// Advances the cursor over `len` bytes and returns the byte offset at
    /// which they start in the volume. Fails, and leaves the cursor where
    /// it was, when the bytes would run past the end of the volume.
    pub fn read(&mut self, len: usize) -> (r: Result<u64, StreamError>)
        ensures
            r is Ok <==> old(self).position + len <= old(self).spec_volume_size(),
            r is Ok ==> r->Ok_0 == old(self).position && *final(self) == (VexFat {
                position: (old(self).position + len) as u64,
                ..*old(self)
            }),
            r is Err ==> r->Err_0 == StreamError::PastEndOfVolume && *final(self) == *old(self),
    {
        let sector_size: u64 = self.sector_size() as u64;
        let end: u64 = (self.sector_count as u64) * sector_size;
        if self.position > end || (len as u64) > end - self.position {
            return Err(StreamError::PastEndOfVolume);
        }
        let start: u64 = self.position;
        self.position = start + len as u64;
        Ok(start)
    }

    /// Takes bytes written at the cursor. The volume is read-only: the
    /// bytes are dropped and nothing changes.
    pub fn write(&mut self, data: &[u8]) -> (r: Result<(), StreamError>)
        ensures
            r is Ok,
            *final(self) == *old(self),
    {
        Ok(())
    }

    /// The size of a sector in bytes.
    pub fn sector_size(&self) -> (size: u16)
        ensures
            size == 512,
    {
        SECTOR_SIZE
    }

    /// The number of sectors of the volume.
    pub fn sector_count(&self) -> (count: u32)
        ensures
            count == self.sector_count,
    {
        self.sector_count
    }

    /// Whether a block shift is set and the block size and the two block
    /// counts follow from it.
    pub fn is_tuned(&self) -> (r: bool)
        ensures
            r == self.tuned(),
    {
        if self.block_shift > 7 {
            return false;
        }
        proof {
            lemma2_to64();
            vstd::bits::lemma_u16_shl_is_mul(1u16, (self.block_shift + 2) as u16);
        }
        let size: u16 = 1u16 << (self.block_shift + 2);
        self.block_size == size && self.blocks_per_packet == RDMA_MAX_PAYLOAD as u16 / size
            && self.blocks_per_socket == SECTOR_SIZE / size
    }

    /// Sets the block shift, and with it the block size `1 << (shift + 2)`,
    /// the blocks per packet and the blocks per sector.
    pub fn set_block_shift(&mut self, shift: u8)
        requires
            shift <= 7,
        ensures
            final(self).tuned(),
            final(self).block_shift == shift,
            final(self).cluster_count == old(self).cluster_count,
            final(self).sector_count == old(self).sector_count,
            final(self).position == old(self).position,
    {
        proof {
            lemma2_to64();
            vstd::bits::lemma_u16_shl_is_mul(1u16, (shift + 2) as u16);
        }
        self.block_shift = shift;
        self.block_size = 1u16 << (shift + 2);
        self.blocks_per_packet = RDMA_MAX_PAYLOAD as u16 / self.block_size;
        self.blocks_per_socket = self.sector_size() / self.block_size;
    }

    /// Chooses the block shift for a read of `sectors` sectors: the one
    /// that takes the fewest packets and, among those, has the largest
    /// blocks, which the PS2 handles fastest.
    pub fn set_block_shift_sectors(&mut self, sectors: u16)
        ensures
            final(self).tuned(),
            final(self).block_shift == best_shift(sectors as nat),
            final(self).cluster_count == old(self).cluster_count,
            final(self).sector_count == old(self).sector_count,
            final(self).position == old(self).position,
    {
        let sector_size: u32 = self.sector_size() as u32;
        let size: u32 = (sectors as u32) * sector_size;
        let packets_min: u32 = (size + 1440 - 1) / 1440;
        let packets_128: u32 = (size + 1408 - 1) / 1408;
        let packets_256: u32 = (size + 1280 - 1) / 1280;
        let packets_512: u32 = (size + 1024 - 1) / 1024;
        proof {
            lemma_payload_caps();
        }
        let shift: u8 = if packets_512 == packets_min {
            7
        } else if packets_256 == packets_min {
            6
        } else if packets_128 == packets_min {
            5
        } else {
            3
        };
        self.set_block_shift(shift);
    }
}

/// Every sector of the volume lies within it as a whole: from the start of
/// a sector that the volume has, 512 bytes can be read.
pub proof fn lemma_sector_lies_in_volume(v: VexFat, sector: u32)
    requires
        sector < v.sector_count,
    ensures
        sector * 512 + 512 <= v.spec_volume_size(),
{
}

/// A tree with more than 2097151 clusters of data, or as many entries, is
/// too large for a 32-bit sector count.
proof fn lemma_too_large(bytes: nat, entries: nat)
    requires
        bytes > 2097151 * BYTES_PER_CLUSTER || entries > 2097151,
    ensures
        sector_count_for(bytes, entries) > u32::MAX,
{
    let d = rounded_up_div(bytes, BYTES_PER_CLUSTER as nat);
    lemma_rounded_up_div_bounds(bytes, BYTES_PER_CLUSTER as nat);
    if bytes > 2097151 * BYTES_PER_CLUSTER {
        if d <= 2097151 {
            assert(d * BYTES_PER_CLUSTER <= 2097151 * BYTES_PER_CLUSTER) by (nonlinear_arith)
                requires
                    d <= 2097151,
            ;
        }
    }
    let unaligned: nat = d + (SLACK_CLUSTERS_PER_ENTRY as nat) * entries;
    assert(unaligned > 2097151);
    lemma_rounded_up_div_bounds(unaligned, 2);
}

} // verus!
