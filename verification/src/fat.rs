//! The File Allocation Table: 32-bit cluster links loaded from the active
//! FAT region.

use vstd::prelude::*;
use vstd::bytes::{spec_u32_from_le_bytes, u32_from_le_bytes};
use vstd::slice::slice_subrange;
use crate::disk::{DiskError, DiskPartition};
use crate::param::Params;

verus! {

/// A FAT entry with this value marks a bad cluster; it ends a chain.
pub const BAD_CLUSTER: u32 = 0xfffffff7;

/// Represents an error for [`Fat::load()`].
#[derive(Debug, PartialEq, Eq)]
pub enum LoadError {
    /// FatLength makes the FAT region unaddressable.
    InvalidFatLength,
    /// FatOffset points outside the addressable range.
    InvalidFatOffset,
    /// The image could not be read.
    IoFailed(DiskError),
}

/// Byte offset of FAT copy `index` in the partition.
pub open spec fn spec_fat_region_offset(p: Params, index: int) -> int {
    (p.fat_offset + index * p.fat_length) * p.bytes_per_sector
}

/// The File Allocation Table of the mounted volume.
pub struct Fat {
    pub(crate) entries: Vec<u32>,
}

impl View for Fat {
    type V = Seq<u32>;

    closed spec fn view(&self) -> Seq<u32> {
        self.entries@
    }
}

impl Fat {
    /// Reads `(cluster_count + 2)` little-endian 32-bit entries from the
    /// FAT region selected by `index`.
    pub fn load<P: DiskPartition>(params: &Params, partition: &P, index: usize) -> (r: Result<
        Fat,
        LoadError,
    >)
        requires
            params.wf(),
            index <= 1,
        ensures
            r matches Ok(f) ==> {
                let off = spec_fat_region_offset(*params, index as int);
                &&& f@.len() == params.cluster_count as int + 2
                &&& off + 4 * f@.len() <= partition.content().len()
                &&& forall|k: int|
                    0 <= k < f@.len() ==> f@[k] == spec_u32_from_le_bytes(
                        partition.content().subrange(off + 4 * k, off + 4 * k + 4),
                    )
            },
            r matches Err(e) ==> !(e is InvalidFatOffset),
            (r matches Err(e) && e is InvalidFatLength) ==> 4 * (params.cluster_count as int + 2)
                > usize::MAX as int,
            (r is Err && 4 * (params.cluster_count as int + 2) <= usize::MAX as int) ==> (
            r matches Err(e) && e is IoFailed),
    {
        proof {
            let fl = params.fat_length;
            let fo = params.fat_offset;
            let bps = params.bytes_per_sector;
            assert(fl as int * (index as u64) as int <= 0xffffffff) by (nonlinear_arith)
                requires
                    fl <= 0xffffffffu64,
                    index <= 1,
            ;
            assert((fo + fl * (index as u64)) as int * bps as int <= 0x1fffffffe * 4096)
                by (nonlinear_arith)
                requires
                    fo <= 0xffffffffu64,
                    fl as int * (index as u64) as int <= 0xffffffff,
                    0 <= fl as int * (index as u64) as int,
                    bps <= 4096u64,
            ;
        }

        let sector = match params.fat_length.checked_mul(index as u64) {
            Some(v) => match params.fat_offset.checked_add(v) {
                Some(v) => v,
                None => {
                    return Err(LoadError::InvalidFatOffset);
                },
            },
            None => {
                return Err(LoadError::InvalidFatLength);
            },
        };

        let offset = match sector.checked_mul(params.bytes_per_sector) {
            Some(v) => v,
            None => {
                return Err(LoadError::InvalidFatOffset);
            },
        };

        let count = match params.cluster_count.checked_add(2) {
            Some(v) => v,
            None => {
                return Err(LoadError::InvalidFatLength);
            },
        };
        let byte_len = match count.checked_mul(4) {
            Some(v) => v,
            None => {
                return Err(LoadError::InvalidFatLength);
            },
        };

        let mut data: Vec<u8> = vec![0u8; byte_len];
        match partition.read_exact(offset, &mut data) {
            Ok(()) => {},
            Err(e) => {
                return Err(LoadError::IoFailed(e));
            },
        }

        let ghost goff = spec_fat_region_offset(*params, index as int);
        let mut entries: Vec<u32> = Vec::new();
        let mut k: usize = 0;
        while k < count
            invariant
                k <= count,
                byte_len == 4 * count,
                data@.len() == byte_len,
                entries@.len() == k,
                forall|j: int|
                    0 <= j < k ==> entries@[j] == spec_u32_from_le_bytes(
                        data@.subrange(4 * j, 4 * j + 4),
                    ),
            decreases count - k,
        {
            let e = u32_from_le_bytes(slice_subrange(data.as_slice(), 4 * k, 4 * k + 4));
            entries.push(e);
            k = k + 1;
        }

        proof {
            assert forall|j: int| 0 <= j < count implies entries@[j] == spec_u32_from_le_bytes(
                partition.content().subrange(goff + 4 * j, goff + 4 * j + 4),
            ) by {
                assert(data@.subrange(4 * j, 4 * j + 4) =~= partition.content().subrange(
                    goff + 4 * j,
                    goff + 4 * j + 4,
                ));
            }
        }

        Ok(Fat { entries })
    }

    /// Number of FAT entries, reserved entries 0 and 1 included.
    pub fn len(&self) -> (r: usize)
        ensures
            r == self@.len(),
    {
        self.entries.len()
    }

    /// The link stored at index `i`.
    pub fn entry(&self, i: usize) -> (r: u32)
        requires
            i < self@.len(),
        ensures
            r == self@[i as int],
    {
        self.entries[i]
    }

    /// Starts a walk of the cluster chain that begins at `first`.
    pub fn get_cluster_chain<'a>(&'a self, first: usize) -> (r: ClusterChain<'a>)
        ensures
            r.spec_entries() == self@,
            r.spec_next() == first as int,
            r.spec_steps() == self@.len(),
    {
        let steps = self.entries.len();
        ClusterChain { entries: &self.entries, next: first, steps }
    }
}

/// A single-shot, finite walk over a FAT cluster chain.
///
/// Each yielded cluster spends one step of a budget that starts at the
/// FAT's length. A walk that would go on longer must revisit a cluster
/// and so would never end on its own; the budget ends it with `None`
/// instead, so every walk is finite.
pub struct ClusterChain<'fat> {
    entries: &'fat Vec<u32>,
    next: usize,
    steps: usize,
}

impl<'fat> ClusterChain<'fat> {
    /// The FAT being walked.
    pub closed spec fn spec_entries(&self) -> Seq<u32> {
        self.entries@
    }

    /// The cluster the next call will consider.
    pub closed spec fn spec_next(&self) -> int {
        self.next as int
    }

    /// Steps left before the walk is cut off; it decreases with every
    /// yielded cluster, so iteration reaches `None` after finitely many
    /// calls.
    pub closed spec fn spec_steps(&self) -> int {
        self.steps as int
    }

    /// Yields the next cluster of the chain. Cluster indices 0 and 1 are
    /// reserved and never yielded; a link below 2, beyond the FAT, or equal
    /// to the bad-cluster mark ends the walk, as does an exhausted step
    /// budget.
    pub fn next(&mut self) -> (r: Option<usize>)
        ensures
            final(self).spec_entries() == old(self).spec_entries(),
            ({
                let e = old(self).spec_entries();
                let n = old(self).spec_next();
                if old(self).spec_steps() == 0 || n < 2 || n >= e.len() || e[n] == BAD_CLUSTER {
                    r is None && *final(self) == *old(self)
                } else {
                    &&& r matches Some(c) && c as int == n
                    &&& final(self).spec_next() == e[n] as int
                    &&& final(self).spec_steps() == old(self).spec_steps() - 1
                }
            }),
            r matches Some(c) ==> 2 <= (c as int) && (c as int) < old(self).spec_entries().len(),
    {
        if self.steps == 0 {
            return None;
        }

        let next = self.next;

        if next < 2 || next >= self.entries.len() || self.entries[next] == BAD_CLUSTER {
            return None;
        }

        self.steps = self.steps - 1;
        self.next = self.entries[next] as usize;

        Some(next)
    }
}

} // verus!
