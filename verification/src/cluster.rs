//! The cluster stream reader: turns (first cluster, length, flags) into a
//! sequential byte stream, walking the FAT or striding contiguously.

use vstd::prelude::*;
use crate::disk::{DiskError, DiskPartition};
use crate::fat::BAD_CLUSTER;
use crate::ExFat;

verus! {

/// Represents an error for [`ClustersReader::new()`].
#[derive(Debug, PartialEq, Eq)]
pub enum NewError {
    /// The first cluster is below 2 or beyond the cluster heap.
    InvalidFirstCluster,
    /// The FAT ends the chain before its first cluster.
    EmptyChain,
}

/// Represents an error for [`ClustersReader::read_exact()`].
#[derive(Debug, PartialEq, Eq)]
pub enum ReadError {
    /// The read would pass the end of the stream.
    EndOfStream,
    /// The block source failed.
    Disk(DiskError),
}

/// Byte offset of a cluster within the partition.
pub open spec fn spec_cluster_addr<P: DiskPartition>(ex: ExFat<P>, cluster: int) -> int {
    ex.params.cluster_heap_offset * ex.params.bytes_per_sector + (cluster - 2)
        * ex.params.spec_cluster_size()
}

/// The cluster a stream visits after `cluster`, if the walk goes on:
/// the following cluster in contiguous mode, the FAT link in chained
/// mode. Links below 2, beyond the FAT, or whose own entry is the
/// bad-cluster mark end the walk.
pub open spec fn spec_next_cluster<P: DiskPartition>(ex: ExFat<P>, nfc: bool, cluster: int) -> Option<int> {
    if nfc {
        if cluster + 1 < ex.fat@.len() {
            Some(cluster + 1)
        } else {
            None
        }
    } else {
        let link = ex.fat@[cluster] as int;
        if link < 2 || link >= ex.fat@.len() || ex.fat@[link] == BAD_CLUSTER {
            None
        } else {
            Some(link)
        }
    }
}

/// The next `n` bytes of a stream standing at `offset` within `cluster`:
/// the rest of the current cluster, then the following clusters whole,
/// cut short where the walk ends.
pub open spec fn spec_stream_bytes<P: DiskPartition>(
    ex: ExFat<P>,
    nfc: bool,
    cluster: int,
    offset: int,
    n: nat,
) -> Seq<u8>
    decreases n,
{
    let cs = ex.params.spec_cluster_size();
    if n == 0 || cs <= offset {
        Seq::empty()
    } else {
        let avail = cs - offset;
        let take = if n <= avail {
            n as int
        } else {
            avail
        };
        let start = spec_cluster_addr(ex, cluster) + offset;
        let here = ex.partition.content().subrange(start, start + take);
        if take < n {
            match spec_next_cluster(ex, nfc, cluster) {
                Some(c2) => here + spec_stream_bytes(ex, nfc, c2, 0, (n - take) as nat),
                None => here,
            }
        } else {
            here
        }
    }
}

/// Reads the bytes of one cluster stream in order.
///
/// In chained mode the FAT is walked from the first cluster; with
/// `no_fat_chain` the clusters are consumed contiguously. An optional
/// byte length caps the stream: reads past it report end-of-stream.
pub struct ClustersReader<'a, P: DiskPartition> {
    exfat: &'a ExFat<P>,
    no_fat_chain: bool,
    cluster: usize,
    offset: u64,
    consumed: u64,
    data_length: Option<u64>,
    ended: bool,
}

impl<'a, P: DiskPartition> ClustersReader<'a, P> {
    /// The volume this stream reads from.
    pub closed spec fn spec_exfat(self) -> ExFat<P> {
        *self.exfat
    }

    /// Whether the stream strides contiguously instead of walking the FAT.
    pub closed spec fn spec_no_fat_chain(self) -> bool {
        self.no_fat_chain
    }

    /// The cluster currently being consumed.
    pub closed spec fn spec_cluster(self) -> int {
        self.cluster as int
    }

    /// The position within the current cluster.
    pub closed spec fn spec_offset(self) -> int {
        self.offset as int
    }

    /// Bytes handed out so far, when the stream is capped.
    pub closed spec fn spec_consumed(self) -> int {
        self.consumed as int
    }

    /// The byte-length cap, if one was set.
    pub closed spec fn spec_data_length(self) -> Option<u64> {
        self.data_length
    }

    /// Whether the chain has run out.
    pub closed spec fn spec_ended(self) -> bool {
        self.ended
    }

    /// The reader's invariant: the current cluster stays inside the
    /// cluster heap and consumption never passes the cap.
    pub closed spec fn wf(self) -> bool {
        &&& self.exfat.wf()
        &&& (!self.ended ==> 2 <= self.cluster && (self.cluster as int)
            < self.exfat.fat@.len())
        &&& self.offset < self.exfat.params.spec_cluster_size()
        &&& (self.ended ==> self.offset == 0)
        &&& (self.data_length matches Some(l) ==> self.consumed <= l)
    }

    /// Starts a stream at `first`. Fails if `first` is reserved or beyond
    /// the heap, or, in chained mode, if the FAT ends the chain at once.
    pub fn new(
        exfat: &'a ExFat<P>,
        first: usize,
        data_length: Option<u64>,
        no_fat_chain: Option<bool>,
    ) -> (r: Result<Self, NewError>)
        requires
            exfat.wf(),
        ensures
            r matches Ok(c) ==> {
                &&& c.wf()
                &&& c.spec_exfat() == *exfat
                &&& c.spec_no_fat_chain() == (no_fat_chain matches Some(f) && f)
                &&& c.spec_cluster() == first as int
                &&& c.spec_offset() == 0
                &&& c.spec_consumed() == 0
                &&& c.spec_data_length() == data_length
                &&& !c.spec_ended()
            },
            r is Err <==> (first < 2 || first as int >= exfat.fat@.len()
                || (!(no_fat_chain matches Some(f) && f) && exfat.fat@[first as int]
                == BAD_CLUSTER)),
    {
        let nfc = match no_fat_chain {
            Some(v) => v,
            None => false,
        };

        if first < 2 || first >= exfat.fat.len() {
            return Err(NewError::InvalidFirstCluster);
        }

        if !nfc && exfat.fat.entry(first) == BAD_CLUSTER {
            return Err(NewError::EmptyChain);
        }

        Ok(ClustersReader {
            exfat,
            no_fat_chain: nfc,
            cluster: first,
            offset: 0,
            consumed: 0,
            data_length,
            ended: false,
        })
    }

    /// The cluster currently being consumed.
    pub fn cluster(&self) -> (r: usize)
        ensures
            r as int == self.spec_cluster(),
    {
        self.cluster
    }

    /// Fills `buf` from the stream. A capped stream hands out exactly its
    /// declared number of bytes and then reports end-of-stream; a read that
    /// does not cross a cluster boundary returns the partition bytes at the
    /// current cluster address. A failed read leaves the reader unchanged.
    pub fn read_exact(&mut self, buf: &mut Vec<u8>) -> (r: Result<(), ReadError>)
        requires
            old(self).wf(),
        ensures
            final(self).wf(),
            final(self).spec_exfat() == old(self).spec_exfat(),
            final(self).spec_no_fat_chain() == old(self).spec_no_fat_chain(),
            final(self).spec_data_length() == old(self).spec_data_length(),
            final(buf)@.len() == old(buf)@.len(),
            r is Err ==> *final(self) == *old(self) && *final(buf) == *old(buf),
            old(self).spec_data_length() matches Some(l) ==> (r is Ok ==> final(
                self).spec_consumed() == old(self).spec_consumed() + old(buf)@.len() && final(
                self).spec_consumed() <= l),
            old(self).spec_data_length() is None ==> final(self).spec_consumed() == old(
                self).spec_consumed(),
            (old(self).spec_data_length() matches Some(l) && old(self).spec_consumed()
                + old(buf)@.len() > l) ==> r == Err::<(), ReadError>(ReadError::EndOfStream),
            (old(self).spec_ended() && old(buf)@.len() > 0) ==> r == Err::<(), ReadError>(
                ReadError::EndOfStream,
            ),
            (r is Ok && old(buf)@.len() > 0 && old(self).spec_offset() + old(buf)@.len()
                <= old(self).spec_exfat().params.spec_cluster_size()) ==> {
                let start = spec_cluster_addr(old(self).spec_exfat(), old(self).spec_cluster())
                    + old(self).spec_offset();
                final(buf)@ == old(self).spec_exfat().partition.content().subrange(
                    start,
                    start + old(buf)@.len(),
                )
            },
            (r is Ok && old(self).spec_offset() + old(buf)@.len()
                < old(self).spec_exfat().params.spec_cluster_size()) ==> {
                &&& final(self).spec_cluster() == old(self).spec_cluster()
                &&& final(self).spec_offset() == old(self).spec_offset() + old(buf)@.len()
                &&& final(self).spec_ended() == old(self).spec_ended()
            },
            (r is Ok && !old(self).spec_ended()) ==> final(buf)@ == spec_stream_bytes(
                old(self).spec_exfat(),
                old(self).spec_no_fat_chain(),
                old(self).spec_cluster(),
                old(self).spec_offset(),
                old(buf)@.len() as nat,
            ),
            (r == Err::<(), ReadError>(ReadError::EndOfStream) && !old(self).spec_ended()) ==> (
            (old(self).spec_data_length() matches Some(l) && old(self).spec_consumed() + old(
                buf)@.len() > l) || spec_stream_bytes(
                old(self).spec_exfat(),
                old(self).spec_no_fat_chain(),
                old(self).spec_cluster(),
                old(self).spec_offset(),
                old(buf)@.len() as nat,
            ).len() < old(buf)@.len()),
    {
        let n = buf.len();

        match self.data_length {
            Some(l) => {
                if n as u64 > l - self.consumed {
                    return Err(ReadError::EndOfStream);
                }
            },
            None => {},
        }

        let ex = self.exfat;
        let cs = ex.params.cluster_size();
        let fat_len = ex.fat.len();
        let ghost c0 = self.cluster as int;
        let ghost o0 = self.offset as int;
        let ghost e0 = self.ended;
        let ghost addr0 = spec_cluster_addr(*ex, c0);

        let mut out: Vec<u8> = Vec::new();
        let mut cluster = self.cluster;
        let mut offset = self.offset;
        let mut ended = self.ended;
        let mut done: usize = 0;

        proof {
            assert(Seq::<u8>::empty() + spec_stream_bytes(*ex, self.no_fat_chain, c0, o0, n as nat)
                =~= spec_stream_bytes(*ex, self.no_fat_chain, c0, o0, n as nat));
        }

        while done < n
            invariant
                *self == *old(self),
                *buf == *old(buf),
                self.wf(),
                n == old(buf)@.len(),
                old(self).spec_data_length() matches Some(l) ==> old(self).spec_consumed() + n
                    <= l,
                ex == self.exfat,
                ex.wf(),
                cs == ex.params.spec_cluster_size(),
                fat_len == ex.fat@.len(),
                c0 == self.spec_cluster(),
                o0 == self.spec_offset(),
                e0 == self.spec_ended(),
                addr0 == spec_cluster_addr(*ex, c0),
                done <= n,
                out@.len() == done,
                !ended ==> 2 <= cluster && (cluster as int) < fat_len,
                offset < cs,
                ended ==> offset == 0,
                done == 0 ==> cluster as int == c0 && offset as int == o0 && ended == e0,
                done > 0 ==> !e0,
                o0 + n <= cs ==> (done == 0 || done == n),
                (n > 0 && o0 + n <= cs && done == n) ==> out@ == ex.partition.content().subrange(
                    addr0 + o0,
                    addr0 + o0 + n,
                ),
                (o0 + n < cs && done == n) ==> cluster as int == c0 && offset as int == o0 + n
                    && ended == e0,
                (!e0 && !ended && done < n) ==> spec_stream_bytes(
                    *ex,
                    self.no_fat_chain,
                    c0,
                    o0,
                    n as nat,
                ) == out@ + spec_stream_bytes(
                    *ex,
                    self.no_fat_chain,
                    cluster as int,
                    offset as int,
                    (n - done) as nat,
                ),
                (!e0 && done == n) ==> out@ == spec_stream_bytes(
                    *ex,
                    self.no_fat_chain,
                    c0,
                    o0,
                    n as nat,
                ),
                (!e0 && ended && done < n) ==> spec_stream_bytes(
                    *ex,
                    self.no_fat_chain,
                    c0,
                    o0,
                    n as nat,
                ).len() < n,
            decreases n - done,
        {
            if ended {
                return Err(ReadError::EndOfStream);
            }

            let avail = cs - offset;
            let want = n - done;
            let take: usize = if (want as u64) < avail {
                want
            } else {
                avail as usize
            };

            proof {
                let heap = ex.params.cluster_heap_offset;
                let bps = ex.params.bytes_per_sector;
                assert(heap as int * bps as int <= 0xffffffff * 4096) by (nonlinear_arith)
                    requires
                        heap <= 0xffffffffu64,
                        bps <= 4096u64,
                ;
                assert((cluster - 2) as int * cs as int <= 0xffffffff * 0x2000000)
                    by (nonlinear_arith)
                    requires
                        2 <= cluster,
                        cluster as int - 2 <= 0xffffffff,
                        cs <= 0x2000000u64,
                ;
            }

            let heap_bytes = ex.params.cluster_heap_offset * ex.params.bytes_per_sector;
            let addr = heap_bytes + (cluster as u64 - 2) * cs + offset;

            let mut chunk: Vec<u8> = vec![0u8; take];
            match ex.partition.read_exact(addr, &mut chunk) {
                Ok(()) => {},
                Err(e) => {
                    return Err(ReadError::Disk(e));
                },
            }

            proof {
                if o0 + n <= cs && done == 0 {
                    assert(out@ + chunk@ =~= ex.partition.content().subrange(
                        addr0 + o0,
                        addr0 + o0 + take,
                    ));
                }
            }

            let ghost out_before = out@;
            let ghost chunk_bytes = chunk@;
            let ghost rem = (n - done) as nat;
            let ghost cluster_before = cluster as int;
            let ghost offset_before = offset as int;

            out.append(&mut chunk);
            done = done + take;
            offset = offset + take as u64;

            if offset == cs {
                offset = 0;
                if self.no_fat_chain {
                    if cluster + 1 < fat_len {
                        cluster = cluster + 1;
                    } else {
                        ended = true;
                    }
                } else {
                    let link = ex.fat.entry(cluster);
                    let next = link as usize;
                    if next < 2 || next >= fat_len {
                        ended = true;
                    } else if ex.fat.entry(next) == BAD_CLUSTER {
                        ended = true;
                    } else {
                        cluster = next;
                    }
                }
            }

            proof {
                if !e0 {
                    let nfc = self.no_fat_chain;
                    let stepped = spec_stream_bytes(*ex, nfc, cluster_before, offset_before, rem);
                    if take as nat == rem {
                        assert(stepped == chunk_bytes);
                    } else {
                        // the chunk ran to the cluster's end and the walk
                        // moved on
                        match spec_next_cluster(*ex, nfc, cluster_before) {
                            Some(c2) => {
                                let rest = spec_stream_bytes(
                                    *ex,
                                    nfc,
                                    c2,
                                    0,
                                    (rem - take) as nat,
                                );
                                assert(stepped == chunk_bytes + rest);
                                assert(out_before + (chunk_bytes + rest) =~= (out_before
                                    + chunk_bytes) + rest);
                            },
                            None => {
                                assert(ended);
                            },
                        }
                    }
                }
            }
        }

        self.cluster = cluster;
        self.offset = offset;
        self.ended = ended;
        match self.data_length {
            Some(_) => {
                self.consumed = self.consumed + n as u64;
            },
            None => {},
        }
        *buf = out;

        Ok(())
    }
}

} // verus!
