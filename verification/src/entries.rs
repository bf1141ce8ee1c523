//! Directory entries: the 32-byte records of a directory stream and the
//! assembly of file entry sets (file + stream extension + filenames).

use vstd::prelude::*;
use vstd::bytes::{
    spec_u16_from_le_bytes, spec_u32_from_le_bytes, spec_u64_from_le_bytes, u16_from_le_bytes,
    u32_from_le_bytes, u64_from_le_bytes,
};
use vstd::slice::slice_subrange;
use crate::cluster::{spec_stream_bytes, ClustersReader, ReadError};
use crate::disk::DiskPartition;
use crate::{ExFat, FileAttributes};

verus! {

/// The 16-bit little-endian integer at `off`.
pub open spec fn spec_le16(s: Seq<u8>, off: int) -> u16 {
    spec_u16_from_le_bytes(s.subrange(off, off + 2))
}

/// The 32-bit little-endian integer at `off`.
pub open spec fn spec_le32(s: Seq<u8>, off: int) -> u32 {
    spec_u32_from_le_bytes(s.subrange(off, off + 4))
}

/// The 64-bit little-endian integer at `off`.
pub open spec fn spec_le64(s: Seq<u8>, off: int) -> u64 {
    spec_u64_from_le_bytes(s.subrange(off, off + 8))
}

/// Represents an error for [`EntriesReader::read()`].
#[derive(Debug, PartialEq, Eq)]
pub enum ReaderError {
    /// Entry `0` on cluster `1` could not be read.
    ReadFailed(usize, usize, ReadError),
}

/// Represents an error for [`ClusterAllocation::load()`].
#[derive(Debug, PartialEq, Eq)]
pub enum ClusterAllocationError {
    /// FirstCluster is the reserved index 1.
    InvalidFirstCluster,
    /// DataLength is not zero although no cluster is allocated.
    InvalidDataLength,
}

/// Encapsulates the EntryType field of a directory entry.
#[derive(Debug, Clone, Copy, PartialEq, Eq)]
pub struct EntryType(pub u8);

/// A regular entry of critical importance and secondary category whose
/// type code is `code`.
pub open spec fn spec_is_critical_secondary(b: u8, code: u8) -> bool {
    &&& b >= 0x81
    &&& (b & 0x20) >> 5 == 0
    &&& (b & 0x40) >> 6 == 1
    &&& b & 0x1f == code
}

/// A regular entry of critical importance and primary category whose
/// type code is `code`.
pub open spec fn spec_is_critical_primary(b: u8, code: u8) -> bool {
    &&& b >= 0x81
    &&& (b & 0x20) >> 5 == 0
    &&& (b & 0x40) >> 6 == 0
    &&& b & 0x1f == code
}

impl EntryType {
    /// Value of `type_category()` for a primary entry.
    pub const PRIMARY: u8 = 0;

    /// Value of `type_category()` for a secondary entry.
    pub const SECONDARY: u8 = 1;

    /// Value of `type_importance()` for a critical entry.
    pub const CRITICAL: u8 = 0;

    /// An entry below 0x81 is end-of-directory or deleted and ends the
    /// enumeration.
    pub fn is_regular(self) -> (r: bool)
        ensures
            r == (self.0 >= 0x81),
    {
        self.0 >= 0x81
    }

    pub fn type_code(self) -> (r: u8)
        ensures
            r == self.0 & 0x1f,
    {
        self.0 & 0x1f
    }

    pub fn type_importance(self) -> (r: u8)
        ensures
            r == (self.0 & 0x20) >> 5,
    {
        (self.0 & 0x20) >> 5
    }

    pub fn type_category(self) -> (r: u8)
        ensures
            r == (self.0 & 0x40) >> 6,
    {
        (self.0 & 0x40) >> 6
    }

    pub fn is_critical_secondary(self, code: u8) -> (r: bool)
        ensures
            r == spec_is_critical_secondary(self.0, code),
    {
        self.is_regular() && self.type_importance() == Self::CRITICAL && self.type_category()
            == Self::SECONDARY && self.type_code() == code
    }
}

/// Represents GeneralSecondaryFlags in the Generic Secondary DirectoryEntry
/// Template.
#[derive(Debug, Clone, Copy, PartialEq, Eq)]
pub struct SecondaryFlags(pub u8);

impl SecondaryFlags {
    /// Bit 0: the entry can own a cluster allocation.
    pub fn allocation_possible(self) -> (r: bool)
        ensures
            r == (self.0 & 1 != 0),
    {
        (self.0 & 1) != 0
    }

    /// Bit 1: the allocation is contiguous and the FAT is not consulted.
    pub fn no_fat_chain(self) -> (r: bool)
        ensures
            r == (self.0 & 2 != 0),
    {
        (self.0 & 2) != 0
    }
}

/// A FirstCluster of 0 with a DataLength of 0 is an empty allocation; a
/// FirstCluster of 1 is reserved; anything else is accepted as given.
pub open spec fn spec_allocation_ok(fc: u32, dl: u64) -> bool {
    &&& (fc == 0 ==> dl == 0)
    &&& fc != 1
}

/// The condition under which a stream-extension entry decodes, given
/// whether the owning file is a directory: allocation possible, a name
/// of at least one unit, a valid allocation, and a valid data length
/// that equals the data length for directories and never exceeds it for
/// files.
pub open spec fn spec_stream_extension_ok(d: Seq<u8>, is_dir: bool) -> bool {
    &&& d[1] & 1 != 0
    &&& d[3] >= 1
    &&& spec_allocation_ok(spec_le32(d, 20), spec_le64(d, 24))
    &&& (is_dir ==> spec_le64(d, 8) == spec_le64(d, 24))
    &&& (!is_dir ==> spec_le64(d, 8) <= spec_le64(d, 24))
}

/// Represents FirstCluster and DataLength fields in the Directory Entry.
#[derive(Debug, Clone, PartialEq, Eq)]
pub struct ClusterAllocation {
    pub first_cluster: usize,
    pub data_length: u64,
}

impl ClusterAllocation {
    /// Decodes FirstCluster (offset 20) and DataLength (offset 24) and
    /// checks them: accepted exactly when no cluster is allocated with a
    /// zero length, or the first cluster is 2 or above.
    pub fn load(entry: &RawEntry) -> (r: Result<Self, ClusterAllocationError>)
        requires
            entry.wf(),
        ensures
            ({
                let fc = spec_le32(entry.spec_data(), 20);
                let dl = spec_le64(entry.spec_data(), 24);
                &&& (r matches Ok(a) ==> a.first_cluster == fc as usize && a.data_length == dl)
                &&& (r is Ok <==> spec_allocation_ok(fc, dl))
                &&& (r == Err::<Self, ClusterAllocationError>(
                    ClusterAllocationError::InvalidDataLength,
                ) <==> (fc == 0 && dl != 0))
                &&& (r == Err::<Self, ClusterAllocationError>(
                    ClusterAllocationError::InvalidFirstCluster,
                ) <==> fc == 1)
            }),
    {
        let data = entry.data();
        let first_cluster = u32_from_le_bytes(slice_subrange(data.as_slice(), 20, 24)) as usize;
        let data_length = u64_from_le_bytes(slice_subrange(data.as_slice(), 24, 32));

        if first_cluster == 0 {
            if data_length != 0 {
                return Err(ClusterAllocationError::InvalidDataLength);
            }
        } else if first_cluster < 2 {
            return Err(ClusterAllocationError::InvalidFirstCluster);
        }

        Ok(Self { first_cluster, data_length })
    }

    pub fn first_cluster(&self) -> (r: usize)
        ensures
            r == self.first_cluster,
    {
        self.first_cluster
    }

    pub fn data_length(&self) -> (r: u64)
        ensures
            r == self.data_length,
    {
        self.data_length
    }
}

/// Represents a raw directory entry: 32 bytes annotated with the cluster
/// they came from and their position within it.
pub struct RawEntry {
    index: usize,
    cluster: usize,
    data: Vec<u8>,
}

impl RawEntry {
    /// Position within the originating cluster.
    pub closed spec fn spec_index(self) -> int {
        self.index as int
    }

    /// The originating cluster.
    pub closed spec fn spec_cluster(self) -> int {
        self.cluster as int
    }

    /// The 32 data bytes.
    pub closed spec fn spec_data(self) -> Seq<u8> {
        self.data@
    }

    pub open spec fn wf(self) -> bool {
        self.spec_data().len() == 32
    }

    pub fn ty(&self) -> (r: EntryType)
        requires
            self.wf(),
        ensures
            r.0 == self.spec_data()[0],
    {
        EntryType(self.data[0])
    }

    pub fn index(&self) -> (r: usize)
        ensures
            r as int == self.spec_index(),
    {
        self.index
    }

    pub fn cluster(&self) -> (r: usize)
        ensures
            r as int == self.spec_cluster(),
    {
        self.cluster
    }

    pub fn data(&self) -> (r: &Vec<u8>)
        ensures
            r@ == self.spec_data(),
    {
        &self.data
    }
}

/// Reads 32-byte directory entries off a cluster stream. The ghost
/// history records the bytes of every entry handed out, so that callers
/// can state what an assembled record was built from.
pub struct EntriesReader<'a, P: DiskPartition> {
    cluster_reader: ClustersReader<'a, P>,
    entry_index: usize,
    history: Ghost<Seq<Seq<u8>>>,
}

impl<'a, P: DiskPartition> EntriesReader<'a, P> {
    /// The bytes of every entry this reader has returned, oldest first.
    pub closed spec fn spec_history(self) -> Seq<Seq<u8>> {
        self.history@
    }

    /// The volume being read.
    pub closed spec fn spec_exfat(self) -> ExFat<P> {
        self.cluster_reader.spec_exfat()
    }

    /// Bytes consumed from the underlying stream, when it is capped.
    pub closed spec fn spec_consumed(self) -> int {
        self.cluster_reader.spec_consumed()
    }

    /// The underlying stream's byte-length cap.
    pub closed spec fn spec_data_length(self) -> Option<u64> {
        self.cluster_reader.spec_data_length()
    }

    /// The cluster the underlying stream stands in.
    pub closed spec fn spec_cluster(self) -> int {
        self.cluster_reader.spec_cluster()
    }

    /// The position within that cluster.
    pub closed spec fn spec_offset(self) -> int {
        self.cluster_reader.spec_offset()
    }

    /// Whether the underlying stream has run out.
    pub closed spec fn spec_ended(self) -> bool {
        self.cluster_reader.spec_ended()
    }

    /// Whether the underlying stream strides contiguously.
    pub closed spec fn spec_no_fat_chain(self) -> bool {
        self.cluster_reader.spec_no_fat_chain()
    }

    /// The index the next returned entry will carry.
    pub closed spec fn spec_entry_index(self) -> int {
        self.entry_index as int
    }

    pub closed spec fn wf(self) -> bool {
        self.cluster_reader.wf()
    }

    pub fn new(cluster_reader: ClustersReader<'a, P>) -> (r: Self)
        requires
            cluster_reader.wf(),
        ensures
            r.wf(),
            r.spec_history() == Seq::<Seq<u8>>::empty(),
            r.spec_exfat() == cluster_reader.spec_exfat(),
            r.spec_data_length() == cluster_reader.spec_data_length(),
            r.spec_consumed() == cluster_reader.spec_consumed(),
            r.spec_cluster() == cluster_reader.spec_cluster(),
            r.spec_offset() == cluster_reader.spec_offset(),
            r.spec_ended() == cluster_reader.spec_ended(),
            r.spec_no_fat_chain() == cluster_reader.spec_no_fat_chain(),
            r.spec_entry_index() == 0,
    {
        Self { cluster_reader, entry_index: 0, history: Ghost(Seq::empty()) }
    }

    /// Reads the next 32-byte entry. The index annotation counts entries
    /// within one cluster and restarts when the stream moves to the next.
    pub fn read(&mut self) -> (r: Result<RawEntry, ReaderError>)
        requires
            old(self).wf(),
        ensures
            final(self).wf(),
            final(self).spec_exfat() == old(self).spec_exfat(),
            final(self).spec_data_length() == old(self).spec_data_length(),
            r matches Ok(e) ==> e.wf() && final(self).spec_history() == old(
                self).spec_history().push(e.spec_data()),
            r matches Ok(e) ==> ({
                &&& !old(self).spec_ended()
                &&& e.spec_data() == spec_stream_bytes(
                    old(self).spec_exfat(),
                    old(self).spec_no_fat_chain(),
                    old(self).spec_cluster(),
                    old(self).spec_offset(),
                    32,
                )
                &&& e.spec_cluster() == old(self).spec_cluster()
                &&& e.spec_index() == old(self).spec_entry_index()
            }),
            r is Ok ==> (final(self).spec_cluster() != old(self).spec_cluster() ==> final(
                self).spec_entry_index() == 0),
            r is Ok ==> ((final(self).spec_cluster() == old(self).spec_cluster() && old(
                self).spec_entry_index() < usize::MAX) ==> final(self).spec_entry_index() == old(
                self).spec_entry_index() + 1),
            r is Err ==> *final(self) == *old(self),
            old(self).spec_data_length() is None ==> final(self).spec_consumed() == old(
                self).spec_consumed(),
            old(self).spec_data_length() matches Some(l) ==> (r is Ok ==> final(
                self).spec_consumed() == old(self).spec_consumed() + 32 && final(
                self).spec_consumed() <= l),
            r is Err ==> final(self).spec_consumed() == old(self).spec_consumed(),
    {
        let cluster = self.cluster_reader.cluster();
        let index = self.entry_index;

        let mut entry: Vec<u8> = vec![0u8; 32];

        match self.cluster_reader.read_exact(&mut entry) {
            Ok(()) => {},
            Err(e) => {
                return Err(ReaderError::ReadFailed(index, cluster, e));
            },
        }

        if self.cluster_reader.cluster() != cluster {
            self.entry_index = 0;
        } else {
            self.entry_index = match self.entry_index.checked_add(1) {
                Some(v) => v,
                None => 0,
            };
        }

        let e = RawEntry { index, cluster, data: entry };
        proof {
            self.history@ = self.history@.push(e.spec_data());
        }

        Ok(e)
    }
}

/// Represents an error for [`FileEntry::load()`].
#[derive(Debug, PartialEq, Eq)]
pub enum FileEntryError {
    /// No stream extension follows entry `0` on cluster `1`.
    NoStreamExtension(usize, usize),
    /// No file name follows entry `0` on cluster `1`.
    NoFileName(usize, usize),
    /// The stream extension could not be read.
    ReadStreamFailed(ReaderError),
    /// Entry `0` on cluster `1` is not a stream extension.
    NotStreamExtension(usize, usize),
    /// Entry `0` on cluster `1` is not a valid stream extension.
    InvalidStreamExtension(usize, usize),
    /// File name `0` could not be read.
    ReadFileNameFailed(usize, ReaderError),
    /// Entry `0` on cluster `1` is not a file name.
    NotFileName(usize, usize),
    /// Entry `0` on cluster `1` declares the wrong number of file names.
    WrongFileNames(usize, usize),
    /// Entry `0` on cluster `1` is not a valid file name.
    InvalidFileName(usize, usize),
}

/// Represents a Stream Extension Directory Entry.
#[derive(Debug, Clone, PartialEq, Eq)]
pub struct StreamEntry {
    pub no_fat_chain: bool,
    pub name_length: usize,
    pub valid_data_length: u64,
    pub alloc: ClusterAllocation,
}

impl StreamEntry {
    /// Every decoded stream satisfies this: the name length fits one byte
    /// and is at least 1, a directory's valid data length equals its data
    /// length while a file's never exceeds it, and the allocation passed
    /// [`ClusterAllocation::load`].
    pub open spec fn wf_for(self, is_dir: bool) -> bool {
        &&& 1 <= self.name_length <= 255
        &&& (is_dir ==> self.valid_data_length == self.alloc.data_length)
        &&& (!is_dir ==> self.valid_data_length <= self.alloc.data_length)
        &&& (self.alloc.first_cluster == 0 ==> self.alloc.data_length == 0)
        &&& self.alloc.first_cluster != 1
    }

    /// Decodes a stream extension. Accepted exactly when bit 0 of the
    /// flags is set, NameLength is at least 1, the allocation is valid,
    /// and ValidDataLength relates to DataLength as the attributes demand.
    fn load(raw: RawEntry, attrs: FileAttributes) -> (r: Result<StreamEntry, FileEntryError>)
        requires
            raw.wf(),
        ensures
            ({
                let d = raw.spec_data();
                &&& (r is Ok <==> spec_stream_extension_ok(d, attrs.spec_is_directory()))
                &&& (r matches Ok(s) ==> {
                    &&& s.no_fat_chain == (d[1] & 2 != 0)
                    &&& s.name_length == d[3] as usize
                    &&& s.valid_data_length == spec_le64(d, 8)
                    &&& s.alloc.first_cluster == spec_le32(d, 20) as usize
                    &&& s.alloc.data_length == spec_le64(d, 24)
                    &&& s.wf_for(attrs.spec_is_directory())
                })
                &&& (r matches Err(e) ==> e matches FileEntryError::InvalidStreamExtension(
                    i,
                    c,
                ) && i as int == raw.spec_index() && c as int == raw.spec_cluster())
            }),
    {
        let data = raw.data();
        let general_secondary_flags = SecondaryFlags(data[1]);

        if !general_secondary_flags.allocation_possible() {
            return Err(FileEntryError::InvalidStreamExtension(raw.index(), raw.cluster()));
        }

        let name_length = data[3] as usize;

        if name_length < 1 {
            return Err(FileEntryError::InvalidStreamExtension(raw.index(), raw.cluster()));
        }

        let valid_data_length = u64_from_le_bytes(slice_subrange(data.as_slice(), 8, 16));
        let alloc = match ClusterAllocation::load(&raw) {
            Ok(v) => v,
            Err(_) => {
                return Err(FileEntryError::InvalidStreamExtension(raw.index(), raw.cluster()));
            },
        };

        if attrs.is_directory() {
            if valid_data_length != alloc.data_length {
                return Err(FileEntryError::InvalidStreamExtension(raw.index(), raw.cluster()));
            }
        } else if valid_data_length > alloc.data_length {
            return Err(FileEntryError::InvalidStreamExtension(raw.index(), raw.cluster()));
        }

        Ok(StreamEntry {
            no_fat_chain: general_secondary_flags.no_fat_chain(),
            name_length,
            valid_data_length,
            alloc,
        })
    }

    pub fn no_fat_chain(&self) -> (r: bool)
        ensures
            r == self.no_fat_chain,
    {
        self.no_fat_chain
    }

    pub fn valid_data_length(&self) -> (r: u64)
        ensures
            r == self.valid_data_length,
    {
        self.valid_data_length
    }

    pub fn allocation(&self) -> (r: &ClusterAllocation)
        ensures
            r == self.alloc,
    {
        &self.alloc
    }
}

/// How many filename entries a name of `nl` units occupies: 15 units fit
/// in each.
pub open spec fn spec_name_entry_count(nl: int) -> int {
    (nl + 14) / 15
}

/// What holds of a file entry set that was assembled successfully.
///
/// `primary` is the file entry itself, `h0` the reader's history before
/// the call, `h` the history after it, and `f` the result. The secondary
/// entries consumed are exactly one stream extension followed by
/// `ceil(name_length / 15)` filename entries, each of the declared
/// critical-secondary type; the name holds exactly `name_length` units,
/// the u-th taken little-endian from filename entry `u / 15` at byte
/// offset `2 + 2 * (u % 15)`.
pub open spec fn spec_entry_set_ok(
    primary: Seq<u8>,
    h0: Seq<Seq<u8>>,
    h: Seq<Seq<u8>>,
    f: FileEntry,
) -> bool {
    let k = h0.len() as int;
    let nl = f.stream.name_length as int;
    &&& f.attributes.0 == spec_le16(primary, 4)
    &&& primary[1] as int == 1 + spec_name_entry_count(nl)
    &&& 1 <= nl <= 255
    &&& f.name@.len() == nl
    &&& h.len() == k + 1 + spec_name_entry_count(nl)
    &&& h.subrange(0, k) == h0
    &&& h[k].len() == 32
    &&& spec_is_critical_secondary(h[k][0], 0)
    &&& f.stream.no_fat_chain == (h[k][1] & 2 != 0)
    &&& f.stream.name_length == h[k][3] as usize
    &&& f.stream.valid_data_length == spec_le64(h[k], 8)
    &&& f.stream.alloc.first_cluster == spec_le32(h[k], 20) as usize
    &&& f.stream.alloc.data_length == spec_le64(h[k], 24)
    &&& f.stream.wf_for(f.attributes.spec_is_directory())
    &&& forall|i: int|
        k + 1 <= i < h.len() ==> (#[trigger] h[i]).len() == 32 && spec_is_critical_secondary(
            h[i][0],
            1,
        ) && h[i][1] & 1 == 0
    &&& forall|u: int|
        0 <= u < nl ==> #[trigger] f.name@[u] == spec_le16(h[k + 1 + u / 15], 2 + 2 * (u % 15))
    &&& spec_utf16_valid(f.name@)
}

/// Represents a File Directory Entry with its stream extension and its
/// assembled name.
#[derive(Debug, PartialEq, Eq)]
pub struct FileEntry {
    pub name: Vec<u16>,
    pub attributes: FileAttributes,
    pub stream: StreamEntry,
}

impl FileEntry {
    /// Assembles the entry set that starts at the primary file entry
    /// `raw`: reads the stream extension and the filename entries from
    /// `reader` and builds the name.
    pub fn load<'a, P: DiskPartition>(raw: &RawEntry, reader: &mut EntriesReader<'a, P>) -> (r:
        Result<FileEntry, FileEntryError>)
        requires
            raw.wf(),
            old(reader).wf(),
        ensures
            final(reader).wf(),
            final(reader).spec_exfat() == old(reader).spec_exfat(),
            final(reader).spec_data_length() == old(reader).spec_data_length(),
            final(reader).spec_consumed() >= old(reader).spec_consumed(),
            old(reader).spec_data_length() matches Some(l) ==> (old(reader).spec_consumed()
                <= l ==> final(reader).spec_consumed() <= l),
            r matches Ok(f) ==> spec_entry_set_ok(
                raw.spec_data(),
                old(reader).spec_history(),
                final(reader).spec_history(),
                f,
            ),
            (r matches Err(e) && e is NoStreamExtension) <==> raw.spec_data()[1] == 0,
            (r matches Err(e) && e is NoFileName) <==> raw.spec_data()[1] == 1,
            (r matches Err(e) && (e is NoStreamExtension || e is NoFileName
                || e is ReadStreamFailed)) ==> *final(reader) == *old(reader),
            ({
                let h = final(reader).spec_history();
                let k = old(reader).spec_history().len() as int;
                let d = raw.spec_data();
                let dir = spec_le16(d, 4) & 0x0010 != 0;
                &&& (r matches Err(e) ==> (e is NotStreamExtension <==> (h.len() == k + 1
                    && !spec_is_critical_secondary(h[k][0], 0))))
                &&& (r matches Err(e) ==> (e is InvalidStreamExtension <==> (h.len() == k + 1
                    && spec_is_critical_secondary(h[k][0], 0) && !spec_stream_extension_ok(
                    h[k],
                    dir,
                ))))
                &&& ((r matches Err(e) && e is NotFileName) ==> h.len() > k + 1
                    && !spec_is_critical_secondary(h.last()[0], 1) && spec_is_critical_secondary(
                    h[k][0],
                    0,
                ) && forall|j: int|
                    k + 1 <= j < h.len() - 1 ==> spec_is_critical_secondary(
                        (#[trigger] h[j])[0],
                        1,
                    ))
                &&& ((exists|j: int|
                    k + 1 <= j < h.len() && !spec_is_critical_secondary((#[trigger] h[j])[0], 1))
                    ==> (r matches Err(e) && e is NotFileName))
                &&& ((h.len() > k && !spec_is_critical_secondary(h[k][0], 0)) ==> (r matches Err(
                    e,
                ) && e is NotStreamExtension))
                &&& ((h.len() > k && spec_is_critical_secondary(h[k][0], 0)
                    && !spec_stream_extension_ok(h[k], dir)) ==> (r matches Err(e)
                    && e is InvalidStreamExtension))
                &&& ((r matches Err(e) && e is WrongFileNames) ==> h.len() == k + d[1]
                    && spec_is_critical_secondary(h[k][0], 0) && spec_stream_extension_ok(
                    h[k],
                    dir,
                ) && d[1] - 1 != spec_name_entry_count(h[k][3] as int))
                &&& ((r matches Err(e) && e is InvalidFileName) ==> h.len() == k + d[1]
                    && d[1] - 1 == spec_name_entry_count(h[k][3] as int) && ((exists|j: int|
                    k + 1 <= j < h.len() && (#[trigger] h[j])[1] & 1 != 0)
                    || !spec_utf16_valid(
                    Seq::new(
                        h[k][3] as nat,
                        |u: int| spec_le16(h[k + 1 + u / 15], 2 + 2 * (u % 15)),
                    ),
                )))
                &&& ((h.len() == k + d[1] && d[1] >= 2 && spec_is_critical_secondary(h[k][0], 0)
                    && spec_stream_extension_ok(h[k], dir) && (forall|j: int|
                    k + 1 <= j < h.len() ==> spec_is_critical_secondary((#[trigger] h[j])[0], 1))
                    && d[1] - 1 != spec_name_entry_count(h[k][3] as int)) ==> (r matches Err(e)
                    && e is WrongFileNames))
                &&& ((h.len() == k + d[1] && d[1] >= 2 && spec_is_critical_secondary(h[k][0], 0)
                    && spec_stream_extension_ok(h[k], dir) && (forall|j: int|
                    k + 1 <= j < h.len() ==> spec_is_critical_secondary((#[trigger] h[j])[0], 1))
                    && d[1] - 1 == spec_name_entry_count(h[k][3] as int) && ((exists|j: int|
                    k + 1 <= j < h.len() && (#[trigger] h[j])[1] & 1 != 0) || !spec_utf16_valid(
                    Seq::new(
                        h[k][3] as nat,
                        |u: int| spec_le16(h[k + 1 + u / 15], 2 + 2 * (u % 15)),
                    ),
                ))) ==> (r matches Err(e) && e is InvalidFileName))
            }),
    {
        let data = raw.data();
        let secondary_count = data[1] as usize;
        let attributes = FileAttributes(u16_from_le_bytes(slice_subrange(data.as_slice(), 4, 6)));

        if secondary_count < 1 {
            return Err(FileEntryError::NoStreamExtension(raw.index(), raw.cluster()));
        } else if secondary_count < 2 {
            return Err(FileEntryError::NoFileName(raw.index(), raw.cluster()));
        }

        let ghost h0 = old(reader).spec_history();
        let ghost k = h0.len() as int;

        // Read the stream extension.
        let stream_raw = match reader.read() {
            Ok(v) => v,
            Err(e) => {
                return Err(FileEntryError::ReadStreamFailed(e));
            },
        };

        let ty = stream_raw.ty();

        if !ty.is_critical_secondary(0) {
            return Err(FileEntryError::NotStreamExtension(
                stream_raw.index(),
                stream_raw.cluster(),
            ));
        }

        let ghost sdata = stream_raw.spec_data();

        let stream = match StreamEntry::load(stream_raw, attributes) {
            Ok(v) => v,
            Err(e) => {
                return Err(e);
            },
        };

        // Read the file name entries.
        let name_count = secondary_count - 1;
        let mut names: Vec<RawEntry> = Vec::new();
        let mut i: usize = 0;

        while i < name_count
            invariant
                h0 == old(reader).spec_history(),
                k == h0.len() as int,
                raw.spec_data()[1] >= 2,
                raw.spec_data()[1] as int == name_count + 1,
                attributes.0 == spec_le16(raw.spec_data(), 4),
                spec_is_critical_secondary(sdata[0], 0),
                spec_stream_extension_ok(sdata, attributes.spec_is_directory()),
                stream.name_length as int == sdata[3] as int,
                reader.wf(),
                reader.spec_exfat() == old(reader).spec_exfat(),
                reader.spec_data_length() == old(reader).spec_data_length(),
                reader.spec_consumed() >= old(reader).spec_consumed(),
                old(reader).spec_data_length() matches Some(l) ==> (old(
                    reader).spec_consumed() <= l ==> reader.spec_consumed() <= l),
                i <= name_count,
                names@.len() == i,
                reader.spec_history() == h0.push(sdata) + names@.map_values(
                    |e: RawEntry| e.spec_data(),
                ),
                forall|j: int|
                    0 <= j < i ==> (#[trigger] names@[j]).wf() && spec_is_critical_secondary(
                        names@[j].spec_data()[0],
                        1,
                    ),
            decreases name_count - i,
        {
            let entry = match reader.read() {
                Ok(v) => v,
                Err(e) => {
                    proof {
                        let h2 = reader.spec_history();
                        assert(h2[k] == sdata);
                        assert forall|j2: int| k + 1 <= j2 < h2.len()
                            implies spec_is_critical_secondary((#[trigger] h2[j2])[0], 1) by {
                            assert(h2[j2] == names@[j2 - k - 1].spec_data());
                        }
                    }
                    return Err(FileEntryError::ReadFileNameFailed(i, e));
                },
            };

            let ty = entry.ty();

            if !ty.is_critical_secondary(1) {
                proof {
                    let h2 = reader.spec_history();
                    assert(h2[k] == sdata);
                    assert(h2.last() == entry.spec_data());
                    assert forall|j2: int| k + 1 <= j2 < h2.len() - 1
                        implies spec_is_critical_secondary((#[trigger] h2[j2])[0], 1) by {
                        assert(h2[j2] == names@[j2 - k - 1].spec_data());
                    }
                }
                return Err(FileEntryError::NotFileName(entry.index(), entry.cluster()));
            }

            names.push(entry);
            i = i + 1;

            proof {
                assert(reader.spec_history() =~= h0.push(sdata) + names@.map_values(
                    |e: RawEntry| e.spec_data(),
                ));
            }
        }

        if names.len() != (stream.name_length + 15 - 1) / 15 {
            proof {
                let h2 = reader.spec_history();
                assert(h2[k] == sdata);
                assert forall|j2: int| k + 1 <= j2 < h2.len()
                    implies spec_is_critical_secondary((#[trigger] h2[j2])[0], 1) by {
                    assert(h2[j2] == names@[j2 - k - 1].spec_data());
                }
            }
            return Err(FileEntryError::WrongFileNames(raw.index(), raw.cluster()));
        }

        // Build the complete file name.
        let nl = stream.name_length;
        let count = names.len();
        let mut name: Vec<u16> = Vec::new();
        let mut j: usize = 0;

        while j < count
            invariant
                h0 == old(reader).spec_history(),
                k == h0.len() as int,
                raw.spec_data()[1] >= 2,
                raw.spec_data()[1] as int == count + 1,
                attributes.0 == spec_le16(raw.spec_data(), 4),
                spec_is_critical_secondary(sdata[0], 0),
                spec_stream_extension_ok(sdata, attributes.spec_is_directory()),
                nl as int == sdata[3] as int,
                reader.spec_history() == h0.push(sdata) + names@.map_values(
                    |e: RawEntry| e.spec_data(),
                ),
                reader.wf(),
                reader.spec_exfat() == old(reader).spec_exfat(),
                reader.spec_data_length() == old(reader).spec_data_length(),
                reader.spec_consumed() >= old(reader).spec_consumed(),
                old(reader).spec_data_length() matches Some(l) ==> (old(
                    reader).spec_consumed() <= l ==> reader.spec_consumed() <= l),
                count == names@.len(),
                count == spec_name_entry_count(nl as int),
                1 <= nl <= 255,
                j <= count,
                name@.len() == (if 15 * (j as int) < nl { 15 * (j as int) } else { nl as int }),
                forall|jj: int|
                    0 <= jj < count ==> (#[trigger] names@[jj]).wf() && spec_is_critical_secondary(
                        names@[jj].spec_data()[0],
                        1,
                    ),
                forall|jj: int| 0 <= jj < j ==> (#[trigger] names@[jj]).spec_data()[1] & 1 == 0,
                forall|u: int|
                    0 <= u < name@.len() ==> #[trigger] name@[u] == spec_le16(
                        names@[u / 15].spec_data(),
                        2 + 2 * (u % 15),
                    ),
            decreases count - j,
        {
            let entry = &names[j];
            let entry_data = entry.data();

            let general_secondary_flags = SecondaryFlags(entry_data[1]);

            if general_secondary_flags.allocation_possible() {
                proof {
                    let h2 = reader.spec_history();
                    assert(h2[k] == sdata);
                    assert(h2[k + 1 + j as int] == names@[j as int].spec_data());
                    assert(h2[k + 1 + j as int][1] & 1 != 0);
                    assert(exists|j2: int|
                        k + 1 <= j2 < h2.len() && (#[trigger] h2[j2])[1] & 1 != 0);
                    assert forall|j2: int| k + 1 <= j2 < h2.len()
                        implies spec_is_critical_secondary((#[trigger] h2[j2])[0], 1) by {
                        assert(h2[j2] == names@[j2 - k - 1].spec_data());
                    }
                }
                return Err(FileEntryError::InvalidFileName(entry.index(), entry.cluster()));
            }

            let rem = nl - 15 * j;
            let cnt = if rem < 15 {
                rem
            } else {
                15
            };

            let mut chunk: Vec<u16> = Vec::new();
            let mut u: usize = 0;

            while u < cnt
                invariant
                    u <= cnt,
                    cnt <= 15,
                    chunk@.len() == u,
                    entry_data@.len() == 32,
                    forall|v: int|
                        0 <= v < u ==> #[trigger] chunk@[v] == spec_le16(
                            entry_data@,
                            2 + 2 * v,
                        ),
                decreases cnt - u,
            {
                let unit = u16_from_le_bytes(
                    slice_subrange(entry_data.as_slice(), 2 + 2 * u, 4 + 2 * u),
                );
                chunk.push(unit);
                u = u + 1;
            }

            let ghost jj = j as int;
            let ghost base = name@.len() as int;
            name.append(&mut chunk);
            j = j + 1;

            proof {
                assert forall|u2: int| base <= u2 < name@.len() implies #[trigger] name@[u2]
                    == spec_le16(names@[u2 / 15].spec_data(), 2 + 2 * (u2 % 15)) by {
                    vstd::arithmetic::div_mod::lemma_fundamental_div_mod_converse_div(
                        u2,
                        15,
                        jj,
                        u2 - 15 * jj,
                    );
                    vstd::arithmetic::div_mod::lemma_fundamental_div_mod_converse_mod(
                        u2,
                        15,
                        jj,
                        u2 - 15 * jj,
                    );
                }
            }
        }

        let ghost h = reader.spec_history();

        proof {
            assert(h.subrange(0, k) =~= h0);
            assert forall|idx: int| k + 1 <= idx < h.len() implies (#[trigger] h[idx]).len() == 32
                && spec_is_critical_secondary(h[idx][0], 1) && h[idx][1] & 1 == 0 by {
                assert(h[idx] == names@[idx - k - 1].spec_data());
            }
            assert forall|u2: int| 0 <= u2 < nl implies #[trigger] name@[u2] == spec_le16(
                h[k + 1 + u2 / 15],
                2 + 2 * (u2 % 15),
            ) by {
                assert(0 <= u2 / 15 < count) by {
                    vstd::arithmetic::div_mod::lemma_div_pos_is_pos(u2, 15);
                    vstd::arithmetic::div_mod::lemma_div_is_ordered(u2, nl as int - 1, 15);
                };
                assert(h[k + 1 + u2 / 15] == names@[u2 / 15].spec_data());
            }
            assert(name@ =~= Seq::new(
                h[k as int][3] as nat,
                |u: int| spec_le16(h[k + 1 + u / 15], 2 + 2 * (u % 15)),
            ));
        }

        // The name decodes as one sequence: a surrogate pair may cross a
        // filename-entry boundary.
        if !utf16_valid(&name) {
            return Err(FileEntryError::InvalidFileName(raw.index(), raw.cluster()));
        }

        Ok(FileEntry { name, attributes, stream })
    }
}

/// A high surrogate, which must open a pair.
pub open spec fn spec_is_high_surrogate(u: u16) -> bool {
    0xD800 <= u < 0xDC00
}

/// A low surrogate, which must close a pair.
pub open spec fn spec_is_low_surrogate(u: u16) -> bool {
    0xDC00 <= u < 0xE000
}

/// The units form well-formed UTF-16: every high surrogate is followed at
/// once by a low one, and no low surrogate stands on its own.
pub open spec fn spec_utf16_valid(s: Seq<u16>) -> bool
    decreases s.len(),
{
    if s.len() == 0 {
        true
    } else if spec_is_high_surrogate(s[0]) {
        s.len() >= 2 && spec_is_low_surrogate(s[1]) && spec_utf16_valid(s.skip(2))
    } else if spec_is_low_surrogate(s[0]) {
        false
    } else {
        spec_utf16_valid(s.skip(1))
    }
}

/// Checks `spec_utf16_valid` on a unit vector.
fn utf16_valid(units: &Vec<u16>) -> (r: bool)
    ensures
        r == spec_utf16_valid(units@),
{
    let n = units.len();
    let mut i: usize = 0;
    proof {
        assert(units@.skip(0) =~= units@);
    }
    while i < n
        invariant
            i <= n,
            n == units@.len(),
            spec_utf16_valid(units@) == spec_utf16_valid(units@.skip(i as int)),
        decreases n - i,
    {
        let u = units[i];
        if 0xD800 <= u && u < 0xDC00 {
            if i + 1 >= n {
                return false;
            }
            let next = units[i + 1];
            if !(0xDC00 <= next && next < 0xE000) {
                return false;
            }
            proof {
                assert(units@.skip(i as int).skip(2) =~= units@.skip(i as int + 2));
            }
            i = i + 2;
        } else if 0xDC00 <= u && u < 0xE000 {
            return false;
        } else {
            proof {
                assert(units@.skip(i as int).skip(1) =~= units@.skip(i as int + 1));
            }
            i = i + 1;
        }
    }
    proof {
        assert(units@.skip(n as int) =~= Seq::<u16>::empty());
    }
    true
}

} // verus!
