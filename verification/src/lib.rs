//! Read-only parser for the exFAT on-disk filesystem format.
//!
//! The crate mounts a volume from any random-access block source, validates
//! the boot sector, loads the active FAT, and decodes the root directory's
//! entry sets into files and directories.

use vstd::prelude::*;
use std::sync::Arc;

pub mod cluster;
pub mod directory;
pub mod disk;
pub mod entries;
pub mod fat;
pub mod file;
pub mod param;

pub use directory::Directory;
pub use directory::Item;
pub use disk::DiskError;
pub use disk::DiskPartition;
pub use disk::MemoryPartition;
pub use file::File;
pub use param::Params;
pub use param::VolumeFlags;

use crate::cluster::ClustersReader;
use crate::entries::{ClusterAllocation, EntriesReader, EntryType, FileEntry};
use crate::fat::Fat;
use crate::param::spec_signature_ok;

verus! {

/// Shares a volume handle with a derived file or directory.
///
/// Relies on `Arc::clone`: the returned handle refers to the same value.
#[verifier::external_body]
pub(crate) fn share<T>(arc: &Arc<T>) -> (r: Arc<T>)
    ensures
        r == *arc,
{
    Arc::clone(arc)
}

/// What `String::from_utf16_lossy` decodes a unit sequence to; the result
/// depends on the units alone.
pub uninterp spec fn spec_utf16_lossy(units: Seq<u16>) -> Seq<char>;

/// Decodes UTF-16 with lossy replacement for ill-formed surrogates.
///
/// Relies on `String::from_utf16_lossy`: the result is a function of the
/// units alone, with unpaired surrogates replaced.
#[verifier::external_body]
fn utf16_lossy(units: &Vec<u16>) -> (r: String)
    ensures
        r@ == spec_utf16_lossy(units@),
        (forall|i: int| 0 <= i < units@.len() ==> !(0xD800 <= #[trigger] units@[i] < 0xE000))
            ==> (r@.len() == units@.len() && forall|i: int|
            0 <= i < units@.len() ==> (#[trigger] r@[i]) as u32 == units@[i] as u32),
{
    String::from_utf16_lossy(units.as_slice())
}

/// Contains the shared, immutable state of an opened exFAT volume: the
/// block source, the boot parameters, and the active FAT.
pub struct ExFat<P: DiskPartition> {
    pub partition: P,
    pub params: Params,
    pub fat: Fat,
}

impl<P: DiskPartition> ExFat<P> {
    /// The parameters are valid and the FAT covers every cluster.
    pub open spec fn wf(self) -> bool {
        &&& self.params.wf()
        &&& self.fat@.len() == self.params.cluster_count as int + 2
    }
}

/// Represents an error for [`Root::open()`].
#[derive(Debug, PartialEq, Eq)]
pub enum OpenError {
    /// The main boot region could not be read.
    ReadMainBootFailed(DiskError),
    /// The image is not exFAT.
    NotExFat,
    /// Invalid BytesPerSectorShift.
    InvalidBytesPerSectorShift,
    /// Invalid SectorsPerClusterShift.
    InvalidSectorsPerClusterShift,
    /// Invalid NumberOfFats.
    InvalidNumberOfFats,
    /// The FAT region could not be read.
    ReadFatRegionFailed(fat::LoadError),
    /// No cluster stream can be opened over a directory.
    CreateClustersReaderFailed(cluster::NewError),
    /// A directory entry could not be read.
    ReadEntryFailed(entries::ReaderError),
    /// Directory entry `0` on cluster `1` is not a primary entry.
    NotPrimaryEntry(usize, usize),
    /// More than two allocation bitmaps exist in the root directory.
    TooManyAllocationBitmap,
    /// An allocation bitmap in the root directory is not for its
    /// corresponding FAT.
    WrongAllocationBitmap,
    /// Multiple up-case tables exist in the root directory.
    MultipleUpcaseTable,
    /// Multiple volume labels exist in the root directory.
    MultipleVolumeLabel,
    /// The volume label is invalid.
    InvalidVolumeLabel,
    /// A file entry could not be loaded.
    LoadFileEntryFailed(entries::FileEntryError),
    /// No file object can be created for entry `0` on cluster `1`.
    CreateFileObjectFailed(usize, usize, file::NewError),
    /// The cluster allocation of entry `0` on cluster `1` is invalid.
    ReadClusterAllocationFailed(usize, usize, entries::ClusterAllocationError),
    /// Directory entry `0` on cluster `1` is of an unknown kind.
    UnknownEntry(usize, usize),
    /// No allocation bitmap is available for the active FAT.
    NoAllocationBitmap,
    /// No up-case table is available.
    NoUpcaseTable,
}

/// Represents a root directory in exFAT.
pub struct Root<P: DiskPartition> {
    exfat: Arc<ExFat<P>>,
    volume_label: Option<String>,
    items: Vec<Item<P>>,
    entries_read: Ghost<Seq<Seq<u8>>>,
}

impl<P: DiskPartition> Root<P> {
    /// The shared state of the mounted volume.
    pub closed spec fn spec_exfat(self) -> ExFat<P> {
        *self.exfat
    }

    /// The decoded boot parameters.
    pub open spec fn spec_params(self) -> Params {
        self.spec_exfat().params
    }

    /// The top-level items.
    pub closed spec fn spec_items(self) -> Seq<Item<P>> {
        self.items@
    }

    /// The volume label, if one was present.
    pub closed spec fn spec_volume_label(self) -> Option<String> {
        self.volume_label
    }

    /// The bytes of every 32-byte directory record the mount consumed,
    /// in on-disk order.
    pub closed spec fn spec_entries_read(self) -> Seq<Seq<u8>> {
        self.entries_read@
    }

    /// Every mounted volume satisfies this: the boot parameters are
    /// valid, the FAT covers every cluster, and each item is well formed
    /// and shares this volume's handle.
    pub open spec fn wf(self) -> bool {
        &&& self.spec_exfat().wf()
        &&& forall|i: int|
            0 <= i < self.spec_items().len() ==> (#[trigger] self.spec_items()[i]).wf()
                && self.spec_items()[i].spec_exfat() == self.spec_exfat()
    }

    /// Mounts a volume: validates the boot sector, loads the active FAT,
    /// and decodes the root directory.
    pub fn open(partition: P) -> (r: Result<Root<P>, OpenError>)
        ensures
            r matches Ok(root) ==> root.wf(),
            r matches Ok(root) ==> (root.spec_params().number_of_fats == 1
                ==> root.spec_params().volume_flags.spec_active_fat() == 0),
            r matches Ok(root) ==> ({
                let boot = partition.content().subrange(0, 512);
                &&& spec_signature_ok(boot)
                &&& root.spec_params().fat_offset == entries::spec_le32(boot, 80) as u64
                &&& root.spec_params().fat_length == entries::spec_le32(boot, 84) as u64
                &&& root.spec_params().cluster_heap_offset == entries::spec_le32(boot, 88) as u64
                &&& root.spec_params().cluster_count == entries::spec_le32(boot, 92) as usize
                &&& root.spec_params().first_cluster_of_root_directory == entries::spec_le32(
                    boot,
                    96,
                ) as usize
                &&& root.spec_params().volume_flags.0 == entries::spec_le16(boot, 106)
                &&& root.spec_params().bytes_per_sector == 1u64 << (boot[108] as u64)
                &&& root.spec_params().sectors_per_cluster == 1u64 << (boot[109] as u64)
                &&& root.spec_params().number_of_fats == boot[110]
            }),
            r == Err::<Root<P>, OpenError>(OpenError::NotExFat) ==> !spec_signature_ok(
                partition.content().subrange(0, 512),
            ),
            !spec_signature_ok(partition.content().subrange(0, 512)) ==> r is Err,
            r == Err::<Root<P>, OpenError>(OpenError::InvalidBytesPerSectorShift) ==> ({
                let boot = partition.content().subrange(0, 512);
                spec_signature_ok(boot) && !(9 <= boot[108] <= 12)
            }),
            r == Err::<Root<P>, OpenError>(OpenError::InvalidSectorsPerClusterShift) ==> ({
                let boot = partition.content().subrange(0, 512);
                spec_signature_ok(boot) && 9 <= boot[108] <= 12 && boot[109] > 25 - boot[108]
            }),
            r == Err::<Root<P>, OpenError>(OpenError::InvalidNumberOfFats) ==> ({
                let boot = partition.content().subrange(0, 512);
                ||| !(boot[110] == 1 || boot[110] == 2)
                ||| (boot[110] == 1 && entries::spec_le16(boot, 106) & 1 == 1)
            }),
            ({
                let boot = partition.content().subrange(0, 512);
                !spec_signature_ok(boot)
            }) ==> (r == Err::<Root<P>, OpenError>(OpenError::NotExFat) || r matches Err(
                OpenError::ReadMainBootFailed(_),
            )),
            ({
                let boot = partition.content().subrange(0, 512);
                spec_signature_ok(boot) && !(9 <= boot[108] <= 12)
            }) ==> (r == Err::<Root<P>, OpenError>(OpenError::InvalidBytesPerSectorShift)
                || r matches Err(OpenError::ReadMainBootFailed(_))),
            ({
                let boot = partition.content().subrange(0, 512);
                spec_signature_ok(boot) && 9 <= boot[108] <= 12 && boot[109] > 25 - boot[108]
            }) ==> (r == Err::<Root<P>, OpenError>(OpenError::InvalidSectorsPerClusterShift)
                || r matches Err(OpenError::ReadMainBootFailed(_))),
            ({
                let boot = partition.content().subrange(0, 512);
                spec_signature_ok(boot) && 9 <= boot[108] <= 12 && boot[109] <= 25 - boot[108]
                    && !(boot[110] == 1 || boot[110] == 2)
            }) ==> (r == Err::<Root<P>, OpenError>(OpenError::InvalidNumberOfFats) || r matches Err(
                OpenError::ReadMainBootFailed(_),
            )),
            ({
                let boot = partition.content().subrange(0, 512);
                spec_signature_ok(boot) && 9 <= boot[108] <= 12 && boot[109] <= 25 - boot[108]
                    && boot[110] == 1 && entries::spec_le16(boot, 106) & 1 == 1
            }) ==> (r == Err::<Root<P>, OpenError>(OpenError::InvalidNumberOfFats) || r matches Err(
                OpenError::ReadMainBootFailed(_),
            )),
            r matches Ok(root) ==> ({
                let boot = partition.content().subrange(0, 512);
                let first = cluster::spec_stream_bytes(
                    root.spec_exfat(),
                    false,
                    entries::spec_le32(boot, 96) as int,
                    0,
                    32,
                );
                &&& root.spec_entries_read().len() >= 1
                &&& root.spec_entries_read()[0] == first
                &&& first[0] >= 0x81
                &&& (entries::spec_is_critical_primary(first[0], 5) ==> root.spec_items().len()
                    >= 1)
                &&& (entries::spec_is_critical_primary(first[0], 3)
                    ==> root.spec_volume_label() is Some)
            }),
    {
        // Read the boot sector.
        let mut boot: Vec<u8> = vec![0u8; 512];

        match partition.read_exact(0, &mut boot) {
            Ok(()) => {},
            Err(e) => {
                return Err(OpenError::ReadMainBootFailed(e));
            },
        }

        // Decode and validate the boot parameters.
        let params = match Params::load(&boot) {
            Ok(v) => v,
            Err(e) => {
                return Err(e);
            },
        };

        // Load the active FAT.
        let active_fat = params.volume_flags.active_fat();

        if !(active_fat == 0 || params.number_of_fats == 2) {
            return Err(OpenError::InvalidNumberOfFats);
        }

        let fat = match Fat::load(&params, &partition, active_fat) {
            Ok(v) => v,
            Err(e) => {
                return Err(OpenError::ReadFatRegionFailed(e));
            },
        };

        // Create an entries reader over the root directory. The stream is
        // capped at the whole heap's capacity: a chain that would deliver
        // more bytes must revisit a cluster and cannot end in a terminator.
        let root_cluster = params.first_cluster_of_root_directory;
        let ghost full_content = partition.content();
        let exfat = Arc::new(ExFat { partition, params, fat });
        let exref: &ExFat<P> = &*exfat;

        proof {
            assert(params.cluster_count as int * params.spec_cluster_size() <= 0xffffffff
                * 0x2000000) by (nonlinear_arith)
                requires
                    params.cluster_count <= 0xffffffffusize,
                    0 <= params.spec_cluster_size() <= 0x2000000,
            ;
        }
        let cap: u64 = (params.cluster_count as u64) * params.cluster_size();

        let cluster_reader = match ClustersReader::new(exref, root_cluster, Some(cap), None) {
            Ok(v) => v,
            Err(e) => {
                return Err(OpenError::CreateClustersReaderFailed(e));
            },
        };

        let mut reader = EntriesReader::new(cluster_reader);
        let ghost first_rec = cluster::spec_stream_bytes(
            *exref,
            false,
            root_cluster as int,
            0,
            32,
        );

        // Load the root directory.
        let mut allocation_bitmap0: Option<ClusterAllocation> = None;
        let mut allocation_bitmap1: Option<ClusterAllocation> = None;
        let mut upcase_table = false;
        let mut volume_label: Option<String> = None;
        let mut items: Vec<Item<P>> = Vec::new();

        loop
            invariant_except_break
                reader.spec_history().len() >= 1 ==> first_rec[0] >= 0x81,
            invariant
                reader.wf(),
                reader.spec_exfat() == *exref,
                reader.spec_data_length() == Some(cap),
                0 <= reader.spec_consumed() <= cap as int,
                exref == &*exfat,
                exref.wf(),
                exref.partition.content() == full_content,
                full_content == partition.content(),
                ({
                    let boot = full_content.subrange(0, 512);
                    &&& spec_signature_ok(boot)
                    &&& 9 <= boot[108] <= 12
                    &&& boot[109] <= 25 - boot[108]
                    &&& (boot[110] == 1 || boot[110] == 2)
                    &&& !(boot[110] == 1 && entries::spec_le16(boot, 106) & 1 == 1)
                }),
                first_rec == cluster::spec_stream_bytes(*exref, false, root_cluster as int, 0, 32),
                reader.spec_history().len() == 0 ==> (reader.spec_cluster() == root_cluster as int
                    && reader.spec_offset() == 0 && !reader.spec_ended()
                    && !reader.spec_no_fat_chain()),
                reader.spec_history().len() >= 1 ==> reader.spec_history()[0] == first_rec,
                allocation_bitmap0 is Some ==> reader.spec_history().len() >= 1,
                allocation_bitmap1 is Some ==> allocation_bitmap0 is Some,
                reader.spec_history().len() >= 1 ==> (entries::spec_is_critical_primary(
                    first_rec[0],
                    5,
                ) ==> items@.len() >= 1),
                reader.spec_history().len() >= 1 ==> (entries::spec_is_critical_primary(
                    first_rec[0],
                    3,
                ) ==> volume_label is Some),
                forall|i: int|
                    0 <= i < items@.len() ==> (#[trigger] items@[i]).wf() && items@[i].spec_exfat()
                        == *exref,
            ensures
                reader.spec_history().len() >= 1 ==> reader.spec_history()[0] == first_rec,
                allocation_bitmap0 is Some ==> reader.spec_history().len() >= 1 && first_rec[0]
                    >= 0x81,
                allocation_bitmap1 is Some ==> allocation_bitmap0 is Some,
                reader.spec_history().len() >= 1 ==> (entries::spec_is_critical_primary(
                    first_rec[0],
                    5,
                ) ==> items@.len() >= 1),
                reader.spec_history().len() >= 1 ==> (entries::spec_is_critical_primary(
                    first_rec[0],
                    3,
                ) ==> volume_label is Some),
                forall|i: int|
                    0 <= i < items@.len() ==> (#[trigger] items@[i]).wf() && items@[i].spec_exfat()
                        == *exref,
            decreases cap as int - reader.spec_consumed(),
        {
            // Read a primary entry.
            let entry = match reader.read() {
                Ok(v) => v,
                Err(e) => {
                    return Err(OpenError::ReadEntryFailed(e));
                },
            };

            let ty = entry.ty();

            if !ty.is_regular() {
                break;
            } else if ty.type_category() != EntryType::PRIMARY {
                return Err(OpenError::NotPrimaryEntry(entry.index(), entry.cluster()));
            }

            if ty.type_importance() != EntryType::CRITICAL {
                return Err(OpenError::UnknownEntry(entry.index(), entry.cluster()));
            }

            let code = ty.type_code();

            if code == 1 {
                // Allocation bitmap: fill slot 0, then slot 1.
                if allocation_bitmap1.is_some() {
                    return Err(OpenError::TooManyAllocationBitmap);
                }
                let index: usize = if allocation_bitmap0.is_some() {
                    1
                } else {
                    0
                };

                let data = entry.data();
                let bitmap_flags = data[1] as usize;

                if (bitmap_flags & 1) != index {
                    return Err(OpenError::WrongAllocationBitmap);
                }

                let alloc = match ClusterAllocation::load(&entry) {
                    Ok(v) => v,
                    Err(e) => {
                        return Err(OpenError::ReadClusterAllocationFailed(
                            entry.index(),
                            entry.cluster(),
                            e,
                        ));
                    },
                };

                if index == 0 {
                    allocation_bitmap0 = Some(alloc);
                } else {
                    allocation_bitmap1 = Some(alloc);
                }
            } else if code == 2 {
                // Up-case table: one only; its allocation must be valid.
                if upcase_table {
                    return Err(OpenError::MultipleUpcaseTable);
                }

                match ClusterAllocation::load(&entry) {
                    Ok(_) => {},
                    Err(e) => {
                        return Err(OpenError::ReadClusterAllocationFailed(
                            entry.index(),
                            entry.cluster(),
                            e,
                        ));
                    },
                }

                upcase_table = true;
            } else if code == 3 {
                // Volume label: one only, up to 11 UTF-16 units.
                if volume_label.is_some() {
                    return Err(OpenError::MultipleVolumeLabel);
                }

                let data = entry.data();
                let character_count = data[1] as usize;

                if character_count > 11 {
                    return Err(OpenError::InvalidVolumeLabel);
                }

                let mut units: Vec<u16> = Vec::new();
                let mut ui: usize = 0;
                while ui < character_count
                    invariant
                        ui <= character_count <= 11,
                        data@.len() == 32,
                        units@.len() == ui,
                    decreases character_count - ui,
                {
                    units.push(
                        vstd::bytes::u16_from_le_bytes(
                            vstd::slice::slice_subrange(data.as_slice(), 2 + 2 * ui, 4 + 2 * ui),
                        ),
                    );
                    ui = ui + 1;
                }

                volume_label = Some(utf16_lossy(&units));
            } else if code == 5 {
                // File or directory: assemble the whole entry set.
                let ghost pre_hist = reader.spec_history();
                let file = match FileEntry::load(&entry, &mut reader) {
                    Ok(v) => v,
                    Err(e) => {
                        return Err(OpenError::LoadFileEntryFailed(e));
                    },
                };

                proof {
                    assert(reader.spec_history().subrange(0, pre_hist.len() as int) == pre_hist);
                    if pre_hist.len() >= 1 {
                        assert(reader.spec_history().subrange(0, pre_hist.len() as int)[0]
                            == reader.spec_history()[0]);
                    }
                }

                let name = file.name;
                let attrs = file.attributes;
                let stream = file.stream;

                if attrs.is_directory() {
                    items.push(Item::Directory(Directory::new(share(&exfat), name, stream)));
                } else {
                    match File::new(share(&exfat), name, stream) {
                        Ok(v) => items.push(Item::File(v)),
                        Err(e) => {
                            return Err(OpenError::CreateFileObjectFailed(
                                entry.index(),
                                entry.cluster(),
                                e,
                            ));
                        },
                    }
                }
            } else {
                return Err(OpenError::UnknownEntry(entry.index(), entry.cluster()));
            }
        }

        // One allocation bitmap per FAT.
        if params.number_of_fats == 2 {
            if allocation_bitmap1.is_none() {
                return Err(OpenError::NoAllocationBitmap);
            }
        } else if allocation_bitmap0.is_none() {
            return Err(OpenError::NoAllocationBitmap);
        }

        // Exactly one up-case table.
        if !upcase_table {
            return Err(OpenError::NoUpcaseTable);
        }

        let ghost entries_read = reader.spec_history();
        Ok(Root { exfat, volume_label, items, entries_read: Ghost(entries_read) })
    }

    /// The volume label, if the root directory carries one.
    pub fn volume_label(&self) -> (r: Option<&str>)
        ensures
            r matches Some(s) ==> self.spec_volume_label() matches Some(l) && s@ == l@,
            r is None <==> self.spec_volume_label() is None,
    {
        match &self.volume_label {
            Some(l) => Some(l.as_str()),
            None => None,
        }
    }

    /// The decoded boot parameters of the mounted volume.
    pub fn params(&self) -> (r: &Params)
        ensures
            *r == self.spec_params(),
    {
        &self.exfat.params
    }

    /// The top-level items, by reference.
    pub fn items(&self) -> (r: &Vec<Item<P>>)
        ensures
            r@ == self.spec_items(),
    {
        &self.items
    }

    /// Consumes the root and hands out its top-level items.
    pub fn into_items(self) -> (r: Vec<Item<P>>)
        ensures
            r@ == self.spec_items(),
    {
        self.items
    }
}

/// Represents FileAttributes in the File Directory Entry.
#[derive(Clone, Copy, Debug, PartialEq, Eq)]
pub struct FileAttributes(pub u16);

impl FileAttributes {
    pub fn is_read_only(self) -> (r: bool)
        ensures
            r == (self.0 & 0x0001 != 0),
    {
        (self.0 & 0x0001) != 0
    }

    pub fn is_hidden(self) -> (r: bool)
        ensures
            r == (self.0 & 0x0002 != 0),
    {
        (self.0 & 0x0002) != 0
    }

    pub fn is_system(self) -> (r: bool)
        ensures
            r == (self.0 & 0x0004 != 0),
    {
        (self.0 & 0x0004) != 0
    }

    pub fn is_directory(self) -> (r: bool)
        ensures
            r == self.spec_is_directory(),
    {
        (self.0 & 0x0010) != 0
    }

    pub fn is_archive(self) -> (r: bool)
        ensures
            r == (self.0 & 0x0020 != 0),
    {
        (self.0 & 0x0020) != 0
    }

    /// Whether the directory bit is set.
    pub open spec fn spec_is_directory(self) -> bool {
        self.0 & 0x0010 != 0
    }
}

} // verus!
