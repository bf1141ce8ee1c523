//! Subdirectories and the items they contain.

use vstd::prelude::*;
use std::sync::Arc;
use crate::cluster::{spec_stream_bytes, ClustersReader};
use crate::disk::DiskPartition;
use crate::entries::{spec_is_critical_primary, EntriesReader, EntryType, FileEntry, StreamEntry};
use crate::file::File;
use crate::{share, ExFat, OpenError};

verus! {

/// An item of a directory: a file or a subdirectory.
pub enum Item<P: DiskPartition> {
    File(File<P>),
    Directory(Directory<P>),
}

impl<P: DiskPartition> Item<P> {
    /// The volume the item lives on.
    pub open spec fn spec_exfat(self) -> ExFat<P> {
        match self {
            Item::File(f) => f.spec_exfat(),
            Item::Directory(d) => d.spec_exfat(),
        }
    }

    /// Every item a mount or an enumeration hands out is well formed:
    /// its stream passed decoding for its kind and its name holds the
    /// declared number of units.
    pub open spec fn wf(self) -> bool {
        match self {
            Item::File(f) => f.wf(),
            Item::Directory(d) => d.wf(),
        }
    }
}

/// A subdirectory of a mounted volume.
pub struct Directory<P: DiskPartition> {
    exfat: Arc<ExFat<P>>,
    name: Vec<u16>,
    stream: StreamEntry,
}

impl<P: DiskPartition> Directory<P> {
    /// The volume the directory lives on.
    pub closed spec fn spec_exfat(self) -> ExFat<P> {
        *self.exfat
    }

    /// The directory name, in UTF-16 code units.
    pub closed spec fn spec_name(self) -> Seq<u16> {
        self.name@
    }

    /// The stream extension the directory was built from.
    pub closed spec fn spec_stream(self) -> StreamEntry {
        self.stream
    }

    /// Every directory of a mounted volume satisfies this: the volume is
    /// sound, the stream passed decoding for a directory (so
    /// `valid_data_length == data_length`), and the name holds exactly
    /// the declared number of units.
    pub open spec fn wf(self) -> bool {
        &&& self.spec_exfat().wf()
        &&& self.spec_stream().wf_for(true)
        &&& self.spec_name().len() == self.spec_stream().name_length
    }

    pub fn new(exfat: Arc<ExFat<P>>, name: Vec<u16>, stream: StreamEntry) -> (r: Self)
        ensures
            r.spec_exfat() == *exfat,
            r.spec_name() == name@,
            r.spec_stream() == stream,
    {
        Directory { exfat, name, stream }
    }

    pub fn name(&self) -> (r: &Vec<u16>)
        ensures
            r@ == self.spec_name(),
    {
        &self.name
    }

    pub fn stream(&self) -> (r: &StreamEntry)
        ensures
            *r == self.spec_stream(),
    {
        &self.stream
    }

    /// Enumerates the directory: runs the entry-set assembler over its
    /// cluster stream until the first non-regular entry. Entries that
    /// only the root directory may hold are rejected as unknown.
    pub fn open(&self) -> (r: Result<Vec<Item<P>>, OpenError>)
        requires
            self.wf(),
        ensures
            r matches Ok(items) ==> forall|i: int|
                0 <= i < items@.len() ==> (#[trigger] items@[i]).wf() && items@[i].spec_exfat()
                    == self.spec_exfat(),
            r matches Ok(items) ==> ({
                let first = spec_stream_bytes(
                    self.spec_exfat(),
                    self.spec_stream().no_fat_chain,
                    self.spec_stream().alloc.first_cluster as int,
                    0,
                    32,
                );
                &&& (spec_is_critical_primary(first[0], 5) ==> items@.len() >= 1)
                &&& (items@.len() == 0 ==> first[0] < 0x81)
            }),
    {
        let exref: &ExFat<P> = &*self.exfat;
        let cap = self.stream.valid_data_length;

        let cluster_reader = match ClustersReader::new(
            exref,
            self.stream.alloc.first_cluster,
            Some(cap),
            Some(self.stream.no_fat_chain),
        ) {
            Ok(v) => v,
            Err(e) => {
                return Err(OpenError::CreateClustersReaderFailed(e));
            },
        };

        let mut reader = EntriesReader::new(cluster_reader);
        let mut items: Vec<Item<P>> = Vec::new();
        let ghost first_rec = spec_stream_bytes(
            *exref,
            self.spec_stream().no_fat_chain,
            self.spec_stream().alloc.first_cluster as int,
            0,
            32,
        );

        loop
            invariant_except_break
                reader.spec_history().len() >= 1 ==> items@.len() >= 1,
            invariant
                reader.wf(),
                reader.spec_exfat() == *exref,
                reader.spec_data_length() == Some(cap),
                0 <= reader.spec_consumed() <= cap as int,
                exref == &*self.exfat,
                self.wf(),
                first_rec == spec_stream_bytes(
                    *exref,
                    self.spec_stream().no_fat_chain,
                    self.spec_stream().alloc.first_cluster as int,
                    0,
                    32,
                ),
                reader.spec_history().len() == 0 ==> (reader.spec_cluster()
                    == self.spec_stream().alloc.first_cluster as int && reader.spec_offset() == 0
                    && !reader.spec_ended() && reader.spec_no_fat_chain()
                    == self.spec_stream().no_fat_chain),
                reader.spec_history().len() >= 1 ==> reader.spec_history()[0] == first_rec,
                forall|i: int|
                    0 <= i < items@.len() ==> (#[trigger] items@[i]).wf() && items@[i].spec_exfat()
                        == *exref,
            ensures
                items@.len() == 0 ==> first_rec[0] < 0x81,
                forall|i: int|
                    0 <= i < items@.len() ==> (#[trigger] items@[i]).wf() && items@[i].spec_exfat()
                        == *exref,
            decreases cap as int - reader.spec_consumed(),
        {
            let entry = match reader.read() {
                Ok(v) => v,
                Err(e) => {
                    return Err(OpenError::ReadEntryFailed(e));
                },
            };

            let ty = entry.ty();

            if !ty.is_regular() {
                break;
            } else if ty.type_category() != EntryType::PRIMARY {
                return Err(OpenError::NotPrimaryEntry(entry.index(), entry.cluster()));
            }

            if ty.type_importance() == EntryType::CRITICAL && ty.type_code() == 5 {
                let ghost pre_hist = reader.spec_history();
                let file = match FileEntry::load(&entry, &mut reader) {
                    Ok(v) => v,
                    Err(e) => {
                        return Err(OpenError::LoadFileEntryFailed(e));
                    },
                };

                proof {
                    assert(reader.spec_history().subrange(0, pre_hist.len() as int) == pre_hist);
                    if pre_hist.len() >= 1 {
                        assert(reader.spec_history().subrange(0, pre_hist.len() as int)[0]
                            == reader.spec_history()[0]);
                    }
                }

                let name = file.name;
                let attrs = file.attributes;
                let stream = file.stream;

                if attrs.is_directory() {
                    items.push(Item::Directory(Directory::new(share(&self.exfat), name, stream)));
                } else {
                    match File::new(share(&self.exfat), name, stream) {
                        Ok(v) => items.push(Item::File(v)),
                        Err(e) => {
                            return Err(OpenError::CreateFileObjectFailed(
                                entry.index(),
                                entry.cluster(),
                                e,
                            ));
                        },
                    }
                }
            } else {
                return Err(OpenError::UnknownEntry(entry.index(), entry.cluster()));
            }
        }

        Ok(items)
    }
}

} // verus!
