//! Regular files: a shared volume handle, a name, and the stream
//! extension that locates the payload bytes.

use vstd::prelude::*;
use std::sync::Arc;
use crate::cluster::ClustersReader;
use crate::disk::DiskPartition;
use crate::entries::StreamEntry;
use crate::fat::BAD_CLUSTER;
use crate::ExFat;

verus! {

/// Represents an error for [`File::new()`].
#[derive(Debug, PartialEq, Eq)]
pub enum NewError {
    /// No cluster stream can be opened over the file's allocation.
    CreateClustersReaderFailed(crate::cluster::NewError),
}

/// A regular file of a mounted volume.
pub struct File<P: DiskPartition> {
    exfat: Arc<ExFat<P>>,
    name: Vec<u16>,
    stream: StreamEntry,
}

impl<P: DiskPartition> File<P> {
    /// The volume the file lives on.
    pub closed spec fn spec_exfat(self) -> ExFat<P> {
        *self.exfat
    }

    /// The file name, in UTF-16 code units.
    pub closed spec fn spec_name(self) -> Seq<u16> {
        self.name@
    }

    /// The stream extension the file was built from.
    pub closed spec fn spec_stream(self) -> StreamEntry {
        self.stream
    }

    /// Every file of a mounted volume satisfies this: the volume is
    /// sound, the stream passed decoding for a non-directory (so
    /// `valid_data_length <= data_length`), and the name holds exactly
    /// the declared number of units.
    pub open spec fn wf(self) -> bool {
        &&& self.spec_exfat().wf()
        &&& self.spec_stream().wf_for(false)
        &&& self.spec_name().len() == self.spec_stream().name_length
    }

    /// Builds the file, first checking that a cluster stream can be
    /// opened over its allocation.
    pub fn new(exfat: Arc<ExFat<P>>, name: Vec<u16>, stream: StreamEntry) -> (r: Result<
        Self,
        NewError,
    >)
        requires
            (*exfat).wf(),
        ensures
            r matches Ok(f) ==> {
                &&& f.spec_exfat() == *exfat
                &&& f.spec_name() == name@
                &&& f.spec_stream() == stream
            },
            r is Err <==> (stream.alloc.first_cluster != 0 && (stream.alloc.first_cluster < 2
                || stream.alloc.first_cluster as int >= (*exfat).fat@.len() || (
                !stream.no_fat_chain && (*exfat).fat@[stream.alloc.first_cluster as int]
                == BAD_CLUSTER))),
    {
        if stream.alloc.first_cluster != 0 {
            match ClustersReader::new(
                &*exfat,
                stream.alloc.first_cluster,
                Some(stream.valid_data_length),
                Some(stream.no_fat_chain),
            ) {
                Ok(_) => {},
                Err(e) => {
                    return Err(NewError::CreateClustersReaderFailed(e));
                },
            }
        }
        Ok(File { exfat, name, stream })
    }

    pub fn name(&self) -> (r: &Vec<u16>)
        ensures
            r@ == self.spec_name(),
    {
        &self.name
    }

    pub fn stream(&self) -> (r: &StreamEntry)
        ensures
            *r == self.spec_stream(),
    {
        &self.stream
    }

    /// Bytes of payload a read may deliver: the valid data length, not
    /// the allocated length.
    pub fn len(&self) -> (r: u64)
        ensures
            r == self.spec_stream().valid_data_length,
    {
        self.stream.valid_data_length
    }

    /// Opens a stream over the payload, capped at `valid_data_length`,
    /// in the mode the stream extension declares. An empty file has no
    /// stream.
    pub fn reader(&self) -> (r: Result<Option<ClustersReader<'_, P>>, crate::cluster::NewError>)
        requires
            self.wf(),
        ensures
            self.spec_stream().alloc.first_cluster == 0 ==> (r matches Ok(o) && o is None),
            (r matches Ok(o) && o is None) ==> self.spec_stream().alloc.first_cluster == 0,
            r matches Ok(o) ==> (o matches Some(cr) ==> {
                &&& cr.wf()
                &&& cr.spec_exfat() == self.spec_exfat()
                &&& cr.spec_data_length() == Some(self.spec_stream().valid_data_length)
                &&& cr.spec_cluster() == self.spec_stream().alloc.first_cluster
                &&& cr.spec_no_fat_chain() == self.spec_stream().no_fat_chain
                &&& cr.spec_consumed() == 0
            }),
            r is Err <==> ({
                let fc = self.spec_stream().alloc.first_cluster;
                fc != 0 && (fc < 2 || fc as int >= self.spec_exfat().fat@.len() || (
                !self.spec_stream().no_fat_chain && self.spec_exfat().fat@[fc as int]
                == BAD_CLUSTER))
            }),
    {
        if self.stream.alloc.first_cluster == 0 {
            return Ok(None);
        }
        match ClustersReader::new(
            &*self.exfat,
            self.stream.alloc.first_cluster,
            Some(self.stream.valid_data_length),
            Some(self.stream.no_fat_chain),
        ) {
            Ok(v) => Ok(Some(v)),
            Err(e) => Err(e),
        }
    }
}

} // verus!
