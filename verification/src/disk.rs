//! The block-source abstraction: a random-access, byte-addressed reader
//! over the partition that holds the volume.

use vstd::prelude::*;

verus! {

/// An error returned by a block source.
#[derive(Clone, Copy, Debug, PartialEq, Eq)]
pub enum DiskError {
    /// The requested range lies outside the partition.
    OutOfBounds,
    /// The underlying device failed.
    Io,
}

/// A random-access reader over the bytes of a partition.
///
/// `content()` is the mathematical model of the partition: the byte sequence
/// an untroubled device would serve. A successful `read_exact` returns
/// exactly the requested slice of it; short reads must be reported as errors.
pub trait DiskPartition: Sized {
    /// The bytes of the partition. Implementations outside the crate
    /// leave it at the default, an arbitrary sequence: nothing is proved
    /// about them.
    open spec fn content(&self) -> Seq<u8> {
        vstd::pervasive::arbitrary()
    }

    /// Fills `buf` with the bytes at `offset..offset + buf.len()`.
    fn read_exact(&self, offset: u64, buf: &mut Vec<u8>) -> (r: Result<(), DiskError>)
        ensures
            final(buf)@.len() == old(buf)@.len(),
            r is Ok ==> offset as int + old(buf)@.len() <= self.content().len(),
            r is Ok ==> final(buf)@ == self.content().subrange(
                offset as int,
                offset as int + old(buf)@.len(),
            ),
    ;
}

/// A partition held entirely in memory, such as a loaded image file.
pub struct MemoryPartition {
    data: Vec<u8>,
}

impl MemoryPartition {
    pub fn new(data: Vec<u8>) -> (r: Self)
        ensures
            r.content() == data@,
    {
        MemoryPartition { data }
    }
}

impl DiskPartition for MemoryPartition {
    closed spec fn content(&self) -> Seq<u8> {
        self.data@
    }

    fn read_exact(&self, offset: u64, buf: &mut Vec<u8>) -> (r: Result<(), DiskError>)
        ensures
            r is Ok <==> offset as int + old(buf)@.len() <= self.content().len(),
    {
        let n = buf.len();
        if offset > self.data.len() as u64 || n as u64 > self.data.len() as u64 - offset {
            return Err(DiskError::OutOfBounds);
        }
        let start = offset as usize;
        let dlen = self.data.len();
        buf.clear();
        let mut i: usize = 0;
        while i < n
            invariant
                start + n <= dlen,
                dlen == self.data@.len(),
                i <= n,
                buf@ == self.data@.subrange(start as int, start as int + i as int),
            decreases n - i,
        {
            buf.push(self.data[start + i]);
            i = i + 1;
            proof {
                assert(buf@ =~= self.data@.subrange(start as int, start as int + i as int));
            }
        }
        Ok(())
    }
}

} // verus!
