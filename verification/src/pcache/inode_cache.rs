//! The cached pages of one inode.
use tokio_util::bytes::BytesMut;
use vstd::prelude::*;

use crate::error::{FuseError, FuseResult};
use crate::pcache::buffers;
use crate::pcache::buffers::{buffer_append, buffer_len, buffer_new, buffer_slice, DataSlice};

verus! {

/// What is cached of one file: its bytes from the start, as far as they were
/// written.
pub struct CacheState {
    pub mtime: i64,
    pub size: i64,
    pub buf: BytesMut,
    pub writer: Option<u64>,
}

impl CacheState {
    /// The bytes that were written.
    pub open spec fn bytes(&self) -> Seq<u8> {
        buffers::buffer_bytes(self.buf)
    }

    /// The buffer was only appended to.
    pub open spec fn wf(&self) -> bool {
        buffers::append_only(self.buf)
    }

    /// Nothing cached.
    pub fn new() -> (r: Self)
        ensures
            r.wf(),
            r.mtime == 0,
            r.size == 0,
            r.bytes() == Seq::<u8>::empty(),
            r.writer is None,
    {
        CacheState { mtime: 0, size: 0, buf: buffer_new(), writer: None }
    }
}

/// The cached pages of one inode.
pub struct InodeCache {
    ino: u64,
    state: CacheState,
}

/// Where a read of `len` bytes at `off` ends in a buffer of `size` bytes.
pub open spec fn read_end(off: i64, len: usize, size: usize) -> int {
    let want = off + (len as i64);
    let capped = if want > i64::MAX {
        i64::MAX as int
    } else if want < i64::MIN {
        i64::MIN as int
    } else {
        want
    };
    if capped < size as i64 {
        capped
    } else {
        (size as i64) as int
    }
}

/// What a read of `len` bytes at `off` gives: nothing where no cached byte is
/// in the range.
pub open spec fn read_result(bytes: Seq<u8>, off: i64, len: usize) -> FuseResult<Option<Seq<u8>>> {
    if off < 0 {
        Err(FuseError::NegativeOffset)
    } else {
        let end = read_end(off, len, bytes.len() as usize);
        if end <= off {
            Ok(None)
        } else {
            Ok(Some(bytes.subrange(off as int, end)))
        }
    }
}

/// The bytes of optional data.
pub open spec fn data_view(data: FuseResult<Option<DataSlice>>) -> FuseResult<Option<Seq<u8>>> {
    match data {
        Ok(Some(d)) => Ok(Some(d@)),
        Ok(None) => Ok(None),
        Err(e) => Err(e),
    }
}

impl InodeCache {
    /// The number of the inode.
    pub closed spec fn spec_ino(&self) -> u64 {
        self.ino
    }

    /// What is cached.
    pub closed spec fn state(&self) -> CacheState {
        self.state
    }

    /// The bytes that were written.
    pub open spec fn bytes(&self) -> Seq<u8> {
        self.state().bytes()
    }

    /// The buffer was only appended to.
    pub open spec fn wf(&self) -> bool {
        self.state().wf()
    }

    /// Nothing was cached yet.
    pub open spec fn is_fresh(&self) -> bool {
        &&& self.wf()
        &&& self.bytes() == Seq::<u8>::empty()
        &&& self.state().mtime == 0
        &&& self.state().size == 0
        &&& self.state().writer is None
    }

    /// Nothing cached.
    pub fn new(ino: u64) -> (r: Self)
        ensures
            r.spec_ino() == ino,
            r.is_fresh(),
    {
        InodeCache { ino, state: CacheState::new() }
    }

    /// The number of the inode.
    pub fn ino(&self) -> (r: u64)
        ensures
            r == self.spec_ino(),
    {
        self.ino
    }

    /// What is cached, to be changed.
    pub fn lock_write(&mut self) -> (r: &mut CacheState)
        ensures
            *r == old(self).state(),
            final(self).state() == *final(r),
            final(self).spec_ino() == old(self).spec_ino(),
    {
        &mut self.state
    }

    /// What is cached.
    pub fn lock_read(&self) -> (r: &CacheState)
        ensures
            *r == self.state(),
    {
        &self.state
    }

    /// Appends data. It has to start where the cached bytes end.
    pub fn write(&mut self, off: i64, data: &DataSlice) -> (r: FuseResult<usize>)
        requires
            old(self).wf(),
            old(self).bytes().len() + data@.len() <= isize::MAX,
        ensures
            final(self).wf(),
            final(self).spec_ino() == old(self).spec_ino(),
            final(self).state().mtime == old(self).state().mtime,
            final(self).state().size == old(self).state().size,
            final(self).state().writer == old(self).state().writer,
            off == old(self).bytes().len() ==> r == Ok::<usize, FuseError>(data@.len() as usize)
                && final(self).bytes() == old(self).bytes() + data@,
            off != old(self).bytes().len() ==> r == Err::<usize, FuseError>(
                FuseError::NotSequential { offset: off, len: old(self).bytes().len() as usize },
            ) && final(self).bytes() == old(self).bytes(),
    {
        let len = buffer_len(&self.state.buf);
        if off != len as i64 {
            return Err(FuseError::NotSequential { offset: off, len });
        }
        buffer_append(&mut self.state.buf, data.as_slice());
        Ok(data.len())
    }

    /// Reads up to `len` cached bytes at `off`.
    pub fn read(&self, off: i64, len: usize) -> (r: FuseResult<Option<DataSlice>>)
        ensures
            data_view(r) == read_result(self.bytes(), off, len),
    {
        if off < 0 {
            return Err(FuseError::NegativeOffset);
        }
        let size = buffer_len(&self.state.buf);
        let want = match off.checked_add(len as i64) {
            Some(want) => want,
            None => i64::MAX,
        };
        let limit = size as i64;
        let end = if want < limit {
            want
        } else {
            limit
        };
        if end <= off {
            return Ok(None);
        }
        proof {
            assert(limit > 0 ==> limit == size) by {
                assert(size as i64 > 0 ==> size as i64 == size) by (bit_vector);
            }
        }
        let all = buffer_slice(&self.state.buf);
        let part = vstd::slice::slice_subrange(all, off as usize, end as usize);
        Ok(Some(DataSlice::copy_of(part)))
    }
}

} // verus!
