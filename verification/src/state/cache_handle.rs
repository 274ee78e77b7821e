//! An open file whose pages are cached here.
use vstd::prelude::*;

use crate::dcache::dir_tree::DirTree;
use crate::error::FuseResult;
use crate::pcache::buffers::DataSlice;
use crate::pcache::cache_manager;
use crate::pcache::cache_manager::CacheManager;
use crate::pcache::inode_cache;
use crate::status::{FileStatus, OpenFlags, StatusView};

verus! {

/// An open file.
pub struct CacheHandle {
    pub ino: u64,
    pub fh: u64,
    pub flags: OpenFlags,
    pub status: FileStatus,
    pub reader: Option<u64>,
    pub writer: Option<u64>,
}

/// An open file as mathematical values.
#[verifier::ext_equal]
pub struct CacheHandleView {
    pub ino: u64,
    pub fh: u64,
    pub flags: OpenFlags,
    pub status: StatusView,
    pub reader: Option<u64>,
    pub writer: Option<u64>,
}

impl View for CacheHandle {
    type V = CacheHandleView;

    open spec fn view(&self) -> CacheHandleView {
        CacheHandleView {
            ino: self.ino,
            fh: self.fh,
            flags: self.flags,
            status: self.status@,
            reader: self.reader,
            writer: self.writer,
        }
    }
}

impl CacheHandleView {
    /// A file that was just opened.
    pub open spec fn fresh(ino: u64, fh: u64, status: StatusView, flags: u32) -> CacheHandleView {
        CacheHandleView {
            ino,
            fh,
            flags: OpenFlags { value: flags },
            status,
            reader: None,
            writer: None,
        }
    }
}

/// What is to be done for a read.
pub enum ReadAction {
    /// The reply is this data.
    Reply(DataSlice),
    /// The open reader with this number is to read and reply.
    UseReader(u64),
    /// A reader is to be opened for this path. It is to read and reply.
    OpenReader(String),
    /// The handle of the backing file system is to read and reply.
    Backend,
}

/// What is to be done for a read, as mathematical values.
pub enum ReadActionView {
    Reply(Seq<u8>),
    UseReader(u64),
    OpenReader(Seq<char>),
    Backend,
}

impl View for ReadAction {
    type V = ReadActionView;

    open spec fn view(&self) -> ReadActionView {
        match self {
            ReadAction::Reply(data) => ReadActionView::Reply(data@),
            ReadAction::UseReader(id) => ReadActionView::UseReader(*id),
            ReadAction::OpenReader(path) => ReadActionView::OpenReader(path@),
            ReadAction::Backend => ReadActionView::Backend,
        }
    }
}

/// What a read gives, as mathematical values.
pub open spec fn read_view(r: FuseResult<ReadAction>) -> FuseResult<ReadActionView> {
    match r {
        Ok(action) => Ok(action@),
        Err(e) => Err(e),
    }
}

/// What is to be done for a write.
#[derive(Clone, Copy, Debug, PartialEq, Eq, Structural)]
pub enum WriteAction {
    /// Nothing, and no reply.
    Nothing,
    /// The reply is that this many bytes were written.
    Reply { size: u32 },
    /// The handle of the backing file system is to write and reply.
    Backend,
}

/// What is to be done for a flush or a close.
#[derive(Clone, Copy, Debug, PartialEq, Eq, Structural)]
pub enum CompleteAction {
    /// Nothing, and no reply.
    Nothing,
    /// The reply is success.
    Reply,
    /// The handle of the backing file system is to flush and reply.
    Backend,
}

/// What a read of cached bytes leads to: the bytes themselves, else the open
/// reader, else a reader to be opened for the path of the inode.
pub open spec fn read_action(
    handle: CacheHandleView,
    cached: FuseResult<Option<Seq<u8>>>,
    path: FuseResult<Seq<char>>,
) -> FuseResult<ReadActionView> {
    match cached {
        Err(e) => Err(e),
        Ok(Some(data)) => Ok(ReadActionView::Reply(data)),
        Ok(None) => match handle.reader {
            Some(id) => Ok(ReadActionView::UseReader(id)),
            None => match path {
                Ok(p) => Ok(ReadActionView::OpenReader(p)),
                Err(e) => Err(e),
            },
        },
    }
}

/// What a write leads to.
pub open spec fn write_action(data: Seq<u8>, answer: FuseResult<usize>, size: u32) -> FuseResult<
    WriteAction,
> {
    if data.len() == 0 {
        Ok(WriteAction::Nothing)
    } else {
        match answer {
            Ok(_) => Ok(WriteAction::Reply { size }),
            Err(e) => Err(e),
        }
    }
}

impl CacheHandle {
    /// A file that was just opened.
    pub fn new(ino: u64, fh: u64, status: FileStatus, flags: u32) -> (r: Self)
        ensures
            r@ == CacheHandleView::fresh(ino, fh, status@, flags),
    {
        CacheHandle { ino, fh, flags: OpenFlags::new(flags), status, reader: None, writer: None }
    }

    /// Decides how a read is answered.
    pub fn read(&self, cache: &mut CacheManager, tree: &DirTree, offset: u64, size: u32) -> (r:
        FuseResult<ReadAction>)
        requires
            old(cache).wf(),
        ensures
            old(cache).after_read(*final(cache), self@.ino),
            read_view(r) == read_action(
                self@,
                inode_cache::read_result(
                    old(cache).bytes(self@.ino),
                    offset as i64,
                    size as usize,
                ),
                tree@.path(self@.ino, None),
            ),
    {
        let cached = cache.read(self.ino, offset as i64, size as usize);
        match cached {
            Err(e) => Err(e),
            Ok(Some(data)) => Ok(ReadAction::Reply(data)),
            Ok(None) => match self.reader {
                Some(id) => Ok(ReadAction::UseReader(id)),
                None => match tree.get_path(self.ino) {
                    Ok(path) => Ok(ReadAction::OpenReader(path)),
                    Err(e) => Err(e),
                },
            },
        }
    }

    /// Keeps a reader that was opened for this file.
    pub fn set_reader(&mut self, reader: u64)
        ensures
            final(self)@ == (CacheHandleView { reader: Some(reader), ..old(self)@ }),
    {
        self.reader = Some(reader);
    }

    /// Takes a write into the page cache.
    pub fn write(&self, cache: &mut CacheManager, offset: u64, size: u32, data: DataSlice) -> (r:
        FuseResult<WriteAction>)
        requires
            old(cache).wf(),
            old(cache).bytes(self@.ino).len() + data@.len() <= isize::MAX,
        ensures
            old(cache).after_write(*final(cache), self@.ino, offset as i64, data@),
            r == write_action(
                data@,
                cache_manager::write_result(
                    old(cache).bytes(self@.ino),
                    offset as i64,
                    data@,
                ).1,
                size,
            ),
    {
        if data.is_empty() {
            return Ok(WriteAction::Nothing);
        }
        match cache.write(self.ino, offset as i64, data) {
            Ok(_) => Ok(WriteAction::Reply { size }),
            Err(e) => Err(e),
        }
    }

    /// Decides how a flush is answered.
    pub fn flush(&self, wants_reply: bool) -> (r: CompleteAction)
        ensures
            r == (if wants_reply {
                CompleteAction::Reply
            } else {
                CompleteAction::Nothing
            }),
    {
        self.complete(wants_reply)
    }

    /// Decides how a close is answered.
    pub fn complete(&self, wants_reply: bool) -> (r: CompleteAction)
        ensures
            r == (if wants_reply {
                CompleteAction::Reply
            } else {
                CompleteAction::Nothing
            }),
    {
        if wants_reply {
            CompleteAction::Reply
        } else {
            CompleteAction::Nothing
        }
    }

    /// The status that the file was opened with.
    pub fn status(&self) -> (r: &FileStatus)
        ensures
            r@ == self@.status,
    {
        &self.status
    }
}

} // verus!
