//! Open files.
use vstd::pervasive::unreached;
use vstd::prelude::*;

use crate::dcache::dir_tree::DirTree;
use crate::error::{FuseError, FuseResult};
use crate::pcache::buffers::DataSlice;
use crate::pcache::cache_manager;
use crate::pcache::cache_manager::CacheManager;
use crate::pcache::inode_cache;
use crate::persist::handle::{SavedHandle, SavedHandleView};
use crate::state::backend_handle::{BackendHandle, BackendView};
use crate::state::cache_handle;
use crate::state::cache_handle::{
    CacheHandle, CacheHandleView, CompleteAction, ReadAction, ReadActionView, WriteAction,
};
use crate::status::{FileStatus, LockFlags, StatusView};

verus! {

/// An open file: one whose pages are cached here, or one whose requests go to
/// the backing file system.
pub enum FileHandle {
    Cache(CacheHandle),
    Backend(BackendHandle),
}

/// An open file as mathematical values.
pub enum FileHandleView {
    Cache(CacheHandleView),
    Backend(BackendView),
}

impl View for FileHandle {
    type V = FileHandleView;

    open spec fn view(&self) -> FileHandleView {
        match self {
            FileHandle::Cache(h) => FileHandleView::Cache(h@),
            FileHandle::Backend(h) => FileHandleView::Backend(h@),
        }
    }
}

impl FileHandleView {
    /// The number of the inode.
    pub open spec fn ino(self) -> u64 {
        match self {
            FileHandleView::Cache(h) => h.ino,
            FileHandleView::Backend(h) => h.ino,
        }
    }

    /// The number of the handle.
    pub open spec fn fh(self) -> u64 {
        match self {
            FileHandleView::Cache(h) => h.fh,
            FileHandleView::Backend(h) => h.fh,
        }
    }

    /// The status that the file was opened with.
    pub open spec fn status(self) -> StatusView {
        match self {
            FileHandleView::Cache(h) => h.status,
            FileHandleView::Backend(h) => h.status,
        }
    }

    /// The open writer, if there is one.
    pub open spec fn writer(self) -> Option<u64> {
        match self {
            FileHandleView::Cache(h) => h.writer,
            FileHandleView::Backend(h) => h.writer,
        }
    }

    /// The file after a reader was opened for it. Only one that is cached here
    /// takes it.
    pub open spec fn with_reader(self, reader: u64) -> FileHandleView {
        match self {
            FileHandleView::Cache(h) => FileHandleView::Cache(
                CacheHandleView { reader: Some(reader), ..h },
            ),
            FileHandleView::Backend(_) => self,
        }
    }

    /// Whether the file is open for writing.
    pub open spec fn has_writer(self) -> bool {
        match self {
            FileHandleView::Cache(h) => h.flags.spec_write(),
            FileHandleView::Backend(h) => h.writer is Some,
        }
    }
}

impl FileHandle {
    /// A file whose pages are cached here.
    pub fn new_cache(ino: u64, fh: u64, status: FileStatus, flags: u32) -> (r: Self)
        ensures
            r@ == FileHandleView::Cache(CacheHandleView::fresh(ino, fh, status@, flags)),
    {
        FileHandle::Cache(CacheHandle::new(ino, fh, status, flags))
    }

    /// A file whose requests go to the backing file system.
    pub fn new_backend(
        ino: u64,
        fh: u64,
        reader: Option<u64>,
        writer: Option<u64>,
        status: FileStatus,
    ) -> (r: Self)
        ensures
            r@ == FileHandleView::Backend(BackendView::fresh(ino, fh, reader, writer, status@)),
    {
        FileHandle::Backend(BackendHandle::new(ino, fh, reader, writer, status))
    }

    /// Whether the file is open for writing.
    pub fn has_writer(&self) -> (r: bool)
        ensures
            r == self@.has_writer(),
    {
        match self {
            FileHandle::Cache(h) => h.flags.write(),
            FileHandle::Backend(h) => h.writer.is_some(),
        }
    }

    /// The open writer, if there is one.
    pub fn writer(&self) -> (r: Option<u64>)
        ensures
            r == self@.writer(),
    {
        match self {
            FileHandle::Cache(h) => h.writer,
            FileHandle::Backend(h) => h.writer,
        }
    }

    /// The number of the inode.
    pub fn ino(&self) -> (r: u64)
        ensures
            r == self@.ino(),
    {
        match self {
            FileHandle::Cache(h) => h.ino,
            FileHandle::Backend(h) => h.ino,
        }
    }

    /// The number of the handle.
    pub fn fh(&self) -> (r: u64)
        ensures
            r == self@.fh(),
    {
        match self {
            FileHandle::Cache(h) => h.fh,
            FileHandle::Backend(h) => h.fh,
        }
    }

    /// The status that the file was opened with.
    pub fn status(&self) -> (r: &FileStatus)
        ensures
            r@ == self@.status(),
    {
        match self {
            FileHandle::Cache(h) => h.status(),
            FileHandle::Backend(h) => h.status(),
        }
    }

    /// Decides how a read is answered.
    pub fn read(&self, cache: &mut CacheManager, tree: &DirTree, offset: u64, size: u32) -> (r:
        FuseResult<ReadAction>)
        requires
            old(cache).wf(),
        ensures
            final(cache).wf(),
            match self@ {
                FileHandleView::Cache(h) => {
                    &&& old(cache).after_read(*final(cache), h.ino)
                    &&& cache_handle::read_view(r) == cache_handle::read_action(
                        h,
                        inode_cache::read_result(
                            old(cache).bytes(h.ino),
                            offset as i64,
                            size as usize,
                        ),
                        tree@.path(h.ino, None),
                    )
                },
                FileHandleView::Backend(_) => *final(cache) == *old(cache)
                    && cache_handle::read_view(r) == Ok::<ReadActionView, FuseError>(
                    ReadActionView::Backend,
                ),
            },
    {
        match self {
            FileHandle::Cache(h) => h.read(cache, tree, offset, size),
            FileHandle::Backend(_) => Ok(ReadAction::Backend),
        }
    }

    /// Keeps a reader that was opened for a file that is cached here.
    pub fn set_reader(&mut self, reader: u64)
        ensures
            final(self)@ == old(self)@.with_reader(reader),
    {
        match self {
            FileHandle::Cache(h) => {
                h.set_reader(reader);
            },
            FileHandle::Backend(_) => {},
        }
    }

    /// Takes a write.
    pub fn write(&self, cache: &mut CacheManager, offset: u64, size: u32, data: DataSlice) -> (r:
        FuseResult<WriteAction>)
        requires
            old(cache).wf(),
            self@ is Cache ==> old(cache).bytes(self@.ino()).len() + data@.len() <= isize::MAX,
        ensures
            final(cache).wf(),
            match self@ {
                FileHandleView::Cache(h) => {
                    &&& old(cache).after_write(*final(cache), h.ino, offset as i64, data@)
                    &&& r == cache_handle::write_action(
                        data@,
                        cache_manager::write_result(
                            old(cache).bytes(h.ino),
                            offset as i64,
                            data@,
                        ).1,
                        size,
                    )
                },
                FileHandleView::Backend(_) => *final(cache) == *old(cache) && r == Ok::<
                    WriteAction,
                    FuseError,
                >(WriteAction::Backend),
            },
    {
        match self {
            FileHandle::Cache(h) => h.write(cache, offset, size, data),
            FileHandle::Backend(_) => Ok(WriteAction::Backend),
        }
    }

    /// How a flush or a close is answered.
    pub open spec fn complete_action(self, wants_reply: bool) -> CompleteAction {
        match self {
            FileHandle::Cache(_) => if wants_reply {
                CompleteAction::Reply
            } else {
                CompleteAction::Nothing
            },
            FileHandle::Backend(_) => CompleteAction::Backend,
        }
    }

    /// Decides how a flush is answered.
    pub fn flush(&self, wants_reply: bool) -> (r: CompleteAction)
        ensures
            r == self.complete_action(wants_reply),
    {
        match self {
            FileHandle::Cache(h) => h.flush(wants_reply),
            FileHandle::Backend(_) => CompleteAction::Backend,
        }
    }

    /// Decides how a close is answered.
    pub fn complete(&self, wants_reply: bool) -> (r: CompleteAction)
        ensures
            r == self.complete_action(wants_reply),
    {
        match self {
            FileHandle::Cache(h) => h.complete(wants_reply),
            FileHandle::Backend(_) => CompleteAction::Backend,
        }
    }

    /// Records who holds a lock. A file that is cached here has no locks.
    pub fn add_lock(&mut self, lock_flags: LockFlags, owner_id: u64)
        requires
            old(self)@ is Backend,
        ensures
            final(self)@ == FileHandleView::Backend(
                old(self)@->Backend_0.with_lock(lock_flags, Some(owner_id)),
            ),
    {
        match self {
            FileHandle::Cache(_) => {},
            FileHandle::Backend(h) => {
                h.add_lock(lock_flags, owner_id);
            },
        }
    }

    /// Gives a lock up and says who held it.
    pub fn remove_lock(&mut self, typ: LockFlags) -> (r: Option<u64>)
        requires
            old(self)@ is Backend,
        ensures
            final(self)@ == FileHandleView::Backend(old(self)@->Backend_0.with_lock(typ, None)),
            r == old(self)@->Backend_0.lock(typ),
    {
        match self {
            FileHandle::Cache(_) => None,
            FileHandle::Backend(h) => h.remove_lock(typ),
        }
    }

    /// What is kept of the file in a state file. One that is cached here
    /// cannot be kept.
    pub fn persist(&self) -> (r: SavedHandle)
        requires
            self@ is Backend,
        ensures
            r@ == SavedHandleView::of(self@->Backend_0),
    {
        match self {
            FileHandle::Cache(_) => unreached(),
            FileHandle::Backend(h) => SavedHandle::of(h),
        }
    }

    /// The file that was kept, with a reader and a writer that were opened
    /// again.
    pub fn restore(saved: SavedHandle, reader: Option<u64>, writer: Option<u64>) -> (r: Self)
        ensures
            r@ == FileHandleView::Backend(saved@.reopened(reader, writer)),
    {
        FileHandle::Backend(saved.reopened(reader, writer))
    }
}

} // verus!
