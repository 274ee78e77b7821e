//! How open files answer, and what is kept of them.
use vstd::prelude::*;

use crate::error::{FuseError, FuseResult};
use crate::pcache::buffers::DataSlice;
use crate::pcache::cache_manager;
use crate::pcache::inode_cache;
use crate::pcache::page_laws;
use crate::persist::handle::{
    SavedDirHandle, SavedDirHandleView, SavedHandle, SavedHandleView,
};
use crate::record::Record;
use crate::state::backend_handle::{BackendHandle, BackendView};
use crate::state::cache_handle;
use crate::state::cache_handle::{
    CacheHandle, CacheHandleView, CompleteAction, ReadAction, ReadActionView, WriteAction,
};
use crate::state::dir_handle::{DirHandle, DirHandleView};
use crate::state::file_handle::{FileHandle, FileHandleView};
use crate::state::handle_table;
use crate::status;
use crate::status::{LockFlags, StatusView};

verus! {

/// Cached bytes are the reply to a read wherever the read touches any, whether
/// or not a reader is open and whatever path the inode has.
pub proof fn law_cached_bytes_are_the_reply(
    handle: CacheHandleView,
    bytes: Seq<u8>,
    off: i64,
    size: usize,
    path: FuseResult<Seq<char>>,
)
    requires
        bytes.len() <= isize::MAX,
        0 <= off < bytes.len(),
        0 < size <= i64::MAX,
    ensures
        ({
            let end = if off + size <= bytes.len() {
                off + size
            } else {
                bytes.len() as int
            };
            cache_handle::read_action(handle, inode_cache::read_result(bytes, off, size), path)
                == Ok::<ReadActionView, FuseError>(
                ReadActionView::Reply(bytes.subrange(off as int, end)),
            )
        }),
{
    page_laws::law_read_gives_what_is_cached(bytes, off, size);
}

/// Only a read that touches no cached byte goes to a reader: to the open one,
/// whatever path the inode has, else to one that is opened for the path, and
/// an inode without a path is answered with the reason. A negative offset is
/// refused before anything else.
pub proof fn law_reader_is_asked_for_what_is_not_cached(
    handle: CacheHandleView,
    bytes: Seq<u8>,
    off: i64,
    size: usize,
    path: FuseResult<Seq<char>>,
)
    requires
        bytes.len() <= isize::MAX,
    ensures
        ({
            let got = cache_handle::read_action(
                handle,
                inode_cache::read_result(bytes, off, size),
                path,
            );
            let missed = off >= bytes.len() || size == 0;
            &&& off < 0 ==> got == Err::<ReadActionView, FuseError>(FuseError::NegativeOffset)
            &&& off >= 0 && missed && handle.reader is Some ==> got == Ok::<
                ReadActionView,
                FuseError,
            >(ReadActionView::UseReader(handle.reader->Some_0))
            &&& off >= 0 && missed && handle.reader is None && path is Ok ==> got == Ok::<
                ReadActionView,
                FuseError,
            >(ReadActionView::OpenReader(path->Ok_0))
            &&& off >= 0 && missed && handle.reader is None && path is Err ==> got == Err::<
                ReadActionView,
                FuseError,
            >(path->Err_0)
        }),
{
    page_laws::law_read_gives_what_is_cached(bytes, off, size);
}

/// What was just written through a handle is what a read of the same range
/// through it, or through any other handle on the inode, is answered with.
pub proof fn law_read_replies_what_was_written(
    handle: CacheHandleView,
    bytes: Seq<u8>,
    data: Seq<u8>,
    path: FuseResult<Seq<char>>,
)
    requires
        data.len() > 0,
        bytes.len() + data.len() <= isize::MAX,
    ensures
        ({
            let end = bytes.len() as i64;
            let after = cache_manager::write_result(bytes, end, data).0;
            cache_handle::read_action(
                handle,
                inode_cache::read_result(after, end, data.len() as usize),
                path,
            ) == Ok::<ReadActionView, FuseError>(ReadActionView::Reply(data))
        }),
{
    let end = bytes.len() as i64;
    let after = cache_manager::write_result(bytes, end, data).0;
    page_laws::law_write_appends_or_is_refused(bytes, end, data);
    law_cached_bytes_are_the_reply(handle, after, end, data.len() as usize, path);
    assert(after.subrange(end as int, end + data.len()) =~= data);
}

/// A write of data that fits is answered with the size of the request, one
/// that does not fit with the refusal, and one without data with nothing.
pub proof fn law_how_a_write_is_answered(bytes: Seq<u8>, off: i64, data: Seq<u8>, size: u32)
    requires
        bytes.len() + data.len() <= isize::MAX,
    ensures
        ({
            let got = cache_handle::write_action(
                data,
                cache_manager::write_result(bytes, off, data).1,
                size,
            );
            &&& data.len() == 0 ==> got == Ok::<WriteAction, FuseError>(WriteAction::Nothing)
            &&& data.len() > 0 && off == bytes.len() ==> got == Ok::<WriteAction, FuseError>(
                WriteAction::Reply { size },
            )
            &&& data.len() > 0 && off != bytes.len() ==> got == Err::<WriteAction, FuseError>(
                FuseError::NotSequential { offset: off, len: bytes.len() as usize },
            )
        }),
{
}

/// A file that is cached here replies to a flush where a reply is wanted; the
/// backing file system answers for its own files.
pub proof fn law_who_answers_a_flush(handle: FileHandle, wants_reply: bool)
    ensures
        handle is Backend ==> handle.complete_action(wants_reply) == CompleteAction::Backend,
        handle is Cache && wants_reply ==> handle.complete_action(wants_reply)
            == CompleteAction::Reply,
        handle is Cache && !wants_reply ==> handle.complete_action(wants_reply)
            == CompleteAction::Nothing,
{
}

/// A handle of either kind is asked for its own numbers, status and writer.
/// One that is cached here is open for writing where its flags say so, the
/// other where it has a writer.
pub proof fn law_handles_answer_for_themselves(c: CacheHandleView, b: BackendView)
    ensures
        FileHandleView::Cache(c).ino() == c.ino && FileHandleView::Backend(b).ino() == b.ino,
        FileHandleView::Cache(c).fh() == c.fh && FileHandleView::Backend(b).fh() == b.fh,
        FileHandleView::Cache(c).status() == c.status,
        FileHandleView::Backend(b).status() == b.status,
        FileHandleView::Cache(c).writer() == c.writer,
        FileHandleView::Backend(b).writer() == b.writer,
        FileHandleView::Cache(c).has_writer() <==> c.flags.value % 4 == 1 || c.flags.value % 4 == 2,
        FileHandleView::Backend(b).has_writer() <==> b.writer is Some,
{
    status::law_access_mode_is_in_the_low_bits(c.flags, c.flags);
}

/// A file that was just opened has what it was opened with, no lock, and where
/// it is cached here neither reader nor writer yet.
pub proof fn law_fresh_handles(
    ino: u64,
    fh: u64,
    reader: Option<u64>,
    writer: Option<u64>,
    status: StatusView,
    flags: u32,
)
    ensures
        ({
            let b = BackendView::fresh(ino, fh, reader, writer, status);
            &&& b.ino == ino && b.fh == fh && b.reader == reader && b.writer == writer
            &&& b.status == status && b.flock is None && b.plock is None
        }),
        ({
            let c = CacheHandleView::fresh(ino, fh, status, flags);
            &&& c.ino == ino && c.fh == fh && c.status == status && c.flags.value == flags
            &&& c.reader is None && c.writer is None
        }),
{
}

/// Each kind of lock has its own holder: taking or giving up one sets that one
/// and leaves the other, and everything else of the file.
pub proof fn law_locks_are_kept_apart(handle: BackendView, owner: Option<u64>)
    ensures
        handle.lock(LockFlags::Flock) == handle.flock,
        handle.lock(LockFlags::Plock) == handle.plock,
        handle.with_lock(LockFlags::Flock, owner) == (BackendView { flock: owner, ..handle }),
        handle.with_lock(LockFlags::Plock, owner) == (BackendView { plock: owner, ..handle }),
{
}

/// A reader that was opened for a cached file is kept by it; nothing else of
/// it changes, and a file of the backing file system keeps its own.
pub proof fn law_reader_is_kept(handle: FileHandleView, reader: u64)
    ensures
        handle is Backend ==> handle.with_reader(reader) == handle,
        handle matches FileHandleView::Cache(c) ==> handle.with_reader(reader)
            == FileHandleView::Cache(CacheHandleView { reader: Some(reader), ..c }),
{
}

/// What is kept of a file says who it is, its status, its locks, and whether
/// it had a reader and a writer. It comes back with all of that and with the
/// reader and the writer that were opened again.
pub proof fn law_what_is_kept_of_a_file(
    handle: BackendView,
    reader: Option<u64>,
    writer: Option<u64>,
)
    ensures
        ({
            let kept = SavedHandleView::of(handle);
            let again = kept.reopened(reader, writer);
            &&& kept.ino == handle.ino && kept.fh == handle.fh && kept.status == handle.status
            &&& kept.flock == handle.flock && kept.plock == handle.plock
            &&& kept.has_reader <==> handle.reader is Some
            &&& kept.has_writer <==> handle.writer is Some
            &&& again == (BackendView { reader, writer, ..handle })
        }),
{
}

/// What comes back of a kept file has its numbers, its status and its locks.
pub proof fn law_what_comes_back_of_a_file(
    kept: SavedHandleView,
    reader: Option<u64>,
    writer: Option<u64>,
)
    ensures
        ({
            let again = kept.reopened(reader, writer);
            &&& again.ino == kept.ino && again.fh == kept.fh && again.status == kept.status
            &&& again.flock == kept.flock && again.plock == kept.plock
            &&& again.reader == reader && again.writer == writer
        }),
{
}

/// What is kept of a directory is everything but its listing.
pub proof fn law_what_is_kept_of_a_directory(
    handle: DirHandleView,
    kept: SavedDirHandleView,
    stream: u64,
)
    ensures
        SavedDirHandleView::of(handle).reopened(stream) == (DirHandleView { stream, ..handle }),
        SavedDirHandleView::of(handle).ino == handle.ino,
        SavedDirHandleView::of(handle).fh == handle.fh,
        SavedDirHandleView::of(handle).path == handle.path,
        SavedDirHandleView::of(handle).limit == handle.limit,
        kept.reopened(stream).ino == kept.ino && kept.reopened(stream).fh == kept.fh,
        kept.reopened(stream).path == kept.path && kept.reopened(stream).limit == kept.limit,
        kept.reopened(stream).stream == stream,
{
}

/// What a read leads to is taken as it is.
pub proof fn law_read_actions_are_taken_as_they_are(
    data: DataSlice,
    id: u64,
    path: String,
    e: FuseError,
)
    ensures
        cache_handle::read_view(Ok(ReadAction::Reply(data))) == Ok::<ReadActionView, FuseError>(
            ReadActionView::Reply(data@),
        ),
        cache_handle::read_view(Ok(ReadAction::UseReader(id))) == Ok::<ReadActionView, FuseError>(
            ReadActionView::UseReader(id),
        ),
        cache_handle::read_view(Ok(ReadAction::OpenReader(path))) == Ok::<
            ReadActionView,
            FuseError,
        >(ReadActionView::OpenReader(path@)),
        cache_handle::read_view(Ok(ReadAction::Backend)) == Ok::<ReadActionView, FuseError>(
            ReadActionView::Backend,
        ),
        cache_handle::read_view(Err(e)) == Err::<ReadActionView, FuseError>(e),
{
}

/// An order of some handles has each of them once and nothing else.
pub proof fn law_order_has_each_handle_once<V>(
    order: Seq<(u64, u64)>,
    handles: Map<(u64, u64), V>,
    k: (u64, u64),
)
    requires
        handle_table::lists(order, handles),
    ensures
        handles.contains_key(k) <==> exists|i: int|
            0 <= i < order.len() && #[trigger] order[i] == k,
        forall|i: int, j: int|
            0 <= i < j < order.len() ==> #[trigger] order[i] != #[trigger] order[j],
{
    assert(order.to_set().contains(k) <==> handles.contains_key(k));
    if handles.contains_key(k) {
        assert(order.contains(k));
    }
}

/// Open files and directories are seen as they are, field by field.
pub proof fn law_handles_are_seen_as_they_are(b: BackendHandle, c: CacheHandle, d: DirHandle)
    ensures
        b@.ino == b.ino && b@.fh == b.fh && b@.reader == b.reader && b@.writer == b.writer,
        b@.status == b.status@ && b@.flock == b.flock && b@.plock == b.plock,
        c@.ino == c.ino && c@.fh == c.fh && c@.reader == c.reader && c@.writer == c.writer,
        c@.status == c.status@ && c@.flags == c.flags,
        d@.ino == d.ino && d@.fh == d.fh && d@.path == d.path@ && d@.limit == d.limit,
        d@.stream == d.stream,
        FileHandle::Backend(b)@ == FileHandleView::Backend(b@),
        FileHandle::Cache(c)@ == FileHandleView::Cache(c@),
{
}

/// What is kept of files and directories is seen as it is, field by field.
pub proof fn law_kept_handles_are_seen_as_they_are(h: SavedHandle, d: SavedDirHandle)
    ensures
        h@.ino == h.ino && h@.fh == h.fh && h@.status == h.status@,
        h@.flock == h.flock && h@.plock == h.plock,
        h@.has_reader == h.has_reader && h@.has_writer == h.has_writer,
        d@.ino == d.ino && d@.fh == d.fh && d@.path == d.path@ && d@.limit == d.limit,
        h.model() == h@ && d.model() == d@,
{
}

} // verus!
