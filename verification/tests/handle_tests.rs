//! Open files: how reads, writes, flushes and closes are answered.
use fuse_state::dcache::dir_tree::DirTree;
use fuse_state::dcache::inode::FUSE_ROOT_ID;
use fuse_state::error::{Errno, FuseError};
use fuse_state::pcache::buffers::DataSlice;
use fuse_state::pcache::cache_manager::CacheManager;
use fuse_state::state::cache_handle::{CacheHandle, CompleteAction, ReadAction, WriteAction};
use fuse_state::state::dir_handle::DirHandle;
use fuse_state::state::file_handle::FileHandle;
use fuse_state::status::{FileStatus, LockFlags, OpenFlags};

fn file() -> FileStatus {
    let mut status = FileStatus::with_name(2, "f".to_string(), false);
    status.len = 9;
    status
}

fn tree() -> DirTree {
    let mut tree = DirTree::new(1);
    tree.lookup(FUSE_ROOT_ID, "f", file(), 1).unwrap();
    tree
}

#[test]
fn cached_bytes_answer_a_read() {
    let mut cache = CacheManager::new();
    let tree = tree();
    let handle = FileHandle::new_cache(2, 5, file(), OpenFlags::RDWR);
    let written = handle.write(&mut cache, 0, 3, DataSlice::copy_of(b"abc"));
    assert_eq!(written, Ok(WriteAction::Reply { size: 3 }));
    match handle.read(&mut cache, &tree, 1, 10).ok().unwrap() {
        ReadAction::Reply(data) => assert_eq!(data.as_slice(), b"bc"),
        _ => panic!("the bytes are cached"),
    }
    let gap = handle.write(&mut cache, 9, 1, DataSlice::copy_of(b"x"));
    assert_eq!(gap, Err(FuseError::NotSequential { offset: 9, len: 3 }));
    let nothing = handle.write(&mut cache, 9, 0, DataSlice::copy_of(b""));
    assert_eq!(nothing, Ok(WriteAction::Nothing));
    let negative = handle.read(&mut cache, &tree, u64::MAX, 1).err().unwrap();
    assert_eq!(negative, FuseError::NegativeOffset);
}

#[test]
fn empty_write_makes_no_cache() {
    let mut cache = CacheManager::new();
    let handle = FileHandle::new_cache(2, 5, file(), OpenFlags::WRONLY);
    let nothing = handle.write(&mut cache, 77, 0, DataSlice::copy_of(b""));
    assert_eq!(nothing, Ok(WriteAction::Nothing));
    assert!(cache.get(2).is_none());
    let refused = handle.write(&mut cache, 77, 1, DataSlice::copy_of(b"x"));
    assert_eq!(refused, Err(FuseError::NotSequential { offset: 77, len: 0 }));
    assert!(cache.get(2).is_some());
}

#[test]
fn read_touches_its_own_cache_alone() {
    let mut cache = CacheManager::new();
    cache.get_or_create(3).lock_write().mtime = 44;
    let handle = FileHandle::new_cache(2, 5, file(), OpenFlags::RDONLY);
    assert!(matches!(handle.read(&mut cache, &tree(), 0, 4), Ok(ReadAction::OpenReader(_))));
    assert_eq!(cache.get(3).unwrap().lock_read().mtime, 44);
    let own = cache.get(2).unwrap().lock_read();
    assert_eq!((own.mtime, own.size, own.writer, own.buf.len()), (0, 0, None, 0));
}

#[test]
fn cached_handle_takes_a_reader_and_a_backend_handle_does_not() {
    let mut cache = CacheManager::new();
    let mut cached = FileHandle::new_cache(2, 5, file(), OpenFlags::RDONLY);
    cached.set_reader(88);
    assert!(matches!(cached.read(&mut cache, &tree(), 0, 4), Ok(ReadAction::UseReader(88))));
    let mut backend = FileHandle::new_backend(2, 5, Some(61), None, file());
    backend.set_reader(88);
    assert!(matches!(&backend, FileHandle::Backend(h) if h.reader == Some(61)));
}

#[test]
fn reader_is_opened_once() {
    let mut cache = CacheManager::new();
    let tree = tree();
    let mut handle = CacheHandle::new(2, 5, file(), OpenFlags::RDONLY);
    match handle.read(&mut cache, &tree, 0, 4).ok().unwrap() {
        ReadAction::OpenReader(path) => assert_eq!(path, "/f"),
        _ => panic!("no reader is open"),
    }
    handle.set_reader(88);
    match handle.read(&mut cache, &tree, 0, 4).ok().unwrap() {
        ReadAction::UseReader(id) => assert_eq!(id, 88),
        _ => panic!("a reader is open"),
    }
    let lost = CacheHandle::new(33, 5, file(), OpenFlags::RDONLY);
    let refused = lost.read(&mut cache, &tree, 0, 4).err().unwrap();
    assert_eq!(refused, FuseError::InodeNotFound { ino: 33 });
    assert_eq!(handle.status().len, 9);
}

#[test]
fn backend_handle_leaves_requests_to_the_file_system() {
    let mut cache = CacheManager::new();
    let tree = tree();
    let handle = FileHandle::new_backend(2, 5, Some(61), Some(51), file());
    assert!(matches!(handle.read(&mut cache, &tree, 0, 4), Ok(ReadAction::Backend)));
    let written = handle.write(&mut cache, 0, 1, DataSlice::copy_of(b"x"));
    assert_eq!(written, Ok(WriteAction::Backend));
    assert_eq!(handle.flush(true), CompleteAction::Backend);
    assert_eq!(handle.complete(false), CompleteAction::Backend);
    assert!(cache.get(2).is_none());
}

#[test]
fn cached_handle_replies_where_one_is_wanted() {
    let handle = FileHandle::new_cache(2, 5, file(), OpenFlags::WRONLY);
    assert_eq!(handle.flush(true), CompleteAction::Reply);
    assert_eq!(handle.flush(false), CompleteAction::Nothing);
    assert_eq!(handle.complete(true), CompleteAction::Reply);
    assert_eq!(handle.complete(false), CompleteAction::Nothing);
}

#[test]
fn handles_know_their_numbers_and_writers() {
    let cached = FileHandle::new_cache(2, 5, file(), OpenFlags::RDWR);
    assert_eq!((cached.ino(), cached.fh(), cached.status().len), (2, 5, 9));
    assert!(cached.has_writer());
    assert_eq!(cached.writer(), None);
    assert!(!FileHandle::new_cache(2, 5, file(), OpenFlags::RDONLY).has_writer());
    let backend = FileHandle::new_backend(3, 6, None, Some(51), file());
    assert_eq!((backend.ino(), backend.fh(), backend.writer()), (3, 6, Some(51)));
    assert!(backend.has_writer());
    assert!(!FileHandle::new_backend(3, 6, Some(61), None, file()).has_writer());
}

#[test]
fn lock_is_given_back_once() {
    let mut handle = FileHandle::new_backend(3, 6, None, Some(51), file());
    handle.add_lock(LockFlags::Plock, 7);
    assert_eq!(handle.remove_lock(LockFlags::Flock), None);
    assert_eq!(handle.remove_lock(LockFlags::Plock), Some(7));
    assert_eq!(handle.remove_lock(LockFlags::Plock), None);
}

#[test]
fn kept_handle_comes_back_with_new_reader_and_writer() {
    let mut handle = FileHandle::new_backend(3, 6, None, Some(51), file());
    handle.add_lock(LockFlags::Flock, 7);
    let saved = handle.persist();
    assert_eq!((saved.ino, saved.fh, saved.has_reader, saved.has_writer), (3, 6, false, true));
    let mut again = FileHandle::restore(saved, None, Some(52));
    assert_eq!((again.ino(), again.fh(), again.writer()), (3, 6, Some(52)));
    assert_eq!(again.status().len, 9);
    assert_eq!(again.remove_lock(LockFlags::Flock), Some(7));
}

#[test]
fn directory_handle_takes_a_new_listing() {
    let mut handle = DirHandle::new(4, 1, "/d", 10, 70);
    handle.set_stream(71);
    assert_eq!((handle.ino, handle.fh, handle.limit, handle.stream), (4, 1, 10, 71));
    assert_eq!(handle.path, "/d");
}

#[test]
fn backend_failures_keep_their_code() {
    assert_eq!(FuseError::Backend { code: 28 }.errno(), Errno::Raw(28));
}
