//! The page cache: bytes are appended, and read back within what there is.
use fuse_state::error::{Errno, FuseError};
use fuse_state::pcache::buffers::DataSlice;
use fuse_state::pcache::cache_manager::CacheManager;
use fuse_state::pcache::inode_cache::{CacheState, InodeCache};
use tokio_util::bytes::Bytes;

fn data(bytes: &[u8]) -> DataSlice {
    DataSlice::copy_of(bytes)
}

fn read(cache: &mut CacheManager, ino: u64, off: i64, len: usize) -> Option<Vec<u8>> {
    cache.read(ino, off, len).ok().unwrap().map(|d| d.as_slice().to_vec())
}

#[test]
fn what_was_written_is_read() {
    let mut cache = CacheManager::new();
    assert_eq!(cache.write(5, 0, data(b"hello ")), Ok(6));
    assert_eq!(cache.write(5, 6, data(b"world")), Ok(5));
    assert_eq!(read(&mut cache, 5, 0, 11), Some(b"hello world".to_vec()));
    assert_eq!(read(&mut cache, 5, 4, 3), Some(b"o w".to_vec()));
    assert_eq!(read(&mut cache, 5, 8, 100), Some(b"rld".to_vec()));
    assert_eq!(read(&mut cache, 5, 8, usize::MAX >> 1), Some(b"rld".to_vec()));
    assert_eq!(read(&mut cache, 6, 0, 11), None);
}

#[test]
fn reads_that_touch_nothing_give_nothing() {
    let mut cache = CacheManager::new();
    cache.write(5, 0, data(b"abc")).unwrap();
    assert_eq!(read(&mut cache, 5, 3, 1), None);
    assert_eq!(read(&mut cache, 5, i64::MAX, 1), None);
    assert_eq!(read(&mut cache, 5, 0, 0), None);
    assert_eq!(read(&mut cache, 5, 0, usize::MAX), None);
    assert_eq!(read(&mut cache, 5, 2, 1), Some(b"c".to_vec()));
}

#[test]
fn negative_offset_is_refused() {
    let mut cache = CacheManager::new();
    let refused = cache.read(5, -1, 4).err().unwrap();
    assert_eq!(refused, FuseError::NegativeOffset);
    assert_eq!(refused.errno(), Errno::Invalid);
}

#[test]
fn writes_are_sequential() {
    let mut cache = CacheManager::new();
    cache.write(5, 0, data(b"abc")).unwrap();
    let gap = cache.write(5, 4, data(b"x")).unwrap_err();
    assert_eq!(gap, FuseError::NotSequential { offset: 4, len: 3 });
    assert_eq!(gap.errno(), Errno::Invalid);
    assert_eq!(cache.write(5, 0, data(b"x")), Err(FuseError::NotSequential { offset: 0, len: 3 }));
    assert_eq!(cache.write(5, -1, data(b"x")), Err(FuseError::NotSequential { offset: -1, len: 3 }));
    assert_eq!(read(&mut cache, 5, 0, 9), Some(b"abc".to_vec()));
}

#[test]
fn empty_write_does_nothing() {
    let mut cache = CacheManager::new();
    assert_eq!(cache.write(5, 77, data(b"")), Ok(0));
    assert!(cache.get(5).is_none());
}

#[test]
fn caches_are_made_when_asked_for() {
    let mut cache = CacheManager::new();
    assert!(cache.get(5).is_none());
    assert_eq!(cache.get_or_create(5).ino(), 5);
    assert_eq!(cache.get(5).unwrap().ino(), 5);
    assert_eq!(cache.get_or_create(5).write(0, &data(b"ab")), Ok(2));
    assert_eq!(cache.get_or_create(5).write(2, &data(b"cd")), Ok(2));
    let found = cache.get(5).unwrap().read(1, 2).ok().unwrap().unwrap();
    assert_eq!(found.as_slice(), b"bc");
    assert_eq!(read(&mut cache, 9, 0, 1), None);
    assert!(cache.get(9).is_some());
}

#[test]
fn fresh_cache_state_is_empty() {
    let state = CacheState::new();
    assert_eq!((state.mtime, state.size, state.writer), (0, 0, None));
    assert_eq!(state.buf.len(), 0);
    let mut cache = InodeCache::new(3);
    cache.lock_write().size = 12;
    assert_eq!(cache.lock_read().size, 12);
    cache.write(0, &data(b"xyz")).unwrap();
    assert_eq!(&cache.lock_read().buf[..], b"xyz");
}

#[test]
fn slices_know_their_bytes() {
    let slice = DataSlice::bytes(Bytes::from_static(b"abc"));
    assert_eq!((slice.len(), slice.is_empty()), (3, false));
    assert_eq!(slice.as_slice(), b"abc");
    assert!(data(b"").is_empty());
    let mut source = vec![1u8, 2, 3];
    let copy = data(&source);
    source[0] = 9;
    assert_eq!(copy.as_slice(), &[1, 2, 3]);
}
