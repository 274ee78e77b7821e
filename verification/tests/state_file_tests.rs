//! The state file: what is written is read back, and damage is noticed.
use fuse_state::dcache::dir_tree::DirTree;
use fuse_state::dcache::inode::{Inode, FUSE_ROOT_ID};
use fuse_state::error::{Errno, FuseError};
use fuse_state::persist::handle::{SavedDirHandle, SavedHandle};
use fuse_state::persist::state_file::{
    state_file_magic, write_state, StateImage, StateWriter, STATE_FILE_VERSION,
};
use fuse_state::record::{Record, StateReader};
use fuse_state::state::node_state::NodeState;
use fuse_state::state::node_view::{FuseConf, Reopened};
use fuse_state::status::FileStatus;

fn saved(ino: u64, fh: u64) -> SavedHandle {
    let mut status = FileStatus::with_name(ino as i64, "\u{e9}t\u{e9}".to_string(), false);
    status.mtime = -5;
    status.x_attr.insert("k".to_string(), vec![0, 255]);
    SavedHandle {
        ino,
        fh,
        has_reader: true,
        has_writer: false,
        status,
        flock: None,
        plock: Some(u64::MAX),
    }
}

fn saved_dir(ino: u64, fh: u64) -> SavedDirHandle {
    SavedDirHandle { ino, fh, path: "/d/\u{1f600}".to_string(), limit: 3 }
}

fn state_bytes() -> Vec<u8> {
    let mut tree = DirTree::new(9);
    let dir = FileStatus::with_name(2, "d".to_string(), true);
    tree.lookup(FUSE_ROOT_ID, "d", dir, 10).unwrap();
    tree.mark_delete(2).unwrap();
    let mut writer = StateWriter::new();
    write_state(&mut writer, &tree, &vec![saved(4, 1)], &vec![saved_dir(2, 2), saved_dir(2, 3)], 7);
    writer.into_bytes()
}

fn read(bytes: Vec<u8>) -> StateImage {
    StateImage::read(&mut StateReader::new(bytes))
}

fn node() -> NodeState {
    NodeState::new(FuseConf { enable_meta_cache: true, meta_cache_ttl: 1, list_limit: 1 }, 0)
}

#[test]
fn file_starts_with_mark_and_version() {
    let bytes = state_bytes();
    assert_eq!(bytes[..4], state_file_magic()[..]);
    assert_eq!(bytes[..4], *b"CVFS");
    assert_eq!(bytes[4..12], STATE_FILE_VERSION.encode()[..]);
    assert_eq!(1u64.encode().len(), 8);
}

#[test]
fn what_was_written_is_read_back() {
    let image = read(state_bytes());
    let tree = image.tree.as_ref().unwrap();
    assert_eq!((tree.inode_lens(), tree.current_id()), (2, 2));
    assert_eq!(tree.get_path(2).unwrap(), "/d");
    assert!(tree.pending_delete(2));
    let inode = tree.get_inode(2, None).unwrap();
    assert_eq!((inode.n_lookup, inode.ref_ctr, inode.last_access), (1, 1, 10));
    assert_eq!(image.handles.len(), 1);
    let handle = image.handles[0].as_ref().unwrap();
    assert_eq!((handle.ino, handle.fh), (4, 1));
    assert!(handle.has_reader && !handle.has_writer);
    assert_eq!((handle.flock, handle.plock), (None, Some(u64::MAX)));
    assert_eq!(handle.status.name, "\u{e9}t\u{e9}");
    assert_eq!(handle.status.mtime, -5);
    assert_eq!(handle.status.x_attr.get("k"), Some(&vec![0, 255]));
    assert_eq!(image.dir_handles.len(), 2);
    assert_eq!(image.dir_handles[1].fh, 3);
    assert_eq!(image.dir_handles[1].path, "/d/\u{1f600}");
    assert_eq!(image.end, Ok(7));
}

#[test]
fn nothing_is_written_behind_the_state() {
    let bytes = state_bytes();
    let mut reader = StateReader::new(bytes.clone());
    assert_eq!(StateImage::read(&mut reader).end, Ok(7));
    assert_eq!(reader.remaining(), 0);
    let mut longer = bytes;
    longer.extend([1, 2, 3]);
    let mut reader = StateReader::new(longer);
    assert_eq!(StateImage::read(&mut reader).end, Ok(7));
    assert_eq!(reader.remaining(), 3);
}

#[test]
fn nothing_is_read_behind_what_is_refused() {
    let whole = state_bytes().len();
    let mut bytes = state_bytes();
    bytes[3] = 0;
    let mut reader = StateReader::new(bytes);
    assert!(StateImage::read(&mut reader).end.is_err());
    assert_eq!(reader.remaining(), whole - 4);
    let mut bytes = state_bytes();
    bytes.splice(4..12, 9u64.encode());
    let mut reader = StateReader::new(bytes);
    assert!(StateImage::read(&mut reader).end.is_err());
    assert_eq!(reader.remaining(), whole - 12);
}

#[test]
fn directory_that_cannot_be_read_ends_the_reading() {
    let dirs = [saved_dir(2, 2).encode(), vec![1, 2], saved_dir(2, 3).encode()];
    let mut bytes = state_file_magic();
    bytes.extend(STATE_FILE_VERSION.encode());
    bytes.extend(DirTree::new(1).encode());
    bytes.extend(0u64.encode());
    bytes.extend(3u64.encode());
    bytes.extend(dirs[0].encode());
    bytes.extend(dirs[1].encode());
    let behind = [dirs[2].encode(), 7u64.encode()].concat();
    bytes.extend(&behind);
    let mut reader = StateReader::new(bytes);
    let image = StateImage::read(&mut reader);
    assert_eq!(image.end, Err(FuseError::CorruptState));
    assert_eq!(image.dir_handles.len(), 1);
    assert_eq!(reader.remaining(), behind.len());
}

#[test]
fn inodes_entries_and_attributes_come_once() {
    let root = (1u64, Inode::new_root(1)).encode();
    let twice = [1u64.encode(), 2u64.encode(), root.clone(), root.clone()].concat();
    assert!(DirTree::decode(&mut StateReader::new(twice)).is_none());
    let once = [1u64.encode(), 1u64.encode(), root.clone()].concat();
    assert!(DirTree::decode(&mut StateReader::new(once)).is_some());

    // The number of entries is what an inode without any ends with.
    let inode = Inode::new_root(1).encode();
    let entry = ("x".to_string(), 5u64).encode();
    let head = &inode[..inode.len() - 8];
    let one = [head, &1u64.encode(), &entry].concat();
    assert_eq!(Inode::decode(&mut StateReader::new(one)).unwrap().dir.unwrap().children.len(), 1);
    let two = [head, &2u64.encode(), &entry, &entry].concat();
    assert!(Inode::decode(&mut StateReader::new(two)).is_none());
    let file = Inode::with_status(4, 1, "f", FileStatus::blank(), 1).encode();
    let entry_of_a_file = [&file[..file.len() - 8], &1u64.encode(), &entry].concat();
    assert!(Inode::decode(&mut StateReader::new(entry_of_a_file)).is_none());

    let status = FileStatus::blank().encode();
    let attribute = ("k".to_string(), vec![7u8]).encode();
    let two = [&status[..status.len() - 8], &2u64.encode(), &attribute, &attribute].concat();
    assert!(FileStatus::decode(&mut StateReader::new(two)).is_none());
}

#[test]
fn other_marks_and_versions_are_refused() {
    let mut bytes = state_bytes();
    bytes[0] = b'X';
    let refused = read(bytes).end.unwrap_err();
    assert_eq!(refused, FuseError::InvalidMagic { mark: *b"XVFS" });
    assert_eq!(refused.errno(), Errno::Io);
    let mut bytes = state_bytes();
    bytes.splice(4..12, 2u64.encode());
    let image = read(bytes);
    assert_eq!(image.end, Err(FuseError::UnsupportedVersion { version: 2 }));
    assert!(image.tree.is_none());
}

#[test]
fn file_that_ends_early_is_noticed() {
    let bytes = state_bytes();
    let whole = bytes.len();
    for n in 0..whole {
        let image = read(bytes[..n].to_vec());
        assert!(image.end.is_err(), "{} of {} bytes", n, whole);
    }
    let image = read(bytes[..whole - 1].to_vec());
    assert_eq!(image.end, Err(FuseError::CorruptState));
    assert!(image.tree.is_some());
    assert_eq!((image.handles.len(), image.dir_handles.len()), (1, 2));
}

#[test]
fn text_that_is_no_text_is_noticed() {
    let good = "ab".to_string().encode();
    let mut reader = StateReader::new(good.clone());
    assert_eq!(String::decode(&mut reader), Some("ab".to_string()));
    assert_eq!(reader.remaining(), 0);
    let mut bad = good;
    let last = bad.len() - 1;
    bad[last] = 0xff;
    let mut reader = StateReader::new(bad.clone());
    assert_eq!(String::decode(&mut reader), None);
    assert_eq!(reader.remaining(), bad.len());
}

#[test]
fn numbers_and_options_come_back() {
    for n in [0u64, 1, 255, 256, u64::MAX - 1, u64::MAX] {
        assert_eq!(u64::decode(&mut StateReader::new(n.encode())), Some(n));
        assert_eq!(
            <Option<u64> as Record>::decode(&mut StateReader::new(Some(n).encode())),
            Some(Some(n))
        );
    }
    let none: Option<u64> = None;
    assert_eq!(<Option<u64> as Record>::decode(&mut StateReader::new(none.encode())), Some(None));
    assert_eq!(u64::decode(&mut StateReader::new(vec![1, 2, 3])), None);
}

#[test]
fn files_that_do_not_open_again_are_left_out() {
    let mut state = node();
    let listings = vec![Ok(70), Ok(71)];
    assert_eq!(state.restore(read(state_bytes()), &vec![None], &listings), Ok(()));
    assert!(state.all_handles().is_empty());
    assert_eq!(state.all_dir_handles().len(), 2);
    assert_eq!(state.find_dir_handle(2, 3).ok().unwrap().stream, 71);
    assert_eq!(state.current_fh(), 7);
}

#[test]
fn handles_of_a_damaged_file_are_found_under_their_numbers() {
    let mut tree = DirTree::new(9);
    let dir = FileStatus::with_name(2, "d".to_string(), true);
    tree.lookup(FUSE_ROOT_ID, "d", dir, 10).unwrap();
    let mut bytes = state_file_magic();
    bytes.extend(STATE_FILE_VERSION.encode());
    bytes.extend(tree.encode());
    bytes.extend(3u64.encode());
    bytes.extend(saved(4, 1).encode().encode());
    bytes.extend(vec![0u8, 1].encode());
    bytes.extend(saved(5, 6).encode().encode());
    bytes.extend(2u64.encode());
    bytes.extend(saved_dir(2, 2).encode().encode());
    let image = read(bytes);
    assert_eq!((image.handles.len(), image.dir_handles.len()), (3, 1));
    assert!(image.handles[1].is_none());
    let again = Some(Reopened { reader: Some(60), writer: None });
    let mut state = node();
    let answer = state.restore(image, &vec![again, again, again], &vec![Ok(70)]);
    assert_eq!(answer, Err(FuseError::CorruptState));
    for (ino, fh) in [(4, 1), (5, 6)] {
        let handle = state.find_handle(ino, fh).ok().unwrap();
        assert_eq!((handle.ino(), handle.fh()), (ino, fh));
    }
    let handle = state.find_dir_handle(2, 2).ok().unwrap();
    assert_eq!((handle.ino, handle.fh), (2, 2));
    assert_eq!((state.all_handles().len(), state.all_dir_handles().len()), (2, 1));
}

#[test]
fn directory_that_is_not_listed_again_ends_it() {
    let mut state = node();
    let reopened = vec![Some(Reopened { reader: Some(60), writer: None })];
    let failed = FuseError::Backend { code: 5 };
    let listings = vec![Ok(70), Err(failed)];
    assert_eq!(state.restore(read(state_bytes()), &reopened, &listings), Err(failed));
    assert_eq!(state.get_path(2).unwrap(), "/d");
    assert_eq!(state.all_handles().len(), 1);
    assert_eq!(state.all_dir_handles().len(), 1);
    assert_eq!(state.current_fh(), 0);
}

#[test]
fn refused_file_changes_nothing() {
    let mut state = node();
    let refused = state.restore(read(vec![1, 2]), &vec![], &vec![]);
    assert_eq!(refused, Err(FuseError::CorruptState));
    assert_eq!(state.dir_read().inode_lens(), 1);
    assert_eq!(state.get_path(FUSE_ROOT_ID).unwrap(), "/");
}
