//! The state that requests are answered from.
use fuse_state::dcache::flags::Lifecycle;
use fuse_state::dcache::dir_tree::DirTree;
use fuse_state::dcache::inode::{Inode, FUSE_ROOT_ID};
use fuse_state::error::{Errno, FuseError};
use fuse_state::persist::state_file::StateImage;
use fuse_state::record::{Record, StateReader};
use fuse_state::state::file_handle::FileHandle;
use fuse_state::state::node_state::NodeState;
use fuse_state::state::node_view::FuseConf;
use fuse_state::state::opening::{OpenAction, Opened, Opening};
use fuse_state::status::{FileStatus, LockFlags, OpenFlags};

const ROOT: u64 = FUSE_ROOT_ID;

fn state() -> NodeState {
    NodeState::new(FuseConf { enable_meta_cache: true, meta_cache_ttl: 50, list_limit: 7 }, 100)
}

fn file(id: i64, len: i64) -> FileStatus {
    let mut status = FileStatus::with_name(id, "f".to_string(), false);
    status.len = len;
    status
}

fn dir(id: i64) -> FileStatus {
    FileStatus::with_name(id, "d".to_string(), true)
}

fn opened(id: u64, file_id: i64, is_ufs: bool) -> Opened {
    Opened { id, status: file(file_id, 10), is_ufs }
}

/// Opens a file, with these numbers for a writer and a reader. Gives the
/// handle and the steps that were taken.
fn open(
    state: &mut NodeState,
    ino: Option<u64>,
    flags: u32,
    writer: u64,
    reader: u64,
) -> ((u64, u64), Vec<OpenAction>) {
    let mut opening = state.begin_handle(ino, flags).ok().unwrap();
    let mut steps = vec![];
    loop {
        steps.push(opening.action);
        match opening.action {
            OpenAction::Flush { .. } => opening.flushed(),
            OpenAction::OpenWriter => opening.writer_opened(opened(writer, 30, false)),
            OpenAction::OpenReader => opening.reader_opened(opened(reader, 31, false)),
            OpenAction::Install => return (state.new_handle(opening).unwrap(), steps),
        }
    }
}

#[test]
fn cached_status_is_used_while_it_is_fresh() {
    let mut state = state();
    let ino = state.lookup(ROOT, "f", file(2, 10), 100).unwrap();
    assert_eq!(state.get_cache_status(ROOT, Some("f"), 150).unwrap().len, 10);
    assert_eq!(state.get_cache_status(ino, None, 150).unwrap().id, 2);
    assert!(state.get_cache_status(ino, None, 151).is_none());
    assert!(state.get_cache_status(ROOT, Some("g"), 100).is_none());
    assert!(state.get_cache_status(99, None, 100).is_none());
    state.invalid_cache(ROOT, Some("f"));
    assert!(state.get_cache_status(ino, None, 100).is_none());
    state.update_status(ino, file(2, 20), 120);
    assert_eq!(state.get_cache_status(ino, None, 170).unwrap().len, 20);
}

#[test]
fn no_cached_status_where_the_cache_is_off() {
    let conf = FuseConf { enable_meta_cache: false, meta_cache_ttl: 50, list_limit: 7 };
    let mut state = NodeState::new(conf, 100);
    let ino = state.lookup(ROOT, "f", file(2, 10), 100).unwrap();
    assert!(state.get_cache_status(ino, None, 100).is_none());
    assert_eq!(state.conf(), conf);
}

#[test]
fn update_status_tells_first_access_and_change() {
    let mut state = state();
    let ino = state.lookup(ROOT, "f", file(2, 10), 100).unwrap();
    assert_eq!(state.update_status(ino, file(2, 10), 101), (false, false));
    assert_eq!(state.update_status(ino, file(2, 11), 102), (false, true));
    let mut touched = file(2, 11);
    touched.mtime = 5;
    assert_eq!(state.update_status(ino, touched, 103), (false, true));
    state.invalid_cache(ino, None);
    let mut same = file(2, 11);
    same.mtime = 5;
    assert_eq!(state.update_status(ino, same, 104), (true, false));
    assert_eq!(state.update_status(99, file(2, 11), 105), (false, false));
}

#[test]
fn pages_are_kept_on_first_access_or_without_change() {
    let mut state = state();
    let ino = state.lookup(ROOT, "f", file(2, 10), 100).unwrap();
    assert!(state.keep_cache(ino, file(2, 10), 101));
    assert!(!state.keep_cache(ino, file(2, 11), 102));
    state.invalid_cache(ino, None);
    assert!(state.keep_cache(ino, file(2, 12), 103));
    assert!(state.keep_cache(99, file(2, 12), 103));
}

#[test]
fn status_that_was_given_up_is_cached_again() {
    let mut state = state();
    let ino = state.lookup(ROOT, "f", file(2, 10), 100).unwrap();
    state.invalid_cache(ino, None);
    assert_eq!(state.dir_read().get_inode(ino, None).unwrap().lifecycle, Lifecycle::Invalid);
    state.dir_write().update_status(ino, file(2, 3), 200);
    assert_eq!(state.dir_read().get_inode(ino, None).unwrap().lifecycle, Lifecycle::Cached);
}

/// A state whose tree holds these inodes.
fn state_of(inodes: Vec<(u64, Inode)>) -> NodeState {
    let mut bytes = 9u64.encode();
    bytes.extend((inodes.len() as u64).encode());
    for pair in &inodes {
        bytes.extend(pair.encode());
    }
    let tree = DirTree::decode(&mut StateReader::new(bytes));
    let image = StateImage { tree, handles: vec![], dir_handles: vec![], end: Ok(0) };
    let mut state = state();
    state.restore(image, &vec![], &vec![]).unwrap();
    state
}

#[test]
fn local_changes_are_not_given_up() {
    let mut made_here = Inode::with_status(5, ROOT, "n", file(5, 10), 100);
    made_here.mark_create();
    let mut state = state_of(vec![(ROOT, Inode::new_root(100)), (5, made_here)]);
    state.invalid_cache(5, None);
    assert!(state.dir_read().get_inode(5, None).unwrap().is_dirty());
    assert_eq!(state.get_cache_status(5, None, 1_000_000).unwrap().len, 10);
    assert_eq!(state.update_status(5, file(5, 11), 101), (false, true));
    assert!(!state.dir_read().get_inode(5, None).unwrap().is_dirty());
}

#[test]
fn paths_and_parents() {
    let mut state = state();
    let d = state.lookup(ROOT, "d", dir(2), 100).unwrap();
    let f = state.lookup(d, "f", file(3, 0), 100).unwrap();
    assert_eq!(state.get_parent_ino(f), Ok(d));
    assert_eq!(state.get_parent_ino(9), Err(FuseError::InodeNotFound { ino: 9 }));
    assert_eq!(state.get_path(f).unwrap(), "/d/f");
    assert_eq!(state.get_path_common(d, Some("x")).unwrap(), "/d/x");
    assert_eq!(state.get_path_name(ROOT, "x").unwrap(), "/x");
    let two = state.get_path2(d, "f", ROOT, "g").unwrap();
    assert_eq!(two, ("/d/f".to_string(), "/g".to_string()));
    assert_eq!(state.get_path2(8, "f", 9, "g"), Err(FuseError::InodeNotFound { ino: 8 }));
    assert_eq!(state.get_path2(d, "f", 9, "g"), Err(FuseError::InodeNotFound { ino: 9 }));
    assert_eq!(state.get_ino(d, Some("f")), Some(f));
    assert_eq!(state.get_ino(d, Some("g")), None);
    assert_eq!(state.get_ino(1234, None), Some(1234));
}

#[test]
fn numbers_are_given_out_in_order() {
    let mut state = state();
    assert_eq!(state.current_fh(), 0);
    assert_eq!((state.next_fh(), state.next_fh()), (1, 2));
    assert_eq!(state.current_fh(), 2);
    assert_eq!(state.next_ino(&file(0, 0)), 2);
    assert_eq!(state.next_ino(&file(9, 0)), 9);
    assert_eq!(state.next_ino(&file(1, 0)), 10);
}

#[test]
fn forgetting_goes_on_after_a_miss() {
    let mut state = state();
    let f = state.lookup(ROOT, "f", file(2, 0), 100).unwrap();
    let g = state.lookup(ROOT, "g", file(3, 0), 100).unwrap();
    assert_eq!(state.batch_forget(&vec![(f, 1), (99, 1), (g, 1)]), Ok(()));
    assert_eq!(state.dir_read().get_inode(f, None).unwrap().n_lookup, 0);
    assert_eq!(state.dir_read().get_inode(g, None).unwrap().n_lookup, 0);
    assert_eq!(state.forget(99, 1), Err(FuseError::InodeNotFound { ino: 99 }));
}

#[test]
fn lookup_clears_what_nothing_keeps() {
    let mut state = state();
    let f = state.lookup(ROOT, "f", file(2, 0), 100).unwrap();
    let ((_, fh), _) = open(&mut state, Some(f), OpenFlags::WRONLY, 501, 601);
    state.unlink(ROOT, "f").unwrap();
    state.forget(f, 1).unwrap();
    state.lookup(ROOT, "g", file(3, 0), 100).unwrap();
    assert!(state.dir_read().get_inode(f, None).is_some());
    assert!(state.remove_handle(f, fh).is_some());
    state.lookup(ROOT, "h", file(4, 0), 100).unwrap();
    assert!(state.dir_read().get_inode(f, None).is_none());
    assert_eq!(state.rename(ROOT, "g", ROOT, "k"), Ok(()));
    assert_eq!(state.get_ino(ROOT, Some("k")), Some(3));
    assert_eq!(state.unlink(ROOT, "g"), Err(FuseError::NameNotFound { parent: ROOT }));
}

#[test]
fn opening_for_reading_flushes_the_writer_first() {
    let mut state = state();
    let ((ino, w), steps) = open(&mut state, Some(20), OpenFlags::WRONLY, 501, 601);
    assert_eq!(steps, vec![OpenAction::OpenWriter, OpenAction::Install]);
    assert_eq!((ino, w), (20, 1));
    let ((_, r), steps) = open(&mut state, Some(20), OpenFlags::RDONLY, 502, 602);
    assert_eq!(
        steps,
        vec![OpenAction::Flush { writer: 501 }, OpenAction::OpenReader, OpenAction::Install]
    );
    assert_eq!(state.find_handle(20, r).ok().unwrap().writer(), None);
    assert!(!state.find_handle(20, r).ok().unwrap().has_writer());
    let (_, steps) = open(&mut state, Some(20), OpenFlags::RDWR, 503, 603);
    assert_eq!(
        steps,
        vec![
            OpenAction::Flush { writer: 501 },
            OpenAction::OpenWriter,
            OpenAction::OpenReader,
            OpenAction::Install
        ]
    );
    let (_, steps) = open(&mut state, None, OpenFlags::RDONLY, 504, 604);
    assert_eq!(steps, vec![OpenAction::OpenReader, OpenAction::Install]);
}

#[test]
fn handles_on_an_inode_share_the_writer() {
    let mut state = state();
    let ((_, a), _) = open(&mut state, Some(20), OpenFlags::WRONLY, 501, 601);
    let ((_, b), _) = open(&mut state, Some(20), OpenFlags::RDWR, 502, 602);
    let ((_, c), _) = open(&mut state, Some(21), OpenFlags::WRONLY, 503, 603);
    assert_eq!(state.find_handle(20, a).ok().unwrap().writer(), Some(501));
    assert_eq!(state.find_handle(20, b).ok().unwrap().writer(), Some(501));
    assert_eq!(state.find_handle(21, c).ok().unwrap().writer(), Some(503));
    assert_eq!(state.find_writer(20), Some(501));
    assert!(!state.keep_attr(20) && state.keep_attr(99));
    assert_eq!(state.all_handles().len(), 3);
    state.remove_handle(20, a);
    assert_eq!(state.find_writer(20), Some(501));
    state.remove_handle(20, b);
    assert_eq!(state.find_writer(20), None);
    assert!(state.keep_attr(20));
}

#[test]
fn new_handle_has_the_inode_number_in_its_status() {
    let mut state = state();
    let ((ino, fh), _) = open(&mut state, None, OpenFlags::RDONLY, 501, 601);
    assert_eq!((ino, fh), (31, 1));
    let status = state.find_handle(ino, fh).ok().unwrap().status();
    assert_eq!((status.id, status.len), (31, 10));
    // A number is drawn also where one was given.
    let ((ino, _), _) = open(&mut state, Some(5), OpenFlags::RDWR, 502, 602);
    assert_eq!(ino, 5);
    assert_eq!(state.dir_read().current_id(), 31);
    let ((ino, _), _) = open(&mut state, None, OpenFlags::WRONLY, 503, 603);
    assert_eq!(ino, 30);
}

#[test]
fn open_file_has_what_its_mode_asks_for() {
    let mut state = state();
    for (flags, reader, writer) in [
        (OpenFlags::RDONLY, Some(601), None),
        (OpenFlags::WRONLY, None, Some(501)),
        (OpenFlags::RDWR, Some(601), Some(501)),
    ] {
        let ((ino, fh), _) = open(&mut state, None, flags, 501, 601);
        match state.remove_handle(ino, fh) {
            Some(FileHandle::Backend(handle)) => {
                assert_eq!((handle.reader, handle.writer), (reader, writer));
            }
            _ => panic!("a handle of the backing file system was expected"),
        }
    }
}

#[test]
fn backend_handle_keeps_its_reader() {
    let mut state = state();
    let ((ino, fh), _) = open(&mut state, Some(20), OpenFlags::RDONLY, 501, 601);
    assert_eq!(state.set_reader(ino, fh, 700), Ok(()));
    match state.find_handle(ino, fh).ok().unwrap() {
        FileHandle::Backend(handle) => assert_eq!(handle.reader, Some(601)),
        FileHandle::Cache(_) => panic!("a handle of the backing file system was expected"),
    }
    let missing = FuseError::FileHandleNotFound { ino: 7, fh: 8 };
    assert_eq!(state.set_reader(7, 8, 700), Err(missing));
}

#[test]
fn file_of_another_file_system_has_no_reader_for_both() {
    let state = state();
    let mut opening = state.begin_handle(Some(4), OpenFlags::RDWR).ok().unwrap();
    opening.writer_opened(opened(501, 9, true));
    assert_eq!(opening.action, OpenAction::Install);
    assert!(opening.reader.is_none());
}

#[test]
fn unknown_access_mode_is_refused() {
    let state = state();
    let refused = state.begin_handle(None, 3).err().unwrap();
    assert_eq!(refused, FuseError::InvalidAccessMode { mode: 3 });
    assert_eq!(refused.errno(), Errno::Invalid);
    assert_eq!(OpenFlags::new(0o102).access_mode(), OpenFlags::RDWR);
}

#[test]
fn opening_without_reader_and_writer_is_refused() {
    let mut state = state();
    let opening = Opening {
        ino: None,
        flags: OpenFlags::new(64),
        reader: None,
        writer: None,
        action: OpenAction::Install,
    };
    let refused = state.new_handle(opening).unwrap_err();
    assert_eq!(refused, FuseError::InvalidFlags { flags: 64 });
    assert_eq!(refused.errno(), Errno::Invalid);
    assert_eq!(state.current_fh(), 0);
}

#[test]
fn handles_are_found_by_both_numbers() {
    let mut state = state();
    let ((ino, fh), _) = open(&mut state, Some(20), OpenFlags::RDONLY, 501, 601);
    assert!(state.has_open_handles(20) && !state.has_open_handles(21));
    let missing = state.find_handle(ino, fh + 1).err().unwrap();
    assert_eq!(missing, FuseError::FileHandleNotFound { ino, fh: fh + 1 });
    assert_eq!(missing.errno(), Errno::BadDescriptor);
    assert!(state.remove_handle(ino, fh + 1).is_none());
    assert_eq!(state.remove_handle(ino, fh).unwrap().fh(), fh);
    assert!(state.remove_handle(ino, fh).is_none());
    assert!(!state.has_open_handles(20));
}

#[test]
fn locks_belong_to_a_handle() {
    let mut state = state();
    let ((ino, fh), _) = open(&mut state, Some(20), OpenFlags::WRONLY, 501, 601);
    assert_eq!(state.remove_lock(ino, fh, LockFlags::Flock), Ok(None));
    assert_eq!(state.add_lock(ino, fh, LockFlags::Flock, 100), Ok(()));
    assert_eq!(state.add_lock(ino, fh, LockFlags::Flock, 101), Ok(()));
    assert_eq!(state.remove_lock(ino, fh, LockFlags::Plock), Ok(None));
    assert_eq!(state.remove_lock(ino, fh, LockFlags::Flock), Ok(Some(101)));
    assert_eq!(state.remove_lock(ino, fh, LockFlags::Flock), Ok(None));
    let missing = FuseError::FileHandleNotFound { ino: 7, fh: 8 };
    assert_eq!(state.add_lock(7, 8, LockFlags::Plock, 1), Err(missing));
    assert_eq!(state.remove_lock(7, 8, LockFlags::Plock), Err(missing));
}

#[test]
fn deletion_waits_for_the_last_handle() {
    let mut state = state();
    let f = state.lookup(ROOT, "f", file(2, 0), 100).unwrap();
    assert_eq!(state.should_delete_now(ROOT, "f"), Ok(true));
    assert!(!state.deferred_delete_ready(f));
    let ((_, a), _) = open(&mut state, Some(f), OpenFlags::WRONLY, 501, 601);
    let ((_, b), _) = open(&mut state, Some(f), OpenFlags::RDONLY, 502, 602);
    assert_eq!(state.should_delete_now(ROOT, "f"), Ok(false));
    state.unlink(ROOT, "f").unwrap();
    state.remove_handle(f, a);
    assert!(!state.deferred_delete_ready(f));
    state.remove_handle(f, b);
    assert!(state.deferred_delete_ready(f));
    assert_eq!(state.should_delete_now(ROOT, "x"), Err(FuseError::NameNotFound { parent: ROOT }));
}

#[test]
fn open_directories_are_kept_apart_from_files() {
    let mut state = state();
    let fh = state.new_dir_handle(4, "/d", 70);
    assert_eq!(fh, 1);
    let handle = state.find_dir_handle(4, 1).ok().unwrap();
    assert_eq!((handle.ino, handle.fh, handle.limit, handle.stream), (4, 1, 7, 70));
    assert_eq!(handle.path, "/d");
    assert!(!state.has_open_handles(4));
    assert_eq!(state.all_dir_handles().len(), 1);
    let missing = state.find_dir_handle(4, 2).err().unwrap();
    assert_eq!(missing, FuseError::DirHandleNotFound { ino: 4, fh: 2 });
    assert_eq!(missing.errno(), Errno::BadDescriptor);
    assert!(state.remove_dir_handle(5, 1).is_none());
    assert_eq!(state.remove_dir_handle(4, 1).unwrap().path, "/d");
    assert!(state.remove_dir_handle(4, 1).is_none());
}

#[test]
fn listing_starts_with_the_dots() {
    let failed = FuseError::Backend { code: 5 };
    let mut listed = NodeState::list_stream(vec![Ok(file(9, 4)), Err(failed)]);
    assert_eq!(listed.len(), 4);
    assert_eq!(listed.pop().unwrap().err(), Some(failed));
    let listed: Vec<FileStatus> = listed.into_iter().map(|s| s.ok().unwrap()).collect();
    let names: Vec<&str> = listed.iter().map(|s| s.name.as_str()).collect();
    assert_eq!(names, vec![".", "..", "f"]);
    assert!(listed[0].is_dir && listed[1].is_dir && !listed[2].is_dir);
    assert_eq!((listed[0].id, listed[1].id, listed[2].id), (0, 0, 9));
}
