//! The directory tree: lookups, paths, removed and moved entries, clearing.
use fuse_state::dcache::dir_tree::DirTree;
use fuse_state::dcache::inode::FUSE_ROOT_ID;
use fuse_state::error::{Errno, FuseError};
use fuse_state::state::handle_table::HandleTable;
use fuse_state::status::FileStatus;

const ROOT: u64 = FUSE_ROOT_ID;

fn dir(id: i64, name: &str) -> FileStatus {
    FileStatus::with_name(id, name.to_string(), true)
}

fn file(id: i64, name: &str) -> FileStatus {
    FileStatus::with_name(id, name.to_string(), false)
}

/// `/a` and `/a/b` are directories 2 and 3, `/a/f` is file 4.
fn sample() -> DirTree {
    let mut tree = DirTree::new(1);
    assert_eq!(tree.lookup(ROOT, "a", dir(2, "a"), 1), Ok(2));
    assert_eq!(tree.lookup(2, "b", dir(3, "b"), 1), Ok(3));
    assert_eq!(tree.lookup(2, "f", file(4, "f"), 1), Ok(4));
    tree
}

#[test]
fn new_tree_holds_the_root_alone() {
    let tree = DirTree::new(1);
    assert_eq!((tree.inode_lens(), tree.current_id()), (1, 1));
    assert_eq!(tree.get_path(ROOT).unwrap(), "/");
    assert_eq!(tree.get_path_name(ROOT, "x").unwrap(), "/x");
}

#[test]
fn lookup_takes_the_reported_number_where_it_is_free() {
    let mut tree = sample();
    assert_eq!((tree.inode_lens(), tree.current_id()), (4, 4));
    assert_eq!(tree.lookup(ROOT, "far", file(50, "far"), 1), Ok(50));
    assert_eq!(tree.current_id(), 50);
    assert_eq!(tree.lookup(ROOT, "taken", file(50, "taken"), 1), Ok(51));
    assert_eq!(tree.lookup(ROOT, "none", file(0, "none"), 1), Ok(52));
    assert_eq!(tree.lookup(ROOT, "negative", file(-4, "negative"), 1), Ok(53));
    assert_eq!(tree.lookup(ROOT, "low", file(7, "low"), 1), Ok(7));
    assert_eq!(tree.current_id(), 53);
    assert_eq!(tree.next_id(7), 54);
    assert_eq!(tree.next_id(60), 60);
    assert_eq!(tree.current_id(), 60);
}

#[test]
fn lookup_again_counts_and_updates() {
    let mut tree = sample();
    let mut longer = file(99, "f");
    longer.len = 12;
    assert_eq!(tree.lookup(2, "f", longer, 8), Ok(4));
    let inode = tree.get_inode(2, Some("f")).unwrap();
    assert_eq!((inode.ino, inode.n_lookup, inode.ref_ctr), (4, 2, 1));
    assert_eq!((inode.status.len, inode.last_access), (12, 8));
    assert_eq!(tree.inode_lens(), 4);
    tree.forget(4, 1).unwrap();
    assert_eq!(tree.get_inode(4, None).unwrap().n_lookup, 1);
}

#[test]
fn lookup_needs_a_directory() {
    let mut tree = sample();
    let missing = tree.lookup(77, "x", file(5, "x"), 1).unwrap_err();
    assert_eq!(missing, FuseError::InodeNotFound { ino: 77 });
    assert_eq!(missing.errno(), Errno::NoEntry);
    let no_dir = tree.lookup(4, "x", file(5, "x"), 1).unwrap_err();
    assert_eq!(no_dir, FuseError::NotDirectory { ino: 4 });
    assert_eq!(no_dir.errno(), Errno::NotDirectory);
}

#[test]
fn paths_follow_the_names() {
    let tree = sample();
    assert_eq!(tree.get_path(3).unwrap(), "/a/b");
    assert_eq!(tree.get_path_common(3, None).unwrap(), "/a/b");
    assert_eq!(tree.get_path_common(3, Some("x")).unwrap(), "/a/b/x");
    assert_eq!(tree.get_path_name(2, "b").unwrap(), tree.get_path(3).unwrap());
    assert_eq!(tree.get_path(9), Err(FuseError::InodeNotFound { ino: 9 }));
}

#[test]
fn names_outside_of_ascii_are_kept() {
    let mut tree = DirTree::new(1);
    assert_eq!(tree.lookup(ROOT, "Ordner \u{e4}\u{1f600}", dir(2, "x"), 1), Ok(2));
    assert_eq!(tree.get_path(2).unwrap(), "/Ordner \u{e4}\u{1f600}");
    assert_eq!(tree.resolve(ROOT, Some("Ordner \u{e4}\u{1f600}")), Some(2));
    assert_eq!(tree.resolve(ROOT, Some("Ordner \u{e4}")), None);
}

#[test]
fn resolve_answers_numbers_and_names() {
    let tree = sample();
    assert_eq!(tree.resolve(2, Some("b")), Some(3));
    assert_eq!(tree.resolve(2, Some("c")), None);
    assert_eq!(tree.resolve(4, Some("c")), None);
    assert_eq!(tree.resolve(3, None), Some(3));
    assert_eq!(tree.resolve(33, None), None);
    assert_eq!(tree.get_ino_check(2, Some("b")), Ok(3));
    assert_eq!(tree.get_ino_check(2, Some("c")), Err(FuseError::NameNotFound { parent: 2 }));
    assert_eq!(tree.get_ino_check(33, None), Err(FuseError::InodeNotFound { ino: 33 }));
    assert_eq!(tree.get_inode_check(3, None).ok().unwrap().name, "b");
}

#[test]
fn unlink_takes_the_name_and_one_link() {
    let mut tree = sample();
    let mut linked = file(4, "f");
    linked.nlink = 2;
    tree.update_status(4, linked, 2);
    assert_eq!(tree.unlink(2, "f"), Ok(()));
    assert_eq!(tree.resolve(2, Some("f")), None);
    let inode = tree.get_inode(4, None).unwrap();
    assert_eq!((inode.ref_ctr, inode.n_lookup, inode.status.nlink), (0, 1, 1));
    assert_eq!(tree.get_path(4).unwrap(), "/a/f");
    assert_eq!(tree.unlink(2, "f"), Err(FuseError::NameNotFound { parent: 2 }));
    assert_eq!(tree.unlink(4, "f"), Err(FuseError::NotDirectory { ino: 4 }));
    assert_eq!(tree.unlink(ROOT, "a"), Err(FuseError::DirectoryNotEmpty { ino: 2 }));
    assert_eq!(tree.unlink(2, "b"), Ok(()));
}

#[test]
fn rename_moves_the_entry_and_the_path() {
    let mut tree = sample();
    assert_eq!(tree.rename(2, "f", 3, "g"), Ok(()));
    assert_eq!(tree.resolve(2, Some("f")), None);
    assert_eq!(tree.resolve(3, Some("g")), Some(4));
    assert_eq!(tree.get_path(4).unwrap(), "/a/b/g");
    assert_eq!(tree.get_inode(4, None).unwrap().parent, 3);
    assert_eq!(tree.rename(ROOT, "a", ROOT, "z"), Ok(()));
    assert_eq!(tree.get_path(4).unwrap(), "/z/b/g");
    assert_eq!(tree.rename(ROOT, "z", ROOT, "z"), Ok(()));
    assert_eq!(tree.get_path(2).unwrap(), "/z");
}

#[test]
fn rename_replaces_what_has_the_name() {
    let mut tree = sample();
    assert_eq!(tree.lookup(3, "g", file(6, "g"), 1), Ok(6));
    assert_eq!(tree.rename(2, "f", 3, "g"), Ok(()));
    assert_eq!(tree.resolve(3, Some("g")), Some(4));
    assert_eq!(tree.get_inode(6, None).unwrap().ref_ctr, 0);
    assert_eq!(tree.lookup(2, "h", file(8, "h"), 1), Ok(8));
    assert_eq!(tree.rename(2, "h", 2, "b"), Err(FuseError::DirectoryNotEmpty { ino: 3 }));
    assert_eq!(tree.resolve(2, Some("h")), Some(8));
    assert_eq!(tree.rename(2, "gone", 3, "x"), Err(FuseError::NameNotFound { parent: 2 }));
    assert_eq!(tree.rename(2, "h", 4, "x"), Err(FuseError::NotDirectory { ino: 4 }));
    assert_eq!(tree.rename(2, "h", 40, "x"), Err(FuseError::InodeNotFound { ino: 40 }));
}

#[test]
fn directory_moved_below_itself_has_no_path() {
    let mut tree = sample();
    assert_eq!(tree.rename(ROOT, "a", 3, "a"), Ok(()));
    let broken = tree.get_path(3).unwrap_err();
    assert!(matches!(broken, FuseError::BrokenPath { .. }));
    assert_eq!(broken.errno(), Errno::Io);
}

#[test]
fn clear_keeps_what_is_used() {
    let mut tree = sample();
    let mut open: HandleTable<u8> = HandleTable::new();
    tree.unlink(2, "f").unwrap();
    tree.clear(&open);
    assert_eq!(tree.inode_lens(), 4);
    tree.forget(4, 1).unwrap();
    open.insert(4, 10, 0);
    tree.clear(&open);
    assert!(tree.get_inode(4, None).is_some());
    open.remove(4, 10);
    tree.clear(&open);
    assert!(tree.get_inode(4, None).is_none());
    tree.forget(3, 5).unwrap();
    tree.forget(2, 5).unwrap();
    tree.clear(&open);
    assert_eq!(tree.inode_lens(), 3);
    assert_eq!(tree.get_path(3).unwrap(), "/a/b");
}

#[test]
fn forget_and_mark_need_a_cached_inode() {
    let mut tree = sample();
    assert_eq!(tree.forget(99, 1), Err(FuseError::InodeNotFound { ino: 99 }));
    assert_eq!(tree.mark_delete(99), Err(FuseError::InodeNotFound { ino: 99 }));
    assert!(!tree.pending_delete(99) && !tree.pending_delete(4));
    assert_eq!(tree.mark_delete(4), Ok(()));
    assert!(tree.pending_delete(4));
}
