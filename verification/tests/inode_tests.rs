//! Inodes: what is reported of them, what is changed in them, what keeps them.
use fuse_state::dcache::flags::{DirtyFlags, Lifecycle};
use fuse_state::dcache::inode::{Inode, FUSE_ROOT_ID};
use fuse_state::error::{Errno, FuseError};
use fuse_state::names::NameMap;
use fuse_state::status::{FileStatus, SetAttrOpts};

fn file(len: i64) -> FileStatus {
    let mut status = FileStatus::with_name(9, "f".to_string(), false);
    status.len = len;
    status.nlink = 1;
    status
}

fn no_change() -> SetAttrOpts {
    SetAttrOpts {
        mtime: None,
        atime: None,
        mode: None,
        owner: None,
        group: None,
        add_x_attr: NameMap::new(),
        remove_x_attr: vec![],
    }
}

#[test]
fn root_is_a_directory_that_is_never_given_up() {
    let root = Inode::new_root(5);
    assert_eq!((root.ino, root.parent), (FUSE_ROOT_ID, 0));
    assert_eq!(root.name, "/");
    assert_eq!((root.status.name.as_str(), root.status.path.as_str()), ("/", "/"));
    assert!(root.status.is_dir && root.dir.is_some());
    assert!(root.is_root());
    assert_eq!((root.n_lookup, root.ref_ctr), (0, 0));
    assert!(!root.should_unref());
}

#[test]
fn fresh_inode_has_one_lookup_and_one_reference() {
    let inode = Inode::with_status(7, 1, "f", file(10), 5);
    assert_eq!((inode.ino, inode.parent, inode.name.as_str()), (7, 1, "f"));
    assert_eq!((inode.n_lookup, inode.ref_ctr, inode.last_access), (1, 1, 5));
    assert!(inode.dir.is_none() && !inode.mark_delete && !inode.is_root());
    assert_eq!(inode.lifecycle, Lifecycle::Cached);
    let dir = Inode::with_status(8, 1, "d", FileStatus::with_name(8, "d".to_string(), true), 5);
    assert!(dir.dir.is_some());
}

#[test]
fn entry_table_follows_the_status() {
    let dir_status = || FileStatus::with_name(8, "d".to_string(), true);
    let mut inode = Inode::with_status(8, 1, "d", dir_status(), 5);
    inode.dir.as_mut().unwrap().children.insert("x".to_string(), 20);
    inode.update_status(dir_status(), 6);
    assert_eq!(inode.dir.as_ref().unwrap().children.len(), 1);
    assert_eq!(inode.last_access, 6);
    inode.update_status(file(1), 7);
    assert!(inode.dir.is_none());
    inode.update_status(dir_status(), 8);
    assert_eq!(inode.dir.as_ref().unwrap().children.len(), 0);
}

#[test]
fn counters_saturate() {
    let mut inode = Inode::with_status(7, 1, "f", file(10), 5);
    assert_eq!(inode.add_lookup(4, 9), 5);
    assert_eq!(inode.last_access, 9);
    assert_eq!(inode.sub_lookup(2), 3);
    assert_eq!(inode.add_lookup(u64::MAX, 9), u64::MAX);
    assert_eq!(inode.sub_lookup(u64::MAX), 0);
    assert_eq!(inode.sub_lookup(1), 0);
    assert!(!inode.should_unref());
    assert_eq!(inode.add_ref(2), 3);
    assert_eq!(inode.sub_ref(9), 0);
    assert!(inode.should_unref());
    inode.add_link(2);
    assert_eq!(inode.status.nlink, 3);
    inode.sub_link(4);
    assert_eq!(inode.status.nlink, 0);
    inode.add_link(u32::MAX);
    inode.add_link(1);
    assert_eq!(inode.status.nlink, u32::MAX);
}

#[test]
fn lookups_that_were_made_are_given_back() {
    let mut inode = Inode::with_status(7, 1, "f", file(10), 5);
    inode.add_lookup(3, 6);
    inode.sub_lookup(3);
    assert_eq!(inode.n_lookup, 1);
}

#[test]
fn only_an_empty_directory_may_go() {
    let mut dir = Inode::with_status(8, 1, "d", FileStatus::with_name(8, "d".to_string(), true), 5);
    assert_eq!(dir.ensure_dir_empty(), Ok(()));
    dir.dir.as_mut().unwrap().children.insert("x".to_string(), 20);
    let not_empty = dir.ensure_dir_empty().unwrap_err();
    assert_eq!(not_empty, FuseError::DirectoryNotEmpty { ino: 8 });
    assert_eq!(not_empty.errno(), Errno::NotEmpty);
    dir.dir = None;
    let missing = dir.ensure_dir_empty().unwrap_err();
    assert_eq!(missing, FuseError::MissingDirEntry { ino: 8 });
    assert_eq!(missing.errno(), Errno::Io);
    assert_eq!(Inode::with_status(7, 1, "f", file(1), 5).ensure_dir_empty(), Ok(()));
}

#[test]
fn writes_go_to_files_only() {
    let mut inode = Inode::with_status(7, 1, "f", file(10), 5);
    assert_eq!(inode.ensure_file(), Ok(()));
    assert_eq!(inode.dirty_write(44), Ok(()));
    assert_eq!(inode.status.len, 44);
    assert_eq!(inode.dirty_flush(1234), Ok(()));
    assert_eq!(inode.status.mtime, 1234);
    let mut dir = Inode::new_root(5);
    let refused = FuseError::NotFile { ino: 1 };
    assert_eq!(dir.ensure_file(), Err(refused));
    assert_eq!(dir.dirty_write(1), Err(refused));
    assert_eq!(dir.dirty_flush(1), Err(refused));
    assert_eq!(refused.errno(), Errno::Io);
}

#[test]
fn cached_status_ages() {
    let mut inode = Inode::with_status(7, 1, "f", file(10), 100);
    assert!(inode.cache_valid(50, 150));
    assert!(!inode.cache_valid(50, 151));
    inode.invalid_cache();
    assert_eq!(inode.lifecycle, Lifecycle::Invalid);
    assert!(!inode.cache_valid(50, 100));
    inode.invalid_cache();
    assert_eq!(inode.lifecycle, Lifecycle::Invalid);
    inode.mark_create();
    assert!(inode.is_dirty() && inode.is_staging());
    assert!(inode.cache_valid(0, u64::MAX));
    inode.invalid_cache();
    assert!(inode.is_dirty());
}

#[test]
fn dirty_bits_are_told_apart() {
    let mut inode = Inode::with_status(7, 1, "f", file(10), 100);
    assert!(!inode.is_data_dirty() && !inode.is_attr_dirty() && !inode.is_staging());
    inode.dirty.insert(DirtyFlags::SIZE);
    assert!(inode.is_data_dirty() && !inode.is_attr_dirty());
    inode.dirty = DirtyFlags::empty();
    inode.dirty.insert(DirtyFlags::DATA);
    assert!(inode.is_data_dirty());
    inode.dirty.insert(DirtyFlags::ATTR);
    assert!(inode.is_attr_dirty() && inode.is_data_dirty());
    assert_eq!(inode.dirty.bits, 5);
}

#[test]
fn attributes_change_as_asked() {
    let mut inode = Inode::with_status(7, 1, "f", file(10), 100);
    inode.status.x_attr.insert("keep".to_string(), vec![1]);
    inode.status.x_attr.insert("old".to_string(), vec![2]);
    let mut opts = no_change();
    opts.mtime = Some(11);
    opts.atime = Some(12);
    opts.mode = Some(0o644);
    opts.owner = Some("u".to_string());
    opts.group = Some("g".to_string());
    opts.add_x_attr.insert("new".to_string(), vec![3]);
    opts.add_x_attr.insert("both".to_string(), vec![4]);
    opts.remove_x_attr = vec!["old".to_string(), "both".to_string(), "absent".to_string()];
    let status = inode.dirty_set_attr(opts).ok().unwrap();
    assert_eq!((status.mtime, status.atime, status.mode), (11, 12, 0o644));
    assert_eq!((status.owner.as_str(), status.group.as_str()), ("u", "g"));
    assert_eq!(status.x_attr.len(), 2);
    assert_eq!(status.x_attr.get("keep"), Some(&vec![1]));
    assert_eq!(status.x_attr.get("new"), Some(&vec![3]));
    assert!(status.x_attr.get("both").is_none() && status.x_attr.get("old").is_none());
    assert_eq!(inode.status.mtime, 11);
    assert!(inode.is_attr_dirty());

    let status = inode.dirty_set_attr(no_change()).ok().unwrap();
    assert_eq!((status.mtime, status.atime, status.len), (11, 12, 10));
}

#[test]
fn attributes_of_an_inode_made_here_are_refused() {
    let mut inode = Inode::with_status(7, 1, "f", file(10), 100);
    inode.mark_create();
    let refused = inode.dirty_set_attr(no_change()).err().unwrap();
    assert_eq!(refused, FuseError::InodeDirty { ino: 7 });
    assert_eq!(refused.errno(), Errno::Io);
    assert!(!inode.is_attr_dirty());
}
