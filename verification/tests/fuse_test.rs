//! A daemon writes its state down, and another one takes it over.
use fuse_state::dcache::inode::FUSE_ROOT_ID;
use fuse_state::persist::state_file::{StateImage, StateWriter};
use fuse_state::record::StateReader;
use fuse_state::state::file_handle::FileHandle;
use fuse_state::state::node_state::NodeState;
use fuse_state::state::node_view::{FuseConf, Reopened};
use fuse_state::state::opening::{OpenAction, Opened};
use fuse_state::status::{FileStatus, LockFlags, OpenFlags};

const CREATE: u32 = 0o100;
const NOW: u64 = 1_000;

fn conf() -> FuseConf {
    FuseConf { enable_meta_cache: true, meta_cache_ttl: 500, list_limit: 100 }
}

fn opened(id: u64, path: &str) -> Opened {
    let mut status = FileStatus::blank();
    status.id = 77;
    status.path = path.to_owned();
    Opened { id, status, is_ufs: false }
}

fn new_handle(state: &mut NodeState, ino: Option<u64>, path: &str, flags: u32) -> (u64, u64) {
    let mut opening = state.begin_handle(ino, flags).unwrap();
    loop {
        match opening.action {
            OpenAction::Flush { .. } => opening.flushed(),
            OpenAction::OpenWriter => opening.writer_opened(opened(501, path)),
            OpenAction::OpenReader => opening.reader_opened(opened(601, path)),
            OpenAction::Install => return state.new_handle(opening).unwrap(),
        }
    }
}

fn backend_lock(state: &NodeState, ino: u64, fh: u64) -> (Option<u64>, Option<u64>) {
    match state.find_handle(ino, fh).unwrap() {
        FileHandle::Backend(h) => (h.flock, h.plock),
        FileHandle::Cache(_) => panic!("a handle of the backing file system was expected"),
    }
}

#[test]
fn persist_restore() {
    let mut state1 = NodeState::new(conf(), NOW);

    let status_a = FileStatus::with_name(2, "a".to_string(), true);
    let status_b = FileStatus::with_name(3, "b".to_string(), true);
    let status_c = FileStatus::with_name(4, "c".to_string(), true);
    let a = state1.lookup(FUSE_ROOT_ID, "a", status_a, NOW).unwrap();
    let b = state1.lookup(a, "b", status_b, NOW).unwrap();
    let c = state1.lookup(b, "c", status_c, NOW).unwrap();
    assert_eq!((a, b, c), (2, 3, 4));

    let dir_handle1 = state1.new_dir_handle(a, "/a", 31);
    let dir_handle2 = state1.new_dir_handle(b, "/a/b", 32);

    let handle1 = new_handle(&mut state1, Some(21), "/a/1.log", OpenFlags::WRONLY | CREATE);
    let handle2 = new_handle(&mut state1, Some(22), "/a/2.log", OpenFlags::RDWR | CREATE);
    assert_eq!(handle1.0, 21);
    assert_eq!(handle2.0, 22);

    state1.add_lock(handle1.0, handle1.1, LockFlags::Flock, 100).unwrap();
    state1.add_lock(handle1.0, handle1.1, LockFlags::Plock, 200).unwrap();

    let original_node_count = state1.dir_read().inode_lens();
    let original_id_creator = state1.dir_read().current_id();
    let original_fh_creator = state1.current_fh();
    let original_path = state1.find_handle(handle1.0, handle1.1).unwrap().status().path.clone();
    let original_id = state1.find_handle(handle1.0, handle1.1).unwrap().status().id;
    assert_eq!(original_path, "/a/1.log");
    assert_eq!(original_id, 21);

    let mut writer = StateWriter::new();
    state1.persist(&mut writer);

    let mut state2 = NodeState::new(conf(), NOW);
    let mut reader = StateReader::new(writer.into_bytes());
    let image = StateImage::read(&mut reader);
    let reopened: Vec<Option<Reopened>> = image
        .handles
        .iter()
        .map(|h| {
            h.as_ref().map(|h| Reopened {
                reader: if h.has_reader { Some(701) } else { None },
                writer: if h.has_writer { Some(801) } else { None },
            })
        })
        .collect();
    let listings = image.dir_handles.iter().map(|_| Ok(901)).collect();
    state2.restore(image, &reopened, &listings).unwrap();

    assert_eq!(state2.get_path(a).unwrap(), "/a");
    assert_eq!(state2.get_path(b).unwrap(), "/a/b");
    assert_eq!(state2.get_path(c).unwrap(), "/a/b/c");

    assert_eq!(state2.get_ino(FUSE_ROOT_ID, Some("a")).unwrap(), a);
    assert_eq!(state2.get_ino(a, Some("b")).unwrap(), b);
    assert_eq!(state2.get_ino(b, Some("c")).unwrap(), c);

    assert_eq!(state2.all_handles().len(), state1.all_handles().len());
    assert_eq!(state2.all_handles().len(), 2);
    assert!(state2.find_handle(handle1.0, handle1.1).is_ok());
    assert!(state2.find_handle(handle2.0, handle2.1).is_ok());

    assert_eq!(state2.all_dir_handles().len(), state1.all_dir_handles().len());
    let restored_dir_handle1 = state2.find_dir_handle(a, dir_handle1).unwrap();
    assert_eq!(restored_dir_handle1.ino, a);
    assert_eq!(restored_dir_handle1.fh, dir_handle1);
    assert_eq!(restored_dir_handle1.path, "/a");
    assert_eq!(restored_dir_handle1.stream, 901);
    let restored_dir_handle2 = state2.find_dir_handle(b, dir_handle2).unwrap();
    assert_eq!(restored_dir_handle2.ino, b);
    assert_eq!(restored_dir_handle2.fh, dir_handle2);

    let restored_handle1 = state2.find_handle(handle1.0, handle1.1).unwrap();
    assert_eq!(restored_handle1.ino(), handle1.0);
    assert_eq!(restored_handle1.fh(), handle1.1);
    assert_eq!(restored_handle1.status().path, original_path);
    assert_eq!(restored_handle1.status().id, original_id);
    assert_eq!(restored_handle1.writer(), Some(801));
    let restored_handle2 = state2.find_handle(handle2.0, handle2.1).unwrap();
    assert!(restored_handle2.has_writer());

    assert_eq!(backend_lock(&state2, handle1.0, handle1.1), (Some(100), Some(200)));
    let flock_owner = state2.remove_lock(handle1.0, handle1.1, LockFlags::Flock).unwrap();
    assert_eq!(flock_owner, Some(100));
    let plock_owner = state2.remove_lock(handle1.0, handle1.1, LockFlags::Plock).unwrap();
    assert_eq!(plock_owner, Some(200));

    assert_eq!(state2.dir_read().inode_lens(), original_node_count);
    assert_eq!(state2.dir_read().current_id(), original_id_creator);
    assert_eq!(state2.current_fh(), original_fh_creator);
}
