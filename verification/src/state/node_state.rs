//! The state that requests are answered from.
use vstd::prelude::*;

use crate::dcache::dir_tree;
use crate::dcache::dir_tree::DirTree;
use crate::dcache::flags::Lifecycle;
use crate::dcache::inode;
use crate::error::{FuseError, FuseResult};
use crate::persist::handle::{SavedDirHandle, SavedDirHandleView, SavedHandle, SavedHandleView};
use crate::persist::state_file;
use crate::persist::state_file::{write_state, StateImage, StateWriter};
use crate::record;
use crate::state::backend_handle::BackendView;
use crate::state::dir_handle::DirHandle;
use crate::state::file_handle::{FileHandle, FileHandleView};
use crate::state::handle_table;
use crate::state::handle_table::HandleTable;
use crate::state::node_view;
use crate::state::node_view::{DirHandles, FileHandles, FuseConf, NodeView, Reopened};
use crate::state::opening::{Opening, OpeningView};
use crate::status;
use crate::status::{FileStatus, LockFlags, StatusView};

verus! {

/// The directory tree and the open handles.
pub struct NodeState {
    dir_tree: DirTree,
    handles: HandleTable<FileHandle>,
    dir_handles: HandleTable<DirHandle>,
    fh_creator: u64,
    conf: FuseConf,
}

impl View for NodeState {
    type V = NodeView;

    closed spec fn view(&self) -> NodeView {
        NodeView {
            tree: self.dir_tree@,
            handles: file_views(self.handles@),
            dir_handles: dir_views(self.dir_handles@),
            last_fh: self.fh_creator,
            conf: self.conf,
        }
    }
}

/// Open files as mathematical values.
spec fn file_views(handles: Map<(u64, u64), FileHandle>) -> FileHandles {
    handles.map_values(|h: FileHandle| h@)
}

/// Open directories as mathematical values.
spec fn dir_views(handles: Map<(u64, u64), DirHandle>) -> DirHandles {
    handles.map_values(|h: DirHandle| h@)
}

/// The same inodes have a handle.
proof fn lemma_open_inodes(handles: Map<(u64, u64), FileHandle>)
    ensures
        handle_table::open_inodes(handles) == handle_table::open_inodes(file_views(handles)),
        forall|ino: u64|
            handle_table::on_inode(handles, ino) == #[trigger] handle_table::on_inode(
                file_views(handles),
                ino,
            ),
{
    assert forall|ino: u64|
        handle_table::on_inode(handles, ino) == #[trigger] handle_table::on_inode(
            file_views(handles),
            ino,
        ) by {
        if handle_table::on_inode(handles, ino) {
            let fh = choose|fh: u64| handles.contains_key((ino, fh));
            assert(file_views(handles).contains_key((ino, fh)));
        }
        if handle_table::on_inode(file_views(handles), ino) {
            let fh = choose|fh: u64| file_views(handles).contains_key((ino, fh));
            assert(handles.contains_key((ino, fh)));
        }
    }
    assert(handle_table::open_inodes(handles) =~= handle_table::open_inodes(file_views(handles)));
}

/// The text of a result that is a path.
pub open spec fn path_view(r: FuseResult<String>) -> FuseResult<Seq<char>> {
    match r {
        Ok(path) => Ok(path@),
        Err(e) => Err(e),
    }
}

impl NodeState {
    /// The state that a daemon starts with.
    pub fn new(conf: FuseConf, now: u64) -> (r: Self)
        ensures
            r@ == NodeView::initial(conf, now),
    {
        let r = NodeState {
            dir_tree: DirTree::new(now),
            handles: HandleTable::new(),
            dir_handles: HandleTable::new(),
            fh_creator: 0,
            conf,
        };
        assert(r@.handles =~= Map::empty());
        assert(r@.dir_handles =~= Map::empty());
        r
    }

    /// The directory tree, to be changed.
    pub fn dir_write(&mut self) -> (r: &mut DirTree)
        ensures
            r@ == old(self)@.tree,
            final(self)@ == old(self)@.with_tree(final(r)@),
    {
        &mut self.dir_tree
    }

    /// The directory tree.
    pub fn dir_read(&self) -> (r: &DirTree)
        ensures
            r@ == self@.tree,
    {
        &self.dir_tree
    }

    /// The settings.
    pub fn conf(&self) -> (r: FuseConf)
        ensures
            r == self@.conf,
    {
        self.conf
    }

    /// Gives up the cached status of what an inode number, or a name in it,
    /// leads to.
    pub fn invalid_cache(&mut self, ino: u64, name: Option<&str>)
        ensures
            final(self)@ == old(self)@.with_tree(
                old(self)@.tree.invalid_cache(ino, dir_tree::opt_name(name)),
            ),
    {
        self.dir_tree.invalid_cache(ino, name);
    }

    /// The cached status of what an inode number, or a name in it, leads to,
    /// where it may be used.
    pub fn get_cache_status(&self, ino: u64, name: Option<&str>, now: u64) -> (r: Option<
        FileStatus,
    >)
        requires
            self@.conf.enable_meta_cache ==> match self@.tree.resolve(
                ino,
                dir_tree::opt_name(name),
            ) {
                Some(found) => self@.tree.inodes[found].lifecycle is Cached
                    ==> self@.tree.inodes[found].last_access + self@.conf.meta_cache_ttl
                    <= u64::MAX,
                None => true,
            },
        ensures
            match r {
                Some(status) => self@.cached_status(ino, dir_tree::opt_name(name), now) == Some(
                    status@,
                ),
                None => self@.cached_status(ino, dir_tree::opt_name(name), now) is None,
            },
    {
        if !self.conf.enable_meta_cache {
            return None;
        }
        match self.dir_tree.get_inode(ino, name) {
            None => None,
            Some(inode) => {
                if inode.cache_valid(self.conf.meta_cache_ttl, now) {
                    Some(inode.status.duplicate())
                } else {
                    None
                }
            },
        }
    }

    /// Takes over a status that the backing file system reported for an
    /// inode. Says whether it is the first since the cached one was given up,
    /// and whether time of change or length differ.
    pub fn update_status(&mut self, ino: u64, status: FileStatus, now: u64) -> (r: (bool, bool))
        ensures
            r == old(self)@.status_news(ino, status@),
            final(self)@ == old(self)@.with_tree(
                old(self)@.tree.update_status(ino, status@, now),
            ),
    {
        let news = match self.dir_tree.get_inode(ino, None) {
            Some(inode) => (
                inode.lifecycle == Lifecycle::Invalid,
                inode.status.mtime != status.mtime || inode.status.len != status.len,
            ),
            None => (false, false),
        };
        self.dir_tree.update_status(ino, status, now);
        news
    }

    /// Takes over a reported status and says whether the kernel may keep its
    /// pages: on the first access, or where the file did not change.
    pub fn keep_cache(&mut self, ino: u64, status: FileStatus, now: u64) -> (r: bool)
        ensures
            r == (old(self)@.status_news(ino, status@).0 || !old(self)@.status_news(
                ino,
                status@,
            ).1),
            final(self)@ == old(self)@.with_tree(
                old(self)@.tree.update_status(ino, status@, now),
            ),
    {
        let (is_first_access, is_changed) = self.update_status(ino, status, now);
        is_first_access || !is_changed
    }

    /// The number of an inode's parent.
    pub fn get_parent_ino(&self, ino: u64) -> (r: FuseResult<u64>)
        ensures
            r == (match self@.tree.resolve_check(ino, None) {
                Ok(found) => Ok::<u64, FuseError>(self@.tree.inodes[found].parent),
                Err(e) => Err(e),
            }),
    {
        match self.dir_tree.get_inode_check(ino, None) {
            Ok(inode) => Ok(inode.parent),
            Err(e) => Err(e),
        }
    }

    /// The path of an inode, or of a name in it.
    pub fn get_path_common(&self, parent: u64, name: Option<&str>) -> (r: FuseResult<String>)
        ensures
            path_view(r) == self@.tree.path(parent, dir_tree::opt_name(name)),
    {
        self.dir_tree.get_path_common(parent, name)
    }

    /// The path of a name in a directory.
    pub fn get_path_name(&self, parent: u64, name: &str) -> (r: FuseResult<String>)
        ensures
            path_view(r) == self@.tree.path(parent, Some(name@)),
    {
        self.dir_tree.get_path_name(parent, name)
    }

    /// The path of an inode.
    pub fn get_path(&self, ino: u64) -> (r: FuseResult<String>)
        ensures
            path_view(r) == self@.tree.path(ino, None),
    {
        self.dir_tree.get_path(ino)
    }

    /// The paths of two names.
    pub fn get_path2(&self, ino1: u64, name1: &str, ino2: u64, name2: &str) -> (r: FuseResult<
        (String, String),
    >)
        ensures
            match (self@.tree.path(ino1, Some(name1@)), self@.tree.path(ino2, Some(name2@))) {
                (Err(e), _) => r == Err::<(String, String), FuseError>(e),
                (Ok(_), Err(e)) => r == Err::<(String, String), FuseError>(e),
                (Ok(a), Ok(b)) => r matches Ok(paths) && paths.0@ == a && paths.1@ == b,
            },
    {
        let path1 = match self.dir_tree.get_path_name(ino1, name1) {
            Ok(path) => path,
            Err(e) => {
                return Err(e);
            },
        };
        let path2 = match self.dir_tree.get_path_name(ino2, name2) {
            Ok(path) => path,
            Err(e) => {
                return Err(e);
            },
        };
        Ok((path1, path2))
    }

    /// Gives out a handle number.
    pub fn next_fh(&mut self) -> (r: u64)
        ensures
            r == node_view::next_number(old(self)@.last_fh),
            final(self)@ == (NodeView { last_fh: r, ..old(self)@ }),
    {
        self.fh_creator = if self.fh_creator == u64::MAX {
            0
        } else {
            self.fh_creator + 1
        };
        self.fh_creator
    }

    /// The last handle number given out.
    pub fn current_fh(&self) -> (r: u64)
        ensures
            r == self@.last_fh,
    {
        self.fh_creator
    }

    /// Gives out an inode number for a file with this status.
    pub fn next_ino(&mut self, status: &FileStatus) -> (r: u64)
        ensures
            r == old(self)@.tree.next_id(status@.id),
            final(self)@ == old(self)@.with_tree(old(self)@.tree.with_id(r)),
    {
        self.dir_tree.next_id(status.id)
    }

    /// Looks a name up, with the status that the backing file system reported
    /// for it. Inodes that nothing keeps leave first.
    pub fn lookup(&mut self, parent: u64, name: &str, status: FileStatus, now: u64) -> (r:
        FuseResult<u64>)
        ensures
            ({
                let (tree, answer) = old(self)@.tree.clear(
                    handle_table::open_inodes(old(self)@.handles),
                ).lookup(parent, name@, status@, now);
                &&& r == answer
                &&& final(self)@ == old(self)@.with_tree(tree)
            }),
    {
        proof {
            lemma_open_inodes(self.handles@);
        }
        self.dir_tree.clear(&self.handles);
        self.dir_tree.lookup(parent, name, status, now)
    }

    /// The number of an inode, or of a name in it. A number alone is taken as
    /// it is.
    pub fn get_ino(&self, parent: u64, name: Option<&str>) -> (r: Option<u64>)
        ensures
            r == (match dir_tree::opt_name(name) {
                None => Some(parent),
                Some(n) => self@.tree.child(parent, n),
            }),
    {
        match name {
            None => Some(parent),
            Some(_) => self.dir_tree.resolve(parent, name),
        }
    }

    /// Removes an entry.
    pub fn unlink(&mut self, ino: u64, name: &str) -> (r: FuseResult<()>)
        ensures
            r == old(self)@.tree.unlink(ino, name@).1,
            final(self)@ == old(self)@.with_tree(old(self)@.tree.unlink(ino, name@).0),
    {
        self.dir_tree.unlink(ino, name)
    }

    /// Gives lookups of an inode back.
    pub fn forget(&mut self, ino: u64, n_lookup: u64) -> (r: FuseResult<()>)
        ensures
            r == old(self)@.tree.forget(ino, n_lookup).1,
            final(self)@ == old(self)@.with_tree(old(self)@.tree.forget(ino, n_lookup).0),
    {
        self.dir_tree.forget(ino, n_lookup)
    }

    /// Gives lookups of several inodes back. Those that are not cached are
    /// passed over.
    pub fn batch_forget(&mut self, nodes: &Vec<(u64, u64)>) -> (r: FuseResult<()>)
        ensures
            r is Ok,
            final(self)@ == old(self)@.forget_all(nodes@),
    {
        let ghost start = self@;
        let mut i: usize = 0;
        assert(nodes@.take(0) =~= Seq::empty());
        while i < nodes.len()
            invariant
                i <= nodes@.len(),
                self@ == start.forget_all(nodes@.take(i as int)),
            decreases nodes@.len() - i,
        {
            let (ino, n_lookup) = nodes[i];
            let _ = self.dir_tree.forget(ino, n_lookup);
            assert(nodes@.take(i + 1).drop_last() =~= nodes@.take(i as int));
            i = i + 1;
        }
        assert(nodes@.take(i as int) =~= nodes@);
        Ok(())
    }

    /// Moves an entry to another name.
    pub fn rename(&mut self, old_id: u64, old_name: &str, new_id: u64, new_name: &str) -> (r:
        FuseResult<()>)
        ensures
            r == old(self)@.tree.rename(old_id, old_name@, new_id, new_name@).1,
            final(self)@ == old(self)@.with_tree(
                old(self)@.tree.rename(old_id, old_name@, new_id, new_name@).0,
            ),
    {
        self.dir_tree.rename(old_id, old_name, new_id, new_name)
    }

    /// An open writer on an inode, if it has one.
    pub fn find_writer(&self, ino: u64) -> (r: Option<u64>)
        ensures
            match r {
                Some(w) => node_view::is_writer_of(self@.handles, ino, w),
                None => !node_view::is_written(self@.handles, ino),
            },
    {
        let numbers = self.handles.numbers_on(ino);
        let mut i: usize = 0;
        while i < numbers.len()
            invariant
                i <= numbers@.len(),
                forall|fh: u64|
                    numbers@.contains(fh) <==> #[trigger] self.handles@.contains_key((ino, fh)),
                forall|j: int|
                    0 <= j < i ==> self@.handles[(ino, #[trigger] numbers@[j])].writer() is None,
            decreases numbers@.len() - i,
        {
            let fh = numbers[i];
            assert(numbers@.contains(fh));
            if let Some(handle) = self.handles.get(ino, fh) {
                if let Some(w) = handle.writer() {
                    assert(self@.handles.contains_key((ino, fh)));
                    return Some(w);
                }
            }
            i = i + 1;
        }
        proof {
            assert forall|fh: u64| #[trigger]
                self@.handles.contains_key((ino, fh)) implies self@.handles[(
                ino,
                fh,
            )].writer() is None by {
                assert(self.handles@.contains_key((ino, fh)));
                assert(numbers@.contains(fh));
            }
        }
        None
    }

    /// Whether the kernel may keep an inode's attributes: nothing writes it.
    pub fn keep_attr(&self, ino: u64) -> (r: bool)
        ensures
            r == !node_view::is_written(self@.handles, ino),
    {
        let writer = self.find_writer(ino);
        proof {
            if let Some(w) = writer {
                let fh = choose|fh: u64| #[trigger]
                    self@.handles.contains_key((ino, fh)) && self@.handles[(ino, fh)].writer()
                        == Some(w);
                assert(self@.handles.contains_key((ino, fh)));
            }
        }
        writer.is_none()
    }

    /// Starts to open a file.
    pub fn begin_handle(&self, ino: Option<u64>, flags: u32) -> (r: FuseResult<Opening>)
        ensures
            exists|writer: Option<u64>|
                {
                    &&& #[trigger] flush_target(self@.handles, ino, writer)
                    &&& match r {
                        Ok(opening) => OpeningView::begin(ino, flags, writer) == Ok::<
                            OpeningView,
                            FuseError,
                        >(opening@),
                        Err(e) => OpeningView::begin(ino, flags, writer) == Err::<
                            OpeningView,
                            FuseError,
                        >(e),
                    }
                },
    {
        let writer = match ino {
            Some(i) => self.find_writer(i),
            None => None,
        };
        assert(flush_target(self@.handles, ino, writer));
        Opening::begin(ino, flags, writer)
    }

    /// Puts the handle of a file in place that was opened. A writer that the
    /// inode has already takes the place of a new one. An inode number is
    /// drawn in any case, and used where none was given.
    pub fn new_handle(&mut self, opening: Opening) -> (r: FuseResult<(u64, u64)>)
        requires
            opening@.action is Install,
        ensures
            match (opening@.status(), r) {
                (None, Err(e)) => e == (FuseError::InvalidFlags { flags: opening@.flags.value })
                    && final(self)@ == old(self)@,
                (Some(status), Ok((ino, fh))) => installed(
                    old(self)@,
                    final(self)@,
                    opening@,
                    status,
                    ino,
                    fh,
                ),
                _ => false,
            },
    {
        let ghost before = self@;
        let (reader_id, reader_status) = match opening.reader {
            Some(o) => (Some(o.id), Some(o.status)),
            None => (None, None),
        };
        let (writer_id, writer_status) = match opening.writer {
            Some(o) => (Some(o.id), Some(o.status)),
            None => (None, None),
        };
        let mut status = match writer_status {
            Some(status) => status,
            None => match reader_status {
                Some(status) => status,
                None => {
                    return Err(FuseError::InvalidFlags { flags: opening.flags.value });
                },
            },
        };
        let drawn = self.next_ino(&status);
        let ino = match opening.ino {
            Some(ino) => ino,
            None => drawn,
        };
        status.id = ino as i64;
        let check_writer = match writer_id {
            Some(own) => match self.find_writer(ino) {
                Some(existing) => {
                    proof {
                        let n = choose|n: u64| #[trigger]
                            self@.handles.contains_key((ino, n)) && self@.handles[(
                                ino,
                                n,
                            )].writer() == Some(existing);
                        assert(self@.handles.contains_key((ino, n)));
                    }
                    Some(existing)
                },
                None => Some(own),
            },
            None => None,
        };
        let fh = self.next_fh();
        let handle = FileHandle::new_backend(ino, fh, reader_id, check_writer, status);
        let ghost added = handle@;
        self.handles.insert(ino, fh, handle);
        proof {
            assert(self@.handles =~= before.handles.insert((ino, fh), added));
            assert(self@.handles[(ino, fh)].writer() == check_writer);
        }
        Ok((ino, fh))
    }

    /// The handle with a number on an inode.
    pub fn find_handle(&self, ino: u64, fh: u64) -> (r: FuseResult<&FileHandle>)
        ensures
            match r {
                Ok(handle) => self@.handles.contains_key((ino, fh)) && handle@
                    == self@.handles[(ino, fh)],
                Err(e) => !self@.handles.contains_key((ino, fh)) && e == (
                FuseError::FileHandleNotFound { ino, fh }),
            },
    {
        match self.handles.get(ino, fh) {
            Some(handle) => Ok(handle),
            None => Err(FuseError::FileHandleNotFound { ino, fh }),
        }
    }

    /// Takes a handle out.
    pub fn remove_handle(&mut self, ino: u64, fh: u64) -> (r: Option<FileHandle>)
        ensures
            final(self)@ == (NodeView {
                handles: old(self)@.handles.remove((ino, fh)),
                ..old(self)@
            }),
            match r {
                Some(handle) => old(self)@.handles.contains_key((ino, fh)) && handle@
                    == old(self)@.handles[(ino, fh)],
                None => !old(self)@.handles.contains_key((ino, fh)),
            },
    {
        let ghost before = self@;
        let r = self.handles.remove(ino, fh);
        assert(self@.handles =~= before.handles.remove((ino, fh)));
        r
    }

    /// Records on a handle who holds a lock.
    pub fn add_lock(&mut self, ino: u64, fh: u64, lock_flags: LockFlags, owner_id: u64) -> (r:
        FuseResult<()>)
        requires
            old(self)@.handles.contains_key((ino, fh)) ==> old(self)@.handles[(
                ino,
                fh,
            )] is Backend,
        ensures
            old(self)@.handles.contains_key((ino, fh)) ==> r is Ok && final(self)@ == old(
                self,
            )@.with_lock(ino, fh, lock_flags, Some(owner_id)),
            !old(self)@.handles.contains_key((ino, fh)) ==> r == Err::<(), FuseError>(
                FuseError::FileHandleNotFound { ino, fh },
            ) && final(self)@ == old(self)@,
    {
        let ghost before = self@;
        match self.handles.remove(ino, fh) {
            Some(mut handle) => {
                assert(before.handles.contains_key((ino, fh)));
                handle.add_lock(lock_flags, owner_id);
                self.handles.insert(ino, fh, handle);
                assert(self@.handles =~= before.with_lock(
                    ino,
                    fh,
                    lock_flags,
                    Some(owner_id),
                ).handles);
                Ok(())
            },
            None => {
                assert(self@.handles =~= before.handles);
                Err(FuseError::FileHandleNotFound { ino, fh })
            },
        }
    }

    /// Gives a lock of a handle up and says who held it.
    pub fn remove_lock(&mut self, ino: u64, fh: u64, typ: LockFlags) -> (r: FuseResult<
        Option<u64>,
    >)
        requires
            old(self)@.handles.contains_key((ino, fh)) ==> old(self)@.handles[(
                ino,
                fh,
            )] is Backend,
        ensures
            old(self)@.handles.contains_key((ino, fh)) ==> r == Ok::<Option<u64>, FuseError>(
                old(self)@.handles[(ino, fh)]->Backend_0.lock(typ),
            ) && final(self)@ == old(self)@.with_lock(ino, fh, typ, None),
            !old(self)@.handles.contains_key((ino, fh)) ==> r == Err::<Option<u64>, FuseError>(
                FuseError::FileHandleNotFound { ino, fh },
            ) && final(self)@ == old(self)@,
    {
        let ghost before = self@;
        match self.handles.remove(ino, fh) {
            Some(mut handle) => {
                assert(before.handles.contains_key((ino, fh)));
                let owner = handle.remove_lock(typ);
                self.handles.insert(ino, fh, handle);
                assert(self@.handles =~= before.with_lock(ino, fh, typ, None).handles);
                Ok(owner)
            },
            None => {
                assert(self@.handles =~= before.handles);
                Err(FuseError::FileHandleNotFound { ino, fh })
            },
        }
    }

    /// Keeps a reader on a handle whose pages are cached here. A handle of the
    /// backing file system keeps the one it has.
    pub fn set_reader(&mut self, ino: u64, fh: u64, reader: u64) -> (r: FuseResult<()>)
        ensures
            old(self)@.handles.contains_key((ino, fh)) ==> r is Ok && final(self)@ == old(
                self,
            )@.with_reader(ino, fh, reader),
            !old(self)@.handles.contains_key((ino, fh)) ==> r == Err::<(), FuseError>(
                FuseError::FileHandleNotFound { ino, fh },
            ) && final(self)@ == old(self)@,
    {
        let ghost before = self@;
        match self.handles.remove(ino, fh) {
            Some(mut handle) => {
                assert(before.handles.contains_key((ino, fh)));
                handle.set_reader(reader);
                self.handles.insert(ino, fh, handle);
                assert(self@.handles =~= before.with_reader(ino, fh, reader).handles);
                Ok(())
            },
            None => {
                assert(self@.handles =~= before.handles);
                Err(FuseError::FileHandleNotFound { ino, fh })
            },
        }
    }

    /// Whether an inode has an open file.
    pub fn has_open_handles(&self, ino: u64) -> (r: bool)
        ensures
            r == handle_table::on_inode(self@.handles, ino),
    {
        proof {
            lemma_open_inodes(self.handles@);
        }
        self.handles.has_open(ino)
    }

    /// Says whether a file may be deleted at once. One that is open is marked
    /// instead.
    pub fn should_delete_now(&mut self, parent: u64, name: &str) -> (r: FuseResult<bool>)
        ensures
            (final(self)@, r) == old(self)@.should_delete_now(parent, name@),
    {
        let ino = match self.dir_tree.get_ino_check(parent, Some(name)) {
            Ok(ino) => ino,
            Err(e) => {
                return Err(e);
            },
        };
        if self.has_open_handles(ino) {
            if let Err(e) = self.dir_tree.get_path(ino) {
                return Err(e);
            }
            if let Err(e) = self.dir_tree.mark_delete(ino) {
                return Err(e);
            }
            Ok(false)
        } else {
            Ok(true)
        }
    }

    /// Whether a deletion that was put off is due.
    pub fn deferred_delete_ready(&self, ino: u64) -> (r: bool)
        ensures
            r == (!handle_table::on_inode(self@.handles, ino) && self@.tree.pending_delete(ino)),
    {
        !self.has_open_handles(ino) && self.dir_tree.pending_delete(ino)
    }

    /// The open directory with a number on an inode.
    pub fn find_dir_handle(&self, ino: u64, fh: u64) -> (r: FuseResult<&DirHandle>)
        ensures
            match r {
                Ok(handle) => self@.dir_handles.contains_key((ino, fh)) && handle@
                    == self@.dir_handles[(ino, fh)],
                Err(e) => !self@.dir_handles.contains_key((ino, fh)) && e == (
                FuseError::DirHandleNotFound { ino, fh }),
            },
    {
        match self.dir_handles.get(ino, fh) {
            Some(handle) => Ok(handle),
            None => Err(FuseError::DirHandleNotFound { ino, fh }),
        }
    }

    /// Takes an open directory out.
    pub fn remove_dir_handle(&mut self, ino: u64, fh: u64) -> (r: Option<DirHandle>)
        ensures
            final(self)@ == (NodeView {
                dir_handles: old(self)@.dir_handles.remove((ino, fh)),
                ..old(self)@
            }),
            match r {
                Some(handle) => old(self)@.dir_handles.contains_key((ino, fh)) && handle@
                    == old(self)@.dir_handles[(ino, fh)],
                None => !old(self)@.dir_handles.contains_key((ino, fh)),
            },
    {
        let ghost before = self@;
        let r = self.dir_handles.remove(ino, fh);
        assert(self@.dir_handles =~= before.dir_handles.remove((ino, fh)));
        r
    }

    /// Puts an open directory in place, with the listing that the backing
    /// file system gave. Says its handle number.
    pub fn new_dir_handle(&mut self, ino: u64, path: &str, stream: u64) -> (r: u64)
        ensures
            r == node_view::next_number(old(self)@.last_fh),
            final(self)@ == old(self)@.with_dir_handle(ino, path@, stream),
    {
        let ghost before = self@;
        let fh = self.next_fh();
        let handle = DirHandle::new(ino, fh, path, self.conf.list_limit, stream);
        self.dir_handles.insert(ino, fh, handle);
        assert(self@.dir_handles =~= before.with_dir_handle(ino, path@, stream).dir_handles);
        fh
    }

    /// Every open file, in no particular order.
    pub fn all_handles(&self) -> (r: Vec<&FileHandle>)
        ensures
            exists|order: Seq<(u64, u64)>| #[trigger]
                handle_table::lists(order, self@.handles) && r@.len() == order.len() && forall|
                    i: int,
                |
                    0 <= i < r@.len() ==> (#[trigger] r@[i])@ == self@.handles[order[i]],
    {
        let keys = self.handles.keys();
        let mut r: Vec<&FileHandle> = Vec::new();
        let mut i: usize = 0;
        while i < keys.len()
            invariant
                i <= keys@.len(),
                handle_table::lists(keys@, self.handles@),
                r@.len() == i,
                forall|j: int| 0 <= j < i ==> (#[trigger] r@[j])@ == self@.handles[keys@[j]],
            decreases keys@.len() - i,
        {
            let (ino, fh) = keys[i];
            assert(keys@.to_set().contains(keys@[i as int]));
            if let Some(handle) = self.handles.get(ino, fh) {
                r.push(handle);
            }
            i = i + 1;
        }
        assert(self@.handles.dom() =~= self.handles@.dom());
        assert(handle_table::lists(keys@, self@.handles));
        r
    }

    /// Every open directory, in no particular order.
    pub fn all_dir_handles(&self) -> (r: Vec<&DirHandle>)
        ensures
            exists|order: Seq<(u64, u64)>| #[trigger]
                handle_table::lists(order, self@.dir_handles) && r@.len() == order.len()
                    && forall|i: int|
                    0 <= i < r@.len() ==> (#[trigger] r@[i])@ == self@.dir_handles[order[i]],
    {
        let keys = self.dir_handles.keys();
        let mut r: Vec<&DirHandle> = Vec::new();
        let mut i: usize = 0;
        while i < keys.len()
            invariant
                i <= keys@.len(),
                handle_table::lists(keys@, self.dir_handles@),
                r@.len() == i,
                forall|j: int| 0 <= j < i ==> (#[trigger] r@[j])@ == self@.dir_handles[keys@[j]],
            decreases keys@.len() - i,
        {
            let (ino, fh) = keys[i];
            assert(keys@.to_set().contains(keys@[i as int]));
            if let Some(handle) = self.dir_handles.get(ino, fh) {
                r.push(handle);
            }
            i = i + 1;
        }
        assert(self@.dir_handles.dom() =~= self.dir_handles@.dom());
        assert(handle_table::lists(keys@, self@.dir_handles));
        r
    }

    /// What is kept of the open files, in some order.
    fn saved_handles(&self) -> (r: Vec<SavedHandle>)
        requires
            self@.storable(),
        ensures
            exists|order: Seq<(u64, u64)>| #[trigger]
                handle_table::lists(order, self@.handles) && record::models(r@)
                    == node_view::saved_handles(self@.handles, order),
    {
        let handles = self.all_handles();
        let ghost order = choose|order: Seq<(u64, u64)>| #[trigger]
            handle_table::lists(order, self@.handles) && handles@.len() == order.len() && forall|
                i: int,
            |
                0 <= i < handles@.len() ==> (#[trigger] handles@[i])@ == self@.handles[order[i]];
        let mut r: Vec<SavedHandle> = Vec::new();
        let mut i: usize = 0;
        while i < handles.len()
            invariant
                i <= handles@.len(),
                self@.storable(),
                handle_table::lists(order, self@.handles),
                handles@.len() == order.len(),
                forall|j: int|
                    0 <= j < handles@.len() ==> (#[trigger] handles@[j])@
                        == self@.handles[order[j]],
                r@.len() == i,
                forall|j: int|
                    0 <= j < i ==> (#[trigger] r@[j])@ == SavedHandleView::of(
                        self@.handles[order[j]]->Backend_0,
                    ),
            decreases handles@.len() - i,
        {
            assert(order.to_set().contains(order[i as int]));
            assert(self@.handles.contains_key(order[i as int]));
            r.push(handles[i].persist());
            i = i + 1;
        }
        assert(record::models(r@) =~= node_view::saved_handles(self@.handles, order));
        r
    }

    /// What is kept of the open directories, in some order.
    fn saved_dir_handles(&self) -> (r: Vec<SavedDirHandle>)
        ensures
            exists|order: Seq<(u64, u64)>| #[trigger]
                handle_table::lists(order, self@.dir_handles) && record::models(r@)
                    == node_view::saved_dirs(self@.dir_handles, order),
    {
        let handles = self.all_dir_handles();
        let ghost order = choose|order: Seq<(u64, u64)>| #[trigger]
            handle_table::lists(order, self@.dir_handles) && handles@.len() == order.len()
                && forall|i: int|
                0 <= i < handles@.len() ==> (#[trigger] handles@[i])@
                    == self@.dir_handles[order[i]];
        let mut r: Vec<SavedDirHandle> = Vec::new();
        let mut i: usize = 0;
        while i < handles.len()
            invariant
                i <= handles@.len(),
                handles@.len() == order.len(),
                forall|j: int|
                    0 <= j < handles@.len() ==> (#[trigger] handles@[j])@
                        == self@.dir_handles[order[j]],
                r@.len() == i,
                forall|j: int|
                    0 <= j < i ==> (#[trigger] r@[j])@ == SavedDirHandleView::of(
                        self@.dir_handles[order[j]],
                    ),
            decreases handles@.len() - i,
        {
            r.push(SavedDirHandle::of(handles[i]));
            i = i + 1;
        }
        assert(record::models(r@) =~= node_view::saved_dirs(self@.dir_handles, order));
        r
    }

    /// Writes a state file, and nothing behind it.
    pub fn persist(&self, writer: &mut StateWriter)
        requires
            self@.storable(),
        ensures
            old(writer)@.is_prefix_of(final(writer)@),
            exists|order: Seq<(u64, u64)>, dir_order: Seq<(u64, u64)>| #[trigger]
                self@.saved_as(
                    state_file::image_of(final(writer)@.skip(old(writer)@.len() as int)),
                    order,
                    dir_order,
                ),
            state_file::behind_state(final(writer)@.skip(old(writer)@.len() as int)) == Seq::<
                u8,
            >::empty(),
    {
        let handles = self.saved_handles();
        let dir_handles = self.saved_dir_handles();
        write_state(writer, &self.dir_tree, &handles, &dir_handles, self.fh_creator);
        proof {
            let order = choose|order: Seq<(u64, u64)>| #[trigger]
                handle_table::lists(order, self@.handles) && record::models(handles@)
                    == node_view::saved_handles(self@.handles, order);
            let dir_order = choose|order: Seq<(u64, u64)>| #[trigger]
                handle_table::lists(order, self@.dir_handles) && record::models(dir_handles@)
                    == node_view::saved_dirs(self@.dir_handles, order);
            assert(self@.saved_as(
                state_file::image_of(writer@.skip(old(writer)@.len() as int)),
                order,
                dir_order,
            ));
        }
    }

    /// Puts saved files back that were opened again.
    fn restore_handles(&mut self, saved: Vec<Option<SavedHandle>>, reopened: &Vec<Option<Reopened>>)
        ensures
            final(self)@ == (NodeView {
                handles: node_view::with_saved(
                    old(self)@.handles,
                    state_file::opt_models(saved@),
                    reopened@,
                    saved@.len(),
                ),
                ..old(self)@
            }),
    {
        let ghost start = self@;
        let ghost views = state_file::opt_models(saved@);
        let mut i: usize = 0;
        for entry in it: saved
            invariant
                views == state_file::opt_models(it.seq()),
                i == it.index(),
                self@ == (NodeView {
                    handles: node_view::with_saved(
                        start.handles,
                        views,
                        reopened@,
                        i as nat,
                    ),
                    ..start
                }),
        {
            let ghost before = self@;
            if let Some(h) = entry {
                if i < reopened.len() {
                    if let Some(again) = &reopened[i] {
                        let (ino, fh) = (h.ino, h.fh);
                        let handle = FileHandle::restore(h, again.reader, again.writer);
                        self.handles.insert(ino, fh, handle);
                        assert(self@.handles =~= before.handles.insert((ino, fh), handle@));
                    }
                }
            }
            assert(self@.handles =~= node_view::with_saved(
                start.handles,
                views,
                reopened@,
                (i + 1) as nat,
            ));
            assert(i < usize::MAX) by {
                assert(i < saved.len());
            }
            i = i + 1;
        }
    }

    /// Puts saved directories back that were listed again. The first one that
    /// could not be listed ends it.
    fn restore_dir_handles(
        &mut self,
        saved: Vec<SavedDirHandle>,
        listings: &Vec<FuseResult<u64>>,
    ) -> (r: FuseResult<()>)
        ensures
            ({
                let (dirs, error) = node_view::with_saved_dirs(
                    old(self)@.dir_handles,
                    record::models(saved@),
                    listings@,
                    saved@.len(),
                );
                &&& final(self)@ == (NodeView { dir_handles: dirs, ..old(self)@ })
                &&& r == inode::ok_unless(error)
            }),
    {
        let ghost start = self@;
        let ghost views = record::models(saved@);
        let ghost total = saved@.len();
        let mut i: usize = 0;
        for h in it: saved
            invariant
                views == record::models(it.seq()),
                total == it.seq().len(),
                i == it.index(),
                start == old(self)@,
                views == record::models(saved@),
                total == saved@.len(),
                self@.tree == start.tree,
                self@.handles == start.handles,
                self@.last_fh == start.last_fh,
                self@.conf == start.conf,
                node_view::with_saved_dirs(start.dir_handles, views, listings@, i as nat) == (
                    self@.dir_handles,
                    None::<FuseError>,
                ),
        {
            let ghost before = self@;
            assert(views[i as int] == h@);
            let listing = if i < listings.len() {
                listings[i]
            } else {
                Err(FuseError::CorruptState)
            };
            match listing {
                Err(e) => {
                    proof {
                        lemma_dirs_stop(
                            start.dir_handles,
                            views,
                            listings@,
                            (i + 1) as nat,
                            total,
                        );
                    }
                    return Err(e);
                },
                Ok(stream) => {
                    let (ino, fh) = (h.ino, h.fh);
                    let handle = h.reopened(stream);
                    self.dir_handles.insert(ino, fh, handle);
                    assert(self@.dir_handles =~= before.dir_handles.insert((ino, fh), handle@));
                },
            }
            assert(i < usize::MAX) by {
                assert(i < saved.len());
            }
            i = i + 1;
        }
        Ok(())
    }

    /// Takes over what was read of a state file. Files that were opened again
    /// and directories that were listed again are given in the order of the
    /// image. What comes before an error stays.
    pub fn restore(
        &mut self,
        image: StateImage,
        reopened: &Vec<Option<Reopened>>,
        listings: &Vec<FuseResult<u64>>,
    ) -> (r: FuseResult<()>)
        ensures
            (final(self)@, r) == old(self)@.restored(image@, reopened@, listings@),
    {
        if let Some(tree) = image.tree {
            self.dir_tree = tree;
        }
        self.restore_handles(image.handles, reopened);
        if let Err(e) = self.restore_dir_handles(image.dir_handles, listings) {
            return Err(e);
        }
        match image.end {
            Ok(last_fh) => {
                self.fh_creator = last_fh;
                Ok(())
            },
            Err(e) => Err(e),
        }
    }

    /// A listing of a directory: itself and its parent, then what the backing
    /// file system lists, with the errors that come up among it.
    pub fn list_stream(inner: Vec<FuseResult<FileStatus>>) -> (r: Vec<FuseResult<FileStatus>>)
        ensures
            listed(r@) == with_dots(listed(inner@)),
    {
        let ghost given = inner@;
        let mut inner = inner;
        let mut r: Vec<FuseResult<FileStatus>> = Vec::new();
        r.push(Ok(FileStatus::with_name(0, FUSE_CURRENT_DIR.to_owned(), true)));
        r.push(Ok(FileStatus::with_name(0, FUSE_PARENT_DIR.to_owned(), true)));
        r.append(&mut inner);
        assert(listed(r@) =~= with_dots(listed(given)));
        r
    }
}

/// After an error nothing more is put back.
proof fn lemma_dirs_stop(
    dirs: DirHandles,
    saved: Seq<SavedDirHandleView>,
    listings: Seq<FuseResult<u64>>,
    i: nat,
    n: nat,
)
    requires
        i <= n,
        node_view::with_saved_dirs(dirs, saved, listings, i).1 is Some,
    ensures
        node_view::with_saved_dirs(dirs, saved, listings, n) == node_view::with_saved_dirs(
            dirs,
            saved,
            listings,
            i,
        ),
    decreases n - i,
{
    if i < n {
        lemma_dirs_stop(dirs, saved, listings, i + 1, n);
    }
}

/// The entry that stands for the directory itself.
pub const FUSE_CURRENT_DIR: &'static str = ".";

/// The entry that stands for the parent.
pub const FUSE_PARENT_DIR: &'static str = "..";

/// The writer that is flushed before a file on an inode is read: one that the
/// inode has.
pub open spec fn flush_target(handles: FileHandles, ino: Option<u64>, writer: Option<u64>) -> bool {
    match ino {
        None => writer is None,
        Some(i) => match writer {
            Some(w) => node_view::is_writer_of(handles, i, w),
            None => !node_view::is_written(handles, i),
        },
    }
}

/// The state after a file was opened.
pub open spec fn installed(
    before: NodeView,
    after: NodeView,
    opening: OpeningView,
    status: StatusView,
    ino: u64,
    fh: u64,
) -> bool {
    let drawn = before.tree.next_id(status.id);
    let chosen = after.handles[(ino, fh)].writer();
    &&& ino == status::given_or(opening.ino, drawn)
    &&& fh == node_view::next_number(before.last_fh)
    &&& node_view::writer_choice(before.handles, ino, opening.writer_id(), chosen)
    &&& after == NodeView {
        tree: before.tree.with_id(drawn),
        handles: before.handles.insert(
            (ino, fh),
            FileHandleView::Backend(
                BackendView::fresh(
                    ino,
                    fh,
                    opening.reader_id(),
                    chosen,
                    StatusView { id: ino as i64, ..status },
                ),
            ),
        ),
        last_fh: fh,
        ..before
    }
}

/// What is listed, as mathematical values.
pub open spec fn listed(items: Seq<FuseResult<FileStatus>>) -> Seq<FuseResult<StatusView>> {
    items.map_values(
        |item: FuseResult<FileStatus>|
            match item {
                Ok(status) => Ok::<StatusView, FuseError>(status@),
                Err(e) => Err(e),
            },
    )
}

/// The entries that every listing starts with, then the others.
pub open spec fn with_dots(inner: Seq<FuseResult<StatusView>>) -> Seq<FuseResult<StatusView>> {
    seq![
        Ok::<StatusView, FuseError>(dot_view(FUSE_CURRENT_DIR@)),
        Ok(dot_view(FUSE_PARENT_DIR@)),
    ] + inner
}

/// The entry that stands for the directory itself or its parent.
pub open spec fn dot_view(name: Seq<char>) -> StatusView {
    StatusView { id: 0, name, is_dir: true, ..StatusView::blank() }
}

} // verus!
