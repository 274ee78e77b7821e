//! What the daemon's state is and what each request does to it, as
//! mathematics.
use vstd::prelude::*;

use crate::dcache::tree_view::TreeView;
use crate::error::{FuseError, FuseResult};
use crate::persist::handle::{SavedDirHandleView, SavedHandleView};
use crate::persist::state_file;
use crate::persist::state_file::ImageView;
use crate::state::dir_handle::DirHandleView;
use crate::state::file_handle::FileHandleView;
use crate::state::handle_table;
use crate::status::{LockFlags, StatusView};

verus! {

/// Settings of the daemon.
#[derive(Clone, Copy, Debug, PartialEq, Eq, Structural)]
pub struct FuseConf {
    /// Whether cached statuses are used at all.
    pub enable_meta_cache: bool,
    /// For how many milliseconds a cached status may be used.
    pub meta_cache_ttl: u64,
    /// How many entries a listing asks for at a time.
    pub list_limit: u64,
}

/// The reader and the writer of a handle after they were opened again.
#[derive(Clone, Copy, Debug, PartialEq, Eq)]
pub struct Reopened {
    pub reader: Option<u64>,
    pub writer: Option<u64>,
}

/// Open files by inode number and handle number.
pub type FileHandles = Map<(u64, u64), FileHandleView>;

/// Open directories by inode number and handle number.
pub type DirHandles = Map<(u64, u64), DirHandleView>;

/// The state of the daemon.
#[verifier::ext_equal]
pub struct NodeView {
    pub tree: TreeView,
    pub handles: FileHandles,
    pub dir_handles: DirHandles,
    pub last_fh: u64,
    pub conf: FuseConf,
}

/// Some handle on the inode has this writer.
pub open spec fn is_writer_of(handles: FileHandles, ino: u64, writer: u64) -> bool {
    exists|fh: u64| #[trigger]
        handles.contains_key((ino, fh)) && handles[(ino, fh)].writer() == Some(writer)
}

/// Some handle on the inode has a writer.
pub open spec fn is_written(handles: FileHandles, ino: u64) -> bool {
    exists|fh: u64| #[trigger]
        handles.contains_key((ino, fh)) && handles[(ino, fh)].writer() is Some
}

/// The writer that a new handle gets: one that the inode has already, else
/// its own.
pub open spec fn writer_choice(
    handles: FileHandles,
    ino: u64,
    own: Option<u64>,
    chosen: Option<u64>,
) -> bool {
    match own {
        None => chosen is None,
        Some(_) => if is_written(handles, ino) {
            chosen matches Some(w) && is_writer_of(handles, ino, w)
        } else {
            chosen == own
        },
    }
}

/// All handles on an inode that have a writer have the same one.
pub open spec fn one_writer(handles: FileHandles) -> bool {
    forall|ino: u64, a: u64, b: u64|
        #![trigger handles.contains_key((ino, a)), handles.contains_key((ino, b))]
        handles.contains_key((ino, a)) && handles.contains_key((ino, b))
            && handles[(ino, a)].writer() is Some && handles[(ino, b)].writer() is Some
            ==> handles[(ino, a)].writer() == handles[(ino, b)].writer()
}

/// The number after a handle number.
pub open spec fn next_number(n: u64) -> u64 {
    if n == u64::MAX {
        0
    } else {
        (n + 1) as u64
    }
}

/// Open files after the first `n` saved ones were put back. One that could not
/// be read, or not opened again, is left out.
pub open spec fn with_saved(
    handles: FileHandles,
    saved: Seq<Option<SavedHandleView>>,
    reopened: Seq<Option<Reopened>>,
    n: nat,
) -> FileHandles
    decreases n,
{
    if n == 0 {
        handles
    } else {
        let before = with_saved(handles, saved, reopened, (n - 1) as nat);
        let i = n - 1;
        match saved[i] {
            None => before,
            Some(h) => if i < reopened.len() && reopened[i] is Some {
                before.insert(
                    (h.ino, h.fh),
                    FileHandleView::Backend(
                        h.reopened(reopened[i]->Some_0.reader, reopened[i]->Some_0.writer),
                    ),
                )
            } else {
                before
            },
        }
    }
}

/// The listing of the directory at a place, or why there is none.
pub open spec fn listing_at(listings: Seq<FuseResult<u64>>, i: int) -> FuseResult<u64> {
    if i < listings.len() {
        listings[i]
    } else {
        Err(FuseError::CorruptState)
    }
}

/// Open directories after the first `n` saved ones were put back. The first
/// one that could not be listed ends it.
pub open spec fn with_saved_dirs(
    dirs: DirHandles,
    saved: Seq<SavedDirHandleView>,
    listings: Seq<FuseResult<u64>>,
    n: nat,
) -> (DirHandles, Option<FuseError>)
    decreases n,
{
    if n == 0 {
        (dirs, None)
    } else {
        let (before, error) = with_saved_dirs(dirs, saved, listings, (n - 1) as nat);
        let i = n - 1;
        if error is Some {
            (before, error)
        } else {
            match listing_at(listings, i) {
                Err(e) => (before, Some(e)),
                Ok(stream) => (
                    before.insert((saved[i].ino, saved[i].fh), saved[i].reopened(stream)),
                    None,
                ),
            }
        }
    }
}

/// What was kept of the open files, in some order of theirs.
pub open spec fn saved_handles(handles: FileHandles, order: Seq<(u64, u64)>) -> Seq<
    SavedHandleView,
> {
    Seq::new(order.len(), |i: int| SavedHandleView::of(handles[order[i]]->Backend_0))
}

/// What was kept of the open directories, in some order of theirs.
pub open spec fn saved_dirs(dirs: DirHandles, order: Seq<(u64, u64)>) -> Seq<SavedDirHandleView> {
    Seq::new(order.len(), |i: int| SavedDirHandleView::of(dirs[order[i]]))
}

impl NodeView {
    /// The state that a daemon starts with.
    pub open spec fn initial(conf: FuseConf, now: u64) -> NodeView {
        NodeView {
            tree: TreeView::initial(now),
            handles: Map::empty(),
            dir_handles: Map::empty(),
            last_fh: 0,
            conf,
        }
    }

    /// Every open file is one of the backing file system, so it can be kept
    /// in a state file.
    pub open spec fn storable(self) -> bool {
        forall|k: (u64, u64)| #[trigger]
            self.handles.contains_key(k) ==> self.handles[k] is Backend
    }

    /// Handles are found under their own numbers.
    pub open spec fn keyed(self) -> bool {
        &&& forall|k: (u64, u64)| #[trigger]
            self.handles.contains_key(k) ==> self.handles[k].ino() == k.0 && self.handles[k].fh()
                == k.1
        &&& forall|k: (u64, u64)| #[trigger]
            self.dir_handles.contains_key(k) ==> self.dir_handles[k].ino == k.0
                && self.dir_handles[k].fh == k.1
    }

    /// No handle has a higher number than the last one given out.
    pub open spec fn numbered(self) -> bool {
        &&& forall|k: (u64, u64)| #[trigger] self.handles.contains_key(k) ==> k.1 <= self.last_fh
        &&& forall|k: (u64, u64)| #[trigger]
            self.dir_handles.contains_key(k) ==> k.1 <= self.last_fh
    }

    /// The tree alone changed.
    pub open spec fn with_tree(self, tree: TreeView) -> NodeView {
        NodeView { tree, ..self }
    }

    /// The inode that a cached status may be taken from at the time `now`.
    pub open spec fn cached_status(self, ino: u64, name: Option<Seq<char>>, now: u64) -> Option<
        StatusView,
    > {
        if !self.conf.enable_meta_cache {
            None
        } else {
            match self.tree.resolve(ino, name) {
                None => None,
                Some(found) => if self.tree.inodes[found].cache_valid(
                    self.conf.meta_cache_ttl,
                    now,
                ) {
                    Some(self.tree.inodes[found].status)
                } else {
                    None
                },
            }
        }
    }

    /// What a reported status says of an inode: whether it is the first since
    /// the cached one was given up, and whether time of change or length
    /// differ.
    pub open spec fn status_news(self, ino: u64, status: StatusView) -> (bool, bool) {
        if self.tree.inodes.contains_key(ino) {
            let inode = self.tree.inodes[ino];
            (
                inode.lifecycle is Invalid,
                inode.status.mtime != status.mtime || inode.status.len != status.len,
            )
        } else {
            (false, false)
        }
    }

    /// Several inodes are forgotten. Those that are not cached are passed
    /// over.
    pub open spec fn forget_all(self, nodes: Seq<(u64, u64)>) -> NodeView
        decreases nodes.len(),
    {
        if nodes.len() == 0 {
            self
        } else {
            let before = self.forget_all(nodes.drop_last());
            before.with_tree(before.tree.forget(nodes.last().0, nodes.last().1).0)
        }
    }

    /// Whether a file is deleted at once. One that is open is marked instead.
    pub open spec fn should_delete_now(self, parent: u64, name: Seq<char>) -> (
        NodeView,
        FuseResult<bool>,
    ) {
        match self.tree.resolve_check(parent, Some(name)) {
            Err(e) => (self, Err(e)),
            Ok(ino) => if handle_table::on_inode(self.handles, ino) {
                match self.tree.path(ino, None) {
                    Err(e) => (self, Err(e)),
                    Ok(_) => (self.with_tree(self.tree.mark_delete(ino).0), Ok(false)),
                }
            } else {
                (self, Ok(true))
            },
        }
    }

    /// A lock of an open file has another holder.
    pub open spec fn with_lock(
        self,
        ino: u64,
        fh: u64,
        typ: LockFlags,
        owner: Option<u64>,
    ) -> NodeView {
        NodeView {
            handles: self.handles.insert(
                (ino, fh),
                FileHandleView::Backend(
                    self.handles[(ino, fh)]->Backend_0.with_lock(typ, owner),
                ),
            ),
            ..self
        }
    }

    /// A reader was opened for a file that is cached here.
    pub open spec fn with_reader(self, ino: u64, fh: u64, reader: u64) -> NodeView {
        NodeView {
            handles: self.handles.insert(
                (ino, fh),
                self.handles[(ino, fh)].with_reader(reader),
            ),
            ..self
        }
    }

    /// A directory was opened.
    pub open spec fn with_dir_handle(self, ino: u64, path: Seq<char>, stream: u64) -> NodeView {
        let fh = next_number(self.last_fh);
        NodeView {
            dir_handles: self.dir_handles.insert(
                (ino, fh),
                DirHandleView { ino, fh, path, limit: self.conf.list_limit, stream },
            ),
            last_fh: fh,
            ..self
        }
    }

    /// A state file holds this state, with the open files and directories in
    /// these orders.
    pub open spec fn saved_as(
        self,
        image: ImageView,
        order: Seq<(u64, u64)>,
        dir_order: Seq<(u64, u64)>,
    ) -> bool {
        &&& handle_table::lists(order, self.handles)
        &&& handle_table::lists(dir_order, self.dir_handles)
        &&& image == state_file::full_image(
            self.tree,
            saved_handles(self.handles, order),
            saved_dirs(self.dir_handles, dir_order),
            self.last_fh,
        )
    }

    /// A state file was read back, its files were opened again and its
    /// directories listed again. What comes before an error stays.
    pub open spec fn restored(
        self,
        image: ImageView,
        reopened: Seq<Option<Reopened>>,
        listings: Seq<FuseResult<u64>>,
    ) -> (NodeView, FuseResult<()>) {
        let with_files = NodeView {
            tree: match image.tree {
                Some(tree) => tree,
                None => self.tree,
            },
            handles: with_saved(self.handles, image.handles, reopened, image.handles.len()),
            ..self
        };
        let (dirs, error) = with_saved_dirs(
            self.dir_handles,
            image.dir_handles,
            listings,
            image.dir_handles.len(),
        );
        let with_dirs = NodeView { dir_handles: dirs, ..with_files };
        match error {
            Some(e) => (with_dirs, Err(e)),
            None => match image.end {
                Err(e) => (with_dirs, Err(e)),
                Ok(last_fh) => (NodeView { last_fh, ..with_dirs }, Ok(())),
            },
        }
    }
}

} // verus!
