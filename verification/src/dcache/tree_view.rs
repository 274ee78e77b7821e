//! What the directory tree is and what each operation does to it, as
//! mathematics.
use vstd::prelude::*;

use crate::dcache::inode::{InodeView, FUSE_PATH_SEPARATOR, FUSE_ROOT_ID};
use crate::error::{FuseError, FuseResult};
use crate::status::StatusView;

verus! {

/// The cached directory tree: its inodes by number and the highest number
/// that was given out.
#[verifier::ext_equal]
pub struct TreeView {
    pub inodes: Map<u64, InodeView>,
    pub last_id: u64,
}

/// The path that a list of names spells, from the root down.
pub open spec fn path_text(names: Seq<Seq<char>>) -> Seq<char> {
    if names.len() == 0 {
        FUSE_PATH_SEPARATOR@
    } else {
        joined(names)
    }
}

/// Every name with the separator before it.
pub open spec fn joined(names: Seq<Seq<char>>) -> Seq<char>
    decreases names.len(),
{
    if names.len() == 0 {
        Seq::empty()
    } else {
        joined(names.drop_last()) + FUSE_PATH_SEPARATOR@ + names.last()
    }
}

impl TreeView {
    /// A tree of the root alone.
    pub open spec fn initial(now: u64) -> TreeView {
        TreeView {
            inodes: Map::empty().insert(FUSE_ROOT_ID, InodeView::root(now)),
            last_id: FUSE_ROOT_ID,
        }
    }

    /// The tree with one inode put in place.
    pub open spec fn put(self, inode: InodeView, ino: u64) -> TreeView {
        TreeView { inodes: self.inodes.insert(ino, inode), ..self }
    }

    /// The entries of a directory, or what keeps them from being read.
    pub open spec fn children(self, ino: u64) -> FuseResult<Map<Seq<char>, u64>> {
        if !self.inodes.contains_key(ino) {
            Err(FuseError::InodeNotFound { ino })
        } else {
            match self.inodes[ino].dir {
                Some(children) => Ok(children),
                None => Err(FuseError::NotDirectory { ino }),
            }
        }
    }

    /// The number that a directory has under a name, where an inode is
    /// cached for it.
    pub open spec fn child(self, parent: u64, name: Seq<char>) -> Option<u64> {
        match self.children(parent) {
            Ok(children) => if children.contains_key(name) && self.inodes.contains_key(
                children[name],
            ) {
                Some(children[name])
            } else {
                None
            },
            Err(_) => None,
        }
    }

    /// The cached inode that an inode number, or a name in it, leads to.
    pub open spec fn resolve(self, ino: u64, name: Option<Seq<char>>) -> Option<u64> {
        match name {
            None => if self.inodes.contains_key(ino) {
                Some(ino)
            } else {
                None
            },
            Some(n) => self.child(ino, n),
        }
    }

    /// The same, with the error that a miss is answered with.
    pub open spec fn resolve_check(self, ino: u64, name: Option<Seq<char>>) -> FuseResult<u64> {
        match self.resolve(ino, name) {
            Some(found) => Ok(found),
            None => if name is None {
                Err(FuseError::InodeNotFound { ino })
            } else {
                Err(FuseError::NameNotFound { parent: ino })
            },
        }
    }

    /// The number for an inode whose status has this id: the id itself where
    /// it is positive and free, else the one after the highest given out.
    pub open spec fn next_id(self, id: i64) -> u64 {
        if id > 0 && !self.inodes.contains_key(id as u64) {
            id as u64
        } else if self.last_id == u64::MAX {
            0
        } else {
            (self.last_id + 1) as u64
        }
    }

    /// The tree after a number was given out.
    pub open spec fn with_id(self, id: u64) -> TreeView {
        TreeView {
            last_id: if id > self.last_id {
                id
            } else {
                self.last_id
            },
            ..self
        }
    }

    /// The names from the root down to an inode, going up at most `steps`
    /// parents.
    pub open spec fn names_within(self, ino: u64, steps: nat) -> FuseResult<Seq<Seq<char>>>
        decreases steps,
    {
        if ino == FUSE_ROOT_ID {
            Ok(Seq::empty())
        } else if !self.inodes.contains_key(ino) {
            Err(FuseError::InodeNotFound { ino })
        } else if steps == 0 {
            Err(FuseError::BrokenPath { ino })
        } else {
            match self.names_within(self.inodes[ino].parent, (steps - 1) as nat) {
                Ok(names) => Ok(names.push(self.inodes[ino].name)),
                Err(e) => Err(e),
            }
        }
    }

    /// The names from the root down to an inode. A chain of parents that
    /// passes more inodes than there are goes in a circle.
    pub open spec fn names(self, ino: u64) -> FuseResult<Seq<Seq<char>>> {
        self.names_within(ino, self.inodes.len())
    }

    /// The path of an inode, or of a name in it.
    pub open spec fn path(self, ino: u64, name: Option<Seq<char>>) -> FuseResult<Seq<char>> {
        match self.names(ino) {
            Ok(names) => match name {
                Some(n) => Ok(path_text(names.push(n))),
                None => Ok(path_text(names)),
            },
            Err(e) => Err(e),
        }
    }

    /// A name was looked up and the backing file system reported `status`.
    pub open spec fn lookup(
        self,
        parent: u64,
        name: Seq<char>,
        status: StatusView,
        now: u64,
    ) -> (TreeView, FuseResult<u64>) {
        match self.children(parent) {
            Err(e) => (self, Err(e)),
            Ok(children) => match self.child(parent, name) {
                Some(ino) => (
                    self.put(self.inodes[ino].updated(status, now).looked_up(1, now), ino),
                    Ok(ino),
                ),
                None => {
                    let ino = self.next_id(status.id);
                    (
                        self.with_id(ino).put(
                            InodeView {
                                dir: Some(children.insert(name, ino)),
                                ..self.inodes[parent]
                            },
                            parent,
                        ).put(InodeView::fresh(ino, parent, name, status, now), ino),
                        Ok(ino),
                    )
                },
            },
        }
    }

    /// The number of the entry that is to leave a directory, or why there is
    /// none.
    pub open spec fn entry_check(self, parent: u64, name: Seq<char>) -> FuseResult<u64> {
        match self.children(parent) {
            Err(e) => Err(e),
            Ok(children) => match self.child(parent, name) {
                None => Err(FuseError::NameNotFound { parent }),
                Some(ino) => Ok(ino),
            },
        }
    }

    /// A directory without one of its entries.
    pub open spec fn without_entry(self, parent: u64, name: Seq<char>) -> TreeView {
        match self.children(parent) {
            Err(_) => self,
            Ok(children) => self.put(
                InodeView { dir: Some(children.remove(name)), ..self.inodes[parent] },
                parent,
            ),
        }
    }

    /// A directory with one entry more.
    pub open spec fn with_entry(self, parent: u64, name: Seq<char>, ino: u64) -> TreeView {
        match self.children(parent) {
            Err(_) => self,
            Ok(children) => self.put(
                InodeView { dir: Some(children.insert(name, ino)), ..self.inodes[parent] },
                parent,
            ),
        }
    }

    /// An inode that lost its entry.
    pub open spec fn dropped(self, ino: u64) -> TreeView {
        self.put(self.inodes[ino].unlinked(), ino)
    }

    /// An entry is removed. A directory has to be empty.
    pub open spec fn unlink(self, parent: u64, name: Seq<char>) -> (TreeView, FuseResult<()>) {
        match self.entry_check(parent, name) {
            Err(e) => (self, Err(e)),
            Ok(ino) => match self.inodes[ino].dir_empty_error() {
                Some(e) => (self, Err(e)),
                None => (self.without_entry(parent, name).dropped(ino), Ok(())),
            },
        }
    }

    /// Lookups are given back.
    pub open spec fn forget(self, ino: u64, n_lookup: u64) -> (TreeView, FuseResult<()>) {
        if self.inodes.contains_key(ino) {
            (self.put(self.inodes[ino].forgotten(n_lookup), ino), Ok(()))
        } else {
            (self, Err(FuseError::InodeNotFound { ino }))
        }
    }

    /// An inode is to be deleted once it is closed.
    pub open spec fn mark_delete(self, ino: u64) -> (TreeView, FuseResult<()>) {
        if self.inodes.contains_key(ino) {
            (self.put(InodeView { mark_delete: true, ..self.inodes[ino] }, ino), Ok(()))
        } else {
            (self, Err(FuseError::InodeNotFound { ino }))
        }
    }

    /// Whether an inode waits to be deleted.
    pub open spec fn pending_delete(self, ino: u64) -> bool {
        self.inodes.contains_key(ino) && self.inodes[ino].mark_delete
    }

    /// An inode under a new name.
    pub open spec fn moved(self, ino: u64, parent: u64, name: Seq<char>) -> TreeView {
        self.put(InodeView { parent, name, ..self.inodes[ino] }, ino)
    }

    /// An entry moves to another name. What has that name leaves, and if it
    /// is a directory it has to be empty.
    pub open spec fn rename(
        self,
        old_parent: u64,
        old_name: Seq<char>,
        new_parent: u64,
        new_name: Seq<char>,
    ) -> (TreeView, FuseResult<()>) {
        match self.entry_check(old_parent, old_name) {
            Err(e) => (self, Err(e)),
            Ok(ino) => match self.children(new_parent) {
                Err(e) => (self, Err(e)),
                Ok(_) => match self.child(new_parent, new_name) {
                    None => (
                        self.relinked(ino, old_parent, old_name, new_parent, new_name),
                        Ok(()),
                    ),
                    Some(target) => if target == ino {
                        (self.relinked(ino, old_parent, old_name, new_parent, new_name), Ok(()))
                    } else {
                        match self.inodes[target].dir_empty_error() {
                            Some(e) => (self, Err(e)),
                            None => (
                                self.without_entry(new_parent, new_name).dropped(target).relinked(
                                    ino,
                                    old_parent,
                                    old_name,
                                    new_parent,
                                    new_name,
                                ),
                                Ok(()),
                            ),
                        }
                    },
                },
            },
        }
    }

    /// An inode's entry moves to a name that is free, or its own.
    pub open spec fn relinked(
        self,
        ino: u64,
        old_parent: u64,
        old_name: Seq<char>,
        new_parent: u64,
        new_name: Seq<char>,
    ) -> TreeView {
        self.without_entry(old_parent, old_name).with_entry(new_parent, new_name, ino).moved(
            ino,
            new_parent,
            new_name,
        )
    }

    /// The cached status of what an inode number, or a name in it, leads to
    /// is given up.
    pub open spec fn invalid_cache(self, ino: u64, name: Option<Seq<char>>) -> TreeView {
        match self.resolve(ino, name) {
            Some(found) => self.put(self.inodes[found].invalidated(), found),
            None => self,
        }
    }

    /// The backing file system reported a status for an inode.
    pub open spec fn update_status(self, ino: u64, status: StatusView, now: u64) -> TreeView {
        if self.inodes.contains_key(ino) {
            self.put(self.inodes[ino].updated(status, now), ino)
        } else {
            self
        }
    }

    /// Inodes that nothing keeps leave, but for those that are open.
    pub open spec fn clear(self, open: Set<u64>) -> TreeView {
        TreeView {
            inodes: self.inodes.restrict(
                Set::new(
                    |ino: u64|
                        self.inodes.contains_key(ino) && !(self.inodes[ino].should_unref()
                            && !open.contains(ino)),
                ),
            ),
            ..self
        }
    }
}

} // verus!
