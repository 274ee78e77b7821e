//! The cached directory tree.
use std::collections::HashMap;

use vstd::prelude::*;

use crate::dcache::inode::{Inode, InodeView, FUSE_PATH_SEPARATOR, FUSE_ROOT_ID};
use crate::dcache::tree_view;
use crate::dcache::tree_view::TreeView;
use crate::error::{FuseError, FuseResult};
use crate::names;
use crate::record;
use crate::record::{decode_counted, joined, Parsed, Record, StateReader};
use crate::state::handle_table;
use crate::state::handle_table::HandleTable;
use crate::status;
use crate::status::FileStatus;
use crate::tables::keys_of;

verus! {

broadcast use vstd::std_specs::hash::group_hash_axioms;

/// Cached inodes by number.
pub struct DirTree {
    inodes: HashMap<u64, Inode>,
    last_id: u64,
}

impl View for DirTree {
    type V = TreeView;

    closed spec fn view(&self) -> TreeView {
        TreeView { inodes: inode_views(self.inodes@), last_id: self.last_id }
    }
}

/// The inodes of a map as mathematical values.
spec fn inode_views(inodes: Map<u64, Inode>) -> Map<u64, InodeView> {
    inodes.map_values(|inode: Inode| inode@)
}

/// The text of an optional name.
pub open spec fn opt_name(name: Option<&str>) -> Option<Seq<char>> {
    match name {
        Some(n) => Some(n@),
        None => None,
    }
}

impl DirTree {
    /// A tree of the root alone.
    pub fn new(now: u64) -> (r: Self)
        ensures
            r@ == TreeView::initial(now),
    {
        let mut inodes: HashMap<u64, Inode> = HashMap::new();
        let _ = inodes.insert(FUSE_ROOT_ID, Inode::new_root(now));
        let r = DirTree { inodes, last_id: FUSE_ROOT_ID };
        assert(r@.inodes =~= TreeView::initial(now).inodes);
        r
    }

    /// How many inodes are cached.
    pub fn inode_lens(&self) -> (r: usize)
        ensures
            r == self@.inodes.len(),
    {
        assert(self@.inodes.dom() =~= self.inodes@.dom());
        self.inodes.len()
    }

    /// The highest inode number that was given out.
    pub fn current_id(&self) -> (r: u64)
        ensures
            r == self@.last_id,
    {
        self.last_id
    }

    /// Puts an inode in place.
    fn put(&mut self, ino: u64, inode: Inode)
        ensures
            final(self)@ == old(self)@.put(inode@, ino),
    {
        let _ = self.inodes.insert(ino, inode);
        assert(final(self)@.inodes =~= old(self)@.inodes.insert(ino, inode@));
    }

    /// Takes an inode out.
    fn take(&mut self, ino: u64) -> (r: Option<Inode>)
        ensures
            final(self)@ == (TreeView { inodes: old(self)@.inodes.remove(ino), ..old(self)@ }),
            match r {
                Some(inode) => old(self)@.inodes.contains_key(ino) && inode@
                    == old(self)@.inodes[ino],
                None => !old(self)@.inodes.contains_key(ino),
            },
    {
        let r = self.inodes.remove(&ino);
        assert(final(self)@.inodes =~= old(self)@.inodes.remove(ino));
        r
    }

    /// The inode with a number.
    fn find(&self, ino: u64) -> (r: Option<&Inode>)
        ensures
            match r {
                Some(inode) => self@.inodes.contains_key(ino) && inode@ == self@.inodes[ino],
                None => !self@.inodes.contains_key(ino),
            },
    {
        self.inodes.get(&ino)
    }

    /// The number that a directory has under a name.
    fn child(&self, parent: u64, name: &str) -> (r: Option<u64>)
        ensures
            r == self@.child(parent, name@),
    {
        match self.find(parent) {
            None => None,
            Some(inode) => match &inode.dir {
                None => None,
                Some(dir) => match dir.children.get(name) {
                    None => None,
                    Some(ino) => {
                        if self.find(*ino).is_some() {
                            Some(*ino)
                        } else {
                            None
                        }
                    },
                },
            },
        }
    }

    /// The number that an inode number, or a name in it, leads to.
    pub fn resolve(&self, ino: u64, name: Option<&str>) -> (r: Option<u64>)
        ensures
            r == self@.resolve(ino, opt_name(name)),
    {
        match name {
            Some(n) => self.child(ino, n),
            None => {
                if self.find(ino).is_some() {
                    Some(ino)
                } else {
                    None
                }
            },
        }
    }

    /// The inode that an inode number, or a name in it, leads to.
    pub fn get_inode(&self, ino: u64, name: Option<&str>) -> (r: Option<&Inode>)
        ensures
            match r {
                Some(inode) => self@.resolve(ino, opt_name(name)) matches Some(found)
                    && self@.inodes.contains_key(found) && inode@ == self@.inodes[found],
                None => self@.resolve(ino, opt_name(name)) is None,
            },
    {
        match self.resolve(ino, name) {
            Some(found) => self.find(found),
            None => None,
        }
    }

    /// The number that an inode number, or a name in it, leads to, or the
    /// error that a miss is answered with.
    pub fn get_ino_check(&self, ino: u64, name: Option<&str>) -> (r: FuseResult<u64>)
        ensures
            r == self@.resolve_check(ino, opt_name(name)),
    {
        match self.resolve(ino, name) {
            Some(found) => Ok(found),
            None => {
                if name.is_none() {
                    Err(FuseError::InodeNotFound { ino })
                } else {
                    Err(FuseError::NameNotFound { parent: ino })
                }
            },
        }
    }

    /// The inode that an inode number, or a name in it, leads to, or the
    /// error that a miss is answered with.
    pub fn get_inode_check(&self, ino: u64, name: Option<&str>) -> (r: FuseResult<&Inode>)
        ensures
            match r {
                Ok(inode) => self@.resolve_check(ino, opt_name(name)) matches Ok(found)
                    && self@.inodes.contains_key(found) && inode@ == self@.inodes[found],
                Err(e) => self@.resolve_check(ino, opt_name(name)) == Err::<u64, FuseError>(e),
            },
    {
        match self.get_ino_check(ino, name) {
            Ok(found) => match self.find(found) {
                Some(inode) => Ok(inode),
                None => Err(FuseError::InodeNotFound { ino: found }),
            },
            Err(e) => Err(e),
        }
    }

    /// Gives out a number for an inode whose status has this id.
    pub fn next_id(&mut self, id: i64) -> (r: u64)
        ensures
            r == old(self)@.next_id(id),
            final(self)@ == old(self)@.with_id(r),
    {
        let r: u64 = if id > 0 && self.find(id as u64).is_none() {
            id as u64
        } else if self.last_id == u64::MAX {
            0
        } else {
            self.last_id + 1
        };
        if r > self.last_id {
            self.last_id = r;
        }
        r
    }

    /// Succeeds where an inode is a cached directory.
    fn check_dir(&self, ino: u64) -> (r: FuseResult<()>)
        ensures
            match self@.children(ino) {
                Ok(_) => r is Ok,
                Err(e) => r == Err::<(), FuseError>(e),
            },
    {
        match self.find(ino) {
            None => Err(FuseError::InodeNotFound { ino }),
            Some(inode) => {
                if inode.dir.is_some() {
                    Ok(())
                } else {
                    Err(FuseError::NotDirectory { ino })
                }
            },
        }
    }

    /// Adds an entry to a directory.
    fn add_entry(&mut self, parent: u64, name: &str, ino: u64)
        ensures
            final(self)@ == old(self)@.with_entry(parent, name@, ino),
    {
        let ghost before = self@;
        match self.take(parent) {
            None => {
                assert(self@.inodes =~= before.inodes);
            },
            Some(mut inode) => {
                match inode.dir {
                    Some(mut dir) => {
                        dir.children.insert(name.to_owned(), ino);
                        inode.dir = Some(dir);
                    },
                    None => {
                        inode.dir = None;
                    },
                }
                self.put(parent, inode);
                assert(self@.inodes =~= before.with_entry(parent, name@, ino).inodes);
            },
        }
    }

    /// Takes an entry out of a directory.
    fn remove_entry(&mut self, parent: u64, name: &str)
        ensures
            final(self)@ == old(self)@.without_entry(parent, name@),
    {
        let ghost before = self@;
        match self.take(parent) {
            None => {
                assert(self@.inodes =~= before.inodes);
            },
            Some(mut inode) => {
                match inode.dir {
                    Some(mut dir) => {
                        let _ = dir.children.remove(name);
                        inode.dir = Some(dir);
                    },
                    None => {
                        inode.dir = None;
                    },
                }
                self.put(parent, inode);
                assert(self@.inodes =~= before.without_entry(parent, name@).inodes);
            },
        }
    }

    /// Looks a name up in a directory, with the status that the backing file
    /// system reported for it. An inode that is cached takes the status over;
    /// else one is made.
    pub fn lookup(&mut self, parent: u64, name: &str, status: FileStatus, now: u64) -> (r:
        FuseResult<u64>)
        ensures
            (final(self)@, r) == old(self)@.lookup(parent, name@, status@, now),
    {
        let ghost before = self@;
        if let Err(e) = self.check_dir(parent) {
            return Err(e);
        }
        match self.child(parent, name) {
            Some(ino) => {
                match self.take(ino) {
                    Some(mut inode) => {
                        inode.update_status(status, now);
                        let _ = inode.add_lookup(1, now);
                        self.put(ino, inode);
                        assert(self@.inodes =~= before.lookup(
                            parent,
                            name@,
                            status@,
                            now,
                        ).0.inodes);
                    },
                    None => {},
                }
                Ok(ino)
            },
            None => {
                let ino = self.next_id(status.id);
                self.add_entry(parent, name, ino);
                self.put(ino, Inode::with_status(ino, parent, name, status, now));
                assert(self@.inodes =~= before.lookup(parent, name@, status@, now).0.inodes);
                Ok(ino)
            },
        }
    }

    /// The number of an entry that is to leave a directory, or why there is
    /// none.
    fn check_entry(&self, parent: u64, name: &str) -> (r: FuseResult<u64>)
        ensures
            r == self@.entry_check(parent, name@),
    {
        if let Err(e) = self.check_dir(parent) {
            return Err(e);
        }
        match self.child(parent, name) {
            Some(ino) => Ok(ino),
            None => Err(FuseError::NameNotFound { parent }),
        }
    }

    /// Succeeds where an inode may be removed.
    fn check_empty(&self, ino: u64) -> (r: FuseResult<()>)
        requires
            self@.inodes.contains_key(ino),
        ensures
            match self@.inodes[ino].dir_empty_error() {
                Some(e) => r == Err::<(), FuseError>(e),
                None => r is Ok,
            },
    {
        match self.find(ino) {
            Some(inode) => inode.ensure_dir_empty(),
            None => Err(FuseError::InodeNotFound { ino }),
        }
    }

    /// Takes the reference and the link of a removed entry off an inode.
    fn drop_link(&mut self, ino: u64)
        requires
            old(self)@.inodes.contains_key(ino),
        ensures
            final(self)@ == old(self)@.dropped(ino),
    {
        let ghost before = self@;
        match self.take(ino) {
            Some(mut inode) => {
                let _ = inode.sub_ref(1);
                inode.sub_link(1);
                self.put(ino, inode);
                assert(self@.inodes =~= before.dropped(ino).inodes);
            },
            None => {},
        }
    }

    /// Removes an entry. A directory has to be empty.
    pub fn unlink(&mut self, parent: u64, name: &str) -> (r: FuseResult<()>)
        ensures
            (final(self)@, r) == old(self)@.unlink(parent, name@),
    {
        let ino = match self.check_entry(parent, name) {
            Ok(ino) => ino,
            Err(e) => {
                return Err(e);
            },
        };
        if let Err(e) = self.check_empty(ino) {
            return Err(e);
        }
        self.remove_entry(parent, name);
        self.drop_link(ino);
        Ok(())
    }

    /// Gives lookups back.
    pub fn forget(&mut self, ino: u64, n_lookup: u64) -> (r: FuseResult<()>)
        ensures
            (final(self)@, r) == old(self)@.forget(ino, n_lookup),
    {
        let ghost before = self@;
        match self.take(ino) {
            Some(mut inode) => {
                let _ = inode.sub_lookup(n_lookup);
                self.put(ino, inode);
                assert(self@.inodes =~= before.forget(ino, n_lookup).0.inodes);
                Ok(())
            },
            None => {
                assert(self@.inodes =~= before.inodes);
                Err(FuseError::InodeNotFound { ino })
            },
        }
    }

    /// Marks an inode that is to be deleted once it is closed.
    pub fn mark_delete(&mut self, ino: u64) -> (r: FuseResult<()>)
        ensures
            (final(self)@, r) == old(self)@.mark_delete(ino),
    {
        let ghost before = self@;
        match self.take(ino) {
            Some(mut inode) => {
                inode.mark_delete = true;
                self.put(ino, inode);
                assert(self@.inodes =~= before.mark_delete(ino).0.inodes);
                Ok(())
            },
            None => {
                assert(self@.inodes =~= before.inodes);
                Err(FuseError::InodeNotFound { ino })
            },
        }
    }

    /// Whether an inode waits to be deleted.
    pub fn pending_delete(&self, ino: u64) -> (r: bool)
        ensures
            r == self@.pending_delete(ino),
    {
        match self.find(ino) {
            Some(inode) => inode.mark_delete,
            None => false,
        }
    }

    /// Gives up the cached status of what an inode number, or a name in it,
    /// leads to.
    pub fn invalid_cache(&mut self, ino: u64, name: Option<&str>)
        ensures
            final(self)@ == old(self)@.invalid_cache(ino, opt_name(name)),
    {
        let ghost before = self@;
        if let Some(found) = self.resolve(ino, name) {
            if let Some(mut inode) = self.take(found) {
                inode.invalid_cache();
                self.put(found, inode);
            }
            assert(self@.inodes =~= before.invalid_cache(ino, opt_name(name)).inodes);
        }
    }

    /// Takes over a status that the backing file system reported for an
    /// inode. Nothing happens where it is not cached.
    pub fn update_status(&mut self, ino: u64, status: FileStatus, now: u64)
        ensures
            final(self)@ == old(self)@.update_status(ino, status@, now),
    {
        let ghost before = self@;
        match self.take(ino) {
            Some(mut inode) => {
                inode.update_status(status, now);
                self.put(ino, inode);
            },
            None => {},
        }
        assert(self@.inodes =~= before.update_status(ino, status@, now).inodes);
    }

    /// Gives an inode a new place in the tree.
    fn relocate(&mut self, ino: u64, parent: u64, name: &str)
        requires
            old(self)@.inodes.contains_key(ino),
        ensures
            final(self)@ == old(self)@.moved(ino, parent, name@),
    {
        let ghost before = self@;
        match self.take(ino) {
            Some(mut inode) => {
                inode.parent = parent;
                inode.name = name.to_owned();
                self.put(ino, inode);
                assert(self@.inodes =~= before.moved(ino, parent, name@).inodes);
            },
            None => {},
        }
    }

    /// Moves an entry to another name. What has that name leaves, and if it
    /// is a directory it has to be empty.
    pub fn rename(
        &mut self,
        old_parent: u64,
        old_name: &str,
        new_parent: u64,
        new_name: &str,
    ) -> (r: FuseResult<()>)
        ensures
            (final(self)@, r) == old(self)@.rename(old_parent, old_name@, new_parent, new_name@),
    {
        let ino = match self.check_entry(old_parent, old_name) {
            Ok(ino) => ino,
            Err(e) => {
                return Err(e);
            },
        };
        if let Err(e) = self.check_dir(new_parent) {
            return Err(e);
        }
        if let Some(target) = self.child(new_parent, new_name) {
            if target != ino {
                if let Err(e) = self.check_empty(target) {
                    return Err(e);
                }
                self.remove_entry(new_parent, new_name);
                self.drop_link(target);
            }
        }
        self.remove_entry(old_parent, old_name);
        self.add_entry(new_parent, new_name, ino);
        self.relocate(ino, new_parent, new_name);
        Ok(())
    }

    /// The names from the root down to an inode.
    fn names(&self, ino: u64) -> (r: FuseResult<Vec<String>>)
        ensures
            match r {
                Ok(names) => self@.names(ino) == Ok::<Seq<Seq<char>>, FuseError>(
                    status::texts(names@),
                ),
                Err(e) => self@.names(ino) == Err::<Seq<Seq<char>>, FuseError>(e),
            },
    {
        let mut up: Vec<String> = Vec::new();
        let mut at = ino;
        let mut steps = self.inode_lens();
        while at != FUSE_ROOT_ID
            invariant
                match self@.names_within(at, steps as nat) {
                    Ok(names) => self@.names(ino) == Ok::<Seq<Seq<char>>, FuseError>(
                        names + status::texts(up@).reverse(),
                    ),
                    Err(e) => self@.names(ino) == Err::<Seq<Seq<char>>, FuseError>(e),
                },
            decreases steps,
        {
            match self.find(at) {
                None => {
                    return Err(FuseError::InodeNotFound { ino: at });
                },
                Some(inode) => {
                    if steps == 0 {
                        return Err(FuseError::BrokenPath { ino: at });
                    }
                    let ghost upper = self@.names_within(inode.parent, (steps - 1) as nat);
                    let ghost before = up@;
                    up.push(inode.name.clone());
                    proof {
                        if let Ok(names) = upper {
                            assert(names.push(inode.name@) + status::texts(before).reverse()
                                =~= names + status::texts(up@).reverse());
                        }
                    }
                    at = inode.parent;
                    steps = steps - 1;
                },
            }
        }
        let mut down: Vec<String> = Vec::new();
        let mut i = up.len();
        while i > 0
            invariant
                i <= up@.len(),
                status::texts(down@) == status::texts(up@).reverse().take(up@.len() - i),
            decreases i,
        {
            let ghost before = status::texts(down@);
            i = i - 1;
            down.push(up[i].clone());
            proof {
                let turned = status::texts(up@).reverse();
                assert(status::texts(down@) =~= before.push(up@[i as int]@));
                assert(turned[up@.len() - i - 1] == up@[i as int]@);
                assert(turned.take(up@.len() - i) =~= turned.take(up@.len() - i - 1).push(
                    up@[i as int]@,
                ));
            }
        }
        assert(status::texts(down@) =~= Seq::<Seq<char>>::empty() + status::texts(up@).reverse());
        Ok(down)
    }

    /// The path of an inode, or of a name in it.
    pub fn get_path_common(&self, parent: u64, name: Option<&str>) -> (r: FuseResult<String>)
        ensures
            match r {
                Ok(path) => self@.path(parent, opt_name(name)) == Ok::<Seq<char>, FuseError>(
                    path@,
                ),
                Err(e) => self@.path(parent, opt_name(name)) == Err::<Seq<char>, FuseError>(e),
            },
    {
        let mut names = match self.names(parent) {
            Ok(names) => names,
            Err(e) => {
                return Err(e);
            },
        };
        let ghost base = status::texts(names@);
        if let Some(n) = name {
            names.push(n.to_owned());
            assert(status::texts(names@) =~= base.push(n@));
        }
        Ok(spell_path(&names))
    }

    /// The path of a name in a directory.
    pub fn get_path_name(&self, parent: u64, name: &str) -> (r: FuseResult<String>)
        ensures
            match r {
                Ok(path) => self@.path(parent, Some(name@)) == Ok::<Seq<char>, FuseError>(path@),
                Err(e) => self@.path(parent, Some(name@)) == Err::<Seq<char>, FuseError>(e),
            },
    {
        self.get_path_common(parent, Some(name))
    }

    /// The path of an inode.
    pub fn get_path(&self, ino: u64) -> (r: FuseResult<String>)
        ensures
            match r {
                Ok(path) => self@.path(ino, None) == Ok::<Seq<char>, FuseError>(path@),
                Err(e) => self@.path(ino, None) == Err::<Seq<char>, FuseError>(e),
            },
    {
        self.get_path_common(ino, None)
    }

    /// Lets go of inodes that nothing keeps, but for those with an open
    /// handle.
    pub fn clear<H>(&mut self, open: &HandleTable<H>)
        ensures
            final(self)@ == old(self)@.clear(handle_table::open_inodes(open@)),
    {
        let inos = keys_of(&self.inodes);
        let ghost before = self@;
        let ghost held = handle_table::open_inodes(open@);
        let mut i: usize = 0;
        while i < inos.len()
            invariant
                i <= inos@.len(),
                held == handle_table::open_inodes(open@),
                self@.last_id == before.last_id,
                forall|ino: u64| inos@.contains(ino) <==> #[trigger] before.inodes.contains_key(ino),
                inos@.no_duplicates(),
                forall|ino: u64| #[trigger]
                    self@.inodes.contains_key(ino) <==> (before.inodes.contains_key(ino) && !(
                    inos@.take(i as int).contains(ino) && before.inodes[ino].should_unref()
                        && !held.contains(ino))),
                forall|ino: u64| #[trigger]
                    self@.inodes.contains_key(ino) ==> self@.inodes[ino] == before.inodes[ino],
            decreases inos@.len() - i,
        {
            let ino = inos[i];
            let dead = match self.find(ino) {
                Some(inode) => inode.should_unref(),
                None => false,
            };
            proof {
                assert(inos@.take(i + 1) =~= inos@.take(i as int).push(ino));
                assert forall|x: u64|
                    inos@.take(i + 1).contains(x) <==> (inos@.take(i as int).contains(x) || x
                        == ino) by {
                    let done = inos@.take(i as int);
                    let next = inos@.take(i + 1);
                    if done.contains(x) {
                        let j = choose|j: int| 0 <= j < done.len() && done[j] == x;
                        assert(next[j] == x);
                    }
                    assert(next[i as int] == ino);
                }
            }
            if dead && !open.has_open(ino) {
                let _ = self.take(ino);
            }
            i = i + 1;
        }
        proof {
            assert(inos@.take(i as int) =~= inos@);
            assert(self@.inodes =~= before.clear(held).inodes);
        }
    }
}

/// The path that a list of names spells.
fn spell_path(names: &Vec<String>) -> (r: String)
    ensures
        r@ == tree_view::path_text(status::texts(names@)),
{
    if names.len() == 0 {
        return FUSE_PATH_SEPARATOR.to_owned();
    }
    let ghost all = status::texts(names@);
    let mut path = String::new();
    let mut i: usize = 0;
    assert(all.take(0) =~= Seq::empty());
    while i < names.len()
        invariant
            all == status::texts(names@),
            i <= names@.len(),
            path@ == tree_view::joined(all.take(i as int)),
        decreases names@.len() - i,
    {
        path.append(FUSE_PATH_SEPARATOR);
        path.append(names[i].as_str());
        proof {
            let next = all.take(i + 1);
            assert(next.drop_last() =~= all.take(i as int));
            assert(next.last() == all[i as int]);
        }
        i = i + 1;
    }
    assert(all.take(i as int) =~= all);
    path
}

impl Record for DirTree {
    type Model = TreeView;

    open spec fn model(&self) -> TreeView {
        self@
    }

    /// The highest number given out, then every inode once, behind its number.
    open spec fn parse(s: Seq<u8>) -> Parsed<TreeView> {
        match u64::parse(s) {
            None => None,
            Some((last_id, s1)) => match record::parse_counted::<(u64, Inode)>(s1) {
                None => None,
                Some((pairs, s2)) => if names::keys_distinct(pairs) {
                    Some((TreeView { inodes: names::pairs_to_map(pairs), last_id }, s2))
                } else {
                    None
                },
            },
        }
    }

    fn encode(&self) -> (r: Vec<u8>) {
        let keys = keys_of(&self.inodes);
        let ghost pairs = Seq::new(
            keys@.len(),
            |i: int| (keys@[i], self@.inodes[keys@[i]]),
        );
        let mut body: Vec<u8> = Vec::new();
        let mut i: usize = 0;
        proof {
            assert forall|rest: Seq<u8>|
                record::parse_list::<(u64, Inode)>(#[trigger] (body@ + rest), pairs.take(0).len())
                    == Some((pairs.take(0), rest)) by {
                assert(body@ + rest =~= rest);
                assert(pairs.take(0) =~= Seq::empty());
            }
        }
        while i < keys.len()
            invariant
                i <= keys@.len(),
                keys@.to_set() == self.inodes@.dom(),
                pairs == Seq::new(keys@.len(), |i: int| (keys@[i], self@.inodes[keys@[i]])),
                record::encodes_list::<(u64, Inode)>(body@, pairs.take(i as int)),
            decreases keys@.len() - i,
        {
            let key = keys[i];
            proof {
                assert(keys@.to_set().contains(key));
            }
            if let Some(inode) = self.inodes.get(&key) {
                let a = key.encode();
                let b = inode.encode();
                let ghost before = body@;
                let more = joined(a, b);
                proof {
                    record::lemma_encodes_pair::<u64, Inode>(a@, b@, key, inode@);
                    record::lemma_encodes_push::<(u64, Inode)>(
                        before,
                        pairs.take(i as int),
                        more@,
                        pairs[i as int],
                    );
                    assert(pairs.take(i + 1) =~= pairs.take(i as int).push(pairs[i as int]));
                }
                body = joined(body, more);
            }
            i = i + 1;
        }
        assert(pairs.take(i as int) =~= pairs);
        let n: u64 = keys.len() as u64;
        let a = self.last_id.encode();
        let b = n.encode();
        let r = joined(joined(a, b), body);
        proof {
            assert(self@.inodes.dom() =~= self.inodes@.dom());
            names::lemma_listing(pairs, keys@, self@.inodes);
            assert forall|rest: Seq<u8>| DirTree::parse(#[trigger] (r@ + rest)) == Some(
                (self@, rest),
            ) by {
                assert(r@ + rest =~= a@ + (b@ + (body@ + rest)));
                assert(u64::parse(a@ + (b@ + (body@ + rest))) == Some(
                    (self.last_id, b@ + (body@ + rest)),
                ));
                assert(u64::parse(b@ + (body@ + rest)) == Some((n, body@ + rest)));
                assert(record::parse_list::<(u64, Inode)>(body@ + rest, pairs.len()) == Some(
                    (pairs, rest),
                ));
            }
        }
        r
    }

    proof fn lemma_extends(s: Seq<u8>, more: Seq<u8>) {
        u64::lemma_extends(s, more);
        if let Some((_, s1)) = u64::parse(s) {
            record::lemma_counted_extends::<(u64, Inode)>(s1, more);
        }
    }

    fn decode(reader: &mut StateReader) -> (r: Option<Self>) {
        let mark = reader.mark();
        let last_id = match u64::decode(reader) {
            Some(last_id) => last_id,
            None => {
                return None;
            },
        };
        let ghost behind = reader@;
        let entries = match decode_counted::<(u64, Inode)>(reader) {
            Some(entries) => entries,
            None => {
                reader.reset(mark);
                return None;
            },
        };
        let ghost pairs = record::models(entries@);
        let mut inodes: HashMap<u64, Inode> = HashMap::new();
        proof {
            assert(pairs.take(0) =~= Seq::empty());
            assert(inode_views(inodes@) =~= names::pairs_to_map(pairs.take(0)));
        }
        let ghost left = reader@;
        let ghost whole = reader.whole();
        for entry in it: entries
            invariant
                pairs == record::models(entries@),
                pairs == record::models(it.seq()),
                reader.whole() == whole,
                whole == old(reader).whole(),
                mark <= whole.len(),
                old(reader)@ == whole.skip(mark as int),
                reader@ == left,
                u64::parse(old(reader)@) == Some((last_id, behind)),
                record::parse_counted::<(u64, Inode)>(behind) == Some((pairs, left)),
                names::keys_distinct(pairs.take(it.index())),
                inode_views(inodes@) == names::pairs_to_map(pairs.take(it.index())),
        {
            let ghost before = inodes@;
            let (key, inode) = entry;
            assert(pairs[it.index()] == (key, inode@));
            assert(names::keys_distinct(pairs.take(it.index() + 1)) == !before.contains_key(key))
                by {
                names::lemma_distinct_push(pairs, it.index());
                assert(inode_views(before).contains_key(key) == before.contains_key(key));
            }
            if inodes.contains_key(&key) {
                assert(!names::keys_distinct(pairs)) by {
                    names::lemma_distinct_part(pairs, it.index() + 1);
                }
                reader.reset(mark);
                return None;
            }
            let _ = inodes.insert(key, inode);
            assert(pairs.take(it.index() + 1).drop_last() =~= pairs.take(it.index()));
            assert(inode_views(inodes@) =~= inode_views(before).insert(key, inode@));
        }
        assert(pairs.take(pairs.len() as int) =~= pairs);
        Some(DirTree { inodes, last_id })
    }
}

} // verus!
