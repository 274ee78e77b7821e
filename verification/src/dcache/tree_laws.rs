//! What holds of the directory tree whatever is done to it.
use vstd::prelude::*;

use crate::dcache::inode::{InodeView, FUSE_ROOT_ID};
use crate::dcache::tree_view::TreeView;
use crate::error::FuseError;
use crate::status::StatusView;

verus! {

impl TreeView {
    /// A directory has an entry of this name.
    pub open spec fn has_entry(self, parent: u64, name: Seq<char>) -> bool {
        &&& self.inodes.contains_key(parent)
        &&& self.inodes[parent].dir matches Some(children)
        &&& children.contains_key(name)
    }

    /// The number that an entry leads to.
    pub open spec fn entry(self, parent: u64, name: Seq<char>) -> u64 {
        self.inodes[parent].dir->Some_0[name]
    }

    /// An entry leads to a cached inode that knows its place, is not the root
    /// and has the one reference that the entry stands for.
    pub open spec fn entry_holds(self, parent: u64, name: Seq<char>) -> bool {
        let ino = self.entry(parent, name);
        &&& ino != FUSE_ROOT_ID
        &&& self.inodes.contains_key(ino)
        &&& self.inodes[ino].parent == parent
        &&& self.inodes[ino].name == name
        &&& self.inodes[ino].ref_ctr == 1
    }

    /// An inode is found under its own number, which is not above the highest
    /// one given out, and it has an entry table if and only if it is a
    /// directory.
    pub open spec fn inode_holds(self, ino: u64) -> bool {
        &&& self.inodes[ino].ino == ino
        &&& ino <= self.last_id
        &&& self.inodes[ino].dir is Some <==> self.inodes[ino].status.is_dir
    }

    /// The root is there, and every inode and every entry is in order.
    pub open spec fn consistent(self) -> bool {
        &&& self.inodes.dom().finite()
        &&& self.inodes.contains_key(FUSE_ROOT_ID)
        &&& forall|ino: u64| #[trigger] self.inodes.contains_key(ino) ==> self.inode_holds(ino)
        &&& forall|parent: u64, name: Seq<char>| #[trigger]
            self.has_entry(parent, name) ==> self.entry_holds(parent, name)
    }
}

/// A tree of the root alone is in order.
pub proof fn law_initial_tree_is_consistent(now: u64)
    ensures
        TreeView::initial(now).consistent(),
{
}

/// A number that is given out is not in use, and no other inode that is
/// cached later can have it without being given it: it counts as given out.
pub proof fn law_numbers_are_fresh(tree: TreeView, id: i64)
    requires
        tree.consistent(),
        tree.last_id < u64::MAX,
    ensures
        !tree.inodes.contains_key(tree.next_id(id)),
        tree.next_id(id) != FUSE_ROOT_ID,
        tree.next_id(id) <= tree.with_id(tree.next_id(id)).last_id,
        tree.with_id(tree.next_id(id)).consistent(),
{
    let after = tree.with_id(tree.next_id(id));
    if tree.inodes.contains_key((tree.last_id + 1) as u64) {
        assert(tree.inode_holds((tree.last_id + 1) as u64));
    }
    assert forall|ino: u64| #[trigger] after.inodes.contains_key(ino) implies after.inode_holds(
        ino,
    ) by {
        assert(tree.inodes.contains_key(ino));
    }
    assert forall|p: u64, n: Seq<char>| #[trigger]
        after.has_entry(p, n) implies after.entry_holds(p, n) by {
        assert(tree.has_entry(p, n));
    }
}

/// In a tree that is in order the entries of a directory are what is found in
/// it.
pub proof fn law_entries_are_children(tree: TreeView, parent: u64, name: Seq<char>)
    requires
        tree.consistent(),
    ensures
        tree.child(parent, name) == (if tree.has_entry(parent, name) {
            Some(tree.entry(parent, name))
        } else {
            None
        }),
{
    if tree.has_entry(parent, name) {
        assert(tree.entry_holds(parent, name));
    }
}

/// An inode changes in a way that leaves its place, its number and its
/// reference alone, and that loses entries at most.
proof fn lemma_put(tree: TreeView, inode: InodeView, ino: u64)
    requires
        tree.consistent(),
        tree.inodes.contains_key(ino),
        inode.ino == ino,
        inode.parent == tree.inodes[ino].parent,
        inode.name == tree.inodes[ino].name,
        inode.ref_ctr == tree.inodes[ino].ref_ctr,
        inode.dir is Some <==> inode.status.is_dir,
        inode.dir is Some ==> inode.dir->Some_0 == Map::<Seq<char>, u64>::empty() || inode.dir
            == tree.inodes[ino].dir,
    ensures
        tree.put(inode, ino).consistent(),
{
    let after = tree.put(inode, ino);
    assert forall|i: u64| #[trigger] after.inodes.contains_key(i) implies after.inode_holds(i) by {
        assert(tree.inodes.contains_key(i));
        assert(tree.inode_holds(i));
    }
    assert forall|p: u64, n: Seq<char>| #[trigger]
        after.has_entry(p, n) implies after.entry_holds(p, n) by {
        assert(tree.has_entry(p, n));
        assert(tree.entry_holds(p, n));
    }
}

/// A lookup keeps the tree in order, and afterwards the name leads to the
/// inode that was answered (unless that is the directory itself, and was
/// reported to be none).
pub proof fn law_lookup_keeps_consistency(
    tree: TreeView,
    parent: u64,
    name: Seq<char>,
    status: StatusView,
    now: u64,
)
    requires
        tree.consistent(),
        tree.last_id < u64::MAX,
    ensures
        ({
            let (after, answer) = tree.lookup(parent, name, status, now);
            &&& after.consistent()
            &&& answer matches Ok(ino) ==> after.inodes.contains_key(ino)
                && after.inodes[ino].status == status && (parent != ino || status.is_dir
                ==> after.child(parent, name) == Some(ino))
        }),
{
    let (after, answer) = tree.lookup(parent, name, status, now);
    match tree.children(parent) {
        Err(_) => {},
        Ok(children) => {
            law_entries_are_children(tree, parent, name);
            match tree.child(parent, name) {
                Some(ino) => {
                    assert(tree.inode_holds(ino));
                    lemma_put(tree, tree.inodes[ino].updated(status, now).looked_up(1, now), ino);
                },
                None => {
                    law_numbers_are_fresh(tree, status.id);
                    let ino = tree.next_id(status.id);
                    assert(after.inodes.dom() =~= tree.inodes.dom().insert(ino));
                    assert forall|i: u64| #[trigger] after.inodes.contains_key(i) implies
                        after.inode_holds(i) by {
                        if i != ino {
                            assert(tree.inodes.contains_key(i));
                            assert(tree.inode_holds(i));
                        }
                    }
                    assert forall|p: u64, n: Seq<char>| #[trigger]
                        after.has_entry(p, n) implies after.entry_holds(p, n) by {
                        if !(p == parent && n == name) {
                            assert(tree.has_entry(p, n));
                            assert(tree.entry_holds(p, n));
                        }
                    }
                },
            }
        },
    }
}

/// Looking a name up again gives the same inode, with one lookup more.
pub proof fn law_lookup_again(
    tree: TreeView,
    parent: u64,
    name: Seq<char>,
    status: StatusView,
    now: u64,
)
    requires
        tree.child(parent, name) is Some,
        tree.inodes[tree.child(parent, name)->Some_0].n_lookup < u64::MAX,
    ensures
        ({
            let ino = tree.child(parent, name)->Some_0;
            let (after, answer) = tree.lookup(parent, name, status, now);
            &&& answer == Ok::<u64, FuseError>(ino)
            &&& after.inodes.dom() == tree.inodes.dom()
            &&& after.inodes[ino].n_lookup == tree.inodes[ino].n_lookup + 1
            &&& after.last_id == tree.last_id
        }),
{
    let ino = tree.child(parent, name)->Some_0;
    let (after, answer) = tree.lookup(parent, name, status, now);
    assert(after.inodes.dom() =~= tree.inodes.dom());
}

/// Giving back as many lookups as were made leaves the count where it was.
pub proof fn law_forget_undoes_lookups(inode: InodeView, n: u64, now: u64)
    requires
        inode.n_lookup + n <= u64::MAX,
    ensures
        inode.looked_up(n, now).forgotten(n).n_lookup == inode.n_lookup,
{
}

/// Removing an entry keeps the tree in order, and the name leads nowhere
/// afterwards. The inode stays until nothing keeps it.
pub proof fn law_unlink_keeps_consistency(tree: TreeView, parent: u64, name: Seq<char>)
    requires
        tree.consistent(),
    ensures
        ({
            let (after, answer) = tree.unlink(parent, name);
            &&& after.consistent()
            &&& answer is Ok ==> after.child(parent, name) is None && after.inodes.dom()
                == tree.inodes.dom()
            &&& answer is Err ==> after == tree
        }),
{
    let (after, answer) = tree.unlink(parent, name);
    law_entries_are_children(tree, parent, name);
    if answer is Ok {
        let ino = tree.child(parent, name)->Some_0;
        lemma_drop(tree, parent, name, ino);
    }
}

/// An entry goes and its inode loses the reference.
proof fn lemma_drop(tree: TreeView, parent: u64, name: Seq<char>, ino: u64)
    requires
        tree.consistent(),
        tree.child(parent, name) == Some(ino),
    ensures
        ({
            let after = tree.without_entry(parent, name).dropped(ino);
            &&& after.consistent()
            &&& after.inodes.dom() == tree.inodes.dom()
            &&& after.child(parent, name) is None
            &&& after.inodes[ino].ref_ctr == 0
            &&& after.inodes[ino].n_lookup == tree.inodes[ino].n_lookup
            &&& forall|p: u64, n: Seq<char>| #[trigger]
                after.has_entry(p, n) <==> tree.has_entry(p, n) && !(p == parent && n == name)
            &&& forall|p: u64, n: Seq<char>| #[trigger]
                after.has_entry(p, n) ==> after.entry(p, n) == tree.entry(p, n)
        }),
{
    law_entries_are_children(tree, parent, name);
    assert(tree.entry_holds(parent, name));
    let after = tree.without_entry(parent, name).dropped(ino);
    assert(after.inodes.dom() =~= tree.inodes.dom());
    assert forall|i: u64| #[trigger] after.inodes.contains_key(i) implies after.inode_holds(i) by {
        assert(tree.inodes.contains_key(i));
        assert(tree.inode_holds(i));
    }
    assert forall|p: u64, n: Seq<char>| #[trigger]
        after.has_entry(p, n) implies after.entry_holds(p, n) by {
        assert(tree.has_entry(p, n));
        assert(tree.entry_holds(p, n));
    }
    assert forall|p: u64, n: Seq<char>| #[trigger]
        after.has_entry(p, n) <==> tree.has_entry(p, n) && !(p == parent && n == name) by {}
}

/// An inode's entry moves to a name that is free, or its own.
proof fn lemma_relink(
    tree: TreeView,
    ino: u64,
    old_parent: u64,
    old_name: Seq<char>,
    new_parent: u64,
    new_name: Seq<char>,
)
    requires
        tree.consistent(),
        tree.child(old_parent, old_name) == Some(ino),
        tree.children(new_parent) is Ok,
        tree.has_entry(new_parent, new_name) ==> new_parent == old_parent && new_name == old_name,
    ensures
        ({
            let after = tree.relinked(ino, old_parent, old_name, new_parent, new_name);
            &&& after.consistent()
            &&& after.inodes.dom() == tree.inodes.dom()
            &&& after.child(new_parent, new_name) == Some(ino)
            &&& forall|p: u64, n: Seq<char>| #[trigger]
                after.has_entry(p, n) <==> (p == new_parent && n == new_name) || (tree.has_entry(
                    p,
                    n,
                ) && !(p == old_parent && n == old_name))
            &&& forall|p: u64, n: Seq<char>| #[trigger]
                after.has_entry(p, n) && !(p == new_parent && n == new_name) ==> after.entry(p, n)
                    == tree.entry(p, n)
        }),
{
    law_entries_are_children(tree, old_parent, old_name);
    assert(tree.entry_holds(old_parent, old_name));
    let after = tree.relinked(ino, old_parent, old_name, new_parent, new_name);
    assert(after.inodes.dom() =~= tree.inodes.dom());
    assert forall|p: u64, n: Seq<char>| #[trigger]
        after.has_entry(p, n) <==> (p == new_parent && n == new_name) || (tree.has_entry(p, n)
            && !(p == old_parent && n == old_name)) by {}
    assert forall|i: u64| #[trigger] after.inodes.contains_key(i) implies after.inode_holds(i) by {
        assert(tree.inodes.contains_key(i));
        assert(tree.inode_holds(i));
    }
    assert forall|p: u64, n: Seq<char>| #[trigger]
        after.has_entry(p, n) implies after.entry_holds(p, n) by {
        if !(p == new_parent && n == new_name) {
            assert(tree.has_entry(p, n));
            assert(tree.entry_holds(p, n));
        }
    }
    law_entries_are_children(after, new_parent, new_name);
}

/// Moving an entry keeps the tree in order. Afterwards the new name leads to
/// the inode that the old name led to, and the old name leads nowhere. An
/// entry that is neither of the two stays.
pub proof fn law_rename_keeps_consistency(
    tree: TreeView,
    old_parent: u64,
    old_name: Seq<char>,
    new_parent: u64,
    new_name: Seq<char>,
)
    requires
        tree.consistent(),
    ensures
        ({
            let (after, answer) = tree.rename(old_parent, old_name, new_parent, new_name);
            let same = old_parent == new_parent && old_name == new_name;
            &&& after.consistent()
            &&& answer is Err ==> after == tree
            &&& answer is Ok ==> {
                &&& after.inodes.dom() == tree.inodes.dom()
                &&& after.child(new_parent, new_name) == tree.child(old_parent, old_name)
                &&& !same ==> after.child(old_parent, old_name) is None
                &&& forall|p: u64, n: Seq<char>|
                    !(p == new_parent && n == new_name) && !(p == old_parent && n == old_name)
                        ==> #[trigger] after.child(p, n) == tree.child(p, n)
            }
        }),
{
    let (after, answer) = tree.rename(old_parent, old_name, new_parent, new_name);
    law_entries_are_children(tree, old_parent, old_name);
    law_entries_are_children(tree, new_parent, new_name);
    if answer is Ok {
        let ino = tree.child(old_parent, old_name)->Some_0;
        assert(tree.entry_holds(old_parent, old_name));
        let target = tree.child(new_parent, new_name);
        if target is None || target == Some(ino) {
            if target is Some {
                assert(tree.entry_holds(new_parent, new_name));
            }
            lemma_relink(tree, ino, old_parent, old_name, new_parent, new_name);
            assert forall|p: u64, n: Seq<char>|
                !(p == new_parent && n == new_name) && !(p == old_parent && n
                    == old_name) implies #[trigger] after.child(p, n) == tree.child(p, n) by {
                law_entries_are_children(tree, p, n);
                law_entries_are_children(after, p, n);
            }
        } else {
            let t = target->Some_0;
            let middle = tree.without_entry(new_parent, new_name).dropped(t);
            lemma_drop(tree, new_parent, new_name, t);
            law_entries_are_children(middle, old_parent, old_name);
            assert(middle.has_entry(old_parent, old_name));
            assert(!middle.has_entry(new_parent, new_name));
            lemma_relink(middle, ino, old_parent, old_name, new_parent, new_name);
            assert forall|p: u64, n: Seq<char>|
                !(p == new_parent && n == new_name) && !(p == old_parent && n
                    == old_name) implies #[trigger] after.child(p, n) == tree.child(p, n) by {
                law_entries_are_children(tree, p, n);
                law_entries_are_children(after, p, n);
                assert(after.has_entry(p, n) <==> middle.has_entry(p, n));
            }
        }
        law_entries_are_children(after, old_parent, old_name);
    }
}

/// Forgetting, marking, giving up a cached status and taking over a new one
/// keep the tree in order.
pub proof fn law_inode_changes_keep_consistency(
    tree: TreeView,
    ino: u64,
    name: Option<Seq<char>>,
    n_lookup: u64,
    status: StatusView,
    now: u64,
)
    requires
        tree.consistent(),
    ensures
        tree.forget(ino, n_lookup).0.consistent(),
        tree.mark_delete(ino).0.consistent(),
        tree.invalid_cache(ino, name).consistent(),
        tree.update_status(ino, status, now).consistent(),
{
    if tree.inodes.contains_key(ino) {
        assert(tree.inode_holds(ino));
        lemma_put(tree, tree.inodes[ino].forgotten(n_lookup), ino);
        lemma_put(tree, InodeView { mark_delete: true, ..tree.inodes[ino] }, ino);
        lemma_put(tree, tree.inodes[ino].updated(status, now), ino);
    }
    if let Some(found) = tree.resolve(ino, name) {
        assert(tree.inode_holds(found));
        lemma_put(tree, tree.inodes[found].invalidated(), found);
    }
}

/// Clearing keeps the tree in order. The root, what an entry leads to and
/// what is open stay as they are; what leaves has no lookups and no
/// references. Every name in a directory that stays leads where it led.
pub proof fn law_clear_keeps_what_is_used(tree: TreeView, open: Set<u64>)
    requires
        tree.consistent(),
    ensures
        ({
            let after = tree.clear(open);
            &&& after.consistent()
            &&& after.inodes.contains_key(FUSE_ROOT_ID)
            &&& forall|ino: u64| #[trigger]
                after.inodes.contains_key(ino) <==> tree.inodes.contains_key(ino) && (open.contains(
                    ino,
                ) || !tree.inodes[ino].should_unref())
            &&& forall|ino: u64| #[trigger]
                after.inodes.contains_key(ino) ==> after.inodes[ino] == tree.inodes[ino]
            &&& forall|p: u64, n: Seq<char>|
                after.inodes.contains_key(p) ==> #[trigger] after.child(p, n) == tree.child(p, n)
        }),
{
    let after = tree.clear(open);
    assert(tree.inode_holds(FUSE_ROOT_ID));
    assert(after.inodes.dom().subset_of(tree.inodes.dom()));
    assert forall|i: u64| #[trigger] after.inodes.contains_key(i) implies after.inode_holds(i) by {
        assert(tree.inodes.contains_key(i));
        assert(tree.inode_holds(i));
    }
    assert forall|p: u64, n: Seq<char>| #[trigger]
        after.has_entry(p, n) implies after.entry_holds(p, n) by {
        assert(tree.has_entry(p, n));
        assert(tree.entry_holds(p, n));
    }
    assert forall|p: u64, n: Seq<char>| after.inodes.contains_key(p) implies #[trigger] after.child(
        p,
        n,
    ) == tree.child(p, n) by {
        law_entries_are_children(tree, p, n);
        law_entries_are_children(after, p, n);
        assert(after.has_entry(p, n) <==> tree.has_entry(p, n));
    }
}

/// An inode whose entry was removed and whose lookups were all given back
/// leaves with the next clearing, unless it is open: then it stays.
pub proof fn law_unlinked_and_forgotten_leaves(
    tree: TreeView,
    parent: u64,
    name: Seq<char>,
    n_lookup: u64,
    open: Set<u64>,
)
    requires
        tree.consistent(),
        tree.unlink(parent, name).1 is Ok,
        tree.inodes[tree.child(parent, name)->Some_0].n_lookup <= n_lookup,
    ensures
        ({
            let ino = tree.child(parent, name)->Some_0;
            tree.unlink(parent, name).0.forget(ino, n_lookup).0.clear(open).inodes.contains_key(ino)
                == open.contains(ino)
        }),
{
    let ino = tree.child(parent, name)->Some_0;
    law_entries_are_children(tree, parent, name);
    assert(tree.entry_holds(parent, name));
    lemma_drop(tree, parent, name, ino);
    let unlinked = tree.unlink(parent, name).0;
    assert(unlinked.inode_holds(ino));
}

} // verus!
