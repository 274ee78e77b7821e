//! What each request does to the directory tree, said of single inodes and
//! entries.
use vstd::prelude::*;

use crate::dcache::inode::InodeView;
use crate::dcache::tree_laws;
use crate::dcache::tree_view;
use crate::dcache::tree_view::TreeView;
use crate::error::FuseError;
use crate::status::StatusView;

verus! {

/// A name in a directory leads to the inode that its entry holds, where that
/// is cached, and nowhere else; a number alone leads to itself where it is
/// cached.
pub proof fn law_names_and_numbers_lead_to_inodes(tree: TreeView, ino: u64, name: Seq<char>)
    ensures
        tree.resolve(ino, None) == (if tree.inodes.contains_key(ino) {
            Some(ino)
        } else {
            None
        }),
        tree.resolve(ino, Some(name)) == tree.child(ino, name),
        tree.child(ino, name) matches Some(found) ==> tree.inodes.contains_key(ino)
            && tree.inodes[ino].dir is Some && tree.inodes[ino].dir->Some_0.contains_key(name)
            && tree.inodes[ino].dir->Some_0[name] == found && tree.inodes.contains_key(found),
        tree.child(ino, name) is None ==> !(tree.inodes.contains_key(ino)
            && tree.inodes[ino].dir is Some && tree.inodes[ino].dir->Some_0.contains_key(name)
            && tree.inodes.contains_key(tree.inodes[ino].dir->Some_0[name])),
        tree.inodes.contains_key(ino) ==> tree.resolve_check(ino, None) == Ok::<u64, FuseError>(
            ino,
        ),
        !tree.inodes.contains_key(ino) ==> tree.resolve_check(ino, None) == Err::<u64, FuseError>(
            FuseError::InodeNotFound { ino },
        ),
        tree.child(ino, name) matches Some(found) ==> tree.resolve_check(ino, Some(name)) == Ok::<
            u64,
            FuseError,
        >(found),
        tree.child(ino, name) is None ==> tree.resolve_check(ino, Some(name)) == Err::<
            u64,
            FuseError,
        >(FuseError::NameNotFound { parent: ino }),
{
}

/// The entries of a directory are read as they are; what is not cached is not
/// found, and what has no entry table is no directory.
pub proof fn law_entries_of_a_directory(tree: TreeView, ino: u64)
    ensures
        !tree.inodes.contains_key(ino) ==> tree.children(ino) == Err::<
            Map<Seq<char>, u64>,
            FuseError,
        >(FuseError::InodeNotFound { ino }),
        tree.inodes.contains_key(ino) && tree.inodes[ino].dir is None ==> tree.children(ino)
            == Err::<Map<Seq<char>, u64>, FuseError>(FuseError::NotDirectory { ino }),
        tree.inodes.contains_key(ino) && tree.inodes[ino].dir is Some ==> tree.children(ino)
            == Ok::<Map<Seq<char>, u64>, FuseError>(tree.inodes[ino].dir->Some_0),
{
}

/// A positive id that is free is taken as the number; else it is the one after
/// the highest given out. The highest given out never goes down.
pub proof fn law_which_number_is_given(tree: TreeView, id: i64)
    ensures
        id > 0 && !tree.inodes.contains_key(id as u64) ==> tree.next_id(id) == id,
        id <= 0 && tree.last_id < u64::MAX ==> tree.next_id(id) == tree.last_id + 1,
        id > 0 && tree.inodes.contains_key(id as u64) && tree.last_id < u64::MAX ==> tree.next_id(
            id,
        ) == tree.last_id + 1,
        forall|n: u64|
            #![trigger tree.with_id(n)]
            tree.with_id(n).inodes == tree.inodes && tree.with_id(n).last_id >= n && tree.with_id(
                n,
            ).last_id >= tree.last_id && (tree.with_id(n).last_id == n || tree.with_id(n).last_id
                == tree.last_id),
{
}

/// A new tree holds the root alone.
pub proof fn law_new_tree_holds_the_root(now: u64)
    ensures
        TreeView::initial(now).last_id == 1,
        forall|i: u64| #[trigger]
            TreeView::initial(now).inodes.contains_key(i) <==> i == 1,
        TreeView::initial(now).inodes[1] == InodeView::root(now),
{
}

/// A lookup in what is no cached directory is refused and changes nothing.
pub proof fn law_lookup_needs_a_directory(
    tree: TreeView,
    parent: u64,
    name: Seq<char>,
    status: StatusView,
    now: u64,
)
    ensures
        !tree.inodes.contains_key(parent) ==> tree.lookup(parent, name, status, now) == (
            tree,
            Err::<u64, FuseError>(FuseError::InodeNotFound { ino: parent }),
        ),
        tree.inodes.contains_key(parent) && tree.inodes[parent].dir is None ==> tree.lookup(
            parent,
            name,
            status,
            now,
        ) == (tree, Err::<u64, FuseError>(FuseError::NotDirectory { ino: parent })),
        tree.inodes.contains_key(parent) && tree.inodes[parent].dir is Some ==> tree.lookup(
            parent,
            name,
            status,
            now,
        ).1 is Ok,
{
}

/// A lookup of a name that leads to a cached inode answers with it. The inode
/// has the reported status, one lookup more and the time of the lookup; its
/// place and its references stay, and so does every other inode.
pub proof fn law_lookup_of_a_cached_name(
    tree: TreeView,
    parent: u64,
    name: Seq<char>,
    children: Map<Seq<char>, u64>,
    status: StatusView,
    now: u64,
)
    requires
        tree.inodes.contains_key(parent),
        tree.inodes[parent].dir == Some(children),
        children.contains_key(name),
        tree.inodes.contains_key(children[name]),
    ensures
        ({
            let ino = children[name];
            let (after, answer) = tree.lookup(parent, name, status, now);
            let was = tree.inodes[ino];
            let is = after.inodes[ino];
            &&& answer == Ok::<u64, FuseError>(ino)
            &&& after.last_id == tree.last_id
            &&& forall|i: u64| #[trigger]
                after.inodes.contains_key(i) <==> tree.inodes.contains_key(i)
            &&& forall|i: u64|
                i != ino && tree.inodes.contains_key(i) ==> #[trigger] after.inodes[i]
                    == tree.inodes[i]
            &&& is.status == status && is.last_access == now && is.lifecycle is Cached
            &&& was.n_lookup < u64::MAX ==> is.n_lookup == was.n_lookup + 1
            &&& was.n_lookup == u64::MAX ==> is.n_lookup == u64::MAX
            &&& is.ino == was.ino && is.parent == was.parent && is.name == was.name
            &&& is.ref_ctr == was.ref_ctr && is.dirty == was.dirty
            &&& is.mark_delete == was.mark_delete
        }),
{
}

/// A lookup of a name that leads nowhere makes an inode for it: with the id
/// that was reported where that is positive and free, else with the number
/// after the highest given out. The directory has one entry more and is the
/// same otherwise, and every other inode stays.
pub proof fn law_lookup_of_a_new_name(
    tree: TreeView,
    parent: u64,
    name: Seq<char>,
    children: Map<Seq<char>, u64>,
    status: StatusView,
    now: u64,
)
    requires
        tree.inodes.contains_key(parent),
        tree.inodes[parent].dir == Some(children),
        !(children.contains_key(name) && tree.inodes.contains_key(children[name])),
        tree.last_id < u64::MAX,
    ensures
        ({
            let (after, answer) = tree.lookup(parent, name, status, now);
            let ino = answer->Ok_0;
            &&& answer is Ok
            &&& status.id > 0 && !tree.inodes.contains_key(status.id as u64) ==> ino == status.id
            &&& !(status.id > 0 && !tree.inodes.contains_key(status.id as u64)) ==> ino
                == tree.last_id + 1
            &&& after.last_id >= ino && after.last_id >= tree.last_id
            &&& after.last_id == ino || after.last_id == tree.last_id
            &&& forall|i: u64| #[trigger]
                after.inodes.contains_key(i) <==> tree.inodes.contains_key(i) || i == ino
            &&& forall|i: u64|
                i != ino && i != parent && tree.inodes.contains_key(i)
                    ==> #[trigger] after.inodes[i] == tree.inodes[i]
            &&& ino != parent ==> after.inodes[parent] == (InodeView {
                dir: Some(children.insert(name, ino)),
                ..tree.inodes[parent]
            })
            &&& ({
                let made = after.inodes[ino];
                &&& made.ino == ino && made.parent == parent && made.name == name
                &&& made.status == status && made.last_access == now && made.lifecycle is Cached
                &&& made.n_lookup == 1 && made.ref_ctr == 1 && made.dirty.bits == 0
                &&& !made.mark_delete
                &&& made.dir is Some <==> status.is_dir
                &&& made.dir matches Some(own) ==> forall|k: Seq<char>|
                    !(#[trigger] own.contains_key(k))
            })
        }),
{
}

/// When an entry may be removed, and what it is answered with when it may not:
/// it has to be there, in a cached directory, and lead to a file or to a
/// directory without entries.
pub proof fn law_when_an_entry_may_be_removed(tree: TreeView, parent: u64, name: Seq<char>)
    ensures
        !tree.inodes.contains_key(parent) ==> tree.unlink(parent, name).1 == Err::<(), FuseError>(
            FuseError::InodeNotFound { ino: parent },
        ),
        tree.inodes.contains_key(parent) && tree.inodes[parent].dir is None ==> tree.unlink(
            parent,
            name,
        ).1 == Err::<(), FuseError>(FuseError::NotDirectory { ino: parent }),
        tree.inodes.contains_key(parent) && tree.inodes[parent].dir is Some && tree.child(
            parent,
            name,
        ) is None ==> tree.unlink(parent, name).1 == Err::<(), FuseError>(
            FuseError::NameNotFound { parent },
        ),
        tree.child(parent, name) matches Some(ino) ==> {
            let inode = tree.inodes[ino];
            &&& !inode.status.is_dir ==> tree.unlink(parent, name).1 is Ok
            &&& inode.status.is_dir && inode.dir is None ==> tree.unlink(parent, name).1 == Err::<
                (),
                FuseError,
            >(FuseError::MissingDirEntry { ino: inode.ino })
            &&& inode.status.is_dir && inode.dir is Some && (exists|k: Seq<char>| #[trigger]
                inode.dir->Some_0.contains_key(k)) ==> tree.unlink(parent, name).1 == Err::<
                (),
                FuseError,
            >(FuseError::DirectoryNotEmpty { ino: inode.ino })
            &&& inode.status.is_dir && inode.dir is Some && (forall|k: Seq<char>|
                !(#[trigger] inode.dir->Some_0.contains_key(k))) ==> tree.unlink(parent, name).1
                is Ok
        },
        tree.unlink(parent, name).1 is Err ==> tree.unlink(parent, name).0 == tree,
{
    if let Some(ino) = tree.child(parent, name) {
        lemma_no_entry(tree.inodes[ino]);
    }
}

/// An entry table without a key is the empty one.
proof fn lemma_no_entry(inode: InodeView)
    ensures
        inode.dir is Some ==> ((forall|k: Seq<char>|
            !(#[trigger] inode.dir->Some_0.contains_key(k))) <==> inode.dir->Some_0 == Map::<
            Seq<char>,
            u64,
        >::empty()),
{
    if inode.dir is Some {
        let children = inode.dir->Some_0;
        if forall|k: Seq<char>| !(#[trigger] children.contains_key(k)) {
            assert(children =~= Map::<Seq<char>, u64>::empty());
        }
    }
}

/// What a removed entry leaves: the directory without that name and with
/// every other, the inode with one reference and one link less, and all else
/// as it was.
pub proof fn law_what_a_removed_entry_leaves(tree: TreeView, parent: u64, name: Seq<char>, ino: u64)
    requires
        tree.consistent(),
        tree.child(parent, name) == Some(ino),
        tree.unlink(parent, name).1 is Ok,
    ensures
        ({
            let after = tree.unlink(parent, name).0;
            &&& after.last_id == tree.last_id
            &&& forall|i: u64| #[trigger]
                after.inodes.contains_key(i) <==> tree.inodes.contains_key(i)
            &&& forall|i: u64|
                i != ino && i != parent && tree.inodes.contains_key(i)
                    ==> #[trigger] after.inodes[i] == tree.inodes[i]
            &&& ino != parent ==> after.inodes[parent] == (InodeView {
                dir: Some(tree.inodes[parent].dir->Some_0.remove(name)),
                ..tree.inodes[parent]
            })
            &&& !after.inodes[parent].dir->Some_0.contains_key(name)
            &&& after.inodes[ino].ref_ctr == 0
            &&& tree.inodes[ino].status.nlink > 0 ==> after.inodes[ino].status.nlink
                == tree.inodes[ino].status.nlink - 1
            &&& tree.inodes[ino].status.nlink == 0 ==> after.inodes[ino].status.nlink == 0
            &&& after.inodes[ino].status == (StatusView {
                nlink: after.inodes[ino].status.nlink,
                ..tree.inodes[ino].status
            })
            &&& ino != parent ==> after.inodes[ino] == (InodeView {
                ref_ctr: 0,
                status: after.inodes[ino].status,
                ..tree.inodes[ino]
            })
        }),
{
    tree_laws::law_entries_are_children(tree, parent, name);
    assert(tree.entry_holds(parent, name));
}

/// When an entry may be moved, and what it is answered with when it may not:
/// it has to be there, the new directory has to be one, and what has the new
/// name already has to be the same inode, a file or a directory without
/// entries.
pub proof fn law_when_an_entry_may_be_moved(
    tree: TreeView,
    old_parent: u64,
    old_name: Seq<char>,
    new_parent: u64,
    new_name: Seq<char>,
)
    ensures
        ({
            let (after, answer) = tree.rename(old_parent, old_name, new_parent, new_name);
            &&& answer is Err ==> after == tree
            &&& !tree.inodes.contains_key(old_parent) ==> answer == Err::<(), FuseError>(
                FuseError::InodeNotFound { ino: old_parent },
            )
            &&& tree.inodes.contains_key(old_parent) && tree.inodes[old_parent].dir is None
                ==> answer == Err::<(), FuseError>(FuseError::NotDirectory { ino: old_parent })
            &&& tree.inodes.contains_key(old_parent) && tree.inodes[old_parent].dir is Some
                && tree.child(old_parent, old_name) is None ==> answer == Err::<(), FuseError>(
                FuseError::NameNotFound { parent: old_parent },
            )
            &&& tree.child(old_parent, old_name) is Some ==> {
                let ino = tree.child(old_parent, old_name)->Some_0;
                &&& !tree.inodes.contains_key(new_parent) ==> answer == Err::<(), FuseError>(
                    FuseError::InodeNotFound { ino: new_parent },
                )
                &&& tree.inodes.contains_key(new_parent) && tree.inodes[new_parent].dir is None
                    ==> answer == Err::<(), FuseError>(FuseError::NotDirectory { ino: new_parent })
                &&& tree.inodes.contains_key(new_parent) && tree.inodes[new_parent].dir is Some
                    ==> match tree.child(new_parent, new_name) {
                    None => answer is Ok,
                    Some(target) => {
                        let t = tree.inodes[target];
                        &&& target == ino || !t.status.is_dir ==> answer is Ok
                        &&& target != ino && t.status.is_dir && t.dir is None ==> answer == Err::<
                            (),
                            FuseError,
                        >(FuseError::MissingDirEntry { ino: t.ino })
                        &&& target != ino && t.status.is_dir && t.dir is Some && (exists|
                            k: Seq<char>,
                        | #[trigger]
                            t.dir->Some_0.contains_key(k)) ==> answer == Err::<(), FuseError>(
                            FuseError::DirectoryNotEmpty { ino: t.ino },
                        )
                        &&& target != ino && t.status.is_dir && t.dir is Some && (forall|
                            k: Seq<char>,
                        |
                            !(#[trigger] t.dir->Some_0.contains_key(k))) ==> answer is Ok
                    },
                }
            }
        }),
{
    if let Some(target) = tree.child(new_parent, new_name) {
        lemma_no_entry(tree.inodes[target]);
    }
}

/// An inode's entry moves: its place changes, and entries of the two
/// directories.
proof fn lemma_relinked_fields(
    tree: TreeView,
    ino: u64,
    old_parent: u64,
    old_name: Seq<char>,
    new_parent: u64,
    new_name: Seq<char>,
)
    requires
        tree.inodes.contains_key(ino),
        tree.children(old_parent) is Ok,
        tree.children(new_parent) is Ok,
    ensures
        ({
            let after = tree.relinked(ino, old_parent, old_name, new_parent, new_name);
            &&& after.last_id == tree.last_id
            &&& after.inodes[ino].parent == new_parent && after.inodes[ino].name == new_name
            &&& forall|i: u64| #[trigger]
                after.inodes.contains_key(i) <==> tree.inodes.contains_key(i)
            &&& forall|i: u64|
                #![trigger after.inodes[i]]
                tree.inodes.contains_key(i) ==> {
                    let was = tree.inodes[i];
                    let is = after.inodes[i];
                    &&& i != ino ==> is.parent == was.parent && is.name == was.name
                    &&& is == (InodeView { parent: is.parent, name: is.name, dir: is.dir, ..was })
                    &&& is.dir is Some <==> was.dir is Some
                    &&& i != old_parent && i != new_parent ==> is.dir == was.dir
                }
        }),
{
}

/// An entry is dropped: its directory loses it, and its inode a reference and
/// a link.
proof fn lemma_dropped_fields(tree: TreeView, parent: u64, name: Seq<char>, t: u64)
    requires
        tree.inodes.contains_key(t),
        tree.inodes[t].ref_ctr == 1,
        tree.children(parent) is Ok,
    ensures
        ({
            let after = tree.without_entry(parent, name).dropped(t);
            &&& after.last_id == tree.last_id
            &&& forall|i: u64| #[trigger]
                after.inodes.contains_key(i) <==> tree.inodes.contains_key(i)
            &&& forall|i: u64|
                #![trigger after.inodes[i]]
                tree.inodes.contains_key(i) ==> {
                    let was = tree.inodes[i];
                    let is = after.inodes[i];
                    &&& is == (InodeView {
                        ref_ctr: is.ref_ctr,
                        status: is.status,
                        dir: is.dir,
                        ..was
                    })
                    &&& is.dir is Some <==> was.dir is Some
                    &&& i != parent ==> is.dir == was.dir
                    &&& i != t ==> is.ref_ctr == was.ref_ctr && is.status == was.status
                    &&& i == t ==> is.ref_ctr == 0 && is.status == (StatusView {
                        nlink: is.status.nlink,
                        ..was.status
                    }) && (was.status.nlink > 0 ==> is.status.nlink == was.status.nlink - 1) && (
                    was.status.nlink == 0 ==> is.status.nlink == 0)
                }
        }),
{
}

/// What a moved entry leaves: the inode knows its new place; what it replaced
/// loses a reference and a link; counters, statuses, times and marks of every
/// other inode stay, and so do the places of all but the moved one.
pub proof fn law_what_a_moved_entry_leaves(
    tree: TreeView,
    old_parent: u64,
    old_name: Seq<char>,
    new_parent: u64,
    new_name: Seq<char>,
    ino: u64,
)
    requires
        tree.consistent(),
        tree.child(old_parent, old_name) == Some(ino),
        tree.rename(old_parent, old_name, new_parent, new_name).1 is Ok,
    ensures
        ({
            let after = tree.rename(old_parent, old_name, new_parent, new_name).0;
            let replaced = tree.child(new_parent, new_name);
            &&& after.last_id == tree.last_id
            &&& after.inodes[ino].parent == new_parent && after.inodes[ino].name == new_name
            &&& forall|i: u64| #[trigger]
                after.inodes.contains_key(i) <==> tree.inodes.contains_key(i)
            &&& forall|i: u64|
                #![trigger after.inodes[i]]
                tree.inodes.contains_key(i) ==> {
                    let was = tree.inodes[i];
                    let is = after.inodes[i];
                    &&& i != ino ==> is.parent == was.parent && is.name == was.name
                    &&& is.ino == was.ino && is.n_lookup == was.n_lookup
                    &&& is.lifecycle == was.lifecycle && is.dirty == was.dirty
                    &&& is.last_access == was.last_access && is.mark_delete == was.mark_delete
                    &&& is.dir is Some <==> was.dir is Some
                    &&& i != old_parent && i != new_parent ==> is.dir == was.dir
                    &&& replaced != Some(i) || i == ino ==> is.ref_ctr == was.ref_ctr && is.status
                        == was.status
                    &&& replaced == Some(i) && i != ino ==> is.ref_ctr == 0 && is.status == (
                    StatusView { nlink: is.status.nlink, ..was.status }) && (was.status.nlink > 0
                        ==> is.status.nlink == was.status.nlink - 1) && (was.status.nlink == 0
                        ==> is.status.nlink == 0)
                }
        }),
{
    let after = tree.rename(old_parent, old_name, new_parent, new_name).0;
    let replaced = tree.child(new_parent, new_name);
    if replaced is None || replaced == Some(ino) {
        lemma_relinked_fields(tree, ino, old_parent, old_name, new_parent, new_name);
    } else {
        let t = replaced->Some_0;
        tree_laws::law_entries_are_children(tree, new_parent, new_name);
        assert(tree.entry_holds(new_parent, new_name));
        lemma_dropped_fields(tree, new_parent, new_name, t);
        let middle = tree.without_entry(new_parent, new_name).dropped(t);
        assert(middle.inodes.contains_key(ino) && middle.inodes.contains_key(old_parent)
            && middle.inodes.contains_key(new_parent));
        assert(middle.inodes[old_parent].dir is Some && middle.inodes[new_parent].dir is Some);
        lemma_relinked_fields(middle, ino, old_parent, old_name, new_parent, new_name);
        assert forall|i: u64| #[trigger] after.inodes.contains_key(i) <==> tree.inodes.contains_key(
            i,
        ) by {
            assert(middle.inodes.contains_key(i) <==> tree.inodes.contains_key(i));
        }
        assert forall|i: u64|
            #![trigger after.inodes[i]]
            tree.inodes.contains_key(i) implies ({
            let was = middle.inodes[i];
            let is = after.inodes[i];
            is == (InodeView { parent: is.parent, name: is.name, dir: is.dir, ..was })
        }) by {
            assert(middle.inodes.contains_key(i));
        }
    }
}

/// Lookups that are given back come off the inode's count and nothing else
/// changes; what is not cached cannot be forgotten.
pub proof fn law_forget_takes_lookups_off(tree: TreeView, ino: u64, n: u64)
    ensures
        !tree.inodes.contains_key(ino) ==> tree.forget(ino, n) == (
            tree,
            Err::<(), FuseError>(FuseError::InodeNotFound { ino }),
        ),
        tree.inodes.contains_key(ino) ==> {
            let (after, answer) = tree.forget(ino, n);
            &&& answer is Ok
            &&& after.last_id == tree.last_id
            &&& forall|i: u64| #[trigger]
                after.inodes.contains_key(i) <==> tree.inodes.contains_key(i)
            &&& forall|i: u64|
                i != ino && tree.inodes.contains_key(i) ==> #[trigger] after.inodes[i]
                    == tree.inodes[i]
            &&& after.inodes[ino] == (InodeView {
                n_lookup: after.inodes[ino].n_lookup,
                ..tree.inodes[ino]
            })
            &&& n <= tree.inodes[ino].n_lookup ==> after.inodes[ino].n_lookup
                == tree.inodes[ino].n_lookup - n
            &&& n > tree.inodes[ino].n_lookup ==> after.inodes[ino].n_lookup == 0
        },
{
}

/// Giving back in two parts is giving back the sum.
pub proof fn law_forgetting_adds_up(tree: TreeView, ino: u64, a: u64, b: u64)
    requires
        a + b <= u64::MAX,
    ensures
        tree.forget(ino, a).0.forget(ino, b).0 == tree.forget(ino, (a + b) as u64).0,
{
    assert(tree.forget(ino, a).0.forget(ino, b).0.inodes =~= tree.forget(
        ino,
        (a + b) as u64,
    ).0.inodes);
}

/// Marking an inode for deletion marks it and changes nothing else; what is
/// not cached cannot be marked. An inode waits to be deleted where it is cached
/// and marked.
pub proof fn law_mark_sets_the_mark_alone(tree: TreeView, ino: u64, other: u64)
    ensures
        !tree.inodes.contains_key(ino) ==> tree.mark_delete(ino) == (
            tree,
            Err::<(), FuseError>(FuseError::InodeNotFound { ino }),
        ),
        tree.inodes.contains_key(ino) ==> {
            let (after, answer) = tree.mark_delete(ino);
            &&& answer is Ok
            &&& after.last_id == tree.last_id
            &&& forall|i: u64| #[trigger]
                after.inodes.contains_key(i) <==> tree.inodes.contains_key(i)
            &&& forall|i: u64|
                i != ino && tree.inodes.contains_key(i) ==> #[trigger] after.inodes[i]
                    == tree.inodes[i]
            &&& after.inodes[ino] == (InodeView { mark_delete: true, ..tree.inodes[ino] })
            &&& after.pending_delete(ino)
            &&& other != ino ==> after.pending_delete(other) == tree.pending_delete(other)
        },
        tree.pending_delete(other) ==> tree.inodes.contains_key(other)
            && tree.inodes[other].mark_delete,
        tree.inodes.contains_key(other) && tree.inodes[other].mark_delete ==> tree.pending_delete(
            other,
        ),
{
}

/// Giving up a cached status, of an inode or of what a name leads to, gives up
/// that one alone. Where nothing is found nothing changes.
pub proof fn law_one_status_is_given_up(tree: TreeView, ino: u64, name: Option<Seq<char>>)
    ensures
        ({
            let after = tree.invalid_cache(ino, name);
            &&& after.last_id == tree.last_id
            &&& tree.resolve(ino, name) is None ==> after == tree
            &&& tree.resolve(ino, name) matches Some(found) ==> {
                &&& forall|i: u64| #[trigger]
                    after.inodes.contains_key(i) <==> tree.inodes.contains_key(i)
                &&& forall|i: u64|
                    i != found && tree.inodes.contains_key(i) ==> #[trigger] after.inodes[i]
                        == tree.inodes[i]
                &&& tree.inodes[found].lifecycle is Cached ==> after.inodes[found].lifecycle
                    is Invalid
                &&& !(tree.inodes[found].lifecycle is Cached) ==> after.inodes[found]
                    == tree.inodes[found]
                &&& after.inodes[found].status == tree.inodes[found].status
            }
        }),
{
}

/// A reported status is taken over by the inode that it is reported for, and
/// by no other. For one that is not cached nothing happens.
pub proof fn law_status_goes_to_its_inode(tree: TreeView, ino: u64, status: StatusView, now: u64)
    ensures
        ({
            let after = tree.update_status(ino, status, now);
            &&& !tree.inodes.contains_key(ino) ==> after == tree
            &&& tree.inodes.contains_key(ino) ==> {
                &&& after.last_id == tree.last_id
                &&& forall|i: u64| #[trigger]
                    after.inodes.contains_key(i) <==> tree.inodes.contains_key(i)
                &&& forall|i: u64|
                    i != ino && tree.inodes.contains_key(i) ==> #[trigger] after.inodes[i]
                        == tree.inodes[i]
                &&& after.inodes[ino].status == status
                &&& after.inodes[ino].lifecycle is Cached
                &&& after.inodes[ino].last_access == now
                &&& after.inodes[ino].n_lookup == tree.inodes[ino].n_lookup
                &&& after.inodes[ino].ref_ctr == tree.inodes[ino].ref_ctr
                &&& after.inodes[ino].parent == tree.inodes[ino].parent
                &&& after.inodes[ino].name == tree.inodes[ino].name
                &&& after.inodes[ino].mark_delete == tree.inodes[ino].mark_delete
            }
        }),
{
}

/// A clearing lets go of the inodes without lookups and references that are
/// neither the root nor open, and of no others. The rest stays as it is.
pub proof fn law_what_a_clearing_lets_go(tree: TreeView, open: Set<u64>, ino: u64)
    ensures
        ({
            let after = tree.clear(open);
            &&& after.last_id == tree.last_id
            &&& after.inodes.contains_key(ino) ==> tree.inodes.contains_key(ino)
                && after.inodes[ino] == tree.inodes[ino]
            &&& tree.inodes.contains_key(ino) && (open.contains(ino) || tree.inodes[ino].n_lookup
                > 0 || tree.inodes[ino].ref_ctr > 0 || tree.inodes[ino].ino == 1)
                ==> after.inodes.contains_key(ino)
            &&& tree.inodes.contains_key(ino) && !open.contains(ino) && tree.inodes[ino].n_lookup
                == 0 && tree.inodes[ino].ref_ctr == 0 && tree.inodes[ino].ino != 1
                ==> !after.inodes.contains_key(ino)
        }),
{
}

/// A path is the separator alone, or every name with a separator before it: the
/// path of a name in a directory is the directory's path, a separator and the
/// name, and in the root it is the separator and the name.
pub proof fn law_paths_are_spelled_with_separators(names: Seq<Seq<char>>, name: Seq<char>)
    ensures
        names.len() == 0 ==> tree_view::path_text(names) == "/"@,
        names.len() == 0 ==> tree_view::path_text(names.push(name)) == "/"@ + name,
        names.len() > 0 ==> tree_view::path_text(names.push(name)) == tree_view::path_text(names)
            + "/"@ + name,
{
    let more = names.push(name);
    assert(more.drop_last() =~= names);
    assert(tree_view::joined(more) == tree_view::joined(names) + "/"@ + name);
    if names.len() == 0 {
        assert(tree_view::joined(names) =~= Seq::empty());
        assert(tree_view::joined(more) =~= "/"@ + name);
    }
}

/// The path of a name in a directory is the directory's path and the name. The
/// path of a cached inode other than the root is its name's path in its
/// parent, where that has one; what is not cached has none.
pub proof fn law_path_of_a_name(tree: TreeView, ino: u64, name: Seq<char>)
    ensures
        tree.path(1, None) == Ok::<Seq<char>, FuseError>("/"@),
        tree.path(1, Some(name)) == Ok::<Seq<char>, FuseError>("/"@ + name),
        ino != 1 ==> match tree.path(ino, None) {
            Ok(path) => tree.path(ino, Some(name)) == Ok::<Seq<char>, FuseError>(
                path + "/"@ + name,
            ),
            Err(e) => tree.path(ino, Some(name)) == Err::<Seq<char>, FuseError>(e),
        },
        ino != 1 && !tree.inodes.contains_key(ino) ==> tree.path(ino, None) == Err::<
            Seq<char>,
            FuseError,
        >(FuseError::InodeNotFound { ino }),
{
    law_paths_are_spelled_with_separators(Seq::empty(), name);
    if let Ok(names) = tree.names(ino) {
        law_paths_are_spelled_with_separators(names, name);
    }
}

} // verus!
