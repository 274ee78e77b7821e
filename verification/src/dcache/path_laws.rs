//! What holds of the paths in a directory tree.
use vstd::prelude::*;

use crate::dcache::inode::{FUSE_PATH_SEPARATOR, FUSE_ROOT_ID};
use crate::dcache::tree_laws;
use crate::dcache::tree_view::TreeView;
use crate::error::FuseError;
use crate::status::StatusView;

verus! {

/// More steps give no other names.
proof fn lemma_more_steps(tree: TreeView, ino: u64, few: nat, many: nat)
    requires
        few <= many,
        tree.names_within(ino, few) is Ok,
    ensures
        tree.names_within(ino, many) == tree.names_within(ino, few),
    decreases few,
{
    if ino != FUSE_ROOT_ID {
        lemma_more_steps(tree, tree.inodes[ino].parent, (few - 1) as nat, (many - 1) as nat);
    }
}

/// As many steps as there are names are enough.
proof fn lemma_steps_needed(tree: TreeView, ino: u64, steps: nat)
    requires
        tree.names_within(ino, steps) is Ok,
    ensures
        tree.names_within(ino, steps)->Ok_0.len() <= steps,
        tree.names_within(ino, tree.names_within(ino, steps)->Ok_0.len()) == tree.names_within(
            ino,
            steps,
        ),
    decreases steps,
{
    if ino != FUSE_ROOT_ID {
        lemma_steps_needed(tree, tree.inodes[ino].parent, (steps - 1) as nat);
    }
}

/// An inode lies this many names below the root.
spec fn at_depth(tree: TreeView, ino: u64, depth: nat) -> bool {
    tree.names_within(ino, depth) matches Ok(names) && names.len() == depth
}

/// An inode and those above it.
spec fn line(tree: TreeView, ino: u64, depth: nat) -> Set<u64>
    decreases depth,
{
    if depth == 0 {
        set![FUSE_ROOT_ID]
    } else {
        line(tree, tree.inodes[ino].parent, (depth - 1) as nat).insert(ino)
    }
}

/// No inode comes up twice on the way to the root.
proof fn lemma_line(tree: TreeView, ino: u64, depth: nat)
    requires
        tree.inodes.contains_key(FUSE_ROOT_ID),
        at_depth(tree, ino, depth),
    ensures
        line(tree, ino, depth).finite(),
        line(tree, ino, depth).len() == depth + 1,
        line(tree, ino, depth).subset_of(tree.inodes.dom()),
        forall|x: u64| #[trigger]
            line(tree, ino, depth).contains(x) ==> exists|d: nat|
                d <= depth && #[trigger] at_depth(tree, x, d),
    decreases depth,
{
    if depth == 0 {
        assert(at_depth(tree, FUSE_ROOT_ID, 0));
    } else {
        let parent = tree.inodes[ino].parent;
        let above = line(tree, parent, (depth - 1) as nat);
        lemma_line(tree, parent, (depth - 1) as nat);
        if above.contains(ino) {
            let d = choose|d: nat| d <= depth - 1 && #[trigger] at_depth(tree, ino, d);
            lemma_more_steps(tree, ino, d, depth);
            assert(false);
        }
        assert forall|x: u64| #[trigger] line(tree, ino, depth).contains(x) implies exists|d: nat|
            d <= depth && #[trigger] at_depth(tree, x, d) by {
            if x == ino {
                assert(at_depth(tree, x, depth));
            } else {
                assert(above.contains(x));
                let d = choose|d: nat| d <= depth - 1 && #[trigger] at_depth(tree, x, d);
                assert(at_depth(tree, x, d));
            }
        }
    }
}

/// The names of an inode that has any are fewer than there are inodes.
proof fn lemma_room_for_one_more(tree: TreeView, ino: u64, steps: nat)
    requires
        tree.consistent(),
        tree.names_within(ino, steps) is Ok,
    ensures
        tree.names_within(ino, steps)->Ok_0.len() < tree.inodes.len(),
{
    let depth = tree.names_within(ino, steps)->Ok_0.len();
    lemma_steps_needed(tree, ino, steps);
    lemma_line(tree, ino, depth);
    vstd::set_lib::lemma_len_subset(line(tree, ino, depth), tree.inodes.dom());
}

/// The limit on the way up to the root never cuts a path short: an inode from
/// which the root can be reached at all has its names.
pub proof fn law_limit_never_cuts_a_path_short(tree: TreeView, ino: u64, steps: nat)
    requires
        tree.consistent(),
        tree.names_within(ino, steps) is Ok,
    ensures
        tree.names(ino) == tree.names_within(ino, steps),
{
    lemma_room_for_one_more(tree, ino, steps);
    lemma_steps_needed(tree, ino, steps);
    lemma_more_steps(
        tree,
        ino,
        tree.names_within(ino, steps)->Ok_0.len(),
        tree.inodes.len(),
    );
}

/// The path of the root is the separator alone.
pub proof fn law_path_of_the_root(tree: TreeView)
    ensures
        tree.path(FUSE_ROOT_ID, None) == Ok::<Seq<char>, FuseError>(
            FUSE_PATH_SEPARATOR@,
        ),
{
}

/// What a name in a directory leads to has the path that the name has in the
/// directory.
pub proof fn law_path_of_a_child(tree: TreeView, parent: u64, name: Seq<char>)
    requires
        tree.consistent(),
        tree.names(parent) is Ok,
        tree.child(parent, name) is Some,
    ensures
        tree.path(tree.child(parent, name)->Some_0, None) == tree.path(parent, Some(name)),
{
    let ino = tree.child(parent, name)->Some_0;
    let total = tree.inodes.len();
    tree_laws::law_entries_are_children(tree, parent, name);
    assert(tree.entry_holds(parent, name));
    lemma_room_for_one_more(tree, parent, total);
    lemma_steps_needed(tree, parent, total);
    let depth = tree.names(parent)->Ok_0.len();
    lemma_more_steps(tree, parent, depth, (total - 1) as nat);
    assert(tree.names(ino) == Ok::<Seq<Seq<char>>, FuseError>(
        tree.names(parent)->Ok_0.push(name),
    ));
}

/// Inodes that stay where they are keep their names.
proof fn lemma_same_places(before: TreeView, after: TreeView, ino: u64, steps: nat)
    requires
        before.names_within(ino, steps) is Ok,
        forall|i: u64| #[trigger]
            before.inodes.contains_key(i) ==> after.inodes.contains_key(i)
                && after.inodes[i].parent == before.inodes[i].parent && after.inodes[i].name
                == before.inodes[i].name,
    ensures
        after.names_within(ino, steps) == before.names_within(ino, steps),
    decreases steps,
{
    if ino != FUSE_ROOT_ID {
        lemma_same_places(before, after, before.inodes[ino].parent, (steps - 1) as nat);
    }
}

/// A lookup leaves every path as it was.
pub proof fn law_lookup_keeps_paths(
    tree: TreeView,
    parent: u64,
    name: Seq<char>,
    status: StatusView,
    now: u64,
    ino: u64,
)
    requires
        tree.consistent(),
        tree.last_id < u64::MAX,
        tree.names(ino) is Ok,
    ensures
        tree.lookup(parent, name, status, now).0.names(ino) == tree.names(ino),
{
    tree_laws::law_lookup_keeps_consistency(tree, parent, name, status, now);
    tree_laws::law_numbers_are_fresh(tree, status.id);
    let after = tree.lookup(parent, name, status, now).0;
    lemma_same_places(tree, after, ino, tree.inodes.len());
    law_limit_never_cuts_a_path_short(after, ino, tree.inodes.len());
}

/// What a lookup answers with has the path of the name that was looked up.
pub proof fn law_path_of_what_was_looked_up(
    tree: TreeView,
    parent: u64,
    name: Seq<char>,
    status: StatusView,
    now: u64,
)
    requires
        tree.consistent(),
        tree.last_id < u64::MAX,
        tree.names(parent) is Ok,
        tree.lookup(parent, name, status, now).1 is Ok,
    ensures
        ({
            let (after, answer) = tree.lookup(parent, name, status, now);
            after.path(answer->Ok_0, None) == tree.path(parent, Some(name))
        }),
{
    let (after, answer) = tree.lookup(parent, name, status, now);
    let ino = answer->Ok_0;
    tree_laws::law_lookup_keeps_consistency(tree, parent, name, status, now);
    law_lookup_keeps_paths(tree, parent, name, status, now, parent);
    if ino == parent {
        // A directory that is its own entry has no path.
        tree_laws::law_entries_are_children(tree, parent, name);
        tree_laws::law_numbers_are_fresh(tree, status.id);
        assert(tree.entry_holds(parent, name));
        lemma_own_parent(tree, parent, tree.inodes.len());
    }
    law_path_of_a_child(after, parent, name);
}

/// From an inode that is its own parent the root cannot be reached.
proof fn lemma_own_parent(tree: TreeView, ino: u64, steps: nat)
    requires
        ino != FUSE_ROOT_ID,
        tree.inodes[ino].parent == ino,
    ensures
        tree.names_within(ino, steps) is Err,
    decreases steps,
{
    if steps > 0 {
        lemma_own_parent(tree, ino, (steps - 1) as nat);
    }
}

/// Removing an entry leaves every path as it was, also that of the inode that
/// lost it.
pub proof fn law_unlink_keeps_paths(tree: TreeView, parent: u64, name: Seq<char>, ino: u64)
    requires
        tree.consistent(),
        tree.names(ino) is Ok,
    ensures
        tree.unlink(parent, name).0.names(ino) == tree.names(ino),
{
    let after = tree.unlink(parent, name).0;
    tree_laws::law_unlink_keeps_consistency(tree, parent, name);
    lemma_same_places(tree, after, ino, tree.inodes.len());
}

impl TreeView {
    /// The way up from an inode passes another one within so many steps.
    pub open spec fn passes(self, from: u64, ino: u64, steps: nat) -> bool
        decreases steps,
    {
        from == ino || (from != FUSE_ROOT_ID && steps > 0 && self.passes(
            self.inodes[from].parent,
            ino,
            (steps - 1) as nat,
        ))
    }
}

/// Where only one inode has another place, those that do not lie below it
/// keep their names.
proof fn lemma_one_moved(before: TreeView, after: TreeView, moved: u64, ino: u64, steps: nat)
    requires
        before.names_within(ino, steps) is Ok,
        !before.passes(ino, moved, steps),
        forall|i: u64| #[trigger]
            before.inodes.contains_key(i) && i != moved ==> after.inodes.contains_key(i)
                && after.inodes[i].parent == before.inodes[i].parent && after.inodes[i].name
                == before.inodes[i].name,
    ensures
        after.names_within(ino, steps) == before.names_within(ino, steps),
    decreases steps,
{
    if ino != FUSE_ROOT_ID {
        lemma_one_moved(before, after, moved, before.inodes[ino].parent, (steps - 1) as nat);
    }
}

/// Moving an entry leaves the path of everything that does not lie below it
/// as it was.
pub proof fn law_rename_keeps_other_paths(
    tree: TreeView,
    old_parent: u64,
    old_name: Seq<char>,
    new_parent: u64,
    new_name: Seq<char>,
    ino: u64,
)
    requires
        tree.consistent(),
        tree.names(ino) is Ok,
        tree.child(old_parent, old_name) matches Some(moved) ==> !tree.passes(
            ino,
            moved,
            tree.inodes.len(),
        ),
    ensures
        tree.rename(old_parent, old_name, new_parent, new_name).0.names(ino) == tree.names(ino),
{
    let (after, answer) = tree.rename(old_parent, old_name, new_parent, new_name);
    tree_laws::law_rename_keeps_consistency(tree, old_parent, old_name, new_parent, new_name);
    if answer is Ok {
        let moved = tree.child(old_parent, old_name)->Some_0;
        lemma_one_moved(tree, after, moved, ino, tree.inodes.len());
    }
}

/// What was moved has the path of its new name, unless it was moved to a
/// place below itself.
pub proof fn law_path_of_what_was_moved(
    tree: TreeView,
    old_parent: u64,
    old_name: Seq<char>,
    new_parent: u64,
    new_name: Seq<char>,
)
    requires
        tree.consistent(),
        tree.rename(old_parent, old_name, new_parent, new_name).1 is Ok,
        tree.names(new_parent) is Ok,
        !tree.passes(
            new_parent,
            tree.child(old_parent, old_name)->Some_0,
            tree.inodes.len(),
        ),
    ensures
        ({
            let after = tree.rename(old_parent, old_name, new_parent, new_name).0;
            after.path(tree.child(old_parent, old_name)->Some_0, None) == tree.path(
                new_parent,
                Some(new_name),
            )
        }),
{
    tree_laws::law_rename_keeps_consistency(tree, old_parent, old_name, new_parent, new_name);
    law_rename_keeps_other_paths(tree, old_parent, old_name, new_parent, new_name, new_parent);
    let after = tree.rename(old_parent, old_name, new_parent, new_name).0;
    law_path_of_a_child(after, new_parent, new_name);
}

impl TreeView {
    /// Entries lead from the root down to an inode, within so many steps.
    pub open spec fn attached(self, ino: u64, steps: nat) -> bool
        decreases steps,
    {
        ino == FUSE_ROOT_ID || (self.inodes.contains_key(ino) && steps > 0 && self.child(
            self.inodes[ino].parent,
            self.inodes[ino].name,
        ) == Some(ino) && self.attached(self.inodes[ino].parent, (steps - 1) as nat))
    }
}

/// The same entries lead to an inode after a clearing.
proof fn lemma_clear_attached(tree: TreeView, open: Set<u64>, ino: u64, steps: nat)
    requires
        tree.consistent(),
        tree.attached(ino, steps),
    ensures
        tree.names_within(ino, steps) is Ok,
        tree.clear(open).inodes.contains_key(ino),
        tree.clear(open).attached(ino, steps),
        tree.clear(open).names_within(ino, steps) == tree.names_within(ino, steps),
    decreases steps,
{
    tree_laws::law_clear_keeps_what_is_used(tree, open);
    if ino != FUSE_ROOT_ID {
        let parent = tree.inodes[ino].parent;
        let name = tree.inodes[ino].name;
        lemma_clear_attached(tree, open, parent, (steps - 1) as nat);
        tree_laws::law_entries_are_children(tree, parent, name);
        assert(tree.entry_holds(parent, name));
        assert(tree.clear(open).child(parent, name) == Some(ino));
    }
}

/// What entries lead to from the root has a path, and a clearing changes
/// neither.
pub proof fn law_clear_keeps_paths(tree: TreeView, open: Set<u64>, ino: u64, steps: nat)
    requires
        tree.consistent(),
        tree.attached(ino, steps),
    ensures
        tree.names(ino) is Ok,
        tree.clear(open).attached(ino, steps),
        tree.clear(open).names(ino) == tree.names(ino),
{
    tree_laws::law_clear_keeps_what_is_used(tree, open);
    lemma_clear_attached(tree, open, ino, steps);
    law_limit_never_cuts_a_path_short(tree, ino, steps);
    law_limit_never_cuts_a_path_short(tree.clear(open), ino, steps);
}

/// A cached inode other than the root has the path of its own name in its
/// parent, where the parent has one. Where the parent has none it has none
/// either, and where the parent is not cached that is the reason.
pub proof fn law_path_goes_through_the_parent(tree: TreeView, ino: u64)
    requires
        tree.consistent(),
        tree.inodes.contains_key(ino),
        ino != 1,
    ensures
        ({
            let parent = tree.inodes[ino].parent;
            let name = tree.inodes[ino].name;
            &&& tree.path(parent, None) is Ok ==> tree.path(ino, None) == tree.path(
                parent,
                Some(name),
            )
            &&& tree.path(parent, None) is Err ==> tree.path(ino, None) is Err
            &&& parent != 1 && !tree.inodes.contains_key(parent) ==> tree.path(ino, None) == Err::<
                Seq<char>,
                FuseError,
            >(FuseError::InodeNotFound { ino: parent })
        }),
{
    let parent = tree.inodes[ino].parent;
    let total = tree.inodes.len();
    assert(tree.inodes.dom().len() > 0) by {
        vstd::set_lib::lemma_len_subset(set![ino], tree.inodes.dom());
    }
    if tree.names(parent) is Ok {
        lemma_room_for_one_more(tree, parent, total);
        lemma_steps_needed(tree, parent, total);
        let depth = tree.names(parent)->Ok_0.len();
        lemma_more_steps(tree, parent, depth, (total - 1) as nat);
    } else if tree.names(ino) is Ok {
        lemma_more_steps(tree, parent, (total - 1) as nat, total);
    }
}

/// The reason why an inode has no path: on its way up is an inode that is not
/// cached, or the way leads in a circle.
pub proof fn law_why_there_is_no_path(tree: TreeView, ino: u64, steps: nat)
    ensures
        tree.names_within(ino, steps) matches Err(e) ==> match e {
            FuseError::InodeNotFound { ino: missing } => missing != 1
                && !tree.inodes.contains_key(missing) && tree.passes(ino, missing, steps),
            FuseError::BrokenPath { ino: last } => last != 1 && tree.inodes.contains_key(last)
                && tree.passes(ino, last, steps),
            _ => false,
        },
    decreases steps,
{
    if ino != FUSE_ROOT_ID && tree.inodes.contains_key(ino) && steps > 0 {
        law_why_there_is_no_path(tree, tree.inodes[ino].parent, (steps - 1) as nat);
    }
}

} // verus!
