//! What holds of the daemon's state whatever is asked of it.
use vstd::prelude::*;

use crate::dcache::path_laws;
use crate::dcache::tree_laws;
use crate::error::{FuseError, FuseResult};
use crate::persist::handle::{SavedDirHandleView, SavedHandleView};
use crate::persist::state_file;
use crate::persist::state_file::ImageView;
use crate::record::Record;
use crate::state::dir_handle::DirHandleView;
use crate::state::file_handle::FileHandleView;
use crate::state::handle_table;
use crate::state::node_state;
use crate::state::node_view;
use crate::state::node_view::{DirHandles, FileHandles, FuseConf, NodeView, Reopened};
use crate::state::opening::OpeningView;
use crate::status::{LockFlags, OpenFlags, StatusView};

verus! {

impl NodeView {
    /// The tree is in order, handles are found under their own numbers, no
    /// number is above the last one given out, and an inode has one writer at
    /// most.
    pub open spec fn orderly(self) -> bool {
        &&& self.tree.consistent()
        &&& self.keyed()
        &&& self.numbered()
        &&& node_view::one_writer(self.handles)
    }
}

/// A daemon starts in order, with nothing that could not be saved.
pub proof fn law_initial_state_is_orderly(conf: FuseConf, now: u64)
    ensures
        NodeView::initial(conf, now).orderly(),
        NodeView::initial(conf, now).storable(),
{
    tree_laws::law_initial_tree_is_consistent(now);
}

/// In a state that is in order an inode's writer is settled: whichever handle
/// is asked, it is the same.
pub proof fn law_writer_of_an_inode_is_settled(state: NodeView, ino: u64, a: u64, b: u64)
    requires
        state.orderly(),
        node_view::is_writer_of(state.handles, ino, a),
        node_view::is_writer_of(state.handles, ino, b),
    ensures
        a == b,
{
}

/// Closing a file that was just opened leaves the open files as they were,
/// whatever number it got, unless the number was in use.
pub proof fn law_close_undoes_open(
    before: NodeView,
    after: NodeView,
    opening: OpeningView,
    status: StatusView,
    ino: u64,
    fh: u64,
)
    requires
        node_state::installed(before, after, opening, status, ino, fh),
        !before.handles.contains_key((ino, fh)),
    ensures
        after.handles.contains_key((ino, fh)),
        after.handles.remove((ino, fh)) == before.handles,
        after.dir_handles == before.dir_handles,
{
    assert(after.handles.remove((ino, fh)) =~= before.handles);
}

/// An open file has what its access mode asks for: one that is only read a
/// reader and no writer, one that is only written a writer and no reader, and
/// one that is both a writer, with a reader unless the writer is one that
/// cannot be read beside.
pub proof fn law_open_file_fits_its_mode(
    before: NodeView,
    after: NodeView,
    opening: OpeningView,
    status: StatusView,
    ino: u64,
    fh: u64,
)
    requires
        opening.sound(),
        opening.action is Install,
        node_state::installed(before, after, opening, status, ino, fh),
    ensures
        after.handles[(ino, fh)] is Backend,
        ({
            let mode = opening.flags.spec_access_mode();
            let handle = after.handles[(ino, fh)]->Backend_0;
            &&& handle.reader == opening.reader_id()
            &&& mode == OpenFlags::RDONLY || mode == OpenFlags::WRONLY || mode == OpenFlags::RDWR
            &&& mode == OpenFlags::RDONLY ==> handle.reader is Some && handle.writer is None
            &&& mode == OpenFlags::WRONLY ==> handle.reader is None && handle.writer is Some
            &&& mode == OpenFlags::RDWR ==> handle.writer is Some && (handle.reader is Some
                <==> !opening.writer->Some_0.is_ufs)
        }),
{
}

/// Opening a file keeps the state in order. The new handle takes no other
/// one's place and shares the writer that the inode has already.
pub proof fn law_open_keeps_order(
    before: NodeView,
    after: NodeView,
    opening: OpeningView,
    status: StatusView,
    ino: u64,
    fh: u64,
)
    requires
        before.orderly(),
        before.last_fh < u64::MAX,
        before.tree.last_id < u64::MAX,
        node_state::installed(before, after, opening, status, ino, fh),
    ensures
        after.orderly(),
        before.storable() ==> after.storable(),
        !before.handles.contains_key((ino, fh)),
        opening.writer_id() is Some ==> forall|w: u64| #[trigger]
            node_view::is_writer_of(before.handles, ino, w) ==> after.handles[(
                ino,
                fh,
            )].writer() == Some(w),
{
    tree_laws::law_numbers_are_fresh(before.tree, status.id);
    let chosen = after.handles[(ino, fh)].writer();
    assert forall|n: u64|
        before.handles.contains_key((ino, n)) && before.handles[(ino, n)].writer() is Some
            && chosen is Some implies #[trigger] before.handles[(ino, n)].writer() == chosen by {
        assert(before.handles.contains_key((ino, n)));
    }
    assert forall|i: u64, a: u64, b: u64|
        #![trigger after.handles.contains_key((i, a)), after.handles.contains_key((i, b))]
        after.handles.contains_key((i, a)) && after.handles.contains_key((i, b))
            && after.handles[(i, a)].writer() is Some && after.handles[(
            i,
            b,
        )].writer() is Some implies after.handles[(i, a)].writer() == after.handles[(
        i,
        b,
    )].writer() by {
        if !(i == ino && a == fh) {
            assert(before.handles.contains_key((i, a)));
        }
        if !(i == ino && b == fh) {
            assert(before.handles.contains_key((i, b)));
        }
    }
    assert(after.keyed()) by {
        assert forall|k: (u64, u64)| #[trigger] after.handles.contains_key(k) implies (
        after.handles[k].ino() == k.0 && after.handles[k].fh() == k.1) by {
            if k != (ino, fh) {
                assert(before.handles.contains_key(k));
            }
        }
    }
    assert(after.numbered()) by {
        assert forall|k: (u64, u64)| #[trigger] after.handles.contains_key(k) implies k.1
            <= after.last_fh by {
            if k != (ino, fh) {
                assert(before.handles.contains_key(k));
            }
        }
        assert forall|k: (u64, u64)| #[trigger] after.dir_handles.contains_key(k) implies k.1
            <= after.last_fh by {
            assert(before.dir_handles.contains_key(k));
        }
    }
    if opening.writer_id() is Some {
        assert forall|w: u64| #[trigger]
            node_view::is_writer_of(before.handles, ino, w) implies chosen == Some(w) by {
            let n = choose|n: u64| #[trigger]
                before.handles.contains_key((ino, n)) && before.handles[(ino, n)].writer() == Some(
                    w,
                );
            assert(node_view::is_written(before.handles, ino));
            assert(before.handles[(ino, n)].writer() == chosen);
        }
    }
}

/// Closing a file or a directory keeps the state in order.
pub proof fn law_close_keeps_order(state: NodeView, ino: u64, fh: u64)
    requires
        state.orderly(),
    ensures
        (NodeView { handles: state.handles.remove((ino, fh)), ..state }).orderly(),
        (NodeView { dir_handles: state.dir_handles.remove((ino, fh)), ..state }).orderly(),
        state.storable() ==> (NodeView {
            handles: state.handles.remove((ino, fh)),
            ..state
        }).storable(),
{
    let closed = NodeView { handles: state.handles.remove((ino, fh)), ..state };
    assert forall|i: u64, a: u64, b: u64|
        #![trigger closed.handles.contains_key((i, a)), closed.handles.contains_key((i, b))]
        closed.handles.contains_key((i, a)) && closed.handles.contains_key((i, b))
            && closed.handles[(i, a)].writer() is Some && closed.handles[(
            i,
            b,
        )].writer() is Some implies closed.handles[(i, a)].writer() == closed.handles[(
        i,
        b,
    )].writer() by {
        assert(state.handles.contains_key((i, a)));
        assert(state.handles.contains_key((i, b)));
    }
}

/// Closing a directory that was just opened leaves the open directories as
/// they were, whatever number it got, unless the number was in use.
pub proof fn law_close_undoes_open_dir(before: NodeView, ino: u64, path: Seq<char>, stream: u64)
    requires
        !before.dir_handles.contains_key((ino, node_view::next_number(before.last_fh))),
    ensures
        ({
            let after = before.with_dir_handle(ino, path, stream);
            let fh = node_view::next_number(before.last_fh);
            &&& after.dir_handles.contains_key((ino, fh))
            &&& after.dir_handles.remove((ino, fh)) == before.dir_handles
            &&& after.handles == before.handles
        }),
{
    let after = before.with_dir_handle(ino, path, stream);
    let fh = node_view::next_number(before.last_fh);
    assert(after.dir_handles.remove((ino, fh)) =~= before.dir_handles);
}

/// Opening a directory keeps the state in order. The new handle takes no
/// other one's place.
pub proof fn law_open_dir_keeps_order(before: NodeView, ino: u64, path: Seq<char>, stream: u64)
    requires
        before.orderly(),
        before.last_fh < u64::MAX,
    ensures
        before.with_dir_handle(ino, path, stream).orderly(),
        !before.dir_handles.contains_key((ino, node_view::next_number(before.last_fh))),
{
    let after = before.with_dir_handle(ino, path, stream);
    let fh = node_view::next_number(before.last_fh);
    assert forall|k: (u64, u64)| #[trigger] after.handles.contains_key(k) implies k.1
        <= after.last_fh by {
        assert(before.handles.contains_key(k));
    }
    assert forall|k: (u64, u64)| #[trigger] after.dir_handles.contains_key(k) implies k.1
        <= after.last_fh && after.dir_handles[k].ino == k.0 && after.dir_handles[k].fh == k.1 by {
        if k != (ino, fh) {
            assert(before.dir_handles.contains_key(k));
        }
    }
}

/// Taking or giving up a lock keeps the state in order, and no other handle
/// changes.
pub proof fn law_lock_keeps_order(
    state: NodeView,
    ino: u64,
    fh: u64,
    typ: LockFlags,
    owner: Option<u64>,
)
    requires
        state.orderly(),
        state.handles.contains_key((ino, fh)),
        state.handles[(ino, fh)] is Backend,
    ensures
        state.with_lock(ino, fh, typ, owner).orderly(),
        state.storable() ==> state.with_lock(ino, fh, typ, owner).storable(),
        forall|k: (u64, u64)|
            k != (ino, fh) && state.handles.contains_key(k) ==> #[trigger] state.with_lock(
                ino,
                fh,
                typ,
                owner,
            ).handles[k] == state.handles[k],
{
    let after = state.with_lock(ino, fh, typ, owner);
    assert forall|k: (u64, u64)| #[trigger] after.handles.contains_key(k) implies (
    state.handles.contains_key(k) && after.handles[k].writer() == state.handles[k].writer()
        && after.handles[k].ino() == state.handles[k].ino() && after.handles[k].fh()
        == state.handles[k].fh() && (state.handles[k] is Backend ==> after.handles[k] is Backend))
        by {
        assert(state.handles.contains_key(k));
    }
    assert(node_view::one_writer(after.handles)) by {
        assert forall|i: u64, a: u64, b: u64|
            #![trigger after.handles.contains_key((i, a)), after.handles.contains_key((i, b))]
            after.handles.contains_key((i, a)) && after.handles.contains_key((i, b))
                && after.handles[(i, a)].writer() is Some && after.handles[(
                i,
                b,
            )].writer() is Some implies after.handles[(i, a)].writer() == after.handles[(
            i,
            b,
        )].writer() by {
            assert(state.handles.contains_key((i, a)));
            assert(state.handles.contains_key((i, b)));
        }
    }
}

/// A lookup keeps the state in order. It answers with an inode that the name
/// leads to, under the path that the name has, wherever entries lead to the
/// directory.
pub proof fn law_lookup_keeps_order(
    state: NodeView,
    parent: u64,
    name: Seq<char>,
    status: StatusView,
    now: u64,
    steps: nat,
)
    requires
        state.orderly(),
        state.tree.last_id < u64::MAX,
    ensures
        ({
            let open = handle_table::open_inodes(state.handles);
            let (tree, answer) = state.tree.clear(open).lookup(parent, name, status, now);
            &&& state.with_tree(tree).orderly()
            &&& answer is Ok && state.tree.attached(parent, steps) ==> tree.path(
                answer->Ok_0,
                None,
            ) == state.tree.path(parent, Some(name)) && tree.inodes[answer->Ok_0].status == status
        }),
{
    let open = handle_table::open_inodes(state.handles);
    let cleared = state.tree.clear(open);
    let (tree, answer) = cleared.lookup(parent, name, status, now);
    tree_laws::law_clear_keeps_what_is_used(state.tree, open);
    tree_laws::law_lookup_keeps_consistency(cleared, parent, name, status, now);
    if answer is Ok && state.tree.attached(parent, steps) {
        path_laws::law_clear_keeps_paths(state.tree, open, parent, steps);
        path_laws::law_path_of_what_was_looked_up(cleared, parent, name, status, now);
    }
}

/// A request that changes the tree alone keeps the state in order where it
/// keeps the tree in order. Removing and moving entries, forgetting, marking,
/// giving up a cached status and taking over a new one do.
pub proof fn law_tree_requests_keep_order(
    state: NodeView,
    a: u64,
    a_name: Seq<char>,
    b: u64,
    b_name: Seq<char>,
    status: StatusView,
    now: u64,
)
    requires
        state.orderly(),
    ensures
        state.with_tree(state.tree.unlink(a, a_name).0).orderly(),
        state.with_tree(state.tree.rename(a, a_name, b, b_name).0).orderly(),
        state.with_tree(state.tree.forget(a, b).0).orderly(),
        state.with_tree(state.tree.mark_delete(a).0).orderly(),
        state.with_tree(state.tree.invalid_cache(a, None)).orderly(),
        state.with_tree(state.tree.invalid_cache(a, Some(a_name))).orderly(),
        state.with_tree(state.tree.update_status(a, status, now)).orderly(),
{
    tree_laws::law_unlink_keeps_consistency(state.tree, a, a_name);
    tree_laws::law_rename_keeps_consistency(state.tree, a, a_name, b, b_name);
    tree_laws::law_inode_changes_keep_consistency(state.tree, a, None, b, status, now);
    tree_laws::law_inode_changes_keep_consistency(state.tree, a, Some(a_name), b, status, now);
}

/// Keeping a reader on a handle keeps the state in order.
pub proof fn law_reader_keeps_order(state: NodeView, ino: u64, fh: u64, reader: u64)
    requires
        state.orderly(),
        state.handles.contains_key((ino, fh)),
    ensures
        state.with_reader(ino, fh, reader).orderly(),
        state.storable() ==> state.with_reader(ino, fh, reader).storable(),
{
    let after = state.with_reader(ino, fh, reader);
    assert forall|i: u64, a: u64, b: u64|
        #![trigger after.handles.contains_key((i, a)), after.handles.contains_key((i, b))]
        after.handles.contains_key((i, a)) && after.handles.contains_key((i, b))
            && after.handles[(i, a)].writer() is Some && after.handles[(
            i,
            b,
        )].writer() is Some implies after.handles[(i, a)].writer() == after.handles[(
        i,
        b,
    )].writer() by {
        assert(state.handles.contains_key((i, a)));
        assert(state.handles.contains_key((i, b)));
    }
    assert forall|k: (u64, u64)| #[trigger] after.handles.contains_key(k) implies (
    state.handles.contains_key(k) && after.handles[k].ino() == state.handles[k].ino()
        && after.handles[k].fh() == state.handles[k].fh()) by {
        assert(state.handles.contains_key(k));
    }
}

/// Giving out numbers keeps the state in order, as long as there are handle
/// numbers left.
pub proof fn law_numbering_keeps_order(state: NodeView, id: u64)
    requires
        state.orderly(),
    ensures
        state.with_tree(state.tree.with_id(id)).orderly(),
        state.last_fh < u64::MAX ==> (NodeView {
            last_fh: node_view::next_number(state.last_fh),
            ..state
        }).orderly(),
{
    let tree = state.tree.with_id(id);
    assert forall|ino: u64| #[trigger] tree.inodes.contains_key(ino) implies tree.inode_holds(
        ino,
    ) by {
        assert(state.tree.inodes.contains_key(ino));
        assert(state.tree.inode_holds(ino));
    }
    assert forall|p: u64, n: Seq<char>| #[trigger]
        tree.has_entry(p, n) implies tree.entry_holds(p, n) by {
        assert(state.tree.has_entry(p, n));
        assert(state.tree.entry_holds(p, n));
    }
    if state.last_fh < u64::MAX {
        let after = NodeView { last_fh: node_view::next_number(state.last_fh), ..state };
        assert forall|k: (u64, u64)| #[trigger] after.handles.contains_key(k) implies k.1
            <= after.last_fh by {
            assert(state.handles.contains_key(k));
        }
        assert forall|k: (u64, u64)| #[trigger] after.dir_handles.contains_key(k) implies k.1
            <= after.last_fh by {
            assert(state.dir_handles.contains_key(k));
        }
    }
}

/// Forgetting several inodes keeps the state in order, and what is open stays
/// as it is.
pub proof fn law_batch_forget_keeps_order(state: NodeView, nodes: Seq<(u64, u64)>)
    requires
        state.orderly(),
    ensures
        state.forget_all(nodes).orderly(),
        state.forget_all(nodes).handles == state.handles,
        state.forget_all(nodes).dir_handles == state.dir_handles,
        state.forget_all(nodes).last_fh == state.last_fh,
    decreases nodes.len(),
{
    if nodes.len() > 0 {
        law_batch_forget_keeps_order(state, nodes.drop_last());
        let before = state.forget_all(nodes.drop_last());
        tree_laws::law_inode_changes_keep_consistency(
            before.tree,
            nodes.last().0,
            None,
            nodes.last().1,
            StatusView::blank(),
            0,
        );
    }
}

/// The first keys of an order and the one behind them.
proof fn lemma_one_more(order: Seq<(u64, u64)>, last: int)
    requires
        0 <= last < order.len(),
    ensures
        order.take(last + 1).to_set() == order.take(last).to_set().insert(order[last]),
{
    let done = order.take(last);
    let next = order.take(last + 1);
    assert forall|k: (u64, u64)|
        next.to_set().contains(k) <==> done.to_set().insert(order[last]).contains(k) by {
        if next.contains(k) {
            let j = choose|j: int| 0 <= j < next.len() && next[j] == k;
            if j < last {
                assert(done[j] == k);
            }
        }
        if done.contains(k) {
            let j = choose|j: int| 0 <= j < last && done[j] == k;
            assert(next[j] == k);
        }
        assert(next[last] == order[last]);
    }
    assert(next.to_set() =~= done.to_set().insert(order[last]));
}

/// Handles that were saved in some order and opened again, after the first
/// `n` were put back.
proof fn lemma_handles_put_back(
    handles: FileHandles,
    order: Seq<(u64, u64)>,
    reopened: Seq<Option<Reopened>>,
    n: nat,
)
    requires
        n <= order.len(),
        order.no_duplicates(),
        reopened.len() == order.len(),
        forall|i: int| 0 <= i < reopened.len() ==> #[trigger] reopened[i] is Some,
        forall|i: int|
            0 <= i < order.len() ==> handles[#[trigger] order[i]] is Backend
                && handles[order[i]].ino() == order[i].0 && handles[order[i]].fh() == order[i].1,
    ensures
        ({
            let saved = state_file::all_some(node_view::saved_handles(handles, order));
            let m = node_view::with_saved(Map::empty(), saved, reopened, n);
            &&& m.dom() == order.take(n as int).to_set()
            &&& forall|i: int|
                0 <= i < n ==> m[#[trigger] order[i]] == FileHandleView::Backend(
                    SavedHandleView::of(handles[order[i]]->Backend_0).reopened(
                        reopened[i]->Some_0.reader,
                        reopened[i]->Some_0.writer,
                    ),
                )
        }),
    decreases n,
{
    let saved = state_file::all_some(node_view::saved_handles(handles, order));
    let m = node_view::with_saved(Map::empty(), saved, reopened, n);
    if n == 0 {
        assert(m.dom() =~= order.take(0).to_set());
    } else {
        let last = n - 1;
        lemma_handles_put_back(handles, order, reopened, last as nat);
        let before = node_view::with_saved(Map::empty(), saved, reopened, last as nat);
        assert(reopened[last] is Some);
        assert(handles[order[last]] is Backend);
        assert(m.dom() =~= before.dom().insert(order[last]));
        lemma_one_more(order, last);
    }
}

/// Directories that were saved in some order and listed again, after the
/// first `n` were put back.
proof fn lemma_dirs_put_back(
    dirs: DirHandles,
    order: Seq<(u64, u64)>,
    listings: Seq<FuseResult<u64>>,
    n: nat,
)
    requires
        n <= order.len(),
        order.no_duplicates(),
        listings.len() == order.len(),
        forall|i: int| 0 <= i < listings.len() ==> #[trigger] listings[i] is Ok,
        forall|i: int|
            0 <= i < order.len() ==> dirs[#[trigger] order[i]].ino == order[i].0
                && dirs[order[i]].fh == order[i].1,
    ensures
        ({
            let saved = node_view::saved_dirs(dirs, order);
            let (m, error) = node_view::with_saved_dirs(Map::empty(), saved, listings, n);
            &&& error is None
            &&& m.dom() == order.take(n as int).to_set()
            &&& forall|i: int|
                0 <= i < n ==> m[#[trigger] order[i]] == SavedDirHandleView::of(
                    dirs[order[i]],
                ).reopened(listings[i]->Ok_0)
        }),
    decreases n,
{
    let saved = node_view::saved_dirs(dirs, order);
    let (m, error) = node_view::with_saved_dirs(Map::empty(), saved, listings, n);
    if n == 0 {
        assert(m.dom() =~= order.take(0).to_set());
    } else {
        let last = n - 1;
        lemma_dirs_put_back(dirs, order, listings, last as nat);
        let before = node_view::with_saved_dirs(Map::empty(), saved, listings, last as nat).0;
        assert(listings[last] is Ok);
        assert(dirs[order[last]].ino == order[last].0);
        assert(m.dom() =~= before.dom().insert(order[last]));
        lemma_one_more(order, last);
    }
}

/// A state file that was written and read back into a daemon without open
/// handles gives the tree, the last handle number, and every open file and
/// directory as it was, but for the readers, writers and listings: those are
/// the ones that were opened again.
pub proof fn law_restore_undoes_persist(
    state: NodeView,
    image: ImageView,
    order: Seq<(u64, u64)>,
    dir_order: Seq<(u64, u64)>,
    start: NodeView,
    reopened: Seq<Option<Reopened>>,
    listings: Seq<FuseResult<u64>>,
)
    requires
        state.storable(),
        state.keyed(),
        state.saved_as(image, order, dir_order),
        start.handles == Map::<(u64, u64), FileHandleView>::empty(),
        start.dir_handles == Map::<(u64, u64), DirHandleView>::empty(),
        reopened.len() == order.len(),
        forall|i: int| 0 <= i < reopened.len() ==> #[trigger] reopened[i] is Some,
        listings.len() == dir_order.len(),
        forall|i: int| 0 <= i < listings.len() ==> #[trigger] listings[i] is Ok,
    ensures
        ({
            let (after, answer) = start.restored(image, reopened, listings);
            &&& answer == Ok::<(), FuseError>(())
            &&& after.tree == state.tree
            &&& after.last_fh == state.last_fh
            &&& after.conf == start.conf
            &&& after.handles.dom() == state.handles.dom()
            &&& forall|i: int|
                0 <= i < order.len() ==> after.handles[#[trigger] order[i]]
                    == FileHandleView::Backend(
                    SavedHandleView::of(state.handles[order[i]]->Backend_0).reopened(
                        reopened[i]->Some_0.reader,
                        reopened[i]->Some_0.writer,
                    ),
                )
            &&& after.dir_handles.dom() == state.dir_handles.dom()
            &&& forall|i: int|
                0 <= i < dir_order.len() ==> after.dir_handles[#[trigger] dir_order[i]]
                    == SavedDirHandleView::of(state.dir_handles[dir_order[i]]).reopened(
                    listings[i]->Ok_0,
                )
            &&& after.storable()
            &&& after.keyed()
            &&& state.numbered() ==> after.numbered()
        }),
{
    let (after, answer) = start.restored(image, reopened, listings);
    assert forall|i: int| 0 <= i < order.len() implies state.handles[#[trigger] order[i]] is Backend
        && state.handles[order[i]].ino() == order[i].0 && state.handles[order[i]].fh()
        == order[i].1 by {
        assert(order.to_set().contains(order[i]));
        assert(state.handles.contains_key(order[i]));
    }
    assert forall|i: int| 0 <= i < dir_order.len() implies state.dir_handles[#[trigger]
    dir_order[i]].ino == dir_order[i].0 && state.dir_handles[dir_order[i]].fh
        == dir_order[i].1 by {
        assert(dir_order.to_set().contains(dir_order[i]));
        assert(state.dir_handles.contains_key(dir_order[i]));
    }
    lemma_handles_put_back(state.handles, order, reopened, order.len());
    lemma_dirs_put_back(state.dir_handles, dir_order, listings, dir_order.len());
    assert(order.take(order.len() as int) =~= order);
    assert(dir_order.take(dir_order.len() as int) =~= dir_order);
    assert(image.handles.len() == order.len());
    assert(image.dir_handles.len() == dir_order.len());
    assert forall|k: (u64, u64)| #[trigger] after.handles.contains_key(k) implies (
    after.handles[k] is Backend && after.handles[k].ino() == k.0 && after.handles[k].fh()
        == k.1) by {
        assert(order.to_set().contains(k));
        let i = choose|i: int| 0 <= i < order.len() && order[i] == k;
        assert(after.handles[order[i]] is Backend);
    }
    assert forall|k: (u64, u64)| #[trigger] after.dir_handles.contains_key(k) implies (
    after.dir_handles[k].ino == k.0 && after.dir_handles[k].fh == k.1) by {
        assert(dir_order.to_set().contains(k));
        let i = choose|i: int| 0 <= i < dir_order.len() && dir_order[i] == k;
        assert(after.dir_handles[dir_order[i]].ino == k.0);
    }
    if state.numbered() {
        assert forall|k: (u64, u64)| #[trigger] after.handles.contains_key(k) implies k.1
            <= after.last_fh by {
            assert(state.handles.contains_key(k));
        }
        assert forall|k: (u64, u64)| #[trigger] after.dir_handles.contains_key(k) implies k.1
            <= after.last_fh by {
            assert(state.dir_handles.contains_key(k));
        }
    }
}

/// A file with another mark or another version is refused: the daemon stays
/// as it is, and nothing behind the mark or the version is read.
pub proof fn law_refused_file_changes_nothing(
    start: NodeView,
    file: Seq<u8>,
    reopened: Seq<Option<Reopened>>,
    listings: Seq<FuseResult<u64>>,
)
    ensures
        file.len() >= 4 && file.take(4) != state_file::magic() ==> {
            &&& start.restored(state_file::image_of(file), reopened, listings) == (
                start,
                Err::<(), FuseError>(
                    FuseError::InvalidMagic { mark: [file[0], file[1], file[2], file[3]] },
                ),
            )
            &&& state_file::behind_state(file) == file.skip(4)
        },
        file.len() >= 4 && file.take(4) == state_file::magic() ==> (u64::parse(
            file.skip(4),
        ) matches Some((version, rest)) ==> version != state_file::STATE_FILE_VERSION ==> {
            &&& start.restored(state_file::image_of(file), reopened, listings) == (
                start,
                Err::<(), FuseError>(FuseError::UnsupportedVersion { version }),
            )
            &&& state_file::behind_state(file) == rest
        }),
{
}

/// Files that are put back are found under their own numbers, and they are
/// files of the backing file system.
proof fn lemma_files_stay_keyed(
    handles: FileHandles,
    saved: Seq<Option<SavedHandleView>>,
    reopened: Seq<Option<Reopened>>,
    n: nat,
)
    ensures
        ({
            let after = node_view::with_saved(handles, saved, reopened, n);
            &&& (forall|k: (u64, u64)| #[trigger]
                handles.contains_key(k) ==> handles[k].ino() == k.0 && handles[k].fh() == k.1) ==> (
            forall|k: (u64, u64)| #[trigger]
                after.contains_key(k) ==> after[k].ino() == k.0 && after[k].fh() == k.1)
            &&& (forall|k: (u64, u64)| #[trigger]
                handles.contains_key(k) ==> handles[k] is Backend) ==> (forall|k: (u64, u64)|
                #[trigger]
                after.contains_key(k) ==> after[k] is Backend)
        }),
    decreases n,
{
    if n > 0 {
        lemma_files_stay_keyed(handles, saved, reopened, (n - 1) as nat);
    }
}

/// Directories that are put back are found under their own numbers.
proof fn lemma_dirs_stay_keyed(
    dirs: DirHandles,
    saved: Seq<SavedDirHandleView>,
    listings: Seq<FuseResult<u64>>,
    n: nat,
)
    requires
        forall|k: (u64, u64)| #[trigger]
            dirs.contains_key(k) ==> dirs[k].ino == k.0 && dirs[k].fh == k.1,
    ensures
        ({
            let after = node_view::with_saved_dirs(dirs, saved, listings, n).0;
            forall|k: (u64, u64)| #[trigger]
                after.contains_key(k) ==> after[k].ino == k.0 && after[k].fh == k.1
        }),
    decreases n,
{
    if n > 0 {
        lemma_dirs_stay_keyed(dirs, saved, listings, (n - 1) as nat);
        let before = node_view::with_saved_dirs(dirs, saved, listings, (n - 1) as nat).0;
        let after = node_view::with_saved_dirs(dirs, saved, listings, n).0;
        assert forall|k: (u64, u64)| #[trigger] after.contains_key(k) implies after[k].ino == k.0
            && after[k].fh == k.1 by {
            if k != (saved[n - 1].ino, saved[n - 1].fh) {
                assert(before.contains_key(k));
            } else if before.contains_key(k) {
                assert(before[k].ino == k.0);
            }
        }
    }
}

/// Whatever a file held, whatever of it could be read, opened again and listed
/// again: handles are found under their own numbers afterwards, and every open
/// file can be kept, where that held before.
pub proof fn law_any_restore_keeps_handles_in_place(
    start: NodeView,
    image: ImageView,
    reopened: Seq<Option<Reopened>>,
    listings: Seq<FuseResult<u64>>,
)
    ensures
        start.keyed() ==> start.restored(image, reopened, listings).0.keyed(),
        start.storable() ==> start.restored(image, reopened, listings).0.storable(),
{
    lemma_files_stay_keyed(start.handles, image.handles, reopened, image.handles.len());
    if start.keyed() {
        lemma_dirs_stay_keyed(
            start.dir_handles,
            image.dir_handles,
            listings,
            image.dir_handles.len(),
        );
    }
}

/// A file that was put back is one that was saved, with the writer that was
/// opened again for it.
proof fn lemma_files_come_from_the_saved(
    handles: FileHandles,
    order: Seq<(u64, u64)>,
    reopened: Seq<Option<Reopened>>,
    n: nat,
)
    requires
        n <= order.len(),
        forall|i: int|
            0 <= i < order.len() ==> handles[#[trigger] order[i]] is Backend
                && handles[order[i]].ino() == order[i].0 && handles[order[i]].fh() == order[i].1,
    ensures
        ({
            let saved = state_file::all_some(node_view::saved_handles(handles, order));
            let after = node_view::with_saved(Map::empty(), saved, reopened, n);
            forall|k: (u64, u64)| #[trigger]
                after.contains_key(k) ==> exists|i: int|
                    0 <= i < n && i < reopened.len() && #[trigger] order[i] == k
                        && reopened[i] is Some && after[k].writer()
                        == reopened[i]->Some_0.writer
        }),
    decreases n,
{
    if n > 0 {
        lemma_files_come_from_the_saved(handles, order, reopened, (n - 1) as nat);
        let saved = state_file::all_some(node_view::saved_handles(handles, order));
        let before = node_view::with_saved(Map::empty(), saved, reopened, (n - 1) as nat);
        let after = node_view::with_saved(Map::empty(), saved, reopened, n);
        let last = n - 1;
        assert(handles[order[last]] is Backend);
        assert forall|k: (u64, u64)| #[trigger] after.contains_key(k) implies exists|i: int|
            0 <= i < n && i < reopened.len() && #[trigger] order[i] == k && reopened[i] is Some
                && after[k].writer() == reopened[i]->Some_0.writer by {
            if last < reopened.len() && reopened[last] is Some && k == order[last] {
                assert(order[last] == k);
            } else {
                assert(before.contains_key(k));
                let i = choose|i: int|
                    0 <= i < last && i < reopened.len() && #[trigger] order[i] == k
                        && reopened[i] is Some && before[k].writer()
                        == reopened[i]->Some_0.writer;
                assert(order[i] == k);
            }
        }
    }
}

/// A directory that was put back is one that was saved.
proof fn lemma_dirs_come_from_the_saved(
    dirs: DirHandles,
    order: Seq<(u64, u64)>,
    listings: Seq<FuseResult<u64>>,
    n: nat,
)
    requires
        n <= order.len(),
        forall|i: int|
            0 <= i < order.len() ==> dirs[#[trigger] order[i]].ino == order[i].0
                && dirs[order[i]].fh == order[i].1,
    ensures
        ({
            let saved = node_view::saved_dirs(dirs, order);
            let after = node_view::with_saved_dirs(Map::empty(), saved, listings, n).0;
            forall|k: (u64, u64)| #[trigger] after.contains_key(k) ==> order.contains(k)
        }),
    decreases n,
{
    if n > 0 {
        lemma_dirs_come_from_the_saved(dirs, order, listings, (n - 1) as nat);
        let saved = node_view::saved_dirs(dirs, order);
        let before = node_view::with_saved_dirs(Map::empty(), saved, listings, (n - 1) as nat).0;
        let after = node_view::with_saved_dirs(Map::empty(), saved, listings, n).0;
        let last = order[n - 1];
        assert(dirs[last].ino == last.0);
        assert forall|k: (u64, u64)| #[trigger] after.contains_key(k) implies order.contains(k) by {
            if k != last {
                assert(before.contains_key(k));
            }
        }
    }
}

/// A state that was saved in order leaves what is restored of it in order,
/// whichever files were opened again, where those on one inode that have a
/// writer have the same one: the tree is in order, handles are found under
/// their own numbers, and an inode has one writer at most. Where every
/// directory was listed again no number is above the last one given out
/// either.
pub proof fn law_restore_keeps_order(
    state: NodeView,
    image: ImageView,
    order: Seq<(u64, u64)>,
    dir_order: Seq<(u64, u64)>,
    start: NodeView,
    reopened: Seq<Option<Reopened>>,
    listings: Seq<FuseResult<u64>>,
)
    requires
        state.storable(),
        state.orderly(),
        state.saved_as(image, order, dir_order),
        start.handles == Map::<(u64, u64), FileHandleView>::empty(),
        start.dir_handles == Map::<(u64, u64), DirHandleView>::empty(),
        forall|i: int, j: int|
            #![trigger order[i], order[j]]
            0 <= i < order.len() && i < reopened.len() && 0 <= j < order.len() && j
                < reopened.len() && order[i].0 == order[j].0 && reopened[i] is Some
                && reopened[j] is Some && reopened[i]->Some_0.writer is Some
                && reopened[j]->Some_0.writer is Some ==> reopened[i]->Some_0.writer
                == reopened[j]->Some_0.writer,
    ensures
        ({
            let (after, answer) = start.restored(image, reopened, listings);
            &&& after.tree.consistent()
            &&& after.keyed()
            &&& after.storable()
            &&& node_view::one_writer(after.handles)
            &&& answer is Ok ==> after.orderly()
        }),
{
    let (after, answer) = start.restored(image, reopened, listings);
    law_any_restore_keeps_handles_in_place(start, image, reopened, listings);
    assert forall|i: int| 0 <= i < order.len() implies state.handles[#[trigger] order[i]] is Backend
        && state.handles[order[i]].ino() == order[i].0 && state.handles[order[i]].fh()
        == order[i].1 by {
        assert(order.to_set().contains(order[i]));
        assert(state.handles.contains_key(order[i]));
    }
    assert forall|i: int| 0 <= i < dir_order.len() implies state.dir_handles[#[trigger]
    dir_order[i]].ino == dir_order[i].0 && state.dir_handles[dir_order[i]].fh
        == dir_order[i].1 by {
        assert(dir_order.to_set().contains(dir_order[i]));
        assert(state.dir_handles.contains_key(dir_order[i]));
    }
    lemma_files_come_from_the_saved(state.handles, order, reopened, order.len());
    lemma_dirs_come_from_the_saved(state.dir_handles, dir_order, listings, dir_order.len());
    assert(image.handles.len() == order.len());
    assert(image.dir_handles.len() == dir_order.len());
    assert forall|ino: u64, a: u64, b: u64|
        #![trigger after.handles.contains_key((ino, a)), after.handles.contains_key((ino, b))]
        after.handles.contains_key((ino, a)) && after.handles.contains_key((ino, b))
            && after.handles[(ino, a)].writer() is Some && after.handles[(
            ino,
            b,
        )].writer() is Some implies after.handles[(ino, a)].writer() == after.handles[(
        ino,
        b,
    )].writer() by {
        let i = choose|i: int|
            0 <= i < order.len() && i < reopened.len() && #[trigger] order[i] == (ino, a)
                && reopened[i] is Some && after.handles[(ino, a)].writer()
                == reopened[i]->Some_0.writer;
        let j = choose|j: int|
            0 <= j < order.len() && j < reopened.len() && #[trigger] order[j] == (ino, b)
                && reopened[j] is Some && after.handles[(ino, b)].writer()
                == reopened[j]->Some_0.writer;
        assert(order[i].0 == order[j].0);
    }
    if answer is Ok {
        assert forall|k: (u64, u64)| #[trigger] after.handles.contains_key(k) implies k.1
            <= after.last_fh by {
            let i = choose|i: int|
                0 <= i < order.len() && i < reopened.len() && #[trigger] order[i] == k
                    && reopened[i] is Some && after.handles[k].writer()
                    == reopened[i]->Some_0.writer;
            assert(order.to_set().contains(order[i]));
            assert(state.handles.contains_key(k));
        }
        assert forall|k: (u64, u64)| #[trigger] after.dir_handles.contains_key(k) implies k.1
            <= after.last_fh by {
            assert(dir_order.to_set().contains(k));
            assert(state.dir_handles.contains_key(k));
        }
    }
}

/// Where every reader, writer and listing comes back as the one it was, the
/// restored daemon is in the state that was saved.
pub proof fn law_restore_gives_the_saved_state(
    state: NodeView,
    image: ImageView,
    order: Seq<(u64, u64)>,
    dir_order: Seq<(u64, u64)>,
    start: NodeView,
    reopened: Seq<Option<Reopened>>,
    listings: Seq<FuseResult<u64>>,
)
    requires
        state.storable(),
        state.keyed(),
        state.saved_as(image, order, dir_order),
        start.handles == Map::<(u64, u64), FileHandleView>::empty(),
        start.dir_handles == Map::<(u64, u64), DirHandleView>::empty(),
        start.conf == state.conf,
        reopened.len() == order.len(),
        forall|i: int|
            0 <= i < reopened.len() ==> #[trigger] reopened[i] == Some(
                Reopened {
                    reader: state.handles[order[i]]->Backend_0.reader,
                    writer: state.handles[order[i]]->Backend_0.writer,
                },
            ),
        listings.len() == dir_order.len(),
        forall|i: int|
            0 <= i < listings.len() ==> #[trigger] listings[i] == Ok::<u64, FuseError>(
                state.dir_handles[dir_order[i]].stream,
            ),
    ensures
        start.restored(image, reopened, listings) == (state, Ok::<(), FuseError>(())),
{
    law_restore_undoes_persist(state, image, order, dir_order, start, reopened, listings);
    let after = start.restored(image, reopened, listings).0;
    assert forall|k: (u64, u64)| #[trigger] after.handles.contains_key(k) implies after.handles[k]
        == state.handles[k] by {
        assert(order.to_set().contains(k));
        let i = choose|i: int| 0 <= i < order.len() && order[i] == k;
        assert(reopened[i] is Some);
        assert(state.handles.contains_key(k));
        let h = state.handles[k]->Backend_0;
        assert(SavedHandleView::of(h).reopened(h.reader, h.writer) =~= h);
    }
    assert(after.handles =~= state.handles);
    assert forall|k: (u64, u64)| #[trigger]
        after.dir_handles.contains_key(k) implies after.dir_handles[k]
        == state.dir_handles[k] by {
        assert(dir_order.to_set().contains(k));
        let i = choose|i: int| 0 <= i < dir_order.len() && dir_order[i] == k;
        assert(listings[i] is Ok);
        let h = state.dir_handles[k];
        assert(SavedDirHandleView::of(h).reopened(h.stream) =~= h);
    }
    assert(after.dir_handles =~= state.dir_handles);
}

/// Deleting a file that is open is put off. It becomes due when the last
/// handle on the file is gone, and not before; a file that is not open is
/// deleted at once and nothing changes.
pub proof fn law_deletion_waits_for_the_last_handle(
    state: NodeView,
    parent: u64,
    name: Seq<char>,
    later: FileHandles,
)
    requires
        state.should_delete_now(parent, name).1 is Ok,
    ensures
        ({
            let ino = state.tree.child(parent, name)->Some_0;
            let (after, answer) = state.should_delete_now(parent, name);
            let due = |handles: FileHandles|
                !handle_table::on_inode(handles, ino) && after.tree.pending_delete(ino);
            &&& answer->Ok_0 == !handle_table::on_inode(state.handles, ino)
            &&& answer->Ok_0 ==> after == state
            &&& !answer->Ok_0 ==> after.handles == state.handles && due(later)
                == !handle_table::on_inode(later, ino) && !due(after.handles)
        }),
{
}

/// A deletion that was put off is not forgotten when the entry goes.
pub proof fn law_mark_outlives_the_entry(
    state: NodeView,
    ino: u64,
    parent: u64,
    name: Seq<char>,
    n_lookup: u64,
    forgotten: u64,
)
    requires
        state.tree.consistent(),
        state.tree.pending_delete(ino),
        handle_table::on_inode(state.handles, ino),
    ensures
        state.tree.unlink(parent, name).0.pending_delete(ino),
        state.tree.forget(forgotten, n_lookup).0.pending_delete(ino),
        state.tree.clear(handle_table::open_inodes(state.handles)).pending_delete(ino),
{
    tree_laws::law_unlink_keeps_consistency(state.tree, parent, name);
    assert(handle_table::open_inodes(state.handles).contains(ino));
}

/// After the cached status of an inode was given up none is handed out until
/// a new one was taken over. What was changed here is not given up.
pub proof fn law_cache_is_given_up(state: NodeView, ino: u64, now: u64)
    requires
        state.tree.inodes.contains_key(ino),
    ensures
        ({
            let after = state.with_tree(state.tree.invalid_cache(ino, None));
            if state.tree.inodes[ino].lifecycle is Dirty {
                after.cached_status(ino, None, now) == state.cached_status(ino, None, now)
            } else {
                after.cached_status(ino, None, now) is None
            }
        }),
{
}

/// A status that was taken over is handed out for as long as it may be used,
/// and then no longer.
pub proof fn law_cache_lasts_for_its_time(
    state: NodeView,
    ino: u64,
    status: StatusView,
    taken_at: u64,
    now: u64,
)
    requires
        state.conf.enable_meta_cache,
        state.tree.inodes.contains_key(ino),
    ensures
        state.with_tree(state.tree.update_status(ino, status, taken_at)).cached_status(ino, None, now)
            == (if now <= taken_at + state.conf.meta_cache_ttl {
            Some(status)
        } else {
            None
        }),
{
}

/// The first status after the cached one was given up is reported as the
/// first, and the same status again is neither first nor a change.
pub proof fn law_first_access_is_reported_once(
    state: NodeView,
    ino: u64,
    status: StatusView,
    taken_at: u64,
)
    requires
        state.tree.inodes.contains_key(ino),
        !(state.tree.inodes[ino].lifecycle is Dirty),
    ensures
        ({
            let given_up = state.with_tree(state.tree.invalid_cache(ino, None));
            let taken = given_up.with_tree(given_up.tree.update_status(ino, status, taken_at));
            &&& given_up.status_news(ino, status).0
            &&& taken.status_news(ino, status) == (false, false)
        }),
{
}

} // verus!
