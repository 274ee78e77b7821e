//! What each request does to the daemon's state, said of single handles,
//! inodes and numbers.
use vstd::prelude::*;

use crate::dcache::dir_tree;
use crate::dcache::inode::InodeView;
use crate::dcache::request_laws;
use crate::dcache::tree_view::TreeView;
use crate::error::{FuseError, FuseResult};
use crate::state::backend_handle::BackendView;
use crate::state::cache_handle::CacheHandleView;
use crate::state::dir_handle::DirHandleView;
use crate::state::file_handle::FileHandleView;
use crate::state::handle_table;
use crate::state::node_state;
use crate::state::node_view;
use crate::state::node_view::{FileHandles, FuseConf, NodeView};
use crate::state::opening::{OpenAction, OpenedView, Opening, OpeningView};
use crate::status;
use crate::status::{FileStatus, LockFlags, OpenFlags, StatusView};

verus! {

/// A daemon starts with the root alone, nothing open and no number given out.
pub proof fn law_daemon_starts_out(conf: FuseConf, now: u64)
    ensures
        ({
            let state = NodeView::initial(conf, now);
            &&& forall|i: u64| #[trigger] state.tree.inodes.contains_key(i) <==> i == 1
            &&& state.tree.last_id == 1 && state.last_fh == 0 && state.conf == conf
            &&& forall|k: (u64, u64)| !(#[trigger] state.handles.contains_key(k))
            &&& forall|k: (u64, u64)| !(#[trigger] state.dir_handles.contains_key(k))
        }),
{
}

/// A request to the tree changes the tree alone.
pub proof fn law_tree_requests_leave_handles_alone(state: NodeView, tree: TreeView)
    ensures
        state.with_tree(tree).tree == tree,
        state.with_tree(tree).handles == state.handles,
        state.with_tree(tree).dir_handles == state.dir_handles,
        state.with_tree(tree).last_fh == state.last_fh,
        state.with_tree(tree).conf == state.conf,
{
}

/// The number after a number is one more, and after the largest it is zero.
pub proof fn law_numbers_go_up(n: u64)
    ensures
        n < u64::MAX ==> node_view::next_number(n) == n + 1,
        n == u64::MAX ==> node_view::next_number(n) == 0,
{
}

/// A reported status is a change if and only if its time of change or its
/// length is another one, and it is the first access if and only if the cached
/// status was given up. Of what is not cached it is neither.
pub proof fn law_what_counts_as_a_change(state: NodeView, ino: u64, status: StatusView)
    ensures
        ({
            let (first, changed) = state.status_news(ino, status);
            &&& !state.tree.inodes.contains_key(ino) ==> !first && !changed
            &&& state.tree.inodes.contains_key(ino) ==> {
                let inode = state.tree.inodes[ino];
                &&& first <==> inode.lifecycle is Invalid
                &&& !changed <==> inode.status.mtime == status.mtime && inode.status.len
                    == status.len
            }
        }),
{
}

/// The kernel may keep the pages of a cached file if and only if its cached
/// status was given up, or time of change and length are the ones it knows.
pub proof fn law_stale_pages_are_not_kept(state: NodeView, ino: u64, status: StatusView)
    requires
        state.tree.inodes.contains_key(ino),
    ensures
        ({
            let inode = state.tree.inodes[ino];
            let (first, changed) = state.status_news(ino, status);
            let keep = first || !changed;
            &&& !(inode.lifecycle is Invalid) && inode.status.mtime != status.mtime ==> !keep
            &&& !(inode.lifecycle is Invalid) && inode.status.len != status.len ==> !keep
            &&& inode.status.mtime == status.mtime && inode.status.len == status.len ==> keep
            &&& inode.lifecycle is Invalid ==> keep
        }),
{
}

/// Once a status was taken over, reporting it again is no change, and
/// reporting another time or another length is one.
pub proof fn law_change_is_measured_against_the_last_report(
    state: NodeView,
    ino: u64,
    first: StatusView,
    second: StatusView,
    now: u64,
)
    requires
        state.tree.inodes.contains_key(ino),
    ensures
        ({
            let taken = state.with_tree(state.tree.update_status(ino, first, now));
            &&& !taken.status_news(ino, second).0
            &&& taken.status_news(ino, second).1 <==> first.mtime != second.mtime || first.len
                != second.len
        }),
{
}

/// A cached status is handed out if and only if the cache is on, the inode is
/// found, and its status was changed here, or is cached and not too old. It is
/// the inode's own status.
pub proof fn law_which_status_is_handed_out(
    state: NodeView,
    ino: u64,
    name: Option<Seq<char>>,
    now: u64,
)
    ensures
        ({
            let got = state.cached_status(ino, name, now);
            let found = state.tree.resolve(ino, name);
            &&& !state.conf.enable_meta_cache || found is None ==> got is None
            &&& state.conf.enable_meta_cache && found is Some ==> {
                let inode = state.tree.inodes[found->Some_0];
                let ends = inode.last_access + state.conf.meta_cache_ttl;
                &&& inode.lifecycle is Dirty ==> got == Some(inode.status)
                &&& inode.lifecycle is Invalid ==> got is None
                &&& inode.lifecycle is Cached && now <= ends ==> got == Some(inode.status)
                &&& inode.lifecycle is Cached && now > ends ==> got is None
            }
        }),
{
}

/// How many lookups of an inode a list gives back.
pub open spec fn given_back(nodes: Seq<(u64, u64)>, ino: u64) -> int
    decreases nodes.len(),
{
    if nodes.len() == 0 {
        0
    } else {
        given_back(nodes.drop_last(), ino) + if nodes.last().0 == ino {
            nodes.last().1 as int
        } else {
            0
        }
    }
}

/// A batch takes off each inode all the lookups that it gives back for it, and
/// changes nothing else of the tree. Nothing but the tree changes.
pub proof fn law_batch_gives_back_all_of_it(state: NodeView, nodes: Seq<(u64, u64)>)
    ensures
        ({
            let after = state.forget_all(nodes);
            &&& after.handles == state.handles && after.dir_handles == state.dir_handles
            &&& after.last_fh == state.last_fh && after.conf == state.conf
            &&& after.tree.last_id == state.tree.last_id
            &&& forall|i: u64| #[trigger]
                after.tree.inodes.contains_key(i) <==> state.tree.inodes.contains_key(i)
            &&& forall|i: u64|
                #![trigger after.tree.inodes[i]]
                state.tree.inodes.contains_key(i) ==> {
                    let was = state.tree.inodes[i];
                    let is = after.tree.inodes[i];
                    &&& is == (InodeView { n_lookup: is.n_lookup, ..was })
                    &&& given_back(nodes, i) <= was.n_lookup ==> is.n_lookup == was.n_lookup
                        - given_back(nodes, i)
                    &&& given_back(nodes, i) > was.n_lookup ==> is.n_lookup == 0
                }
        }),
    decreases nodes.len(),
{
    if nodes.len() > 0 {
        law_batch_gives_back_all_of_it(state, nodes.drop_last());
        let before = state.forget_all(nodes.drop_last());
        request_laws::law_forget_takes_lookups_off(before.tree, nodes.last().0, nodes.last().1);
        lemma_given_back(nodes.drop_last());
        let after = state.forget_all(nodes);
        assert forall|i: u64|
            #![trigger after.tree.inodes[i]]
            state.tree.inodes.contains_key(i) implies ({
            let was = state.tree.inodes[i];
            let is = after.tree.inodes[i];
            &&& is == (InodeView { n_lookup: is.n_lookup, ..was })
            &&& given_back(nodes, i) <= was.n_lookup ==> is.n_lookup == was.n_lookup - given_back(
                nodes,
                i,
            )
            &&& given_back(nodes, i) > was.n_lookup ==> is.n_lookup == 0
        }) by {
            assert(before.tree.inodes.contains_key(i));
            assert(given_back(nodes.drop_last(), i) >= 0);
        }
    }
}

/// A list gives back no less than nothing.
proof fn lemma_given_back(nodes: Seq<(u64, u64)>)
    ensures
        forall|i: u64| #[trigger] given_back(nodes, i) >= 0,
    decreases nodes.len(),
{
    if nodes.len() > 0 {
        lemma_given_back(nodes.drop_last());
        assert forall|i: u64| #[trigger] given_back(nodes, i) >= 0 by {
            assert(given_back(nodes.drop_last(), i) >= 0);
        }
    }
}

/// A batch of one is a single forget, and a batch is the same in two parts.
pub proof fn law_batches_join(
    state: NodeView,
    ino: u64,
    n: u64,
    first: Seq<(u64, u64)>,
    second: Seq<(u64, u64)>,
)
    ensures
        state.forget_all(seq![(ino, n)]) == state.with_tree(state.tree.forget(ino, n).0),
        state.forget_all(Seq::empty()) == state,
        state.forget_all(first + second) == state.forget_all(first).forget_all(second),
    decreases second.len(),
{
    let one = seq![(ino, n)];
    assert(one.drop_last() =~= Seq::empty());
    assert(state.forget_all(one.drop_last()) == state);
    if second.len() == 0 {
        assert(first + second =~= first);
    } else {
        law_batches_join(state, ino, n, first, second.drop_last());
        assert((first + second).drop_last() =~= first + second.drop_last());
        assert((first + second).last() == second.last());
    }
}

/// A file that is not open is to be deleted at once, and nothing changes. One
/// that is open is marked instead, and nothing else changes. A name that leads
/// nowhere is answered so.
pub proof fn law_open_file_is_marked_instead(
    state: NodeView,
    parent: u64,
    name: Seq<char>,
    fh: u64,
)
    ensures
        ({
            let (after, answer) = state.should_delete_now(parent, name);
            &&& after.handles == state.handles && after.dir_handles == state.dir_handles
            &&& after.last_fh == state.last_fh && after.conf == state.conf
            &&& state.tree.child(parent, name) is None ==> after == state && answer == Err::<
                bool,
                FuseError,
            >(FuseError::NameNotFound { parent })
            &&& state.tree.child(parent, name) matches Some(ino) ==> {
                &&& (forall|n: u64| !(#[trigger] state.handles.contains_key((ino, n)))) ==> after
                    == state && answer == Ok::<bool, FuseError>(true)
                &&& state.handles.contains_key((ino, fh)) && state.tree.path(ino, None) is Ok
                    ==> answer == Ok::<bool, FuseError>(false)
                    && after.tree.inodes[ino].mark_delete && after.tree.inodes[ino] == (InodeView {
                    mark_delete: true,
                    ..state.tree.inodes[ino]
                }) && forall|i: u64|
                    i != ino && state.tree.inodes.contains_key(i)
                        ==> #[trigger] after.tree.inodes[i] == state.tree.inodes[i]
                &&& state.handles.contains_key((ino, fh)) ==> (state.tree.path(ino, None)
                    matches Err(e) ==> after == state && answer == Err::<bool, FuseError>(e))
            }
        }),
{
    if let Some(ino) = state.tree.child(parent, name) {
        if state.handles.contains_key((ino, fh)) {
            assert(handle_table::on_inode(state.handles, ino));
        }
    }
}

/// An inode is open if and only if some handle on it is.
pub proof fn law_what_is_open(handles: FileHandles, ino: u64, fh: u64)
    ensures
        handles.contains_key((ino, fh)) ==> handle_table::on_inode(handles, ino),
        handle_table::on_inode(handles, ino) ==> exists|n: u64| #[trigger]
            handles.contains_key((ino, n)),
        handle_table::open_inodes(handles).contains(ino) <==> handle_table::on_inode(handles, ino),
{
}

/// An inode is written if and only if some handle on it has a writer, and its
/// writers are those that its handles have.
pub proof fn law_who_writes_an_inode(handles: FileHandles, ino: u64, fh: u64, w: u64)
    ensures
        handles.contains_key((ino, fh)) && handles[(ino, fh)].writer() == Some(w)
            ==> node_view::is_writer_of(handles, ino, w) && node_view::is_written(handles, ino),
        node_view::is_written(handles, ino) ==> exists|n: u64| #[trigger]
            handles.contains_key((ino, n)) && handles[(ino, n)].writer() is Some,
        node_view::is_writer_of(handles, ino, w) ==> exists|n: u64| #[trigger]
            handles.contains_key((ino, n)) && handles[(ino, n)].writer() == Some(w),
{
}

/// Before a file is opened on an inode, the writer that is looked for is one
/// that the inode has; there is none only where no handle on it has one, or
/// where no inode is given.
pub proof fn law_writer_to_be_flushed(
    handles: FileHandles,
    ino: Option<u64>,
    writer: Option<u64>,
    fh: u64,
)
    requires
        node_state::flush_target(handles, ino, writer),
    ensures
        ino is None ==> writer is None,
        ino matches Some(i) ==> (writer matches Some(w) ==> exists|n: u64| #[trigger]
            handles.contains_key((i, n)) && handles[(i, n)].writer() == Some(w)),
        ino matches Some(i) ==> writer is None && handles.contains_key((i, fh)) ==> handles[(
            i,
            fh,
        )].writer() is None,
{
}

/// The first step of opening a file. One that is read on an inode with a writer
/// has that writer flushed; else one that is only read has a reader opened, and
/// one that is written a writer. An unknown access mode is refused.
pub proof fn law_first_step_of_opening(ino: Option<u64>, flags: u32, writer: Option<u64>)
    ensures
        ({
            let got = OpeningView::begin(ino, flags, writer);
            let mode = flags % 4;
            &&& mode == 3 ==> got == Err::<OpeningView, FuseError>(
                FuseError::InvalidAccessMode { mode: 3 },
            )
            &&& mode != 3 ==> {
                &&& got is Ok
                &&& got->Ok_0.ino == ino && got->Ok_0.flags.value == flags
                &&& got->Ok_0.reader is None && got->Ok_0.writer is None
                &&& mode == 1 ==> got->Ok_0.action is OpenWriter
                &&& mode == 0 && writer is None ==> got->Ok_0.action is OpenReader
                &&& mode == 2 && writer is None ==> got->Ok_0.action is OpenWriter
                &&& mode != 1 ==> (writer matches Some(w) ==> got->Ok_0.action == (
                OpenAction::Flush { writer: w }))
            }
        }),
{
    let f = OpenFlags { value: flags };
    status::law_access_mode_is_in_the_low_bits(f, f);
}

/// The steps that follow. After a flush comes what would have come without it.
/// After a writer comes a reader for a file that is both, unless the writer
/// cannot be read beside; else the file is open. After a reader it is open.
/// What was opened before stays.
pub proof fn law_next_steps_of_opening(opening: OpeningView, opened: OpenedView)
    ensures
        ({
            let mode = opening.flags.value % 4;
            let flushed = opening.flushed();
            let with_writer = opening.writer_opened(opened);
            let with_reader = opening.reader_opened(opened);
            &&& mode == 0 ==> flushed.action is OpenReader
            &&& mode == 2 ==> flushed.action is OpenWriter
            &&& flushed.reader == opening.reader && flushed.writer == opening.writer
            &&& with_writer.writer == Some(opened) && with_writer.reader == opening.reader
            &&& mode == 2 && !opened.is_ufs ==> with_writer.action is OpenReader
            &&& mode != 2 || opened.is_ufs ==> with_writer.action is Install
            &&& with_reader.reader == Some(opened) && with_reader.writer == opening.writer
            &&& with_reader.action is Install
            &&& flushed.ino == opening.ino && flushed.flags == opening.flags
            &&& with_writer.ino == opening.ino && with_writer.flags == opening.flags
            &&& with_reader.ino == opening.ino && with_reader.flags == opening.flags
        }),
{
    status::law_access_mode_is_in_the_low_bits(opening.flags, opening.flags);
}

/// The status of an opened file is its writer's, and its reader's where it has
/// no writer.
pub proof fn law_status_of_what_was_opened(opening: OpeningView)
    ensures
        opening.writer matches Some(w) ==> opening.status() == Some(w.status)
            && opening.writer_id() == Some(w.id),
        opening.writer is None ==> opening.writer_id() is None,
        opening.reader matches Some(r) ==> opening.reader_id() == Some(r.id),
        opening.reader is None ==> opening.reader_id() is None,
        opening.writer is None ==> (opening.reader matches Some(r) ==> opening.status() == Some(
            r.status,
        )),
        opening.writer is None && opening.reader is None ==> opening.status() is None,
{
}

/// What an opened file is: on the inode that was given, else on one with a
/// number of its own; under the next handle number; with the reader that was
/// opened, without locks, and with the status, in which the id is the inode's
/// number. No other handle and no inode changes.
pub proof fn law_what_an_opened_file_is(
    before: NodeView,
    after: NodeView,
    opening: OpeningView,
    status: StatusView,
    ino: u64,
    fh: u64,
)
    requires
        node_state::installed(before, after, opening, status, ino, fh),
    ensures
        opening.ino matches Some(i) ==> ino == i,
        opening.ino is None && status.id > 0 && !before.tree.inodes.contains_key(status.id as u64)
            ==> ino == status.id,
        opening.ino is None && before.tree.last_id < u64::MAX && !(status.id > 0
            && !before.tree.inodes.contains_key(status.id as u64)) ==> ino == before.tree.last_id
            + 1,
        before.last_fh < u64::MAX ==> fh == before.last_fh + 1,
        after.last_fh == fh,
        after.handles.contains_key((ino, fh)) && after.handles[(ino, fh)] is Backend,
        ({
            let h = after.handles[(ino, fh)]->Backend_0;
            &&& h.ino == ino && h.fh == fh && h.flock is None && h.plock is None
            &&& opening.reader matches Some(r) ==> h.reader == Some(r.id)
            &&& opening.reader is None ==> h.reader is None
            &&& h.status == (StatusView { id: ino as i64, ..status })
        }),
        forall|k: (u64, u64)|
            k != (ino, fh) ==> #[trigger] after.handles.contains_key(k)
                == before.handles.contains_key(k),
        forall|k: (u64, u64)|
            k != (ino, fh) && before.handles.contains_key(k) ==> #[trigger] after.handles[k]
                == before.handles[k],
        after.dir_handles == before.dir_handles && after.conf == before.conf,
        after.tree.inodes == before.tree.inodes,
        after.tree.last_id >= before.tree.last_id,
        opening.ino is None && before.tree.last_id < u64::MAX ==> after.tree.last_id >= ino,
{
}

/// Which writer an opened file has: none where none was opened for it; the one
/// that was opened where no handle on the inode has one; else one that a
/// handle on the inode has already.
pub proof fn law_which_writer_an_opened_file_has(
    before: NodeView,
    after: NodeView,
    opening: OpeningView,
    status: StatusView,
    ino: u64,
    fh: u64,
    other: u64,
)
    requires
        node_state::installed(before, after, opening, status, ino, fh),
    ensures
        ({
            let writer = after.handles[(ino, fh)].writer();
            &&& opening.writer is None ==> writer is None
            &&& opening.writer matches Some(own) ==> {
                &&& (forall|n: u64| #[trigger]
                    before.handles.contains_key((ino, n)) ==> before.handles[(
                        ino,
                        n,
                    )].writer() is None) ==> writer == Some(own.id)
                &&& before.handles.contains_key((ino, other)) && before.handles[(
                    ino,
                    other,
                )].writer() is Some ==> exists|n: u64| #[trigger]
                    before.handles.contains_key((ino, n)) && before.handles[(ino, n)].writer()
                        == writer && writer is Some
            }
        }),
{
    if before.handles.contains_key((ino, other)) && before.handles[(ino, other)].writer() is Some {
        assert(node_view::is_written(before.handles, ino));
        if opening.writer is Some {
            let w = after.handles[(ino, fh)].writer()->Some_0;
            assert(node_view::is_writer_of(before.handles, ino, w));
            let n = choose|n: u64| #[trigger]
                before.handles.contains_key((ino, n)) && before.handles[(ino, n)].writer() == Some(
                    w,
                );
            assert(before.handles.contains_key((ino, n)));
        }
    }
}

/// A lock that is taken or given up on an open file changes that lock of that
/// file and nothing else.
pub proof fn law_lock_changes_one_file(
    state: NodeView,
    ino: u64,
    fh: u64,
    owner: Option<u64>,
    other: (u64, u64),
)
    requires
        state.handles.contains_key((ino, fh)),
        state.handles[(ino, fh)] is Backend,
    ensures
        ({
            let was = state.handles[(ino, fh)]->Backend_0;
            let f = state.with_lock(ino, fh, LockFlags::Flock, owner);
            let p = state.with_lock(ino, fh, LockFlags::Plock, owner);
            &&& f.handles[(ino, fh)] == FileHandleView::Backend(
                BackendView { flock: owner, ..was },
            )
            &&& p.handles[(ino, fh)] == FileHandleView::Backend(
                BackendView { plock: owner, ..was },
            )
            &&& other != (ino, fh) ==> f.handles.contains_key(other)
                == state.handles.contains_key(other) && p.handles.contains_key(other)
                == state.handles.contains_key(other)
            &&& other != (ino, fh) && state.handles.contains_key(other) ==> f.handles[other]
                == state.handles[other] && p.handles[other] == state.handles[other]
            &&& f.tree == state.tree && p.tree == state.tree
            &&& f.dir_handles == state.dir_handles && p.dir_handles == state.dir_handles
            &&& f.last_fh == state.last_fh && p.last_fh == state.last_fh
            &&& f.conf == state.conf && p.conf == state.conf
        }),
{
}

/// A reader that is kept on an open file changes that file alone.
pub proof fn law_reader_changes_one_file(
    state: NodeView,
    ino: u64,
    fh: u64,
    reader: u64,
    other: (u64, u64),
)
    requires
        state.handles.contains_key((ino, fh)),
    ensures
        ({
            let after = state.with_reader(ino, fh, reader);
            &&& state.handles[(ino, fh)] is Backend ==> after.handles[(ino, fh)]
                == state.handles[(ino, fh)]
            &&& state.handles[(ino, fh)] matches FileHandleView::Cache(c) ==> after.handles[(
                ino,
                fh,
            )] == FileHandleView::Cache(
                CacheHandleView { reader: Some(reader), ..c },
            )
            &&& other != (ino, fh) ==> after.handles.contains_key(other)
                == state.handles.contains_key(other)
            &&& other != (ino, fh) && state.handles.contains_key(other) ==> after.handles[other]
                == state.handles[other]
            &&& after.tree == state.tree && after.dir_handles == state.dir_handles
            &&& after.last_fh == state.last_fh && after.conf == state.conf
        }),
{
}

/// A directory that is opened is found under its inode and the next handle
/// number, with its path, the listing that was opened for it and the limit
/// that is set. Nothing else changes but the number.
pub proof fn law_what_an_opened_directory_is(
    state: NodeView,
    ino: u64,
    path: Seq<char>,
    stream: u64,
    other: (u64, u64),
)
    requires
        state.last_fh < u64::MAX,
    ensures
        ({
            let after = state.with_dir_handle(ino, path, stream);
            let fh = (state.last_fh + 1) as u64;
            &&& after.last_fh == fh
            &&& after.dir_handles.contains_key((ino, fh))
            &&& after.dir_handles[(ino, fh)] == (DirHandleView {
                ino,
                fh,
                path,
                limit: state.conf.list_limit,
                stream,
            })
            &&& other != (ino, fh) ==> after.dir_handles.contains_key(other)
                == state.dir_handles.contains_key(other)
            &&& other != (ino, fh) && state.dir_handles.contains_key(other)
                ==> after.dir_handles[other] == state.dir_handles[other]
            &&& after.tree == state.tree && after.handles == state.handles
            &&& after.conf == state.conf
        }),
{
}

/// A listing starts with the directory itself and its parent, both as
/// directories without anything else, and then has what was listed, errors and
/// all, in its order.
pub proof fn law_listing_starts_with_the_dots(inner: Seq<FuseResult<StatusView>>)
    ensures
        ({
            let all = node_state::with_dots(inner);
            &&& all.len() == inner.len() + 2
            &&& all[0] is Ok && all[1] is Ok
            &&& all[0]->Ok_0.name == "."@ && all[1]->Ok_0.name == ".."@
            &&& all[0]->Ok_0.is_dir && all[1]->Ok_0.is_dir
            &&& all[0]->Ok_0.id == 0 && all[1]->Ok_0.id == 0
            &&& all[0]->Ok_0.len == 0 && all[1]->Ok_0.len == 0
            &&& all[0]->Ok_0.path.len() == 0 && all[1]->Ok_0.path.len() == 0
            &&& forall|i: int| 0 <= i < inner.len() ==> #[trigger] inner[i] == all[i + 2]
        }),
{
}

/// Paths, names and listed entries are taken as they are.
pub proof fn law_texts_are_taken_as_they_are(
    path: String,
    name: &str,
    e: FuseError,
    items: Seq<FuseResult<FileStatus>>,
)
    ensures
        node_state::path_view(Ok(path)) == Ok::<Seq<char>, FuseError>(path@),
        node_state::path_view(Err(e)) == Err::<Seq<char>, FuseError>(e),
        dir_tree::opt_name(Some(name)) == Some(name@),
        dir_tree::opt_name(None) is None,
        node_state::listed(items).len() == items.len(),
        forall|i: int|
            #![trigger items[i]]
            0 <= i < items.len() ==> match items[i] {
                Ok(status) => node_state::listed(items)[i] == Ok::<StatusView, FuseError>(status@),
                Err(err) => node_state::listed(items)[i] == Err::<StatusView, FuseError>(err),
            },
{
}

/// A file that is being opened is seen as it is.
pub proof fn law_opening_is_seen_as_it_is(opening: Opening)
    ensures
        opening@.ino == opening.ino && opening@.flags == opening.flags,
        opening@.action == opening.action,
        opening.reader is None ==> opening@.reader is None,
        opening.reader matches Some(r) ==> opening@.reader == Some(
            OpenedView { id: r.id, status: r.status@, is_ufs: r.is_ufs },
        ),
        opening.writer is None ==> opening@.writer is None,
        opening.writer matches Some(w) ==> opening@.writer == Some(
            OpenedView { id: w.id, status: w.status@, is_ufs: w.is_ufs },
        ),
{
}

} // verus!
