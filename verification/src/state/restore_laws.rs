//! What comes back of a state file, file by file and directory by directory.
use vstd::prelude::*;

use crate::error::{FuseError, FuseResult};
use crate::persist::handle::{SavedDirHandleView, SavedHandleView};
use crate::persist::state_file::ImageView;
use crate::state::backend_handle::BackendView;
use crate::state::dir_handle::DirHandleView;
use crate::state::file_handle::FileHandleView;
use crate::state::node_view;
use crate::state::node_view::{DirHandles, FileHandles, NodeView, Reopened};

verus! {

/// The file at a place was read and opened again.
pub open spec fn comes_back(
    saved: Seq<Option<SavedHandleView>>,
    reopened: Seq<Option<Reopened>>,
    i: int,
) -> bool {
    0 <= i < saved.len() && i < reopened.len() && saved[i] is Some && reopened[i] is Some
}

/// The directory at a place was listed again.
pub open spec fn listed_again(listings: Seq<FuseResult<u64>>, i: int) -> bool {
    0 <= i < listings.len() && listings[i] is Ok
}

/// A file that was read and opened again is there after the first `n` were put
/// back, unless one behind it has its numbers.
proof fn lemma_file_is_there(
    handles: FileHandles,
    saved: Seq<Option<SavedHandleView>>,
    reopened: Seq<Option<Reopened>>,
    n: nat,
    i: int,
)
    requires
        n <= saved.len(),
        i < n,
        comes_back(saved, reopened, i),
        forall|j: int|
            i < j < n && comes_back(saved, reopened, j) ==> (#[trigger] saved[j])->Some_0.ino
                != saved[i]->Some_0.ino || saved[j]->Some_0.fh != saved[i]->Some_0.fh,
    ensures
        ({
            let h = saved[i]->Some_0;
            let again = reopened[i]->Some_0;
            let after = node_view::with_saved(handles, saved, reopened, n);
            &&& after.contains_key((h.ino, h.fh))
            &&& after[(h.ino, h.fh)] == FileHandleView::Backend(
                BackendView {
                    ino: h.ino,
                    fh: h.fh,
                    reader: again.reader,
                    writer: again.writer,
                    status: h.status,
                    flock: h.flock,
                    plock: h.plock,
                },
            )
        }),
    decreases n,
{
    if i < n - 1 {
        lemma_file_is_there(handles, saved, reopened, (n - 1) as nat, i);
        if comes_back(saved, reopened, n - 1) {
            assert(saved[n - 1] is Some);
        }
    }
}

/// Numbers that no file has that came back lead where they led.
proof fn lemma_other_numbers_stay(
    handles: FileHandles,
    saved: Seq<Option<SavedHandleView>>,
    reopened: Seq<Option<Reopened>>,
    n: nat,
    k: (u64, u64),
)
    requires
        n <= saved.len(),
        forall|j: int|
            0 <= j < n && comes_back(saved, reopened, j) ==> k != (
                (#[trigger] saved[j])->Some_0.ino,
                saved[j]->Some_0.fh,
            ),
    ensures
        ({
            let after = node_view::with_saved(handles, saved, reopened, n);
            &&& after.contains_key(k) == handles.contains_key(k)
            &&& handles.contains_key(k) ==> after[k] == handles[k]
        }),
    decreases n,
{
    if n > 0 {
        lemma_other_numbers_stay(handles, saved, reopened, (n - 1) as nat, k);
        if comes_back(saved, reopened, n - 1) {
            assert(saved[n - 1] is Some);
        }
    }
}

/// Every file that was read and opened again is open under its numbers, with
/// its status, its locks and the reader and the writer that were opened,
/// whatever became of the others: one that could not be read or opened is left
/// out alone. Only a file behind it with the same numbers takes its place.
pub proof fn law_each_file_comes_back_on_its_own(
    start: NodeView,
    image: ImageView,
    reopened: Seq<Option<Reopened>>,
    listings: Seq<FuseResult<u64>>,
    i: int,
)
    requires
        0 <= i < image.handles.len(),
        i < reopened.len(),
        image.handles[i] is Some,
        reopened[i] is Some,
        forall|j: int|
            i < j < image.handles.len() && (#[trigger] image.handles[j]) is Some ==> (
            image.handles[j]->Some_0.ino != image.handles[i]->Some_0.ino
                || image.handles[j]->Some_0.fh != image.handles[i]->Some_0.fh),
    ensures
        ({
            let h = image.handles[i]->Some_0;
            let again = reopened[i]->Some_0;
            let after = start.restored(image, reopened, listings).0;
            &&& after.handles.contains_key((h.ino, h.fh))
            &&& after.handles[(h.ino, h.fh)] == FileHandleView::Backend(
                BackendView {
                    ino: h.ino,
                    fh: h.fh,
                    reader: again.reader,
                    writer: again.writer,
                    status: h.status,
                    flock: h.flock,
                    plock: h.plock,
                },
            )
        }),
{
    lemma_file_is_there(start.handles, image.handles, reopened, image.handles.len(), i);
}

/// No file comes back that was not read and opened again, and what was open
/// under other numbers stays as it is.
pub proof fn law_no_other_file_comes_back(
    start: NodeView,
    image: ImageView,
    reopened: Seq<Option<Reopened>>,
    listings: Seq<FuseResult<u64>>,
    k: (u64, u64),
)
    requires
        forall|j: int|
            0 <= j < image.handles.len() && j < reopened.len() && (
            #[trigger] image.handles[j]) is Some && reopened[j] is Some ==> k != (
                image.handles[j]->Some_0.ino,
                image.handles[j]->Some_0.fh,
            ),
    ensures
        ({
            let after = start.restored(image, reopened, listings).0;
            &&& after.handles.contains_key(k) == start.handles.contains_key(k)
            &&& start.handles.contains_key(k) ==> after.handles[k] == start.handles[k]
        }),
{
    lemma_other_numbers_stay(start.handles, image.handles, reopened, image.handles.len(), k);
}

/// Whether a file comes back does not depend on whether another one does, as
/// long as they have different numbers.
pub proof fn law_files_come_back_independently(
    start: NodeView,
    image: ImageView,
    reopened: Seq<Option<Reopened>>,
    other: Seq<Option<Reopened>>,
    listings: Seq<FuseResult<u64>>,
    i: int,
)
    requires
        0 <= i < image.handles.len(),
        i < reopened.len(),
        i < other.len(),
        reopened[i] == other[i],
        image.handles[i] is Some,
        forall|j: int|
            0 <= j < image.handles.len() && j != i && (#[trigger] image.handles[j]) is Some ==> (
            image.handles[j]->Some_0.ino != image.handles[i]->Some_0.ino
                || image.handles[j]->Some_0.fh != image.handles[i]->Some_0.fh),
    ensures
        ({
            let k = (image.handles[i]->Some_0.ino, image.handles[i]->Some_0.fh);
            let a = start.restored(image, reopened, listings).0;
            let b = start.restored(image, other, listings).0;
            &&& a.handles.contains_key(k) == b.handles.contains_key(k)
            &&& a.handles.contains_key(k) ==> a.handles[k] == b.handles[k]
        }),
{
    let k = (image.handles[i]->Some_0.ino, image.handles[i]->Some_0.fh);
    if reopened[i] is Some {
        law_each_file_comes_back_on_its_own(start, image, reopened, listings, i);
        law_each_file_comes_back_on_its_own(start, image, other, listings, i);
    } else {
        law_no_other_file_comes_back(start, image, reopened, listings, k);
        law_no_other_file_comes_back(start, image, other, listings, k);
    }
}

/// Directories are put back as long as they are listed again.
proof fn lemma_dirs_so_far(
    dirs: DirHandles,
    saved: Seq<SavedDirHandleView>,
    listings: Seq<FuseResult<u64>>,
    n: nat,
)
    requires
        n <= saved.len(),
        forall|j: int| 0 <= j < n ==> #[trigger] listed_again(listings, j),
    ensures
        ({
            let (after, error) = node_view::with_saved_dirs(dirs, saved, listings, n);
            &&& error is None
            &&& forall|i: int|
                0 <= i < n && (forall|j: int|
                    i < j < n ==> (#[trigger] saved[j]).ino != saved[i].ino || saved[j].fh
                        != saved[i].fh) ==> after.contains_key(
                    ((#[trigger] saved[i]).ino, saved[i].fh),
                ) && after[(saved[i].ino, saved[i].fh)] == (DirHandleView {
                    ino: saved[i].ino,
                    fh: saved[i].fh,
                    path: saved[i].path,
                    limit: saved[i].limit,
                    stream: listings[i]->Ok_0,
                })
            &&& forall|k: (u64, u64)|
                #![trigger after.contains_key(k)]
                (forall|j: int| 0 <= j < n ==> k != ((#[trigger] saved[j]).ino, saved[j].fh))
                    ==> after.contains_key(k) == dirs.contains_key(k) && (dirs.contains_key(k)
                    ==> after[k] == dirs[k])
        }),
    decreases n,
{
    if n > 0 {
        let m = (n - 1) as nat;
        lemma_dirs_so_far(dirs, saved, listings, m);
        assert(listed_again(listings, n - 1));
        let before = node_view::with_saved_dirs(dirs, saved, listings, m).0;
        let after = node_view::with_saved_dirs(dirs, saved, listings, n).0;
        let last = saved[n - 1];
        assert forall|i: int|
            0 <= i < n && (forall|j: int|
                i < j < n ==> (#[trigger] saved[j]).ino != saved[i].ino || saved[j].fh
                    != saved[i].fh) implies after.contains_key(
            ((#[trigger] saved[i]).ino, saved[i].fh),
        ) && after[(saved[i].ino, saved[i].fh)] == (DirHandleView {
            ino: saved[i].ino,
            fh: saved[i].fh,
            path: saved[i].path,
            limit: saved[i].limit,
            stream: listings[i]->Ok_0,
        }) by {
            if i < n - 1 {
                assert(last.ino != saved[i].ino || last.fh != saved[i].fh);
                assert(before.contains_key((saved[i].ino, saved[i].fh)));
            }
        }
        assert forall|k: (u64, u64)|
            #![trigger after.contains_key(k)]
            (forall|j: int| 0 <= j < n ==> k != ((#[trigger] saved[j]).ino, saved[j].fh)) implies
            after.contains_key(k) == dirs.contains_key(k) && (dirs.contains_key(k) ==> after[k]
            == dirs[k]) by {
            assert(k != (last.ino, last.fh));
            assert(before.contains_key(k) == dirs.contains_key(k));
        }
    }
}

/// The first directory that is not listed again ends it.
proof fn lemma_dirs_end(
    dirs: DirHandles,
    saved: Seq<SavedDirHandleView>,
    listings: Seq<FuseResult<u64>>,
    m: nat,
    n: nat,
)
    requires
        m < n <= saved.len(),
        forall|j: int| 0 <= j < m ==> #[trigger] listed_again(listings, j),
        !listed_again(listings, m as int),
    ensures
        node_view::with_saved_dirs(dirs, saved, listings, n).0 == node_view::with_saved_dirs(
            dirs,
            saved,
            listings,
            m,
        ).0,
        node_view::with_saved_dirs(dirs, saved, listings, n).1 == Some(
            if m < listings.len() {
                listings[m as int]->Err_0
            } else {
                FuseError::CorruptState
            },
        ),
    decreases n - m,
{
    lemma_dirs_so_far(dirs, saved, listings, m);
    if m < n - 1 {
        lemma_dirs_end(dirs, saved, listings, m, (n - 1) as nat);
    }
}

/// Where `m` directories were listed again before the first that was not, or
/// before the end: each of the `m` is open under its numbers, with its path,
/// its limit and its new listing, unless one behind it has the same numbers,
/// and what was open under other numbers stays.
pub proof fn law_directories_come_back_up_to_a_failure(
    start: NodeView,
    image: ImageView,
    reopened: Seq<Option<Reopened>>,
    listings: Seq<FuseResult<u64>>,
    m: nat,
    i: int,
    k: (u64, u64),
)
    requires
        m <= image.dir_handles.len(),
        forall|j: int| 0 <= j < m ==> #[trigger] listed_again(listings, j),
        m < image.dir_handles.len() ==> !listed_again(listings, m as int),
    ensures
        ({
            let after = start.restored(image, reopened, listings).0;
            let saved = image.dir_handles;
            &&& 0 <= i < m && (forall|j: int|
                i < j < m ==> (#[trigger] saved[j]).ino != saved[i].ino || saved[j].fh
                    != saved[i].fh) ==> after.dir_handles.contains_key(
                (saved[i].ino, saved[i].fh),
            ) && after.dir_handles[(saved[i].ino, saved[i].fh)] == (DirHandleView {
                ino: saved[i].ino,
                fh: saved[i].fh,
                path: saved[i].path,
                limit: saved[i].limit,
                stream: listings[i]->Ok_0,
            })
            &&& (forall|j: int| 0 <= j < m ==> k != ((#[trigger] saved[j]).ino, saved[j].fh)) ==> (
            after.dir_handles.contains_key(k) == start.dir_handles.contains_key(k) && (
            start.dir_handles.contains_key(k) ==> after.dir_handles[k] == start.dir_handles[k]))
        }),
{
    let saved = image.dir_handles;
    lemma_dirs_so_far(start.dir_handles, saved, listings, m);
    if m < saved.len() {
        lemma_dirs_end(start.dir_handles, saved, listings, m, saved.len());
    }
    let put = node_view::with_saved_dirs(start.dir_handles, saved, listings, m).0;
    let after = start.restored(image, reopened, listings).0;
    assert(after.dir_handles == put);
    assert(put.contains_key(k) == after.dir_handles.contains_key(k));
}

/// How a restore ends. The tree is the file's where one was read, whatever
/// comes after it. It succeeds if and only if every directory was listed again
/// and the file could be read to its end; then, and only then, the last handle
/// number is the file's. Else it is answered with what went wrong first: a
/// listing, then the file.
pub proof fn law_how_a_restore_ends(
    start: NodeView,
    image: ImageView,
    reopened: Seq<Option<Reopened>>,
    listings: Seq<FuseResult<u64>>,
    m: nat,
)
    requires
        m <= image.dir_handles.len(),
        forall|j: int| 0 <= j < m ==> #[trigger] listed_again(listings, j),
        m < image.dir_handles.len() ==> !listed_again(listings, m as int),
    ensures
        ({
            let (after, answer) = start.restored(image, reopened, listings);
            &&& after.conf == start.conf
            &&& image.tree matches Some(tree) ==> after.tree == tree
            &&& image.tree is None ==> after.tree == start.tree
            &&& m < image.dir_handles.len() && m < listings.len() ==> answer == Err::<
                (),
                FuseError,
            >(listings[m as int]->Err_0)
            &&& m < image.dir_handles.len() && m >= listings.len() ==> answer is Err
            &&& m == image.dir_handles.len() ==> match image.end {
                Ok(last_fh) => answer == Ok::<(), FuseError>(()) && after.last_fh == last_fh,
                Err(e) => answer == Err::<(), FuseError>(e),
            }
            &&& answer is Err ==> after.last_fh == start.last_fh
        }),
{
    let saved = image.dir_handles;
    lemma_dirs_so_far(start.dir_handles, saved, listings, m);
    if m < saved.len() {
        lemma_dirs_end(start.dir_handles, saved, listings, m, saved.len());
    }
}

/// What a state file holds: the tree, the last handle number, and of every
/// open file and directory of the daemon exactly one entry, with its numbers,
/// its status or path, its locks or limit, and whether it had a reader and a
/// writer.
pub proof fn law_what_a_state_file_holds(
    state: NodeView,
    image: ImageView,
    order: Seq<(u64, u64)>,
    dir_order: Seq<(u64, u64)>,
    k: (u64, u64),
)
    requires
        state.storable(),
        state.saved_as(image, order, dir_order),
    ensures
        image.tree == Some(state.tree),
        image.end == Ok::<u64, FuseError>(state.last_fh),
        image.handles.len() == order.len() && image.dir_handles.len() == dir_order.len(),
        state.handles.contains_key(k) ==> exists|i: int|
            0 <= i < order.len() && #[trigger] order[i] == k,
        state.dir_handles.contains_key(k) ==> exists|i: int|
            0 <= i < dir_order.len() && #[trigger] dir_order[i] == k,
        forall|i: int, j: int|
            0 <= i < j < order.len() ==> #[trigger] order[i] != #[trigger] order[j],
        forall|i: int, j: int|
            0 <= i < j < dir_order.len() ==> #[trigger] dir_order[i] != #[trigger] dir_order[j],
        forall|i: int|
            #![trigger image.handles[i]]
            0 <= i < order.len() ==> state.handles.contains_key(order[i]) && image.handles[i] is Some
                && ({
                let kept = image.handles[i]->Some_0;
                let h = state.handles[order[i]]->Backend_0;
                &&& kept.ino == h.ino && kept.fh == h.fh && kept.status == h.status
                &&& kept.flock == h.flock && kept.plock == h.plock
                &&& kept.has_reader <==> h.reader is Some
                &&& kept.has_writer <==> h.writer is Some
            }),
        forall|i: int|
            #![trigger image.dir_handles[i]]
            0 <= i < dir_order.len() ==> state.dir_handles.contains_key(dir_order[i]) && ({
                let kept = image.dir_handles[i];
                let h = state.dir_handles[dir_order[i]];
                &&& kept.ino == h.ino && kept.fh == h.fh
                &&& kept.path == h.path && kept.limit == h.limit
            }),
{
    if state.handles.contains_key(k) {
        assert(order.to_set().contains(k));
    }
    if state.dir_handles.contains_key(k) {
        assert(dir_order.to_set().contains(k));
    }
    assert forall|i: int| 0 <= i < order.len() implies #[trigger] state.handles.contains_key(
        order[i],
    ) by {
        assert(order.to_set().contains(order[i]));
    }
    assert forall|i: int| 0 <= i < dir_order.len() implies #[trigger] state.dir_handles.contains_key(
        dir_order[i],
    ) by {
        assert(dir_order.to_set().contains(dir_order[i]));
    }
}

} // verus!
