//! What can be read of a state file, and what of a damaged one.
use vstd::prelude::*;

use crate::dcache::dir_tree::DirTree;
use crate::error::FuseError;
use crate::persist::handle::{SavedDirHandle, SavedHandle};
use crate::persist::state_file;
use crate::persist::state_file::StateImage;
use crate::record;
use crate::record::Record;

verus! {

/// What is read of frames does not depend on what follows them.
proof fn lemma_framed_extends<T: Record>(s: Seq<u8>, n: nat, more: Seq<u8>)
    ensures
        ({
            let (values, rest, complete) = state_file::framed::<T>(s, n);
            complete ==> state_file::framed::<T>(s + more, n) == (values, rest + more, true)
        }),
    decreases n,
{
    if n > 0 {
        lemma_framed_extends::<T>(s, (n - 1) as nat, more);
        let rest = state_file::framed::<T>(s, (n - 1) as nat).1;
        <Vec<u8> as Record>::lemma_extends(rest, more);
    }
}

/// What is read of frames that each hold a value does not depend on what
/// follows them.
proof fn lemma_framed_all_extends<T: Record>(s: Seq<u8>, n: nat, more: Seq<u8>)
    ensures
        ({
            let (values, rest, complete) = state_file::framed_all::<T>(s, n);
            complete ==> state_file::framed_all::<T>(s + more, n) == (values, rest + more, true)
        }),
    decreases n,
{
    if n > 0 {
        lemma_framed_all_extends::<T>(s, (n - 1) as nat, more);
        let rest = state_file::framed_all::<T>(s, (n - 1) as nat).1;
        <Vec<u8> as Record>::lemma_extends(rest, more);
    }
}

/// A state file that can be read to its end is read the same whatever follows
/// it, and what follows is left.
pub proof fn law_what_follows_a_state_file_is_left(file: Seq<u8>, more: Seq<u8>)
    requires
        state_file::image_of(file).end is Ok,
    ensures
        state_file::image_of(file + more) == state_file::image_of(file),
        state_file::behind_state(file + more) == state_file::behind_state(file) + more,
{
    let longer = file + more;
    assert(longer.take(4) =~= file.take(4));
    assert(longer.skip(4) =~= file.skip(4) + more);
    u64::lemma_extends(file.skip(4), more);
    let s1 = u64::parse(file.skip(4))->Some_0.1;
    DirTree::lemma_extends(s1, more);
    let s2 = DirTree::parse(s1)->Some_0.1;
    u64::lemma_extends(s2, more);
    let (n, s3) = u64::parse(s2)->Some_0;
    lemma_framed_extends::<SavedHandle>(s3, n as nat, more);
    let s4 = state_file::framed::<SavedHandle>(s3, n as nat).1;
    u64::lemma_extends(s4, more);
    let (m, s5) = u64::parse(s4)->Some_0;
    lemma_framed_all_extends::<SavedDirHandle>(s5, m as nat, more);
    let s6 = state_file::framed_all::<SavedDirHandle>(s5, m as nat).1;
    u64::lemma_extends(s6, more);
}

/// A state file that was cut anywhere before its end is noticed.
pub proof fn law_cut_file_is_noticed(file: Seq<u8>, n: int)
    requires
        state_file::image_of(file).end is Ok,
        state_file::behind_state(file).len() == 0,
        0 <= n < file.len(),
    ensures
        state_file::image_of(file.take(n)).end is Err,
{
    if state_file::image_of(file.take(n)).end is Ok {
        law_what_follows_a_state_file_is_left(file.take(n), file.skip(n));
        assert(file.take(n) + file.skip(n) =~= file);
    }
}

/// A file that is too short for the mark holds nothing and none of it is read.
pub proof fn law_file_without_a_mark(file: Seq<u8>)
    requires
        file.len() < 4,
    ensures
        state_file::image_of(file).tree is None,
        state_file::image_of(file).handles.len() == 0,
        state_file::image_of(file).dir_handles.len() == 0,
        state_file::image_of(file).end == Err::<u64, FuseError>(FuseError::CorruptState),
        state_file::behind_state(file) == file,
{
}

/// A file without the mark or with another version gives nothing: neither a
/// tree nor a handle.
pub proof fn law_foreign_file_gives_nothing(file: Seq<u8>)
    requires
        file.len() >= 4,
    ensures
        state_file::magic() == seq![0x43u8, 0x56u8, 0x46u8, 0x53u8],
        file.take(4) != state_file::magic() ==> state_file::image_of(file).tree is None
            && state_file::image_of(file).handles.len() == 0 && state_file::image_of(
            file,
        ).dir_handles.len() == 0 && state_file::image_of(file).end is Err,
        file.take(4) == state_file::magic() ==> (u64::parse(file.skip(4)) matches Some((v, _))
            ==> v != 1 ==> state_file::image_of(file).tree is None && state_file::image_of(
            file,
        ).handles.len() == 0 && state_file::image_of(file).dir_handles.len() == 0
            && state_file::image_of(file).end == Err::<u64, FuseError>(
            FuseError::UnsupportedVersion { version: v },
        )),
{
}

/// A frame that holds no value hides no other: as long as there are frames,
/// each gives the value that makes up all of it, or a gap where none does,
/// whatever the frames before it hold.
pub proof fn law_unreadable_value_hides_no_other<T: Record>(s: Seq<u8>, n: nat, i: int)
    requires
        0 <= i < n,
        state_file::framed::<T>(s, n).2,
    ensures
        ({
            let values = state_file::framed::<T>(s, n).0;
            let rest = state_file::framed::<T>(s, i as nat).1;
            &&& values.len() == n
            &&& <Vec<u8> as Record>::parse(rest) is Some
            &&& ({
                let frame = <Vec<u8> as Record>::parse(rest)->Some_0.0;
                &&& T::parse(frame) is None ==> values[i] is None
                &&& T::parse(frame) matches Some((v, left)) ==> (if left.len() == 0 {
                    values[i] == Some(v)
                } else {
                    values[i] is None
                })
            })
        }),
    decreases n,
{
    if n > 1 {
        if i < n - 1 {
            law_unreadable_value_hides_no_other::<T>(s, (n - 1) as nat, i);
        } else {
            law_unreadable_value_hides_no_other::<T>(s, (n - 1) as nat, 0);
        }
    }
}

/// How far frames are read does not depend on what they hold.
pub proof fn law_frames_are_read_whatever_they_hold<T: Record, U: Record>(s: Seq<u8>, n: nat)
    ensures
        state_file::framed::<T>(s, n).1 == state_file::framed::<U>(s, n).1,
        state_file::framed::<T>(s, n).2 == state_file::framed::<U>(s, n).2,
    decreases n,
{
    if n > 0 {
        law_frames_are_read_whatever_they_hold::<T, U>(s, (n - 1) as nat);
    }
}

/// Where every frame holds a value, reading all of them and reading up to the
/// first that holds none is the same; where one holds none, only what comes
/// before it is read.
pub proof fn law_directories_end_at_the_first_gap<T: Record>(s: Seq<u8>, n: nat, i: int)
    requires
        0 <= i < n,
        state_file::framed::<T>(s, n).2,
    ensures
        ({
            let all = state_file::framed::<T>(s, n).0;
            let (values, rest, complete) = state_file::framed_all::<T>(s, n);
            &&& complete ==> values.len() == n && all[i] == Some(values[i])
            &&& all[i] is None ==> !complete && values.len() <= i
            &&& values.len() <= n
        }),
    decreases n,
{
    let m = (n - 1) as nat;
    if n == 1 {
        assert(state_file::framed::<T>(s, 0).2);
    } else {
        if i < m {
            law_directories_end_at_the_first_gap::<T>(s, m, i);
        } else {
            lemma_gap_before::<T>(s, m);
        }
    }
    lemma_rests_agree::<T>(s, m);
    law_unreadable_value_hides_no_other::<T>(s, n, i);
}

/// As long as every frame holds a value, both ways of reading are at the same
/// place.
proof fn lemma_rests_agree<T: Record>(s: Seq<u8>, n: nat)
    ensures
        ({
            let (values, rest, complete) = state_file::framed_all::<T>(s, n);
            &&& complete ==> state_file::framed::<T>(s, n).2 && state_file::framed::<T>(s, n).1
                == rest && state_file::framed::<T>(s, n).0.len() == n && values.len() == n
            &&& complete ==> forall|j: int|
                0 <= j < n ==> #[trigger] state_file::framed::<T>(s, n).0[j] == Some(values[j])
        }),
    decreases n,
{
    if n > 0 {
        lemma_rests_agree::<T>(s, (n - 1) as nat);
    }
}

/// No more values are read than there are frames.
proof fn lemma_gap_before<T: Record>(s: Seq<u8>, n: nat)
    ensures
        state_file::framed_all::<T>(s, n).0.len() <= n,
    decreases n,
{
    if n > 0 {
        lemma_gap_before::<T>(s, (n - 1) as nat);
    }
}

/// Lists of values are taken as they are, with a gap for each that is missing.
pub proof fn law_lists_are_taken_as_they_are<T: Record>(values: Seq<T>, gaps: Seq<Option<T>>)
    ensures
        record::models(values).len() == values.len(),
        forall|i: int|
            0 <= i < values.len() ==> #[trigger] record::models(values)[i] == values[i].model(),
        state_file::opt_models(gaps).len() == gaps.len(),
        forall|i: int|
            #![trigger gaps[i]]
            0 <= i < gaps.len() ==> match gaps[i] {
                Some(x) => state_file::opt_models(gaps)[i] == Some(x.model()),
                None => state_file::opt_models(gaps)[i] is None,
            },
{
}

/// What was read of a state file is seen as it is.
pub proof fn law_image_is_seen_as_it_is(image: StateImage)
    ensures
        image.tree is None ==> image@.tree is None,
        image.tree matches Some(tree) ==> image@.tree == Some(tree@),
        image@.handles == state_file::opt_models(image.handles@),
        image@.dir_handles == record::models(image.dir_handles@),
        image@.end == image.end,
{
}

} // verus!
