//! What holds of an inode whatever is reported of it or changed in it.
use vstd::prelude::*;

use crate::dcache::flags::{DirtyFlags, Lifecycle};
use crate::dcache::inode;
use crate::dcache::inode::{Inode, InodeView};
use crate::error::FuseError;
use crate::status::{SetAttrView, StatusView};

verus! {

/// After a status was taken over there is an entry table if and only if the
/// status is that of a directory. A directory that stays one keeps its
/// entries; what just became one has none.
pub proof fn law_entry_table_follows_status(inode: InodeView, status: StatusView, now: u64)
    requires
        inode.dir is Some <==> inode.status.is_dir,
    ensures
        inode.updated(status, now).dir is Some <==> status.is_dir,
        inode.status.is_dir && status.is_dir ==> inode.updated(status, now).dir == inode.dir,
        !inode.status.is_dir && status.is_dir ==> inode.updated(status, now).dir == Some(
            Map::<Seq<char>, u64>::empty(),
        ),
        inode.updated(status, now).cache_valid(0, now),
{
}

/// An inode that was made here is valid at any time, and giving up cached
/// statuses does not touch it.
pub proof fn law_local_changes_stay(inode: InodeView, ttl: u64, now: u64)
    requires
        inode.lifecycle is Dirty,
    ensures
        inode.invalidated() == inode,
        inode.cache_valid(ttl, now),
{
}

/// A cached status that was given up is not valid at any time.
pub proof fn law_given_up_is_not_valid(inode: InodeView, ttl: u64, now: u64)
    requires
        !(inode.lifecycle is Dirty),
    ensures
        inode.invalidated().lifecycle == Lifecycle::Invalid,
        !inode.invalidated().cache_valid(ttl, now),
        inode.invalidated().invalidated() == inode.invalidated(),
{
}

/// A change of attributes marks them as not written back. An attribute that
/// is removed is gone, also where the same change added it; one that is added
/// and not removed has the new value; the others stay. Making the same change
/// again changes nothing.
pub proof fn law_attributes_change_as_asked(inode: InodeView, opts: SetAttrView)
    ensures
        ({
            let after = inode.with_attrs(opts);
            &&& after.dirty.spec_contains(DirtyFlags::ATTR)
            &&& forall|k: Seq<char>| #[trigger]
                opts.remove_x_attr.contains(k) ==> !after.status.x_attr.contains_key(k)
            &&& forall|k: Seq<char>|
                opts.add_x_attr.contains_key(k) && !opts.remove_x_attr.contains(k)
                    ==> #[trigger] after.status.x_attr.contains_key(k) && after.status.x_attr[k]
                    == opts.add_x_attr[k]
            &&& forall|k: Seq<char>|
                !opts.add_x_attr.contains_key(k) && !opts.remove_x_attr.contains(k)
                    && inode.status.x_attr.contains_key(k)
                    ==> #[trigger] after.status.x_attr.contains_key(k) && after.status.x_attr[k]
                    == inode.status.x_attr[k]
            &&& after.status.with_attrs(opts) == after.status
            &&& after.dir == inode.dir
        }),
{
    let after = inode.with_attrs(opts);
    let bits = inode.dirty.bits;
    assert((bits | 4u8) & 4u8 == 4u8) by (bit_vector);
    assert(after.status.with_attrs(opts).x_attr =~= after.status.x_attr);
    assert(after.status.with_attrs(opts) =~= after.status);
}

/// A change of attributes sets each of the two times, mode, owner and group to
/// the value that is given for it and leaves those alone that none is given
/// for. Nothing else of the status changes but extended attributes, and
/// nothing else of the inode but that its attributes are not written back.
pub proof fn law_given_attributes_are_set(inode: InodeView, opts: SetAttrView)
    ensures
        ({
            let was = inode.status;
            let now = inode.with_attrs(opts).status;
            &&& opts.mtime matches Some(v) ==> now.mtime == v
            &&& opts.mtime is None ==> now.mtime == was.mtime
            &&& opts.atime matches Some(v) ==> now.atime == v
            &&& opts.atime is None ==> now.atime == was.atime
            &&& opts.mode matches Some(v) ==> now.mode == v
            &&& opts.mode is None ==> now.mode == was.mode
            &&& opts.owner matches Some(v) ==> now.owner == v
            &&& opts.owner is None ==> now.owner == was.owner
            &&& opts.group matches Some(v) ==> now.group == v
            &&& opts.group is None ==> now.group == was.group
            &&& now.id == was.id && now.len == was.len && now.nlink == was.nlink
            &&& now.is_dir == was.is_dir && now.path == was.path && now.name == was.name
            &&& forall|k: Seq<char>| #[trigger]
                now.x_attr.contains_key(k) ==> !opts.remove_x_attr.contains(k) && (
                opts.add_x_attr.contains_key(k) || was.x_attr.contains_key(k))
        }),
        ({
            let after = inode.with_attrs(opts);
            &&& after.ino == inode.ino && after.parent == inode.parent && after.name == inode.name
            &&& after.lifecycle == inode.lifecycle && after.last_access == inode.last_access
            &&& after.n_lookup == inode.n_lookup && after.ref_ctr == inode.ref_ctr
            &&& after.dir == inode.dir && after.mark_delete == inode.mark_delete
            &&& after.dirty.bits & 4 == 4
            &&& after.dirty.bits & 251 == inode.dirty.bits & 251
        }),
{
    let bits = inode.dirty.bits;
    assert((bits | 4u8) & 4u8 == 4u8) by (bit_vector);
    assert((bits | 4u8) & 251u8 == bits & 251u8) by (bit_vector);
}

/// The later of two changes counts: an attribute that it gives has its value
/// whatever the first one gave, and one that it does not give has the value of
/// the first.
pub proof fn law_later_change_counts(inode: InodeView, first: SetAttrView, second: SetAttrView)
    ensures
        ({
            let once = inode.with_attrs(second).status;
            let both = inode.with_attrs(first).with_attrs(second).status;
            let before = inode.with_attrs(first).status;
            &&& second.mode is Some ==> both.mode == once.mode
            &&& second.mode is None ==> both.mode == before.mode
            &&& second.mtime is Some ==> both.mtime == once.mtime
            &&& second.mtime is None ==> both.mtime == before.mtime
            &&& second.atime is Some ==> both.atime == once.atime
            &&& second.atime is None ==> both.atime == before.atime
            &&& second.owner is Some ==> both.owner == once.owner
            &&& second.owner is None ==> both.owner == before.owner
            &&& second.group is Some ==> both.group == once.group
            &&& second.group is None ==> both.group == before.group
        }),
{
}

/// The root is inode one, a directory named by the separator, without entries,
/// without lookups and references, and cached as of now.
pub proof fn law_root_starts_out(now: u64)
    ensures
        ({
            let root = InodeView::root(now);
            &&& root.ino == 1 && root.parent == 0
            &&& root.name == "/"@ && root.status.name == "/"@ && root.status.path == "/"@
            &&& root.status.is_dir && root.dir is Some
            &&& forall|k: Seq<char>| !(#[trigger] root.dir->Some_0.contains_key(k))
            &&& root.n_lookup == 0 && root.ref_ctr == 0
            &&& root.last_access == now && root.lifecycle is Cached
            &&& root.dirty.bits == 0 && !root.mark_delete
            &&& root.status.id == 0 && root.status.len == 0 && root.status.mtime == 0
            &&& root.status.atime == 0 && root.status.mode == 0 && root.status.nlink == 0
            &&& root.status.owner.len() == 0 && root.status.group.len() == 0
            &&& forall|k: Seq<char>| !(#[trigger] root.status.x_attr.contains_key(k))
            &&& !root.should_unref()
        }),
{
}

/// An inode that is made for a lookup has the place, the status and the time
/// of the lookup, one lookup and one reference, and an empty entry table if
/// and only if it is a directory.
pub proof fn law_fresh_inode(ino: u64, parent: u64, name: Seq<char>, status: StatusView, now: u64)
    ensures
        ({
            let inode = InodeView::fresh(ino, parent, name, status, now);
            &&& inode.ino == ino && inode.parent == parent && inode.name == name
            &&& inode.status == status && inode.last_access == now
            &&& inode.n_lookup == 1 && inode.ref_ctr == 1
            &&& inode.lifecycle is Cached && inode.dirty.bits == 0 && !inode.mark_delete
            &&& inode.dir is Some <==> status.is_dir
            &&& inode.dir matches Some(children) ==> forall|k: Seq<char>|
                !(#[trigger] children.contains_key(k))
        }),
{
}

/// A status that is taken over is the inode's status from then on, cached as
/// of now. Its place, its counters, what is not written back and its mark for
/// deletion stay. Whatever the entry table was, a directory has its entries or
/// none, and what is no directory has no table.
pub proof fn law_status_is_taken_over(inode: InodeView, status: StatusView, now: u64)
    ensures
        ({
            let after = inode.updated(status, now);
            &&& after.status == status
            &&& after.lifecycle is Cached
            &&& after.last_access == now
            &&& after.ino == inode.ino && after.parent == inode.parent && after.name == inode.name
            &&& after.n_lookup == inode.n_lookup && after.ref_ctr == inode.ref_ctr
            &&& after.dirty == inode.dirty && after.mark_delete == inode.mark_delete
            &&& !status.is_dir ==> after.dir is None
            &&& status.is_dir ==> after.dir is Some
            &&& status.is_dir && inode.status.is_dir && inode.dir is Some ==> after.dir
                == inode.dir
            &&& status.is_dir && !(inode.status.is_dir && inode.dir is Some) ==> forall|
                k: Seq<char>,
            |
                !(#[trigger] after.dir->Some_0.contains_key(k))
        }),
{
}

/// Giving up a cached status changes nothing but that it is given up.
pub proof fn law_giving_up_touches_nothing_else(inode: InodeView)
    ensures
        ({
            let after = inode.invalidated();
            &&& inode.lifecycle is Cached ==> after.lifecycle is Invalid
            &&& !(inode.lifecycle is Cached) ==> after.lifecycle == inode.lifecycle
            &&& after.ino == inode.ino && after.parent == inode.parent && after.name == inode.name
            &&& after.status == inode.status && after.dirty == inode.dirty
            &&& after.n_lookup == inode.n_lookup && after.ref_ctr == inode.ref_ctr
            &&& after.last_access == inode.last_access && after.dir == inode.dir
            &&& after.mark_delete == inode.mark_delete
        }),
{
}

/// Lookups are counted up to the largest number and given back down to zero.
/// Counting one is an access; giving one back is none. Nothing else changes.
pub proof fn law_lookups_are_counted(inode: InodeView, v: u64, now: u64)
    ensures
        ({
            let up = inode.looked_up(v, now);
            let down = inode.forgotten(v);
            &&& inode.n_lookup + v <= u64::MAX ==> up.n_lookup == inode.n_lookup + v
            &&& inode.n_lookup + v > u64::MAX ==> up.n_lookup == u64::MAX
            &&& v <= inode.n_lookup ==> down.n_lookup == inode.n_lookup - v
            &&& v > inode.n_lookup ==> down.n_lookup == 0
            &&& up.last_access == now && down.last_access == inode.last_access
            &&& up.ino == inode.ino && up.parent == inode.parent && up.name == inode.name
            &&& down.ino == inode.ino && down.parent == inode.parent && down.name == inode.name
            &&& up.status == inode.status && down.status == inode.status
            &&& up.lifecycle == inode.lifecycle && down.lifecycle == inode.lifecycle
            &&& up.dirty == inode.dirty && down.dirty == inode.dirty
            &&& up.ref_ctr == inode.ref_ctr && down.ref_ctr == inode.ref_ctr
            &&& up.dir == inode.dir && down.dir == inode.dir
            &&& up.mark_delete == inode.mark_delete && down.mark_delete == inode.mark_delete
        }),
{
}

/// An inode that loses its entry loses one reference and one link, where it
/// has any, and nothing else.
pub proof fn law_lost_entry_takes_one_link(inode: InodeView)
    ensures
        ({
            let after = inode.unlinked();
            &&& inode.ref_ctr > 0 ==> after.ref_ctr == inode.ref_ctr - 1
            &&& inode.ref_ctr == 0 ==> after.ref_ctr == 0
            &&& inode.status.nlink > 0 ==> after.status.nlink == inode.status.nlink - 1
            &&& inode.status.nlink == 0 ==> after.status.nlink == 0
            &&& after.status == (StatusView { nlink: after.status.nlink, ..inode.status })
            &&& after == (InodeView { ref_ctr: after.ref_ctr, status: after.status, ..inode })
        }),
{
}

/// An inode may go if and only if it has no lookup, no reference, and is not
/// the root.
pub proof fn law_what_keeps_an_inode(inode: InodeView)
    ensures
        inode.n_lookup > 0 ==> !inode.should_unref(),
        inode.ref_ctr > 0 ==> !inode.should_unref(),
        inode.ino == 1 ==> !inode.should_unref(),
        inode.n_lookup == 0 && inode.ref_ctr == 0 && inode.ino != 1 ==> inode.should_unref(),
{
}

/// A cached status may be used until its time is over, a change made here
/// always, and one that was given up never.
pub proof fn law_when_a_status_may_be_used(inode: InodeView, ttl: u64, now: u64)
    ensures
        inode.lifecycle is Cached && now <= inode.last_access + ttl ==> inode.cache_valid(ttl, now),
        inode.lifecycle is Cached && now > inode.last_access + ttl ==> !inode.cache_valid(ttl, now),
        inode.lifecycle is Dirty ==> inode.cache_valid(ttl, now),
        inode.lifecycle is Invalid ==> !inode.cache_valid(ttl, now),
{
}

/// A file may always be removed, a directory if and only if it has no entry.
/// One with an entry is not empty, and one without an entry table is broken.
pub proof fn law_only_an_empty_directory_may_go(inode: InodeView, name: Seq<char>)
    ensures
        !inode.status.is_dir ==> inode.dir_empty_error() is None,
        inode.status.is_dir && inode.dir is None ==> inode.dir_empty_error() == Some(
            FuseError::MissingDirEntry { ino: inode.ino },
        ),
        inode.status.is_dir && inode.dir is Some && inode.dir->Some_0.contains_key(name)
            ==> inode.dir_empty_error() == Some(FuseError::DirectoryNotEmpty { ino: inode.ino }),
        inode.status.is_dir && inode.dir is Some && (forall|k: Seq<char>|
            !(#[trigger] inode.dir->Some_0.contains_key(k))) ==> inode.dir_empty_error() is None,
{
    if inode.dir is Some {
        let children = inode.dir->Some_0;
        if forall|k: Seq<char>| !(#[trigger] children.contains_key(k)) {
            assert(children =~= Map::<Seq<char>, u64>::empty());
        }
    }
}

/// Counters add up to the largest number and no further, and go down to zero
/// and no further; short of that they are sums and differences.
pub proof fn law_counters_stop_at_their_ends(a: u64, b: u64, c: u32, d: u32)
    ensures
        a + b <= u64::MAX ==> inode::sat_add(a, b) == a + b,
        a + b > u64::MAX ==> inode::sat_add(a, b) == u64::MAX,
        b <= a ==> inode::sat_sub(a, b) == a - b,
        b > a ==> inode::sat_sub(a, b) == 0,
        d <= c ==> inode::sat_sub_links(c, d) == c - d,
        d > c ==> inode::sat_sub_links(c, d) == 0,
{
}

/// A check fails with the error that was found and succeeds where none was.
pub proof fn law_check_fails_with_what_was_found(error: Option<FuseError>)
    ensures
        error matches Some(e) ==> inode::ok_unless(error) == Err::<(), FuseError>(e),
        error is None ==> inode::ok_unless(error) is Ok,
{
}

/// An inode is seen as it is, field by field, and the root is inode one.
pub proof fn law_inode_is_seen_as_it_is(inode: Inode)
    ensures
        inode@.ino == inode.ino && inode@.parent == inode.parent && inode@.name == inode.name@,
        inode@.status == inode.status@ && inode@.lifecycle == inode.lifecycle,
        inode@.dirty == inode.dirty && inode@.n_lookup == inode.n_lookup,
        inode@.ref_ctr == inode.ref_ctr && inode@.last_access == inode.last_access,
        inode@.mark_delete == inode.mark_delete,
        inode.dir is None ==> inode@.dir is None,
        inode.dir matches Some(d) ==> inode@.dir == Some(d.children@),
        inode@.is_root() <==> inode.ino == 1,
{
}

} // verus!
