//! What is read of the page cache and what is written to it, byte by byte.
use vstd::prelude::*;

use crate::error::FuseError;
use crate::pcache::buffers::DataSlice;
use crate::pcache::cache_manager;
use crate::pcache::cache_manager::CacheManager;
use crate::pcache::inode_cache;
use crate::pcache::inode_cache::InodeCache;

verus! {

/// A read gives every cached byte from its offset on, up to the length that is
/// asked for or the end of what is cached, whichever comes first. Where there
/// is no such byte it gives nothing, and a negative offset is refused.
pub proof fn law_read_gives_what_is_cached(bytes: Seq<u8>, off: i64, len: usize)
    requires
        bytes.len() <= isize::MAX,
    ensures
        ({
            let got = inode_cache::read_result(bytes, off, len);
            &&& off < 0 ==> got == Err::<Option<Seq<u8>>, FuseError>(FuseError::NegativeOffset)
            &&& off >= 0 ==> got is Ok
            &&& 0 <= off < bytes.len() && 0 < len <= i64::MAX && off + len <= bytes.len() ==> got
                == Ok::<Option<Seq<u8>>, FuseError>(
                Some(bytes.subrange(off as int, off + len)),
            )
            &&& 0 <= off < bytes.len() && 0 < len <= i64::MAX && off + len > bytes.len() ==> got
                == Ok::<Option<Seq<u8>>, FuseError>(
                Some(bytes.subrange(off as int, bytes.len() as int)),
            )
            &&& off >= bytes.len() ==> got == Ok::<Option<Seq<u8>>, FuseError>(None)
            &&& off >= 0 && len == 0 ==> got == Ok::<Option<Seq<u8>>, FuseError>(None)
            &&& off >= 0 && len > i64::MAX ==> got == Ok::<Option<Seq<u8>>, FuseError>(None)
        }),
{
    let wide = len as u64;
    assert(wide > 0x7fff_ffff_ffff_ffffu64 ==> (wide as i64) < 0) by (bit_vector);
    assert(wide as i64 == len as i64);
}

/// Reading in two parts gives what reading at once gives.
pub proof fn law_parts_of_a_read_join(bytes: Seq<u8>, off: i64, first: usize, second: usize)
    requires
        bytes.len() <= isize::MAX,
        off >= 0,
        first > 0,
        second > 0,
        off + first + second <= bytes.len(),
    ensures
        ({
            let a = inode_cache::read_result(bytes, off, first);
            let b = inode_cache::read_result(bytes, (off + first) as i64, second);
            let whole = inode_cache::read_result(bytes, off, (first + second) as usize);
            &&& a is Ok && a->Ok_0 is Some && b is Ok && b->Ok_0 is Some
            &&& whole == Ok::<Option<Seq<u8>>, FuseError>(
                Some(a->Ok_0->Some_0 + b->Ok_0->Some_0),
            )
        }),
{
    let a = inode_cache::read_result(bytes, off, first)->Ok_0->Some_0;
    let b = inode_cache::read_result(bytes, (off + first) as i64, second)->Ok_0->Some_0;
    assert(a + b =~= bytes.subrange(off as int, off + first + second));
}

/// Data that starts where the cached bytes end is put behind them, all of it.
/// Data that starts anywhere else is refused, and data without bytes is taken
/// anywhere; neither changes the cached bytes.
pub proof fn law_write_appends_or_is_refused(bytes: Seq<u8>, off: i64, data: Seq<u8>)
    requires
        bytes.len() + data.len() <= isize::MAX,
    ensures
        ({
            let (after, answer) = cache_manager::write_result(bytes, off, data);
            &&& data.len() == 0 ==> after == bytes && answer == Ok::<usize, FuseError>(0)
            &&& data.len() > 0 && off == bytes.len() ==> answer == Ok::<usize, FuseError>(
                data.len() as usize,
            ) && after.len() == bytes.len() + data.len() && after.take(bytes.len() as int) == bytes
                && after.skip(bytes.len() as int) == data
            &&& data.len() > 0 && off != bytes.len() ==> after == bytes && answer == Err::<
                usize,
                FuseError,
            >(FuseError::NotSequential { offset: off, len: bytes.len() as usize })
        }),
{
    let after = cache_manager::write_result(bytes, off, data).0;
    if data.len() > 0 && off == bytes.len() {
        assert(after.take(bytes.len() as int) =~= bytes);
        assert(after.skip(bytes.len() as int) =~= data);
    }
}

/// A write changes the bytes of its inode's cache and nothing else of it or of
/// any other; data without bytes makes no cache.
pub proof fn law_write_touches_its_bytes_alone(
    before: CacheManager,
    after: CacheManager,
    ino: u64,
    off: i64,
    data: Seq<u8>,
    other: u64,
)
    requires
        before.after_write(after, ino, off, data),
        before.bytes(ino).len() + data.len() <= isize::MAX,
    ensures
        after.dirty() == before.dirty(),
        other != ino ==> after@.contains_key(other) == before@.contains_key(other),
        other != ino && before@.contains_key(other) ==> after@[other] == before@[other],
        data.len() == 0 ==> after@ == before@,
        data.len() > 0 ==> after@.contains_key(ino),
        data.len() > 0 && off == before.bytes(ino).len() ==> after.bytes(ino) == before.bytes(ino)
            + data,
        data.len() == 0 || off != before.bytes(ino).len() ==> after.bytes(ino) == before.bytes(
            ino,
        ),
        data.len() > 0 && before@.contains_key(ino) ==> after@[ino].state().mtime
            == before@[ino].state().mtime && after@[ino].state().size == before@[ino].state().size
            && after@[ino].state().writer == before@[ino].state().writer,
        data.len() > 0 && !before@.contains_key(ino) ==> after@[ino].state().mtime == 0
            && after@[ino].state().size == 0 && after@[ino].state().writer is None,
{
    cache_manager::law_inodes_are_kept_apart(before, after, ino, other, off, data);
    if other != ino {
        assert(after@.remove(ino).contains_key(other) == after@.contains_key(other));
        assert(before@.remove(ino).contains_key(other) == before@.contains_key(other));
        if before@.contains_key(other) {
            assert(after@.remove(ino)[other] == after@[other]);
            assert(before@.remove(ino)[other] == before@[other]);
        }
    }
}

/// A read changes no cache; an inode that has none gets an empty one.
pub proof fn law_read_touches_no_cache(
    before: CacheManager,
    after: CacheManager,
    ino: u64,
    other: u64,
)
    requires
        before.after_read(after, ino),
    ensures
        after.dirty() == before.dirty(),
        after@.contains_key(ino),
        other != ino ==> after@.contains_key(other) == before@.contains_key(other),
        before@.contains_key(other) ==> after@[other] == before@[other],
        after.bytes(other) == before.bytes(other),
        !before@.contains_key(ino) ==> after.bytes(ino).len() == 0 && after@[ino].state().mtime == 0
            && after@[ino].state().size == 0 && after@[ino].state().writer is None,
{
    cache_manager::law_inodes_are_kept_apart(before, after, ino, other, 0, Seq::empty());
    if other != ino {
        assert(after@.remove(ino).contains_key(other) == after@.contains_key(other));
        assert(before@.remove(ino).contains_key(other) == before@.contains_key(other));
        if before@.contains_key(other) {
            assert(after@.remove(ino)[other] == after@[other]);
            assert(before@.remove(ino)[other] == before@[other]);
        }
    }
}

/// What was written through the cache is what is read of it: a write at the end
/// and then a read of the same range gives the data.
pub proof fn law_cache_gives_back_a_write(
    before: CacheManager,
    between: CacheManager,
    ino: u64,
    off: i64,
    data: Seq<u8>,
)
    requires
        data.len() > 0,
        off == before.bytes(ino).len(),
        before.bytes(ino).len() + data.len() <= isize::MAX,
        before.after_write(between, ino, off, data),
    ensures
        inode_cache::read_result(between.bytes(ino), off, data.len() as usize) == Ok::<
            Option<Seq<u8>>,
            FuseError,
        >(Some(data)),
{
    law_read_gives_what_is_cached(between.bytes(ino), off, data.len() as usize);
    assert(between.bytes(ino).subrange(off as int, off + data.len()) =~= data);
}

/// What a read gives is taken as it is: the bytes of its data, nothing, or the
/// refusal.
pub proof fn law_data_is_taken_as_it_is(data: DataSlice, e: FuseError)
    ensures
        inode_cache::data_view(Ok(Some(data))) == Ok::<Option<Seq<u8>>, FuseError>(Some(data@)),
        inode_cache::data_view(Ok(None)) == Ok::<Option<Seq<u8>>, FuseError>(None),
        inode_cache::data_view(Err(e)) == Err::<Option<Seq<u8>>, FuseError>(e),
{
}

/// An inode's cached bytes are those of its cache, and there are none where it
/// has no cache.
pub proof fn law_bytes_of_an_inode(cache: CacheManager, ino: u64)
    ensures
        cache@.contains_key(ino) ==> cache.bytes(ino) == cache@[ino].state().bytes(),
        !cache@.contains_key(ino) ==> cache.bytes(ino).len() == 0,
{
}

/// A cache that was just made holds no bytes, no time, no size and no writer.
pub proof fn law_fresh_cache_is_empty(pages: InodeCache)
    requires
        pages.is_fresh(),
    ensures
        pages.state().bytes().len() == 0,
        pages.state().mtime == 0 && pages.state().size == 0 && pages.state().writer is None,
{
}

} // verus!
