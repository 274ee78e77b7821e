//! The cached pages of all inodes.
use std::collections::hash_map::RandomState;

use dashmap::{DashMap, DashSet};
use vstd::prelude::*;

use crate::error::{FuseError, FuseResult};
use crate::pcache::buffers::DataSlice;
use crate::pcache::inode_cache;
use crate::pcache::inode_cache::InodeCache;
use crate::pcache::slots;
use crate::pcache::slots::{map_get, map_get_or_insert, map_new, set_new};

verus! {

/// The cached pages of all inodes. The map says where in the list those of an
/// inode are.
pub struct CacheManager {
    caches: DashMap<u64, usize, RandomState>,
    pages: Vec<InodeCache>,
    dirty_inodes: DashSet<u64, RandomState>,
}

impl View for CacheManager {
    type V = Map<u64, InodeCache>;

    /// The cached pages by inode number.
    closed spec fn view(&self) -> Map<u64, InodeCache> {
        Map::new(
            |ino: u64| slots::slot_map(self.caches).contains_key(ino),
            |ino: u64| self.pages@[slots::slot_map(self.caches)[ino] as int],
        )
    }
}

impl CacheManager {
    /// Every place in the map is in the list, and holds the pages of the
    /// inode that leads to it.
    pub closed spec fn wf(&self) -> bool {
        let places = slots::slot_map(self.caches);
        &&& forall|ino: u64| #[trigger]
            places.contains_key(ino) ==> places[ino] < self.pages@.len()
                && self.pages@[places[ino] as int].spec_ino() == ino
                && self.pages@[places[ino] as int].wf()
    }

    /// The inodes with pages to write back.
    pub closed spec fn dirty(&self) -> Set<u64> {
        slots::member_set(self.dirty_inodes)
    }

    /// The cached bytes of an inode; none where nothing is cached.
    pub open spec fn bytes(&self, ino: u64) -> Seq<u8> {
        if self@.contains_key(ino) {
            self@[ino].bytes()
        } else {
            Seq::empty()
        }
    }

    /// What a read of an inode leaves: an inode without a cache has an empty
    /// one, and nothing else changes.
    pub open spec fn after_read(self, after: CacheManager, ino: u64) -> bool {
        &&& after.wf()
        &&& after.dirty() == self.dirty()
        &&& after@.dom() == self@.dom().insert(ino)
        &&& after@.remove(ino) == self@.remove(ino)
        &&& self@.contains_key(ino) ==> after@[ino] == self@[ino]
        &&& !self@.contains_key(ino) ==> after@[ino].is_fresh() && after@[ino].spec_ino() == ino
    }

    /// What a write to an inode leaves: its bytes are those of the write, and
    /// nothing else changes. Data without bytes changes nothing at all.
    pub open spec fn after_write(
        self,
        after: CacheManager,
        ino: u64,
        off: i64,
        data: Seq<u8>,
    ) -> bool {
        &&& after.wf()
        &&& after.dirty() == self.dirty()
        &&& after@.remove(ino) == self@.remove(ino)
        &&& if data.len() == 0 {
            after@ == self@
        } else {
            &&& after@.dom() == self@.dom().insert(ino)
            &&& after.bytes(ino) == write_result(self.bytes(ino), off, data).0
            &&& same_but_bytes(self@, after@[ino], ino)
        }
    }

    /// Nothing cached.
    pub fn new() -> (r: Self)
        ensures
            r.wf(),
            r@ == Map::<u64, InodeCache>::empty(),
            r.dirty() == Set::<u64>::empty(),
    {
        let r = CacheManager { caches: map_new(), pages: Vec::new(), dirty_inodes: set_new() };
        assert(r@ =~= Map::<u64, InodeCache>::empty());
        r
    }

    /// The cached pages of an inode. Where there are none yet, an empty cache
    /// is made for it.
    pub fn get_or_create(&mut self, ino: u64) -> (r: &mut InodeCache)
        requires
            old(self).wf(),
        ensures
            old(self)@.contains_key(ino) ==> *r == old(self)@[ino],
            !old(self)@.contains_key(ino) ==> r.is_fresh(),
            r.wf(),
            r.spec_ino() == ino,
            final(self)@ == old(self)@.insert(ino, *final(r)),
            final(self).dirty() == old(self).dirty(),
            final(r).wf() && final(r).spec_ino() == ino ==> final(self).wf(),
    {
        let next = self.pages.len();
        let slot = map_get_or_insert(&mut self.caches, ino, next);
        if slot == next {
            self.pages.push(InodeCache::new(ino));
        }
        &mut self.pages[slot]
    }

    /// The cached pages of an inode, if there are any.
    pub fn get(&self, ino: u64) -> (r: Option<&InodeCache>)
        requires
            self.wf(),
        ensures
            r == (if self@.contains_key(ino) {
                Some(&self@[ino])
            } else {
                None
            }),
    {
        match map_get(&self.caches, ino) {
            Some(slot) => Some(&self.pages[slot]),
            None => None,
        }
    }

    /// Appends data to the cached bytes of an inode. Data without bytes
    /// changes nothing.
    pub fn write(&mut self, ino: u64, off: i64, data: DataSlice) -> (r: FuseResult<usize>)
        requires
            old(self).wf(),
            old(self).bytes(ino).len() + data@.len() <= isize::MAX,
        ensures
            r == write_result(old(self).bytes(ino), off, data@).1,
            old(self).after_write(*final(self), ino, off, data@),
    {
        if data.is_empty() {
            return Ok(0);
        }
        let ghost before = self@;
        let page_cache = self.get_or_create(ino);
        let r = page_cache.write(off, &data);
        assert(self@.remove(ino) =~= before.remove(ino));
        assert(self@.dom() =~= before.dom().insert(ino));
        r
    }

    /// Reads cached bytes of an inode. An inode without a cache has an empty
    /// one from then on.
    pub fn read(&mut self, ino: u64, off: i64, len: usize) -> (r: FuseResult<Option<DataSlice>>)
        requires
            old(self).wf(),
        ensures
            inode_cache::data_view(r) == inode_cache::read_result(old(self).bytes(ino), off, len),
            old(self).after_read(*final(self), ino),
    {
        let ghost before = self@;
        let page_cache = self.get_or_create(ino);
        let r = page_cache.read(off, len);
        assert(self@.remove(ino) =~= before.remove(ino));
        assert(self@.dom() =~= before.dom().insert(ino));
        r
    }
}

/// Times, size and writer are those that the inode's cache had, or those of a
/// cache that was just made.
pub open spec fn same_but_bytes(before: Map<u64, InodeCache>, after: InodeCache, ino: u64) -> bool {
    if before.contains_key(ino) {
        &&& after.state().mtime == before[ino].state().mtime
        &&& after.state().size == before[ino].state().size
        &&& after.state().writer == before[ino].state().writer
    } else {
        &&& after.state().mtime == 0
        &&& after.state().size == 0
        &&& after.state().writer is None
    }
}

/// The cached bytes after a write, and what it is answered with. Data without
/// bytes is taken at any offset; other data has to start where the cached
/// bytes end.
pub open spec fn write_result(bytes: Seq<u8>, off: i64, data: Seq<u8>) -> (
    Seq<u8>,
    FuseResult<usize>,
) {
    if data.len() == 0 {
        (bytes, Ok(0))
    } else if off == bytes.len() {
        (bytes + data, Ok(data.len() as usize))
    } else {
        (bytes, Err(FuseError::NotSequential { offset: off, len: bytes.len() as usize }))
    }
}

/// A read or a write leaves the bytes of every other inode as they were, and
/// a read also those of the inode itself.
pub proof fn law_inodes_are_kept_apart(
    before: CacheManager,
    after: CacheManager,
    ino: u64,
    other: u64,
    off: i64,
    data: Seq<u8>,
)
    ensures
        before.after_read(after, ino) ==> after.bytes(other) == before.bytes(other),
        before.after_write(after, ino, off, data) && other != ino ==> after.bytes(other)
            == before.bytes(other),
{
    if other != ino {
        assert(after@.remove(ino).contains_key(other) == after@.contains_key(other));
        assert(before@.remove(ino).contains_key(other) == before@.contains_key(other));
        assert(after@.remove(ino)[other] == after@[other] || !after@.contains_key(other));
        assert(before@.remove(ino)[other] == before@[other] || !before@.contains_key(other));
    }
}

/// What was appended is read back, and what was there before as well.
pub proof fn law_read_after_write(bytes: Seq<u8>, data: Seq<u8>, off: i64, len: usize)
    requires
        data.len() > 0,
        bytes.len() + data.len() <= isize::MAX,
        0 <= off,
        0 < len,
        off + len <= bytes.len() + data.len(),
    ensures
        ({
            let (after, answer) = write_result(bytes, bytes.len() as i64, data);
            &&& answer == Ok::<usize, FuseError>(data.len() as usize)
            &&& inode_cache::read_result(after, off, len) == Ok::<Option<Seq<u8>>, FuseError>(
                Some((bytes + data).subrange(off as int, off + len)),
            )
        }),
{
}

/// A write at any other place is refused and changes nothing.
pub proof fn law_writes_are_sequential(bytes: Seq<u8>, off: i64, data: Seq<u8>)
    requires
        data.len() > 0,
        off != bytes.len(),
    ensures
        write_result(bytes, off, data).0 == bytes,
        write_result(bytes, off, data).1 is Err,
{
}

/// A read never goes past the cached bytes; behind them it gives nothing.
pub proof fn law_read_is_bounded(bytes: Seq<u8>, off: i64, len: usize)
    requires
        bytes.len() <= isize::MAX,
        0 <= off,
    ensures
        off >= bytes.len() ==> inode_cache::read_result(bytes, off, len) == Ok::<
            Option<Seq<u8>>,
            FuseError,
        >(None),
        inode_cache::read_result(bytes, off, len) matches Ok(Some(data)) ==> 0 < data.len()
            && data.len() <= len && off + data.len() <= bytes.len() && data == bytes.subrange(
            off as int,
            off + data.len(),
        ),
{
}

} // verus!
