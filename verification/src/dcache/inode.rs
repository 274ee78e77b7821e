//! One node of the cached directory tree.
use vstd::prelude::*;

use crate::dcache::flags::{DirtyFlags, Lifecycle};
use crate::error::{FuseError, FuseResult};
use crate::names::NameMap;
use crate::status::{FileStatus, SetAttrOpts, SetAttrView, StatusView};

verus! {

/// The number of the root inode.
pub const FUSE_ROOT_ID: u64 = 1;

/// The name and the path of the root.
pub const FUSE_PATH_SEPARATOR: &'static str = "/";

/// The entries of a directory: a name and the number of the inode it leads to.
pub struct DirEntry {
    pub children: NameMap<u64>,
}

impl DirEntry {
    /// A directory without entries.
    pub fn new() -> (r: Self)
        ensures
            r.children@ == Map::<Seq<char>, u64>::empty(),
    {
        DirEntry { children: NameMap::new() }
    }
}

/// A cached file or directory.
pub struct Inode {
    pub ino: u64,
    pub parent: u64,
    pub name: String,
    pub status: FileStatus,
    pub lifecycle: Lifecycle,
    pub dirty: DirtyFlags,
    pub n_lookup: u64,
    pub ref_ctr: u64,
    pub last_access: u64,
    pub dir: Option<Box<DirEntry>>,
    pub mark_delete: bool,
}

/// An inode as mathematical values.
#[verifier::ext_equal]
pub struct InodeView {
    pub ino: u64,
    pub parent: u64,
    pub name: Seq<char>,
    pub status: StatusView,
    pub lifecycle: Lifecycle,
    pub dirty: DirtyFlags,
    pub n_lookup: u64,
    pub ref_ctr: u64,
    pub last_access: u64,
    pub dir: Option<Map<Seq<char>, u64>>,
    pub mark_delete: bool,
}

impl View for Inode {
    type V = InodeView;

    open spec fn view(&self) -> InodeView {
        InodeView {
            ino: self.ino,
            parent: self.parent,
            name: self.name@,
            status: self.status@,
            lifecycle: self.lifecycle,
            dirty: self.dirty,
            n_lookup: self.n_lookup,
            ref_ctr: self.ref_ctr,
            last_access: self.last_access,
            dir: match self.dir {
                Some(d) => Some(d.children@),
                None => None,
            },
            mark_delete: self.mark_delete,
        }
    }
}

/// The sum, or the largest number where it would be larger.
pub open spec fn sat_add(a: u64, b: u64) -> u64 {
    if a + b > u64::MAX {
        u64::MAX
    } else {
        (a + b) as u64
    }
}

/// The difference, or zero where it would be negative.
pub open spec fn sat_sub(a: u64, b: u64) -> u64 {
    if a < b {
        0
    } else {
        (a - b) as u64
    }
}

/// The difference of link counts, or zero where it would be negative.
pub open spec fn sat_sub_links(a: u32, b: u32) -> u32 {
    if a < b {
        0
    } else {
        (a - b) as u32
    }
}

/// The entry table that a fresh inode has: an empty one for a directory.
pub open spec fn fresh_dir(is_dir: bool) -> Option<Map<Seq<char>, u64>> {
    if is_dir {
        Some(Map::empty())
    } else {
        None
    }
}

impl InodeView {
    /// The root as it starts out.
    pub open spec fn root(now: u64) -> InodeView {
        InodeView {
            ino: FUSE_ROOT_ID,
            parent: 0,
            name: FUSE_PATH_SEPARATOR@,
            status: StatusView {
                is_dir: true,
                name: FUSE_PATH_SEPARATOR@,
                path: FUSE_PATH_SEPARATOR@,
                ..StatusView::blank()
            },
            lifecycle: Lifecycle::Cached,
            dirty: DirtyFlags { bits: 0 },
            n_lookup: 0,
            ref_ctr: 0,
            last_access: now,
            dir: Some(Map::empty()),
            mark_delete: false,
        }
    }

    /// An inode that was just looked up for the first time.
    pub open spec fn fresh(
        ino: u64,
        parent: u64,
        name: Seq<char>,
        status: StatusView,
        now: u64,
    ) -> InodeView {
        InodeView {
            ino,
            parent,
            name,
            status,
            lifecycle: Lifecycle::Cached,
            dirty: DirtyFlags { bits: 0 },
            n_lookup: 1,
            ref_ctr: 1,
            last_access: now,
            dir: fresh_dir(status.is_dir),
            mark_delete: false,
        }
    }

    /// The inode after the backing file system reported a status. A
    /// directory keeps its entries; what becomes a directory starts with
    /// none; what is no directory has no entry table.
    pub open spec fn updated(self, status: StatusView, now: u64) -> InodeView {
        InodeView {
            dir: if !status.is_dir {
                None
            } else if self.dir is None || !self.status.is_dir {
                Some(Map::empty())
            } else {
                self.dir
            },
            lifecycle: Lifecycle::Cached,
            status,
            last_access: now,
            ..self
        }
    }

    /// The inode with its cached status given up. Changes made here stay.
    pub open spec fn invalidated(self) -> InodeView {
        InodeView {
            lifecycle: if self.lifecycle is Cached {
                Lifecycle::Invalid
            } else {
                self.lifecycle
            },
            ..self
        }
    }

    /// The inode after `v` more lookups.
    pub open spec fn looked_up(self, v: u64, now: u64) -> InodeView {
        InodeView { n_lookup: sat_add(self.n_lookup, v), last_access: now, ..self }
    }

    /// The inode after `v` lookups were given back.
    pub open spec fn forgotten(self, v: u64) -> InodeView {
        InodeView { n_lookup: sat_sub(self.n_lookup, v), ..self }
    }

    /// The inode after one link and the reference from its entry were taken
    /// off.
    pub open spec fn unlinked(self) -> InodeView {
        InodeView {
            ref_ctr: sat_sub(self.ref_ctr, 1),
            status: StatusView { nlink: sat_sub_links(self.status.nlink, 1), ..self.status },
            ..self
        }
    }

    /// Whether this is the root.
    pub open spec fn is_root(self) -> bool {
        self.ino == FUSE_ROOT_ID
    }

    /// Whether nothing keeps the inode.
    pub open spec fn should_unref(self) -> bool {
        self.n_lookup == 0 && self.ref_ctr == 0 && !self.is_root()
    }

    /// Whether the cached status may be used at the time `now`.
    pub open spec fn cache_valid(self, ttl: u64, now: u64) -> bool {
        match self.lifecycle {
            Lifecycle::Cached => self.last_access + ttl >= now,
            Lifecycle::Dirty => true,
            Lifecycle::Invalid => false,
        }
    }

    /// What keeps an inode from being removed as an empty directory.
    pub open spec fn dir_empty_error(self) -> Option<FuseError> {
        if !self.status.is_dir {
            None
        } else {
            match self.dir {
                None => Some(FuseError::MissingDirEntry { ino: self.ino }),
                Some(children) => if children == Map::<Seq<char>, u64>::empty() {
                    None
                } else {
                    Some(FuseError::DirectoryNotEmpty { ino: self.ino })
                },
            }
        }
    }

    /// The inode after its attributes were changed here.
    pub open spec fn with_attrs(self, opts: SetAttrView) -> InodeView {
        InodeView {
            dirty: self.dirty.with(DirtyFlags::ATTR),
            status: self.status.with_attrs(opts),
            ..self
        }
    }
}

/// `Err` of what went wrong, else `Ok`.
pub open spec fn ok_unless(error: Option<FuseError>) -> FuseResult<()> {
    match error {
        Some(e) => Err(e),
        None => Ok(()),
    }
}

impl Inode {
    /// The root as it starts out.
    pub fn new_root(now: u64) -> (r: Self)
        ensures
            r@ == InodeView::root(now),
    {
        let mut status = FileStatus::blank();
        status.is_dir = true;
        status.name = FUSE_PATH_SEPARATOR.to_owned();
        status.path = FUSE_PATH_SEPARATOR.to_owned();
        Inode {
            ino: FUSE_ROOT_ID,
            parent: 0,
            name: FUSE_PATH_SEPARATOR.to_owned(),
            status,
            lifecycle: Lifecycle::Cached,
            dirty: DirtyFlags::empty(),
            n_lookup: 0,
            ref_ctr: 0,
            last_access: now,
            dir: Some(Box::new(DirEntry::new())),
            mark_delete: false,
        }
    }

    /// An inode that was just looked up for the first time.
    pub fn with_status(ino: u64, parent: u64, name: &str, status: FileStatus, now: u64) -> (r: Self)
        ensures
            r@ == InodeView::fresh(ino, parent, name@, status@, now),
    {
        let dir = if status.is_dir {
            Some(Box::new(DirEntry::new()))
        } else {
            None
        };
        Inode {
            ino,
            parent,
            name: name.to_owned(),
            status,
            lifecycle: Lifecycle::Cached,
            dirty: DirtyFlags::empty(),
            n_lookup: 1,
            ref_ctr: 1,
            last_access: now,
            dir,
            mark_delete: false,
        }
    }

    /// Takes over a status that the backing file system reported.
    pub fn update_status(&mut self, status: FileStatus, now: u64)
        ensures
            final(self)@ == old(self)@.updated(status@, now),
    {
        if status.is_dir {
            let needs_fresh_dir = self.dir.is_none() || !self.status.is_dir;
            if needs_fresh_dir {
                self.dir = Some(Box::new(DirEntry::new()));
            }
        } else {
            self.dir = None;
        }
        self.lifecycle = Lifecycle::Cached;
        self.status = status;
        self.last_access = now;
    }

    /// Gives the cached status up. Changes made here stay.
    pub fn invalid_cache(&mut self)
        ensures
            final(self)@ == old(self)@.invalidated(),
    {
        if self.lifecycle == Lifecycle::Cached {
            self.lifecycle = Lifecycle::Invalid;
        }
    }

    /// Whether this is the root.
    pub fn is_root(&self) -> (r: bool)
        ensures
            r == self@.is_root(),
    {
        self.ino == FUSE_ROOT_ID
    }

    /// Counts `v` more lookups.
    pub fn add_lookup(&mut self, v: u64, now: u64) -> (r: u64)
        ensures
            final(self)@ == old(self)@.looked_up(v, now),
            r == final(self)@.n_lookup,
    {
        self.n_lookup = self.n_lookup.saturating_add(v);
        self.last_access = now;
        self.n_lookup
    }

    /// Gives `v` lookups back.
    pub fn sub_lookup(&mut self, v: u64) -> (r: u64)
        ensures
            final(self)@ == old(self)@.forgotten(v),
            r == final(self)@.n_lookup,
    {
        self.n_lookup = self.n_lookup.saturating_sub(v);
        self.n_lookup
    }

    /// Counts `v` more references.
    pub fn add_ref(&mut self, v: u64) -> (r: u64)
        ensures
            final(self)@ == (InodeView { ref_ctr: sat_add(old(self)@.ref_ctr, v), ..old(self)@ }),
            r == final(self)@.ref_ctr,
    {
        self.ref_ctr = self.ref_ctr.saturating_add(v);
        self.ref_ctr
    }

    /// Gives `v` references back.
    pub fn sub_ref(&mut self, v: u64) -> (r: u64)
        ensures
            final(self)@ == (InodeView { ref_ctr: sat_sub(old(self)@.ref_ctr, v), ..old(self)@ }),
            r == final(self)@.ref_ctr,
    {
        self.ref_ctr = self.ref_ctr.saturating_sub(v);
        self.ref_ctr
    }

    /// Whether nothing keeps the inode.
    pub fn should_unref(&self) -> (r: bool)
        ensures
            r == self@.should_unref(),
    {
        self.n_lookup == 0 && self.ref_ctr == 0 && !self.is_root()
    }

    /// Takes `v` links off.
    pub fn sub_link(&mut self, v: u32)
        ensures
            final(self)@ == (InodeView {
                status: StatusView {
                    nlink: sat_sub_links(old(self)@.status.nlink, v),
                    ..old(self)@.status
                },
                ..old(self)@
            }),
    {
        self.status.nlink = self.status.nlink.saturating_sub(v);
    }

    /// Adds `v` links.
    pub fn add_link(&mut self, v: u32)
        ensures
            final(self)@ == (InodeView {
                status: StatusView {
                    nlink: if old(self)@.status.nlink + v > u32::MAX {
                        u32::MAX
                    } else {
                        (old(self)@.status.nlink + v) as u32
                    },
                    ..old(self)@.status
                },
                ..old(self)@
            }),
    {
        self.status.nlink = self.status.nlink.saturating_add(v);
    }

    /// Succeeds on what is no directory and on a directory without entries.
    pub fn ensure_dir_empty(&self) -> (r: FuseResult<()>)
        ensures
            r == ok_unless(self@.dir_empty_error()),
    {
        if !self.status.is_dir {
            return Ok(());
        }
        match &self.dir {
            None => Err(FuseError::MissingDirEntry { ino: self.ino }),
            Some(dir) => {
                if !dir.children.is_empty() {
                    Err(FuseError::DirectoryNotEmpty { ino: self.ino })
                } else {
                    Ok(())
                }
            },
        }
    }

    /// Succeeds on what is no directory.
    pub fn ensure_file(&self) -> (r: FuseResult<()>)
        ensures
            r == (if self@.status.is_dir {
                Err(FuseError::NotFile { ino: self@.ino })
            } else {
                Ok::<(), FuseError>(())
            }),
    {
        if self.status.is_dir {
            Err(FuseError::NotFile { ino: self.ino })
        } else {
            Ok(())
        }
    }

    /// Whether the inode was changed here.
    pub fn is_dirty(&self) -> (r: bool)
        ensures
            r == (self@.lifecycle is Dirty),
    {
        self.lifecycle == Lifecycle::Dirty
    }

    /// Whether contents or length are not written back.
    pub fn is_data_dirty(&self) -> (r: bool)
        ensures
            r == (self@.dirty.spec_intersects(DirtyFlags::DATA)
                || self@.dirty.spec_intersects(DirtyFlags::SIZE)),
    {
        let bits = self.dirty.bits;
        assert((bits & (1u8 | 2u8) != 0) == (bits & 1u8 != 0 || bits & 2u8 != 0)) by (bit_vector);
        self.dirty.intersects(DirtyFlags::DATA | DirtyFlags::SIZE)
    }

    /// Whether attributes are not written back.
    pub fn is_attr_dirty(&self) -> (r: bool)
        ensures
            r == self@.dirty.spec_contains(DirtyFlags::ATTR),
    {
        self.dirty.contains(DirtyFlags::ATTR)
    }

    /// Whether the inode exists only here so far.
    pub fn is_staging(&self) -> (r: bool)
        ensures
            r == self@.dirty.spec_contains(DirtyFlags::NEW),
    {
        self.dirty.contains(DirtyFlags::NEW)
    }

    /// Whether the cached status may be used at the time `now`.
    pub fn cache_valid(&self, ttl: u64, now: u64) -> (r: bool)
        requires
            self@.lifecycle is Cached ==> self@.last_access + ttl <= u64::MAX,
        ensures
            r == self@.cache_valid(ttl, now),
    {
        match self.lifecycle {
            Lifecycle::Cached => self.last_access + ttl >= now,
            Lifecycle::Dirty => true,
            Lifecycle::Invalid => false,
        }
    }

    /// Marks an inode that was made here.
    pub fn mark_create(&mut self)
        ensures
            final(self)@ == (InodeView {
                lifecycle: Lifecycle::Dirty,
                dirty: old(self)@.dirty.with(DirtyFlags::NEW),
                ..old(self)@
            }),
    {
        self.lifecycle = Lifecycle::Dirty;
        self.dirty.insert(DirtyFlags::NEW);
    }

    /// Sets the length of a file after a write.
    pub fn dirty_write(&mut self, len: i64) -> (r: FuseResult<()>)
        ensures
            old(self)@.status.is_dir ==> r == Err::<(), FuseError>(
                FuseError::NotFile { ino: old(self)@.ino },
            ) && final(self)@ == old(self)@,
            !old(self)@.status.is_dir ==> r is Ok && final(self)@ == (InodeView {
                status: StatusView { len, ..old(self)@.status },
                ..old(self)@
            }),
    {
        if let Err(e) = self.ensure_file() {
            return Err(e);
        }
        self.status.len = len;
        Ok(())
    }

    /// Sets the time of a file's last change.
    pub fn dirty_flush(&mut self, now: u64) -> (r: FuseResult<()>)
        ensures
            old(self)@.status.is_dir ==> r == Err::<(), FuseError>(
                FuseError::NotFile { ino: old(self)@.ino },
            ) && final(self)@ == old(self)@,
            !old(self)@.status.is_dir ==> r is Ok && final(self)@ == (InodeView {
                status: StatusView { mtime: now as i64, ..old(self)@.status },
                ..old(self)@
            }),
    {
        if let Err(e) = self.ensure_file() {
            return Err(e);
        }
        self.status.mtime = now as i64;
        Ok(())
    }

    /// Changes attributes of an inode that was not changed here, and hands
    /// the new status out.
    pub fn dirty_set_attr(&mut self, opts: SetAttrOpts) -> (r: FuseResult<FileStatus>)
        ensures
            match r {
                Err(e) => {
                    &&& old(self)@.lifecycle is Dirty
                    &&& e == (FuseError::InodeDirty { ino: old(self)@.ino })
                    &&& final(self)@ == old(self)@
                },
                Ok(status) => {
                    &&& !(old(self)@.lifecycle is Dirty)
                    &&& final(self)@ == old(self)@.with_attrs(opts@)
                    &&& status@ == final(self)@.status
                },
            },
    {
        if self.is_dirty() {
            return Err(FuseError::InodeDirty { ino: self.ino });
        }
        self.dirty.insert(DirtyFlags::ATTR);
        self.status.set_attrs(opts);
        Ok(self.status.duplicate())
    }
}

} // verus!
