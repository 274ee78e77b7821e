//! An open file whose requests go to the backing file system.
use vstd::prelude::*;

use crate::status::{FileStatus, LockFlags, StatusView};

verus! {

/// An open file. Readers and writers of the backing file system are known by
/// a number each.
pub struct BackendHandle {
    pub ino: u64,
    pub fh: u64,
    pub reader: Option<u64>,
    pub writer: Option<u64>,
    pub status: FileStatus,
    pub flock: Option<u64>,
    pub plock: Option<u64>,
}

/// An open file as mathematical values.
#[verifier::ext_equal]
pub struct BackendView {
    pub ino: u64,
    pub fh: u64,
    pub reader: Option<u64>,
    pub writer: Option<u64>,
    pub status: StatusView,
    pub flock: Option<u64>,
    pub plock: Option<u64>,
}

impl View for BackendHandle {
    type V = BackendView;

    open spec fn view(&self) -> BackendView {
        BackendView {
            ino: self.ino,
            fh: self.fh,
            reader: self.reader,
            writer: self.writer,
            status: self.status@,
            flock: self.flock,
            plock: self.plock,
        }
    }
}

impl BackendView {
    /// A file that was just opened.
    pub open spec fn fresh(
        ino: u64,
        fh: u64,
        reader: Option<u64>,
        writer: Option<u64>,
        status: StatusView,
    ) -> BackendView {
        BackendView { ino, fh, reader, writer, status, flock: None, plock: None }
    }

    /// Who holds a lock.
    pub open spec fn lock(self, typ: LockFlags) -> Option<u64> {
        match typ {
            LockFlags::Flock => self.flock,
            LockFlags::Plock => self.plock,
        }
    }

    /// The file with another holder of a lock.
    pub open spec fn with_lock(self, typ: LockFlags, owner: Option<u64>) -> BackendView {
        match typ {
            LockFlags::Flock => BackendView { flock: owner, ..self },
            LockFlags::Plock => BackendView { plock: owner, ..self },
        }
    }
}

impl BackendHandle {
    /// A file that was just opened.
    pub fn new(
        ino: u64,
        fh: u64,
        reader: Option<u64>,
        writer: Option<u64>,
        status: FileStatus,
    ) -> (r: Self)
        ensures
            r@ == BackendView::fresh(ino, fh, reader, writer, status@),
    {
        BackendHandle { ino, fh, reader, writer, status, flock: None, plock: None }
    }

    /// The status that the file was opened with.
    pub fn status(&self) -> (r: &FileStatus)
        ensures
            r@ == self@.status,
    {
        &self.status
    }

    /// Records who holds a lock.
    pub fn add_lock(&mut self, lock_flags: LockFlags, owner_id: u64)
        ensures
            final(self)@ == old(self)@.with_lock(lock_flags, Some(owner_id)),
    {
        match lock_flags {
            LockFlags::Flock => {
                self.flock = Some(owner_id);
            },
            LockFlags::Plock => {
                self.plock = Some(owner_id);
            },
        }
    }

    /// Gives a lock up and says who held it.
    pub fn remove_lock(&mut self, typ: LockFlags) -> (r: Option<u64>)
        ensures
            final(self)@ == old(self)@.with_lock(typ, None),
            r == old(self)@.lock(typ),
    {
        match typ {
            LockFlags::Flock => self.flock.take(),
            LockFlags::Plock => self.plock.take(),
        }
    }
}

/// A lock that was added is given back once, and the other kind of lock is
/// not touched.
pub proof fn law_lock_is_given_back(
    handle: BackendView,
    typ: LockFlags,
    other: LockFlags,
    owner: u64,
)
    ensures
        handle.with_lock(typ, Some(owner)).lock(typ) == Some(owner),
        handle.with_lock(typ, Some(owner)).with_lock(typ, None).lock(typ) is None,
        other != typ ==> handle.with_lock(typ, Some(owner)).lock(other) == handle.lock(other)
            && handle.with_lock(typ, None).lock(other) == handle.lock(other),
{
}

} // verus!
