//! Open directories.
use vstd::prelude::*;

verus! {

/// An open directory. The listing that the backing file system gives of it is
/// known by a number.
pub struct DirHandle {
    pub ino: u64,
    pub fh: u64,
    pub path: String,
    pub limit: u64,
    pub stream: u64,
}

/// An open directory as mathematical values.
#[verifier::ext_equal]
pub struct DirHandleView {
    pub ino: u64,
    pub fh: u64,
    pub path: Seq<char>,
    pub limit: u64,
    pub stream: u64,
}

impl View for DirHandle {
    type V = DirHandleView;

    open spec fn view(&self) -> DirHandleView {
        DirHandleView {
            ino: self.ino,
            fh: self.fh,
            path: self.path@,
            limit: self.limit,
            stream: self.stream,
        }
    }
}

impl DirHandle {
    /// A directory that was just opened.
    pub fn new(ino: u64, fh: u64, path: &str, limit: u64, stream: u64) -> (r: Self)
        ensures
            r@ == (DirHandleView { ino, fh, path: path@, limit, stream }),
    {
        DirHandle { ino, fh, path: path.to_owned(), limit, stream }
    }

    /// Replaces the listing.
    pub fn set_stream(&mut self, stream: u64)
        ensures
            final(self)@ == (DirHandleView { stream, ..old(self)@ }),
    {
        self.stream = stream;
    }
}

} // verus!
