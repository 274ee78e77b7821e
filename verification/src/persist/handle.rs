//! Open files and directories in the state file. Readers, writers and
//! listings do not outlive the process: what is kept of them is that they
//! were open.
use vstd::prelude::*;

use crate::persist::status;
use crate::record;
use crate::record::{
    decode_items, encode_items, joined, word_of_bool, Parsed, Record, StateReader,
};
use crate::state::backend_handle::{BackendHandle, BackendView};
use crate::state::dir_handle::{DirHandle, DirHandleView};
use crate::status::{FileStatus, StatusView};

verus! {

/// What is kept of an open file.
pub struct SavedHandle {
    pub ino: u64,
    pub fh: u64,
    pub has_reader: bool,
    pub has_writer: bool,
    pub status: FileStatus,
    pub flock: Option<u64>,
    pub plock: Option<u64>,
}

/// What is kept of an open file, as mathematical values.
#[verifier::ext_equal]
pub struct SavedHandleView {
    pub ino: u64,
    pub fh: u64,
    pub has_reader: bool,
    pub has_writer: bool,
    pub status: StatusView,
    pub flock: Option<u64>,
    pub plock: Option<u64>,
}

impl View for SavedHandle {
    type V = SavedHandleView;

    open spec fn view(&self) -> SavedHandleView {
        SavedHandleView {
            ino: self.ino,
            fh: self.fh,
            has_reader: self.has_reader,
            has_writer: self.has_writer,
            status: self.status@,
            flock: self.flock,
            plock: self.plock,
        }
    }
}

impl SavedHandleView {
    /// What is kept of a handle.
    pub open spec fn of(h: BackendView) -> SavedHandleView {
        SavedHandleView {
            ino: h.ino,
            fh: h.fh,
            has_reader: h.reader is Some,
            has_writer: h.writer is Some,
            status: h.status,
            flock: h.flock,
            plock: h.plock,
        }
    }

    /// The handle with a reader and a writer that were opened again.
    pub open spec fn reopened(self, reader: Option<u64>, writer: Option<u64>) -> BackendView {
        BackendView {
            ino: self.ino,
            fh: self.fh,
            reader,
            writer,
            status: self.status,
            flock: self.flock,
            plock: self.plock,
        }
    }
}

impl SavedHandle {
    /// What is kept of a handle.
    pub fn of(h: &BackendHandle) -> (r: Self)
        ensures
            r@ == SavedHandleView::of(h@),
    {
        SavedHandle {
            ino: h.ino,
            fh: h.fh,
            has_reader: h.reader.is_some(),
            has_writer: h.writer.is_some(),
            status: h.status.duplicate(),
            flock: h.flock,
            plock: h.plock,
        }
    }

    /// The handle with a reader and a writer that were opened again.
    pub fn reopened(self, reader: Option<u64>, writer: Option<u64>) -> (r: BackendHandle)
        ensures
            r@ == self@.reopened(reader, writer),
    {
        BackendHandle {
            ino: self.ino,
            fh: self.fh,
            reader,
            writer,
            status: self.status,
            flock: self.flock,
            plock: self.plock,
        }
    }
}

/// The handle that its parts stand for.
pub open spec fn handle_of(
    w: Seq<u64>,
    flock: Option<u64>,
    plock: Option<u64>,
    status: StatusView,
) -> SavedHandleView {
    SavedHandleView {
        ino: w[0],
        fh: w[1],
        has_reader: w[2] == 1,
        has_writer: w[3] == 1,
        status,
        flock,
        plock,
    }
}

impl Record for SavedHandle {
    type Model = SavedHandleView;

    open spec fn model(&self) -> SavedHandleView {
        self@
    }

    /// Inode number, handle number, whether a reader and a writer were open,
    /// the holders of the two locks, then the status.
    open spec fn parse(s: Seq<u8>) -> Parsed<SavedHandleView> {
        match record::parse_list::<u64>(s, 4) {
            None => None,
            Some((w, s1)) => if !(w[2] <= 1 && w[3] <= 1) {
                None
            } else {
                match <(Option<u64>, Option<u64>) as Record>::parse(s1) {
                    None => None,
                    Some(((flock, plock), s2)) => match FileStatus::parse(s2) {
                        None => None,
                        Some((status, s3)) => Some((handle_of(w, flock, plock, status), s3)),
                    },
                }
            },
        }
    }

    fn encode(&self) -> (r: Vec<u8>) {
        let mut words: Vec<u64> = Vec::new();
        words.push(self.ino);
        words.push(self.fh);
        words.push(word_of_bool(self.has_reader));
        words.push(word_of_bool(self.has_writer));
        let locks = (self.flock, self.plock);
        let a = encode_items(&words);
        let b = locks.encode();
        let c = self.status.encode();
        let r = joined(joined(a, b), c);
        proof {
            let w = record::models(words@);
            assert forall|rest: Seq<u8>| SavedHandle::parse(#[trigger] (r@ + rest)) == Some(
                (self@, rest),
            ) by {
                assert(r@ + rest =~= a@ + (b@ + (c@ + rest)));
                assert(record::parse_list::<u64>(a@ + (b@ + (c@ + rest)), w.len()) == Some(
                    (w, b@ + (c@ + rest)),
                ));
                assert(<(Option<u64>, Option<u64>) as Record>::parse(b@ + (c@ + rest)) == Some(
                    (locks.model(), c@ + rest),
                ));
                assert(FileStatus::parse(c@ + rest) == Some((self.status@, rest)));
                assert(handle_of(w, self.flock, self.plock, self.status@) =~= self@);
            }
        }
        r
    }

    proof fn lemma_extends(s: Seq<u8>, more: Seq<u8>) {
        record::lemma_list_extends::<u64>(s, 4, more);
        if let Some((_, s1)) = record::parse_list::<u64>(s, 4) {
            <(Option<u64>, Option<u64>) as Record>::lemma_extends(s1, more);
            if let Some((_, s2)) = <(Option<u64>, Option<u64>) as Record>::parse(s1) {
                FileStatus::lemma_extends(s2, more);
            }
        }
    }

    fn decode(reader: &mut StateReader) -> (r: Option<Self>) {
        let mark = reader.mark();
        let words = match decode_items::<u64>(reader, 4) {
            Some(words) => words,
            None => {
                return None;
            },
        };
        let ghost w = record::models(words@);
        assert(w =~= words@);
        proof {
            status::lemma_list_len::<u64>(old(reader)@, 4);
        }
        if !(words[2] <= 1 && words[3] <= 1) {
            reader.reset(mark);
            return None;
        }
        let (flock, plock) = match <(Option<u64>, Option<u64>) as Record>::decode(reader) {
            Some(locks) => locks,
            None => {
                reader.reset(mark);
                return None;
            },
        };
        let status = match FileStatus::decode(reader) {
            Some(status) => status,
            None => {
                reader.reset(mark);
                return None;
            },
        };
        let r = SavedHandle {
            ino: words[0],
            fh: words[1],
            has_reader: words[2] == 1,
            has_writer: words[3] == 1,
            status,
            flock,
            plock,
        };
        assert(r@ =~= handle_of(w, flock, plock, r.status@));
        Some(r)
    }
}

/// What is kept of an open directory.
pub struct SavedDirHandle {
    pub ino: u64,
    pub fh: u64,
    pub path: String,
    pub limit: u64,
}

/// What is kept of an open directory, as mathematical values.
#[verifier::ext_equal]
pub struct SavedDirHandleView {
    pub ino: u64,
    pub fh: u64,
    pub path: Seq<char>,
    pub limit: u64,
}

impl View for SavedDirHandle {
    type V = SavedDirHandleView;

    open spec fn view(&self) -> SavedDirHandleView {
        SavedDirHandleView { ino: self.ino, fh: self.fh, path: self.path@, limit: self.limit }
    }
}

impl SavedDirHandleView {
    /// What is kept of a handle.
    pub open spec fn of(h: DirHandleView) -> SavedDirHandleView {
        SavedDirHandleView { ino: h.ino, fh: h.fh, path: h.path, limit: h.limit }
    }

    /// The handle with a listing that was opened again.
    pub open spec fn reopened(self, stream: u64) -> DirHandleView {
        DirHandleView { ino: self.ino, fh: self.fh, path: self.path, limit: self.limit, stream }
    }
}

impl SavedDirHandle {
    /// What is kept of a handle.
    pub fn of(h: &DirHandle) -> (r: Self)
        ensures
            r@ == SavedDirHandleView::of(h@),
    {
        SavedDirHandle { ino: h.ino, fh: h.fh, path: h.path.clone(), limit: h.limit }
    }

    /// The handle with a listing that was opened again.
    pub fn reopened(self, stream: u64) -> (r: DirHandle)
        ensures
            r@ == self@.reopened(stream),
    {
        DirHandle { ino: self.ino, fh: self.fh, path: self.path, limit: self.limit, stream }
    }
}

impl Record for SavedDirHandle {
    type Model = SavedDirHandleView;

    open spec fn model(&self) -> SavedDirHandleView {
        self@
    }

    /// Inode number, handle number, limit, then the path.
    open spec fn parse(s: Seq<u8>) -> Parsed<SavedDirHandleView> {
        match record::parse_list::<u64>(s, 3) {
            None => None,
            Some((w, s1)) => match String::parse(s1) {
                None => None,
                Some((path, s2)) => Some(
                    (SavedDirHandleView { ino: w[0], fh: w[1], path, limit: w[2] }, s2),
                ),
            },
        }
    }

    fn encode(&self) -> (r: Vec<u8>) {
        let mut words: Vec<u64> = Vec::new();
        words.push(self.ino);
        words.push(self.fh);
        words.push(self.limit);
        let a = encode_items(&words);
        let b = self.path.encode();
        let r = joined(a, b);
        proof {
            let w = record::models(words@);
            assert forall|rest: Seq<u8>| SavedDirHandle::parse(#[trigger] (r@ + rest)) == Some(
                (self@, rest),
            ) by {
                assert(r@ + rest =~= a@ + (b@ + rest));
                assert(record::parse_list::<u64>(a@ + (b@ + rest), w.len()) == Some((w, b@ + rest)));
                assert(String::parse(b@ + rest) == Some((self.path@, rest)));
            }
        }
        r
    }

    proof fn lemma_extends(s: Seq<u8>, more: Seq<u8>) {
        record::lemma_list_extends::<u64>(s, 3, more);
        if let Some((_, s1)) = record::parse_list::<u64>(s, 3) {
            String::lemma_extends(s1, more);
        }
    }

    fn decode(reader: &mut StateReader) -> (r: Option<Self>) {
        let mark = reader.mark();
        let words = match decode_items::<u64>(reader, 3) {
            Some(words) => words,
            None => {
                return None;
            },
        };
        assert(record::models(words@) =~= words@);
        proof {
            status::lemma_list_len::<u64>(old(reader)@, 3);
        }
        match String::decode(reader) {
            Some(path) => Some(
                SavedDirHandle { ino: words[0], fh: words[1], path, limit: words[2] },
            ),
            None => {
                reader.reset(mark);
                None
            },
        }
    }
}

} // verus!
