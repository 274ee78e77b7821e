//! An inode in the state file.
use vstd::prelude::*;

use crate::dcache::flags::{DirtyFlags, Lifecycle};
use crate::dcache::inode::{DirEntry, Inode, InodeView};
use crate::names;
use crate::names::NameMap;
use crate::persist::status;
use crate::record;
use crate::record::{
    decode_counted, decode_items, encode_counted, encode_items, joined, word_of_bool, Parsed,
    Record, StateReader,
};
use crate::status::{FileStatus, StatusView};

verus! {

/// The stage of an inode as a number.
pub open spec fn lifecycle_word(stage: Lifecycle) -> u64 {
    match stage {
        Lifecycle::Cached => 0,
        Lifecycle::Dirty => 1,
        Lifecycle::Invalid => 2,
    }
}

/// The stage that a number up to two stands for.
pub open spec fn lifecycle_of(word: u64) -> Lifecycle {
    if word == 0 {
        Lifecycle::Cached
    } else if word == 1 {
        Lifecycle::Dirty
    } else {
        Lifecycle::Invalid
    }
}

/// The numbers of an inode: its own, its parent's, stage, dirty bits, lookups,
/// references, last access, whether it is a directory and whether it is to be
/// deleted.
pub open spec fn inode_words_valid(w: Seq<u64>) -> bool {
    w[2] <= 2 && w[3] <= u8::MAX && w[7] <= 1 && w[8] <= 1
}

/// Each entry is there once, and there is none where there is no directory.
pub open spec fn children_valid(w: Seq<u64>, children: Seq<(Seq<char>, u64)>) -> bool {
    names::keys_distinct(children) && (w[7] == 0 ==> children.len() == 0)
}

/// The inode that its parts stand for.
pub open spec fn inode_of(
    w: Seq<u64>,
    name: Seq<char>,
    status: StatusView,
    children: Seq<(Seq<char>, u64)>,
) -> InodeView {
    InodeView {
        ino: w[0],
        parent: w[1],
        name,
        status,
        lifecycle: lifecycle_of(w[2]),
        dirty: DirtyFlags { bits: w[3] as u8 },
        n_lookup: w[4],
        ref_ctr: w[5],
        last_access: w[6],
        dir: if w[7] == 1 {
            Some(names::pairs_to_map(children))
        } else {
            None
        },
        mark_delete: w[8] == 1,
    }
}

fn encode_lifecycle(stage: Lifecycle) -> (r: u64)
    ensures
        r == lifecycle_word(stage),
        r <= 2,
        lifecycle_of(r) == stage,
{
    match stage {
        Lifecycle::Cached => 0,
        Lifecycle::Dirty => 1,
        Lifecycle::Invalid => 2,
    }
}

fn decode_lifecycle(word: u64) -> (r: Lifecycle)
    ensures
        r == lifecycle_of(word),
{
    if word == 0 {
        Lifecycle::Cached
    } else if word == 1 {
        Lifecycle::Dirty
    } else {
        Lifecycle::Invalid
    }
}

/// Entry pairs as mathematical values.
proof fn lemma_child_models(entries: Seq<(String, u64)>)
    ensures
        record::models(entries) == names::text_pairs(entries),
{
    assert(record::models(entries) =~= names::text_pairs(entries));
}

impl Record for Inode {
    type Model = InodeView;

    open spec fn model(&self) -> InodeView {
        self@
    }

    /// Nine numbers, the name, the status, then the entries.
    open spec fn parse(s: Seq<u8>) -> Parsed<InodeView> {
        match record::parse_list::<u64>(s, 9) {
            None => None,
            Some((w, s1)) => if !inode_words_valid(w) {
                None
            } else {
                match String::parse(s1) {
                    None => None,
                    Some((name, s2)) => match FileStatus::parse(s2) {
                        None => None,
                        Some((status, s3)) => match record::parse_counted::<(String, u64)>(s3) {
                            None => None,
                            Some((children, s4)) => if children_valid(w, children) {
                                Some((inode_of(w, name, status, children), s4))
                            } else {
                                None
                            },
                        },
                    },
                }
            },
        }
    }

    fn encode(&self) -> (r: Vec<u8>) {
        let mut words: Vec<u64> = Vec::new();
        words.push(self.ino);
        words.push(self.parent);
        words.push(encode_lifecycle(self.lifecycle));
        words.push(self.dirty.bits as u64);
        words.push(self.n_lookup);
        words.push(self.ref_ctr);
        words.push(self.last_access);
        words.push(word_of_bool(self.dir.is_some()));
        words.push(word_of_bool(self.mark_delete));
        let a = encode_items(&words);
        let b = self.name.encode();
        let c = self.status.encode();
        let none: Vec<(String, u64)> = Vec::new();
        let entries = match &self.dir {
            Some(dir) => dir.children.entries(),
            None => &none,
        };
        let d = encode_counted(entries);
        let r = joined(joined(a, b), joined(c, d));
        proof {
            let w = record::models(words@);
            let children = record::models(entries@);
            lemma_child_models(entries@);
            assert forall|rest: Seq<u8>| Inode::parse(#[trigger] (r@ + rest)) == Some(
                (self@, rest),
            ) by {
                assert(r@ + rest =~= a@ + (b@ + (c@ + (d@ + rest))));
                assert(record::parse_list::<u64>(a@ + (b@ + (c@ + (d@ + rest))), w.len()) == Some(
                    (w, b@ + (c@ + (d@ + rest))),
                ));
                assert(String::parse(b@ + (c@ + (d@ + rest))) == Some(
                    (self.name@, c@ + (d@ + rest)),
                ));
                assert(FileStatus::parse(c@ + (d@ + rest)) == Some((self.status@, d@ + rest)));
                assert(record::parse_counted::<(String, u64)>(d@ + rest) == Some((children, rest)));
                assert(inode_of(w, self.name@, self.status@, children) =~= self@);
            }
        }
        r
    }

    proof fn lemma_extends(s: Seq<u8>, more: Seq<u8>) {
        record::lemma_list_extends::<u64>(s, 9, more);
        if let Some((_, s1)) = record::parse_list::<u64>(s, 9) {
            String::lemma_extends(s1, more);
            if let Some((_, s2)) = String::parse(s1) {
                FileStatus::lemma_extends(s2, more);
                if let Some((_, s3)) = FileStatus::parse(s2) {
                    record::lemma_counted_extends::<(String, u64)>(s3, more);
                }
            }
        }
    }

    fn decode(reader: &mut StateReader) -> (r: Option<Self>) {
        let mark = reader.mark();
        let words = match decode_items::<u64>(reader, 9) {
            Some(words) => words,
            None => {
                return None;
            },
        };
        let ghost w = record::models(words@);
        assert(w =~= words@);
        proof {
            status::lemma_list_len::<u64>(old(reader)@, 9);
        }
        if !(words[2] <= 2 && words[3] <= u8::MAX as u64 && words[7] <= 1 && words[8] <= 1) {
            reader.reset(mark);
            return None;
        }
        let name = match String::decode(reader) {
            Some(name) => name,
            None => {
                reader.reset(mark);
                return None;
            },
        };
        let status = match FileStatus::decode(reader) {
            Some(status) => status,
            None => {
                reader.reset(mark);
                return None;
            },
        };
        let entries = match decode_counted::<(String, u64)>(reader) {
            Some(entries) => entries,
            None => {
                reader.reset(mark);
                return None;
            },
        };
        let ghost children = record::models(entries@);
        proof {
            lemma_child_models(entries@);
        }
        if words[7] == 0 && entries.len() != 0 {
            reader.reset(mark);
            return None;
        }
        let dir = match NameMap::from_entries(entries) {
            Some(found) => {
                if words[7] == 1 {
                    Some(Box::new(DirEntry { children: found }))
                } else {
                    None
                }
            },
            None => {
                reader.reset(mark);
                return None;
            },
        };
        let r = Inode {
            ino: words[0],
            parent: words[1],
            name,
            status,
            lifecycle: decode_lifecycle(words[2]),
            dirty: DirtyFlags { bits: words[3] as u8 },
            n_lookup: words[4],
            ref_ctr: words[5],
            last_access: words[6],
            dir,
            mark_delete: words[8] == 1,
        };
        assert(r@ =~= inode_of(w, r.name@, r.status@, children));
        Some(r)
    }
}

} // verus!
