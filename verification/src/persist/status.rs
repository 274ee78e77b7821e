//! A file status in the state file.
use vstd::prelude::*;

use crate::names;
use crate::names::NameMap;
use crate::record;
use crate::record::{
    decode_counted, decode_items, encode_counted, encode_items, joined, word_of_bool, word_of_i64,
    Parsed, Record, StateReader,
};
use crate::status;
use crate::status::{FileStatus, StatusView};

verus! {

/// The numbers of a status: id, kind, two times, length, mode and links.
pub open spec fn status_words_valid(w: Seq<u64>) -> bool {
    w[1] <= 1 && w[5] <= u32::MAX && w[6] <= u32::MAX
}

/// The status that its parts stand for.
pub open spec fn status_of(
    w: Seq<u64>,
    t: Seq<Seq<char>>,
    attrs: Seq<(Seq<char>, Seq<u8>)>,
) -> StatusView {
    StatusView {
        id: w[0] as i64,
        is_dir: w[1] == 1,
        mtime: w[2] as i64,
        atime: w[3] as i64,
        len: w[4] as i64,
        mode: w[5] as u32,
        nlink: w[6] as u32,
        path: t[0],
        name: t[1],
        owner: t[2],
        group: t[3],
        x_attr: names::pairs_to_map(attrs),
    }
}

impl Record for FileStatus {
    type Model = StatusView;

    open spec fn model(&self) -> StatusView {
        self@
    }

    /// Seven numbers, four texts, then the extended attributes, each once.
    open spec fn parse(s: Seq<u8>) -> Parsed<StatusView> {
        match record::parse_list::<u64>(s, 7) {
            None => None,
            Some((w, s1)) => if !status_words_valid(w) {
                None
            } else {
                match record::parse_list::<String>(s1, 4) {
                    None => None,
                    Some((t, s2)) => match record::parse_counted::<(String, Vec<u8>)>(s2) {
                        None => None,
                        Some((attrs, s3)) => if names::keys_distinct(attrs) {
                            Some((status_of(w, t, attrs), s3))
                        } else {
                            None
                        },
                    },
                }
            },
        }
    }

    fn encode(&self) -> (r: Vec<u8>) {
        let mut words: Vec<u64> = Vec::new();
        words.push(word_of_i64(self.id));
        words.push(word_of_bool(self.is_dir));
        words.push(word_of_i64(self.mtime));
        words.push(word_of_i64(self.atime));
        words.push(word_of_i64(self.len));
        words.push(self.mode as u64);
        words.push(self.nlink as u64);
        let mut texts: Vec<String> = Vec::new();
        texts.push(self.path.clone());
        texts.push(self.name.clone());
        texts.push(self.owner.clone());
        texts.push(self.group.clone());
        let a = encode_items(&words);
        let b = encode_items(&texts);
        let entries = self.x_attr.entries();
        let c = encode_counted(entries);
        let r = joined(joined(a, b), c);
        proof {
            let w = record::models(words@);
            let t = record::models(texts@);
            let attrs = status::attr_pairs(self.x_attr.pairs());
            lemma_entries_models(entries@);
            lemma_attr_models(self.x_attr);
            assert forall|rest: Seq<u8>| FileStatus::parse(#[trigger] (r@ + rest)) == Some(
                (self@, rest),
            ) by {
                assert(r@ + rest =~= a@ + (b@ + (c@ + rest)));
                assert(record::parse_list::<u64>(a@ + (b@ + (c@ + rest)), w.len()) == Some(
                    (w, b@ + (c@ + rest)),
                ));
                assert(record::parse_list::<String>(b@ + (c@ + rest), t.len()) == Some(
                    (t, c@ + rest),
                ));
                assert(record::parse_counted::<(String, Vec<u8>)>(c@ + rest) == Some((attrs, rest)));
                assert(status_of(w, t, attrs) =~= self@);
            }
        }
        r
    }

    proof fn lemma_extends(s: Seq<u8>, more: Seq<u8>) {
        record::lemma_list_extends::<u64>(s, 7, more);
        if let Some((_, s1)) = record::parse_list::<u64>(s, 7) {
            record::lemma_list_extends::<String>(s1, 4, more);
            if let Some((_, s2)) = record::parse_list::<String>(s1, 4) {
                record::lemma_counted_extends::<(String, Vec<u8>)>(s2, more);
            }
        }
    }

    fn decode(reader: &mut StateReader) -> (r: Option<Self>) {
        let mark = reader.mark();
        let words = match decode_items::<u64>(reader, 7) {
            Some(words) => words,
            None => {
                return None;
            },
        };
        let ghost w = record::models(words@);
        assert(w =~= words@);
        proof {
            lemma_list_len::<u64>(old(reader)@, 7);
        }
        if !(words[1] <= 1 && words[5] <= u32::MAX as u64 && words[6] <= u32::MAX as u64) {
            reader.reset(mark);
            return None;
        }
        let ghost s1 = reader@;
        let texts = match decode_items::<String>(reader, 4) {
            Some(texts) => texts,
            None => {
                reader.reset(mark);
                return None;
            },
        };
        let ghost t = record::models(texts@);
        proof {
            lemma_list_len::<String>(s1, 4);
        }
        let entries = match decode_counted::<(String, Vec<u8>)>(reader) {
            Some(entries) => entries,
            None => {
                reader.reset(mark);
                return None;
            },
        };
        let ghost attrs = record::models(entries@);
        proof {
            lemma_entries_models(entries@);
            status::lemma_attr_pairs(names::text_pairs(entries@));
        }
        let x_attr: NameMap<Vec<u8>> = match NameMap::from_entries(entries) {
            Some(x_attr) => x_attr,
            None => {
                reader.reset(mark);
                return None;
            },
        };
        let r = FileStatus {
            id: words[0] as i64,
            is_dir: words[1] == 1,
            mtime: words[2] as i64,
            atime: words[3] as i64,
            len: words[4] as i64,
            mode: words[5] as u32,
            nlink: words[6] as u32,
            path: texts[0].clone(),
            name: texts[1].clone(),
            owner: texts[2].clone(),
            group: texts[3].clone(),
            x_attr,
        };
        assert(r@ =~= status_of(w, t, attrs));
        Some(r)
    }
}

/// A list that was read has the length that was asked for.
pub proof fn lemma_list_len<T: Record>(s: Seq<u8>, n: nat)
    ensures
        record::parse_list::<T>(s, n) matches Some((values, _)) ==> values.len() == n,
    decreases n,
{
    if n > 0 {
        lemma_list_len::<T>(s, (n - 1) as nat);
    }
}

/// Attribute pairs as mathematical values.
proof fn lemma_entries_models(entries: Seq<(String, Vec<u8>)>)
    ensures
        record::models(entries) == status::attr_pairs(names::text_pairs(entries)),
{
    assert(record::models(entries) =~= status::attr_pairs(names::text_pairs(entries)));
}

/// What is written of the extended attributes stands for them.
proof fn lemma_attr_models(attrs: NameMap<Vec<u8>>)
    ensures
        names::pairs_to_map(status::attr_pairs(attrs.pairs())) == status::attr_view(attrs),
{
    attrs.lemma_pairs();
    status::lemma_attr_pairs(attrs.pairs());
}

} // verus!
