//! Open handles, found by the inode they are on and their own number.
use std::collections::HashMap;

use vstd::prelude::*;

use crate::tables::keys_of;

verus! {

broadcast use vstd::std_specs::hash::group_hash_axioms;

/// Handles by inode number and handle number. An inode without handles has no
/// table of its own.
pub struct HandleTable<H> {
    tables: HashMap<u64, HashMap<u64, H>>,
}

/// Handles by inode number and handle number, as mathematics.
pub open spec fn on_inode<H>(handles: Map<(u64, u64), H>, ino: u64) -> bool {
    exists|fh: u64| #[trigger] handles.contains_key((ino, fh))
}

/// The inodes that have a handle.
pub open spec fn open_inodes<H>(handles: Map<(u64, u64), H>) -> Set<u64> {
    Set::new(|ino: u64| on_inode(handles, ino))
}

impl<H> View for HandleTable<H> {
    type V = Map<(u64, u64), H>;

    closed spec fn view(&self) -> Map<(u64, u64), H> {
        flat(self.tables@)
    }
}

/// One map for a map of tables.
pub closed spec fn flat<H>(tables: Map<u64, HashMap<u64, H>>) -> Map<(u64, u64), H> {
    Map::new(
        |key: (u64, u64)| tables.contains_key(key.0) && tables[key.0]@.contains_key(key.1),
        |key: (u64, u64)| tables[key.0]@[key.1],
    )
}

impl<H> HandleTable<H> {
    /// No inode has an empty table.
    #[verifier::type_invariant]
    spec fn no_empty_table(self) -> bool {
        forall|ino: u64| #[trigger]
            self.tables@.contains_key(ino) ==> !self.tables@[ino]@.is_empty()
    }

    /// No handles.
    pub fn new() -> (r: Self)
        ensures
            r@ == Map::<(u64, u64), H>::empty(),
    {
        let tables: HashMap<u64, HashMap<u64, H>> = HashMap::new();
        let r = HandleTable { tables };
        assert(r@ =~= Map::<(u64, u64), H>::empty());
        r
    }

    /// The handle with a number on an inode.
    pub fn get(&self, ino: u64, fh: u64) -> (r: Option<&H>)
        ensures
            r == (if self@.contains_key((ino, fh)) {
                Some(&self@[(ino, fh)])
            } else {
                None
            }),
    {
        match self.tables.get(&ino) {
            Some(table) => table.get(&fh),
            None => None,
        }
    }

    /// Puts a handle in place.
    pub fn insert(&mut self, ino: u64, fh: u64, handle: H)
        ensures
            final(self)@ == old(self)@.insert((ino, fh), handle),
    {
        proof {
            use_type_invariant(&*self);
        }
        let ghost before = self.tables@;
        let mut tables: HashMap<u64, HashMap<u64, H>> = HashMap::new();
        std::mem::swap(&mut tables, &mut self.tables);
        let mut table = match tables.remove(&ino) {
            Some(table) => table,
            None => HashMap::new(),
        };
        let _ = table.insert(fh, handle);
        assert(table@.contains_key(fh));
        let _ = tables.insert(ino, table);
        assert(flat(tables@) =~= flat(before).insert((ino, fh), handle));
        assert(!table@.is_empty());
        self.tables = tables;
    }

    /// Takes a handle out. A table that is empty then goes too.
    pub fn remove(&mut self, ino: u64, fh: u64) -> (r: Option<H>)
        ensures
            final(self)@ == old(self)@.remove((ino, fh)),
            r == (if old(self)@.contains_key((ino, fh)) {
                Some(old(self)@[(ino, fh)])
            } else {
                None
            }),
    {
        proof {
            use_type_invariant(&*self);
        }
        let ghost before = self.tables@;
        let mut tables: HashMap<u64, HashMap<u64, H>> = HashMap::new();
        std::mem::swap(&mut tables, &mut self.tables);
        let removed = match tables.remove(&ino) {
            Some(mut table) => {
                let handle = table.remove(&fh);
                if !table.is_empty() {
                    let _ = tables.insert(ino, table);
                }
                handle
            },
            None => None,
        };
        assert(flat(tables@) =~= flat(before).remove((ino, fh)));
        self.tables = tables;
        removed
    }

    /// Whether an inode has a handle.
    pub fn has_open(&self, ino: u64) -> (r: bool)
        ensures
            r == on_inode(self@, ino),
            r == open_inodes(self@).contains(ino),
    {
        proof {
            use_type_invariant(&*self);
        }
        match self.tables.get(&ino) {
            Some(table) => {
                proof {
                    let fh = choose|fh: u64| table@.contains_key(fh);
                    assert(exists|fh: u64| table@.contains_key(fh)) by {
                        if forall|fh: u64| !table@.contains_key(fh) {
                            assert(table@ =~= Map::empty());
                        }
                    }
                    assert(self@.contains_key((ino, fh)));
                }
                !table.is_empty()
            },
            None => false,
        }
    }

    /// The numbers of the handles on one inode, in no particular order.
    pub fn numbers_on(&self, ino: u64) -> (r: Vec<u64>)
        ensures
            r@.no_duplicates(),
            forall|fh: u64| r@.contains(fh) <==> #[trigger] self@.contains_key((ino, fh)),
    {
        match self.tables.get(&ino) {
            Some(table) => {
                let r = keys_of(table);
                assert forall|fh: u64| r@.contains(fh) <==> #[trigger] self@.contains_key(
                    (ino, fh),
                ) by {
                    assert(self@.contains_key((ino, fh)) == table@.contains_key(fh));
                }
                r
            },
            None => Vec::new(),
        }
    }

    /// The inodes that have a handle, in no particular order.
    fn inodes(&self) -> (r: Vec<u64>)
        ensures
            r@.no_duplicates(),
            forall|ino: u64| r@.contains(ino) <==> #[trigger] self.tables@.contains_key(ino),
    {
        keys_of(&self.tables)
    }

    /// Inode number and handle number of every handle, in no particular
    /// order.
    pub fn keys(&self) -> (r: Vec<(u64, u64)>)
        ensures
            lists(r@, self@),
    {
        let inos = self.inodes();
        let mut r: Vec<(u64, u64)> = Vec::new();
        let mut i: usize = 0;
        while i < inos.len()
            invariant
                inos@.no_duplicates(),
                forall|ino: u64|
                    inos@.contains(ino) <==> #[trigger] self.tables@.contains_key(ino),
                i <= inos@.len(),
                r@.no_duplicates(),
                forall|k: (u64, u64)| #[trigger]
                    r@.contains(k) <==> (self@.contains_key(k) && inos@.take(i as int).contains(
                        k.0,
                    )),
            decreases inos@.len() - i,
        {
            let ino = inos[i];
            let fhs = self.numbers_on(ino);
            let ghost before = r@;
            proof {
                assert(!inos@.take(i as int).contains(ino)) by {
                    lemma_not_before(inos@, i as int);
                }
                assert forall|fh: u64| !before.contains((ino, fh)) by {
                    assert(r@.contains((ino, fh)) <==> (self@.contains_key((ino, fh))
                        && inos@.take(i as int).contains(ino)));
                }
            }
            let mut j: usize = 0;
            while j < fhs.len()
                invariant
                    fhs@.no_duplicates(),
                    forall|fh: u64|
                        fhs@.contains(fh) <==> #[trigger] self@.contains_key((ino, fh)),
                    j <= fhs@.len(),
                    r@.no_duplicates(),
                    before.no_duplicates(),
                    forall|fh: u64| !before.contains((ino, fh)),
                    forall|k: (u64, u64)|
                        r@.contains(k) <==> (before.contains(k) || (k.0 == ino && fhs@.take(
                            j as int,
                        ).contains(k.1))),
                decreases fhs@.len() - j,
            {
                let ghost prev = r@;
                let ghost fh = fhs@[j as int];
                proof {
                    lemma_not_before(fhs@, j as int);
                    assert(r@.contains((ino, fh)) <==> (before.contains((ino, fh)) || fhs@.take(
                        j as int,
                    ).contains(fh)));
                }
                r.push((ino, fhs[j]));
                proof {
                    lemma_take_contains(fhs@, j as int);
                    lemma_push_contains(prev, (ino, fh));
                    assert(r@ =~= prev.push((ino, fh)));
                    assert forall|x: int, y: int|
                        0 <= x < y < r@.len() implies r@[x] != r@[y] by {
                        if y == prev.len() {
                            assert(prev[x] != (ino, fh)) by {
                                assert(prev.contains(prev[x]));
                            }
                        }
                    }
                }
                j = j + 1;
            }
            proof {
                assert(fhs@.take(j as int) =~= fhs@);
                lemma_take_contains(inos@, i as int);
                assert forall|k: (u64, u64)| #[trigger]
                    r@.contains(k) <==> (self@.contains_key(k) && inos@.take(i + 1).contains(
                        k.0,
                    )) by {
                    assert(before.contains(k) <==> (self@.contains_key(k) && inos@.take(
                        i as int,
                    ).contains(k.0)));
                    assert(fhs@.contains(k.1) <==> self@.contains_key((ino, k.1)));
                }
            }
            i = i + 1;
        }
        proof {
            assert(inos@.take(i as int) =~= inos@);
            assert forall|k: (u64, u64)| r@.contains(k) == self@.contains_key(k) by {
                assert(r@.contains(k) <==> (self@.contains_key(k) && inos@.contains(k.0)));
            }
            assert(r@.to_set() =~= self@.dom());
        }
        r
    }
}

/// Every key of the map once, and nothing else.
pub open spec fn lists<K, V>(keys: Seq<K>, map: Map<K, V>) -> bool {
    &&& keys.no_duplicates()
    &&& keys.to_set() == map.dom()
}

/// Without duplicates an element does not occur before its place.
proof fn lemma_not_before<A>(s: Seq<A>, i: int)
    requires
        0 <= i < s.len(),
        s.no_duplicates(),
    ensures
        !s.take(i).contains(s[i]),
{
    let t = s.take(i);
    if t.contains(s[i]) {
        let x = choose|x: int| 0 <= x < t.len() && t[x] == s[i];
        assert(s[x] == s[i]);
    }
}

/// One element more than the first `i`.
proof fn lemma_take_contains<A>(s: Seq<A>, i: int)
    requires
        0 <= i < s.len(),
    ensures
        forall|x: A| s.take(i + 1).contains(x) <==> (s.take(i).contains(x) || x == s[i]),
{
    assert(s.take(i + 1) =~= s.take(i).push(s[i]));
    lemma_push_contains(s.take(i), s[i]);
}

/// What a sequence holds after one more element.
proof fn lemma_push_contains<A>(s: Seq<A>, a: A)
    ensures
        forall|x: A| s.push(a).contains(x) <==> (s.contains(x) || x == a),
{
    assert forall|x: A| s.push(a).contains(x) <==> (s.contains(x) || x == a) by {
        if s.contains(x) {
            let i = choose|i: int| 0 <= i < s.len() && s[i] == x;
            assert(s.push(a)[i] == x);
        }
        assert(s.push(a)[s.len() as int] == a);
    }
}

} // verus!
