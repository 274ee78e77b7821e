//! An insertion-ordered map keyed by text.
use vstd::prelude::*;

verus! {

/// The map that a list of key and value pairs stands for. Where a key occurs
/// more than once the last pair counts.
pub open spec fn pairs_to_map<K, V>(pairs: Seq<(K, V)>) -> Map<K, V>
    decreases pairs.len(),
{
    if pairs.len() == 0 {
        Map::empty()
    } else {
        pairs_to_map(pairs.drop_last()).insert(pairs.last().0, pairs.last().1)
    }
}

/// No key occurs twice.
pub open spec fn keys_distinct<K, V>(pairs: Seq<(K, V)>) -> bool {
    forall|i: int, j: int|
        0 <= i < j < pairs.len() ==> (#[trigger] pairs[i]).0 != (#[trigger] pairs[j]).0
}

/// A key is in the map when some pair holds it.
pub proof fn lemma_contains<K, V>(pairs: Seq<(K, V)>, key: K)
    ensures
        pairs_to_map(pairs).contains_key(key) <==> exists|i: int|
            0 <= i < pairs.len() && (#[trigger] pairs[i]).0 == key,
    decreases pairs.len(),
{
    if pairs.len() > 0 {
        let init = pairs.drop_last();
        lemma_contains(init, key);
        if pairs.last().0 == key {
            assert(pairs[pairs.len() - 1].0 == key);
        }
        if exists|i: int| 0 <= i < init.len() && (#[trigger] init[i]).0 == key {
            let i = choose|i: int| 0 <= i < init.len() && (#[trigger] init[i]).0 == key;
            assert(pairs[i].0 == key);
        }
        if exists|i: int| 0 <= i < pairs.len() && (#[trigger] pairs[i]).0 == key {
            let i = choose|i: int| 0 <= i < pairs.len() && (#[trigger] pairs[i]).0 == key;
            if i < init.len() {
                assert(init[i].0 == key);
            }
        }
    }
}

/// With distinct keys every pair is found in the map.
pub proof fn lemma_value_at<K, V>(pairs: Seq<(K, V)>, i: int)
    requires
        keys_distinct(pairs),
        0 <= i < pairs.len(),
    ensures
        pairs_to_map(pairs).contains_key(pairs[i].0),
        pairs_to_map(pairs)[pairs[i].0] == pairs[i].1,
    decreases pairs.len(),
{
    if i < pairs.len() - 1 {
        let init = pairs.drop_last();
        assert(keys_distinct(init));
        assert(init[i] == pairs[i]);
        lemma_value_at(init, i);
        assert(pairs[i].0 != pairs[pairs.len() - 1].0);
    }
}

/// Replacing the value of one pair replaces it in the map.
proof fn lemma_update<K, V>(pairs: Seq<(K, V)>, i: int, value: V)
    requires
        keys_distinct(pairs),
        0 <= i < pairs.len(),
    ensures
        keys_distinct(pairs.update(i, (pairs[i].0, value))),
        pairs_to_map(pairs.update(i, (pairs[i].0, value))) == pairs_to_map(pairs).insert(
            pairs[i].0,
            value,
        ),
{
    let after = pairs.update(i, (pairs[i].0, value));
    assert forall|a: int, b: int| 0 <= a < b < after.len() implies (#[trigger] after[a]).0 != (
    #[trigger] after[b]).0 by {
        assert(pairs[a].0 != pairs[b].0);
    }
    assert forall|key: K|
        pairs_to_map(after).contains_key(key) == pairs_to_map(pairs).insert(
            pairs[i].0,
            value,
        ).contains_key(key) by {
        lemma_contains(after, key);
        lemma_contains(pairs, key);
        if exists|j: int| 0 <= j < pairs.len() && (#[trigger] pairs[j]).0 == key {
            let j = choose|j: int| 0 <= j < pairs.len() && (#[trigger] pairs[j]).0 == key;
            assert(after[j].0 == key);
        }
        if exists|j: int| 0 <= j < after.len() && (#[trigger] after[j]).0 == key {
            let j = choose|j: int| 0 <= j < after.len() && (#[trigger] after[j]).0 == key;
            assert(pairs[j].0 == key);
        }
    }
    assert forall|key: K| pairs_to_map(after).contains_key(key) implies pairs_to_map(
        after,
    )[key] == pairs_to_map(pairs).insert(pairs[i].0, value)[key] by {
        lemma_contains(after, key);
        let j = choose|j: int| 0 <= j < after.len() && (#[trigger] after[j]).0 == key;
        lemma_value_at(after, j);
        lemma_value_at(pairs, j);
        if j != i {
            assert(pairs[j].0 != pairs[i].0) by {
                if j < i {
                    assert(pairs[j].0 != pairs[i].0);
                } else {
                    assert(pairs[i].0 != pairs[j].0);
                }
            }
        }
    }
    assert(pairs_to_map(after) =~= pairs_to_map(pairs).insert(pairs[i].0, value));
}

/// Dropping one pair drops its key from the map.
proof fn lemma_remove<K, V>(pairs: Seq<(K, V)>, i: int)
    requires
        keys_distinct(pairs),
        0 <= i < pairs.len(),
    ensures
        keys_distinct(pairs.remove(i)),
        pairs_to_map(pairs.remove(i)) == pairs_to_map(pairs).remove(pairs[i].0),
    decreases pairs.len(),
{
    let after = pairs.remove(i);
    assert forall|a: int, b: int| 0 <= a < b < after.len() implies (#[trigger] after[a]).0 != (
    #[trigger] after[b]).0 by {
        let a2 = if a < i { a } else { a + 1 };
        let b2 = if b < i { b } else { b + 1 };
        assert(pairs[a2].0 != pairs[b2].0);
    }
    if i == pairs.len() - 1 {
        assert(after =~= pairs.drop_last());
        lemma_contains(after, pairs[i].0);
        assert forall|a: int| 0 <= a < after.len() implies (#[trigger] after[a]).0 != pairs[i].0 by {
            assert(pairs[a].0 != pairs[i].0);
        }
        assert(pairs_to_map(after) =~= pairs_to_map(pairs).remove(pairs[i].0));
    } else {
        let init = pairs.drop_last();
        assert(keys_distinct(init));
        lemma_remove(init, i);
        assert(after.drop_last() =~= init.remove(i));
        assert(after.last() == pairs.last());
        assert(pairs[i].0 != pairs[pairs.len() - 1].0);
        assert(init[i] == pairs[i]);
        assert(pairs_to_map(after) =~= pairs_to_map(pairs).remove(pairs[i].0));
    }
}

/// Pairs that give each key of a map its value, once each, stand for the map.
pub proof fn lemma_listing<K, V>(pairs: Seq<(K, V)>, keys: Seq<K>, map: Map<K, V>)
    requires
        keys.no_duplicates(),
        keys.to_set() == map.dom(),
        pairs.len() == keys.len(),
        forall|i: int|
            0 <= i < pairs.len() ==> #[trigger] pairs[i] == (keys[i], map[keys[i]]),
    ensures
        keys_distinct(pairs),
        pairs_to_map(pairs) == map,
{
    assert(keys_distinct(pairs)) by {
        assert forall|i: int, j: int| 0 <= i < j < pairs.len() implies (#[trigger] pairs[i]).0 != (
        #[trigger] pairs[j]).0 by {
            assert(keys[i] != keys[j]);
        }
    }
    assert forall|key: K| pairs_to_map(pairs).contains_key(key) == map.contains_key(key) by {
        lemma_contains(pairs, key);
        if map.contains_key(key) {
            assert(keys.to_set().contains(key));
            let i = choose|i: int| 0 <= i < keys.len() && keys[i] == key;
            assert(pairs[i].0 == key);
        }
        if exists|i: int| 0 <= i < pairs.len() && (#[trigger] pairs[i]).0 == key {
            let i = choose|i: int| 0 <= i < pairs.len() && (#[trigger] pairs[i]).0 == key;
            assert(keys.to_set().contains(keys[i]));
        }
    }
    assert forall|key: K| pairs_to_map(pairs).contains_key(key) implies pairs_to_map(pairs)[key]
        == map[key] by {
        lemma_contains(pairs, key);
        let i = choose|i: int| 0 <= i < pairs.len() && (#[trigger] pairs[i]).0 == key;
        lemma_value_at(pairs, i);
    }
    assert(pairs_to_map(pairs) =~= map);
}

/// Keys stay distinct with one pair more where its key is not there yet.
pub proof fn lemma_distinct_push<K, V>(pairs: Seq<(K, V)>, i: int)
    requires
        0 <= i < pairs.len(),
        keys_distinct(pairs.take(i)),
    ensures
        keys_distinct(pairs.take(i + 1)) == !pairs_to_map(pairs.take(i)).contains_key(pairs[i].0),
{
    let done = pairs.take(i);
    let next = pairs.take(i + 1);
    let key = pairs[i].0;
    lemma_contains(done, key);
    if pairs_to_map(done).contains_key(key) {
        let j = choose|j: int| 0 <= j < done.len() && (#[trigger] done[j]).0 == key;
        assert(next[j].0 == next[i].0);
    } else {
        assert forall|a: int, b: int| 0 <= a < b < next.len() implies (#[trigger] next[a]).0 != (
        #[trigger] next[b]).0 by {
            assert(done[a] == next[a]);
            if b < i {
                assert(done[b] == next[b]);
            }
        }
    }
}

/// A key that occurs twice in the first pairs occurs twice.
pub proof fn lemma_distinct_part<K, V>(pairs: Seq<(K, V)>, n: int)
    requires
        0 <= n <= pairs.len(),
        !keys_distinct(pairs.take(n)),
    ensures
        !keys_distinct(pairs),
{
    let part = pairs.take(n);
    let (i, j) = choose|i: int, j: int|
        0 <= i < j < part.len() && (#[trigger] part[i]).0 == (#[trigger] part[j]).0;
    assert(pairs[i].0 == pairs[j].0);
}

/// Pairs with their keys as text.
pub open spec fn text_pairs<V>(entries: Seq<(String, V)>) -> Seq<(Seq<char>, V)> {
    entries.map_values(|e: (String, V)| (e.0@, e.1))
}

/// Text keys with a value each, in the order in which the keys came in.
pub struct NameMap<V> {
    entries: Vec<(String, V)>,
}

impl<V> View for NameMap<V> {
    type V = Map<Seq<char>, V>;

    closed spec fn view(&self) -> Map<Seq<char>, V> {
        pairs_to_map(self.pairs())
    }
}

impl<V> NameMap<V> {
    /// The pairs in order.
    pub closed spec fn pairs(&self) -> Seq<(Seq<char>, V)> {
        text_pairs(self.entries@)
    }

    #[verifier::type_invariant]
    spec fn distinct(self) -> bool {
        keys_distinct(self.pairs())
    }

    /// A map without entries.
    pub fn new() -> (r: Self)
        ensures
            r@ == Map::<Seq<char>, V>::empty(),
            r.pairs() == Seq::<(Seq<char>, V)>::empty(),
    {
        let entries: Vec<(String, V)> = Vec::new();
        let r = NameMap { entries };
        assert(r.pairs() =~= Seq::<(Seq<char>, V)>::empty());
        r
    }

    fn position(&self, key: &str) -> (r: Option<usize>)
        ensures
            match r {
                Some(i) => i < self.entries@.len() && self.entries@[i as int].0@ == key@,
                None => forall|j: int|
                    0 <= j < self.entries@.len() ==> (#[trigger] self.entries@[j]).0@ != key@,
            },
    {
        let mut i: usize = 0;
        while i < self.entries.len()
            invariant
                i <= self.entries@.len(),
                forall|j: int| 0 <= j < i ==> (#[trigger] self.entries@[j]).0@ != key@,
            decreases self.entries@.len() - i,
        {
            if str_equal(self.entries[i].0.as_str(), key) {
                return Some(i);
            }
            i = i + 1;
        }
        None
    }

    /// Where a key stands, if it is there.
    proof fn lemma_position(&self, key: Seq<char>, at: Option<usize>)
        requires
            keys_distinct(self.pairs()),
            match at {
                Some(i) => i < self.entries@.len() && self.entries@[i as int].0@ == key,
                None => forall|j: int|
                    0 <= j < self.entries@.len() ==> (#[trigger] self.entries@[j]).0@ != key,
            },
        ensures
            at is Some <==> self@.contains_key(key),
            at matches Some(i) ==> self@[key] == self.entries@[i as int].1,
    {
        lemma_contains(self.pairs(), key);
        match at {
            Some(i) => {
                lemma_value_at(self.pairs(), i as int);
            },
            None => {
                assert forall|j: int| 0 <= j < self.pairs().len() implies (
                #[trigger] self.pairs()[j]).0 != key by {
                    assert(self.entries@[j].0@ != key);
                }
            },
        }
    }

    /// The value of a key.
    pub fn get(&self, key: &str) -> (r: Option<&V>)
        ensures
            r == (if self@.contains_key(key@) {
                Some(&self@[key@])
            } else {
                None
            }),
    {
        proof {
            use_type_invariant(&*self);
        }
        let at = self.position(key);
        proof {
            self.lemma_position(key@, at);
        }
        match at {
            Some(i) => Some(&self.entries[i].1),
            None => None,
        }
    }

    /// Gives a key a value, in place of the one it has.
    pub fn insert(&mut self, key: String, value: V)
        ensures
            final(self)@ == old(self)@.insert(key@, value),
    {
        proof {
            use_type_invariant(&*self);
        }
        let at = self.position(key.as_str());
        let ghost before = self.pairs();
        let mut entries: Vec<(String, V)> = Vec::new();
        std::mem::swap(&mut entries, &mut self.entries);
        let ghost old_entries = entries@;
        match at {
            Some(i) => {
                entries.set(i, (key, value));
                proof {
                    lemma_update(before, i as int, value);
                    assert(text_pairs(entries@) =~= before.update(
                        i as int,
                        (before[i as int].0, value),
                    ));
                }
            },
            None => {
                entries.push((key, value));
                proof {
                    let after = before.push((key@, value));
                    assert(text_pairs(entries@) =~= after);
                    assert forall|a: int, b: int| 0 <= a < b < after.len() implies (
                    #[trigger] after[a]).0 != (#[trigger] after[b]).0 by {
                        if b == after.len() - 1 {
                            assert(old_entries[a].0@ != key@);
                        } else {
                            assert(before[a].0 != before[b].0);
                        }
                    }
                    assert(after.drop_last() =~= before);
                }
            },
        }
        self.entries = entries;
    }

    /// Takes a key out and hands its value over.
    pub fn remove(&mut self, key: &str) -> (r: Option<V>)
        ensures
            final(self)@ == old(self)@.remove(key@),
            r == (if old(self)@.contains_key(key@) {
                Some(old(self)@[key@])
            } else {
                None
            }),
    {
        proof {
            use_type_invariant(&*self);
        }
        let at = self.position(key);
        proof {
            self.lemma_position(key@, at);
        }
        match at {
            Some(i) => {
                let ghost before = self.pairs();
                let mut entries: Vec<(String, V)> = Vec::new();
                std::mem::swap(&mut entries, &mut self.entries);
                let removed = entries.remove(i);
                proof {
                    lemma_remove(before, i as int);
                    assert(text_pairs(entries@) =~= before.remove(
                        i as int,
                    ));
                }
                self.entries = entries;
                Some(removed.1)
            },
            None => {
                assert(self@.remove(key@) =~= self@);
                None
            },
        }
    }

    /// Whether no key has a value.
    pub fn is_empty(&self) -> (r: bool)
        ensures
            r == (self@ == Map::<Seq<char>, V>::empty()),
    {
        let r = self.entries.len() == 0;
        proof {
            if !r {
                let key = self.pairs()[0].0;
                lemma_contains(self.pairs(), key);
            }
        }
        r
    }

    /// The pairs in order.
    pub fn entries(&self) -> (r: &Vec<(String, V)>)
        ensures
            text_pairs(r@) == self.pairs(),
            keys_distinct(text_pairs(r@)),
            self@ == pairs_to_map(text_pairs(r@)),
    {
        proof {
            use_type_invariant(&*self);
        }
        &self.entries
    }

    /// The map that a list of pairs stands for. There is none where a key
    /// occurs twice.
    pub fn from_entries(entries: Vec<(String, V)>) -> (r: Option<Self>)
        ensures
            match r {
                Some(map) => keys_distinct(text_pairs(entries@)) && map@ == pairs_to_map(
                    text_pairs(entries@),
                ),
                None => !keys_distinct(text_pairs(entries@)),
            },
    {
        let ghost all = text_pairs(entries@);
        let mut r = NameMap::new();
        assert(all.take(0) =~= Seq::empty());
        for entry in it: entries
            invariant
                all == text_pairs(entries@),
                all == text_pairs(it.seq()),
                keys_distinct(all.take(it.index())),
                r@ == pairs_to_map(all.take(it.index())),
        {
            let (key, value) = entry;
            assert(all[it.index()].0 == key@);
            assert(keys_distinct(all.take(it.index() + 1)) == !r@.contains_key(key@)) by {
                lemma_distinct_push(all, it.index());
            }
            if r.get(key.as_str()).is_some() {
                assert(!keys_distinct(all)) by {
                    lemma_distinct_part(all, it.index() + 1);
                }
                return None;
            }
            r.insert(key, value);
            assert(all.take(it.index() + 1).drop_last() =~= all.take(it.index()));
        }
        assert(all.take(all.len() as int) =~= all);
        Some(r)
    }

    /// How many keys there are.
    pub fn len(&self) -> (r: usize)
        ensures
            r == self.pairs().len(),
    {
        self.entries.len()
    }

    /// The key and the value at a place in the order.
    pub fn entry_at(&self, i: usize) -> (r: (&String, &V))
        requires
            i < self.pairs().len(),
        ensures
            r.0@ == self.pairs()[i as int].0,
            r.1 == self.pairs()[i as int].1,
    {
        let e = &self.entries[i];
        (&e.0, &e.1)
    }

    /// The map is the one that its pairs stand for.
    pub proof fn lemma_pairs(&self)
        ensures
            self@ == pairs_to_map(self.pairs()),
    {
    }
}

/// Whether two texts are the same.
pub fn str_equal(a: &str, b: &str) -> (r: bool)
    ensures
        r == (a@ == b@),
{
    broadcast use vstd::utf8::group_utf8_lib;

    let x = a.as_bytes();
    let y = b.as_bytes();
    if x.len() != y.len() {
        return false;
    }
    let mut i: usize = 0;
    while i < x.len()
        invariant
            x@ == vstd::utf8::encode_utf8(a@),
            y@ == vstd::utf8::encode_utf8(b@),
            x@.len() == y@.len(),
            i <= x@.len(),
            forall|j: int| 0 <= j < i ==> x@[j] == y@[j],
        decreases x@.len() - i,
    {
        if x[i] != y[i] {
            return false;
        }
        i = i + 1;
    }
    assert(x@ =~= y@);
    assert(vstd::utf8::decode_utf8(x@) == a@);
    assert(vstd::utf8::decode_utf8(y@) == b@);
    true
}

} // verus!
