//! An insertion-ordered table from string keys to values, in which no key
//! occurs twice.  Both vault backends keep their secrets and session entries
//! in one.

use vstd::prelude::*;

verus! {

/// Insertion-ordered map from `String` keys to values.
pub struct KeyedTable<V> {
    entries: Vec<(String, V)>,
}

/// The keys of a sequence of entries, in order.
pub open spec fn keys_of<V>(entries: Seq<(String, V)>) -> Seq<Seq<char>> {
    entries.map_values(|e: (String, V)| e.0@)
}

/// No key occurs twice.
pub open spec fn distinct_keys<V>(entries: Seq<(String, V)>) -> bool {
    forall|i: int, j: int|
        0 <= i < entries.len() && 0 <= j < entries.len() && i != j ==> #[trigger] entries[i].0@
            != #[trigger] entries[j].0@
}

/// The position of key `k` among the entries (meaningful when `k` occurs).
pub open spec fn position_of<V>(entries: Seq<(String, V)>, k: Seq<char>) -> int {
    choose|i: int| 0 <= i < entries.len() && #[trigger] entries[i].0@ == k
}

/// Whether key `k` occurs among the entries.
pub open spec fn has_key<V>(entries: Seq<(String, V)>, k: Seq<char>) -> bool {
    exists|i: int| 0 <= i < entries.len() && #[trigger] entries[i].0@ == k
}

/// The map that a sequence of entries stands for.
pub open spec fn map_of<V>(entries: Seq<(String, V)>) -> Map<Seq<char>, V> {
    Map::new(|k: Seq<char>| has_key(entries, k), |k: Seq<char>| entries[position_of(entries, k)].1)
}

/// In a sequence without repeated keys, the position of a key is the
/// index at which it stands.
pub proof fn lemma_position_unique<V>(entries: Seq<(String, V)>, i: int)
    requires
        distinct_keys(entries),
        0 <= i < entries.len(),
    ensures
        has_key(entries, entries[i].0@),
        position_of(entries, entries[i].0@) == i,
        map_of(entries).dom().contains(entries[i].0@),
        map_of(entries)[entries[i].0@] == entries[i].1,
{
    let k = entries[i].0@;
    assert(has_key(entries, k));
    let p = position_of(entries, k);
    assert(entries[p].0@ == k);
}

/// The map that a sequence of (key, value) pairs stands for, a later pair
/// winning over an earlier one with the same key.
pub open spec fn pairs_map<V>(pairs: Seq<(String, V)>) -> Map<Seq<char>, V>
    decreases pairs.len(),
{
    if pairs.len() == 0 {
        Map::empty()
    } else {
        pairs_map(pairs.drop_last()).insert(pairs.last().0@, pairs.last().1)
    }
}

/// In a sequence without repeated keys, the keys in order hold each key of
/// the map once, and nothing else.
pub proof fn lemma_keys_of_match_map<V>(entries: Seq<(String, V)>)
    requires
        distinct_keys(entries),
    ensures
        keys_of(entries).no_duplicates(),
        forall|k: Seq<char>| #[trigger] map_of(entries).dom().contains(k) <==> keys_of(entries).contains(k),
{
    let ks = keys_of(entries);
    assert forall|i: int, j: int| 0 <= i < ks.len() && 0 <= j < ks.len() && i != j implies ks[i] != ks[j] by {
        assert(entries[i].0@ != entries[j].0@);
    }
    assert forall|k: Seq<char>| #[trigger] map_of(entries).dom().contains(k) <==> ks.contains(k) by {
        if map_of(entries).dom().contains(k) {
            let p = choose|p: int| 0 <= p < entries.len() && #[trigger] entries[p].0@ == k;
            assert(ks[p] == k);
        }
        if ks.contains(k) {
            let p = choose|p: int| 0 <= p < ks.len() && ks[p] == k;
            assert(entries[p].0@ == k);
        }
    }
}

/// Reading back the entries of a table, in order, as (key, value) pairs
/// gives the same map: with no key repeated, the later-wins map of the pairs
/// is the map they stand for.
pub proof fn law_pairs_map_of_distinct<V>(entries: Seq<(String, V)>)
    requires
        distinct_keys(entries),
    ensures
        pairs_map(entries) == map_of(entries),
    decreases entries.len(),
{
    if entries.len() == 0 {
        assert(map_of(entries) =~= Map::<Seq<char>, V>::empty());
    } else {
        let d = entries.drop_last();
        let n = entries.len() - 1;
        assert forall|i: int, j: int| 0 <= i < d.len() && 0 <= j < d.len() && i != j implies #[trigger] d[i].0@
            != #[trigger] d[j].0@ by {
            assert(entries[i].0@ != entries[j].0@);
        }
        law_pairs_map_of_distinct(d);
        lemma_position_unique(entries, n);
        let m = map_of(d).insert(entries[n].0@, entries[n].1);
        assert forall|k: Seq<char>| #[trigger] map_of(entries).dom().contains(k) <==> m.dom().contains(k) by {
            if has_key(entries, k) {
                let p = choose|p: int| 0 <= p < entries.len() && #[trigger] entries[p].0@ == k;
                if p < n {
                    assert(d[p].0@ == k);
                }
            }
            if has_key(d, k) {
                let p = choose|p: int| 0 <= p < d.len() && #[trigger] d[p].0@ == k;
                assert(entries[p].0@ == k);
            }
        }
        assert forall|k: Seq<char>| #[trigger] map_of(entries).dom().contains(k) implies map_of(entries)[k] == m[k] by {
            if k != entries[n].0@ {
                let p = choose|p: int| 0 <= p < entries.len() && #[trigger] entries[p].0@ == k;
                assert(p != n);
                lemma_position_unique(entries, p);
                assert(d[p] == entries[p]);
                lemma_position_unique(d, p);
            }
        }
        assert(map_of(entries) =~= m);
    }
}

impl<V> KeyedTable<V> {
    /// The entries in insertion order.
    pub closed spec fn entries(&self) -> Seq<(String, V)> {
        self.entries@
    }

    /// The table as a map from key to value.
    pub open spec fn view(&self) -> Map<Seq<char>, V> {
        map_of(self.entries())
    }

    /// The keys in insertion order.
    pub open spec fn key_order(&self) -> Seq<Seq<char>> {
        keys_of(self.entries())
    }

    /// No key occurs twice.
    pub open spec fn wf(&self) -> bool {
        distinct_keys(self.entries())
    }

    /// An empty table.
    pub fn new() -> (t: Self)
        ensures
            t.wf(),
            t.entries() == Seq::<(String, V)>::empty(),
            t@ == Map::<Seq<char>, V>::empty(),
    {
        let t = KeyedTable { entries: Vec::new() };
        assert(t@ =~= Map::<Seq<char>, V>::empty());
        t
    }

    /// A table holding the given (key, value) pairs, a later pair winning
    /// over an earlier one with the same key.
    pub fn from_pairs(pairs: Vec<(String, V)>) -> (t: Self)
        ensures
            t.wf(),
            t@ == pairs_map(pairs@),
    {
        let mut t = KeyedTable::new();
        let ghost all = pairs@;
        let mut pairs = pairs;
        let ghost mut taken: int = 0;
        assert(all.subrange(0, 0) =~= Seq::<(String, V)>::empty());
        assert(all.subrange(0, all.len() as int) =~= all);
        while pairs.len() > 0
            invariant
                t.wf(),
                0 <= taken <= all.len(),
                pairs@ == all.subrange(taken, all.len() as int),
                t@ == pairs_map(all.subrange(0, taken)),
            decreases pairs.len(),
        {
            let (k, v) = pairs.remove(0);
            t.insert(k, v);
            proof {
                assert(all.subrange(0, taken + 1).drop_last() =~= all.subrange(0, taken));
                assert(all.subrange(taken + 1, all.len() as int) =~= all.subrange(
                    taken,
                    all.len() as int,
                ).subrange(1, all.len() - taken));
                taken = taken + 1;
            }
        }
        assert(all.subrange(0, taken) =~= all);
        t
    }

    /// Number of entries.
    pub fn len(&self) -> (n: usize)
        ensures
            n == self.entries().len(),
    {
        self.entries.len()
    }

    /// The key and value at position `i`.
    pub fn entry_at(&self, i: usize) -> (e: &(String, V))
        requires
            i < self.entries().len(),
        ensures
            *e == self.entries()[i as int],
    {
        &self.entries[i]
    }

    /// Position of `key`, if it is present.
    pub fn find(&self, key: &str) -> (r: Option<usize>)
        requires
            self.wf(),
        ensures
            match r {
                Some(i) => i < self.entries().len() && self.entries()[i as int].0@ == key@,
                None => !self@.dom().contains(key@),
            },
            r is Some <==> self@.dom().contains(key@),
    {
        let k: String = key.to_owned();
        let n = self.entries.len();
        let mut i: usize = 0;
        while i < n
            invariant
                n == self.entries@.len(),
                i <= n,
                k@ == key@,
                forall|j: int| 0 <= j < i ==> self.entries@[j].0@ != key@,
            decreases n - i,
        {
            if self.entries[i].0 == k {
                proof {
                    assert(has_key(self.entries(), key@));
                }
                return Some(i);
            }
            i = i + 1;
        }
        proof {
            if has_key(self.entries(), key@) {
                let p = choose|p: int| 0 <= p < self.entries@.len() && #[trigger] self.entries@[p].0@ == key@;
                assert(self.entries@[p].0@ == key@);
            }
        }
        None
    }

    /// The value stored under `key`.
    pub fn get(&self, key: &str) -> (r: Option<&V>)
        requires
            self.wf(),
        ensures
            match r {
                Some(v) => self@.dom().contains(key@) && *v == self@[key@],
                None => !self@.dom().contains(key@),
            },
    {
        match self.find(key) {
            Some(i) => {
                proof {
                    lemma_position_unique(self.entries(), i as int);
                }
                Some(&self.entries[i].1)
            },
            None => None,
        }
    }

    /// Store `value` under `key`: a present key keeps its place, a new key
    /// goes last.
    pub fn insert(&mut self, key: String, value: V)
        requires
            old(self).wf(),
        ensures
            final(self).wf(),
            final(self)@ == old(self)@.insert(key@, value),
            old(self)@.dom().contains(key@) ==> final(self).key_order() == old(self).key_order(),
            !old(self)@.dom().contains(key@) ==> final(self).key_order() == old(self).key_order().push(key@),
    {
        let ghost old_entries = self.entries@;
        match self.find(key.as_str()) {
            Some(i) => {
                let ghost kv = key@;
                self.entries.set(i, (key, value));
                proof {
                    let new_entries = self.entries@;
                    assert(distinct_keys(new_entries)) by {
                        assert forall|a: int, b: int|
                            0 <= a < new_entries.len() && 0 <= b < new_entries.len() && a != b
                            implies #[trigger] new_entries[a].0@ != #[trigger] new_entries[b].0@ by {
                            assert(old_entries[a].0@ != old_entries[b].0@);
                            if a == i {
                                assert(old_entries[i as int].0@ == kv);
                            }
                            if b == i {
                                assert(old_entries[i as int].0@ == kv);
                            }
                        }
                    }
                    lemma_position_unique(new_entries, i as int);
                    assert(map_of(new_entries) =~= map_of(old_entries).insert(kv, value)) by {
                        assert forall|k: Seq<char>| #[trigger] has_key(new_entries, k) == has_key(old_entries, k) || k == kv by {
                            if has_key(new_entries, k) {
                                let p = choose|p: int| 0 <= p < new_entries.len() && #[trigger] new_entries[p].0@ == k;
                                assert(old_entries[p].0@ == k || p == i);
                            }
                            if has_key(old_entries, k) {
                                let p = choose|p: int| 0 <= p < old_entries.len() && #[trigger] old_entries[p].0@ == k;
                                assert(new_entries[p].0@ == k || p == i);
                            }
                        }
                        assert forall|k: Seq<char>| k != kv && #[trigger] has_key(old_entries, k) implies
                            has_key(new_entries, k) && map_of(new_entries)[k] == map_of(old_entries)[k] by {
                            let p = choose|p: int| 0 <= p < old_entries.len() && #[trigger] old_entries[p].0@ == k;
                            lemma_position_unique(old_entries, p);
                            assert(p != i);
                            assert(new_entries[p].0@ == k);
                            lemma_position_unique(new_entries, p);
                        }
                        assert forall|k: Seq<char>| k != kv && #[trigger] has_key(new_entries, k) implies
                            has_key(old_entries, k) by {
                            let p = choose|p: int| 0 <= p < new_entries.len() && #[trigger] new_entries[p].0@ == k;
                            assert(p != i);
                            assert(old_entries[p].0@ == k);
                        }
                    }
                    assert(keys_of(new_entries) =~= keys_of(old_entries));
                }
            },
            None => {
                let ghost kv = key@;
                self.entries.push((key, value));
                proof {
                    let new_entries = self.entries@;
                    let n = old_entries.len() as int;
                    assert(distinct_keys(new_entries)) by {
                        assert forall|a: int, b: int|
                            0 <= a < new_entries.len() && 0 <= b < new_entries.len() && a != b
                            implies #[trigger] new_entries[a].0@ != #[trigger] new_entries[b].0@ by {
                            if a == n {
                                assert(old_entries[b].0@ != kv) by {
                                    if old_entries[b].0@ == kv {
                                        assert(has_key(old_entries, kv));
                                    }
                                }
                            } else if b == n {
                                assert(old_entries[a].0@ != kv) by {
                                    if old_entries[a].0@ == kv {
                                        assert(has_key(old_entries, kv));
                                    }
                                }
                            } else {
                                assert(old_entries[a].0@ != old_entries[b].0@);
                            }
                        }
                    }
                    lemma_position_unique(new_entries, n);
                    assert(map_of(new_entries) =~= map_of(old_entries).insert(kv, value)) by {
                        assert forall|k: Seq<char>| k != kv && #[trigger] has_key(old_entries, k) implies
                            has_key(new_entries, k) && map_of(new_entries)[k] == map_of(old_entries)[k] by {
                            let p = choose|p: int| 0 <= p < old_entries.len() && #[trigger] old_entries[p].0@ == k;
                            lemma_position_unique(old_entries, p);
                            assert(new_entries[p].0@ == k);
                            lemma_position_unique(new_entries, p);
                        }
                        assert forall|k: Seq<char>| k != kv && #[trigger] has_key(new_entries, k) implies
                            has_key(old_entries, k) by {
                            let p = choose|p: int| 0 <= p < new_entries.len() && #[trigger] new_entries[p].0@ == k;
                            assert(p != n);
                            assert(old_entries[p].0@ == k);
                        }
                    }
                    assert(keys_of(new_entries) =~= keys_of(old_entries).push(kv));
                }
            },
        }
    }

    /// Take out the value stored under `key`, if any; the other keys keep
    /// their order.
    pub fn remove(&mut self, key: &str) -> (r: Option<V>)
        requires
            old(self).wf(),
        ensures
            final(self).wf(),
            final(self)@ == old(self)@.remove(key@),
            r is Some ==> exists|i: int|
                0 <= i < old(self).key_order().len() && #[trigger] old(self).key_order()[i] == key@
                    && final(self).key_order() == old(self).key_order().remove(i),
            match r {
                Some(v) => old(self)@.dom().contains(key@) && v == old(self)@[key@],
                None => !old(self)@.dom().contains(key@) && *final(self) == *old(self),
            },
    {
        let ghost old_entries = self.entries@;
        match self.find(key) {
            Some(i) => {
                proof {
                    lemma_position_unique(old_entries, i as int);
                }
                let (_, v) = self.entries.remove(i);
                proof {
                    let new_entries = self.entries@;
                    let kv = key@;
                    assert(new_entries =~= old_entries.remove(i as int));
                    assert(keys_of(new_entries) =~= keys_of(old_entries).remove(i as int));
                    assert(keys_of(old_entries)[i as int] == kv);
                    assert(self.key_order() == old(self).key_order().remove(i as int));
                    assert(old(self).key_order()[i as int] == key@);
                    assert(distinct_keys(new_entries)) by {
                        assert forall|a: int, b: int|
                            0 <= a < new_entries.len() && 0 <= b < new_entries.len() && a != b
                            implies #[trigger] new_entries[a].0@ != #[trigger] new_entries[b].0@ by {
                            let oa = if a < i { a } else { a + 1 };
                            let ob = if b < i { b } else { b + 1 };
                            assert(new_entries[a] == old_entries[oa]);
                            assert(new_entries[b] == old_entries[ob]);
                            assert(old_entries[oa].0@ != old_entries[ob].0@);
                        }
                    }
                    assert(map_of(new_entries) =~= map_of(old_entries).remove(kv)) by {
                        assert forall|k: Seq<char>| #[trigger] has_key(new_entries, k) implies k != kv && has_key(old_entries, k)
                            && map_of(new_entries)[k] == map_of(old_entries)[k] by {
                            let p = choose|p: int| 0 <= p < new_entries.len() && #[trigger] new_entries[p].0@ == k;
                            let op = if p < i { p } else { p + 1 };
                            assert(new_entries[p] == old_entries[op]);
                            assert(op != i);
                            assert(old_entries[op].0@ != old_entries[i as int].0@);
                            lemma_position_unique(old_entries, op);
                            lemma_position_unique(new_entries, p);
                        }
                        assert forall|k: Seq<char>| k != kv && #[trigger] has_key(old_entries, k) implies has_key(new_entries, k) by {
                            let p = choose|p: int| 0 <= p < old_entries.len() && #[trigger] old_entries[p].0@ == k;
                            assert(p != i);
                            let np = if p < i { p } else { p - 1 };
                            assert(new_entries[np] == old_entries[p]);
                        }
                    }
                }
                Some(v)
            },
            None => {
                proof {
                    assert(map_of(old_entries) =~= map_of(old_entries).remove(key@));
                }
                None
            },
        }
    }

    /// Remove every entry.
    /// Take every entry out, in order, leaving the table empty.
    pub fn take_entries(&mut self) -> (r: Vec<(String, V)>)
        ensures
            r@ == old(self).entries(),
            final(self).wf(),
            final(self).entries() == Seq::<(String, V)>::empty(),
            final(self)@ == Map::<Seq<char>, V>::empty(),
            final(self).key_order() == Seq::<Seq<char>>::empty(),
    {
        let mut out: Vec<(String, V)> = Vec::new();
        std::mem::swap(&mut out, &mut self.entries);
        assert(self@ =~= Map::<Seq<char>, V>::empty());
        assert(self.key_order() =~= Seq::<Seq<char>>::empty());
        out
    }

    pub fn clear(&mut self)
        ensures
            final(self).wf(),
            final(self).entries() == Seq::<(String, V)>::empty(),
            final(self)@ == Map::<Seq<char>, V>::empty(),
            final(self).key_order() == Seq::<Seq<char>>::empty(),
    {
        self.entries.clear();
        assert(self@ =~= Map::<Seq<char>, V>::empty());
        assert(self.key_order() =~= Seq::<Seq<char>>::empty());
    }

    /// The keys, in insertion order.
    pub fn keys(&self) -> (r: Vec<String>)
        ensures
            r@.map_values(|s: String| s@) == self.key_order(),
    {
        let mut r: Vec<String> = Vec::new();
        let n = self.entries.len();
        let mut i: usize = 0;
        while i < n
            invariant
                n == self.entries@.len(),
                i <= n,
                r@.len() == i,
                forall|j: int| 0 <= j < i ==> #[trigger] r@[j]@ == self.entries@[j].0@,
            decreases n - i,
        {
            r.push(self.entries[i].0.clone());
            i = i + 1;
        }
        assert(r@.map_values(|s: String| s@) =~= self.key_order());
        r
    }
}

} // verus!
