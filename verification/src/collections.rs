//! A small map from texts to values, kept in the order of insertion.

use vstd::prelude::*;

verus! {

/// A map keyed by text. No key occurs twice; the entries stay in the order
/// in which their keys were first inserted.
#[derive(Debug, PartialEq, Eq)]
pub struct StrMap<V> {
    entries: Vec<(String, V)>,
}

/// Position of a key among some entries, or -1.
pub closed spec fn position<V>(entries: Seq<(String, V)>, k: Seq<char>) -> int {
    if exists|i: int| 0 <= i < entries.len() && (#[trigger] entries[i]).0@ == k {
        choose|i: int| 0 <= i < entries.len() && (#[trigger] entries[i]).0@ == k
    } else {
        -1
    }
}

/// No key occurs twice.
pub closed spec fn distinct<V>(entries: Seq<(String, V)>) -> bool {
    forall|i: int, j: int|
        0 <= i < j < entries.len() ==> (#[trigger] entries[i]).0@ != (#[trigger] entries[j]).0@
}

proof fn lemma_position<V>(entries: Seq<(String, V)>, k: Seq<char>)
    ensures
        -1 <= position(entries, k) < entries.len(),
        position(entries, k) >= 0 ==> entries[position(entries, k)].0@ == k,
        position(entries, k) < 0 ==> forall|i: int|
            0 <= i < entries.len() ==> (#[trigger] entries[i]).0@ != k,
{
}

proof fn lemma_position_at<V>(entries: Seq<(String, V)>, i: int)
    requires
        distinct(entries),
        0 <= i < entries.len(),
    ensures
        position(entries, entries[i].0@) == i,
{
    let k = entries[i].0@;
    let j = position(entries, k);
    assert(0 <= j < entries.len() && entries[j].0@ == k);
    if j < i {
        assert(entries[j].0@ != entries[i].0@);
    } else if i < j {
        assert(entries[i].0@ != entries[j].0@);
    }
}

impl<V> View for StrMap<V> {
    type V = Map<Seq<char>, V>;

    closed spec fn view(&self) -> Map<Seq<char>, V> {
        Map::new(
            |k: Seq<char>| position(self.entries@, k) >= 0,
            |k: Seq<char>| self.entries@[position(self.entries@, k)].1,
        )
    }
}

impl<V> StrMap<V> {
    /// The invariant of the map.
    pub closed spec fn wf(&self) -> bool {
        distinct(self.entries@)
    }

    /// Number of entries.
    pub closed spec fn count(&self) -> nat {
        self.entries@.len()
    }

    /// The keys in the order of their insertion.
    pub closed spec fn keys(&self) -> Seq<Seq<char>> {
        self.entries@.map_values(|e: (String, V)| e.0@)
    }

    /// The values in the order in which their keys were inserted.
    pub closed spec fn values(&self) -> Seq<V> {
        self.entries@.map_values(|e: (String, V)| e.1)
    }

    /// Keys and values go together, and every key is in the map.
    pub proof fn lemma_keys_values(&self)
        requires
            self.wf(),
        ensures
            self.keys().len() == self.count(),
            self.values().len() == self.count(),
            forall|i: int|
                0 <= i < self.count() ==> self@.contains_key(#[trigger] self.keys()[i]) && self@[self.keys()[i]]
                    == self.values()[i],
            forall|i: int, j: int|
                0 <= i < j < self.count() ==> #[trigger] self.keys()[i] != #[trigger] self.keys()[j],
            forall|k: Seq<char>|
                self@.contains_key(k) ==> exists|i: int|
                    0 <= i < self.count() && #[trigger] self.keys()[i] == k,
            self.count() == 0 <==> self@ =~= Map::<Seq<char>, V>::empty(),
    {
        assert forall|i: int| 0 <= i < self.count() implies self@.contains_key(
            #[trigger] self.keys()[i],
        ) && self@[self.keys()[i]] == self.values()[i] by {
            lemma_position_at(self.entries@, i);
        }
        assert forall|k: Seq<char>| self@.contains_key(k) implies exists|i: int|
            0 <= i < self.count() && #[trigger] self.keys()[i] == k by {
            lemma_position(self.entries@, k);
            assert(self.keys()[position(self.entries@, k)] == k);
        }
        if self.count() > 0 {
            lemma_position_at(self.entries@, 0);
            assert(self@.contains_key(self.entries@[0].0@));
        } else {
            assert forall|k: Seq<char>| !self@.contains_key(k) by {
                lemma_position(self.entries@, k);
            }
        }
    }

    pub fn new() -> (r: StrMap<V>)
        ensures
            r.wf(),
            r.count() == 0,
            r@ =~= Map::<Seq<char>, V>::empty(),
    {
        let r = StrMap { entries: Vec::new() };
        proof {
            assert forall|k: Seq<char>| !r@.contains_key(k) by {
                lemma_position(r.entries@, k);
            }
        }
        r
    }

    pub fn len(&self) -> (r: usize)
        ensures
            r == self.count(),
    {
        self.entries.len()
    }

    pub fn is_empty(&self) -> (r: bool)
        ensures
            r == (self.count() == 0),
    {
        self.entries.len() == 0
    }

    fn find(&self, key: &String) -> (r: Option<usize>)
        requires
            self.wf(),
        ensures
            match r {
                Some(i) => i < self.entries@.len() && position(self.entries@, key@) == i,
                None => position(self.entries@, key@) == -1,
            },
    {
        let mut i: usize = 0;
        while i < self.entries.len()
            invariant
                self.wf(),
                i <= self.entries@.len(),
                forall|j: int| 0 <= j < i ==> (#[trigger] self.entries@[j]).0@ != key@,
            decreases self.entries@.len() - i,
        {
            if self.entries[i].0 == *key {
                proof {
                    lemma_position_at(self.entries@, i as int);
                }
                return Some(i);
            }
            i = i + 1;
        }
        proof {
            lemma_position(self.entries@, key@);
        }
        None
    }

    /// Whether a key is in the map.
    pub fn contains_key(&self, key: &String) -> (r: bool)
        requires
            self.wf(),
        ensures
            r == self@.contains_key(key@),
    {
        self.find(key).is_some()
    }

    /// The value under a key.
    pub fn get(&self, key: &String) -> (r: Option<&V>)
        requires
            self.wf(),
        ensures
            r.is_some() == self@.contains_key(key@),
            r matches Some(v) ==> *v == self@[key@],
    {
        match self.find(key) {
            Some(i) => Some(&self.entries[i].1),
            None => None,
        }
    }

    /// The entry at a position of the insertion order.
    pub fn at(&self, i: usize) -> (r: (&String, &V))
        requires
            self.wf(),
            i < self.count(),
        ensures
            r.0@ == self.keys()[i as int],
            *r.1 == self.values()[i as int],
            self@.contains_key(r.0@),
            self@[r.0@] == *r.1,
    {
        proof {
            lemma_position_at(self.entries@, i as int);
        }
        (&self.entries[i].0, &self.entries[i].1)
    }

    /// Puts a value under a key and returns what was there before.
    pub fn insert(&mut self, key: String, value: V) -> (r: Option<V>)
        requires
            old(self).wf(),
        ensures
            final(self).wf(),
            final(self)@ == old(self)@.insert(key@, value),
            r == if old(self)@.contains_key(key@) {
                Some(old(self)@[key@])
            } else {
                None
            },
            final(self).count() == if old(self)@.contains_key(key@) {
                old(self).count()
            } else {
                old(self).count() + 1
            },
    {
        let ghost before = self.entries@;
        let ghost k = key@;
        match self.find(&key) {
            Some(i) => {
                let old_entry = self.entries.remove(i);
                self.entries.insert(i, (key, value));
                proof {
                    let after = self.entries@;
                    assert(after =~= before.update(i as int, (key, value)));
                    assert(distinct(after)) by {
                        assert forall|a: int, b: int| 0 <= a < b < after.len() implies (
                        #[trigger] after[a]).0@ != (#[trigger] after[b]).0@ by {
                            assert(after[a].0@ == before[a].0@);
                            assert(after[b].0@ == before[b].0@);
                        }
                    }
                    assert forall|q: Seq<char>| position(after, q) == position(before, q) by {
                        lemma_position(before, q);
                        lemma_position(after, q);
                        let pb = position(before, q);
                        let pa = position(after, q);
                        if pb >= 0 {
                            assert(after[pb].0@ == q);
                            lemma_position_at(after, pb);
                        } else if pa >= 0 {
                            assert(before[pa].0@ == q);
                        }
                    }
                    assert(self@ =~= Map::new(
                        |q: Seq<char>| position(before, q) >= 0,
                        |q: Seq<char>| before[position(before, q)].1,
                    ).insert(k, value));
                }
                Some(old_entry.1)
            },
            None => {
                self.entries.push((key, value));
                proof {
                    let after = self.entries@;
                    let n = before.len() as int;
                    lemma_position(before, k);
                    assert(distinct(after)) by {
                        assert forall|a: int, b: int| 0 <= a < b < after.len() implies (
                        #[trigger] after[a]).0@ != (#[trigger] after[b]).0@ by {
                            if b < n {
                                assert(before[a].0@ != before[b].0@);
                            } else {
                                assert(before[a].0@ != k);
                            }
                        }
                    }
                    lemma_position_at(after, n);
                    assert forall|q: Seq<char>| q != k implies position(after, q) == position(
                        before,
                        q,
                    ) by {
                        lemma_position(before, q);
                        lemma_position(after, q);
                        let pb = position(before, q);
                        let pa = position(after, q);
                        if pb >= 0 {
                            assert(after[pb].0@ == q);
                            lemma_position_at(after, pb);
                        } else if pa >= 0 {
                            assert(pa < n);
                            assert(before[pa].0@ == q);
                        }
                    }
                    assert(self@ =~= Map::new(
                        |q: Seq<char>| position(before, q) >= 0,
                        |q: Seq<char>| before[position(before, q)].1,
                    ).insert(k, value));
                }
                None
            },
        }
    }

    /// Takes out the value under a key.
    pub fn remove(&mut self, key: &String) -> (r: Option<V>)
        requires
            old(self).wf(),
        ensures
            final(self).wf(),
            final(self)@ == old(self)@.remove(key@),
            r == if old(self)@.contains_key(key@) {
                Some(old(self)@[key@])
            } else {
                None
            },
            final(self).count() == if old(self)@.contains_key(key@) {
                old(self).count() - 1
            } else {
                old(self).count() as int
            },
    {
        let ghost before = self.entries@;
        let ghost k = key@;
        match self.find(key) {
            Some(i) => {
                let entry = self.entries.remove(i);
                proof {
                    let after = self.entries@;
                    assert forall|a: int| 0 <= a < after.len() implies #[trigger] after[a]
                        == before[if a < i {
                        a
                    } else {
                        a + 1
                    }] by {}
                    assert(distinct(after)) by {
                        assert forall|a: int, b: int| 0 <= a < b < after.len() implies (
                        #[trigger] after[a]).0@ != (#[trigger] after[b]).0@ by {
                            let a0 = if a < i { a } else { a + 1 };
                            let b0 = if b < i { b } else { b + 1 };
                            assert(before[a0].0@ != before[b0].0@);
                        }
                    }
                    assert(position(after, k) < 0) by {
                        lemma_position(after, k);
                        let pa = position(after, k);
                        if pa >= 0 {
                            let p0 = if pa < i { pa } else { pa + 1 };
                            assert(before[p0].0@ == k);
                            if p0 < i {
                                assert(before[p0].0@ != before[i as int].0@);
                            } else {
                                assert(before[i as int].0@ != before[p0].0@);
                            }
                        }
                    }
                    assert forall|q: Seq<char>| q != k implies (position(after, q) >= 0) == (
                    position(before, q) >= 0) && (position(before, q) >= 0 ==> after[position(
                        after,
                        q,
                    )].1 == before[position(before, q)].1) by {
                        lemma_position(before, q);
                        lemma_position(after, q);
                        let pb = position(before, q);
                        let pa = position(after, q);
                        if pb >= 0 {
                            let moved = if pb < i { pb } else { pb - 1 };
                            assert(after[moved] == before[pb]);
                            lemma_position_at(after, moved);
                        } else if pa >= 0 {
                            let p0 = if pa < i { pa } else { pa + 1 };
                            assert(before[p0].0@ == q);
                        }
                    }
                    assert(self@ =~= Map::new(
                        |q: Seq<char>| position(before, q) >= 0,
                        |q: Seq<char>| before[position(before, q)].1,
                    ).remove(k));
                }
                Some(entry.1)
            },
            None => {
                proof {
                    assert(self@ =~= self@.remove(k));
                }
                None
            },
        }
    }
}

} // verus!
