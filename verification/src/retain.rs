//! The topic-matching trie: values stored under topics, found again by
//! topic filters. It serves retained messages and subscriber sets alike.

use vstd::prelude::*;
use crate::topic::{
    clone_levels, filter_matches, level_admits, level_admits_exec, levels_view, Level, LevelView,
    Topic,
};

verus! {

/// A trie that stores retained messages under their topics.
pub type RetainTree<V> = Node<V>;

/// A node of the trie: the value stored at the topic that leads here, and
/// one branch for each next level under which something is stored.
///
/// No level names two branches, and a node without a value and without
/// branches is the root or nothing: no branch leads to one.
pub struct Node<V> {
    value: Option<V>,
    branches: Vec<(Level, Node<V>)>,
}

/// Position of the branch for a level among some branches, or -1.
pub closed spec fn position<V>(branches: Seq<(Level, Node<V>)>, k: LevelView) -> int {
    if exists|i: int| 0 <= i < branches.len() && (#[trigger] branches[i]).0@ == k {
        choose|i: int| 0 <= i < branches.len() && (#[trigger] branches[i]).0@ == k
    } else {
        -1
    }
}

/// Two sequences with the same head and the same tail are the same.
proof fn lemma_same_head_and_tail<A>(a: Seq<A>, b: Seq<A>)
    requires
        a.len() > 0,
        b.len() > 0,
        a[0] == b[0],
        a.skip(1) == b.skip(1),
    ensures
        a == b,
{
    assert(a.skip(1).len() == a.len() - 1);
    assert(b.skip(1).len() == b.len() - 1);
    assert forall|i: int| 0 <= i < a.len() implies a[i] == b[i] by {
        if i > 0 {
            assert(a.skip(1)[i - 1] == a[i]);
            assert(b.skip(1)[i - 1] == b[i]);
        }
    }
    assert(a =~= b);
}

impl<V> Node<V> {
    /// Whether the node holds nothing: no value and no branch.
    pub closed spec fn is_vacant(self) -> bool {
        self.value is None && self.branches@.len() == 0
    }

    /// Number of branches that leave the node.
    pub closed spec fn fanout(self) -> nat {
        self.branches@.len()
    }

    /// Level of the branch at a position.
    pub closed spec fn key_at(self, i: int) -> LevelView {
        self.branches@[i].0@
    }

    /// Node at the end of the branch at a position.
    pub closed spec fn child_at(self, i: int) -> Node<V> {
        self.branches@[i].1
    }

    /// Position of the branch for a level, or -1 where there is none.
    pub closed spec fn index_of(self, k: LevelView) -> int {
        position(self.branches@, k)
    }

    /// The value stored under a topic, read from this node on.
    pub closed spec fn lookup(self, path: Seq<LevelView>) -> Option<V>
        decreases path.len(),
    {
        if path.len() == 0 {
            self.value
        } else {
            let i = self.index_of(path[0]);
            if i < 0 {
                None
            } else {
                self.child_at(i).lookup(path.skip(1))
            }
        }
    }

    /// The invariant of the trie: see [`Node`].
    pub closed spec fn wf(self) -> bool
        decreases self,
    {
        &&& forall|i: int, j: int|
            0 <= i < j < self.branches@.len() ==> #[trigger] self.key_at(i) != #[trigger] self.key_at(
                j,
            )
        &&& forall|i: int|
            0 <= i < self.branches@.len() ==> {
                &&& (#[trigger] self.branches@[i]).1.wf()
                &&& !self.branches@[i].1.is_vacant()
            }
    }
}

impl<V> View for Node<V> {
    type V = Map<Seq<LevelView>, V>;

    /// The trie as a map from topics to values.
    closed spec fn view(&self) -> Map<Seq<LevelView>, V> {
        Map::new(|p: Seq<LevelView>| self.lookup(p) is Some, |p: Seq<LevelView>| self.lookup(p)->0)
    }
}

impl<V> Node<V> {
    proof fn lemma_index_of(self, i: int)
        requires
            self.wf(),
            0 <= i < self.branches@.len(),
        ensures
            self.index_of(self.key_at(i)) == i,
    {
        let k = self.key_at(i);
        let j = self.index_of(k);
        assert(self.branches@[i].0@ == k);
        assert(0 <= j < self.branches@.len() && self.key_at(j) == k);
        if j < i {
            assert(self.key_at(j) != self.key_at(i));
        } else if i < j {
            assert(self.key_at(i) != self.key_at(j));
        }
    }

    proof fn lemma_index_of_none(self, k: LevelView)
        requires
            forall|i: int| 0 <= i < self.branches@.len() ==> #[trigger] self.key_at(i) != k,
        ensures
            self.index_of(k) == -1,
    {
        if exists|i: int| 0 <= i < self.branches@.len() && (#[trigger] self.branches@[i]).0@ == k {
            let i = choose|i: int| 0 <= i < self.branches@.len() && (#[trigger] self.branches@[i]).0@ == k;
            assert(self.key_at(i) == k);
        }
    }

    proof fn lemma_index_of_range(self, k: LevelView)
        ensures
            -1 <= self.index_of(k) < self.branches@.len(),
            self.index_of(k) >= 0 ==> self.key_at(self.index_of(k)) == k,
            self.index_of(k) < 0 ==> forall|i: int|
                0 <= i < self.branches@.len() ==> #[trigger] self.key_at(i) != k,
    {
        if self.index_of(k) < 0 {
            assert forall|i: int| 0 <= i < self.branches@.len() implies #[trigger] self.key_at(i)
                != k by {
                if self.key_at(i) == k {
                    assert(self.branches@[i].0@ == k);
                }
            }
        }
    }

    /// A vacant node stores nothing.
    proof fn lemma_vacant_lookup(self, q: Seq<LevelView>)
        requires
            self.is_vacant(),
        ensures
            self.lookup(q) is None,
    {
        if q.len() > 0 {
            self.lemma_index_of_none(q[0]);
        }
    }

    /// A node that is not vacant stores a value somewhere.
    proof fn lemma_occupied_has_value(self) -> (q: Seq<LevelView>)
        requires
            self.wf(),
            !self.is_vacant(),
        ensures
            self.lookup(q) is Some,
        decreases self,
    {
        if self.value is Some {
            let q = Seq::<LevelView>::empty();
            assert(self.lookup(q) == self.value);
            q
        } else {
            let b = self.branches@[0];
            let child = b.1;
            assert(child.wf() && !child.is_vacant());
            let sub = child.lemma_occupied_has_value();
            let q = seq![self.key_at(0)] + sub;
            self.lemma_index_of(0);
            assert(q.skip(1) =~= sub);
            assert(q[0] == self.key_at(0));
            assert(self.lookup(q) == self.child_at(0).lookup(q.skip(1)));
            q
        }
    }

    /// A trie that stores nothing has no value at its root and no branch.
    pub proof fn lemma_empty_is_vacant(self)
        requires
            self.wf(),
            self@ =~= Map::<Seq<LevelView>, V>::empty(),
        ensures
            self.is_vacant(),
            self.fanout() == 0,
    {
        if !self.is_vacant() {
            let q = self.lemma_occupied_has_value();
            assert(self@.contains_key(q));
        }
    }

    /// The empty trie.
    pub fn new() -> (r: Node<V>)
        ensures
            r.wf(),
            r.is_vacant(),
            r@ =~= Map::<Seq<LevelView>, V>::empty(),
    {
        let r = Node { value: None, branches: Vec::new() };
        proof {
            assert forall|p: Seq<LevelView>| r.lookup(p) is None by {
                r.lemma_vacant_lookup(p);
            }
        }
        r
    }

    /// Position of the branch for a level, if there is one.
    fn find(&self, level: &Level) -> (r: Option<usize>)
        requires
            self.wf(),
        ensures
            match r {
                Some(i) => i < self.branches@.len() && self.index_of(level@) == i,
                None => self.index_of(level@) == -1,
            },
    {
        let mut i: usize = 0;
        while i < self.branches.len()
            invariant
                i <= self.branches@.len(),
                self.wf(),
                forall|j: int| 0 <= j < i ==> #[trigger] self.key_at(j) != level@,
            decreases self.branches@.len() - i,
        {
            if self.branches[i].0.same(level) {
                proof {
                    self.lemma_index_of(i as int);
                }
                return Some(i);
            }
            i = i + 1;
        }
        proof {
            self.lemma_index_of_none(level@);
        }
        None
    }
}

impl<V> Node<V> {
    /// What a node stores under a topic of one level or more is what the
    /// branch for the first level stores under the rest.
    proof fn lemma_lookup_step(self, q: Seq<LevelView>)
        requires
            q.len() > 0,
        ensures
            self.lookup(q) == if self.index_of(q[0]) < 0 {
                None
            } else {
                self.child_at(self.index_of(q[0])).lookup(q.skip(1))
            },
    {
    }

    /// The invariant, spelled out over positions.
    proof fn lemma_wf_intro(self)
        requires
            forall|i: int, j: int|
                0 <= i < j < self.branches@.len() ==> self.key_at(i) != self.key_at(j),
            forall|i: int|
                0 <= i < self.branches@.len() ==> self.child_at(i).wf() && !self.child_at(
                    i,
                ).is_vacant(),
        ensures
            self.wf(),
    {
        assert forall|i: int| 0 <= i < self.branches@.len() implies {
            &&& (#[trigger] self.branches@[i]).1.wf()
            &&& !self.branches@[i].1.is_vacant()
        } by {
            assert(self.child_at(i).wf());
        }
    }

    proof fn lemma_wf_elim(self)
        requires
            self.wf(),
        ensures
            forall|i: int, j: int|
                0 <= i < j < self.branches@.len() ==> self.key_at(i) != self.key_at(j),
            forall|i: int|
                0 <= i < self.branches@.len() ==> (#[trigger] self.child_at(i)).wf()
                    && !self.child_at(i).is_vacant(),
    {
        assert forall|i: int| 0 <= i < self.branches@.len() implies (#[trigger] self.child_at(
            i,
        )).wf() && !self.child_at(i).is_vacant() by {
            assert(self.branches@[i].1.wf());
        }
    }

    /// A node whose branch at `i` was replaced, under the same level.
    spec fn replaced(before: Node<V>, after: Node<V>, i: int) -> bool {
        &&& 0 <= i < before.branches@.len()
        &&& after.value == before.value
        &&& after.branches@.len() == before.branches@.len()
        &&& forall|j: int| 0 <= j < before.branches@.len() ==> after.key_at(j) == before.key_at(j)
        &&& forall|j: int|
            0 <= j < before.branches@.len() && j != i ==> after.child_at(j) == before.child_at(j)
    }

    proof fn lemma_replaced_index(before: Node<V>, after: Node<V>, i: int, k: LevelView)
        requires
            before.wf(),
            Self::replaced(before, after, i),
        ensures
            after.index_of(k) == before.index_of(k),
    {
        before.lemma_index_of_range(k);
        before.lemma_wf_elim();
        let b = before.index_of(k);
        if b >= 0 {
            assert(after.key_at(b) == k);
            after.lemma_index_of_range(k);
            let a = after.index_of(k);
            if a < 0 {
                assert(after.key_at(b) != k);
            } else if a != b {
                assert(before.key_at(a) == k);
                if a < b {
                    assert(before.key_at(a) != before.key_at(b));
                } else {
                    assert(before.key_at(b) != before.key_at(a));
                }
            }
        } else {
            assert forall|j: int| 0 <= j < after.branches@.len() implies #[trigger] after.key_at(j)
                != k by {
                assert(after.key_at(j) == before.key_at(j));
                assert(before.key_at(j) != k);
            }
            after.lemma_index_of_none(k);
        }
    }

    proof fn lemma_replaced_wf(before: Node<V>, after: Node<V>, i: int)
        requires
            before.wf(),
            Self::replaced(before, after, i),
            after.child_at(i).wf(),
            !after.child_at(i).is_vacant(),
        ensures
            after.wf(),
    {
        before.lemma_wf_elim();
        assert forall|a: int, b: int| 0 <= a < b < after.branches@.len() implies after.key_at(a)
            != after.key_at(b) by {
            assert(before.key_at(a) != before.key_at(b));
        }
        assert forall|j: int| 0 <= j < after.branches@.len() implies after.child_at(j).wf()
            && !after.child_at(j).is_vacant() by {
            if j != i {
                assert(after.child_at(j) == before.child_at(j));
                assert(before.child_at(j).wf());
            }
        }
        after.lemma_wf_intro();
    }

    proof fn lemma_replaced_lookup(before: Node<V>, after: Node<V>, i: int, q: Seq<LevelView>)
        requires
            before.wf(),
            Self::replaced(before, after, i),
        ensures
            after.lookup(q) == if q.len() > 0 && q[0] == before.key_at(i) {
                after.child_at(i).lookup(q.skip(1))
            } else {
                before.lookup(q)
            },
            q.len() > 0 && q[0] == before.key_at(i) ==> before.lookup(q) == before.child_at(
                i,
            ).lookup(q.skip(1)),
    {
        if q.len() > 0 {
            Self::lemma_replaced_index(before, after, i, q[0]);
            before.lemma_index_of_range(q[0]);
            before.lemma_index_of(i);
            after.lemma_lookup_step(q);
            before.lemma_lookup_step(q);
            let c = before.index_of(q[0]);
            if c >= 0 && c != i {
                assert(after.child_at(c) == before.child_at(c));
            }
        }
    }

    /// A node that gained a branch for a level it had none for.
    spec fn pushed(before: Node<V>, after: Node<V>) -> bool {
        &&& after.value == before.value
        &&& after.branches@.len() == before.branches@.len() + 1
        &&& forall|j: int|
            0 <= j < before.branches@.len() ==> after.key_at(j) == before.key_at(j)
                && after.child_at(j) == before.child_at(j)
        &&& forall|j: int|
            0 <= j < before.branches@.len() ==> before.key_at(j) != after.key_at(
                before.branches@.len() as int,
            )
    }

    proof fn lemma_pushed_wf(before: Node<V>, after: Node<V>)
        requires
            before.wf(),
            Self::pushed(before, after),
            after.child_at(before.branches@.len() as int).wf(),
            !after.child_at(before.branches@.len() as int).is_vacant(),
        ensures
            after.wf(),
    {
        let n = before.branches@.len() as int;
        before.lemma_wf_elim();
        assert forall|a: int, b: int| 0 <= a < b < after.branches@.len() implies after.key_at(a)
            != after.key_at(b) by {
            if b < n {
                assert(before.key_at(a) != before.key_at(b));
            } else {
                assert(before.key_at(a) != after.key_at(n));
            }
        }
        assert forall|j: int| 0 <= j < after.branches@.len() implies after.child_at(j).wf()
            && !after.child_at(j).is_vacant() by {
            if j < n {
                assert(after.child_at(j) == before.child_at(j));
                assert(before.child_at(j).wf());
            }
        }
        after.lemma_wf_intro();
    }

    proof fn lemma_pushed_lookup(before: Node<V>, after: Node<V>, q: Seq<LevelView>)
        requires
            before.wf(),
            Self::pushed(before, after),
            after.wf(),
        ensures
            after.lookup(q) == if q.len() > 0 && q[0] == after.key_at(
                before.branches@.len() as int,
            ) {
                after.child_at(before.branches@.len() as int).lookup(q.skip(1))
            } else {
                before.lookup(q)
            },
            q.len() > 0 && q[0] == after.key_at(before.branches@.len() as int) ==> before.lookup(q)
                is None,
    {
        let n = before.branches@.len() as int;
        if q.len() > 0 {
            after.lemma_lookup_step(q);
            before.lemma_lookup_step(q);
            after.lemma_index_of(n);
            before.lemma_index_of_range(q[0]);
            let c = before.index_of(q[0]);
            if q[0] == after.key_at(n) {
                if c >= 0 {
                    assert(before.key_at(c) != after.key_at(n));
                }
            } else if c >= 0 {
                assert(after.key_at(c) == q[0]);
                after.lemma_index_of(c);
                assert(after.child_at(c) == before.child_at(c));
            } else {
                assert forall|j: int| 0 <= j < after.branches@.len() implies #[trigger] after.key_at(
                    j,
                ) != q[0] by {
                    if j < n {
                        assert(after.key_at(j) == before.key_at(j));
                        assert(before.key_at(j) != q[0]);
                    }
                }
                after.lemma_index_of_none(q[0]);
            }
        }
    }

    /// A node that lost its branch at `i`.
    spec fn dropped(before: Node<V>, after: Node<V>, i: int) -> bool {
        &&& 0 <= i < before.branches@.len()
        &&& after.value == before.value
        &&& after.branches@.len() == before.branches@.len() - 1
        &&& forall|j: int|
            0 <= j < i ==> after.key_at(j) == before.key_at(j) && after.child_at(j)
                == before.child_at(j)
        &&& forall|j: int|
            i <= j < after.branches@.len() ==> after.key_at(j) == before.key_at(j + 1)
                && after.child_at(j) == before.child_at(j + 1)
    }

    proof fn lemma_dropped_wf(before: Node<V>, after: Node<V>, i: int)
        requires
            before.wf(),
            Self::dropped(before, after, i),
        ensures
            after.wf(),
    {
        before.lemma_wf_elim();
        assert forall|a: int, b: int| 0 <= a < b < after.branches@.len() implies after.key_at(a)
            != after.key_at(b) by {
            let a0 = if a < i { a } else { a + 1 };
            let b0 = if b < i { b } else { b + 1 };
            assert(after.key_at(a) == before.key_at(a0));
            assert(after.key_at(b) == before.key_at(b0));
            assert(before.key_at(a0) != before.key_at(b0));
        }
        assert forall|j: int| 0 <= j < after.branches@.len() implies after.child_at(j).wf()
            && !after.child_at(j).is_vacant() by {
            let j0 = if j < i { j } else { j + 1 };
            assert(after.child_at(j) == before.child_at(j0));
            assert(before.child_at(j0).wf());
        }
        after.lemma_wf_intro();
    }

    proof fn lemma_dropped_lookup(before: Node<V>, after: Node<V>, i: int, q: Seq<LevelView>)
        requires
            before.wf(),
            Self::dropped(before, after, i),
            after.wf(),
        ensures
            after.lookup(q) == if q.len() > 0 && q[0] == before.key_at(i) {
                None
            } else {
                before.lookup(q)
            },
            q.len() > 0 && q[0] == before.key_at(i) ==> before.lookup(q) == before.child_at(
                i,
            ).lookup(q.skip(1)),
    {
        before.lemma_wf_elim();
        if q.len() > 0 {
            after.lemma_lookup_step(q);
            before.lemma_lookup_step(q);
            before.lemma_index_of(i);
            before.lemma_index_of_range(q[0]);
            let c = before.index_of(q[0]);
            if q[0] == before.key_at(i) {
                assert forall|j: int| 0 <= j < after.branches@.len() implies #[trigger] after.key_at(
                    j,
                ) != q[0] by {
                    let j0 = if j < i { j } else { j + 1 };
                    assert(after.key_at(j) == before.key_at(j0));
                    if j0 < i {
                        assert(before.key_at(j0) != before.key_at(i));
                    } else {
                        assert(before.key_at(i) != before.key_at(j0));
                    }
                }
                after.lemma_index_of_none(q[0]);
            } else if c >= 0 {
                let c1 = if c < i { c } else { c - 1 };
                assert(after.key_at(c1) == q[0]);
                after.lemma_index_of(c1);
                assert(after.child_at(c1) == before.child_at(c));
            } else {
                assert forall|j: int| 0 <= j < after.branches@.len() implies #[trigger] after.key_at(
                    j,
                ) != q[0] by {
                    let j0 = if j < i { j } else { j + 1 };
                    assert(after.key_at(j) == before.key_at(j0));
                    assert(before.key_at(j0) != q[0]);
                }
                after.lemma_index_of_none(q[0]);
            }
        }
    }

    /// Stores a value under the levels of `path` from `pos` on.
    fn insert_at(&mut self, path: &Vec<Level>, pos: usize, value: V)
        requires
            old(self).wf(),
            pos <= path@.len(),
        ensures
            final(self).wf(),
            !final(self).is_vacant(),
            forall|q: Seq<LevelView>|
                #[trigger] final(self).lookup(q) == if q == levels_view(path@).skip(pos as int) {
                    Some(value)
                } else {
                    old(self).lookup(q)
                },
        decreases path@.len() - pos,
    {
        let ghost before = *self;
        let ghost target = levels_view(path@).skip(pos as int);
        if pos == path.len() {
            self.value = Some(value);
            proof {
                assert(target.len() == 0);
                assert(self.branches@ == before.branches@);
                before.lemma_wf_elim();
                assert forall|i: int, j: int|
                    0 <= i < j < self.branches@.len() implies self.key_at(i) != self.key_at(j) by {
                    assert(before.key_at(i) != before.key_at(j));
                }
                assert forall|i: int| 0 <= i < self.branches@.len() implies self.child_at(i).wf()
                    && !self.child_at(i).is_vacant() by {
                    assert(before.child_at(i).wf());
                }
                self.lemma_wf_intro();
                assert forall|q: Seq<LevelView>| #[trigger]
                    self.lookup(q) == if q == target {
                        Some(value)
                    } else {
                        before.lookup(q)
                    } by {
                    if q.len() == 0 {
                        assert(q =~= target);
                    } else {
                        self.lemma_lookup_step(q);
                        before.lemma_lookup_step(q);
                    }
                }
            }
        } else {
            let ghost head = path@[pos as int]@;
            let ghost rest = levels_view(path@).skip(pos as int + 1);
            proof {
                assert(target.len() > 0 && target[0] == head);
                assert(target.skip(1) =~= rest);
                before.lemma_wf_elim();
            }
            match self.find(&path[pos]) {
                Some(i) => {
                    proof {
                        before.lemma_index_of_range(head);
                        assert(before.child_at(i as int).wf());
                    }
                    self.branches[i].1.insert_at(path, pos + 1, value);
                    proof {
                        assert(Self::replaced(before, *self, i as int));
                        Self::lemma_replaced_wf(before, *self, i as int);
                        assert forall|q: Seq<LevelView>| #[trigger]
                            self.lookup(q) == if q == target {
                                Some(value)
                            } else {
                                before.lookup(q)
                            } by {
                            Self::lemma_replaced_lookup(before, *self, i as int, q);
                            if q.len() > 0 && q[0] == head {
                                if q.skip(1) == rest {
                                    lemma_same_head_and_tail(q, target);
                                }
                            }
                        }
                    }
                },
                None => {
                    let mut child: Node<V> = Node::new();
                    let ghost fresh = child;
                    child.insert_at(path, pos + 1, value);
                    self.branches.push((path[pos].clone(), child));
                    proof {
                        let n = before.branches@.len() as int;
                        before.lemma_index_of_range(head);
                        assert(self.key_at(n) == head);
                        assert(Self::pushed(before, *self));
                        Self::lemma_pushed_wf(before, *self);
                        assert forall|q: Seq<LevelView>| #[trigger]
                            self.lookup(q) == if q == target {
                                Some(value)
                            } else {
                                before.lookup(q)
                            } by {
                            Self::lemma_pushed_lookup(before, *self, q);
                            if q.len() > 0 && q[0] == head {
                                fresh.lemma_vacant_lookup(q.skip(1));
                                if q.skip(1) == rest {
                                    lemma_same_head_and_tail(q, target);
                                }
                            }
                        }
                    }
                },
            }
        }
    }

    /// Stores `value` under `topic`, in place of what was stored there.
    pub fn insert(&mut self, topic: &Topic, value: V)
        requires
            old(self).wf(),
        ensures
            final(self).wf(),
            final(self)@ == old(self)@.insert(topic@, value),
    {
        let ghost before = *self;
        let path = topic.levels();
        self.insert_at(path, 0, value);
        proof {
            assert(levels_view(path@).skip(0) =~= topic@);
            assert(self@ =~= before@.insert(topic@, value));
        }
    }

    /// Whether the node holds nothing.
    fn is_empty(&self) -> (r: bool)
        ensures
            r == self.is_vacant(),
    {
        self.value.is_none() && self.branches.len() == 0
    }

    /// Takes out what is stored under the levels of `path` from `pos` on,
    /// and with it every branch that then leads to nothing.
    fn remove_at(&mut self, path: &Vec<Level>, pos: usize) -> (r: Option<V>)
        requires
            old(self).wf(),
            pos <= path@.len(),
        ensures
            final(self).wf(),
            r == old(self).lookup(levels_view(path@).skip(pos as int)),
            forall|q: Seq<LevelView>|
                #[trigger] final(self).lookup(q) == if q == levels_view(path@).skip(pos as int) {
                    None
                } else {
                    old(self).lookup(q)
                },
        decreases path@.len() - pos,
    {
        let ghost before = *self;
        let ghost target = levels_view(path@).skip(pos as int);
        proof {
            before.lemma_wf_elim();
        }
        if pos == path.len() {
            let r = self.value.take();
            proof {
                assert(target.len() == 0);
                assert(self.branches@ == before.branches@);
                assert forall|i: int, j: int|
                    0 <= i < j < self.branches@.len() implies self.key_at(i) != self.key_at(j) by {
                    assert(before.key_at(i) != before.key_at(j));
                }
                assert forall|i: int| 0 <= i < self.branches@.len() implies self.child_at(i).wf()
                    && !self.child_at(i).is_vacant() by {
                    assert(before.child_at(i).wf());
                }
                self.lemma_wf_intro();
                assert forall|q: Seq<LevelView>| #[trigger]
                    self.lookup(q) == if q == target {
                        None
                    } else {
                        before.lookup(q)
                    } by {
                    if q.len() == 0 {
                        assert(q =~= target);
                    } else {
                        self.lemma_lookup_step(q);
                        before.lemma_lookup_step(q);
                    }
                }
            }
            r
        } else {
            let ghost head = path@[pos as int]@;
            let ghost rest = levels_view(path@).skip(pos as int + 1);
            proof {
                assert(target.len() > 0 && target[0] == head);
                assert(target.skip(1) =~= rest);
                before.lemma_lookup_step(target);
            }
            match self.find(&path[pos]) {
                None => {
                    proof {
                        assert forall|q: Seq<LevelView>| #[trigger]
                            self.lookup(q) == if q == target {
                                None
                            } else {
                                before.lookup(q)
                            } by {}
                    }
                    None
                },
                Some(i) => {
                    proof {
                        before.lemma_index_of_range(head);
                        assert(before.child_at(i as int).wf());
                    }
                    let r = self.branches[i].1.remove_at(path, pos + 1);
                    let ghost mid = *self;
                    proof {
                        assert(Self::replaced(before, mid, i as int));
                    }
                    if self.branches[i].1.is_empty() {
                        self.branches.remove(i);
                        proof {
                            assert(Self::dropped(before, *self, i as int));
                            Self::lemma_dropped_wf(before, *self, i as int);
                            assert forall|q: Seq<LevelView>| #[trigger]
                                self.lookup(q) == if q == target {
                                    None
                                } else {
                                    before.lookup(q)
                                } by {
                                Self::lemma_dropped_lookup(before, *self, i as int, q);
                                if q.len() > 0 && q[0] == head {
                                    mid.child_at(i as int).lemma_vacant_lookup(q.skip(1));
                                    if q.skip(1) == rest {
                                        lemma_same_head_and_tail(q, target);
                                    }
                                }
                            }
                        }
                    } else {
                        proof {
                            Self::lemma_replaced_wf(before, *self, i as int);
                            assert forall|q: Seq<LevelView>| #[trigger]
                                self.lookup(q) == if q == target {
                                    None
                                } else {
                                    before.lookup(q)
                                } by {
                                Self::lemma_replaced_lookup(before, *self, i as int, q);
                                if q.len() > 0 && q[0] == head {
                                    if q.skip(1) == rest {
                                        lemma_same_head_and_tail(q, target);
                                    }
                                }
                            }
                        }
                    }
                    r
                },
            }
        }
    }

    /// Takes out what is stored under `topic` and returns it. Branches
    /// that then lead to nothing go with it, up to the root.
    pub fn remove(&mut self, topic: &Topic) -> (r: Option<V>)
        requires
            old(self).wf(),
        ensures
            final(self).wf(),
            r == if old(self)@.contains_key(topic@) {
                Some(old(self)@[topic@])
            } else {
                None
            },
            final(self)@ == old(self)@.remove(topic@),
    {
        let ghost before = *self;
        let path = topic.levels();
        let r = self.remove_at(path, 0);
        proof {
            assert(levels_view(path@).skip(0) =~= topic@);
            assert(self@ =~= before@.remove(topic@));
        }
        r
    }

    /// The value stored at the node itself.
    pub fn value(&self) -> (r: Option<&V>)
        ensures
            r.is_some() == self@.contains_key(Seq::<LevelView>::empty()),
            r matches Some(v) ==> *v == self@[Seq::<LevelView>::empty()],
    {
        proof {
            assert(self.lookup(Seq::<LevelView>::empty()) == self.value);
        }
        self.value.as_ref()
    }

    /// The branches that leave the node, each with its level.
    pub fn children(&self) -> (r: &Vec<(Level, Node<V>)>)
        ensures
            r@.len() == self.fanout(),
            forall|i: int| 0 <= i < r@.len() ==> r@[i].0@ == self.key_at(i) && r@[i].1 == self.child_at(i),
    {
        &self.branches
    }

    /// The node at the end of the branch for a level.
    pub fn child(&self, l: &Level) -> (r: Option<&Node<V>>)
        requires
            self.wf(),
        ensures
            r.is_some() == (self.index_of(l@) >= 0),
            r matches Some(c) ==> *c == self.child_at(self.index_of(l@)) && c.wf(),
            r matches Some(c) ==> forall|q: Seq<LevelView>|
                #[trigger] c@.contains_key(q) == self@.contains_key(seq![l@] + q)
                && (c@.contains_key(q) ==> c@[q] == self@[seq![l@] + q]),
    {
        match self.find(l) {
            Some(i) => {
                let c = &self.branches[i].1;
                proof {
                    self.lemma_wf_elim();
                    assert(c == self.child_at(i as int));
                    assert forall|q: Seq<LevelView>|
                        #[trigger] c@.contains_key(q) == self@.contains_key(seq![l@] + q)
                        && (c@.contains_key(q) ==> c@[q] == self@[seq![l@] + q]) by {
                        let p = seq![l@] + q;
                        assert(p.skip(1) =~= q);
                        self.lemma_lookup_step(p);
                    }
                }
                Some(c)
            },
            None => None,
        }
    }
}

/// Whether a filter matches the topic that ends with the level its first
/// level admits: it begins with `#`, or goes on with `#`.
spec fn eager(f: Seq<LevelView>) -> bool {
    f[0] is MultiWildcard || (f.len() >= 2 && f[1] is MultiWildcard)
}

/// The filter that the rest of a topic has to match, once the first level
/// of `f` has admitted the topic's first level.
spec fn next_filter(f: Seq<LevelView>) -> Seq<LevelView> {
    if f[0] is MultiWildcard {
        f
    } else {
        f.skip(1)
    }
}

/// Matching, one level at a time.
proof fn lemma_matches_step(f: Seq<LevelView>, q: Seq<LevelView>, at_root: bool)
    requires
        f.len() > 0,
        q.len() > 0,
    ensures
        filter_matches(f, q, at_root) == (level_admits(f[0], q[0], at_root) && ((q.len() == 1
            && eager(f)) || filter_matches(next_filter(f), q.skip(1), false))),
        eager(f) ==> !filter_matches(next_filter(f), Seq::<LevelView>::empty(), false),
        q.len() == 1 && eager(f) ==> !filter_matches(next_filter(f), q.skip(1), false),
{
    let e = Seq::<LevelView>::empty();
    assert(q.len() == 1 ==> q.skip(1) =~= e);
    if f[0] is MultiWildcard {
        if q.len() > 1 {
            assert(q.skip(1).len() > 0);
            assert(level_admits(f[0], q.skip(1)[0], false));
        }
    } else {
        let g = f.skip(1);
        if f.len() >= 2 && f[1] is MultiWildcard {
            assert(g[0] is MultiWildcard);
        }
    }
}

impl<V: Clone> Node<V> {
    /// A topic below this node that is stored and that `f` matches.
    spec fn hit(self, f: Seq<LevelView>, at_root: bool, q: Seq<LevelView>) -> bool {
        self.lookup(q) is Some && filter_matches(f, q, at_root)
    }

    /// What is owed of one item found below this node, itself reached by
    /// `prefix`: its topic goes on from the prefix with a topic that is
    /// stored here and matched, and its value is a copy of the stored one.
    spec fn item_ok(
        self,
        f: Seq<LevelView>,
        at_root: bool,
        prefix: Seq<LevelView>,
        item: (Topic, V),
    ) -> bool {
        let t = item.0@;
        let n = prefix.len() as int;
        &&& t.len() >= n
        &&& t.take(n) == prefix
        &&& self.hit(f, at_root, t.skip(n))
        &&& cloned(self.lookup(t.skip(n))->0, item.1)
    }

    /// Whether a topic below this node lies below one of the branches
    /// before `upto`; every topic does where `upto` is negative.
    spec fn below(self, q: Seq<LevelView>, upto: int) -> bool {
        upto >= 0 ==> q.len() > 0 && 0 <= self.index_of(q[0]) < upto
    }

    /// Each item of `out` from `lo` on is owed, and lies below one of the
    /// branches before `upto`.
    #[verifier::opaque]
    spec fn items_owed(
        self,
        f: Seq<LevelView>,
        at_root: bool,
        prefix: Seq<LevelView>,
        out: Seq<(Topic, V)>,
        lo: int,
        upto: int,
    ) -> bool {
        forall|j: int|
            lo <= j < out.len() ==> {
                &&& self.item_ok(f, at_root, prefix, #[trigger] out[j])
                &&& self.below(out[j].0@.skip(prefix.len() as int), upto)
            }
    }

    /// No topic comes twice in `out` from `lo` on.
    #[verifier::opaque]
    spec fn distinct_from(out: Seq<(Topic, V)>, lo: int) -> bool {
        forall|j: int, k: int|
            lo <= j < k < out.len() ==> (#[trigger] out[j]).0@ != (#[trigger] out[k]).0@
    }

    /// Every topic that is stored and matched below the branches before
    /// `upto` is in `out` from `lo` on.
    #[verifier::opaque]
    spec fn none_missed(
        self,
        f: Seq<LevelView>,
        at_root: bool,
        prefix: Seq<LevelView>,
        out: Seq<(Topic, V)>,
        lo: int,
        upto: int,
    ) -> bool {
        forall|q: Seq<LevelView>|
            #[trigger] self.hit(f, at_root, q) && self.below(q, upto) ==> exists|j: int|
                lo <= j < out.len() && (#[trigger] out[j]).0@ == prefix + q
    }

    /// What was in `before` is still there in `after`, at its place.
    spec fn kept(before: Seq<(Topic, V)>, after: Seq<(Topic, V)>) -> bool {
        before.len() <= after.len() && after.take(before.len() as int) == before
    }

    /// What is owed of the items added while the branches before `upto`
    /// were searched: each is owed, no topic comes twice, and no topic that
    /// is stored and matched below those branches is left out.
    spec fn collected_upto(
        self,
        f: Seq<LevelView>,
        at_root: bool,
        prefix: Seq<LevelView>,
        before: Seq<(Topic, V)>,
        after: Seq<(Topic, V)>,
        upto: int,
    ) -> bool {
        &&& Self::kept(before, after)
        &&& self.items_owed(f, at_root, prefix, after, before.len() as int, upto)
        &&& Self::distinct_from(after, before.len() as int)
        &&& self.none_missed(f, at_root, prefix, after, before.len() as int, upto)
    }

    /// The same of the whole node.
    spec fn collected(
        self,
        f: Seq<LevelView>,
        at_root: bool,
        prefix: Seq<LevelView>,
        before: Seq<(Topic, V)>,
        after: Seq<(Topic, V)>,
    ) -> bool {
        self.collected_upto(f, at_root, prefix, before, after, -1)
    }

    /// An item found below the branch at `i` is an item found below the node.
    proof fn lemma_lift_item(
        self,
        i: int,
        f: Seq<LevelView>,
        at_root: bool,
        prefix: Seq<LevelView>,
        item: (Topic, V),
    )
        requires
            self.wf(),
            0 <= i < self.branches@.len(),
            f.len() > 0,
            level_admits(f[0], self.key_at(i), at_root),
            self.child_at(i).item_ok(next_filter(f), false, prefix.push(self.key_at(i)), item),
        ensures
            self.item_ok(f, at_root, prefix, item),
            item.0@.len() > prefix.len(),
            item.0@[prefix.len() as int] == self.key_at(i),
            self.index_of(item.0@[prefix.len() as int]) == i,
            eager(f) ==> item.0@.len() > prefix.len() + 1,
    {
        let t = item.0@;
        let n = prefix.len() as int;
        let k = self.key_at(i);
        let longer = prefix.push(k);
        assert(t.take(n + 1) == longer);
        assert(t[n] == k) by {
            assert(t.take(n + 1)[n] == longer[n]);
        }
        assert(t.take(n) =~= prefix) by {
            assert forall|j: int| 0 <= j < n implies t.take(n)[j] == prefix[j] by {
                assert(t.take(n + 1)[j] == longer[j]);
            }
        }
        let q = t.skip(n);
        let q1 = t.skip(n + 1);
        assert(q.skip(1) =~= q1);
        assert(q[0] == k);
        self.lemma_index_of(i);
        self.lemma_lookup_step(q);
        lemma_matches_step(f, q, at_root);
        if eager(f) {
            if q1.len() == 0 {
                assert(q1 =~= Seq::<LevelView>::empty());
            }
        }
    }

    /// A topic stored and matched below the node, beyond its first level,
    /// is stored and matched below the branch for that level.
    proof fn lemma_lower_hit(self, i: int, f: Seq<LevelView>, at_root: bool, q: Seq<LevelView>)
        requires
            self.wf(),
            0 <= i < self.branches@.len(),
            f.len() > 0,
            q.len() > 0,
            q[0] == self.key_at(i),
            self.hit(f, at_root, q),
        ensures
            level_admits(f[0], self.key_at(i), at_root),
            self.lookup(q) == self.child_at(i).lookup(q.skip(1)),
            (q.len() == 1 && eager(f) && self.child_at(i).lookup(Seq::<LevelView>::empty())
                is Some) || self.child_at(i).hit(next_filter(f), false, q.skip(1)),
    {
        self.lemma_index_of(i);
        self.lemma_lookup_step(q);
        lemma_matches_step(f, q, at_root);
        if q.len() == 1 {
            assert(q.skip(1) =~= Seq::<LevelView>::empty());
        }
    }

    /// What the search of the branch at `i` adds before it goes down: the
    /// topic that ends at the branch, where the filter matches it and a
    /// value is stored there.
    spec fn parent_item(
        self,
        i: int,
        f: Seq<LevelView>,
        prefix: Seq<LevelView>,
        out1: Seq<(Topic, V)>,
        out2: Seq<(Topic, V)>,
    ) -> bool {
        let child = self.child_at(i);
        let e = Seq::<LevelView>::empty();
        if eager(f) && child.lookup(e) is Some {
            &&& out2.len() == out1.len() + 1
            &&& out2.take(out1.len() as int) == out1
            &&& out2[out1.len() as int].0@ == prefix.push(self.key_at(i))
            &&& cloned(child.lookup(e)->0, out2[out1.len() as int].1)
        } else {
            out2 == out1
        }
    }

    /// What was in `out` stays there while the search goes on.
    proof fn lemma_kept(
        out0: Seq<(Topic, V)>,
        out1: Seq<(Topic, V)>,
        out2: Seq<(Topic, V)>,
        out3: Seq<(Topic, V)>,
    )
        requires
            out0.len() <= out1.len() <= out2.len() <= out3.len(),
            out1.take(out0.len() as int) == out0,
            out2.take(out1.len() as int) == out1,
            out3.take(out2.len() as int) == out2,
        ensures
            out3.take(out0.len() as int) == out0,
            forall|j: int| 0 <= j < out2.len() ==> out3[j] == out2[j],
            forall|j: int| 0 <= j < out1.len() ==> out3[j] == out1[j],
            forall|j: int| 0 <= j < out1.len() ==> out2[j] == out1[j],
    {
        assert forall|j: int| 0 <= j < out2.len() implies out3[j] == out2[j] by {
            assert(out3.take(out2.len() as int)[j] == out2[j]);
        }
        assert forall|j: int| 0 <= j < out1.len() implies out2[j] == out1[j] by {
            assert(out2.take(out1.len() as int)[j] == out1[j]);
        }
        assert forall|j: int| 0 <= j < out0.len() implies out3[j] == out0[j] by {
            assert(out1.take(out0.len() as int)[j] == out0[j]);
        }
        assert(out3.take(out0.len() as int) =~= out0);
    }

    /// The item that [`Self::parent_item`] speaks of is owed.
    proof fn lemma_parent_item(
        self,
        i: int,
        f: Seq<LevelView>,
        at_root: bool,
        prefix: Seq<LevelView>,
        item: (Topic, V),
    )
        requires
            self.wf(),
            0 <= i < self.branches@.len(),
            f.len() > 0,
            eager(f),
            level_admits(f[0], self.key_at(i), at_root),
            self.child_at(i).lookup(Seq::<LevelView>::empty()) is Some,
            item.0@ == prefix.push(self.key_at(i)),
            cloned(self.child_at(i).lookup(Seq::<LevelView>::empty())->0, item.1),
        ensures
            self.item_ok(f, at_root, prefix, item),
            item.0@.len() == prefix.len() + 1,
            item.0@[prefix.len() as int] == self.key_at(i),
            self.index_of(item.0@[prefix.len() as int]) == i,
    {
        let t = item.0@;
        let n = prefix.len() as int;
        let k = self.key_at(i);
        let q = seq![k];
        assert(t.take(n) =~= prefix);
        assert(t.skip(n) =~= q);
        assert(q.skip(1) =~= Seq::<LevelView>::empty());
        self.lemma_index_of(i);
        self.lemma_lookup_step(q);
        lemma_matches_step(f, q, at_root);
    }

    /// What the items are that the search of an admitted branch added.
    proof fn lemma_step_items(
        self,
        i: int,
        f: Seq<LevelView>,
        at_root: bool,
        prefix: Seq<LevelView>,
        out0: Seq<(Topic, V)>,
        out1: Seq<(Topic, V)>,
        out2: Seq<(Topic, V)>,
        out3: Seq<(Topic, V)>,
    )
        requires
            self.wf(),
            0 <= i < self.branches@.len(),
            f.len() > 0,
            level_admits(f[0], self.key_at(i), at_root),
            Self::kept(out0, out1),
            self.items_owed(f, at_root, prefix, out1, out0.len() as int, i),
            self.parent_item(i, f, prefix, out1, out2),
            self.child_at(i).wf(),
            Self::kept(out2, out3),
            self.child_at(i).items_owed(
                next_filter(f),
                false,
                prefix.push(self.key_at(i)),
                out3,
                out2.len() as int,
                -1,
            ),
        ensures
            out0.len() <= out1.len() <= out2.len() <= out3.len(),
            out2.len() <= out1.len() + 1,
            Self::kept(out0, out3),
            forall|j: int| 0 <= j < out2.len() ==> out3[j] == out2[j],
            forall|j: int| 0 <= j < out1.len() ==> out3[j] == out1[j],
            forall|j: int|
                out0.len() <= j < out1.len() ==> {
                    &&& self.item_ok(f, at_root, prefix, #[trigger] out3[j])
                    &&& out3[j].0@.len() > prefix.len()
                    &&& 0 <= self.index_of(out3[j].0@[prefix.len() as int]) < i
                },
            forall|j: int|
                out1.len() <= j < out2.len() ==> {
                    &&& self.item_ok(f, at_root, prefix, #[trigger] out3[j])
                    &&& out3[j].0@.len() == prefix.len() + 1
                    &&& self.index_of(out3[j].0@[prefix.len() as int]) == i
                    &&& eager(f)
                },
            forall|j: int|
                out2.len() <= j < out3.len() ==> {
                    &&& self.item_ok(f, at_root, prefix, #[trigger] out3[j])
                    &&& out3[j].0@.len() > prefix.len()
                    &&& self.index_of(out3[j].0@[prefix.len() as int]) == i
                    &&& eager(f) ==> out3[j].0@.len() > prefix.len() + 1
                },
    {
        reveal(Node::items_owed);
        let child = self.child_at(i);
        let nf = next_filter(f);
        let px1 = prefix.push(self.key_at(i));
        let n = prefix.len() as int;
        assert(out2.take(out1.len() as int) =~= out1);
        Self::lemma_kept(out0, out1, out2, out3);
        assert forall|j: int| out0.len() <= j < out1.len() implies {
            &&& self.item_ok(f, at_root, prefix, #[trigger] out3[j])
            &&& out3[j].0@.len() > prefix.len()
            &&& 0 <= self.index_of(out3[j].0@[prefix.len() as int]) < i
        } by {
            assert(out3[j] == out1[j]);
            assert(self.item_ok(f, at_root, prefix, out1[j]));
            assert(self.below(out1[j].0@.skip(n), i));
            assert(out1[j].0@.skip(n)[0] == out1[j].0@[n]);
        }
        assert forall|j: int| out1.len() <= j < out2.len() implies {
            &&& self.item_ok(f, at_root, prefix, #[trigger] out3[j])
            &&& out3[j].0@.len() == prefix.len() + 1
            &&& self.index_of(out3[j].0@[prefix.len() as int]) == i
            &&& eager(f)
        } by {
            assert(out3[j] == out2[j]);
            self.lemma_parent_item(i, f, at_root, prefix, out2[j]);
        }
        assert forall|j: int| out2.len() <= j < out3.len() implies {
            &&& self.item_ok(f, at_root, prefix, #[trigger] out3[j])
            &&& out3[j].0@.len() > prefix.len()
            &&& self.index_of(out3[j].0@[prefix.len() as int]) == i
            &&& eager(f) ==> out3[j].0@.len() > prefix.len() + 1
        } by {
            assert(child.item_ok(nf, false, px1, out3[j]));
            self.lemma_lift_item(i, f, at_root, prefix, out3[j]);
        }
    }

    /// The items after the search of an admitted branch are owed.
    proof fn lemma_step_owed(
        self,
        i: int,
        f: Seq<LevelView>,
        at_root: bool,
        prefix: Seq<LevelView>,
        out0: Seq<(Topic, V)>,
        out1: Seq<(Topic, V)>,
        out2: Seq<(Topic, V)>,
        out3: Seq<(Topic, V)>,
    )
        requires
            self.wf(),
            0 <= i < self.branches@.len(),
            f.len() > 0,
            level_admits(f[0], self.key_at(i), at_root),
            Self::kept(out0, out1),
            self.items_owed(f, at_root, prefix, out1, out0.len() as int, i),
            self.parent_item(i, f, prefix, out1, out2),
            self.child_at(i).wf(),
            Self::kept(out2, out3),
            self.child_at(i).items_owed(
                next_filter(f),
                false,
                prefix.push(self.key_at(i)),
                out3,
                out2.len() as int,
                -1,
            ),
        ensures
            Self::kept(out0, out3),
            self.items_owed(f, at_root, prefix, out3, out0.len() as int, i + 1),
    {
        self.lemma_step_items(i, f, at_root, prefix, out0, out1, out2, out3);
        let n = prefix.len() as int;
        assert forall|j: int| out0.len() <= j < out3.len() implies {
            &&& self.item_ok(f, at_root, prefix, #[trigger] out3[j])
            &&& self.below(out3[j].0@.skip(n), i + 1)
        } by {
            assert(out3[j].0@.len() > n);
            assert(out3[j].0@.skip(n)[0] == out3[j].0@[n]);
        }
        reveal(Node::items_owed);
    }

    /// No topic comes twice after the search of an admitted branch.
    proof fn lemma_step_distinct(
        self,
        i: int,
        f: Seq<LevelView>,
        at_root: bool,
        prefix: Seq<LevelView>,
        out0: Seq<(Topic, V)>,
        out1: Seq<(Topic, V)>,
        out2: Seq<(Topic, V)>,
        out3: Seq<(Topic, V)>,
    )
        requires
            self.wf(),
            0 <= i < self.branches@.len(),
            f.len() > 0,
            level_admits(f[0], self.key_at(i), at_root),
            Self::kept(out0, out1),
            self.items_owed(f, at_root, prefix, out1, out0.len() as int, i),
            Self::distinct_from(out1, out0.len() as int),
            self.parent_item(i, f, prefix, out1, out2),
            self.child_at(i).wf(),
            Self::kept(out2, out3),
            self.child_at(i).items_owed(
                next_filter(f),
                false,
                prefix.push(self.key_at(i)),
                out3,
                out2.len() as int,
                -1,
            ),
            Self::distinct_from(out3, out2.len() as int),
        ensures
            Self::distinct_from(out3, out0.len() as int),
    {
        self.lemma_step_items(i, f, at_root, prefix, out0, out1, out2, out3);
        reveal(Node::distinct_from);
        let n = prefix.len() as int;
        assert forall|a: int, b: int| out0.len() <= a < b < out3.len() implies (
        #[trigger] out3[a]).0@ != (#[trigger] out3[b]).0@ by {
            if b < out1.len() {
                assert(out3[a] == out1[a] && out3[b] == out1[b]);
                assert(out1[a].0@ != out1[b].0@);
            } else if a < out1.len() {
                assert(self.index_of(out3[a].0@[n]) < i);
                assert(self.index_of(out3[b].0@[n]) == i);
            } else if a < out2.len() {
                assert(out3[a].0@.len() == n + 1);
                assert(eager(f));
                assert(out3[b].0@.len() > n + 1);
            } else {
            }
        }
    }

    /// One stored and matched topic below the branches up to `i` is in `out3`.
    proof fn lemma_step_complete_one(
        self,
        i: int,
        f: Seq<LevelView>,
        at_root: bool,
        prefix: Seq<LevelView>,
        out0: Seq<(Topic, V)>,
        out1: Seq<(Topic, V)>,
        out2: Seq<(Topic, V)>,
        out3: Seq<(Topic, V)>,
        q: Seq<LevelView>,
    ) -> (j: int)
        requires
            self.wf(),
            0 <= i < self.branches@.len(),
            f.len() > 0,
            level_admits(f[0], self.key_at(i), at_root),
            Self::kept(out0, out1),
            self.none_missed(f, at_root, prefix, out1, out0.len() as int, i),
            self.parent_item(i, f, prefix, out1, out2),
            self.child_at(i).wf(),
            Self::kept(out2, out3),
            self.child_at(i).none_missed(
                next_filter(f),
                false,
                prefix.push(self.key_at(i)),
                out3,
                out2.len() as int,
                -1,
            ),
            self.hit(f, at_root, q),
            q.len() > 0,
            0 <= self.index_of(q[0]) < i + 1,
        ensures
            out0.len() <= j < out3.len(),
            out3[j].0@ == prefix + q,
    {
        reveal(Node::none_missed);
        let child = self.child_at(i);
        let nf = next_filter(f);
        let k = self.key_at(i);
        let px1 = prefix.push(k);
        assert(out2.take(out1.len() as int) =~= out1);
        Self::lemma_kept(out0, out1, out2, out3);
        self.lemma_index_of_range(q[0]);
        if self.index_of(q[0]) < i {
            assert(self.below(q, i));
            let j = choose|j: int|
                out0.len() <= j < out1.len() && (#[trigger] out1[j]).0@ == prefix + q;
            assert(out3[j] == out1[j]);
            j
        } else {
            assert(q[0] == k);
            self.lemma_lower_hit(i, f, at_root, q);
            if child.hit(nf, false, q.skip(1)) {
                assert(child.below(q.skip(1), -1));
                let j = choose|j: int|
                    out2.len() <= j < out3.len() && (#[trigger] out3[j]).0@ == px1 + q.skip(1);
                assert(px1 + q.skip(1) =~= prefix + q);
                j
            } else {
                let j = out1.len() as int;
                assert(out3[j] == out2[j]);
                assert(q =~= seq![k]);
                assert(prefix + q =~= px1);
                j
            }
        }
    }

    /// No stored and matched topic below the branches up to `i` is missed.
    proof fn lemma_step_complete(
        self,
        i: int,
        f: Seq<LevelView>,
        at_root: bool,
        prefix: Seq<LevelView>,
        out0: Seq<(Topic, V)>,
        out1: Seq<(Topic, V)>,
        out2: Seq<(Topic, V)>,
        out3: Seq<(Topic, V)>,
    )
        requires
            self.wf(),
            0 <= i < self.branches@.len(),
            f.len() > 0,
            level_admits(f[0], self.key_at(i), at_root),
            Self::kept(out0, out1),
            self.none_missed(f, at_root, prefix, out1, out0.len() as int, i),
            self.parent_item(i, f, prefix, out1, out2),
            self.child_at(i).wf(),
            Self::kept(out2, out3),
            self.child_at(i).none_missed(
                next_filter(f),
                false,
                prefix.push(self.key_at(i)),
                out3,
                out2.len() as int,
                -1,
            ),
        ensures
            self.none_missed(f, at_root, prefix, out3, out0.len() as int, i + 1),
    {
        assert forall|q: Seq<LevelView>| #[trigger]
            self.hit(f, at_root, q) && self.below(q, i + 1) implies exists|j: int|
            out0.len() <= j < out3.len() && (#[trigger] out3[j]).0@ == prefix + q by {
            let j = self.lemma_step_complete_one(i, f, at_root, prefix, out0, out1, out2, out3, q);
            assert(out3[j].0@ == prefix + q);
        }
        reveal(Node::none_missed);
    }

    /// The search of an admitted branch carries the search of the node on.
    proof fn lemma_step_admitted(
        self,
        i: int,
        f: Seq<LevelView>,
        at_root: bool,
        prefix: Seq<LevelView>,
        out0: Seq<(Topic, V)>,
        out1: Seq<(Topic, V)>,
        out2: Seq<(Topic, V)>,
        out3: Seq<(Topic, V)>,
    )
        requires
            self.wf(),
            0 <= i < self.branches@.len(),
            f.len() > 0,
            level_admits(f[0], self.key_at(i), at_root),
            self.collected_upto(f, at_root, prefix, out0, out1, i),
            self.parent_item(i, f, prefix, out1, out2),
            self.child_at(i).wf(),
            self.child_at(i).collected(
                next_filter(f),
                false,
                prefix.push(self.key_at(i)),
                out2,
                out3,
            ),
        ensures
            self.collected_upto(f, at_root, prefix, out0, out3, i + 1),
    {
        self.lemma_step_owed(i, f, at_root, prefix, out0, out1, out2, out3);
        self.lemma_step_distinct(i, f, at_root, prefix, out0, out1, out2, out3);
        self.lemma_step_complete(i, f, at_root, prefix, out0, out1, out2, out3);
    }

    /// A branch that the filter does not admit adds nothing.
    proof fn lemma_step_skipped(
        self,
        i: int,
        f: Seq<LevelView>,
        at_root: bool,
        prefix: Seq<LevelView>,
        out0: Seq<(Topic, V)>,
        out1: Seq<(Topic, V)>,
    )
        requires
            self.wf(),
            0 <= i < self.branches@.len(),
            f.len() > 0,
            !level_admits(f[0], self.key_at(i), at_root),
            self.collected_upto(f, at_root, prefix, out0, out1, i),
        ensures
            self.collected_upto(f, at_root, prefix, out0, out1, i + 1),
    {
        reveal(Node::items_owed);
        reveal(Node::none_missed);
        assert forall|q: Seq<LevelView>| #[trigger]
            self.hit(f, at_root, q) && self.below(q, i + 1) implies exists|j: int|
            out0.len() <= j < out1.len() && (#[trigger] out1[j]).0@ == prefix + q by {
            self.lemma_index_of_range(q[0]);
            if self.index_of(q[0]) == i {
                lemma_matches_step(f, q, at_root);
                assert(false);
            }
            assert(self.below(q, i));
        }
        assert forall|j: int| out0.len() <= j < out1.len() implies {
            &&& self.item_ok(f, at_root, prefix, #[trigger] out1[j])
            &&& self.below(out1[j].0@.skip(prefix.len() as int), i + 1)
        } by {
            assert(self.below(out1[j].0@.skip(prefix.len() as int), i));
        }
    }

    /// Before any branch is searched nothing is owed.
    proof fn lemma_step_none(
        self,
        f: Seq<LevelView>,
        at_root: bool,
        prefix: Seq<LevelView>,
        out0: Seq<(Topic, V)>,
    )
        ensures
            self.collected_upto(f, at_root, prefix, out0, out0, 0),
    {
        reveal(Node::items_owed);
        reveal(Node::none_missed);
        reveal(Node::distinct_from);
        assert(out0.take(out0.len() as int) =~= out0);
    }

    /// Once every branch is searched, the node is.
    proof fn lemma_step_done(
        self,
        f: Seq<LevelView>,
        at_root: bool,
        prefix: Seq<LevelView>,
        out0: Seq<(Topic, V)>,
        out1: Seq<(Topic, V)>,
    )
        requires
            self.wf(),
            f.len() > 0,
            self.collected_upto(f, at_root, prefix, out0, out1, self.branches@.len() as int),
        ensures
            self.collected(f, at_root, prefix, out0, out1),
    {
        reveal(Node::items_owed);
        reveal(Node::none_missed);
        let all = self.branches@.len() as int;
        assert forall|q: Seq<LevelView>| #[trigger]
            self.hit(f, at_root, q) && self.below(q, -1) implies exists|j: int|
            out0.len() <= j < out1.len() && (#[trigger] out1[j]).0@ == prefix + q by {
            lemma_matches_step_nonempty(f, q, at_root);
            self.lemma_lookup_step(q);
            self.lemma_index_of_range(q[0]);
            assert(self.below(q, all));
        }
    }

    /// The search of a node at which the filter has ended.
    proof fn lemma_collected_here(
        self,
        f: Seq<LevelView>,
        at_root: bool,
        prefix: Seq<LevelView>,
        out0: Seq<(Topic, V)>,
        out1: Seq<(Topic, V)>,
    )
        requires
            f.len() == 0,
            match self.lookup(Seq::<LevelView>::empty()) {
                Some(v) => out1.len() == out0.len() + 1 && out1.take(out0.len() as int) == out0
                    && out1[out0.len() as int].0@ == prefix && cloned(
                    v,
                    out1[out0.len() as int].1,
                ),
                None => out1 == out0,
            },
        ensures
            self.collected(f, at_root, prefix, out0, out1),
    {
        reveal(Node::items_owed);
        reveal(Node::none_missed);
        reveal(Node::distinct_from);
        let e = Seq::<LevelView>::empty();
        let n = prefix.len() as int;
        assert(out1.take(out0.len() as int) =~= out0);
        assert(prefix + e =~= prefix);
        assert forall|q: Seq<LevelView>| self.hit(f, at_root, q) implies q == e by {
            assert(q =~= e);
        }
        if self.lookup(e) is Some {
            let item = out1[out0.len() as int];
            assert(item.0@.take(n) =~= prefix);
            assert(item.0@.skip(n) =~= e);
            assert(self.item_ok(f, at_root, prefix, item));
            assert forall|q: Seq<LevelView>| #[trigger]
                self.hit(f, at_root, q) && self.below(q, -1) implies exists|j: int|
                out0.len() <= j < out1.len() && (#[trigger] out1[j]).0@ == prefix + q by {
                assert(out1[out0.len() as int].0@ == prefix + q);
            }
        }
    }

    /// What a finished search says of what it found.
    proof fn lemma_collected_elim(
        self,
        f: Seq<LevelView>,
        at_root: bool,
        prefix: Seq<LevelView>,
        out0: Seq<(Topic, V)>,
        out1: Seq<(Topic, V)>,
    )
        requires
            self.collected(f, at_root, prefix, out0, out1),
        ensures
            forall|j: int|
                out0.len() <= j < out1.len() ==> self.item_ok(f, at_root, prefix, #[trigger] out1[j]),
            forall|j: int, k: int|
                out0.len() <= j < k < out1.len() ==> (#[trigger] out1[j]).0@ != (
                #[trigger] out1[k]).0@,
            forall|q: Seq<LevelView>| #[trigger]
                self.hit(f, at_root, q) ==> exists|j: int|
                    out0.len() <= j < out1.len() && (#[trigger] out1[j]).0@ == prefix + q,
    {
        reveal(Node::items_owed);
        reveal(Node::none_missed);
        reveal(Node::distinct_from);
        assert forall|q: Seq<LevelView>| #[trigger] self.hit(f, at_root, q) implies exists|j: int|
            out0.len() <= j < out1.len() && (#[trigger] out1[j]).0@ == prefix + q by {
            assert(self.below(q, -1));
        }
    }

    /// Adds to `out` what is stored below this node and matched by the
    /// levels of `filter` from `pos` on. `prefix` is the topic that leads to
    /// this node.
    fn collect(
        &self,
        filter: &Vec<Level>,
        pos: usize,
        at_root: bool,
        prefix: &mut Vec<Level>,
        out: &mut Vec<(Topic, V)>,
    )
        requires
            self.wf(),
            pos <= filter@.len(),
        ensures
            final(prefix)@ == old(prefix)@,
            self.collected(
                levels_view(filter@).skip(pos as int),
                at_root,
                levels_view(old(prefix)@),
                old(out)@,
                final(out)@,
            ),
        decreases self,
    {
        let ghost f = levels_view(filter@).skip(pos as int);
        let ghost px = levels_view(prefix@);
        let ghost p0 = prefix@;
        let ghost out0 = out@;
        if pos == filter.len() {
            proof {
                assert(self.lookup(Seq::<LevelView>::empty()) == self.value);
            }
            match &self.value {
                Some(v) => {
                    let topic = Topic::from(clone_levels(prefix));
                    out.push((topic, v.clone()));
                    proof {
                        assert(out@.take(out0.len() as int) =~= out0);
                    }
                },
                None => {},
            }
            proof {
                self.lemma_collected_here(f, at_root, px, out0, out@);
            }
            return ;
        }
        let level = &filter[pos];
        let multi = level.is_multi_wildcard();
        let next = if multi {
            pos
        } else {
            pos + 1
        };
        let yields_parent = multi || (pos + 1 < filter.len() && filter[pos + 1].is_multi_wildcard());
        proof {
            assert(f.len() > 0 && f[0] == level@);
            assert(levels_view(filter@).skip(next as int) =~= next_filter(f));
            assert(yields_parent == eager(f));
            self.lemma_step_none(f, at_root, px, out0);
        }
        let mut i: usize = 0;
        while i < self.branches.len()
            invariant
                self.wf(),
                i <= self.branches@.len(),
                pos < filter@.len(),
                next <= filter@.len(),
                f == levels_view(filter@).skip(pos as int),
                f.len() > 0,
                f[0] == level@,
                levels_view(filter@).skip(next as int) == next_filter(f),
                yields_parent == eager(f),
                prefix@ == p0,
                px == levels_view(p0),
                self.collected_upto(f, at_root, px, out0, out@, i as int),
            decreases self.branches@.len() - i,
        {
            let key = &self.branches[i].0;
            let child = &self.branches[i].1;
            let ghost k = self.key_at(i as int);
            let ghost out1 = out@;
            proof {
                self.lemma_wf_elim();
                assert(child == self.child_at(i as int));
                assert(key@ == k);
                assert(child.lookup(Seq::<LevelView>::empty()) == child.value);
            }
            if level_admits_exec(level, key, at_root) {
                prefix.push(key.clone());
                proof {
                    assert(levels_view(prefix@) =~= px.push(k));
                }
                if yields_parent {
                    match &child.value {
                        Some(v) => {
                            let topic = Topic::from(clone_levels(prefix));
                            out.push((topic, v.clone()));
                            proof {
                                assert(out@.take(out1.len() as int) =~= out1);
                            }
                        },
                        None => {},
                    }
                }
                let ghost out2 = out@;
                proof {
                    assert(self.parent_item(i as int, f, px, out1, out2));
                }
                child.collect(filter, next, false, prefix, out);
                prefix.pop();
                proof {
                    assert(prefix@ =~= p0);
                    self.lemma_step_admitted(i as int, f, at_root, px, out0, out1, out2, out@);
                }
            } else {
                proof {
                    self.lemma_step_skipped(i as int, f, at_root, px, out0, out1);
                }
            }
            i = i + 1;
        }
        proof {
            self.lemma_step_done(f, at_root, px, out0, out@);
        }
    }

    /// What is stored under the topics that a filter matches: each such
    /// topic once, with a copy of its value, in no stated order.
    pub fn matches(&self, topic: &Topic) -> (out: Vec<(Topic, V)>)
        requires
            self.wf(),
        ensures
            forall|j: int|
                0 <= j < out@.len() ==> {
                    &&& filter_matches(topic@, (#[trigger] out@[j]).0@, true)
                    &&& self@.contains_key(out@[j].0@)
                    &&& cloned(self@[out@[j].0@], out@[j].1)
                },
            forall|j: int, k: int|
                0 <= j < k < out@.len() ==> (#[trigger] out@[j]).0@ != (#[trigger] out@[k]).0@,
            forall|t: Seq<LevelView>|
                self@.contains_key(t) && filter_matches(topic@, t, true) ==> exists|j: int|
                    0 <= j < out@.len() && (#[trigger] out@[j]).0@ == t,
    {
        let mut out: Vec<(Topic, V)> = Vec::new();
        let mut prefix: Vec<Level> = Vec::new();
        let path = topic.levels();
        self.collect(path, 0, true, &mut prefix, &mut out);
        proof {
            let f = levels_view(path@).skip(0);
            let px = levels_view(Seq::<Level>::empty());
            let none = Seq::<(Topic, V)>::empty();
            assert(f =~= topic@);
            assert(px =~= Seq::<LevelView>::empty());
            self.lemma_collected_elim(f, true, px, none, out@);
            assert forall|j: int| 0 <= j < out@.len() implies {
                &&& filter_matches(topic@, (#[trigger] out@[j]).0@, true)
                &&& self@.contains_key(out@[j].0@)
                &&& cloned(self@[out@[j].0@], out@[j].1)
            } by {
                assert(self.item_ok(f, true, px, out@[j]));
                assert(out@[j].0@.skip(0) =~= out@[j].0@);
            }
            assert forall|t: Seq<LevelView>|
                self@.contains_key(t) && filter_matches(topic@, t, true) implies exists|j: int|
                0 <= j < out@.len() && (#[trigger] out@[j]).0@ == t by {
                assert(self.hit(f, true, t));
                assert(px + t =~= t);
            }
        }
        out
    }
}

/// A filter that is not empty matches no empty topic.
proof fn lemma_matches_step_nonempty(f: Seq<LevelView>, q: Seq<LevelView>, at_root: bool)
    requires
        f.len() > 0,
        filter_matches(f, q, at_root),
    ensures
        q.len() > 0,
{
}

/// The first levels of the topics under which a map stores something.
pub open spec fn first_levels<V>(stored: Map<Seq<LevelView>, V>) -> Set<LevelView> {
    Set::new(
        |k: LevelView|
            exists|q: Seq<LevelView>| #[trigger] stored.contains_key(q) && q.len() > 0 && q[0] == k,
    )
}

impl<V> Node<V> {
    /// The levels of the branches, in their order.
    spec fn keys(self) -> Seq<LevelView> {
        Seq::new(self.branches@.len(), |i: int| self.key_at(i))
    }

    /// The branches of a node are the first levels of the topics stored in
    /// it, one branch for each: nothing else has a branch.
    pub proof fn lemma_branches_are_first_levels(self)
        requires
            self.wf(),
        ensures
            first_levels(self@).finite(),
            self.fanout() == first_levels(self@).len(),
    {
        let keys = self.keys();
        self.lemma_wf_elim();
        assert(keys.no_duplicates()) by {
            assert forall|i: int, j: int|
                0 <= i < keys.len() && 0 <= j < keys.len() && i != j implies keys[i] != keys[j] by {
                if i < j {
                    assert(self.key_at(i) != self.key_at(j));
                } else {
                    assert(self.key_at(j) != self.key_at(i));
                }
            }
        }
        keys.unique_seq_to_set();
        assert(keys.to_set() =~= first_levels(self@)) by {
            assert forall|k: LevelView| keys.to_set().contains(k) implies first_levels(
                self@,
            ).contains(k) by {
                let i = choose|i: int| 0 <= i < keys.len() && keys[i] == k;
                let child = self.child_at(i);
                assert(child.wf() && !child.is_vacant());
                let sub = child.lemma_occupied_has_value();
                let q = seq![k] + sub;
                assert(q.skip(1) =~= sub);
                self.lemma_index_of(i);
                self.lemma_lookup_step(q);
                assert(self@.contains_key(q) && q.len() > 0 && q[0] == k);
            }
            assert forall|k: LevelView| first_levels(self@).contains(k) implies keys.to_set().contains(
                k,
            ) by {
                let q = choose|q: Seq<LevelView>| #[trigger]
                    self@.contains_key(q) && q.len() > 0 && q[0] == k;
                self.lemma_lookup_step(q);
                self.lemma_index_of_range(k);
                let i = self.index_of(k);
                assert(keys[i] == k);
            }
        }
        vstd::seq_lib::seq_to_set_is_finite(keys);
    }
}

/// Tries that store the same have as many branches at the root: what was
/// stored and taken out again leaves no branch behind.
pub proof fn law_same_content_same_branches<V>(a: Node<V>, b: Node<V>)
    requires
        a.wf(),
        b.wf(),
        a@ == b@,
    ensures
        a.fanout() == b.fanout(),
{
    a.lemma_branches_are_first_levels();
    b.lemma_branches_are_first_levels();
}

/// Storing a value under a topic and taking it out again leaves what was
/// stored before, where the topic held nothing before.
pub proof fn law_remove_undoes_insert<V>(
    before: Node<V>,
    stored: Node<V>,
    removed: Node<V>,
    topic: Seq<LevelView>,
    value: V,
)
    requires
        !before@.contains_key(topic),
        stored@ == before@.insert(topic, value),
        removed@ == stored@.remove(topic),
    ensures
        removed@ == before@,
{
    assert(removed@ =~= before@);
}

/// Storing a value in an empty trie and taking it out again leaves an
/// empty trie: no value at the root and no branch, whatever the topic.
pub proof fn law_insert_remove_leaves_no_branch<V>(
    fresh: Node<V>,
    stored: Node<V>,
    removed: Node<V>,
    topic: Seq<LevelView>,
    value: V,
)
    requires
        fresh@ == Map::<Seq<LevelView>, V>::empty(),
        stored@ == fresh@.insert(topic, value),
        removed.wf(),
        removed@ == stored@.remove(topic),
    ensures
        removed.fanout() == 0,
        removed.is_vacant(),
        removed@ == fresh@,
{
    assert(removed@ =~= Map::<Seq<LevelView>, V>::empty());
    removed.lemma_empty_is_vacant();
}

impl<V> Default for Node<V> {
    fn default() -> (r: Node<V>)
        ensures
            r.wf(),
            r@ =~= Map::<Seq<LevelView>, V>::empty(),
    {
        Node::new()
    }
}

} // verus!
