//! A small association list: a map from text keys to values, kept as a vector
//! in which no key stands twice. Iteration order is insertion order.
use crate::text::same;
use vstd::prelude::*;

verus! {

/// A key of a [`Table`]: it is compared by what it holds.
pub trait Key: Sized {
    type Held;

    /// What the key holds.
    spec fn held(&self) -> Self::Held;

    /// Whether two keys hold the same.
    fn same_key(&self, other: &Self) -> (r: bool)
        ensures
            r == (self.held() == other.held()),
    ;
}

impl Key for String {
    type Held = Seq<char>;

    open spec fn held(&self) -> Seq<char> {
        self@
    }

    fn same_key(&self, other: &Self) -> (r: bool) {
        same(self.as_str(), other.as_str())
    }
}

/// A map from keys to values.
pub struct Table<K: Key, V> {
    pub(crate) entries: Vec<(K, V)>,
}

/// No key stands twice in `s`.
pub open spec fn keys_unique<K: Key, V>(s: Seq<(K, V)>) -> bool {
    forall|i: int, j: int|
        0 <= i < s.len() && 0 <= j < s.len() && (#[trigger] s[i]).0.held() == (
        #[trigger] s[j]).0.held() ==> i == j
}

/// The map that a list of entries stands for.
pub open spec fn map_of<K: Key, V>(s: Seq<(K, V)>) -> Map<K::Held, V>
    decreases s.len(),
{
    if s.len() == 0 {
        Map::empty()
    } else {
        map_of(s.drop_last()).insert(s.last().0.held(), s.last().1)
    }
}

/// What a list of entries without repeated keys says of the map: it holds each
/// entry, nothing else, and has as many keys as there are entries.
pub proof fn lemma_map_of<K: Key, V>(s: Seq<(K, V)>)
    requires
        keys_unique(s),
    ensures
        forall|i: int|
            0 <= i < s.len() ==> #[trigger] map_of(s).dom().contains(s[i].0.held()) && map_of(
                s,
            )[s[i].0.held()] == s[i].1,
        forall|k: K::Held| #[trigger]
            map_of(s).dom().contains(k) ==> exists|i: int|
                0 <= i < s.len() && s[i].0.held() == k,
        map_of(s).dom().finite(),
        map_of(s).dom().len() == s.len(),
    decreases s.len(),
{
    if s.len() > 0 {
        let r = s.drop_last();
        assert(keys_unique(r)) by {
            assert forall|i: int, j: int|
                0 <= i < r.len() && 0 <= j < r.len() && (#[trigger] r[i]).0.held() == (
                #[trigger] r[j]).0.held() implies i == j by {
                assert(s[i] == r[i] && s[j] == r[j]);
            }
        }
        lemma_map_of(r);
        let last = s.last().0.held();
        assert(!map_of(r).dom().contains(last)) by {
            if map_of(r).dom().contains(last) {
                let i = choose|i: int| 0 <= i < r.len() && r[i].0.held() == last;
                assert(s[i] == r[i]);
                assert(s[i].0.held() == s[s.len() - 1].0.held());
            }
        }
        assert forall|i: int| 0 <= i < s.len() implies #[trigger] map_of(s).dom().contains(
            s[i].0.held(),
        ) && map_of(s)[s[i].0.held()] == s[i].1 by {
            if i < r.len() {
                assert(r[i] == s[i]);
                assert(map_of(r).dom().contains(r[i].0.held()));
            }
        }
        assert forall|k: K::Held| #[trigger] map_of(s).dom().contains(k) implies exists|i: int|
            0 <= i < s.len() && s[i].0.held() == k by {
            if k == last {
                assert(s[s.len() - 1].0.held() == k);
            } else {
                assert(map_of(r).dom().contains(k));
                let i = choose|i: int| 0 <= i < r.len() && r[i].0.held() == k;
                assert(s[i].0.held() == k);
            }
        }
    }
}

/// Taking one entry out of a list takes its key, and only that, out of the map.
proof fn lemma_remove_at<K: Key, V>(before: Seq<(K, V)>, i: int)
    requires
        keys_unique(before),
        0 <= i < before.len(),
    ensures
        keys_unique(before.remove(i)),
        map_of(before.remove(i)) == map_of(before).remove(before[i].0.held()),
{
    let after = before.remove(i);
    let gone = before[i].0.held();
    lemma_map_of(before);
    assert(keys_unique(after)) by {
        assert forall|a: int, b: int|
            0 <= a < after.len() && 0 <= b < after.len() && (#[trigger] after[a]).0.held() == (
            #[trigger] after[b]).0.held() implies a == b by {
            let x = if a < i {
                a
            } else {
                a + 1
            };
            let y = if b < i {
                b
            } else {
                b + 1
            };
            assert(before[x] == after[a] && before[y] == after[b]);
        }
    }
    lemma_map_of(after);
    let want = map_of(before).remove(gone);
    assert forall|x: K::Held| #[trigger]
        map_of(after).dom().contains(x) <==> want.dom().contains(x) by {
        if map_of(after).dom().contains(x) {
            let a = choose|a: int| 0 <= a < after.len() && after[a].0.held() == x;
            let b = if a < i {
                a
            } else {
                a + 1
            };
            assert(before[b] == after[a]);
            assert(map_of(before).dom().contains(before[b].0.held()));
            assert(before[b].0.held() != before[i].0.held());
        }
        if want.dom().contains(x) {
            let b = choose|b: int| 0 <= b < before.len() && before[b].0.held() == x;
            let a = if b < i {
                b
            } else {
                b - 1
            };
            assert(before[b] == after[a]);
            assert(map_of(after).dom().contains(after[a].0.held()));
        }
    }
    assert forall|x: K::Held| #[trigger] want.dom().contains(x) implies map_of(after)[x]
        == want[x] by {
        assert(map_of(after).dom().contains(x));
        let a = choose|a: int| 0 <= a < after.len() && after[a].0.held() == x;
        let b = if a < i {
            a
        } else {
            a + 1
        };
        assert(before[b] == after[a]);
        assert(map_of(after).dom().contains(after[a].0.held()));
        assert(map_of(before).dom().contains(before[b].0.held()));
    }
    assert(map_of(after) =~= want);
}

/// The part of a map whose entries satisfy a predicate.
pub open spec fn kept<H, V>(m: Map<H, V>, pred: spec_fn(H, V) -> bool) -> Map<H, V> {
    Map::new(|k: H| m.dom().contains(k) && pred(k, m[k]), |k: H| m[k])
}

impl<K: Key, V> View for Table<K, V> {
    type V = Map<K::Held, V>;

    open spec fn view(&self) -> Map<K::Held, V> {
        self.map()
    }
}

impl<K: Key, V> Table<K, V> {
    /// The map that the table stands for.
    pub closed spec fn map(&self) -> Map<K::Held, V> {
        map_of(self.entries@)
    }

    /// No key stands twice.
    #[verifier::type_invariant]
    pub closed spec fn wf(&self) -> bool {
        keys_unique(self.entries@)
    }

    /// The empty table.
    pub fn new() -> (t: Self)
        ensures
            t@ == Map::<K::Held, V>::empty(),
    {
        Table { entries: Vec::new() }
    }

    /// The number of keys.
    pub fn len(&self) -> (n: usize)
        ensures
            self@.dom().finite(),
            n == self@.dom().len(),
    {
        proof {
            use_type_invariant(self);
            lemma_map_of(self.entries@);
        }
        self.entries.len()
    }

    /// The keys, in the order in which they were first put in.
    pub closed spec fn order(&self) -> Seq<K::Held> {
        self.entries@.map_values(|e: (K, V)| e.0.held())
    }

    /// The key at a position.
    pub fn key_at(&self, i: usize) -> (k: &K)
        requires
            i < self.order().len(),
        ensures
            k.held() == self.order()[i as int],
            self@.dom().contains(k.held()),
    {
        proof {
            use_type_invariant(self);
            lemma_map_of(self.entries@);
            assert(map_of(self.entries@).dom().contains(self.entries@[i as int].0.held()));
        }
        &self.entries[i].0
    }

    /// The value at a position.
    pub fn value_at(&self, i: usize) -> (v: &V)
        requires
            i < self.order().len(),
        ensures
            *v == self@[self.order()[i as int]],
    {
        proof {
            use_type_invariant(self);
            lemma_map_of(self.entries@);
            assert(map_of(self.entries@).dom().contains(self.entries@[i as int].0.held()));
        }
        &self.entries[i].1
    }

    /// The number of positions, each key having exactly one.
    pub fn positions(&self) -> (n: usize)
        ensures
            n == self.order().len(),
            self.order().no_duplicates(),
            self.order().to_set() == self@.dom(),
    {
        proof {
            use_type_invariant(self);
            lemma_map_of(self.entries@);
            let s = self.entries@;
            let o = self.order();
            assert forall|i: int, j: int| 0 <= i < o.len() && 0 <= j < o.len() && i != j implies o[i]
                != o[j] by {
                assert(s[i].0.held() == o[i] && s[j].0.held() == o[j]);
            }
            assert forall|k: K::Held| o.to_set().contains(k) <==> #[trigger] map_of(
                s,
            ).dom().contains(k) by {
                if o.to_set().contains(k) {
                    let i = choose|i: int| 0 <= i < o.len() && o[i] == k;
                    assert(map_of(s).dom().contains(s[i].0.held()));
                }
                if map_of(s).dom().contains(k) {
                    let i = choose|i: int| 0 <= i < s.len() && s[i].0.held() == k;
                    assert(o[i] == k);
                }
            }
            assert(o.to_set() =~= self@.dom());
        }
        self.entries.len()
    }

    fn position(&self, k: &K) -> (r: Option<usize>)
        ensures
            r matches Some(i) ==> i < self.entries@.len() && self.entries@[i as int].0.held()
                == k.held(),
            r is None <==> !self@.dom().contains(k.held()),
    {
        proof {
            use_type_invariant(self);
            lemma_map_of(self.entries@);
        }
        let mut i: usize = 0;
        while i < self.entries.len()
            invariant
                i <= self.entries@.len(),
                self@ == map_of(self.entries@),
                forall|j: int|
                    0 <= j < self.entries@.len() ==> #[trigger] map_of(
                        self.entries@,
                    ).dom().contains(self.entries@[j].0.held()),
                forall|j: int| 0 <= j < i ==> self.entries@[j].0.held() != k.held(),
            decreases self.entries@.len() - i,
        {
            if self.entries[i].0.same_key(k) {
                assert(map_of(self.entries@).dom().contains(self.entries@[i as int].0.held()));
                return Some(i);
            }
            i = i + 1;
        }
        None
    }

    /// The value under a key.
    pub fn get(&self, k: &K) -> (r: Option<&V>)
        ensures
            r == (if self@.dom().contains(k.held()) {
                Some(&self@[k.held()])
            } else {
                None
            }),
    {
        proof {
            use_type_invariant(self);
            lemma_map_of(self.entries@);
        }
        match self.position(k) {
            Some(i) => {
                assert(map_of(self.entries@).dom().contains(self.entries@[i as int].0.held()));
                Some(&self.entries[i].1)
            },
            None => None,
        }
    }

    /// Whether there is a value under a key.
    pub fn contains(&self, k: &K) -> (r: bool)
        ensures
            r == self@.dom().contains(k.held()),
    {
        self.position(k).is_some()
    }

    /// Puts a value under a key, in place of an earlier one.
    pub fn insert(&mut self, k: K, v: V)
        ensures
            final(self)@ == old(self)@.insert(k.held(), v),
    {
        proof {
            use_type_invariant(&*self);
            lemma_map_of(self.entries@);
        }
        let at = self.position(&k);
        let ghost before = self.entries@;
        let mut entries: Vec<(K, V)> = Vec::new();
        std::mem::swap(&mut entries, &mut self.entries);
        match at {
            Some(i) => {
                entries.set(i, (k, v));
                let ghost after = entries@;
                proof {
                    assert(keys_unique(after)) by {
                        assert forall|a: int, b: int|
                            0 <= a < after.len() && 0 <= b < after.len() && (
                            #[trigger] after[a]).0.held() == (
                            #[trigger] after[b]).0.held() implies a == b by {
                            assert(before[a].0.held() == after[a].0.held());
                            assert(before[b].0.held() == after[b].0.held());
                        }
                    }
                    lemma_map_of(after);
                    let want = map_of(before).insert(k.held(), v);
                    assert forall|x: K::Held| #[trigger]
                        map_of(after).dom().contains(x) <==> want.dom().contains(x) by {
                        if map_of(after).dom().contains(x) {
                            let j = choose|j: int|
                                0 <= j < after.len() && after[j].0.held() == x;
                            assert(map_of(before).dom().contains(before[j].0.held()));
                            assert(before[j].0.held() == x);
                        }
                        if want.dom().contains(x) {
                            if x == k.held() {
                                assert(map_of(after).dom().contains(after[i as int].0.held()));
                            } else {
                                let j = choose|j: int|
                                    0 <= j < before.len() && before[j].0.held() == x;
                                assert(map_of(after).dom().contains(after[j].0.held()));
                                assert(after[j].0.held() == x);
                            }
                        }
                    }
                    assert forall|x: K::Held| #[trigger]
                        want.dom().contains(x) implies map_of(after)[x] == want[x] by {
                        assert(map_of(after).dom().contains(x));
                        let j = choose|j: int| 0 <= j < after.len() && after[j].0.held() == x;
                        assert(map_of(after).dom().contains(after[j].0.held()));
                        assert(map_of(before).dom().contains(before[j].0.held()));
                    }
                    assert(map_of(after) =~= want);
                }
            },
            None => {
                entries.push((k, v));
                proof {
                    let after = entries@;
                    assert(after.drop_last() =~= before);
                    assert forall|a: int, b: int|
                        0 <= a < after.len() && 0 <= b < after.len() && (
                        #[trigger] after[a]).0.held() == (
                        #[trigger] after[b]).0.held() implies a == b by {
                        if a < before.len() {
                            assert(map_of(before).dom().contains(before[a].0.held()));
                        }
                        if b < before.len() {
                            assert(map_of(before).dom().contains(before[b].0.held()));
                        }
                    }
                }
            },
        }
        self.entries = entries;
    }

    /// Takes the value under a key away.
    pub fn remove(&mut self, k: &K)
        ensures
            final(self)@ == old(self)@.remove(k.held()),
    {
        proof {
            use_type_invariant(&*self);
            lemma_map_of(self.entries@);
        }
        let at = self.position(k);
        let ghost before = self.entries@;
        match at {
            Some(i) => {
                let mut entries: Vec<(K, V)> = Vec::new();
                std::mem::swap(&mut entries, &mut self.entries);
                let _gone = entries.remove(i);
                proof {
                    lemma_remove_at(before, i as int);
                }
                self.entries = entries;
            },
            None => {
                assert(map_of(before).remove(k.held()) =~= map_of(before));
            },
        }
    }

    /// Keeps the entries that satisfy a predicate and says how many went.
    pub(crate) fn retain<F: Fn(&K, &V) -> bool>(
        &mut self,
        keep: F,
        Ghost(pred): Ghost<spec_fn(K::Held, V) -> bool>,
    ) -> (dropped: usize)
        requires
            forall|k: &K, v: &V| call_requires(keep, (k, v)),
            forall|k: &K, v: &V, b: bool|
                call_ensures(keep, (k, v), b) ==> b == pred(k.held(), *v),
        ensures
            final(self)@ == kept(old(self)@, pred),
            old(self)@.dom().finite(),
            final(self)@.dom().finite(),
            dropped == old(self)@.dom().len() - final(self)@.dom().len(),
    {
        proof {
            use_type_invariant(&*self);
            lemma_map_of(self.entries@);
        }
        let ghost m0 = self@;
        let total: usize = self.entries.len();
        let mut entries: Vec<(K, V)> = Vec::new();
        std::mem::swap(&mut entries, &mut self.entries);
        let mut i: usize = 0;
        while i < entries.len()
            invariant
                forall|k: &K, v: &V| call_requires(keep, (k, v)),
                forall|k: &K, v: &V, b: bool|
                    call_ensures(keep, (k, v), b) ==> b == pred(k.held(), *v),
                i <= entries@.len() <= total,
                keys_unique(entries@),
                forall|x: K::Held| #[trigger]
                    map_of(entries@).dom().contains(x) ==> m0.dom().contains(x) && m0[x]
                        == map_of(entries@)[x],
                forall|x: K::Held| #[trigger]
                    m0.dom().contains(x) && pred(x, m0[x]) ==> map_of(entries@).dom().contains(x),
                forall|j: int| 0 <= j < i ==> pred((#[trigger] entries@[j]).0.held(), entries@[j].1),
            decreases entries@.len() - i,
        {
            let ghost before = entries@;
            proof {
                lemma_map_of(before);
                assert(map_of(before).dom().contains(before[i as int].0.held()));
            }
            if keep(&entries[i].0, &entries[i].1) {
                i = i + 1;
            } else {
                let _gone = entries.remove(i);
                proof {
                    lemma_remove_at(before, i as int);
                }
            }
        }
        proof {
            lemma_map_of(entries@);
            let m = map_of(entries@);
            assert forall|x: K::Held| #[trigger] m.dom().contains(x) implies pred(x, m[x]) by {
                let j = choose|j: int| 0 <= j < entries@.len() && entries@[j].0.held() == x;
                assert(m.dom().contains(entries@[j].0.held()));
            }
            assert(m =~= kept(m0, pred));
        }
        let dropped: usize = total - entries.len();
        self.entries = entries;
        dropped
    }
}

/// What is kept of a map are exactly its entries that the rule accepts, as they were.
pub proof fn law_what_is_kept<H, V>(m: Map<H, V>, pred: spec_fn(H, V) -> bool, k: H)
    ensures
        kept(m, pred).dom().contains(k) <==> m.dom().contains(k) && pred(k, m[k]),
        kept(m, pred).dom().contains(k) ==> kept(m, pred)[k] == m[k],
{
}

} // verus!
