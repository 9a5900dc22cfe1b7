//! A map keyed by text whose entries are kept in ascending key order, as a
//! `BTreeMap<String, V>` keeps them.
use crate::text::{owned, str_eq};
use vstd::prelude::*;

verus! {

/// Text order: by character code, and a proper prefix first. This is the
/// order of `String`'s `Ord` (UTF-8 keeps the order of code points).
pub open spec fn str_lt(a: Seq<char>, b: Seq<char>) -> bool
    decreases a.len(),
{
    if a.len() == 0 {
        b.len() > 0
    } else if b.len() == 0 {
        false
    } else if a[0] != b[0] {
        a[0] < b[0]
    } else {
        str_lt(a.drop_first(), b.drop_first())
    }
}

pub proof fn lemma_str_lt_irreflexive(a: Seq<char>)
    ensures
        !str_lt(a, a),
    decreases a.len(),
{
    if a.len() > 0 {
        lemma_str_lt_irreflexive(a.drop_first());
    }
}

pub proof fn lemma_str_lt_transitive(a: Seq<char>, b: Seq<char>, c: Seq<char>)
    requires
        str_lt(a, b),
        str_lt(b, c),
    ensures
        str_lt(a, c),
    decreases a.len(),
{
    if a.len() > 0 && b.len() > 0 && c.len() > 0 && a[0] == b[0] && b[0] == c[0] {
        lemma_str_lt_transitive(a.drop_first(), b.drop_first(), c.drop_first());
    }
}

pub proof fn lemma_str_lt_total(a: Seq<char>, b: Seq<char>)
    ensures
        a == b || str_lt(a, b) || str_lt(b, a),
    decreases a.len(),
{
    if a.len() > 0 && b.len() > 0 && a[0] == b[0] {
        lemma_str_lt_total(a.drop_first(), b.drop_first());
        if a.drop_first() == b.drop_first() {
            assert(a =~= seq![a[0]] + a.drop_first());
            assert(b =~= seq![b[0]] + b.drop_first());
        }
    } else if a.len() == 0 && b.len() == 0 {
        assert(a =~= b);
    }
}

pub proof fn lemma_str_lt_asymmetric(a: Seq<char>, b: Seq<char>)
    requires
        str_lt(a, b),
    ensures
        !str_lt(b, a),
{
    if str_lt(b, a) {
        lemma_str_lt_transitive(a, b, a);
        lemma_str_lt_irreflexive(a);
    }
}

/// Whether `a` comes before `b` in text order.
pub fn str_less(a: &str, b: &str) -> (r: bool)
    ensures
        r == str_lt(a@, b@),
{
    let n = a.unicode_len();
    let m = b.unicode_len();
    let mut i: usize = 0;
    proof {
        assert(a@.skip(0) =~= a@);
        assert(b@.skip(0) =~= b@);
    }
    while i < n && i < m && a.get_char(i) == b.get_char(i)
        invariant
            n == a@.len(),
            m == b@.len(),
            i <= n,
            i <= m,
            str_lt(a@, b@) == str_lt(a@.skip(i as int), b@.skip(i as int)),
        decreases n - i,
    {
        proof {
            assert(a@.skip(i as int).drop_first() =~= a@.skip(i + 1));
            assert(b@.skip(i as int).drop_first() =~= b@.skip(i + 1));
        }
        i = i + 1;
    }
    proof {
        assert(a@.skip(0) =~= a@);
        assert(b@.skip(0) =~= b@);
    }
    if i == n {
        i < m
    } else if i == m {
        false
    } else {
        a.get_char(i) < b.get_char(i)
    }
}

/// A map from text to `V`, its entries in strictly ascending key order.
pub struct StrMap<V> {
    entries: Vec<(String, V)>,
}

impl<V> StrMap<V> {
    /// The keys in ascending order.
    pub closed spec fn keys(self) -> Seq<Seq<char>> {
        self.entries@.map_values(|e: (String, V)| e.0@)
    }

    /// The values, in the order of their keys.
    pub closed spec fn vals(self) -> Seq<V> {
        self.entries@.map_values(|e: (String, V)| e.1)
    }

    /// The entries are in strictly ascending key order.
    pub closed spec fn wf(self) -> bool {
        forall|i: int, j: int|
            0 <= i < j < self.entries@.len() ==> str_lt(
                #[trigger] self.entries@[i].0@,
                #[trigger] self.entries@[j].0@,
            )
    }

    /// The map as a mathematical map.
    pub open spec fn as_map(self) -> Map<Seq<char>, V> {
        Map::new(
            |k: Seq<char>| self.keys().contains(k),
            |k: Seq<char>| self.vals()[self.keys().index_of(k)],
        )
    }

    /// Index of `k` among the keys, or -1.
    pub open spec fn index_of_key(self, k: Seq<char>) -> int {
        if self.keys().contains(k) {
            self.keys().index_of(k)
        } else {
            -1
        }
    }

    /// There are as many keys as values.
    pub proof fn lemma_lens(self)
        ensures
            self.keys().len() == self.vals().len(),
    {
    }

    /// The keys ascend strictly (so each occurs once).
    pub proof fn lemma_keys_sorted(self)
        requires
            self.wf(),
        ensures
            self.keys().len() == self.vals().len(),
            forall|i: int, j: int|
                0 <= i < j < self.keys().len() ==> str_lt(
                    #[trigger] self.keys()[i],
                    #[trigger] self.keys()[j],
                ),
            self.keys().no_duplicates(),
    {
        assert forall|i: int, j: int|
            0 <= i < self.keys().len() && 0 <= j < self.keys().len() && i != j implies
            self.keys()[i] != self.keys()[j] by {
            if i < j {
                assert(str_lt(self.entries@[i].0@, self.entries@[j].0@));
                lemma_str_lt_irreflexive(self.keys()[i]);
            } else {
                assert(str_lt(self.entries@[j].0@, self.entries@[i].0@));
                lemma_str_lt_irreflexive(self.keys()[j]);
            }
        }
    }

    /// Position `i` holds key `k` exactly when `index_of_key` says so.
    pub proof fn lemma_index_of_key(self, k: Seq<char>, i: int)
        requires
            self.wf(),
            0 <= i < self.keys().len(),
            self.keys()[i] == k,
        ensures
            self.index_of_key(k) == i,
    {
        self.lemma_keys_sorted();
        assert(self.keys().contains(k));
        let j = self.keys().index_of(k);
        assert(self.keys()[j] == k);
    }

    /// Changing the value at one position changes the map at that
    /// position's key only.
    pub proof fn lemma_update_value(self, other: Self, i: int, v: V)
        requires
            self.wf(),
            0 <= i < self.keys().len(),
            other.keys() == self.keys(),
            other.vals() == self.vals().update(i, v),
        ensures
            other.as_map() == self.as_map().insert(self.keys()[i], v),
    {
        self.lemma_keys_sorted();
        let k = self.keys()[i];
        assert forall|q: Seq<char>| #[trigger] other.as_map().contains_key(q) == self.as_map().insert(
            k,
            v,
        ).contains_key(q) by {}
        assert forall|q: Seq<char>| other.as_map().contains_key(q) implies #[trigger] other.as_map()[q]
            == self.as_map().insert(k, v)[q] by {
            let j = self.keys().index_of(q);
            assert(self.keys()[j] == q);
            if q == k {
                assert(j == i);
            } else {
                assert(j != i);
            }
        }
        assert(other.as_map() =~= self.as_map().insert(k, v));
    }

    pub fn new() -> (m: Self)
        ensures
            m.wf(),
            m.keys() == Seq::<Seq<char>>::empty(),
            m.vals() == Seq::<V>::empty(),
    {
        let m = StrMap { entries: Vec::new() };
        assert(m.keys() =~= Seq::<Seq<char>>::empty());
        assert(m.vals() =~= Seq::<V>::empty());
        m
    }

    pub fn len(&self) -> (n: usize)
        ensures
            n == self.keys().len(),
            n == self.vals().len(),
    {
        self.entries.len()
    }

    pub fn is_empty(&self) -> (b: bool)
        ensures
            b == (self.keys().len() == 0),
    {
        self.entries.len() == 0
    }

    /// The key at position `i` in ascending order.
    pub fn key_at(&self, i: usize) -> (k: &String)
        requires
            i < self.keys().len() || i < self.vals().len(),
        ensures
            k@ == self.keys()[i as int],
    {
        &self.entries[i].0
    }

    /// The value at position `i` in key order.
    pub fn value_at(&self, i: usize) -> (v: &V)
        requires
            i < self.vals().len() || i < self.keys().len(),
        ensures
            *v == self.vals()[i as int],
    {
        &self.entries[i].1
    }

    /// Position of `k`, if it is a key.
    pub fn find(&self, k: &str) -> (r: Option<usize>)
        requires
            self.wf(),
        ensures
            match r {
                Some(i) => i < self.keys().len() && self.keys()[i as int] == k@
                    && self.index_of_key(k@) == i,
                None => !self.keys().contains(k@) && self.index_of_key(k@) == -1,
            },
    {
        let mut i: usize = 0;
        while i < self.entries.len()
            invariant
                self.wf(),
                i <= self.entries@.len(),
                forall|j: int| 0 <= j < i ==> self.keys()[j] != k@,
            decreases self.entries@.len() - i,
        {
            if str_eq(self.entries[i].0.as_str(), k) {
                proof {
                    self.lemma_index_of_key(k@, i as int);
                }
                return Some(i);
            }
            i = i + 1;
        }
        None
    }

    pub fn contains_key(&self, k: &str) -> (b: bool)
        requires
            self.wf(),
        ensures
            b == self.keys().contains(k@),
    {
        self.find(k).is_some()
    }

    pub fn get(&self, k: &str) -> (r: Option<&V>)
        requires
            self.wf(),
        ensures
            match r {
                Some(v) => self.keys().contains(k@) && *v == self.vals()[self.index_of_key(k@)],
                None => !self.keys().contains(k@),
            },
    {
        match self.find(k) {
            Some(i) => Some(&self.entries[i].1),
            None => None,
        }
    }

    /// Adds an entry whose key comes after every key present.
    pub fn push_last(&mut self, k: String, v: V)
        requires
            old(self).wf(),
            old(self).keys().len() == 0 || str_lt(old(self).keys().last(), k@),
        ensures
            final(self).wf(),
            final(self).keys() == old(self).keys().push(k@),
            final(self).vals() == old(self).vals().push(v),
    {
        let ghost before = self.entries@;
        let ghost kv = k@;
        self.entries.push((k, v));
        proof {
            assert forall|a: int, b: int|
                0 <= a < b < self.entries@.len() implies str_lt(
                #[trigger] self.entries@[a].0@,
                #[trigger] self.entries@[b].0@,
            ) by {
                if b == before.len() {
                    assert(self.entries@[a] == before[a]);
                    if a < before.len() - 1 {
                        assert(str_lt(before[a].0@, before[before.len() - 1].0@));
                        assert(old(self).keys().last() == before[before.len() - 1].0@);
                        lemma_str_lt_transitive(before[a].0@, before[before.len() - 1].0@, kv);
                    } else {
                        assert(old(self).keys().last() == before[a].0@);
                    }
                } else {
                    assert(self.entries@[a] == before[a]);
                    assert(self.entries@[b] == before[b]);
                }
            }
        }
        assert(self.keys() =~= old(self).keys().push(kv));
        assert(self.vals() =~= old(self).vals().push(v));
    }

    /// Replaces the value at position `i`, keeping every key, and hands back
    /// the value it held.
    pub fn replace_value_at(&mut self, i: usize, v: V) -> (old_v: V)
        requires
            old(self).wf(),
            i < old(self).vals().len(),
        ensures
            final(self).wf(),
            final(self).keys() == old(self).keys(),
            final(self).vals() == old(self).vals().update(i as int, v),
            old_v == old(self).vals()[i as int],
    {
        let ghost before = self.entries@;
        let mut entries = Vec::new();
        std::mem::swap(&mut entries, &mut self.entries);
        let (k, old_v) = entries.remove(i);
        entries.insert(i, (k, v));
        proof {
            assert forall|a: int, b: int|
                0 <= a < b < entries@.len() implies str_lt(
                #[trigger] entries@[a].0@,
                #[trigger] entries@[b].0@,
            ) by {
                assert(entries@[a].0@ == before[a].0@);
                assert(entries@[b].0@ == before[b].0@);
            }
        }
        self.entries = entries;
        assert(self.keys() =~= old(self).keys());
        assert(self.vals() =~= old(self).vals().update(i as int, v));
        old_v
    }

    /// Replaces the value at position `i`, keeping every key.
    pub fn set_value_at(&mut self, i: usize, v: V)
        requires
            old(self).wf(),
            i < old(self).vals().len(),
        ensures
            final(self).wf(),
            final(self).keys() == old(self).keys(),
            final(self).vals() == old(self).vals().update(i as int, v),
    {
        let ghost before = self.entries@;
        let mut entries = Vec::new();
        std::mem::swap(&mut entries, &mut self.entries);
        let (k, _) = entries.remove(i);
        entries.insert(i, (k, v));
        proof {
            assert forall|a: int, b: int|
                0 <= a < b < entries@.len() implies str_lt(
                #[trigger] entries@[a].0@,
                #[trigger] entries@[b].0@,
            ) by {
                assert(entries@[a].0@ == before[a].0@);
                assert(entries@[b].0@ == before[b].0@);
            }
        }
        self.entries = entries;
        assert(self.keys() =~= old(self).keys());
        assert(self.vals() =~= old(self).vals().update(i as int, v));
    }

    /// Inserts `k` with `v`; a value already under `k` is replaced and
    /// handed back.
    pub fn insert(&mut self, k: String, v: V) -> (r: Option<V>)
        requires
            old(self).wf(),
        ensures
            final(self).wf(),
            final(self).as_map() == old(self).as_map().insert(k@, v),
            match r {
                Some(old_v) => old(self).keys().contains(k@) && old_v == old(self).vals()[old(
                    self,
                ).index_of_key(k@)],
                None => !old(self).keys().contains(k@),
            },
            old(self).keys().contains(k@) ==> final(self).keys() == old(self).keys(),
    {
        proof {
            self.lemma_keys_sorted();
        }
        let ghost before = self.entries@;
        let n = self.entries.len();
        let mut p: usize = 0;
        while p < n && str_less(self.entries[p].0.as_str(), k.as_str())
            invariant
                n == self.entries@.len(),
                self.entries@ == before,
                p <= n,
                forall|j: int| 0 <= j < p ==> str_lt(#[trigger] before[j].0@, k@),
            decreases n - p,
        {
            p = p + 1;
        }
        let mut entries = Vec::new();
        std::mem::swap(&mut entries, &mut self.entries);
        if p < n && str_eq(entries[p].0.as_str(), k.as_str()) {
            let (old_k, old_v) = entries.remove(p);
            entries.insert(p, (old_k, v));
            proof {
                assert forall|a: int, b: int|
                    0 <= a < b < entries@.len() implies str_lt(
                    #[trigger] entries@[a].0@,
                    #[trigger] entries@[b].0@,
                ) by {
                    assert(entries@[a].0@ == before[a].0@);
                    assert(entries@[b].0@ == before[b].0@);
                }
            }
            self.entries = entries;
            proof {
                let om = old(self);
                assert(self.keys() =~= om.keys());
                assert(self.vals() =~= om.vals().update(p as int, v));
                om.lemma_index_of_key(k@, p as int);
                self.lemma_keys_sorted();
                assert forall|q: Seq<char>| #[trigger] self.as_map().contains_key(q)
                    == om.as_map().insert(k@, v).contains_key(q) by {}
                assert forall|q: Seq<char>| self.as_map().contains_key(q) implies #[trigger]
                    self.as_map()[q] == om.as_map().insert(k@, v)[q] by {
                    let j = self.keys().index_of(q);
                    self.lemma_index_of_key(q, j);
                    om.lemma_index_of_key(q, j);
                }
                assert(self.as_map() =~= om.as_map().insert(k@, v));
            }
            Some(old_v)
        } else {
            let ghost kv = k@;
            entries.insert(p, (k, v));
            proof {
                if p < n {
                    lemma_str_lt_total(before[p as int].0@, kv);
                    assert(str_lt(kv, before[p as int].0@));
                }
                assert(forall|a: int, b: int|
                    0 <= a < b < before.len() ==> str_lt(
                        #[trigger] before[a].0@,
                        #[trigger] before[b].0@,
                    ));
                assert forall|a: int, b: int|
                    0 <= a < b < entries@.len() implies str_lt(
                    #[trigger] entries@[a].0@,
                    #[trigger] entries@[b].0@,
                ) by {
                    if b < p {
                        assert(entries@[a] == before[a]);
                        assert(entries@[b] == before[b]);
                    } else if b == p {
                        assert(entries@[a] == before[a]);
                    } else if a == p {
                        assert(entries@[b] == before[b - 1]);
                        if b - 1 > p {
                            assert(str_lt(before[p as int].0@, before[b - 1].0@));
                            lemma_str_lt_transitive(kv, before[p as int].0@, before[b - 1].0@);
                        }
                    } else if a < p {
                        assert(entries@[a] == before[a]);
                        assert(entries@[b] == before[b - 1]);
                        if b - 1 >= p {
                            assert(str_lt(before[a].0@, kv));
                            if b - 1 > p {
                                assert(str_lt(before[p as int].0@, before[b - 1].0@));
                                lemma_str_lt_transitive(
                                    kv,
                                    before[p as int].0@,
                                    before[b - 1].0@,
                                );
                            }
                            lemma_str_lt_transitive(before[a].0@, kv, before[b - 1].0@);
                        }
                    } else {
                        assert(entries@[a] == before[a - 1]);
                        assert(entries@[b] == before[b - 1]);
                    }
                }
            }
            self.entries = entries;
            proof {
                let om = old(self);
                self.lemma_keys_sorted();
                assert(!om.keys().contains(kv)) by {
                    if om.keys().contains(kv) {
                        let j = om.keys().index_of(kv);
                        if j < p {
                            assert(str_lt(before[j].0@, kv));
                            lemma_str_lt_irreflexive(kv);
                        } else if j > p {
                            assert(str_lt(before[p as int].0@, before[j].0@));
                            lemma_str_lt_asymmetric(kv, before[p as int].0@);
                        }
                    }
                }
                assert(self.keys() =~= om.keys().insert(p as int, kv));
                assert(self.vals() =~= om.vals().insert(p as int, v));
                assert forall|q: Seq<char>| #[trigger] self.as_map().contains_key(q)
                    == om.as_map().insert(kv, v).contains_key(q) by {
                    if q == kv {
                        assert(self.keys()[p as int] == kv);
                    }
                    if om.keys().contains(q) {
                        let j = om.keys().index_of(q);
                        if j < p {
                            assert(self.keys()[j] == q);
                        } else {
                            assert(self.keys()[j + 1] == q);
                        }
                    }
                    if self.keys().contains(q) {
                        let j = self.keys().index_of(q);
                        if j < p {
                            assert(om.keys()[j] == q);
                        } else if j > p {
                            assert(om.keys()[j - 1] == q);
                        }
                    }
                }
                assert forall|q: Seq<char>| self.as_map().contains_key(q) implies #[trigger]
                    self.as_map()[q] == om.as_map().insert(kv, v)[q] by {
                    let j = self.keys().index_of(q);
                    self.lemma_index_of_key(q, j);
                    if j < p {
                        om.lemma_index_of_key(q, j);
                    } else if j > p {
                        om.lemma_index_of_key(q, j - 1);
                    }
                }
                assert(self.as_map() =~= om.as_map().insert(kv, v));
            }
            None
        }
    }

    /// Removes `k`, handing back its value.
    pub fn remove(&mut self, k: &str) -> (r: Option<V>)
        requires
            old(self).wf(),
        ensures
            final(self).wf(),
            final(self).as_map() == old(self).as_map().remove(k@),
            match r {
                Some(old_v) => old(self).keys().contains(k@) && old_v == old(self).vals()[old(
                    self,
                ).index_of_key(k@)],
                None => !old(self).keys().contains(k@) && *final(self) == *old(self),
            },
    {
        match self.find(k) {
            None => {
                assert(self.as_map() =~= self.as_map().remove(k@));
                None
            },
            Some(p) => {
                let ghost before = self.entries@;
                let mut entries = Vec::new();
                std::mem::swap(&mut entries, &mut self.entries);
                let (_, v) = entries.remove(p);
                proof {
                    assert forall|a: int, b: int|
                        0 <= a < b < entries@.len() implies str_lt(
                        #[trigger] entries@[a].0@,
                        #[trigger] entries@[b].0@,
                    ) by {
                        let a0 = if a < p { a } else { a + 1 };
                        let b0 = if b < p { b } else { b + 1 };
                        assert(entries@[a] == before[a0]);
                        assert(entries@[b] == before[b0]);
                    }
                }
                self.entries = entries;
                proof {
                    let om = old(self);
                    om.lemma_keys_sorted();
                    self.lemma_keys_sorted();
                    assert(self.keys() =~= om.keys().remove(p as int));
                    assert(self.vals() =~= om.vals().remove(p as int));
                    assert forall|q: Seq<char>| #[trigger] self.as_map().contains_key(q)
                        == om.as_map().remove(k@).contains_key(q) by {
                        if om.keys().contains(q) && q != k@ {
                            let j = om.keys().index_of(q);
                            if j < p {
                                assert(self.keys()[j] == q);
                            } else {
                                assert(j != p);
                                assert(self.keys()[j - 1] == q);
                            }
                        }
                        if self.keys().contains(q) {
                            let j = self.keys().index_of(q);
                            if j < p {
                                assert(om.keys()[j] == q);
                            } else {
                                assert(om.keys()[j + 1] == q);
                            }
                        }
                    }
                    assert forall|q: Seq<char>| self.as_map().contains_key(q) implies #[trigger]
                        self.as_map()[q] == om.as_map().remove(k@)[q] by {
                        let j = self.keys().index_of(q);
                        self.lemma_index_of_key(q, j);
                        if j < p {
                            om.lemma_index_of_key(q, j);
                        } else {
                            om.lemma_index_of_key(q, j + 1);
                        }
                    }
                    assert(self.as_map() =~= om.as_map().remove(k@));
                }
                Some(v)
            },
        }
    }
}

/// A copy of a key.
pub fn key_copy(k: &String) -> (r: String)
    ensures
        r@ == k@,
{
    owned(k.as_str())
}

} // verus!
