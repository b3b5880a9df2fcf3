//! A map keyed by strings that keeps its entries in the order of `String`'s `Ord`,
//! as a `BTreeMap<String, V>` does.

use vstd::prelude::*;
use crate::external::strings_view;
use crate::text::{seq_lt, str_less, lemma_seq_lt_total, lemma_seq_lt_transitive, lemma_seq_lt_asymmetric};

verus! {

/// Entries `(key, value)` sorted by key, with no key twice.
pub struct StrMap<V> {
    entries: Vec<(String, V)>,
}

/// The map that inserting the pairs one after another, from the first, gives: a later
/// pair of the same key wins (as collecting into a `BTreeMap` does).
pub open spec fn map_of_pairs<V>(s: Seq<(Seq<char>, V)>) -> Map<Seq<char>, V>
    decreases s.len(),
{
    if s.len() == 0 {
        Map::empty()
    } else {
        map_of_pairs(s.drop_last()).insert(s.last().0, s.last().1)
    }
}

/// Pairs viewed by the characters of their keys.
pub open spec fn pairs_view<V>(s: Seq<(String, V)>) -> Seq<(Seq<char>, V)> {
    s.map_values(|e: (String, V)| (e.0@, e.1))
}

/// Keys strictly increasing in the order of `String`.
pub open spec fn sorted_keys(keys: Seq<Seq<char>>) -> bool {
    forall|i: int, j: int| 0 <= i < j < keys.len() ==> seq_lt(#[trigger] keys[i], #[trigger] keys[j])
}

impl<V> StrMap<V> {
    /// The keys, in order.
    pub closed spec fn keys(&self) -> Seq<Seq<char>> {
        self.entries@.map_values(|e: (String, V)| e.0@)
    }

    /// The values, in the order of their keys.
    pub closed spec fn values(&self) -> Seq<V> {
        self.entries@.map_values(|e: (String, V)| e.1)
    }

    #[verifier::type_invariant]
    closed spec fn inv(&self) -> bool {
        sorted_keys(self.keys())
    }

    /// The map from each key to its value.
    pub open spec fn as_map(&self) -> Map<Seq<char>, V> {
        Map::new(
            |k: Seq<char>| self.keys().contains(k),
            |k: Seq<char>| self.values()[self.keys().index_of(k)],
        )
    }

    /// An empty map.
    pub fn new() -> (m: Self)
        ensures
            m.keys() == Seq::<Seq<char>>::empty(),
            sorted_keys(m.keys()),
            m.values() == Seq::<V>::empty(),
            m.as_map() == Map::<Seq<char>, V>::empty(),
    {
        let m = StrMap { entries: Vec::new() };
        assert(m.keys() =~= Seq::<Seq<char>>::empty());
        assert(m.values() =~= Seq::<V>::empty());
        assert(m.as_map() =~= Map::<Seq<char>, V>::empty());
        m
    }

    /// The map of the pairs, inserted one after another from the first.
    pub fn from_pairs(pairs: Vec<(String, V)>) -> (m: Self)
        ensures
            m.as_map() == map_of_pairs(pairs_view(pairs@)),
            sorted_keys(m.keys()),
    {
        let ghost all = pairs_view(pairs@);
        let mut rest = pairs;
        let mut m = Self::new();
        let ghost mut n: int = 0;
        assert(all.take(0) =~= Seq::<(Seq<char>, V)>::empty());
        while rest.len() > 0
            invariant
                0 <= n <= all.len(),
                pairs_view(rest@) == all.skip(n),
                m.as_map() == map_of_pairs(all.take(n)),
                sorted_keys(m.keys()),
            decreases rest.len(),
        {
            let ghost before = rest@;
            assert(pairs_view(before).len() == all.skip(n).len());
            assert(n < all.len());
            let (k, v) = rest.remove(0);
            assert(rest@ == before.subrange(1, before.len() as int));
            assert(all[n] == (k@, v)) by {
                assert(pairs_view(rest@).len() + 1 == all.skip(n).len());
                assert(all.skip(n)[0] == all[n]);
            }
            m.insert(k, v);
            proof {
                assert(all.take(n + 1).drop_last() =~= all.take(n));
                assert(all.take(n + 1).last() == all[n]);
                n = n + 1;
                assert forall|j: int| 0 <= j < rest@.len() implies #[trigger] pairs_view(rest@)[j] == all.skip(n)[j] by {
                    assert(rest@[j] == before[j + 1]);
                    assert(pairs_view(before)[j + 1] == all.skip(n - 1)[j + 1]);
                }
                assert(pairs_view(rest@) =~= all.skip(n));
            }
        }
        assert(all.take(n) =~= all);
        m
    }

    /// The keys, in order.
    pub fn keys_vec(&self) -> (r: Vec<String>)
        ensures
            strings_view(r@) == self.keys(),
    {
        let mut r: Vec<String> = Vec::new();
        let mut i: usize = 0;
        while i < self.entries.len()
            invariant
                i <= self.entries.len(),
                r@.len() == i,
                self.keys().len() == self.entries.len(),
                strings_view(r@) == self.keys().take(i as int),
            decreases self.entries.len() - i,
        {
            let k = self.entries[i].0.clone();
            assert(k@ == self.keys()[i as int]);
            let ghost before = r@;
            r.push(k);
            i = i + 1;
            assert forall|j: int| 0 <= j < i implies #[trigger] strings_view(r@)[j] == self.keys().take(i as int)[j] by {
                if j < i - 1 {
                    assert(r@[j] == before[j]);
                    assert(strings_view(before)[j] == self.keys().take(i - 1)[j]);
                }
            }
            assert(strings_view(r@) =~= self.keys().take(i as int));
        }
        assert(self.keys().take(i as int) =~= self.keys());
        r
    }

    /// The values, in the order of their keys, taken out of the map.
    pub fn into_values(self) -> (r: Vec<V>)
        ensures
            r@ == self.values(),
    {
        let ghost values = self.values();
        let mut entries = self.entries;
        let mut r: Vec<V> = Vec::new();
        while entries.len() > 0
            invariant
                entries@.map_values(|e: (String, V)| e.1) + r@.reverse() == values,
            decreases entries.len(),
        {
            let ghost before_entries = entries@;
            let ghost before_r = r@;
            let (_, v) = entries.pop().unwrap();
            r.push(v);
            assert(r@.reverse() =~= seq![v] + before_r.reverse());
            assert(before_entries.map_values(|e: (String, V)| e.1) =~= entries@.map_values(|e: (String, V)| e.1).push(v));
            assert(entries@.map_values(|e: (String, V)| e.1) + r@.reverse() =~= before_entries.map_values(|e: (String, V)| e.1) + before_r.reverse());
        }
        assert(entries@.map_values(|e: (String, V)| e.1) =~= Seq::<V>::empty());
        let mut out: Vec<V> = Vec::new();
        let ghost rev = r@.reverse();
        assert(rev =~= values);
        while r.len() > 0
            invariant
                out@ + r@.reverse() == values,
            decreases r.len(),
        {
            let ghost before_out = out@;
            let ghost before_r = r@;
            let v = r.pop().unwrap();
            out.push(v);
            assert(before_r.reverse() =~= seq![v] + r@.reverse());
            assert(out@ + r@.reverse() =~= before_out + before_r.reverse());
        }
        assert(r@.reverse() =~= Seq::<V>::empty());
        assert(out@ =~= values);
        out
    }

    /// The number of entries.
    pub fn len(&self) -> (n: usize)
        ensures
            n == self.keys().len(),
            n == self.values().len(),
            sorted_keys(self.keys()),
    {
        proof {
            use_type_invariant(self);
        }
        self.entries.len()
    }

    /// The key of the `i`-th entry.
    pub fn key_at(&self, i: usize) -> (k: &String)
        requires
            i < self.keys().len(),
        ensures
            k@ == self.keys()[i as int],
    {
        &self.entries[i].0
    }

    /// The value of the `i`-th entry.
    pub fn value_at(&self, i: usize) -> (v: &V)
        requires
            i < self.values().len(),
        ensures
            *v == self.values()[i as int],
    {
        &self.entries[i].1
    }

    /// Sets `key` to `value`: the entry of `key` is replaced if there is one, otherwise
    /// the pair goes in at its place in the order (`BTreeMap::insert`).
    pub fn insert(&mut self, key: String, value: V)
        ensures
            sorted_keys(final(self).keys()),
            final(self).as_map() == old(self).as_map().insert(key@, value),
            ({
                let i = final(self).keys().index_of(key@);
                &&& final(self).keys().contains(key@)
                &&& final(self).values()[i] == value
                &&& if old(self).keys().contains(key@) {
                    &&& final(self).keys() == old(self).keys()
                    &&& final(self).values() == old(self).values().update(i, value)
                } else {
                    &&& final(self).keys() == old(self).keys().insert(i, key@)
                    &&& final(self).values() == old(self).values().insert(i, value)
                }
            }),
    {
        proof {
            use_type_invariant(&*self);
        }
        let ghost old_keys = self.keys();
        let ghost old_values = self.values();
        let mut i: usize = 0;
        while i < self.entries.len() && str_less(self.entries[i].0.as_str(), key.as_str())
            invariant
                i <= self.entries.len(),
                old_keys == self.keys(),
                old_values == self.values(),
                sorted_keys(old_keys),
                forall|j: int| 0 <= j < i ==> seq_lt(#[trigger] old_keys[j], key@),
            decreases self.entries.len() - i,
        {
            i = i + 1;
        }
        let found = i < self.entries.len() && self.entries[i].0 == key;
        assert(old_keys.len() == self.entries.len());
        if found {
            let ghost k = key@;
            assert(old_keys[i as int] == k);
            let mut entries = Vec::new();
            std::mem::swap(&mut entries, &mut self.entries);
            entries.set(i, (key, value));
            assert(entries@.map_values(|e: (String, V)| e.0@) =~= old_keys);
            self.entries = entries;
            assert(self.keys() =~= old_keys);
            assert(self.values() =~= old_values.update(i as int, value));
            assert(old_keys.contains(k));
            proof {
                lemma_index_of_sorted(old_keys, i as int);
                lemma_map_after_update(old_keys, old_values, i as int, value);
            }
        } else {
            let ghost k = key@;
            proof {
                if i < old_keys.len() {
                    lemma_seq_lt_total(old_keys[i as int], k);
                    assert(seq_lt(k, old_keys[i as int]));
                }
                assert forall|j: int| i <= j < old_keys.len() implies seq_lt(k, #[trigger] old_keys[j]) by {
                    if j > i {
                        lemma_seq_lt_transitive(k, old_keys[i as int], old_keys[j]);
                    }
                }
                assert forall|j: int| 0 <= j < old_keys.len() implies #[trigger] old_keys[j] != k by {
                    if j < i {
                        lemma_seq_lt_asymmetric(old_keys[j], k);
                    } else {
                        lemma_seq_lt_asymmetric(k, old_keys[j]);
                    }
                }
            }
            let mut entries = Vec::new();
            std::mem::swap(&mut entries, &mut self.entries);
            entries.insert(i, (key, value));
            let ghost nk = entries@.map_values(|e: (String, V)| e.0@);
            assert(nk =~= old_keys.insert(i as int, k));
            proof {
                assert forall|a: int, b: int| 0 <= a < b < nk.len() implies seq_lt(#[trigger] nk[a], #[trigger] nk[b]) by {
                    if b < i {
                    } else if a < i && b == i {
                    } else if a < i && b > i {
                        assert(nk[b] == old_keys[b - 1]);
                        lemma_seq_lt_transitive(nk[a], k, nk[b]);
                    } else if a == i {
                        assert(nk[b] == old_keys[b - 1]);
                    } else {
                        assert(nk[a] == old_keys[a - 1]);
                        assert(nk[b] == old_keys[b - 1]);
                    }
                }
            }
            self.entries = entries;
            assert(self.keys() == nk);
            assert(self.values() =~= old_values.insert(i as int, value));
            proof {
                assert(!old_keys.contains(k));
                lemma_index_of_sorted(nk, i as int);
                lemma_map_after_insert(old_keys, old_values, i as int, k, value);
            }
        }
    }
}

/// Replacing the value at the position of an existing key changes the map at that key only.
proof fn lemma_map_after_update<V>(keys: Seq<Seq<char>>, values: Seq<V>, i: int, v: V)
    requires
        sorted_keys(keys),
        keys.len() == values.len(),
        0 <= i < keys.len(),
    ensures
        Map::new(|q: Seq<char>| keys.contains(q), |q: Seq<char>| values.update(i, v)[keys.index_of(q)])
            == Map::new(|q: Seq<char>| keys.contains(q), |q: Seq<char>| values[keys.index_of(q)]).insert(keys[i], v),
{
    let m1 = Map::new(|q: Seq<char>| keys.contains(q), |q: Seq<char>| values.update(i, v)[keys.index_of(q)]);
    let m0 = Map::new(|q: Seq<char>| keys.contains(q), |q: Seq<char>| values[keys.index_of(q)]);
    lemma_index_of_sorted(keys, i);
    assert forall|q: Seq<char>| #[trigger] m1.contains_key(q) implies m1[q] == m0.insert(keys[i], v)[q] by {
        let j = keys.index_of(q);
        lemma_index_of_sorted(keys, j);
    }
    assert(m1 =~= m0.insert(keys[i], v));
}

/// Inserting a new key at its position adds that key to the map and keeps every other.
proof fn lemma_map_after_insert<V>(keys: Seq<Seq<char>>, values: Seq<V>, i: int, k: Seq<char>, v: V)
    requires
        sorted_keys(keys),
        sorted_keys(keys.insert(i, k)),
        keys.len() == values.len(),
        0 <= i <= keys.len(),
        !keys.contains(k),
    ensures
        Map::new(|q: Seq<char>| keys.insert(i, k).contains(q), |q: Seq<char>| values.insert(i, v)[keys.insert(i, k).index_of(q)])
            == Map::new(|q: Seq<char>| keys.contains(q), |q: Seq<char>| values[keys.index_of(q)]).insert(k, v),
{
    let nk = keys.insert(i, k);
    let nv = values.insert(i, v);
    let m1 = Map::new(|q: Seq<char>| nk.contains(q), |q: Seq<char>| nv[nk.index_of(q)]);
    let m0 = Map::new(|q: Seq<char>| keys.contains(q), |q: Seq<char>| values[keys.index_of(q)]);
    assert(nk[i] == k);
    lemma_index_of_sorted(nk, i);
    assert forall|q: Seq<char>| #[trigger] m0.insert(k, v).contains_key(q) implies m1.contains_key(q) by {
        if q != k {
            let j = keys.index_of(q);
            if j < i {
                assert(nk[j] == q);
            } else {
                assert(nk[j + 1] == q);
            }
        }
    }
    assert forall|q: Seq<char>| #[trigger] m1.contains_key(q) implies m0.insert(k, v).contains_key(q)
        && m1[q] == m0.insert(k, v)[q] by {
        let j = nk.index_of(q);
        lemma_index_of_sorted(nk, j);
        if j < i {
            assert(keys[j] == q);
            lemma_index_of_sorted(keys, j);
        } else if j > i {
            assert(keys[j - 1] == q);
            lemma_index_of_sorted(keys, j - 1);
        }
    }
    assert(m1 =~= m0.insert(k, v));
}

/// In sorted keys, the position of the key at `i` is `i`.
pub proof fn lemma_index_of_sorted(keys: Seq<Seq<char>>, i: int)
    requires
        sorted_keys(keys),
        0 <= i < keys.len(),
    ensures
        keys.contains(keys[i]),
        keys.index_of(keys[i]) == i,
{
    let k = keys[i];
    assert(keys.contains(k));
    let j = keys.index_of(k);
    if j != i {
        if j < i {
            lemma_seq_lt_asymmetric(keys[j], keys[i]);
        } else {
            lemma_seq_lt_asymmetric(keys[i], keys[j]);
        }
    }
}

} // verus!

verus! {

/// Collecting pairs into a map keeps, for each key, the value of the last pair with
/// that key.
pub proof fn lemma_last_pair_wins<V>(s: Seq<(Seq<char>, V)>, i: int)
    requires
        0 <= i < s.len(),
        forall|j: int| i < j < s.len() ==> (#[trigger] s[j]).0 != s[i].0,
    ensures
        map_of_pairs(s).contains_key(s[i].0),
        map_of_pairs(s)[s[i].0] == s[i].1,
    decreases s.len(),
{
    if i < s.len() - 1 {
        assert(s.last() == s[s.len() - 1]);
        let t = s.drop_last();
        assert forall|j: int| i < j < t.len() implies (#[trigger] t[j]).0 != t[i].0 by {
            assert(t[j] == s[j]);
        }
        lemma_last_pair_wins(t, i);
        assert(t[i] == s[i]);
    }
}

/// A key is in the collected map exactly when some pair has it.
pub proof fn lemma_keys_of_pairs<V>(s: Seq<(Seq<char>, V)>, k: Seq<char>)
    ensures
        map_of_pairs(s).contains_key(k) <==> exists|i: int| 0 <= i < s.len() && (#[trigger] s[i]).0 == k,
    decreases s.len(),
{
    if s.len() > 0 {
        let t = s.drop_last();
        lemma_keys_of_pairs(t, k);
        if map_of_pairs(t).contains_key(k) {
            let i = choose|i: int| 0 <= i < t.len() && (#[trigger] t[i]).0 == k;
            assert(s[i] == t[i]);
        }
        if exists|i: int| 0 <= i < s.len() && (#[trigger] s[i]).0 == k {
            let i = choose|i: int| 0 <= i < s.len() && (#[trigger] s[i]).0 == k;
            if i < s.len() - 1 {
                assert(t[i] == s[i]);
            }
        }
    }
}

/// Two sorted sequences of keys with the same elements are the same sequence: a set
/// of strings has one sorted form.
pub proof fn lemma_sorted_keys_unique(a: Seq<Seq<char>>, b: Seq<Seq<char>>)
    requires
        sorted_keys(a),
        sorted_keys(b),
        forall|x: Seq<char>| a.contains(x) <==> b.contains(x),
    ensures
        a == b,
    decreases a.len(),
{
    if a.len() == 0 {
        if b.len() > 0 {
            assert(b.contains(b[0]));
        }
        assert(a =~= b);
    } else if b.len() == 0 {
        assert(a.contains(a[0]));
    } else {
        assert(a.contains(a[0]));
        assert(b.contains(b[0]));
        let j = choose|j: int| 0 <= j < b.len() && b[j] == a[0];
        let i = choose|i: int| 0 <= i < a.len() && a[i] == b[0];
        if j > 0 {
            assert(seq_lt(b[0], b[j]));
            if i > 0 {
                assert(seq_lt(a[0], a[i]));
                crate::text::lemma_seq_lt_transitive(b[0], a[0], b[0]);
                crate::text::lemma_seq_lt_irreflexive(b[0]);
            } else {
                crate::text::lemma_seq_lt_irreflexive(b[0]);
            }
        }
        assert(a[0] == b[0]);
        let a1 = a.drop_first();
        let b1 = b.drop_first();
        assert forall|x: Seq<char>| a1.contains(x) <==> b1.contains(x) by {
            if a1.contains(x) {
                let p = choose|p: int| 0 <= p < a1.len() && a1[p] == x;
                assert(a[p + 1] == x);
                assert(seq_lt(a[0], a[p + 1]));
                assert(b.contains(x));
                let q = choose|q: int| 0 <= q < b.len() && b[q] == x;
                if q == 0 {
                    lemma_seq_lt_asymmetric(a[0], x);
                }
                assert(b1[q - 1] == x);
            }
            if b1.contains(x) {
                let p = choose|p: int| 0 <= p < b1.len() && b1[p] == x;
                assert(b[p + 1] == x);
                assert(seq_lt(b[0], b[p + 1]));
                assert(a.contains(x));
                let q = choose|q: int| 0 <= q < a.len() && a[q] == x;
                if q == 0 {
                    lemma_seq_lt_asymmetric(b[0], x);
                }
                assert(a1[q - 1] == x);
            }
        }
        assert forall|p: int, q: int| 0 <= p < q < a1.len() implies seq_lt(#[trigger] a1[p], #[trigger] a1[q]) by {
            assert(a1[p] == a[p + 1]);
            assert(a1[q] == a[q + 1]);
        }
        assert forall|p: int, q: int| 0 <= p < q < b1.len() implies seq_lt(#[trigger] b1[p], #[trigger] b1[q]) by {
            assert(b1[p] == b[p + 1]);
            assert(b1[q] == b[q + 1]);
        }
        lemma_sorted_keys_unique(a1, b1);
        assert(a =~= seq![a[0]] + a1);
        assert(b =~= seq![b[0]] + b1);
    }
}

} // verus!
