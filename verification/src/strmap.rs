//! An ordered map from strings to values, kept sorted by key.
//!
//! Keys are ordered like `str` (lexicographically by character), so walking
//! the entries from first to last visits the keys in ascending order.

use vstd::prelude::*;
use crate::text::{chars_of, lemma_lex_asymmetric, lemma_lex_irreflexive, lemma_lex_total, lemma_lex_transitive, lex_lt, lex_order};

verus! {

/// Keys strictly ascending.
pub open spec fn sorted_keys(ks: Seq<Seq<char>>) -> bool {
    forall|i: int, j: int| 0 <= i < j < ks.len() ==> lex_lt(#[trigger] ks[i], #[trigger] ks[j])
}

/// Index of key `k` in `ks`.
pub open spec fn key_index(ks: Seq<Seq<char>>, k: Seq<char>) -> int {
    choose|i: int| 0 <= i < ks.len() && ks[i] == k
}

/// The map that pairs the keys with the values at the same positions.
pub open spec fn map_of<V>(ks: Seq<Seq<char>>, vs: Seq<V>) -> Map<Seq<char>, V> {
    Map::new(|k: Seq<char>| ks.contains(k), |k: Seq<char>| vs[key_index(ks, k)])
}

/// A map with text values, the values taken by their view.
pub open spec fn text_view(m: Map<Seq<char>, String>) -> Map<Seq<char>, Seq<char>> {
    m.map_values(|v: String| v@)
}

/// The keys of a sequence of entries.
pub open spec fn entry_keys<V>(es: Seq<(String, V)>) -> Seq<Seq<char>> {
    es.map_values(|e: (String, V)| e.0@)
}

/// The values of a sequence of entries.
pub open spec fn entry_vals<V>(es: Seq<(String, V)>) -> Seq<V> {
    es.map_values(|e: (String, V)| e.1)
}

/// A map from strings to values whose entries are kept in ascending key order.
#[derive(Debug)]
pub struct StrMap<V> {
    entries: Vec<(String, V)>,
}

impl<V> StrMap<V> {
    /// The keys, in ascending order.
    pub closed spec fn keys_view(&self) -> Seq<Seq<char>> {
        entry_keys(self.entries@)
    }

    /// The values, in the order of their keys.
    pub closed spec fn vals_view(&self) -> Seq<V> {
        entry_vals(self.entries@)
    }

    /// The map that this value stands for.
    pub open spec fn view(&self) -> Map<Seq<char>, V> {
        map_of(self.keys_view(), self.vals_view())
    }

    /// Number of entries (as a natural number).
    pub open spec fn size(&self) -> nat {
        self.keys_view().len()
    }

    #[verifier::type_invariant]
    closed spec fn inv(&self) -> bool {
        sorted_keys(self.keys_view())
    }

    /// The shape that every map keeps: as many values as keys, keys ascending.
    pub open spec fn well_formed(&self) -> bool {
        &&& self.vals_view().len() == self.keys_view().len()
        &&& sorted_keys(self.keys_view())
    }

    /// An empty map.
    pub fn new() -> (m: Self)
        ensures
            m.keys_view() == Seq::<Seq<char>>::empty(),
            m.vals_view() == Seq::<V>::empty(),
            m@ == Map::<Seq<char>, V>::empty(),
            m.well_formed(),
    {
        let m = StrMap { entries: Vec::new() };
        assert(m.keys_view() =~= Seq::<Seq<char>>::empty());
        assert(m.vals_view() =~= Seq::<V>::empty());
        assert(m@ =~= Map::<Seq<char>, V>::empty());
        m
    }

    /// Shows the shape of the map to a caller.
    pub fn check_well_formed(&self)
        ensures
            self.well_formed(),
    {
        proof {
            use_type_invariant(self);
        }
    }

    /// Number of entries.
    pub fn len(&self) -> (n: usize)
        ensures
            n == self.size(),
            n == self@.len(),
            self.well_formed(),
    {
        proof {
            use_type_invariant(self);
            lemma_map_of_len(self.keys_view(), self.vals_view());
        }
        self.entries.len()
    }

    /// Whether the map has no entries.
    pub fn is_empty(&self) -> (b: bool)
        ensures
            b == (self.size() == 0),
            b == (self@ == Map::<Seq<char>, V>::empty()),
            self.well_formed(),
    {
        proof {
            use_type_invariant(self);
            lemma_map_of_len(self.keys_view(), self.vals_view());
            if self.size() > 0 {
                assert(self@.contains_key(self.keys_view()[0]));
            } else {
                assert(self@ =~= Map::<Seq<char>, V>::empty());
            }
        }
        self.entries.len() == 0
    }

    /// The key at position `i` of the ascending order.
    pub fn key_at(&self, i: usize) -> (k: &String)
        requires
            i < self.size(),
        ensures
            k@ == self.keys_view()[i as int],
            self.well_formed(),
    {
        proof {
            use_type_invariant(self);
        }
        &self.entries[i].0
    }

    /// The value at position `i` of the ascending key order.
    pub fn value_at(&self, i: usize) -> (v: &V)
        requires
            i < self.size(),
        ensures
            *v == self.vals_view()[i as int],
            self.well_formed(),
    {
        proof {
            use_type_invariant(self);
        }
        &self.entries[i].1
    }

    /// Position of `key`, if present.
    pub fn position(&self, key: &str) -> (r: Option<usize>)
        ensures
            self.well_formed(),
            r matches Some(i) ==> i < self.size() && self.keys_view()[i as int] == key@,
            r is None ==> !self.keys_view().contains(key@),
    {
        proof {
            use_type_invariant(self);
        }
        let kv = chars_of(key);
        let mut i: usize = 0;
        while i < self.entries.len()
            invariant
                kv@ == key@,
                self.well_formed(),
                i <= self.entries@.len(),
                self.keys_view().len() == self.entries@.len(),
                forall|j: int| 0 <= j < i ==> self.keys_view()[j] != key@,
            decreases self.entries.len() - i,
        {
            let ev = chars_of(self.entries[i].0.as_str());
            assert(ev@ == self.keys_view()[i as int]);
            if lex_order(ev.as_slice(), kv.as_slice()) == 0 {
                return Some(i);
            }
            i += 1;
        }
        None
    }

    /// The value stored under `key`.
    pub fn get(&self, key: &str) -> (r: Option<&V>)
        ensures
            r matches Some(v) ==> self@.contains_key(key@) && *v == self@[key@],
            r is None ==> !self@.contains_key(key@),
            self.well_formed(),
    {
        proof {
            use_type_invariant(self);
        }
        match self.position(key) {
            Some(i) => {
                proof {
                    lemma_key_index(self.keys_view(), i as int);
                }
                Some(&self.entries[i].1)
            },
            None => None,
        }
    }

    /// Whether `key` has an entry.
    pub fn contains_key(&self, key: &str) -> (b: bool)
        ensures
            b == self@.contains_key(key@),
            self.well_formed(),
    {
        self.get(key).is_some()
    }

    /// Stores `value` under `key`, giving back the value it replaces.
    pub fn insert(&mut self, key: String, value: V) -> (r: Option<V>)
        ensures
            final(self)@ == old(self)@.insert(key@, value),
            old(self)@.contains_key(key@) ==> r == Some(old(self)@[key@]),
            !old(self)@.contains_key(key@) ==> r is None,
            final(self).well_formed(),
    {
        proof {
            use_type_invariant(&*self);
        }
        let ghost ks = self.keys_view();
        let ghost vs = self.vals_view();
        let mut entries: Vec<(String, V)> = Vec::new();
        std::mem::swap(&mut entries, &mut self.entries);
        assert(entry_keys(entries@) == ks);
        let kv = chars_of(key.as_str());
        let mut i: usize = 0;
        while i < entries.len() && lex_order(chars_of(entries[i].0.as_str()).as_slice(), kv.as_slice()) == -1
            invariant
                kv@ == key@,
                ks == entry_keys(entries@),
                vs == entry_vals(entries@),
                sorted_keys(ks),
                ks.len() == entries@.len(),
                vs.len() == ks.len(),
                i <= ks.len(),
                forall|j: int| 0 <= j < i ==> lex_lt(#[trigger] ks[j], key@),
            decreases entries.len() - i,
        {
            i += 1;
        }
        let found = i < entries.len() && lex_order(chars_of(entries[i].0.as_str()).as_slice(), kv.as_slice()) == 0;
        proof {
            if i < ks.len() {
                lemma_lex_total(ks[i as int], key@);
                if !found {
                    assert(lex_lt(key@, ks[i as int]));
                }
            }
        }
        if found {
            let old_entry = entries.remove(i);
            entries.insert(i, (key, value));
            proof {
                lemma_key_index(ks, i as int);
                assert(entry_keys(entries@) =~= ks.update(i as int, key@));
                assert(entry_vals(entries@) =~= vs.update(i as int, value));
                assert(ks.update(i as int, key@) =~= ks);
                lemma_map_of_update(ks, vs, i as int, value);
            }
            self.entries = entries;
            Some(old_entry.1)
        } else {
            proof {
                assert(!ks.contains(key@)) by {
                    if ks.contains(key@) {
                        let j = ks.index_of(key@);
                        if j < i {
                            lemma_lex_irreflexive(key@);
                        } else {
                            if j > i {
                                lemma_lex_transitive(key@, ks[i as int], ks[j]);
                            }
                            lemma_lex_irreflexive(key@);
                        }
                    }
                }
                assert forall|a: int, b: int|
                    0 <= a < b < ks.len() + 1 implies lex_lt(
                    #[trigger] ks.insert(i as int, key@)[a],
                    #[trigger] ks.insert(i as int, key@)[b],
                ) by {
                    let n = ks.insert(i as int, key@);
                    if b < i {
                    } else if b == i {
                    } else if a < i {
                        assert(n[b] == ks[b - 1]);
                        if b - 1 > i {
                            lemma_lex_transitive(key@, ks[i as int], ks[b - 1]);
                        }
                        lemma_lex_transitive(ks[a], key@, ks[b - 1]);
                    } else if a == i {
                        if b - 1 > i {
                            lemma_lex_transitive(key@, ks[i as int], ks[b - 1]);
                        }
                    } else {
                        assert(n[a] == ks[a - 1]);
                        assert(n[b] == ks[b - 1]);
                    }
                }
            }
            entries.insert(i, (key, value));
            proof {
                assert(entry_keys(entries@) =~= ks.insert(i as int, key@));
                assert(entry_vals(entries@) =~= vs.insert(i as int, value));
                lemma_map_of_insert(ks, vs, i as int, key@, value);
            }
            self.entries = entries;
            None
        }
    }

    /// Removes the entry of `key`, giving back its value.
    pub fn remove(&mut self, key: &str) -> (r: Option<V>)
        ensures
            final(self)@ == old(self)@.remove(key@),
            old(self)@.contains_key(key@) ==> r == Some(old(self)@[key@]),
            !old(self)@.contains_key(key@) ==> r is None,
            final(self).well_formed(),
    {
        proof {
            use_type_invariant(&*self);
        }
        let ghost ks = self.keys_view();
        let ghost vs = self.vals_view();
        match self.position(key) {
            None => {
                assert(self@ =~= old(self)@.remove(key@));
                None
            },
            Some(i) => {
                proof {
                    lemma_key_index(ks, i as int);
                    lemma_sorted_remove(ks, i as int);
                }
                let mut entries: Vec<(String, V)> = Vec::new();
                std::mem::swap(&mut entries, &mut self.entries);
                let e = entries.remove(i);
                proof {
                    assert(entry_keys(entries@) =~= ks.remove(i as int));
                    assert(entry_vals(entries@) =~= vs.remove(i as int));
                    lemma_map_of_remove(ks, vs, i as int);
                }
                self.entries = entries;
                Some(e.1)
            },
        }
    }
}

impl<V: Clone> StrMap<V> {
    /// A copy whose values are clones of these.
    pub fn duplicate(&self) -> (m: Self)
        ensures
            m.keys_view() == self.keys_view(),
            m.size() == self.size(),
            forall|i: int| 0 <= i < self.size() ==> cloned(self.vals_view()[i], #[trigger] m.vals_view()[i]),
            m.well_formed(),
    {
        proof {
            use_type_invariant(self);
        }
        let mut entries: Vec<(String, V)> = Vec::new();
        let mut i: usize = 0;
        while i < self.entries.len()
            invariant
                i <= self.entries@.len(),
                entries@.len() == i,
                sorted_keys(self.keys_view()),
                forall|j: int| 0 <= j < i ==> #[trigger] entries@[j].0@ == self.entries@[j].0@,
                forall|j: int| 0 <= j < i ==> cloned(self.entries@[j].1, #[trigger] entries@[j].1),
            decreases self.entries.len() - i,
        {
            let k = self.entries[i].0.clone();
            let v = self.entries[i].1.clone();
            entries.push((k, v));
            i += 1;
        }
        assert(entry_keys(entries@) =~= self.keys_view());
        let m = StrMap { entries };
        m
    }
}

impl StrMap<String> {
    /// An equal copy of a map of strings.
    pub fn copy(&self) -> (m: Self)
        ensures
            m.keys_view() == self.keys_view(),
            m.vals_view() == self.vals_view(),
            m@ == self@,
            m.well_formed(),
    {
        let m = self.duplicate();
        assert(m.vals_view() =~= self.vals_view());
        m
    }
}


/// The keys of a map in ascending order.
pub open spec fn canonical_keys<V>(m: Map<Seq<char>, V>) -> Seq<Seq<char>> {
    choose|ks: Seq<Seq<char>>|
        sorted_keys(ks) && forall|x: Seq<char>| ks.contains(x) <==> m.dom().contains(x)
}

/// The values of a map in ascending key order.
pub open spec fn canonical_vals<V>(m: Map<Seq<char>, V>) -> Seq<V> {
    canonical_keys(m).map_values(|k: Seq<char>| m[k])
}

/// Two ascending key sequences with the same elements are equal.
pub proof fn lemma_sorted_same_elements(a: Seq<Seq<char>>, b: Seq<Seq<char>>)
    requires
        sorted_keys(a),
        sorted_keys(b),
        forall|x: Seq<char>| a.contains(x) <==> b.contains(x),
    ensures
        a == b,
    decreases a.len(),
{
    if a.len() == 0 {
        if b.len() > 0 {
            assert(b.contains(b[0]));
        }
        assert(a =~= b);
    } else {
        assert(a.contains(a[0]));
        assert(b.len() > 0);
        assert(b.contains(b[0]));
        let j = choose|j: int| 0 <= j < b.len() && b[j] == a[0];
        let i = choose|i: int| 0 <= i < a.len() && a[i] == b[0];
        if j > 0 {
            assert(lex_lt(b[0], b[j]));
            if i > 0 {
                assert(lex_lt(a[0], a[i]));
                lemma_lex_asymmetric(a[0], a[i]);
            } else {
                lemma_lex_irreflexive(a[0]);
            }
        }
        assert(a[0] == b[0]);
        let a2 = a.drop_first();
        let b2 = b.drop_first();
        assert forall|x: Seq<char>| a2.contains(x) <==> b2.contains(x) by {
            if a2.contains(x) {
                let k = choose|k: int| 0 <= k < a2.len() && a2[k] == x;
                assert(a.contains(x) && a[k + 1] == x);
                assert(lex_lt(a[0], a[k + 1]));
                let l = choose|l: int| 0 <= l < b.len() && b[l] == x;
                if l == 0 {
                    lemma_lex_irreflexive(x);
                }
                assert(b2[l - 1] == x);
            }
            if b2.contains(x) {
                let k = choose|k: int| 0 <= k < b2.len() && b2[k] == x;
                assert(b.contains(x) && b[k + 1] == x);
                assert(lex_lt(b[0], b[k + 1]));
                let l = choose|l: int| 0 <= l < a.len() && a[l] == x;
                if l == 0 {
                    lemma_lex_irreflexive(x);
                }
                assert(a2[l - 1] == x);
            }
        }
        lemma_sorted_same_elements(a2, b2);
        assert(a =~= b) by {
            assert forall|k: int| 0 <= k < a.len() implies a[k] == b[k] by {
                if k > 0 {
                    assert(a2[k - 1] == b2[k - 1]);
                }
            }
        }
    }
}

/// A map's keys and values in order are its ascending enumeration.
pub proof fn lemma_canonical<V>(m: &StrMap<V>)
    requires
        m.well_formed(),
    ensures
        canonical_keys(m@) == m.keys_view(),
        canonical_vals(m@) == m.vals_view(),
{
    let ks = m.keys_view();
    assert(forall|x: Seq<char>| ks.contains(x) <==> m@.dom().contains(x));
    let c = canonical_keys(m@);
    lemma_sorted_same_elements(c, ks);
    assert forall|i: int| 0 <= i < ks.len() implies #[trigger] m@[ks[i]] == m.vals_view()[i] by {
        lemma_key_index(ks, i);
    }
    assert(canonical_vals(m@) =~= m.vals_view());
}

/// The value at position `i` is what the map holds for the key at `i`.
pub proof fn lemma_entry<V>(m: &StrMap<V>, i: int)
    requires
        m.well_formed(),
        0 <= i < m.size(),
    ensures
        m@.contains_key(m.keys_view()[i]),
        m@[m.keys_view()[i]] == m.vals_view()[i],
{
    lemma_key_index(m.keys_view(), i);
}

// ---------------------------------------------------------------------------
// Lemmas about `map_of`
// ---------------------------------------------------------------------------

pub proof fn lemma_sorted_remove(ks: Seq<Seq<char>>, i: int)
    requires
        sorted_keys(ks),
        0 <= i < ks.len(),
    ensures
        sorted_keys(ks.remove(i)),
{
    assert forall|a: int, b: int| 0 <= a < b < ks.len() - 1 implies lex_lt(
        #[trigger] ks.remove(i)[a],
        #[trigger] ks.remove(i)[b],
    ) by {
        let n = ks.remove(i);
        if a < i && b >= i {
            assert(n[b] == ks[b + 1]);
        } else if a >= i {
            assert(n[a] == ks[a + 1]);
            assert(n[b] == ks[b + 1]);
        }
    }
}

pub proof fn lemma_sorted_unique(ks: Seq<Seq<char>>, i: int, j: int)
    requires
        sorted_keys(ks),
        0 <= i < ks.len(),
        0 <= j < ks.len(),
        ks[i] == ks[j],
    ensures
        i == j,
{
    if i < j {
        lemma_lex_irreflexive(ks[i]);
    } else if j < i {
        lemma_lex_irreflexive(ks[i]);
    }
}

pub proof fn lemma_key_index(ks: Seq<Seq<char>>, i: int)
    requires
        sorted_keys(ks),
        0 <= i < ks.len(),
    ensures
        key_index(ks, ks[i]) == i,
        ks.contains(ks[i]),
{
    let j = key_index(ks, ks[i]);
    assert(0 <= i < ks.len() && ks[i] == ks[i]);
    lemma_sorted_unique(ks, i, j);
}

pub proof fn lemma_map_of_len<V>(ks: Seq<Seq<char>>, vs: Seq<V>)
    requires
        sorted_keys(ks),
    ensures
        map_of(ks, vs).len() == ks.len(),
        map_of(ks, vs).dom() == ks.to_set(),
{
    assert(map_of(ks, vs).dom() =~= ks.to_set());
    assert(ks.no_duplicates()) by {
        assert forall|i: int, j: int|
            0 <= i < ks.len() && 0 <= j < ks.len() && i != j implies ks[i] != ks[j] by {
            if ks[i] == ks[j] {
                lemma_sorted_unique(ks, i, j);
            }
        }
    }
    ks.unique_seq_to_set();
}

pub proof fn lemma_map_of_update<V>(ks: Seq<Seq<char>>, vs: Seq<V>, i: int, v: V)
    requires
        sorted_keys(ks),
        vs.len() == ks.len(),
        0 <= i < ks.len(),
    ensures
        map_of(ks, vs.update(i, v)) == map_of(ks, vs).insert(ks[i], v),
{
    let m1 = map_of(ks, vs.update(i, v));
    let m2 = map_of(ks, vs).insert(ks[i], v);
    lemma_key_index(ks, i);
    assert forall|k: Seq<char>| m1.contains_key(k) implies m1[k] == m2[k] by {
        let j = key_index(ks, k);
        if k != ks[i] {
            assert(j != i);
        }
    }
    assert(m1 =~= m2);
}

pub proof fn lemma_map_of_insert<V>(ks: Seq<Seq<char>>, vs: Seq<V>, i: int, k: Seq<char>, v: V)
    requires
        sorted_keys(ks.insert(i, k)),
        vs.len() == ks.len(),
        0 <= i <= ks.len(),
        !ks.contains(k),
    ensures
        map_of(ks.insert(i, k), vs.insert(i, v)) == map_of(ks, vs).insert(k, v),
{
    let nks = ks.insert(i, k);
    let nvs = vs.insert(i, v);
    let m1 = map_of(nks, nvs);
    let m2 = map_of(ks, vs).insert(k, v);
    assert forall|x: Seq<char>| nks.contains(x) <==> (ks.contains(x) || x == k) by {
        if nks.contains(x) {
            let j = choose|j: int| 0 <= j < nks.len() && nks[j] == x;
            if j < i {
                assert(nks[j] == ks[j]);
            } else if j > i {
                assert(nks[j] == ks[j - 1]);
            }
        }
        if ks.contains(x) {
            let j = choose|j: int| 0 <= j < ks.len() && ks[j] == x;
            if j < i {
                assert(nks[j] == ks[j]);
            } else {
                assert(nks[j + 1] == ks[j]);
            }
        }
        if x == k {
            assert(nks[i] == k);
        }
    }
    assert forall|x: Seq<char>| m1.contains_key(x) implies m1[x] == m2[x] by {
        let j = key_index(nks, x);
        lemma_key_index(nks, j);
        if x == k {
            assert(nks[i] == k);
            lemma_sorted_unique(nks, i, j);
        } else {
            let j0 = key_index(ks, x);
            if j < i {
                assert(nks[j] == ks[j]);
                assert(sorted_keys(ks)) by {
                    assert forall|a: int, b: int| 0 <= a < b < ks.len() implies lex_lt(
                        #[trigger] ks[a],
                        #[trigger] ks[b],
                    ) by {
                        let a2 = if a < i { a } else { a + 1 };
                        let b2 = if b < i { b } else { b + 1 };
                        assert(nks[a2] == ks[a]);
                        assert(nks[b2] == ks[b]);
                    }
                }
                lemma_key_index(ks, j);
            } else {
                assert(j != i);
                assert(nks[j] == ks[j - 1]);
                assert(sorted_keys(ks)) by {
                    assert forall|a: int, b: int| 0 <= a < b < ks.len() implies lex_lt(
                        #[trigger] ks[a],
                        #[trigger] ks[b],
                    ) by {
                        let a2 = if a < i { a } else { a + 1 };
                        let b2 = if b < i { b } else { b + 1 };
                        assert(nks[a2] == ks[a]);
                        assert(nks[b2] == ks[b]);
                    }
                }
                lemma_key_index(ks, j - 1);
            }
        }
    }
    assert(m1 =~= m2);
}

pub proof fn lemma_map_of_remove<V>(ks: Seq<Seq<char>>, vs: Seq<V>, i: int)
    requires
        sorted_keys(ks),
        sorted_keys(ks.remove(i)),
        vs.len() == ks.len(),
        0 <= i < ks.len(),
    ensures
        map_of(ks.remove(i), vs.remove(i)) == map_of(ks, vs).remove(ks[i]),
{
    let nks = ks.remove(i);
    let nvs = vs.remove(i);
    let m1 = map_of(nks, nvs);
    let m2 = map_of(ks, vs).remove(ks[i]);
    assert forall|x: Seq<char>| nks.contains(x) <==> (ks.contains(x) && x != ks[i]) by {
        if nks.contains(x) {
            let j = choose|j: int| 0 <= j < nks.len() && nks[j] == x;
            if j < i {
                assert(nks[j] == ks[j]);
                if x == ks[i] {
                    lemma_sorted_unique(ks, i, j);
                }
            } else {
                assert(nks[j] == ks[j + 1]);
                if x == ks[i] {
                    lemma_sorted_unique(ks, i, j + 1);
                }
            }
        }
        if ks.contains(x) && x != ks[i] {
            let j = choose|j: int| 0 <= j < ks.len() && ks[j] == x;
            if j < i {
                assert(nks[j] == ks[j]);
            } else {
                assert(j != i);
                assert(nks[j - 1] == ks[j]);
            }
        }
    }
    assert forall|x: Seq<char>| m1.contains_key(x) implies m1[x] == m2[x] by {
        let j = key_index(nks, x);
        assert(0 <= j < nks.len() && nks[j] == x);
        lemma_key_index(nks, j);
        if j < i {
            assert(nks[j] == ks[j]);
            lemma_key_index(ks, j);
            assert(m2[x] == vs[j]);
        } else {
            assert(nks[j] == ks[j + 1]);
            lemma_key_index(ks, j + 1);
            assert(m2[x] == vs[j + 1]);
        }
    }
    assert(m1 =~= m2);
}

} // verus!
