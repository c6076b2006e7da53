//! A map keyed by public keys whose entries stay sorted by key, so that walking
//! it (and so encoding it) always gives the same order: ascending keys, each
//! key once, bytes compared from the first one on.
use vstd::prelude::*;

use crate::primitives::Public;

verus! {

/// `a` and `b` agree on their first `i` bytes, and `a` is smaller at byte `i`.
pub open spec fn key_lt_at(a: Public, b: Public, i: int) -> bool {
    &&& 0 <= i < 32
    &&& forall|k: int| 0 <= k < i ==> a.0[k] == b.0[k]
    &&& a.0[i] < b.0[i]
}

/// The lexicographic order on keys: `a` comes before `b`.
pub open spec fn key_lt(a: Public, b: Public) -> bool {
    exists|i: int| #[trigger] key_lt_at(a, b, i)
}

/// The entries are in strictly ascending key order.
pub open spec fn keys_sorted<V>(s: Seq<(Public, V)>) -> bool {
    forall|i: int, j: int| 0 <= i < j < s.len() ==> #[trigger] key_lt(s[i].0, s[j].0)
}

/// Some entry holds the key `k`.
pub open spec fn has_key<V>(s: Seq<(Public, V)>, k: Public) -> bool {
    exists|i: int| 0 <= i < s.len() && #[trigger] s[i].0 == k
}

/// The position of an entry that holds the key `k`, where there is one.
pub open spec fn key_index<V>(s: Seq<(Public, V)>, k: Public) -> int {
    choose|i: int| 0 <= i < s.len() && #[trigger] s[i].0 == k
}

/// The value that the entries hold for `k`, if any.
pub open spec fn find<V>(s: Seq<(Public, V)>, k: Public) -> Option<V> {
    if has_key(s, k) {
        Some(s[key_index(s, k)].1)
    } else {
        None
    }
}

/// No key comes before itself.
pub proof fn lemma_key_lt_irreflexive(a: Public)
    ensures
        !key_lt(a, a),
{
}

/// Two keys are never each before the other.
pub proof fn lemma_key_lt_asymmetric(a: Public, b: Public)
    requires
        key_lt(a, b),
    ensures
        !key_lt(b, a),
        a != b,
{
    let i = choose|i: int| key_lt_at(a, b, i);
    if key_lt(b, a) {
        let j = choose|j: int| key_lt_at(b, a, j);
        if i < j {
            assert(b.0[i] == a.0[i]);
        } else if j < i {
            assert(a.0[j] == b.0[j]);
        }
    }
}

/// The order on keys is transitive.
pub proof fn lemma_key_lt_transitive(a: Public, b: Public, c: Public)
    requires
        key_lt(a, b),
        key_lt(b, c),
    ensures
        key_lt(a, c),
{
    let i = choose|i: int| key_lt_at(a, b, i);
    let j = choose|j: int| key_lt_at(b, c, j);
    if i <= j {
        assert(key_lt_at(a, c, i));
    } else {
        assert(key_lt_at(a, c, j));
    }
}

/// Keys are ordered by their first differing byte: where `a` and `b` agree
/// on the bytes before `i` and `a` is smaller at `i`, `a` comes before `b` and
/// not after it; and `a` comes before `b` only where there is such a byte.
pub proof fn lemma_key_lt_lexicographic(a: Public, b: Public, i: int)
    ensures
        (0 <= i < 32 && (forall|k: int| 0 <= k < i ==> a.0[k] == b.0[k]) && a.0[i] < b.0[i])
            ==> key_lt(a, b) && !key_lt(b, a),
        key_lt(a, b) ==> exists|j: int|
            0 <= j < 32 && (forall|k: int| 0 <= k < j ==> a.0[k] == b.0[k]) && #[trigger] a.0[j]
                < b.0[j],
{
    if 0 <= i < 32 && (forall|k: int| 0 <= k < i ==> a.0[k] == b.0[k]) && a.0[i] < b.0[i] {
        assert(key_lt_at(a, b, i));
        lemma_key_lt_asymmetric(a, b);
    }
    if key_lt(a, b) {
        let j = choose|j: int| key_lt_at(a, b, j);
        assert(a.0[j] < b.0[j]);
    }
}

/// Of two different keys, one comes before the other.
pub proof fn lemma_key_lt_total(a: Public, b: Public)
    ensures
        a != b ==> key_lt(a, b) || key_lt(b, a),
{
    if !key_lt(a, b) && !key_lt(b, a) {
        assert forall|i: int| 0 <= i < 32 implies a.0[i] == b.0[i] by {
            if exists|j: int| 0 <= j < 32 && a.0[j] != b.0[j] {
                let j0 = choose|j: int| 0 <= j < 32 && a.0[j] != b.0[j];
                lemma_first_difference(a, b, j0);
            }
        }
        assert(a.0 =~= b.0);
    }
}

/// Where two keys differ somewhere, one of them is smaller at the first
/// byte at which they differ.
proof fn lemma_first_difference(a: Public, b: Public, j: int)
    requires
        0 <= j < 32,
        a.0[j] != b.0[j],
    ensures
        key_lt(a, b) || key_lt(b, a),
    decreases j,
{
    if forall|k: int| 0 <= k < j ==> a.0[k] == b.0[k] {
        if a.0[j] < b.0[j] {
            assert(key_lt_at(a, b, j));
        } else {
            assert(key_lt_at(b, a, j));
        }
    } else {
        let k = choose|k: int| 0 <= k < j && a.0[k] != b.0[k];
        lemma_first_difference(a, b, k);
    }
}

/// In sorted entries an earlier entry's key is smaller, at the first byte
/// where the two keys differ, than every later entry's key.
pub proof fn lemma_sorted_entries_ascend<V>(s: Seq<(Public, V)>, i: int, j: int)
    requires
        keys_sorted(s),
        0 <= i < j < s.len(),
    ensures
        s[i].0 != s[j].0,
        exists|d: int|
            0 <= d < 32 && (forall|k: int| 0 <= k < d ==> s[i].0.0[k] == s[j].0.0[k])
                && #[trigger] s[i].0.0[d] < s[j].0.0[d],
{
    assert(key_lt(s[i].0, s[j].0));
    lemma_key_lt_asymmetric(s[i].0, s[j].0);
    lemma_key_lt_lexicographic(s[i].0, s[j].0, 0);
}

/// In sorted entries each key stands once, so looking up the key of an entry
/// gives that entry's value.
pub proof fn lemma_find_sorted_at<V>(s: Seq<(Public, V)>, i: int)
    requires
        keys_sorted(s),
        0 <= i < s.len(),
    ensures
        find(s, s[i].0) == Some(s[i].1),
{
    let k = s[i].0;
    assert(0 <= i < s.len() && s[i].0 == k);
    assert(has_key(s, k));
    let j = key_index(s, k);
    assert(0 <= j < s.len() && s[j].0 == k);
    if j < i {
        assert(key_lt(s[j].0, s[i].0));
        lemma_key_lt_irreflexive(k);
    } else if i < j {
        assert(key_lt(s[i].0, s[j].0));
        lemma_key_lt_irreflexive(k);
    }
}

/// The result of comparing two keys.
pub enum KeyOrder {
    Less,
    Equal,
    Greater,
}

/// Compares two keys byte by byte from the first byte on.
pub fn compare_keys(a: &Public, b: &Public) -> (r: KeyOrder)
    ensures
        r is Less <==> key_lt(*a, *b),
        r is Equal <==> *a == *b,
        r is Greater <==> key_lt(*b, *a),
{
    let mut i: usize = 0;
    while i < 32
        invariant
            0 <= i <= 32,
            forall|k: int| 0 <= k < i ==> a.0[k] == b.0[k],
        decreases 32 - i,
    {
        if a.0[i] < b.0[i] {
            assert(key_lt_at(*a, *b, i as int));
            proof {
                lemma_key_lt_asymmetric(*a, *b);
            }
            return KeyOrder::Less;
        }
        if b.0[i] < a.0[i] {
            assert(key_lt_at(*b, *a, i as int));
            proof {
                lemma_key_lt_asymmetric(*b, *a);
            }
            return KeyOrder::Greater;
        }
        i += 1;
    }
    assert(a.0 =~= b.0);
    proof {
        lemma_key_lt_irreflexive(*a);
    }
    KeyOrder::Equal
}

/// A map from public keys to values, kept as its entries in ascending key
/// order with each key once.
#[derive(Debug, PartialEq, Eq)]
pub struct KeyMap<V> {
    entries: Vec<(Public, V)>,
}

impl<V> KeyMap<V> {
    #[verifier::type_invariant]
    spec fn wf(self) -> bool {
        keys_sorted(self.entries@)
    }

    /// The entries in ascending key order.
    pub closed spec fn entries_view(self) -> Seq<(Public, V)> {
        self.entries@
    }

    /// An empty map.
    pub fn new() -> (m: Self)
        ensures
            m.entries_view() == Seq::<(Public, V)>::empty(),
            keys_sorted(m.entries_view()),
    {
        KeyMap { entries: Vec::new() }
    }

    /// The number of entries.
    pub fn len(&self) -> (n: usize)
        ensures
            n == self.entries_view().len(),
    {
        self.entries.len()
    }

    /// Whether the map holds no entry.
    pub fn is_empty(&self) -> (b: bool)
        ensures
            b == (self.entries_view().len() == 0),
    {
        self.entries.len() == 0
    }

    /// The entries, in ascending key order.
    pub fn entries(&self) -> (es: &Vec<(Public, V)>)
        ensures
            es@ == self.entries_view(),
            keys_sorted(es@),
    {
        proof {
            use_type_invariant(self);
        }
        &self.entries
    }

    /// The value stored for `key`, if any.
    pub fn get(&self, key: &Public) -> (r: Option<&V>)
        ensures
            match r {
                Some(v) => find(self.entries_view(), *key) == Some(*v),
                None => find(self.entries_view(), *key) is None,
            },
    {
        proof {
            use_type_invariant(self);
        }
        let n = self.entries.len();
        let mut i: usize = 0;
        while i < n
            invariant
                n == self.entries@.len(),
                keys_sorted(self.entries@),
                0 <= i <= n,
                forall|j: int| 0 <= j < i ==> self.entries@[j].0 != *key,
            decreases n - i,
        {
            match compare_keys(&self.entries[i].0, key) {
                KeyOrder::Equal => {
                    proof {
                        lemma_find_sorted_at(self.entries@, i as int);
                    }
                    return Some(&self.entries[i].1);
                },
                _ => {},
            }
            i += 1;
        }
        None
    }

    /// Stores `value` for `key` and hands back the value that was stored for
    /// it before, if any. Every other key keeps its value.
    pub fn insert(&mut self, key: Public, value: V) -> (previous: Option<V>)
        ensures
            previous == find(old(self).entries_view(), key),
            forall|k: Public|
                #![trigger find(final(self).entries_view(), k)]
                find(final(self).entries_view(), k) == if k == key {
                    Some(value)
                } else {
                    find(old(self).entries_view(), k)
                },
            final(self).entries_view().len() == old(self).entries_view().len() + if previous is Some {
                0int
            } else {
                1int
            },
            keys_sorted(final(self).entries_view()),
    {
        proof {
            use_type_invariant(&*self);
        }
        let mut entries: Vec<(Public, V)> = Vec::new();
        std::mem::swap(&mut entries, &mut self.entries);
        let ghost s = entries@;
        assert(s == old(self).entries_view());
        let n = entries.len();
        let mut i: usize = 0;
        while i < n
            invariant
                n == entries@.len(),
                entries@ == s,
                s == old(self).entries_view(),
                keys_sorted(s),
                0 <= i <= n,
                forall|j: int| 0 <= j < i ==> #[trigger] key_lt(s[j].0, key),
            decreases n - i,
        {
            match compare_keys(&entries[i].0, &key) {
                KeyOrder::Less => {
                    i += 1;
                },
                KeyOrder::Equal => {
                    let (_, previous) = entries.remove(i);
                    entries.insert(i, (key, value));
                    let ghost t = entries@;
                    assert(t =~= s.update(i as int, (key, value)));
                    proof {
                        lemma_find_sorted_at(s, i as int);
                        self.lemma_update_keeps_order(s, i as int, value);
                    }
                    self.entries = entries;
                    return Some(previous);
                },
                KeyOrder::Greater => {
                    entries.insert(i, (key, value));
                    proof {
                        self.lemma_insert_keeps_order(s, i as int, key, value);
                    }
                    self.entries = entries;
                    return None;
                },
            }
        }
        entries.push((key, value));
        proof {
            assert(entries@ =~= s.insert(n as int, (key, value)));
            self.lemma_insert_keeps_order(s, n as int, key, value);
        }
        self.entries = entries;
        None
    }

    /// Replacing the value of an entry keeps the order and changes only what
    /// that entry's key finds.
    proof fn lemma_update_keeps_order(&self, s: Seq<(Public, V)>, i: int, value: V)
        requires
            keys_sorted(s),
            0 <= i < s.len(),
        ensures
            keys_sorted(s.update(i, (s[i].0, value))),
            forall|k: Public|
                #![trigger find(s.update(i, (s[i].0, value)), k)]
                find(s.update(i, (s[i].0, value)), k) == if k == s[i].0 {
                    Some(value)
                } else {
                    find(s, k)
                },
    {
        let key = s[i].0;
        let t = s.update(i, (key, value));
        assert forall|a: int, b: int| 0 <= a < b < t.len() implies #[trigger] key_lt(
            t[a].0,
            t[b].0,
        ) by {
            assert(t[a].0 == s[a].0 && t[b].0 == s[b].0);
            assert(key_lt(s[a].0, s[b].0));
        }
        lemma_find_sorted_at(t, i);
        assert forall|k: Public| #![trigger find(t, k)] k != key implies find(t, k) == find(s, k) by {
            if has_key(s, k) {
                let j = key_index(s, k);
                lemma_find_sorted_at(s, j);
                assert(t[j].0 == k);
                lemma_find_sorted_at(t, j);
            } else {
                assert forall|j: int| 0 <= j < t.len() implies #[trigger] t[j].0 != k by {
                    if j != i {
                        assert(t[j] == s[j]);
                    }
                }
            }
        }
    }

    /// Putting a new key where every key before it is smaller and every key
    /// after it is larger keeps the order and adds just that key.
    proof fn lemma_insert_keeps_order(&self, s: Seq<(Public, V)>, i: int, key: Public, value: V)
        requires
            keys_sorted(s),
            0 <= i <= s.len(),
            forall|j: int| 0 <= j < i ==> #[trigger] key_lt(s[j].0, key),
            i < s.len() ==> key_lt(key, s[i].0),
        ensures
            keys_sorted(s.insert(i, (key, value))),
            find(s, key) is None,
            forall|k: Public|
                #![trigger find(s.insert(i, (key, value)), k)]
                find(s.insert(i, (key, value)), k) == if k == key {
                    Some(value)
                } else {
                    find(s, k)
                },
    {
        let t = s.insert(i, (key, value));
        assert forall|j: int| i < j < t.len() implies #[trigger] key_lt(key, t[j].0) by {
            assert(t[j] == s[j - 1]);
            if j - 1 > i {
                assert(key_lt(s[i].0, s[j - 1].0));
                lemma_key_lt_transitive(key, s[i].0, s[j - 1].0);
            }
        }
        assert forall|a: int, b: int| 0 <= a < b < t.len() implies #[trigger] key_lt(
            t[a].0,
            t[b].0,
        ) by {
            if b < i {
                assert(key_lt(s[a].0, s[b].0));
            } else if b == i {
                assert(key_lt(s[a].0, key));
            } else if a < i {
                assert(t[b] == s[b - 1]);
                assert(key_lt(s[a].0, key));
                assert(key_lt(key, t[b].0));
                lemma_key_lt_transitive(s[a].0, key, t[b].0);
            } else if a == i {
                assert(key_lt(key, t[b].0));
            } else {
                assert(t[a] == s[a - 1] && t[b] == s[b - 1]);
                assert(key_lt(s[a - 1].0, s[b - 1].0));
            }
        }
        assert forall|j: int| 0 <= j < s.len() implies #[trigger] s[j].0 != key by {
            if j < i {
                assert(key_lt(s[j].0, key));
                lemma_key_lt_asymmetric(s[j].0, key);
            } else {
                assert(t[j + 1] == s[j]);
                assert(key_lt(key, t[j + 1].0));
                lemma_key_lt_asymmetric(key, s[j].0);
            }
        }
        assert(t[i].0 == key && t[i].1 == value);
        lemma_find_sorted_at(t, i);
        assert forall|k: Public| #![trigger find(t, k)] k != key implies find(t, k) == find(s, k) by {
            if has_key(s, k) {
                let j = key_index(s, k);
                lemma_find_sorted_at(s, j);
                if j < i {
                    assert(t[j] == s[j]);
                    lemma_find_sorted_at(t, j);
                } else {
                    assert(t[j + 1] == s[j]);
                    lemma_find_sorted_at(t, j + 1);
                }
            } else {
                assert forall|j: int| 0 <= j < t.len() implies #[trigger] t[j].0 != k by {
                    if j < i {
                        assert(t[j] == s[j]);
                    } else if j > i {
                        assert(t[j] == s[j - 1]);
                    }
                }
            }
        }
    }
}

impl<V: Clone> Clone for KeyMap<V> {
    /// A map with the same keys in the same order, each value cloned.
    fn clone(&self) -> (c: Self)
        ensures
            c.entries_view().len() == self.entries_view().len(),
            forall|i: int|
                0 <= i < self.entries_view().len() ==> {
                    &&& (#[trigger] c.entries_view()[i]).0 == self.entries_view()[i].0
                    &&& cloned::<V>(self.entries_view()[i].1, c.entries_view()[i].1)
                },
    {
        proof {
            use_type_invariant(self);
        }
        let n = self.entries.len();
        let mut entries: Vec<(Public, V)> = Vec::new();
        let mut i: usize = 0;
        while i < n
            invariant
                n == self.entries@.len(),
                keys_sorted(self.entries@),
                0 <= i <= n,
                entries@.len() == i,
                forall|j: int|
                    0 <= j < i ==> {
                        &&& (#[trigger] entries@[j]).0 == self.entries@[j].0
                        &&& cloned::<V>(self.entries@[j].1, entries@[j].1)
                    },
            decreases n - i,
        {
            let value = self.entries[i].1.clone();
            entries.push((self.entries[i].0, value));
            i += 1;
        }
        assert forall|a: int, b: int| 0 <= a < b < entries@.len() implies #[trigger] key_lt(
            entries@[a].0,
            entries@[b].0,
        ) by {
            assert(key_lt(self.entries@[a].0, self.entries@[b].0));
        }
        KeyMap { entries }
    }
}

} // verus!
