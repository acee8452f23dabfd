//! An ordered map from option names to option values, kept sorted by key.
//!
//! Service configurations are handed to the storage layer as a set of
//! `name = value` options.  `ConfigMap` holds them in ascending key order,
//! with each key at most once, so that iterating it yields the options in
//! the order an ordered map would.
use vstd::prelude::*;

use crate::text::chars_of;

verus! {

/// Lexicographic order on strings, character by character by code point,
/// a proper prefix coming first.
pub open spec fn key_less(a: Seq<char>, b: Seq<char>) -> bool
    decreases a.len(),
{
    if b.len() == 0 {
        false
    } else if a.len() == 0 {
        true
    } else if a[0] != b[0] {
        (a[0] as int) < (b[0] as int)
    } else {
        key_less(a.drop_first(), b.drop_first())
    }
}

/// No string precedes itself.
pub proof fn lemma_key_less_irreflexive(a: Seq<char>)
    ensures
        !key_less(a, a),
    decreases a.len(),
{
    if a.len() > 0 {
        lemma_key_less_irreflexive(a.drop_first());
    }
}

/// The order is transitive.
pub proof fn lemma_key_less_transitive(a: Seq<char>, b: Seq<char>, c: Seq<char>)
    requires
        key_less(a, b),
        key_less(b, c),
    ensures
        key_less(a, c),
    decreases a.len(),
{
    if a.len() > 0 && b.len() > 0 && c.len() > 0 {
        if a[0] == b[0] && b[0] == c[0] {
            lemma_key_less_transitive(a.drop_first(), b.drop_first(), c.drop_first());
        }
    }
}

/// Any two different strings are ordered one way or the other.
pub proof fn lemma_key_less_total(a: Seq<char>, b: Seq<char>)
    requires
        a != b,
    ensures
        key_less(a, b) || key_less(b, a),
    decreases a.len(),
{
    if a.len() > 0 && b.len() > 0 && a[0] == b[0] {
        if a.drop_first() == b.drop_first() {
            assert(a =~= seq![a[0]] + a.drop_first());
            assert(b =~= seq![b[0]] + b.drop_first());
        }
        lemma_key_less_total(a.drop_first(), b.drop_first());
    } else if a.len() == 0 && b.len() == 0 {
        assert(a =~= b);
    } else if a.len() > 0 && b.len() > 0 {
        assert((a[0] as int) != (b[0] as int));
    }
}

/// The order is asymmetric.
pub proof fn lemma_key_less_asymmetric(a: Seq<char>, b: Seq<char>)
    requires
        key_less(a, b),
    ensures
        !key_less(b, a),
{
    if key_less(b, a) {
        lemma_key_less_transitive(a, b, a);
        lemma_key_less_irreflexive(a);
    }
}

/// Keys in strictly ascending order (hence each at most once).
pub open spec fn keys_ascending(s: Seq<(Seq<char>, Seq<char>)>) -> bool {
    forall|i: int, j: int| 0 <= i < j < s.len() ==> key_less(#[trigger] s[i].0, #[trigger] s[j].0)
}

/// Some entry has key `k`.
pub open spec fn has_key(s: Seq<(Seq<char>, Seq<char>)>, k: Seq<char>) -> bool {
    exists|i: int| 0 <= i < s.len() && #[trigger] s[i].0 == k
}

/// The position of an entry with key `k`.
pub open spec fn key_index(s: Seq<(Seq<char>, Seq<char>)>, k: Seq<char>) -> int {
    choose|i: int| 0 <= i < s.len() && #[trigger] s[i].0 == k
}

/// The entries read as a map from key to value.
pub open spec fn pairs_map(s: Seq<(Seq<char>, Seq<char>)>) -> Map<Seq<char>, Seq<char>> {
    Map::new(|k: Seq<char>| has_key(s, k), |k: Seq<char>| s[key_index(s, k)].1)
}

/// In an ascending sequence, an entry's key finds that very entry.
pub proof fn lemma_key_index_unique(s: Seq<(Seq<char>, Seq<char>)>, i: int)
    requires
        keys_ascending(s),
        0 <= i < s.len(),
    ensures
        has_key(s, s[i].0),
        key_index(s, s[i].0) == i,
        pairs_map(s).contains_key(s[i].0),
        pairs_map(s)[s[i].0] == s[i].1,
{
    let k = s[i].0;
    assert(has_key(s, k));
    let j = key_index(s, k);
    if j < i {
        assert(key_less(s[j].0, s[i].0));
        lemma_key_less_irreflexive(k);
    } else if j > i {
        assert(key_less(s[i].0, s[j].0));
        lemma_key_less_irreflexive(k);
    }
}

/// Placing a new key at its ordered position adds it to the map.
proof fn lemma_insert_new_key(
    s: Seq<(Seq<char>, Seq<char>)>,
    p: int,
    k: Seq<char>,
    v: Seq<char>,
)
    requires
        keys_ascending(s),
        0 <= p <= s.len(),
        forall|j: int| 0 <= j < p ==> key_less(#[trigger] s[j].0, k),
        p < s.len() ==> key_less(k, s[p].0),
    ensures
        keys_ascending(s.insert(p, (k, v))),
        pairs_map(s.insert(p, (k, v))) == pairs_map(s).insert(k, v),
{
    let t = s.insert(p, (k, v));
    assert forall|i: int, j: int| 0 <= i < j < t.len() implies key_less(
        #[trigger] t[i].0,
        #[trigger] t[j].0,
    ) by {
        if j == p {
        } else if i == p {
            if j - 1 > p {
                assert(key_less(s[p].0, s[j - 1].0));
                lemma_key_less_transitive(k, s[p].0, s[j - 1].0);
            }
        } else if i < p && j > p {
            assert(key_less(s[i].0, k));
            if j - 1 > i {
                assert(key_less(s[i].0, s[j - 1].0));
            }
        } else if i > p {
            assert(key_less(s[i - 1].0, s[j - 1].0));
        }
    }
    assert forall|x: Seq<char>| #[trigger] has_key(t, x) <==> has_key(s, x) || x == k by {
        if has_key(s, x) {
            let q = key_index(s, x);
            if q < p {
                assert(t[q].0 == x);
            } else {
                assert(t[q + 1].0 == x);
            }
        }
        if x == k {
            assert(t[p].0 == x);
        }
        if has_key(t, x) {
            let q = key_index(t, x);
            if q < p {
                assert(s[q].0 == x);
            } else if q > p {
                assert(s[q - 1].0 == x);
            }
        }
    }
    assert forall|x: Seq<char>| #[trigger] pairs_map(t).contains_key(x) implies pairs_map(t)[x]
        == pairs_map(s).insert(k, v)[x] by {
        let q = key_index(t, x);
        lemma_key_index_unique(t, q);
        if q < p {
            lemma_key_index_unique(s, q);
            if x == k {
                lemma_key_less_irreflexive(k);
            }
        } else if q > p {
            lemma_key_index_unique(s, q - 1);
            if x == k {
                assert(key_less(t[p].0, t[q].0));
                lemma_key_less_irreflexive(k);
            }
        }
    }
    assert(pairs_map(t) =~= pairs_map(s).insert(k, v));
}

/// Replacing the value of an existing key updates the map at that key.
proof fn lemma_replace_value(s: Seq<(Seq<char>, Seq<char>)>, p: int, v: Seq<char>)
    requires
        keys_ascending(s),
        0 <= p < s.len(),
    ensures
        keys_ascending(s.update(p, (s[p].0, v))),
        pairs_map(s.update(p, (s[p].0, v))) == pairs_map(s).insert(s[p].0, v),
{
    let k = s[p].0;
    let t = s.update(p, (k, v));
    assert(keys_ascending(t)) by {
        assert forall|i: int, j: int| 0 <= i < j < t.len() implies key_less(
            #[trigger] t[i].0,
            #[trigger] t[j].0,
        ) by {
            assert(key_less(s[i].0, s[j].0));
        }
    }
    assert forall|x: Seq<char>| #[trigger] has_key(t, x) <==> has_key(s, x) by {
        if has_key(s, x) {
            let q = key_index(s, x);
            assert(t[q].0 == x);
        }
        if has_key(t, x) {
            let q = key_index(t, x);
            assert(s[q].0 == x);
        }
    }
    assert forall|x: Seq<char>| #[trigger] pairs_map(t).contains_key(x) implies pairs_map(t)[x]
        == pairs_map(s).insert(k, v)[x] by {
        let q = key_index(t, x);
        lemma_key_index_unique(t, q);
        lemma_key_index_unique(s, q);
        if q != p && x == k {
            lemma_key_index_unique(s, p);
        }
    }
    assert(pairs_map(t) =~= pairs_map(s).insert(k, v));
}

/// Which of two keys comes first.
pub enum KeyOrder {
    Less,
    Equal,
    Greater,
}

/// Compares two keys in the order of `key_less`.
pub fn order_keys(a: &str, b: &str) -> (o: KeyOrder)
    ensures
        (o is Less) == key_less(a@, b@),
        (o is Equal) == (a@ == b@),
        (o is Greater) == key_less(b@, a@),
{
    let x = chars_of(a);
    let y = chars_of(b);
    let mut i: usize = 0;
    proof {
        assert(x@.skip(0) =~= x@);
        assert(y@.skip(0) =~= y@);
    }
    while i < x.len() && i < y.len()
        invariant
            x@ == a@,
            y@ == b@,
            i <= x@.len(),
            i <= y@.len(),
            x@.take(i as int) == y@.take(i as int),
            key_less(a@, b@) == key_less(x@.skip(i as int), y@.skip(i as int)),
            key_less(b@, a@) == key_less(y@.skip(i as int), x@.skip(i as int)),
        decreases x@.len() - i,
    {
        let cx = x[i];
        let cy = y[i];
        assert(x@.skip(i as int)[0] == cx);
        assert(y@.skip(i as int)[0] == cy);
        if cx != cy {
            proof {
                if a@ == b@ {
                    assert(x@[i as int] == y@[i as int]);
                }
            }
            if cx < cy {
                return KeyOrder::Less;
            } else {
                return KeyOrder::Greater;
            }
        }
        assert(x@.skip(i as int).drop_first() =~= x@.skip(i + 1));
        assert(y@.skip(i as int).drop_first() =~= y@.skip(i + 1));
        assert(x@.take(i + 1) =~= x@.take(i as int).push(cx));
        assert(y@.take(i + 1) =~= y@.take(i as int).push(cy));
        i = i + 1;
    }
    if x.len() == y.len() {
        assert(x@ =~= x@.take(i as int));
        assert(y@ =~= y@.take(i as int));
        proof {
            lemma_key_less_irreflexive(a@);
        }
        KeyOrder::Equal
    } else if x.len() < y.len() {
        assert(x@.skip(i as int).len() == 0);
        proof {
            if a@ == b@ {
                assert(x@.len() == y@.len());
            }
        }
        KeyOrder::Less
    } else {
        assert(y@.skip(i as int).len() == 0);
        proof {
            if a@ == b@ {
                assert(x@.len() == y@.len());
            }
        }
        KeyOrder::Greater
    }
}

/// The view of a list of string pairs.
pub open spec fn pair_views(v: Seq<(String, String)>) -> Seq<(Seq<char>, Seq<char>)> {
    v.map_values(|e: (String, String)| (e.0@, e.1@))
}

/// Option names mapped to option values, in ascending key order.
pub struct ConfigMap {
    entries: Vec<(String, String)>,
}

impl View for ConfigMap {
    type V = Seq<(Seq<char>, Seq<char>)>;

    closed spec fn view(&self) -> Seq<(Seq<char>, Seq<char>)> {
        pair_views(self.entries@)
    }
}

impl ConfigMap {
    #[verifier::type_invariant]
    closed spec fn ascending(self) -> bool {
        keys_ascending(self@)
    }

    /// The entries read as a map from key to value.
    pub open spec fn as_map(&self) -> Map<Seq<char>, Seq<char>> {
        pairs_map(self@)
    }

    /// An empty map.
    pub fn new() -> (m: ConfigMap)
        ensures
            m@ == Seq::<(Seq<char>, Seq<char>)>::empty(),
            m.as_map() == Map::<Seq<char>, Seq<char>>::empty(),
            keys_ascending(m@),
    {
        let m = ConfigMap { entries: Vec::new() };
        assert(m@ =~= Seq::<(Seq<char>, Seq<char>)>::empty());
        assert(m.as_map() =~= Map::<Seq<char>, Seq<char>>::empty());
        m
    }

    /// The number of entries.
    pub fn len(&self) -> (n: usize)
        ensures
            n == self@.len(),
            n == self.as_map().len(),
    {
        proof {
            use_type_invariant(self);
            self.lemma_map_len();
        }
        self.entries.len()
    }

    proof fn lemma_map_len(&self)
        requires
            keys_ascending(self@),
        ensures
            self.as_map().len() == self@.len(),
    {
        let s = self@;
        let keys = Seq::new(s.len(), |i: int| s[i].0);
        assert(keys.no_duplicates()) by {
            assert forall|i: int, j: int| 0 <= i < keys.len() && 0 <= j < keys.len() && i != j
                implies keys[i] != keys[j] by {
                if i < j {
                    assert(key_less(s[i].0, s[j].0));
                } else {
                    assert(key_less(s[j].0, s[i].0));
                }
                lemma_key_less_irreflexive(keys[i]);
            }
        }
        assert(self.as_map().dom() =~= keys.to_set()) by {
            assert forall|x: Seq<char>| #[trigger] keys.to_set().contains(x) implies has_key(s, x) by {
                let i = choose|i: int| 0 <= i < keys.len() && keys[i] == x;
                assert(s[i].0 == x);
            }
            assert forall|x: Seq<char>| has_key(s, x) implies #[trigger] keys.to_set().contains(x) by {
                let i = key_index(s, x);
                assert(keys[i] == x);
            }
        }
        keys.unique_seq_to_set();
    }

    /// Sets `key` to `value`, replacing any earlier value of `key`.
    pub fn insert(&mut self, key: String, value: String)
        ensures
            final(self).as_map() == old(self).as_map().insert(key@, value@),
            keys_ascending(final(self)@),
    {
        proof {
            use_type_invariant(&*self);
        }
        let mut entries: Vec<(String, String)> = Vec::new();
        std::mem::swap(&mut entries, &mut self.entries);
        let ghost before = pair_views(entries@);
        assert(before == old(self)@);
        let n = entries.len();
        let mut i: usize = 0;
        while i < n
            invariant
                n == entries@.len(),
                i <= n,
                pair_views(entries@) == before,
                before == old(self)@,
                keys_ascending(before),
                forall|j: int| 0 <= j < i ==> key_less(#[trigger] before[j].0, key@),
            decreases n - i,
        {
            assert(before[i as int].0 == entries@[i as int].0@);
            match order_keys(entries[i].0.as_str(), key.as_str()) {
                KeyOrder::Less => {
                    i = i + 1;
                },
                KeyOrder::Equal => {
                    proof {
                        lemma_replace_value(before, i as int, value@);
                    }
                    let k = entries[i].0.clone();
                    entries.set(i, (k, value));
                    assert(pair_views(entries@) =~= before.update(
                        i as int,
                        (before[i as int].0, value@),
                    ));
                    self.entries = entries;
                    assert(self@ == before.update(i as int, (before[i as int].0, value@)));
                    assert(before[i as int].0 == key@);
                    return ;
                },
                KeyOrder::Greater => {
                    proof {
                        lemma_insert_new_key(before, i as int, key@, value@);
                    }
                    entries.insert(i, (key, value));
                    assert(pair_views(entries@) =~= before.insert(i as int, (key@, value@)));
                    self.entries = entries;
                    assert(self@ == before.insert(i as int, (key@, value@)));
                    return ;
                },
            }
        }
        proof {
            lemma_insert_new_key(before, n as int, key@, value@);
        }
        entries.push((key, value));
        assert(pair_views(entries@) =~= before.insert(n as int, (key@, value@)));
        self.entries = entries;
    }

    /// The value stored for `key`, if any.
    pub fn get(&self, key: &str) -> (r: Option<&String>)
        ensures
            match r {
                Some(v) => self.as_map().contains_key(key@) && v@ == self.as_map()[key@],
                None => !self.as_map().contains_key(key@),
            },
    {
        proof {
            use_type_invariant(self);
        }
        let n = self.entries.len();
        let mut i: usize = 0;
        while i < n
            invariant
                n == self@.len(),
                i <= n,
                keys_ascending(self@),
                forall|j: int| 0 <= j < i ==> #[trigger] self@[j].0 != key@,
            decreases n - i,
        {
            assert(self@[i as int].0 == self.entries@[i as int].0@);
            match order_keys(self.entries[i].0.as_str(), key) {
                KeyOrder::Equal => {
                    proof {
                        lemma_key_index_unique(self@, i as int);
                    }
                    assert(self@[i as int].1 == self.entries@[i as int].1@);
                    return Some(&self.entries[i].1);
                },
                _ => {
                    i = i + 1;
                },
            }
        }
        assert(!has_key(self@, key@));
        None
    }

    /// The entries as `(key, value)` pairs, in ascending key order.
    pub fn into_pairs(self) -> (v: Vec<(String, String)>)
        ensures
            pair_views(v@) == self@,
            keys_ascending(pair_views(v@)),
    {
        proof {
            use_type_invariant(&self);
        }
        let ghost whole = self@;
        let ConfigMap { entries } = self;
        assert(pair_views(entries@) == whole);
        entries
    }
}

} // verus!
