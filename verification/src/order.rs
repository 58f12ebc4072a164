//! Texts in order, and a map whose keys are texts in order.

use crate::text::{same, texts, to_chars};
use vstd::prelude::*;
use vstd::string::*;

verus! {

/// `a` comes before `b`, character by character; a text comes before those
/// that it begins.
pub open spec fn precedes(a: Seq<char>, b: Seq<char>) -> bool
    decreases a.len(),
{
    if b.len() == 0 {
        false
    } else if a.len() == 0 {
        true
    } else if a[0] != b[0] {
        a[0] < b[0]
    } else {
        precedes(a.drop_first(), b.drop_first())
    }
}

/// Of two texts one comes first, and only one, unless they are equal.
pub proof fn lemma_precedes_total(a: Seq<char>, b: Seq<char>)
    ensures
        a == b ==> !precedes(a, b),
        a != b ==> precedes(a, b) != precedes(b, a),
    decreases a.len(),
{
    if a.len() > 0 && b.len() > 0 && a[0] == b[0] {
        lemma_precedes_total(a.drop_first(), b.drop_first());
        if a.drop_first() == b.drop_first() {
            assert(a =~= seq![a[0]] + a.drop_first());
            assert(b =~= seq![b[0]] + b.drop_first());
        }
    } else if a.len() == 0 && b.len() == 0 {
        assert(a =~= b);
    }
}

pub proof fn lemma_precedes_transitive(a: Seq<char>, b: Seq<char>, c: Seq<char>)
    requires
        precedes(a, b),
        precedes(b, c),
    ensures
        precedes(a, c),
    decreases a.len(),
{
    if a.len() > 0 && a[0] == b[0] && b[0] == c[0] {
        lemma_precedes_transitive(a.drop_first(), b.drop_first(), c.drop_first());
    }
}

/// The texts stand in order, each once.
pub open spec fn in_order(keys: Seq<Seq<char>>) -> bool {
    forall|i: int, j: int| 0 <= i < j < keys.len() ==> precedes(#[trigger] keys[i], #[trigger] keys[j])
}

/// How many of the keys, which stand in order, come before `key`.
pub open spec fn rank(keys: Seq<Seq<char>>, key: Seq<char>) -> nat
    decreases keys.len(),
{
    if keys.len() > 0 && precedes(keys[0], key) {
        1 + rank(keys.drop_first(), key)
    } else {
        0
    }
}

pub proof fn lemma_rank(keys: Seq<Seq<char>>, key: Seq<char>, i: int)
    requires
        in_order(keys),
        0 <= i <= keys.len(),
        forall|j: int| 0 <= j < i ==> precedes(#[trigger] keys[j], key),
        i < keys.len() ==> !precedes(keys[i], key),
    ensures
        rank(keys, key) == i,
    decreases keys.len(),
{
    if i > 0 {
        let rest = keys.drop_first();
        assert forall|j: int| 0 <= j < i - 1 implies precedes(#[trigger] rest[j], key) by {
            assert(rest[j] == keys[j + 1]);
        }
        assert forall|x: int, y: int| 0 <= x < y < rest.len() implies precedes(
            #[trigger] rest[x],
            #[trigger] rest[y],
        ) by {
            assert(rest[x] == keys[x + 1] && rest[y] == keys[y + 1]);
        }
        assert(i < keys.len() ==> rest[i - 1] == keys[i]);
        lemma_rank(rest, key, i - 1);
    }
}

/// The keys with `key` among them, still in order.
pub open spec fn insert_key(keys: Seq<Seq<char>>, key: Seq<char>) -> Seq<Seq<char>> {
    if keys.contains(key) {
        keys
    } else {
        keys.insert(rank(keys, key) as int, key)
    }
}

/// Keys at and behind a place whose key does not come before `key` differ
/// from it, unless the one at that place is it.
proof fn lemma_absent(keys: Seq<Seq<char>>, key: Seq<char>, i: int)
    requires
        in_order(keys),
        0 <= i <= keys.len(),
        forall|j: int| 0 <= j < i ==> precedes(#[trigger] keys[j], key),
        i < keys.len() ==> !precedes(keys[i], key) && keys[i] != key,
    ensures
        !keys.contains(key),
        forall|j: int| i <= j < keys.len() ==> precedes(key, #[trigger] keys[j]),
{
    assert forall|j: int| i <= j < keys.len() implies precedes(key, #[trigger] keys[j]) by {
        lemma_precedes_total(keys[i], key);
        if i < j {
            lemma_precedes_transitive(key, keys[i], keys[j]);
        }
    }
    assert forall|j: int| 0 <= j < keys.len() implies #[trigger] keys[j] != key by {
        lemma_precedes_total(keys[j], key);
        lemma_precedes_total(key, key);
    }
}

/// Whether `a` comes before `b`.
pub fn comes_before(a: &str, b: &str) -> (r: bool)
    ensures
        r == precedes(a@, b@),
{
    let x = to_chars(a);
    let y = to_chars(b);
    let mut i: usize = 0;
    assert(x@.skip(0) =~= x@);
    assert(y@.skip(0) =~= y@);
    while i < x.len() && i < y.len() && x[i] == y[i]
        invariant
            x@ == a@,
            y@ == b@,
            i <= x@.len(),
            i <= y@.len(),
            precedes(a@, b@) == precedes(x@.skip(i as int), y@.skip(i as int)),
        decreases x@.len() - i,
    {
        assert(x@.skip(i as int).drop_first() =~= x@.skip(i + 1));
        assert(y@.skip(i as int).drop_first() =~= y@.skip(i + 1));
        i = i + 1;
    }
    if i < y.len() {
        i == x.len() || x[i] < y[i]
    } else {
        false
    }
}

/// A map from texts, kept in the order of its keys.
pub struct TextMap<V> {
    entries: Vec<(String, V)>,
}

pub open spec fn entry_keys<V>(entries: Seq<(String, V)>) -> Seq<Seq<char>> {
    Seq::new(entries.len(), |i: int| entries[i].0@)
}

/// The map that a list of entries, each key once, stands for.
pub open spec fn entry_map<V>(entries: Seq<(String, V)>) -> Map<Seq<char>, V> {
    Map::new(
        |k: Seq<char>| entry_keys(entries).contains(k),
        |k: Seq<char>| entries[entry_keys(entries).index_of(k)].1,
    )
}

impl<V> View for TextMap<V> {
    type V = Map<Seq<char>, V>;

    closed spec fn view(&self) -> Map<Seq<char>, V> {
        entry_map(self.entries@)
    }
}

proof fn lemma_entry_at<V>(entries: Seq<(String, V)>, i: int)
    requires
        in_order(entry_keys(entries)),
        0 <= i < entries.len(),
    ensures
        entry_map(entries).dom().contains(entries[i].0@),
        entry_map(entries)[entries[i].0@] == entries[i].1,
{
    let keys = entry_keys(entries);
    assert(keys[i] == entries[i].0@);
    let j = keys.index_of(keys[i]);
    assert(keys.contains(keys[i]));
    if j != i {
        lemma_apart(keys, i, j);
    }
}

proof fn lemma_apart(keys: Seq<Seq<char>>, i: int, j: int)
    requires
        in_order(keys),
        0 <= i < keys.len(),
        0 <= j < keys.len(),
        i != j,
    ensures
        keys[i] != keys[j],
{
    if i < j {
        lemma_precedes_total(keys[i], keys[j]);
    } else {
        lemma_precedes_total(keys[j], keys[i]);
    }
}

proof fn lemma_same_map<V>(entries: Seq<(String, V)>, m: Map<Seq<char>, V>)
    requires
        in_order(entry_keys(entries)),
        forall|j: int|
            0 <= j < entries.len() ==> m.dom().contains((#[trigger] entries[j]).0@)
                && m[entries[j].0@] == entries[j].1,
        forall|k: Seq<char>|
            m.dom().contains(k) ==> #[trigger] entry_keys(entries).contains(k),
    ensures
        entry_map(entries) == m,
{
    let keys = entry_keys(entries);
    assert forall|k: Seq<char>| keys.contains(k) implies m.dom().contains(k) && #[trigger] m[k]
        == entries[keys.index_of(k)].1 by {
        let j = keys.index_of(k);
        assert(entries[j].0@ == k);
    }
    assert(entry_map(entries) =~= m);
}

impl<V> TextMap<V> {
    #[verifier::type_invariant]
    spec fn ordered(self) -> bool {
        in_order(entry_keys(self.entries@))
    }

    pub fn new() -> (r: TextMap<V>)
        ensures
            r@ == Map::<Seq<char>, V>::empty(),
    {
        let r = TextMap { entries: Vec::new() };
        assert(r@ =~= Map::<Seq<char>, V>::empty());
        r
    }

    /// The place of the first key that does not come before `key`.
    fn place(&self, key: &str) -> (r: usize)
        ensures
            r <= self.entries@.len(),
            forall|j: int| 0 <= j < r ==> precedes(#[trigger] entry_keys(self.entries@)[j], key@),
            r < self.entries@.len() ==> !precedes(self.entries@[r as int].0@, key@),
    {
        let mut i: usize = 0;
        while i < self.entries.len() && comes_before(self.entries[i].0.as_str(), key)
            invariant
                i <= self.entries@.len(),
                forall|j: int|
                    0 <= j < i ==> precedes(#[trigger] entry_keys(self.entries@)[j], key@),
            decreases self.entries@.len() - i,
        {
            i = i + 1;
        }
        i
    }

    /// What the map holds under `key`.
    pub fn get(&self, key: &str) -> (r: Option<&V>)
        ensures
            r == (if self@.dom().contains(key@) {
                Some(&self@[key@])
            } else {
                None
            }),
    {
        proof {
            use_type_invariant(self);
        }
        let i: usize = self.place(key);
        if i < self.entries.len() && same(self.entries[i].0.as_str(), key) {
            proof {
                lemma_entry_at(self.entries@, i as int);
            }
            Some(&self.entries[i].1)
        } else {
            proof {
                lemma_absent(entry_keys(self.entries@), key@, i as int);
            }
            None
        }
    }

    /// Puts `value` under `key`, in place of what was there.
    pub fn insert(&mut self, key: &str, value: V)
        ensures
            final(self)@ == old(self)@.insert(key@, value),
    {
        proof {
            use_type_invariant(&*self);
        }
        let i: usize = self.place(key);
        let found = i < self.entries.len() && same(self.entries[i].0.as_str(), key);
        let ghost before = self.entries@;
        let mut entries: Vec<(String, V)> = Vec::new();
        std::mem::swap(&mut entries, &mut self.entries);
        if found {
            entries.set(i, (key.to_owned(), value));
            proof {
                assert(entry_keys(entries@) =~= entry_keys(before));
            }
        } else {
            entries.insert(i, (key.to_owned(), value));
            proof {
                lemma_absent(entry_keys(before), key@, i as int);
                lemma_inserted(entry_keys(before), key@, i as int);
                assert(entry_keys(entries@) =~= entry_keys(before).insert(i as int, key@));
            }
        }
        proof {
            let n = entry_map(before).insert(key@, value);
            let keys = entry_keys(entries@);
            assert forall|j: int| 0 <= j < entries@.len() implies n.dom().contains(
                (#[trigger] entries@[j]).0@,
            ) && n[entries@[j].0@] == entries@[j].1 by {
                if j != i {
                    let b = if found || j < i {
                        j
                    } else {
                        j - 1
                    };
                    assert(before[b] == entries@[j]);
                    lemma_entry_at(before, b);
                    lemma_apart(keys, i as int, j);
                }
            }
            assert forall|k: Seq<char>| n.dom().contains(k) implies #[trigger] keys.contains(k) by {
                if k == key@ {
                    assert(keys[i as int] == k);
                } else {
                    let b = entry_keys(before).index_of(k);
                    let j = if found || b < i {
                        b
                    } else {
                        b + 1
                    };
                    assert(entries@[j] == before[b]);
                    assert(keys[j] == k);
                }
            }
            lemma_same_map(entries@, n);
        }
        self.entries = entries;
    }

    /// Takes `key` out of the map, with what it held.
    pub fn remove(&mut self, key: &str) -> (r: Option<V>)
        ensures
            final(self)@ == old(self)@.remove(key@),
            r == (if old(self)@.dom().contains(key@) {
                Some(old(self)@[key@])
            } else {
                None
            }),
    {
        proof {
            use_type_invariant(&*self);
        }
        let i: usize = self.place(key);
        let ghost before = self.entries@;
        if i < self.entries.len() && same(self.entries[i].0.as_str(), key) {
            let mut entries: Vec<(String, V)> = Vec::new();
            std::mem::swap(&mut entries, &mut self.entries);
            let taken = entries.remove(i);
            proof {
                let keys = entry_keys(entries@);
                assert(entries@ =~= before.remove(i as int));
                assert forall|x: int, y: int| 0 <= x < y < keys.len() implies precedes(
                    #[trigger] keys[x],
                    #[trigger] keys[y],
                ) by {
                    let bx = if x < i {
                        x
                    } else {
                        x + 1
                    };
                    let by_ = if y < i {
                        y
                    } else {
                        y + 1
                    };
                    assert(keys[x] == entry_keys(before)[bx] && keys[y] == entry_keys(before)[by_]);
                }
                lemma_entry_at(before, i as int);
                let n = entry_map(before).remove(key@);
                assert forall|j: int| 0 <= j < entries@.len() implies n.dom().contains(
                    (#[trigger] entries@[j]).0@,
                ) && n[entries@[j].0@] == entries@[j].1 by {
                    let b = if j < i {
                        j
                    } else {
                        j + 1
                    };
                    assert(before[b] == entries@[j]);
                    lemma_entry_at(before, b);
                    lemma_apart(entry_keys(before), i as int, b);
                }
                assert forall|k: Seq<char>| n.dom().contains(k) implies #[trigger] keys.contains(
                    k,
                ) by {
                    let b = entry_keys(before).index_of(k);
                    assert(entry_keys(before)[i as int] == key@);
                    let j = if b < i {
                        b
                    } else {
                        b - 1
                    };
                    assert(entries@[j] == before[b]);
                    assert(keys[j] == k);
                }
                lemma_same_map(entries@, n);
            }
            self.entries = entries;
            Some(taken.1)
        } else {
            proof {
                lemma_absent(entry_keys(self.entries@), key@, i as int);
                assert(self@ =~= self@.remove(key@));
            }
            None
        }
    }

    /// How many keys the map has.
    pub fn len(&self) -> (r: usize)
        ensures
            r == self@.dom().len(),
    {
        proof {
            use_type_invariant(self);
            let keys = entry_keys(self.entries@);
            assert forall|i: int, j: int| 0 <= i < keys.len() && 0 <= j < keys.len() && i != j implies keys[i]
                != keys[j] by {
                lemma_apart(keys, i, j);
            }
            keys.unique_seq_to_set();
            assert(self@.dom() =~= keys.to_set());
        }
        self.entries.len()
    }

    pub fn is_empty(&self) -> (r: bool)
        ensures
            r == (self@ == Map::<Seq<char>, V>::empty()),
    {
        proof {
            use_type_invariant(self);
            if self.entries@.len() > 0 {
                lemma_entry_at(self.entries@, 0);
            } else {
                assert(self@ =~= Map::<Seq<char>, V>::empty());
            }
        }
        self.entries.len() == 0
    }

    /// The entries in the order of their keys.
    pub fn entries(&self) -> (r: &Vec<(String, V)>)
        ensures
            in_order(entry_keys(r@)),
            self@ == entry_map(r@),
    {
        proof {
            use_type_invariant(self);
        }
        &self.entries
    }
}

proof fn lemma_inserted(keys: Seq<Seq<char>>, key: Seq<char>, i: int)
    requires
        in_order(keys),
        0 <= i <= keys.len(),
        forall|j: int| 0 <= j < i ==> precedes(#[trigger] keys[j], key),
        forall|j: int| i <= j < keys.len() ==> precedes(key, #[trigger] keys[j]),
    ensures
        in_order(keys.insert(i, key)),
{
    let after = keys.insert(i, key);
    assert forall|x: int, y: int| 0 <= x < y < after.len() implies precedes(
        #[trigger] after[x],
        #[trigger] after[y],
    ) by {
        if x < i {
            assert(after[x] == keys[x]);
        } else if x > i {
            assert(after[x] == keys[x - 1]);
        }
        if y < i {
            assert(after[y] == keys[y]);
        } else if y > i {
            assert(after[y] == keys[y - 1]);
        }
    }
}

/// Adding a key keeps the keys in order, and holds what was there and the key.
pub proof fn law_insert_key(keys: Seq<Seq<char>>, key: Seq<char>)
    requires
        in_order(keys),
    ensures
        in_order(insert_key(keys, key)),
        forall|k: Seq<char>| insert_key(keys, key).contains(k) == (keys.contains(k) || k == key),
{
    if !keys.contains(key) {
        let i = lemma_rank_place(keys, key);
        lemma_absent(keys, key, i);
        lemma_rank(keys, key, i);
        lemma_inserted(keys, key, i);
        let after = keys.insert(i, key);
        assert forall|k: Seq<char>| after.contains(k) == (keys.contains(k) || k == key) by {
            assert(after[i] == key);
            if keys.contains(k) {
                let j = keys.index_of(k);
                if j < i {
                    assert(after[j] == k);
                } else {
                    assert(after[j + 1] == k);
                }
            }
            if after.contains(k) {
                let j = after.index_of(k);
                if j < i {
                    assert(keys[j] == k);
                } else if j > i {
                    assert(keys[j - 1] == k);
                }
            }
        }
    }
}

/// The place where `key` belongs.
proof fn lemma_rank_place(keys: Seq<Seq<char>>, key: Seq<char>) -> (i: int)
    requires
        in_order(keys),
        !keys.contains(key),
    ensures
        0 <= i <= keys.len(),
        forall|j: int| 0 <= j < i ==> precedes(#[trigger] keys[j], key),
        i < keys.len() ==> !precedes(keys[i], key) && keys[i] != key,
    decreases keys.len(),
{
    if keys.len() == 0 {
        0
    } else if !precedes(keys.last(), key) {
        let rest = keys.drop_last();
        let i = lemma_rank_place(rest, key);
        assert(i < rest.len() ==> rest[i] == keys[i]);
        assert forall|j: int| 0 <= j < i implies precedes(#[trigger] keys[j], key) by {
            assert(rest[j] == keys[j]);
        }
        i
    } else {
        let n = keys.len() as int;
        assert forall|j: int| 0 <= j < n implies precedes(#[trigger] keys[j], key) by {
            if j < n - 1 {
                lemma_precedes_transitive(keys[j], keys[n - 1], key);
            }
        }
        n
    }
}

/// Adds `key` to keys that stand in order.
pub fn add_key(keys: &mut Vec<String>, key: &str)
    requires
        in_order(texts(old(keys)@)),
    ensures
        texts(final(keys)@) == insert_key(texts(old(keys)@), key@),
        in_order(texts(final(keys)@)),
{
    let ghost before = texts(keys@);
    let mut i: usize = 0;
    while i < keys.len() && comes_before(keys[i].as_str(), key)
        invariant
            i <= keys@.len(),
            texts(keys@) == before,
            forall|j: int| 0 <= j < i ==> precedes(#[trigger] before[j], key@),
        decreases keys@.len() - i,
    {
        i = i + 1;
    }
    proof {
        law_insert_key(before, key@);
    }
    if i < keys.len() && same(keys[i].as_str(), key) {
        assert(before[i as int] == key@);
    } else {
        proof {
            lemma_absent(before, key@, i as int);
            lemma_rank(before, key@, i as int);
        }
        keys.insert(i, key.to_owned());
        assert(texts(keys@) =~= before.insert(i as int, key@));
    }
}

/// Where two texts differ first decides which comes first, by code point; a
/// text comes before what it begins.
pub proof fn law_first_difference_decides(a: Seq<char>, b: Seq<char>, i: int)
    requires
        0 <= i <= a.len(),
        i <= b.len(),
        forall|j: int| 0 <= j < i ==> a[j] == b[j],
        i < a.len() && i < b.len() ==> a[i] != b[i],
    ensures
        i < a.len() && i < b.len() ==> (precedes(a, b) <==> (a[i] as int) < (b[i] as int)),
        i == a.len() ==> (precedes(a, b) <==> a.len() < b.len()),
        i == b.len() ==> !precedes(a, b),
    decreases a.len(),
{
    if i > 0 {
        assert(a[0] == b[0]);
        let x = a.drop_first();
        let y = b.drop_first();
        assert forall|j: int| 0 <= j < i - 1 implies x[j] == y[j] by {
            assert(x[j] == a[j + 1] && y[j] == b[j + 1]);
        }
        law_first_difference_decides(x, y, i - 1);
    }
}

/// Keys are in order exactly where each comes before every later one, and a key's
/// rank in such a list is the number of keys before it.
pub proof fn law_order_of_keys(keys: Seq<Seq<char>>, key: Seq<char>, i: int, j: int)
    ensures
        in_order(keys) && 0 <= i < j < keys.len() ==> precedes(keys[i], keys[j]),
        (forall|a: int, b: int|
            0 <= a < b < keys.len() ==> precedes(#[trigger] keys[a], #[trigger] keys[b]))
            ==> in_order(keys),
        rank(keys, key) <= keys.len(),
        0 <= i < rank(keys, key) ==> precedes(keys[i], key),
        rank(keys, key) < keys.len() ==> !precedes(keys[rank(keys, key) as int], key),
    decreases keys.len(),
{
    if keys.len() > 0 && precedes(keys[0], key) {
        law_order_of_keys(keys.drop_first(), key, i - 1, j - 1);
    }
}

} // verus!
