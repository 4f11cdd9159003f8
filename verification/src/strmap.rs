//! A string-keyed map kept as a vector of entries in insertion order.
//! Lookups scan for the first matching key; insertion overwrites in place, so
//! well-formed maps have unique keys while iteration order stays meaningful.
use vstd::prelude::*;

verus! {

/// A map from string keys to values, in insertion order.
#[derive(Debug, PartialEq)]
pub struct StrMap<V> {
    pub entries: Vec<(String, V)>,
}

/// The value of the first entry of `es` whose key reads `key`, if any.
pub open spec fn seq_get<V>(es: Seq<(String, V)>, key: Seq<char>) -> Option<V>
    decreases es.len(),
{
    if es.len() == 0 {
        None
    } else if es[0].0@ == key {
        Some(es[0].1)
    } else {
        seq_get(es.drop_first(), key)
    }
}

/// The index of the first entry of `es` whose key reads `key`, if any.
pub open spec fn first_key_index<V>(es: Seq<(String, V)>, key: Seq<char>) -> Option<int>
    decreases es.len(),
{
    if es.len() == 0 {
        None
    } else if es[0].0@ == key {
        Some(0)
    } else {
        match first_key_index(es.drop_first(), key) {
            Some(j) => Some(j + 1),
            None => None,
        }
    }
}

impl<V> StrMap<V> {
    /// Keys are unique: no two entries read the same.
    pub open spec fn wf(self) -> bool {
        forall|i: int, j: int|
            0 <= i < j < self.entries@.len() ==> #[trigger] self.entries@[i].0@
                != #[trigger] self.entries@[j].0@
    }

    /// The value stored under `key`, if any.
    pub open spec fn spec_get(self, key: Seq<char>) -> Option<V> {
        seq_get(self.entries@, key)
    }

    /// The empty map.
    pub fn new() -> (r: StrMap<V>)
        ensures
            r.wf(),
            r.entries@.len() == 0,
            forall|q: Seq<char>| r.spec_get(q) is None,
    {
        let r = StrMap { entries: Vec::new() };
        proof {
            assert forall|q: Seq<char>| r.spec_get(q) is None by {
                assert(r.entries@.len() == 0);
            }
        }
        r
    }

    /// Looks `key` up, returning a reference to the first matching value.
    pub fn get(&self, key: &String) -> (r: Option<&V>)
        ensures
            match r {
                Some(v) => self.spec_get(key@) == Some(*v),
                None => self.spec_get(key@) is None,
            },
    {
        let n = self.entries.len();
        let mut i: usize = 0;
        while i < n
            invariant
                i <= n,
                n == self.entries@.len(),
                forall|j: int| 0 <= j < i ==> self.entries@[j].0@ != key@,
            decreases n - i,
        {
            if self.entries[i].0.eq(key) {
                proof {
                    lemma_seq_get_first_match(self.entries@, key@, i as int);
                }
                return Some(&self.entries[i].1);
            }
            i = i + 1;
        }
        proof {
            lemma_seq_get_no_match(self.entries@, key@);
        }
        None
    }

    /// Inserts `value` under `key`. An existing entry with the same key is
    /// overwritten in place; otherwise the entry is appended, so the newest
    /// binding always wins.
    pub fn insert(&mut self, key: String, value: V)
        requires
            old(self).wf(),
        ensures
            final(self).wf(),
            final(self).spec_get(key@) == Some(value),
            forall|q: Seq<char>| q != key@ ==> final(self).spec_get(q) == old(self).spec_get(q),
            final(self).entries@.len() <= old(self).entries@.len() + 1,
            forall|i: int|
                0 <= i < final(self).entries@.len() ==> ((final(self).entries@[i].0@ == key@
                    && final(self).entries@[i].1 == value) || (exists|j: int|
                    0 <= j < old(self).entries@.len() && final(self).entries@[i] == old(
                        self,
                    ).entries@[j])),
            match first_key_index(old(self).entries@, key@) {
                Some(j) => final(self).entries@ == old(self).entries@.update(j, (key, value)),
                None => final(self).entries@ == old(self).entries@.push((key, value)),
            },
    {
        let n = self.entries.len();
        let mut i: usize = 0;
        while i < n
            invariant
                i <= n,
                n == self.entries@.len(),
                old(self).wf(),
                self.entries@ == old(self).entries@,
                forall|j: int| 0 <= j < i ==> self.entries@[j].0@ != key@,
            decreases n - i,
        {
            if self.entries[i].0.eq(&key) {
                let ghost old_entries = self.entries@;
                let ghost kv = key@;
                self.entries.set(i, (key, value));
                proof {
                    assert(old_entries[i as int].0@ == kv);
                    lemma_first_key_index_found(old_entries, kv, i as int);
                    assert forall|k: int|
                        0 <= k < self.entries@.len() implies #[trigger] self.entries@[k].0@
                        == old_entries[k].0@ by {
                        if k != i {
                            assert(self.entries@[k] == old_entries[k]);
                        }
                    }
                    assert(old_entries == old(self).entries@);
                    assert forall|a: int, b: int|
                        0 <= a < b < self.entries@.len() implies self.entries@[a].0@
                        != self.entries@[b].0@ by {
                        assert(old(self).wf());
                        assert(old(self).entries@.len() == self.entries@.len());
                        assert(self.entries@[a].0@ == old_entries[a].0@);
                        assert(self.entries@[b].0@ == old_entries[b].0@);
                        assert(0 <= a < b < old(self).entries@.len());
                        assert(old(self).entries@[a].0@ != old(self).entries@[b].0@);
                    }
                    assert(self.wf());
                    lemma_seq_get_first_match(self.entries@, kv, i as int);
                    assert forall|q: Seq<char>| q != kv implies seq_get(self.entries@, q)
                        == seq_get(old_entries, q) by {
                        lemma_seq_get_same_keys(self.entries@, old_entries, q);
                    }
                    assert forall|k: int|
                        0 <= k < self.entries@.len() implies ((#[trigger] self.entries@[k].0@ == kv
                        && self.entries@[k].1 == value) || (exists|j: int|
                        0 <= j < old_entries.len() && self.entries@[k] == old_entries[j])) by {
                        if k != i {
                            assert(self.entries@[k] == old_entries[k]);
                        }
                    }
                }
                return ;
            }
            i = i + 1;
        }
        let ghost old_entries = self.entries@;
        let ghost kv = key@;
        self.entries.push((key, value));
        proof {
            let ghost m = old_entries.len() as int;
            assert(self.entries@[m].0@ == kv);
            lemma_first_key_index_none(old_entries, kv);
            assert forall|a: int, b: int|
                0 <= a < b < self.entries@.len() implies self.entries@[a].0@
                != self.entries@[b].0@ by {
                assert(self.entries@[a] == old_entries[a]);
                assert(old_entries[a].0@ != kv);
                if b < m {
                    assert(self.entries@[b] == old_entries[b]);
                } else {
                    assert(self.entries@[b].0@ == kv);
                }
            }
            lemma_seq_get_first_match(self.entries@, kv, m);
            assert forall|q: Seq<char>| q != kv implies seq_get(self.entries@, q) == seq_get(
                old_entries,
                q,
            ) by {
                assert(self.entries@ =~= old_entries.push(self.entries@[m]));
                lemma_seq_get_push(old_entries, self.entries@[m], q);
            }
        }
    }
}

/// The views of an entry sequence: each key read as characters, each value
/// as its view.
pub open spec fn entries_view<V: View>(es: Seq<(String, V)>) -> Seq<(Seq<char>, V::V)> {
    es.map_values(|e: (String, V)| (e.0@, e.1@))
}

/// The index of the first view-level entry under `key`, if any.
pub open spec fn view_key_index<T>(es: Seq<(Seq<char>, T)>, key: Seq<char>) -> Option<int>
    decreases es.len(),
{
    if es.len() == 0 {
        None
    } else if es[0].0 == key {
        Some(0)
    } else {
        match view_key_index(es.drop_first(), key) {
            Some(j) => Some(j + 1),
            None => None,
        }
    }
}

/// Inserting at the view level: the first entry under `key` is overwritten
/// in place, else the binding is appended — the newest binding wins.
pub open spec fn view_insert<T>(es: Seq<(Seq<char>, T)>, key: Seq<char>, value: T) -> Seq<
    (Seq<char>, T),
> {
    match view_key_index(es, key) {
        Some(j) => es.update(j, (key, value)),
        None => es.push((key, value)),
    }
}

/// The first key index is the same at entry and at view level.
pub(crate) proof fn lemma_key_index_view<V: View>(es: Seq<(String, V)>, key: Seq<char>)
    ensures
        first_key_index(es, key) == view_key_index(entries_view(es), key),
    decreases es.len(),
{
    if es.len() > 0 {
        assert(entries_view(es)[0] == (es[0].0@, es[0].1@));
        assert(entries_view(es).drop_first() =~= entries_view(es.drop_first()));
        lemma_key_index_view(es.drop_first(), key);
    }
}

/// An exact insertion at the entry level is the insertion at the view
/// level.
pub(crate) proof fn lemma_insert_view<V: View>(
    old_es: Seq<(String, V)>,
    new_es: Seq<(String, V)>,
    key: String,
    value: V,
)
    requires
        match first_key_index(old_es, key@) {
            Some(j) => new_es == old_es.update(j, (key, value)),
            None => new_es == old_es.push((key, value)),
        },
    ensures
        entries_view(new_es) == view_insert(entries_view(old_es), key@, value@),
{
    lemma_key_index_view(old_es, key@);
    lemma_first_key_index_props(old_es, key@);
    match first_key_index(old_es, key@) {
        Some(j) => {
            assert(0 <= j < old_es.len());
            assert(new_es == old_es.update(j, (key, value)));
            let lhs = entries_view(new_es);
            let rhs = entries_view(old_es).update(j, (key@, value@));
            assert forall|k: int| 0 <= k < lhs.len() implies lhs[k] == rhs[k] by {
                assert(new_es[k] == old_es.update(j, (key, value))[k]);
                assert(lhs[k] == (new_es[k].0@, new_es[k].1@));
                if k == j {
                    assert(new_es[k] == (key, value));
                } else {
                    assert(new_es[k] == old_es[k]);
                    assert(rhs[k] == (old_es[k].0@, old_es[k].1@));
                }
            }
            assert(lhs =~= rhs);
        },
        None => {
            assert(new_es == old_es.push((key, value)));
            let lhs = entries_view(new_es);
            let rhs = entries_view(old_es).push((key@, value@));
            assert forall|k: int| 0 <= k < lhs.len() implies lhs[k] == rhs[k] by {
                assert(new_es[k] == old_es.push((key, value))[k]);
                assert(lhs[k] == (new_es[k].0@, new_es[k].1@));
                if k == old_es.len() {
                    assert(new_es[k] == (key, value));
                } else {
                    assert(new_es[k] == old_es[k]);
                    assert(rhs[k] == (old_es[k].0@, old_es[k].1@));
                }
            }
            assert(lhs =~= rhs);
        },
    }
}

/// A first key index lies in bounds and holds the key.
proof fn lemma_first_key_index_props<V>(es: Seq<(String, V)>, key: Seq<char>)
    ensures
        first_key_index(es, key) matches Some(j) ==> 0 <= j < es.len() && es[j].0@ == key,
    decreases es.len(),
{
    if es.len() > 0 && es[0].0@ != key {
        lemma_first_key_index_props(es.drop_first(), key);
        match first_key_index(es.drop_first(), key) {
            Some(j) => {
                assert(es.drop_first()[j] == es[j + 1]);
            },
            None => {},
        }
    }
}

/// If index `i` holds the first entry whose key reads `key`, that is the
/// first key index.
proof fn lemma_first_key_index_found<V>(es: Seq<(String, V)>, key: Seq<char>, i: int)
    requires
        0 <= i < es.len(),
        es[i].0@ == key,
        forall|j: int| 0 <= j < i ==> es[j].0@ != key,
    ensures
        first_key_index(es, key) == Some(i),
    decreases i,
{
    if i == 0 {
    } else {
        assert(es.drop_first()[i - 1] == es[i]);
        assert forall|j: int| 0 <= j < i - 1 implies es.drop_first()[j].0@ != key by {
            assert(es.drop_first()[j] == es[j + 1]);
        }
        lemma_first_key_index_found(es.drop_first(), key, i - 1);
    }
}

/// If no entry's key reads `key`, there is no first key index.
proof fn lemma_first_key_index_none<V>(es: Seq<(String, V)>, key: Seq<char>)
    requires
        forall|j: int| 0 <= j < es.len() ==> es[j].0@ != key,
    ensures
        first_key_index(es, key) is None,
    decreases es.len(),
{
    if es.len() > 0 {
        assert forall|j: int| 0 <= j < es.drop_first().len() implies es.drop_first()[j].0@
            != key by {
            assert(es.drop_first()[j] == es[j + 1]);
        }
        lemma_first_key_index_none(es.drop_first(), key);
    }
}

/// Appending an entry with another key leaves a lookup unchanged.
proof fn lemma_seq_get_push<V>(es: Seq<(String, V)>, e: (String, V), q: Seq<char>)
    requires
        e.0@ != q,
    ensures
        seq_get(es.push(e), q) == seq_get(es, q),
    decreases es.len(),
{
    if es.len() == 0 {
        assert(es.push(e)[0] == e);
        assert(es.push(e).drop_first() =~= Seq::<(String, V)>::empty());
        assert(es.push(e).drop_first().len() == 0);
        assert(seq_get(es.push(e).drop_first(), q) is None);
        assert(seq_get(es, q) is None);
    } else {
        assert(es.push(e)[0] == es[0]);
        assert(es.push(e).drop_first() =~= es.drop_first().push(e));
        lemma_seq_get_push(es.drop_first(), e, q);
        if es[0].0@ == q {
            assert(seq_get(es.push(e), q) == Some(es[0].1));
            assert(seq_get(es, q) == Some(es[0].1));
        } else {
            assert(seq_get(es.push(e), q) == seq_get(es.drop_first().push(e), q));
            assert(seq_get(es, q) == seq_get(es.drop_first(), q));
        }
    }
}

/// If index `i` holds the first entry whose key reads `key`, the lookup
/// returns its value.
proof fn lemma_seq_get_first_match<V>(es: Seq<(String, V)>, key: Seq<char>, i: int)
    requires
        0 <= i < es.len(),
        es[i].0@ == key,
        forall|j: int| 0 <= j < i ==> es[j].0@ != key,
    ensures
        seq_get(es, key) == Some(es[i].1),
    decreases i,
{
    if i == 0 {
    } else {
        lemma_seq_get_first_match(es.drop_first(), key, i - 1);
    }
}

/// If no entry's key reads `key`, the lookup returns nothing.
proof fn lemma_seq_get_no_match<V>(es: Seq<(String, V)>, key: Seq<char>)
    requires
        forall|j: int| 0 <= j < es.len() ==> es[j].0@ != key,
    ensures
        seq_get(es, key) is None,
    decreases es.len(),
{
    if es.len() > 0 {
        lemma_seq_get_no_match(es.drop_first(), key);
    }
}

/// Lookups agree on two entry sequences whose keys read the same and whose
/// entries for `q` agree.
proof fn lemma_seq_get_same_keys<V>(es1: Seq<(String, V)>, es2: Seq<(String, V)>, q: Seq<char>)
    requires
        es1.len() == es2.len(),
        forall|j: int| 0 <= j < es1.len() ==> es1[j].0@ == es2[j].0@,
        forall|j: int| 0 <= j < es1.len() && es1[j].0@ == q ==> es1[j].1 == es2[j].1,
    ensures
        seq_get(es1, q) == seq_get(es2, q),
    decreases es1.len(),
{
    if es1.len() > 0 {
        assert(es1[0].0@ == es2[0].0@);
        if es1[0].0@ == q {
        } else {
            lemma_seq_get_same_keys(es1.drop_first(), es2.drop_first(), q);
        }
    }
}

} // verus!
