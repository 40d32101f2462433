//! A map from text keys to values, kept as a list sorted by key.

use vstd::prelude::*;

use crate::entries::{
    entries_map, find_id, has_id, lemma_map_at, lemma_map_insert, lemma_map_update,
    lemma_sorted_insert, lemma_sorted_unique, list_contains, list_has, sorted_ids, sorted_keys,
    sorted_position, unique_ids,
};
use crate::text::{lemma_text_order_equal, text_order};

verus! {

/// The keys named by `list`.
pub open spec fn key_set(list: Seq<String>) -> Set<Seq<char>> {
    Set::new(|x: Seq<char>| list_has(list, x))
}

/// The keyed pairs of `es`, keys taken as text.
pub open spec fn keyed<V>(es: Seq<(String, V)>) -> Seq<(Seq<char>, V)> {
    es.map_values(|e: (String, V)| (e.0@, e.1))
}

pub proof fn lemma_keyed_sorted<V>(es: Seq<(String, V)>)
    ensures
        sorted_keys(es) <==> sorted_ids(keyed(es)),
{
    let ks = keyed(es);
    if sorted_keys(es) {
        assert forall|i: int, j: int| 0 <= i < j < ks.len() implies text_order(
            (#[trigger] ks[i]).0,
            (#[trigger] ks[j]).0,
        ) < 0 by {
            assert(text_order(es[i].0@, es[j].0@) < 0);
        }
    }
    if sorted_ids(ks) {
        assert forall|i: int, j: int| 0 <= i < j < es.len() implies text_order(
            (#[trigger] es[i]).0@,
            (#[trigger] es[j]).0@,
        ) < 0 by {
            assert(ks[i].0 == es[i].0@);
            assert(ks[j].0 == es[j].0@);
        }
    }
}

/// Values by text key, each key at most once.
#[derive(Debug)]
pub struct KeyedStore<V> {
    entries: Vec<(String, V)>,
}

impl<V> KeyedStore<V> {
    #[verifier::type_invariant]
    spec fn wf(&self) -> bool {
        sorted_keys(self.entries@)
    }

    /// The stored values by key.
    pub closed spec fn view(&self) -> Map<Seq<char>, V> {
        entries_map(keyed(self.entries@))
    }

    /// Creates an empty store.
    pub fn new() -> (r: KeyedStore<V>)
        ensures
            r@ == Map::<Seq<char>, V>::empty(),
    {
        let r = KeyedStore { entries: Vec::new() };
        assert(r@ =~= Map::<Seq<char>, V>::empty());
        r
    }

    /// Stores `value` under `key`, replacing any value stored there.
    pub fn insert(&mut self, key: String, value: V)
        ensures
            final(self)@ == old(self)@.insert(key@, value),
    {
        proof {
            use_type_invariant(&*self);
            lemma_keyed_sorted(self.entries@);
            lemma_sorted_unique(keyed(self.entries@));
        }
        let ghost es = keyed(self.entries@);
        let mut entries: Vec<(String, V)> = Vec::new();
        std::mem::swap(&mut entries, &mut self.entries);
        assert(keyed(entries@) == es);
        match find_id(&entries, key.as_str()) {
            Some(i) => {
                let ghost k = key@;
                entries.set(i, (key, value));
                proof {
                    lemma_map_update(es, i as int, value);
                    assert(keyed(entries@) =~= es.update(i as int, (es[i as int].0, value)));
                    lemma_keyed_sorted(entries@);
                    assert(sorted_ids(keyed(entries@))) by {
                        let ns = keyed(entries@);
                        assert forall|a: int, b: int| 0 <= a < b < ns.len() implies text_order(
                            (#[trigger] ns[a]).0,
                            (#[trigger] ns[b]).0,
                        ) < 0 by {
                            assert(ns[a].0 == es[a].0);
                            assert(ns[b].0 == es[b].0);
                        }
                    }
                    lemma_keyed_sorted(entries@);
                }
            },
            None => {
                let p = sorted_position(&entries, key.as_str());
                proof {
                    assert forall|j: int| p <= j < es.len() implies text_order(
                        (#[trigger] es[j]).0,
                        key@,
                    ) > 0 by {
                        assert(es[j].0 == entries@[j].0@);
                        lemma_text_order_equal(entries@[j].0@, key@);
                    }
                    assert forall|j: int| 0 <= j < p implies text_order(
                        (#[trigger] es[j]).0,
                        key@,
                    ) < 0 by {
                        assert(es[j].0 == entries@[j].0@);
                    }
                    assert(!has_id(es, key@)) by {
                        if has_id(es, key@) {
                            let j = choose|j: int| 0 <= j < es.len() && (#[trigger] es[j]).0 == key@;
                            assert(es[j].0 == entries@[j].0@);
                        }
                    }
                    lemma_map_insert(es, p as int, key@, value);
                    lemma_sorted_insert(es, p as int, key@, value);
                }
                let ghost k = key@;
                entries.insert(p, (key, value));
                proof {
                    assert(keyed(entries@) =~= es.insert(p as int, (k, value)));
                    lemma_keyed_sorted(entries@);
                }
            },
        }
        self.entries = entries;
    }

    /// The value stored under `key`, if any.
    pub fn get(&self, key: &str) -> (r: Option<&V>)
        ensures
            match r {
                Some(v) => self@.contains_key(key@) && self@[key@] == *v,
                None => !self@.contains_key(key@),
            },
    {
        proof {
            use_type_invariant(self);
            lemma_keyed_sorted(self.entries@);
            lemma_sorted_unique(keyed(self.entries@));
        }
        let ghost es = keyed(self.entries@);
        match find_id(&self.entries, key) {
            Some(i) => {
                proof {
                    lemma_map_at(es, i as int);
                }
                Some(&self.entries[i].1)
            },
            None => {
                assert(!has_id(es, key@)) by {
                    if has_id(es, key@) {
                        let j = choose|j: int| 0 <= j < es.len() && (#[trigger] es[j]).0 == key@;
                        assert(es[j].0 == self.entries@[j].0@);
                    }
                }
                None
            },
        }
    }

    /// The stored pairs in key order.
    pub closed spec fn spec_entries(&self) -> Seq<(String, V)> {
        self.entries@
    }

    /// Stores every value of `other`, replacing values stored under the same keys.
    pub fn extend(&mut self, other: KeyedStore<V>)
        ensures
            final(self)@ == old(self)@.union_prefer_right(other@),
    {
        let ghost base = self@;
        let ghost target = other@;
        let entries = other.into_entries();
        let ghost es = entries@;
        proof {
            lemma_keyed_sorted(es);
            lemma_sorted_unique(keyed(es));
        }
        let mut pending = entries;
        let ghost mut k: int = 0;
        assert(keyed(es).take(0) =~= Seq::<(Seq<char>, V)>::empty());
        assert(entries_map(keyed(es).take(0)) =~= Map::<Seq<char>, V>::empty());
        assert(base.union_prefer_right(Map::<Seq<char>, V>::empty()) =~= base);
        while pending.len() > 0
            invariant
                0 <= k <= es.len(),
                pending@ == es.skip(k),
                unique_ids(keyed(es)),
                entries_map(keyed(es)) == target,
                self@ == base.union_prefer_right(entries_map(keyed(es).take(k))),
            decreases pending@.len(),
        {
            let (key, value) = pending.remove(0);
            assert((key, value) == es[k]);
            let ghost ks = keyed(es);
            proof {
                assert(ks.take(k + 1) =~= ks.take(k).insert(k, (key@, value)));
                assert(unique_ids(ks.take(k))) by {
                    assert forall|a: int, b: int| 0 <= a < ks.take(k).len() && 0 <= b < ks.take(k).len() && a != b
                        implies (#[trigger] ks.take(k)[a]).0 != (#[trigger] ks.take(k)[b]).0 by {
                        assert(ks.take(k)[a] == ks[a]);
                        assert(ks.take(k)[b] == ks[b]);
                    }
                }
                assert(!has_id(ks.take(k), key@)) by {
                    if has_id(ks.take(k), key@) {
                        let i = choose|i: int| 0 <= i < ks.take(k).len() && (#[trigger] ks.take(k)[i]).0 == key@;
                        assert(ks[i].0 == ks[k].0);
                    }
                }
                lemma_map_insert(ks.take(k), k, key@, value);
            }
            let ghost before = self@;
            self.insert(key, value);
            proof {
                assert(self@ =~= base.union_prefer_right(entries_map(ks.take(k + 1))));
                k = k + 1;
            }
            assert(pending@ =~= es.skip(k));
        }
        assert(keyed(es).take(es.len() as int) =~= keyed(es));
    }

    /// The stored pairs in key order.
    pub fn entries(&self) -> (r: &Vec<(String, V)>)
        ensures
            r@ == self.spec_entries(),
            sorted_keys(r@),
            entries_map(keyed(r@)) == self@,
    {
        proof {
            use_type_invariant(self);
        }
        &self.entries
    }

    /// Takes out the value stored under `key`, if any.
    pub fn remove(&mut self, key: &str) -> (r: Option<V>)
        ensures
            match r {
                Some(v) => old(self)@.contains_key(key@) && old(self)@[key@] == v && final(self)@
                    == old(self)@.remove(key@),
                None => !old(self)@.contains_key(key@) && final(self)@ == old(self)@,
            },
    {
        proof {
            use_type_invariant(&*self);
            lemma_keyed_sorted(self.entries@);
            lemma_sorted_unique(keyed(self.entries@));
        }
        let ghost es = keyed(self.entries@);
        match find_id(&self.entries, key) {
            Some(i) => {
                proof {
                    lemma_map_at(es, i as int);
                }
                let mut entries: Vec<(String, V)> = Vec::new();
                std::mem::swap(&mut entries, &mut self.entries);
                assert(keyed(entries@) == es);
                let (_k, v) = entries.remove(i);
                proof {
                    let ns = keyed(entries@);
                    assert(ns =~= es.remove(i as int));
                    assert forall|a: int, b: int| 0 <= a < b < ns.len() implies text_order(
                        (#[trigger] ns[a]).0,
                        (#[trigger] ns[b]).0,
                    ) < 0 by {
                        let a0 = if a < i { a } else { a + 1 };
                        let b0 = if b < i { b } else { b + 1 };
                        assert(ns[a] == es[a0]);
                        assert(ns[b] == es[b0]);
                    }
                    lemma_keyed_sorted(entries@);
                    lemma_sorted_unique(ns);
                    assert forall|x: Seq<char>| #[trigger] entries_map(ns).contains_key(x)
                        <==> entries_map(es).remove(key@).contains_key(x) by {
                        if has_id(ns, x) {
                            let j = choose|j: int| 0 <= j < ns.len() && (#[trigger] ns[j]).0 == x;
                            let j0 = if j < i { j } else { j + 1 };
                            assert(es[j0] == ns[j]);
                        }
                        if has_id(es, x) && x != key@ {
                            let j = choose|j: int| 0 <= j < es.len() && (#[trigger] es[j]).0 == x;
                            assert(j != i);
                            let j1 = if j < i { j } else { j - 1 };
                            assert(ns[j1] == es[j]);
                        }
                    }
                    assert forall|x: Seq<char>| #[trigger] entries_map(ns).contains_key(x)
                        implies entries_map(ns)[x] == entries_map(es)[x] by {
                        let j = choose|j: int| 0 <= j < ns.len() && (#[trigger] ns[j]).0 == x;
                        lemma_map_at(ns, j);
                        let j0 = if j < i { j } else { j + 1 };
                        assert(es[j0] == ns[j]);
                        lemma_map_at(es, j0);
                    }
                    assert(entries_map(ns) =~= entries_map(es).remove(key@));
                }
                self.entries = entries;
                Some(v)
            },
            None => {
                assert(!has_id(es, key@)) by {
                    if has_id(es, key@) {
                        let j = choose|j: int| 0 <= j < es.len() && (#[trigger] es[j]).0 == key@;
                        assert(es[j].0 == self.entries@[j].0@);
                    }
                }
                None
            },
        }
    }

    /// The stored pairs in key order.
    pub fn into_entries(self) -> (r: Vec<(String, V)>)
        ensures
            sorted_keys(r@),
            entries_map(keyed(r@)) == self@,
    {
        proof {
            use_type_invariant(&self);
        }
        self.entries
    }

    /// Keeps only the values stored under the keys named by `keys`.
    pub fn retain_keys(&mut self, keys: &[String])
        ensures
            final(self)@ == old(self)@.restrict(key_set(keys@)),
    {
        proof {
            use_type_invariant(&*self);
            lemma_keyed_sorted(self.entries@);
            lemma_sorted_unique(keyed(self.entries@));
        }
        let ghost es = keyed(self.entries@);
        let ghost keep = key_set(keys@);
        let mut entries: Vec<(String, V)> = Vec::new();
        std::mem::swap(&mut entries, &mut self.entries);
        let mut kept: Vec<(String, V)> = Vec::new();
        let ghost mut k: int = 0;
        let n = entries.len();
        assert(es.take(0) =~= Seq::<(Seq<char>, V)>::empty());
        assert(entries_map(Seq::<(Seq<char>, V)>::empty()) =~= Map::<Seq<char>, V>::empty());
        while entries.len() > 0
            invariant
                sorted_ids(es),
                unique_ids(es),
                n == es.len(),
                0 <= k <= n,
                entries@.len() == n - k,
                forall|j: int|
                    0 <= j < entries@.len() ==> ((#[trigger] entries@[j]).0@, entries@[j].1) == es[k
                        + j],
                sorted_ids(keyed(kept@)),
                forall|j: int, m: int|
                    0 <= j < kept@.len() && k <= m < n ==> text_order(
                        (#[trigger] kept@[j]).0@,
                        (#[trigger] es[m]).0,
                    ) < 0,
                entries_map(keyed(kept@)) == entries_map(es.take(k)).restrict(keep),
                keep == key_set(keys@),
            decreases entries@.len(),
        {
            let entry = entries.remove(0);
            let ghost e = es[k];
            assert((entry.0@, entry.1) == e);
            let ghost kv = keyed(kept@);
            proof {
                assert(es.take(k + 1) =~= es.take(k).insert(k, e));
                assert(!has_id(es.take(k), e.0)) by {
                    if has_id(es.take(k), e.0) {
                        let i = choose|i: int|
                            0 <= i < es.take(k).len() && (#[trigger] es.take(k)[i]).0 == e.0;
                        assert(es[i].0 == es[k].0);
                    }
                }
                assert(unique_ids(es.take(k))) by {
                    assert forall|a: int, b: int|
                        0 <= a < es.take(k).len() && 0 <= b < es.take(k).len() && a
                            != b implies (#[trigger] es.take(k)[a]).0 != (
                    #[trigger] es.take(k)[b]).0 by {
                        assert(es.take(k)[a] == es[a]);
                        assert(es.take(k)[b] == es[b]);
                    }
                }
                lemma_map_insert(es.take(k), k, e.0, e.1);
            }
            if list_contains(keys, entry.0.as_str()) {
                kept.push(entry);
                proof {
                    let nkv = keyed(kept@);
                    assert(nkv =~= kv.push(e));
                    assert(!has_id(kv, e.0)) by {
                        if has_id(kv, e.0) {
                            let i = choose|i: int| 0 <= i < kv.len() && (#[trigger] kv[i]).0 == e.0;
                            assert(text_order(kept@[i].0@, es[k].0) < 0);
                            lemma_text_order_equal(kept@[i].0@, es[k].0);
                        }
                    }
                    lemma_sorted_unique(kv);
                    lemma_map_insert(kv, kv.len() as int, e.0, e.1);
                    assert(kv.insert(kv.len() as int, e) =~= kv.push(e));
                    assert forall|a: int, b: int| 0 <= a < b < nkv.len() implies text_order(
                        (#[trigger] nkv[a]).0,
                        (#[trigger] nkv[b]).0,
                    ) < 0 by {
                        if b == nkv.len() - 1 {
                            assert(nkv[a].0 == kept@[a].0@);
                        }
                    }
                    assert(keep.contains(e.0));
                    assert(entries_map(nkv) =~= entries_map(es.take(k + 1)).restrict(keep));
                }
            } else {
                proof {
                    assert(!keep.contains(e.0));
                    assert(entries_map(kv) =~= entries_map(es.take(k + 1)).restrict(keep));
                }
            }
            proof {
                k = k + 1;
            }
        }
        assert(es.take(n as int) =~= es);
        proof {
            lemma_keyed_sorted(kept@);
        }
        self.entries = kept;
    }
}

} // verus!
