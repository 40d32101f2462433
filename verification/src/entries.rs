//! Keyed entry lists: sequences of `(identifier, value)` pairs with distinct
//! identifiers, read as maps.

use vstd::prelude::*;

use crate::text::{compare_text, lemma_text_order_antisymmetric, lemma_text_order_equal,
    lemma_text_order_transitive, text_order};

verus! {

/// Whether some entry of `es` has identifier `id`.
pub open spec fn has_id<V>(es: Seq<(Seq<char>, V)>, id: Seq<char>) -> bool {
    exists|i: int| 0 <= i < es.len() && (#[trigger] es[i]).0 == id
}

/// Whether the identifiers of `es` are pairwise distinct.
pub open spec fn unique_ids<V>(es: Seq<(Seq<char>, V)>) -> bool {
    forall|i: int, j: int|
        0 <= i < es.len() && 0 <= j < es.len() && i != j ==> (#[trigger] es[i]).0 != (
        #[trigger] es[j]).0
}

/// Whether the identifiers of `es` strictly increase.
pub open spec fn sorted_ids<V>(es: Seq<(Seq<char>, V)>) -> bool {
    forall|i: int, j: int|
        0 <= i < j < es.len() ==> text_order((#[trigger] es[i]).0, (#[trigger] es[j]).0) < 0
}

/// Whether the identifiers of the keyed list `es` strictly increase.
pub open spec fn sorted_keys<V>(es: Seq<(String, V)>) -> bool {
    forall|i: int, j: int|
        0 <= i < j < es.len() ==> text_order((#[trigger] es[i]).0@, (#[trigger] es[j]).0@) < 0
}

/// The map from identifiers to values that `es` stands for.
pub open spec fn entries_map<V>(es: Seq<(Seq<char>, V)>) -> Map<Seq<char>, V> {
    Map::new(
        |id: Seq<char>| has_id(es, id),
        |id: Seq<char>| es[choose|i: int| 0 <= i < es.len() && (#[trigger] es[i]).0 == id].1,
    )
}

pub proof fn lemma_sorted_unique<V>(es: Seq<(Seq<char>, V)>)
    requires
        sorted_ids(es),
    ensures
        unique_ids(es),
{
    assert forall|i: int, j: int|
        0 <= i < es.len() && 0 <= j < es.len() && i != j implies (#[trigger] es[i]).0 != (
        #[trigger] es[j]).0 by {
        if i < j {
            lemma_text_order_equal(es[i].0, es[j].0);
        } else {
            lemma_text_order_equal(es[j].0, es[i].0);
        }
    }
}

pub proof fn lemma_map_at<V>(es: Seq<(Seq<char>, V)>, i: int)
    requires
        unique_ids(es),
        0 <= i < es.len(),
    ensures
        entries_map(es).contains_key(es[i].0),
        entries_map(es)[es[i].0] == es[i].1,
{
    assert(has_id(es, es[i].0));
    let k = choose|k: int| 0 <= k < es.len() && (#[trigger] es[k]).0 == es[i].0;
    assert(k == i);
}

pub proof fn lemma_map_update<V>(es: Seq<(Seq<char>, V)>, k: int, v: V)
    requires
        unique_ids(es),
        0 <= k < es.len(),
    ensures
        unique_ids(es.update(k, (es[k].0, v))),
        entries_map(es.update(k, (es[k].0, v))) == entries_map(es).insert(es[k].0, v),
{
    let ns = es.update(k, (es[k].0, v));
    assert forall|i: int, j: int|
        0 <= i < ns.len() && 0 <= j < ns.len() && i != j implies (#[trigger] ns[i]).0 != (
        #[trigger] ns[j]).0 by {
        assert(ns[i].0 == es[i].0);
        assert(ns[j].0 == es[j].0);
    }
    assert forall|id: Seq<char>| has_id(ns, id) <==> has_id(es, id) || id == es[k].0 by {
        if has_id(es, id) {
            let i = choose|i: int| 0 <= i < es.len() && (#[trigger] es[i]).0 == id;
            assert(ns[i].0 == id);
        }
        if has_id(ns, id) {
            let i = choose|i: int| 0 <= i < ns.len() && (#[trigger] ns[i]).0 == id;
            assert(es[i].0 == id);
        }
        if id == es[k].0 {
            assert(ns[k].0 == id);
        }
    }
    assert forall|id: Seq<char>| #[trigger] entries_map(ns).contains_key(id) implies entries_map(
        ns,
    )[id] == entries_map(es).insert(es[k].0, v)[id] by {
        let i = choose|i: int| 0 <= i < ns.len() && (#[trigger] ns[i]).0 == id;
        lemma_map_at(ns, i);
        if i != k {
            assert(ns[i] == es[i]);
            lemma_map_at(es, i);
        }
    }
    assert(entries_map(ns) =~= entries_map(es).insert(es[k].0, v));
}

pub proof fn lemma_map_insert<V>(es: Seq<(Seq<char>, V)>, p: int, id: Seq<char>, v: V)
    requires
        unique_ids(es),
        0 <= p <= es.len(),
        !has_id(es, id),
    ensures
        unique_ids(es.insert(p, (id, v))),
        entries_map(es.insert(p, (id, v))) == entries_map(es).insert(id, v),
{
    let ns = es.insert(p, (id, v));
    assert forall|i: int| 0 <= i < ns.len() && i != p implies (#[trigger] ns[i]) == es[if i < p {
        i
    } else {
        i - 1
    }] by {}
    assert forall|i: int, j: int|
        0 <= i < ns.len() && 0 <= j < ns.len() && i != j implies (#[trigger] ns[i]).0 != (
        #[trigger] ns[j]).0 by {
        if i != p && j != p {
            let a = if i < p { i } else { i - 1 };
            let b = if j < p { j } else { j - 1 };
            assert(es[a].0 != es[b].0);
        } else if i == p {
            let b = if j < p { j } else { j - 1 };
            assert(es[b].0 != id);
        } else {
            let a = if i < p { i } else { i - 1 };
            assert(es[a].0 != id);
        }
    }
    assert forall|x: Seq<char>| has_id(ns, x) <==> has_id(es, x) || x == id by {
        if has_id(es, x) {
            let i = choose|i: int| 0 <= i < es.len() && (#[trigger] es[i]).0 == x;
            let j = if i < p { i } else { i + 1 };
            assert(ns[j].0 == x);
        }
        if has_id(ns, x) && x != id {
            let i = choose|i: int| 0 <= i < ns.len() && (#[trigger] ns[i]).0 == x;
            let a = if i < p { i } else { i - 1 };
            assert(es[a].0 == x);
        }
        if x == id {
            assert(ns[p].0 == id);
        }
    }
    assert forall|x: Seq<char>| #[trigger] entries_map(ns).contains_key(x) implies entries_map(
        ns,
    )[x] == entries_map(es).insert(id, v)[x] by {
        let i = choose|i: int| 0 <= i < ns.len() && (#[trigger] ns[i]).0 == x;
        lemma_map_at(ns, i);
        if i != p {
            let a = if i < p { i } else { i - 1 };
            lemma_map_at(es, a);
        }
    }
    assert(entries_map(ns) =~= entries_map(es).insert(id, v));
}

/// The position of the entry with identifier `id`, if any.
pub fn find_id<V>(es: &Vec<(String, V)>, id: &str) -> (r: Option<usize>)
    ensures
        r matches Some(i) ==> i < es@.len() && es@[i as int].0@ == id@,
        r is None ==> forall|i: int| 0 <= i < es@.len() ==> (#[trigger] es@[i]).0@ != id@,
{
    let mut i: usize = 0;
    while i < es.len()
        invariant
            i <= es@.len(),
            forall|j: int| 0 <= j < i ==> (#[trigger] es@[j]).0@ != id@,
        decreases es@.len() - i,
    {
        let o = compare_text(es[i].0.as_str(), id);
        proof {
            lemma_text_order_equal(es@[i as int].0@, id@);
        }
        if o == 0 {
            return Some(i);
        }
        i = i + 1;
    }
    None
}

/// The position at which `id` keeps `es` sorted: after every smaller
/// identifier and before every larger one.
pub fn sorted_position<V>(es: &Vec<(String, V)>, id: &str) -> (p: usize)
    requires
        sorted_keys(es@),
    ensures
        p <= es@.len(),
        forall|i: int| 0 <= i < p ==> text_order((#[trigger] es@[i]).0@, id@) < 0,
        forall|i: int| p <= i < es@.len() ==> text_order((#[trigger] es@[i]).0@, id@) >= 0,
{
    let mut i: usize = 0;
    while i < es.len()
        invariant
            i <= es@.len(),
            sorted_keys(es@),
            forall|j: int| 0 <= j < i ==> text_order((#[trigger] es@[j]).0@, id@) < 0,
        decreases es@.len() - i,
    {
        if compare_text(es[i].0.as_str(), id) >= 0 {
            proof {
                assert forall|j: int| i <= j < es@.len() implies text_order(
                    (#[trigger] es@[j]).0@,
                    id@,
                ) >= 0 by {
                    if j > i {
                        assert(text_order(es@[i as int].0@, es@[j].0@) < 0);
                        lemma_text_order_antisymmetric(es@[j].0@, id@);
                        lemma_text_order_antisymmetric(es@[i as int].0@, id@);
                        lemma_text_order_equal(es@[i as int].0@, id@);
                        if text_order(es@[j].0@, id@) < 0 {
                            if text_order(es@[i as int].0@, id@) == 0 {
                                assert(es@[i as int].0@ == id@);
                            } else {
                                lemma_text_order_transitive(
                                    es@[i as int].0@,
                                    es@[j].0@,
                                    id@,
                                );
                            }
                        }
                    }
                }
            }
            return i;
        }
        i = i + 1;
    }
    i
}

/// Inserting an identifier absent from a sorted list at its sorted position
/// keeps the list sorted.
pub proof fn lemma_sorted_insert<V>(es: Seq<(Seq<char>, V)>, p: int, id: Seq<char>, v: V)
    requires
        sorted_ids(es),
        0 <= p <= es.len(),
        forall|i: int| 0 <= i < p ==> text_order((#[trigger] es[i]).0, id) < 0,
        forall|i: int| p <= i < es.len() ==> text_order((#[trigger] es[i]).0, id) > 0,
    ensures
        sorted_ids(es.insert(p, (id, v))),
{
    let ns = es.insert(p, (id, v));
    assert forall|i: int, j: int| 0 <= i < j < ns.len() implies text_order(
        (#[trigger] ns[i]).0,
        (#[trigger] ns[j]).0,
    ) < 0 by {
        if i == p {
            let b = j - 1;
            assert(ns[j] == es[b]);
            lemma_text_order_antisymmetric(es[b].0, id);
        } else if j == p {
            assert(ns[i] == es[i]);
        } else {
            let a = if i < p { i } else { i - 1 };
            let b = if j < p { j } else { j - 1 };
            assert(ns[i] == es[a]);
            assert(ns[j] == es[b]);
        }
    }
}

} // verus!

verus! {

/// Whether some text of `list` equals `item`.
pub open spec fn list_has(list: Seq<String>, item: Seq<char>) -> bool {
    exists|i: int| 0 <= i < list.len() && (#[trigger] list[i])@ == item
}

/// Whether some text of `list` equals `item`.
pub fn list_contains(list: &[String], item: &str) -> (r: bool)
    ensures
        r == list_has(list@, item@),
{
    let mut i: usize = 0;
    while i < list.len()
        invariant
            i <= list@.len(),
            forall|j: int| 0 <= j < i ==> (#[trigger] list@[j])@ != item@,
        decreases list@.len() - i,
    {
        let o = compare_text(list[i].as_str(), item);
        proof {
            lemma_text_order_equal(list@[i as int]@, item@);
        }
        if o == 0 {
            return true;
        }
        i = i + 1;
    }
    false
}

} // verus!
