//! Manufacturer payloads keyed by Bluetooth SIG company identifier.

use vstd::prelude::*;
use std::collections::BTreeMap;
use vstd::std_specs::iter::IteratorSpec;
use vstd::std_specs::cmp::OrdSpec;

verus! {

broadcast use vstd::std_specs::btree::group_btree_axioms, vstd::laws_cmp::group_laws_cmp;

/// Whether `es` lists the payloads of `m` with their companies, each once,
/// in increasing company order.
pub open spec fn lists_companies(m: Map<u16, Vec<u8>>, es: Seq<(u16, Vec<u8>)>) -> bool {
    &&& forall|i: int, j: int| 0 <= i < j < es.len() ==> (#[trigger] es[i]).0 < (#[trigger] es[j]).0
    &&& forall|i: int| 0 <= i < es.len() ==> m.contains_key((#[trigger] es[i]).0) && m[es[i].0] == es[i].1
    &&& forall|k: u16| #[trigger] m.contains_key(k) ==> exists|i: int| 0 <= i < es.len() && (#[trigger] es[i]).0 == k
}

/// The payloads of `m` with their companies, in increasing company order.
pub open spec fn company_entries(m: Map<u16, Vec<u8>>) -> Seq<(u16, Vec<u8>)> {
    choose|es: Seq<(u16, Vec<u8>)>| lists_companies(m, es)
}

/// The companies of `m`, in increasing order.
pub open spec fn company_ids(m: Map<u16, Vec<u8>>) -> Seq<u16> {
    company_entries(m).map_values(|e: (u16, Vec<u8>)| e.0)
}

/// Where company `k` stands in `es`.
spec fn position_of_company(es: Seq<(u16, Vec<u8>)>, k: u16) -> int {
    choose|i: int| 0 <= i < es.len() && (#[trigger] es[i]).0 == k
}

/// The payloads of a map listed in increasing company order are one list.
pub proof fn lemma_lists_companies_unique(m: Map<u16, Vec<u8>>, a: Seq<(u16, Vec<u8>)>, b: Seq<(u16, Vec<u8>)>)
    requires
        lists_companies(m, a),
        lists_companies(m, b),
    ensures
        a == b,
{
    let fa = |i: int| position_of_company(b, a[i].0);
    let fb = |j: int| position_of_company(a, b[j].0);
    assert forall|i: int| 0 <= i < a.len() implies 0 <= #[trigger] fa(i) < b.len() && b[fa(i)] == a[i] by {
        assert(m.contains_key(a[i].0));
    }
    assert forall|j: int| 0 <= j < b.len() implies 0 <= #[trigger] fb(j) < a.len() && a[fb(j)] == b[j] by {
        assert(m.contains_key(b[j].0));
    }
    let lt = |x: (u16, Vec<u8>), y: (u16, Vec<u8>)| x.0 < y.0;
    crate::replay::lemma_sorted_unique(a, b, lt, fa, fb);
}

proof fn lemma_increasing_companies(v: Seq<(&u16, &Vec<u8>)>)
    requires
        vstd::std_specs::btree::increasing_seq(v.map_values(|kv: (&u16, &Vec<u8>)| *kv.0)),
    ensures
        forall|i: int, j: int| 0 <= i < j < v.len() ==> *(#[trigger] v[i]).0 < *(#[trigger] v[j]).0,
{
    let ks = v.map_values(|kv: (&u16, &Vec<u8>)| *kv.0);
    assert(vstd::laws_cmp::obeys_cmp::<u16>());
    vstd::std_specs::btree::axiom_increasing_seq_meaning::<u16>(ks);
    assert forall|i: int, j: int| 0 <= i < j < v.len() implies *(#[trigger] v[i]).0 < *(#[trigger] v[j]).0 by {
        assert(ks[i] == *v[i].0 && ks[j] == *v[j].0);
        assert(ks[i].cmp_spec(&ks[j]) is Less);
    }
}

/// The payloads of `m` with their companies, in increasing company order.
pub fn company_pairs(m: &BTreeMap<u16, Vec<u8>>) -> (r: Vec<(u16, &Vec<u8>)>)
    ensures
        r@.map_values(|e: (u16, &Vec<u8>)| (e.0, *e.1)) == company_entries(m@),
        lists_companies(m@, company_entries(m@)),
{
    let mut r: Vec<(u16, &Vec<u8>)> = Vec::new();
    let pairs = m.iter();
    let ghost v = pairs.remaining();
    proof {
        lemma_increasing_companies(v);
    }
    for e in it: pairs
        invariant
            r@.map_values(|e: (u16, &Vec<u8>)| (e.0, *e.1)) == it.seq().take(it.index() as int).map_values(
                |e: (&u16, &Vec<u8>)| (*e.0, *e.1),
            ),
    {
        let ghost before = r@.map_values(|e: (u16, &Vec<u8>)| (e.0, *e.1));
        r.push((*e.0, e.1));
        proof {
            assert(e == it.seq()[it.index() as int]);
            assert(r@.map_values(|e: (u16, &Vec<u8>)| (e.0, *e.1)) =~= before.push((*e.0, *e.1)));
            assert(it.seq().take(it.index() + 1).map_values(|e: (&u16, &Vec<u8>)| (*e.0, *e.1))
                =~= it.seq().take(it.index() as int).map_values(|e: (&u16, &Vec<u8>)| (*e.0, *e.1)).push(
                (*e.0, *e.1),
            ));
        }
    }
    proof {
        let es = v.map_values(|e: (&u16, &Vec<u8>)| (*e.0, *e.1));
        assert(r@.map_values(|e: (u16, &Vec<u8>)| (e.0, *e.1)) =~= es);
        assert(lists_companies(m@, es)) by {
            assert forall|k: u16| #[trigger] m@.contains_key(k) implies exists|i: int|
                0 <= i < es.len() && (#[trigger] es[i]).0 == k by {
                assert(v.contains((&k, &m@[k])));
                let j = choose|j: int| 0 <= j < v.len() && v[j] == (&k, &m@[k]);
                assert(es[j].0 == k);
            }
            assert forall|i: int, j: int| 0 <= i < j < es.len() implies (#[trigger] es[i]).0 < (#[trigger] es[j]).0 by {
                assert(es[i].0 == *v[i].0 && es[j].0 == *v[j].0);
            }
            assert forall|i: int| 0 <= i < es.len() implies m@.contains_key((#[trigger] es[i]).0) && m@[es[i].0] == es[i].1 by {
                assert(es[i] == (*v[i].0, *v[i].1));
                assert(m@.contains_key(*v[i].0) && m@[*v[i].0] == *v[i].1);
            }
        }
        lemma_lists_companies_unique(m@, es, company_entries(m@));
    }
    r
}

/// The payload stored for `company`, if any.
pub fn company_payload(m: &BTreeMap<u16, Vec<u8>>, company: u16) -> (r: Option<&Vec<u8>>)
    ensures
        match r {
            Some(v) => m@.contains_key(company) && m@[company] == *v,
            None => !m@.contains_key(company),
        },
{
    m.get(&company)
}

/// Stores `payload` for `company`, replacing any payload stored there.
pub fn insert_company(m: &mut BTreeMap<u16, Vec<u8>>, company: u16, payload: Vec<u8>)
    ensures
        final(m)@ == old(m)@.insert(company, payload),
{
    m.insert(company, payload);
}

/// The companies of `m`, each once.
fn company_keys(m: &BTreeMap<u16, Vec<u8>>) -> (r: Vec<u16>)
    ensures
        r@.no_duplicates(),
        forall|k: u16| #[trigger] m@.contains_key(k) <==> r@.contains(k),
{
    let pairs = company_pairs(m);
    let ghost es = company_entries(m@);
    assert(lists_companies(m@, es));
    let mut r: Vec<u16> = Vec::new();
    let mut i: usize = 0;
    while i < pairs.len()
        invariant
            i <= pairs@.len(),
            pairs@.map_values(|e: (u16, &Vec<u8>)| (e.0, *e.1)) == es,
            r@ == es.take(i as int).map_values(|e: (u16, Vec<u8>)| e.0),
        decreases pairs@.len() - i,
    {
        r.push(pairs[i].0);
        proof {
            assert(es[i as int].0 == pairs@[i as int].0);
            assert(es.take(i + 1).map_values(|e: (u16, Vec<u8>)| e.0) =~= es.take(i as int).map_values(
                |e: (u16, Vec<u8>)| e.0,
            ).push(es[i as int].0));
        }
        i = i + 1;
    }
    proof {
        assert(es.take(es.len() as int) =~= es);
        assert forall|a: int, b: int| 0 <= a < b < r@.len() implies r@[a] != r@[b] by {
            assert(r@[a] == es[a].0 && r@[b] == es[b].0);
        }
        assert forall|k: u16| #[trigger] m@.contains_key(k) <==> r@.contains(k) by {
            if m@.contains_key(k) {
                let j = choose|j: int| 0 <= j < es.len() && (#[trigger] es[j]).0 == k;
                assert(r@[j] == k);
            }
            if r@.contains(k) {
                let j = choose|j: int| 0 <= j < r@.len() && r@[j] == k;
                assert(r@[j] == es[j].0);
            }
        }
    }
    r
}

/// The first `n` companies of `keys`.
spec fn taken(keys: Seq<u16>, n: int) -> Set<u16> {
    Set::new(|k: u16| exists|j: int| 0 <= j < n && keys[j] == k)
}

/// Stores every payload of `other`, replacing payloads stored for the same
/// companies.
pub fn extend_companies(m: &mut BTreeMap<u16, Vec<u8>>, other: BTreeMap<u16, Vec<u8>>)
    ensures
        final(m)@ == old(m)@.union_prefer_right(other@),
{
    let ghost base = m@;
    let ghost o0 = other@;
    let keys = company_keys(&other);
    let mut rest = other;
    let mut i: usize = 0;
    while i < keys.len()
        invariant
            i <= keys@.len(),
            keys@.no_duplicates(),
            forall|k: u16| #[trigger] o0.contains_key(k) <==> keys@.contains(k),
            m@ == base.union_prefer_right(o0.restrict(taken(keys@, i as int))),
            rest@ == o0.remove_keys(taken(keys@, i as int)),
        decreases keys@.len() - i,
    {
        let k = keys[i];
        proof {
            assert(keys@.contains(k));
            assert(!taken(keys@, i as int).contains(k)) by {
                if taken(keys@, i as int).contains(k) {
                    let j = choose|j: int| 0 <= j < i && keys@[j] == k;
                    assert(keys@[j] == keys@[i as int]);
                }
            }
            assert(rest@.contains_key(k));
        }
        let v = rest.remove(&k);
        match v {
            Some(v) => {
                m.insert(k, v);
            },
            None => {},
        }
        proof {
            let before = taken(keys@, i as int);
            let after = taken(keys@, i + 1);
            assert(after =~= before.insert(k)) by {
                assert(keys@[i as int] == k);
            }
            assert(m@ =~= base.union_prefer_right(o0.restrict(after)));
            assert(rest@ =~= o0.remove_keys(after));
        }
        i = i + 1;
    }
    proof {
        assert(o0.restrict(taken(keys@, keys@.len() as int)) =~= o0) by {
            assert forall|k: u16| #[trigger] o0.contains_key(k) implies taken(keys@, keys@.len() as int).contains(k) by {
                assert(keys@.contains(k));
            }
        }
    }
}

} // verus!
