//! Deterministic component-wise resolution of provider reports.

use vstd::prelude::*;

use crate::battery::{BatteryComponent, ComponentType, DataConfidence};
use crate::provider::{ProviderReport, ReportView};
use crate::text::{compare_text, lemma_text_order_antisymmetric, lemma_text_order_equal,
    lemma_text_order_transitive, text_order};

verus! {

/// A competing value: the component, its report's priority and its provider.
pub type Candidate = (BatteryComponent, u16, Seq<char>);

/// Three-way comparison of integers.
pub open spec fn int_order(x: int, y: int) -> int {
    if x < y {
        -1
    } else if x > y {
        1
    } else {
        0
    }
}

/// `1` for true, `0` for false.
pub open spec fn flag(b: bool) -> int {
    if b {
        1
    } else {
        0
    }
}

/// Quality order of two candidates for the same component: an available
/// value, then a fresh one, then higher confidence, then a higher-priority
/// source, then the newer value, then the higher report priority, and last
/// the provider whose identifier sorts first.
pub open spec fn candidate_order(a: Candidate, b: Candidate) -> int {
    let o1 = int_order(flag(a.0.percentage is Some), flag(b.0.percentage is Some));
    let o2 = int_order(flag(!a.0.stale), flag(!b.0.stale));
    let o3 = int_order(a.0.confidence.spec_rank(), b.0.confidence.spec_rank());
    let o4 = int_order(a.0.source.spec_priority() as int, b.0.source.spec_priority() as int);
    let o5 = int_order(a.0.updated_at.unix_nanos as int, b.0.updated_at.unix_nanos as int);
    let o6 = int_order(a.1 as int, b.1 as int);
    if o1 != 0 {
        o1
    } else if o2 != 0 {
        o2
    } else if o3 != 0 {
        o3
    } else if o4 != 0 {
        o4
    } else if o5 != 0 {
        o5
    } else if o6 != 0 {
        o6
    } else {
        text_order(b.2, a.2)
    }
}

/// Whether candidate `a` is strictly better than `b`.
pub open spec fn beats(a: Candidate, b: Candidate) -> bool {
    candidate_order(a, b) > 0
}

pub proof fn lemma_candidate_order_antisymmetric(a: Candidate, b: Candidate)
    ensures
        candidate_order(a, b) == -candidate_order(b, a),
{
    lemma_text_order_antisymmetric(b.2, a.2);
}

pub proof fn lemma_candidate_order_transitive(a: Candidate, b: Candidate, c: Candidate)
    requires
        candidate_order(a, b) >= 0,
        candidate_order(b, c) >= 0,
    ensures
        candidate_order(a, c) >= 0,
        candidate_order(a, b) > 0 || candidate_order(b, c) > 0 ==> candidate_order(a, c) > 0,
{
    lemma_text_order_antisymmetric(b.2, a.2);
    lemma_text_order_antisymmetric(c.2, b.2);
    lemma_text_order_antisymmetric(c.2, a.2);
    lemma_text_order_equal(b.2, a.2);
    lemma_text_order_equal(c.2, b.2);
    lemma_text_order_equal(c.2, a.2);
    if text_order(b.2, a.2) > 0 && text_order(c.2, b.2) > 0 {
        lemma_text_order_transitive(a.2, b.2, c.2);
    }
}

/// The candidates that one report contributes.
pub open spec fn report_candidates(r: ReportView) -> Seq<Candidate> {
    r.components.map_values(|c: BatteryComponent| (c, r.priority, r.provider_id))
}

/// All candidates for `device`, report by report and component by component.
pub open spec fn device_candidates(reports: Seq<ReportView>, device: Seq<char>) -> Seq<Candidate>
    decreases reports.len(),
{
    if reports.len() == 0 {
        Seq::empty()
    } else {
        device_candidates(reports.drop_last(), device) + if reports.last().device_id == device {
            report_candidates(reports.last())
        } else {
            Seq::empty()
        }
    }
}

/// Whether candidate `k` is the first of the best candidates for its component.
pub open spec fn is_first_best(cands: Seq<Candidate>, k: int) -> bool {
    &&& 0 <= k < cands.len()
    &&& forall|j: int|
        0 <= j < cands.len() && #[trigger] cands[j].0.component_type == cands[k].0.component_type
            ==> (j < k ==> beats(cands[k], cands[j])) && (j > k ==> !beats(cands[j], cands[k]))
}

/// Whether the values of `result` have strictly increasing component types.
pub open spec fn sorted_by_component(result: Seq<BatteryComponent>) -> bool {
    forall|i: int, j: int|
        0 <= i < j < result.len() ==> result[i].component_type.spec_rank()
            < result[j].component_type.spec_rank()
}

/// Whether every value of `result` is the first of the best candidates for its component.
pub open spec fn all_first_best(result: Seq<BatteryComponent>, cands: Seq<Candidate>) -> bool {
    forall|i: int|
        0 <= i < result.len() ==> exists|k: int|
            is_first_best(cands, k) && cands[k].0 == #[trigger] result[i]
}

/// Whether every component type with a candidate has a value in `result`.
pub open spec fn covers(result: Seq<BatteryComponent>, cands: Seq<Candidate>) -> bool {
    forall|k: int|
        #![trigger cands[k]]
        0 <= k < cands.len() ==> exists|i: int|
            0 <= i < result.len() && (#[trigger] result[i]).component_type
                == cands[k].0.component_type
}

/// Whether `result` is the resolution of `cands`: one value per component type
/// that has candidates, in declared component order, each the first of the best
/// candidates for its component.
pub open spec fn resolves(result: Seq<BatteryComponent>, cands: Seq<Candidate>) -> bool {
    &&& sorted_by_component(result)
    &&& all_first_best(result, cands)
    &&& covers(result, cands)
}

/// Plain views of a sequence of reports.
pub open spec fn reports_view(reports: Seq<ProviderReport>) -> Seq<ReportView> {
    reports.map_values(|r: ProviderReport| r@)
}

/// The candidates weighed among report views: those of every report about
/// the device of the first report.
pub open spec fn view_candidates(rv: Seq<ReportView>) -> Seq<Candidate> {
    if rv.len() == 0 {
        Seq::empty()
    } else {
        device_candidates(rv, rv[0].device_id)
    }
}

/// The candidates `resolve_reports` weighs: those of every report about the
/// device of the first report.
pub open spec fn resolution_candidates(reports: Seq<ProviderReport>) -> Seq<Candidate> {
    view_candidates(reports_view(reports))
}

fn beats_exec(
    a: &BatteryComponent,
    ap: u16,
    aid: &String,
    b: &BatteryComponent,
    bp: u16,
    bid: &String,
) -> (r: bool)
    ensures
        r == beats((*a, ap, aid@), (*b, bp, bid@)),
{
    let a1 = a.percentage.is_some();
    let b1 = b.percentage.is_some();
    if a1 != b1 {
        return a1;
    }
    if a.stale != b.stale {
        return !a.stale;
    }
    let a3 = a.confidence.rank();
    let b3 = b.confidence.rank();
    if a3 != b3 {
        return a3 > b3;
    }
    let a4 = a.source.priority();
    let b4 = b.source.priority();
    if a4 != b4 {
        return a4 > b4;
    }
    if a.updated_at.unix_nanos != b.updated_at.unix_nanos {
        return a.updated_at.unix_nanos > b.updated_at.unix_nanos;
    }
    if ap != bp {
        return ap > bp;
    }
    compare_text(bid.as_str(), aid.as_str()) > 0
}

/// Plain view of the gathered candidates, naming each provider through its report.
spec fn flat_view(flat: Seq<(BatteryComponent, u16, usize)>, reports: Seq<ReportView>) -> Seq<
    Candidate,
> {
    flat.map_values(|e: (BatteryComponent, u16, usize)| (e.0, e.1, reports[e.2 as int].provider_id))
}

proof fn lemma_device_candidates_step(reports: Seq<ReportView>, device: Seq<char>, i: int)
    requires
        0 <= i < reports.len(),
    ensures
        device_candidates(reports.subrange(0, i + 1), device) == device_candidates(
            reports.subrange(0, i),
            device,
        ) + if reports[i].device_id == device {
            report_candidates(reports[i])
        } else {
            Seq::empty()
        },
{
    let s = reports.subrange(0, i + 1);
    assert(s.drop_last() =~= reports.subrange(0, i));
}

spec fn selection_ok(sel: Seq<Option<usize>>, cands: Seq<Candidate>) -> bool {
    &&& sel.len() == 6
    &&& forall|t: int|
        0 <= t < 6 ==> match #[trigger] sel[t] {
            None => forall|k: int| 0 <= k < cands.len() ==> cands[k].0.component_type.spec_rank() != t,
            Some(k) => k < cands.len() && cands[k as int].0.component_type.spec_rank() == t
                && is_first_best(cands, k as int),
        }
}

fn gather_candidates(reports: &[ProviderReport]) -> (flat: Vec<(BatteryComponent, u16, usize)>)
    requires
        reports@.len() > 0,
    ensures
        flat_view(flat@, reports_view(reports@)) == resolution_candidates(reports@),
        forall|k: int| 0 <= k < flat@.len() ==> (#[trigger] flat@[k]).2 < reports@.len(),
{
    let ghost rv = reports_view(reports@);
    let ghost device = reports@[0].device_id@;
    let n = reports.len();
    // Gather the candidates of the device in order.
    let mut flat: Vec<(BatteryComponent, u16, usize)> = Vec::new();
    let mut i: usize = 0;
    assert(rv.subrange(0, 0) =~= Seq::<ReportView>::empty());
    while i < n
        invariant
            n == reports@.len(),
            rv == reports_view(reports@),
            device == reports@[0].device_id@,
            i <= n,
            flat_view(flat@, rv) == device_candidates(rv.subrange(0, i as int), device),
            forall|k: int| 0 <= k < flat@.len() ==> (#[trigger] flat@[k]).2 < n,
        decreases n - i,
    {
        proof {
            lemma_device_candidates_step(rv, device, i as int);
        }
        let report = &reports[i];
        if report.device_id == reports[0].device_id {
            let m = report.components.len();
            let mut j: usize = 0;
            let ghost base = flat_view(flat@, rv);
            while j < m
                invariant
                    n == reports@.len(),
                    rv == reports_view(reports@),
                    i < n,
                    report == &reports@[i as int],
                    m == report.components@.len(),
                    j <= m,
                    flat_view(flat@, rv) == base + report_candidates(rv[i as int]).take(j as int),
                    forall|k: int| 0 <= k < flat@.len() ==> (#[trigger] flat@[k]).2 < n,
                decreases m - j,
            {
                let ghost old_flat = flat@;
                flat.push((report.components[j], report.priority, i));
                assert(rv[i as int] == reports@[i as int]@);
                assert(report_candidates(rv[i as int])[j as int] == (
                    report.components@[j as int],
                    report.priority,
                    rv[i as int].provider_id,
                ));
                assert(flat_view(flat@, rv) =~= flat_view(old_flat, rv).push(
                    report_candidates(rv[i as int])[j as int],
                ));
                assert(flat_view(flat@, rv) =~= base + report_candidates(rv[i as int]).take(
                    j + 1,
                ));
                j = j + 1;
            }
            assert(report_candidates(rv[i as int]).take(m as int) =~= report_candidates(
                rv[i as int],
            ));
        } else {
            assert(rv[i as int].device_id != device);
            assert(device_candidates(rv.subrange(0, i + 1), device) =~= device_candidates(
                rv.subrange(0, i as int),
                device,
            ));
        }
        i = i + 1;
    }
    assert(rv.subrange(0, n as int) =~= rv);
    flat
}

fn select_best(reports: &[ProviderReport], flat: &Vec<(BatteryComponent, u16, usize)>) -> (sel: Vec<
    Option<usize>,
>)
    requires
        forall|k: int| 0 <= k < flat@.len() ==> (#[trigger] flat@[k]).2 < reports@.len(),
    ensures
        selection_ok(sel@, flat_view(flat@, reports_view(reports@))),
{
    let n = reports.len();
    let ghost rv = reports_view(reports@);
    let ghost cands = flat_view(flat@, rv);
    let mut sel: Vec<Option<usize>> = vec![None, None, None, None, None, None];
    let total = flat.len();
    let mut m: usize = 0;
    while m < total
        invariant
            total == flat@.len(),
            n == reports@.len(),
            rv == reports_view(reports@),
            cands == flat_view(flat@, rv),
            forall|k: int| 0 <= k < flat@.len() ==> (#[trigger] flat@[k]).2 < n,
            m <= total,
            sel@.len() == 6,
            forall|t: int|
                0 <= t < 6 ==> match #[trigger] sel@[t] {
                    None => forall|k: int|
                        0 <= k < m ==> cands[k].0.component_type.spec_rank() != t,
                    Some(k) => k < m && cands[k as int].0.component_type.spec_rank() == t
                        && is_first_best(cands.take(m as int), k as int),
                },
        decreases total - m,
    {
        let entry = flat[m];
        let t = entry.0.component_type.rank() as usize;
        let ghost c = cands[m as int];
        assert(c == (entry.0, entry.1, rv[entry.2 as int].provider_id));
        match sel[t] {
            None => {
                sel.set(t, Some(m));
                proof {
                    assert forall|j: int|
                        0 <= j < m + 1 && #[trigger] cands.take(m + 1)[j].0.component_type
                            == cands.take(m + 1)[m as int].0.component_type implies (j < m ==> beats(
                        cands.take(m + 1)[m as int],
                        cands.take(m + 1)[j],
                    )) && (j > m ==> !beats(cands.take(m + 1)[j], cands.take(m + 1)[m as int])) by {
                        if j < m {
                            assert(cands[j].0.component_type.spec_rank() != t);
                        }
                    }
                }
            },
            Some(k) => {
                let other = flat[k];
                let better = beats_exec(
                    &entry.0,
                    entry.1,
                    &reports[entry.2].provider_id,
                    &other.0,
                    other.1,
                    &reports[other.2].provider_id,
                );
                if better {
                    sel.set(t, Some(m));
                    proof {
                        let ck = cands[k as int];
                        assert(ck == (other.0, other.1, rv[other.2 as int].provider_id));
                        assert forall|j: int|
                            0 <= j < m + 1 && #[trigger] cands.take(m + 1)[j].0.component_type
                                == cands.take(m + 1)[m as int].0.component_type implies (j < m
                            ==> beats(cands.take(m + 1)[m as int], cands.take(m + 1)[j])) && (j > m
                            ==> !beats(cands.take(m + 1)[j], cands.take(m + 1)[m as int])) by {
                            if j < m && j != k {
                                assert(cands.take(m as int)[j] == cands[j]);
                                assert(cands.take(m as int)[j].0.component_type
                                    == cands.take(m as int)[k as int].0.component_type);
                                if j < k {
                                    lemma_candidate_order_transitive(c, ck, cands[j]);
                                } else {
                                    lemma_candidate_order_antisymmetric(cands[j], ck);
                                    lemma_candidate_order_transitive(c, ck, cands[j]);
                                }
                            }
                        }
                    }
                } else {
                    proof {
                        let ck = cands[k as int];
                        assert(ck == (other.0, other.1, rv[other.2 as int].provider_id));
                        assert forall|j: int|
                            0 <= j < m + 1 && #[trigger] cands.take(m + 1)[j].0.component_type
                                == cands.take(m + 1)[k as int].0.component_type implies (j < k
                            ==> beats(cands.take(m + 1)[k as int], cands.take(m + 1)[j])) && (j > k
                            ==> !beats(cands.take(m + 1)[j], cands.take(m + 1)[k as int])) by {
                            if j < m {
                                assert(cands.take(m as int)[j] == cands[j]);
                                assert(cands.take(m as int)[j].0.component_type
                                    == cands.take(m as int)[k as int].0.component_type);
                            }
                        }
                    }
                }
            },
        }
        proof {
            assert forall|tt: int| 0 <= tt < 6 && tt != t implies match #[trigger] sel@[tt] {
                None => forall|k: int| 0 <= k < m + 1 ==> cands[k].0.component_type.spec_rank() != tt,
                Some(k) => k < m + 1 && cands[k as int].0.component_type.spec_rank() == tt
                    && is_first_best(cands.take(m + 1), k as int),
            } by {
                match sel@[tt] {
                    None => {},
                    Some(k) => {
                        assert forall|j: int|
                            0 <= j < m + 1 && #[trigger] cands.take(m + 1)[j].0.component_type
                                == cands.take(m + 1)[k as int].0.component_type implies (j < k
                            ==> beats(cands.take(m + 1)[k as int], cands.take(m + 1)[j])) && (j > k
                            ==> !beats(cands.take(m + 1)[j], cands.take(m + 1)[k as int])) by {
                            if j < m {
                                assert(cands.take(m as int)[j] == cands[j]);
                                assert(cands.take(m as int)[j].0.component_type
                                    == cands.take(m as int)[k as int].0.component_type);
                            }
                        }
                    },
                }
            }
        }
        m = m + 1;
    }
    assert(cands.take(total as int) =~= cands);
    sel
}

fn emit_selection(flat: &Vec<(BatteryComponent, u16, usize)>, sel: &Vec<Option<usize>>, Ghost(
    rv,
): Ghost<Seq<ReportView>>) -> (out: Vec<BatteryComponent>)
    requires
        selection_ok(sel@, flat_view(flat@, rv)),
    ensures
        resolves(out@, flat_view(flat@, rv)),
{
    let ghost cands = flat_view(flat@, rv);
    let total = flat.len();
    let mut out: Vec<BatteryComponent> = Vec::new();
    let mut t: usize = 0;
    while t < 6
        invariant
            total == flat@.len(),
            cands == flat_view(flat@, rv),
            cands.len() == total,
            sel@.len() == 6,
            t <= 6,
            forall|tt: int|
                0 <= tt < 6 ==> match #[trigger] sel@[tt] {
                    None => forall|k: int|
                        0 <= k < total ==> cands[k].0.component_type.spec_rank() != tt,
                    Some(k) => k < total && cands[k as int].0.component_type.spec_rank() == tt
                        && is_first_best(cands, k as int),
                },
            forall|i: int| 0 <= i < out@.len() ==> (#[trigger] out@[i]).component_type.spec_rank() < t,
            forall|i: int, j: int|
                0 <= i < j < out@.len() ==> out@[i].component_type.spec_rank()
                    < out@[j].component_type.spec_rank(),
            all_first_best(out@, cands),
            forall|tt: int|
                0 <= tt < t && sel@[tt] is Some ==> exists|i: int|
                    0 <= i < out@.len() && (#[trigger] out@[i]).component_type.spec_rank() == tt,
        decreases 6 - t,
    {
        let ghost old_out = out@;
        match sel[t] {
            Some(k) => {
                out.push(flat[k].0);
                assert forall|tt: int| 0 <= tt < t && sel@[tt] is Some implies exists|i: int|
                    0 <= i < out@.len() && (#[trigger] out@[i]).component_type.spec_rank() == tt by {
                    let i = choose|i: int|
                        0 <= i < old_out.len() && (#[trigger] old_out[i]).component_type.spec_rank()
                            == tt;
                    assert(out@[i] == old_out[i]);
                }
                assert forall|i: int| 0 <= i < out@.len() implies exists|kk: int|
                    is_first_best(cands, kk) && cands[kk].0 == #[trigger] out@[i] by {
                    assert(all_first_best(old_out, cands));
                    if i < old_out.len() {
                        assert(out@[i] == old_out[i]);
                    } else {
                        assert(cands[k as int].0 == out@[i]);
                    }
                }
                assert(is_first_best(cands, k as int) && cands[k as int].0 == out@[out@.len() - 1]);
                assert(out@[out@.len() - 1].component_type.spec_rank() == t);
            },
            None => {},
        }
        t = t + 1;
    }
    assert forall|k: int| #![trigger cands[k]] 0 <= k < cands.len() implies exists|i: int|
        0 <= i < out@.len() && (#[trigger] out@[i]).component_type == cands[k].0.component_type by {
        let tt = cands[k].0.component_type.spec_rank();
        assert(sel@[tt] is Some);
        let i = choose|i: int|
            0 <= i < out@.len() && (#[trigger] out@[i]).component_type.spec_rank() == tt;
        assert(out@[i].component_type == cands[k].0.component_type);
    }
    assert(forall|i: int, j: int|
        0 <= i < j < out@.len() ==> out@[i].component_type.spec_rank()
            < out@[j].component_type.spec_rank());
    out
}

/// Resolves provider reports independently for each component type.
///
/// Reports for other device identifiers are ignored after the first report's
/// device id establishes the resolution group.
pub fn resolve_reports(reports: &[ProviderReport]) -> (r: Vec<BatteryComponent>)
    ensures
        resolves(r@, resolution_candidates(reports@)),
        reports@.len() == 0 ==> r@.len() == 0,
{
    if reports.len() == 0 {
        return Vec::new();
    }
    let flat = gather_candidates(reports);
    let sel = select_best(reports, &flat);
    emit_selection(&flat, &sel, Ghost(reports_view(reports@)))
}

} // verus!

verus! {

/// An available value outranks an unavailable one, whatever else differs.
pub proof fn lemma_available_beats_unavailable(a: Candidate, b: Candidate)
    requires
        a.0.percentage is Some,
        b.0.percentage is None,
    ensures
        beats(a, b),
{
}

/// Among available values, a fresh one outranks a stale one, whatever else differs.
pub proof fn lemma_fresh_beats_stale(a: Candidate, b: Candidate)
    requires
        a.0.percentage is Some,
        b.0.percentage is Some,
        !a.0.stale,
        b.0.stale,
    ensures
        beats(a, b),
{
}

/// When availability, staleness, confidence and source agree, the newer
/// value outranks the older one, whatever the report priorities.
pub proof fn lemma_newer_beats_older_at_equal_quality(a: Candidate, b: Candidate)
    requires
        (a.0.percentage is Some) == (b.0.percentage is Some),
        a.0.stale == b.0.stale,
        a.0.confidence == b.0.confidence,
        a.0.source == b.0.source,
        a.0.updated_at.unix_nanos > b.0.updated_at.unix_nanos,
    ensures
        beats(a, b),
{
}


/// Whether confidence `a` stands above `b` in the order
/// Unknown < Low < Medium < High < Verified.
pub open spec fn confidence_above(a: DataConfidence, b: DataConfidence) -> bool {
    match (a, b) {
        (DataConfidence::Verified, DataConfidence::Verified) => false,
        (DataConfidence::Verified, _) => true,
        (DataConfidence::High, DataConfidence::Medium) => true,
        (DataConfidence::High, DataConfidence::Low) => true,
        (DataConfidence::High, DataConfidence::Unknown) => true,
        (DataConfidence::Medium, DataConfidence::Low) => true,
        (DataConfidence::Medium, DataConfidence::Unknown) => true,
        (DataConfidence::Low, DataConfidence::Unknown) => true,
        _ => false,
    }
}

/// Between two candidates that are equally available and equally fresh, the
/// one with the higher confidence (Unknown < Low < Medium < High < Verified)
/// is the better one, whatever their sources, times, priorities and
/// providers: a Verified value beats a Low one.
pub proof fn lemma_higher_confidence_wins(a: Candidate, b: Candidate)
    requires
        (a.0.percentage is Some) == (b.0.percentage is Some),
        a.0.stale == b.0.stale,
        confidence_above(a.0.confidence, b.0.confidence),
    ensures
        beats(a, b),
        !beats(b, a),
{
    lemma_candidate_order_antisymmetric(a, b);
}
} // verus!
