//! What the registry keeps when the same observations arrive twice: every
//! level of its state, from one component slot up to the whole registry,
//! ends where the first delivery left it.

use vstd::prelude::*;

use crate::battery::BatteryComponent;
use crate::device::ConnectionState;
use crate::entries::{has_id, unique_ids};
use crate::registry::{
    absorb, device_after, device_or_empty, empty_provider, providers_wf, slots_wf, view_wf,
    DeviceView, lemma_slot_after_idempotent, provider_after, providers_after,
    slot_after, DeviceSnapshot, ProviderView, Slots,
};
use crate::provider::{ProviderError, RawObservation, ReportView};
use crate::processor::{apply_reports, processed, produced_reports, provider_trace};
use crate::providers::{lemma_outcome_unique, same_outcome, DeviceProvider, ProviderKind};
use crate::freshness::FreshnessPolicy;
use crate::resolver::{beats, is_first_best, resolves, Candidate};
use crate::timestamp::Timestamp;

verus! {

/// The components of `comps` whose type has rank `t`, in order.
pub open spec fn of_rank(comps: Seq<BatteryComponent>, t: int) -> Seq<BatteryComponent>
    decreases comps.len(),
{
    if comps.len() == 0 {
        Seq::empty()
    } else {
        of_rank(comps.drop_last(), t) + if comps.last().component_type.spec_rank() == t {
            seq![comps.last()]
        } else {
            Seq::empty()
        }
    }
}

/// Each slot of absorbed components holds what that slot alone makes of
/// the components of its type.
pub proof fn lemma_absorb_by_slot(s: Slots, comps: Seq<BatteryComponent>)
    requires
        s.len() == 6,
    ensures
        absorb(s, comps).0.len() == 6,
        forall|t: int| 0 <= t < 6 ==> #[trigger] absorb(s, comps).0[t] == slot_after(s[t], of_rank(comps, t)),
    decreases comps.len(),
{
    if comps.len() > 0 {
        let prev = comps.drop_last();
        lemma_absorb_by_slot(s, prev);
        let c = comps.last();
        assert forall|t: int| 0 <= t < 6 implies #[trigger] absorb(s, comps).0[t] == slot_after(
            s[t],
            of_rank(comps, t),
        ) by {
            if c.component_type.spec_rank() == t {
                assert(of_rank(comps, t).drop_last() =~= of_rank(prev, t));
                assert(of_rank(comps, t).last() == c);
            } else {
                assert(of_rank(comps, t) =~= of_rank(prev, t));
            }
        }
    }
}

/// Absorbing the same components a second time leaves the slots as the
/// first time left them.
pub proof fn lemma_absorb_idempotent(s: Slots, comps: Seq<BatteryComponent>)
    requires
        s.len() == 6,
    ensures
        absorb(absorb(s, comps).0, comps).0 == absorb(s, comps).0,
{
    let a = absorb(s, comps).0;
    lemma_absorb_by_slot(s, comps);
    lemma_absorb_by_slot(a, comps);
    assert forall|t: int| 0 <= t < 6 implies #[trigger] absorb(a, comps).0[t] == a[t] by {
        lemma_slot_after_idempotent(s[t], of_rank(comps, t));
    }
    assert(absorb(a, comps).0 =~= a);
}

/// Absorbing two runs of components one after the other is absorbing their
/// concatenation.
pub proof fn lemma_absorb_concat(s: Slots, a: Seq<BatteryComponent>, b: Seq<BatteryComponent>)
    ensures
        absorb(absorb(s, a).0, b).0 == absorb(s, a + b).0,
    decreases b.len(),
{
    if b.len() == 0 {
        assert(a + b =~= a);
    } else {
        lemma_absorb_concat(s, a, b.drop_last());
        assert((a + b).drop_last() =~= a + b.drop_last());
        assert((a + b).last() == b.last());
    }
}

/// A provider's state after `reports`, one after the other.
pub open spec fn provider_run(p: ProviderView, reports: Seq<ReportView>) -> ProviderView
    decreases reports.len(),
{
    if reports.len() == 0 {
        p
    } else {
        provider_after(provider_run(p, reports.drop_last()), reports.last()).0
    }
}

/// The components of `reports`, report after report.
pub open spec fn all_components(reports: Seq<ReportView>) -> Seq<BatteryComponent>
    decreases reports.len(),
{
    if reports.len() == 0 {
        Seq::empty()
    } else {
        all_components(reports.drop_last()) + reports.last().components
    }
}

/// The latest of `o` and the times of `reports`, as a provider records it.
pub open spec fn latest_time(o: Option<Timestamp>, reports: Seq<ReportView>) -> Option<Timestamp>
    decreases reports.len(),
{
    if reports.len() == 0 {
        o
    } else {
        let t = reports.last().observed_at;
        Some(
            match latest_time(o, reports.drop_last()) {
                Some(p) => if p.unix_nanos < t.unix_nanos {
                    t
                } else {
                    p
                },
                None => t,
            },
        )
    }
}

proof fn lemma_provider_run_parts(p: ProviderView, reports: Seq<ReportView>)
    ensures
        provider_run(p, reports).slots == absorb(p.slots, all_components(reports)).0,
        provider_run(p, reports).observed_at == latest_time(p.observed_at, reports),
        reports.len() > 0 ==> provider_run(p, reports).priority == reports.last().priority,
        reports.len() == 0 ==> provider_run(p, reports) == p,
    decreases reports.len(),
{
    if reports.len() > 0 {
        let prev = reports.drop_last();
        lemma_provider_run_parts(p, prev);
        lemma_absorb_concat(p.slots, all_components(prev), reports.last().components);
    } else {
        assert(all_components(reports) =~= Seq::<BatteryComponent>::empty());
    }
}

proof fn lemma_latest_time_bound(o: Option<Timestamp>, reports: Seq<ReportView>)
    ensures
        reports.len() > 0 ==> latest_time(o, reports) is Some,
        latest_time(o, reports) matches Some(m) ==> forall|i: int|
            0 <= i < reports.len() ==> (#[trigger] reports[i]).observed_at.unix_nanos <= m.unix_nanos,
        o matches Some(t) && (forall|i: int|
            0 <= i < reports.len() ==> (#[trigger] reports[i]).observed_at.unix_nanos
                <= t.unix_nanos) ==> latest_time(o, reports) == o,
    decreases reports.len(),
{
    if reports.len() > 0 {
        let prev = reports.drop_last();
        lemma_latest_time_bound(o, prev);
        assert forall|i: int| 0 <= i < prev.len() implies prev[i] == reports[i] by {}
        assert(reports[reports.len() - 1] == reports.last());
        if let Some(t) = o {
            if forall|i: int|
                0 <= i < reports.len() ==> (#[trigger] reports[i]).observed_at.unix_nanos
                    <= t.unix_nanos {
                assert forall|i: int|
                    0 <= i < prev.len() implies (#[trigger] prev[i]).observed_at.unix_nanos
                    <= t.unix_nanos by {
                    assert(prev[i] == reports[i]);
                }
            }
        }
    }
}

/// Running the same reports through a provider a second time leaves it as
/// the first run left it.
pub proof fn lemma_provider_run_idempotent(p: ProviderView, reports: Seq<ReportView>)
    requires
        p.slots.len() == 6,
    ensures
        provider_run(provider_run(p, reports), reports) == provider_run(p, reports),
{
    let q = provider_run(p, reports);
    lemma_provider_run_parts(p, reports);
    lemma_provider_run_parts(q, reports);
    if reports.len() > 0 {
        lemma_absorb_idempotent(p.slots, all_components(reports));
        lemma_latest_time_bound(p.observed_at, reports);
        lemma_latest_time_bound(q.observed_at, reports);
    }
}

/// The provider entries of a device after `reports`, one after the other.
pub open spec fn providers_run(ps: Seq<(Seq<char>, ProviderView)>, reports: Seq<ReportView>) -> Seq<
    (Seq<char>, ProviderView),
>
    decreases reports.len(),
{
    if reports.len() == 0 {
        ps
    } else {
        providers_after(providers_run(ps, reports.drop_last()), reports.last()).0
    }
}

/// The reports of provider `pid`, in order.
pub open spec fn reports_of(reports: Seq<ReportView>, pid: Seq<char>) -> Seq<ReportView>
    decreases reports.len(),
{
    if reports.len() == 0 {
        Seq::empty()
    } else {
        reports_of(reports.drop_last(), pid) + if reports.last().provider_id == pid {
            seq![reports.last()]
        } else {
            Seq::empty()
        }
    }
}

/// Each provider entry after `reports` is what that provider alone makes of
/// its own reports; entries keep their places, and providers seen for the
/// first time follow in order.
pub proof fn lemma_providers_run(ps: Seq<(Seq<char>, ProviderView)>, reports: Seq<ReportView>)
    requires
        unique_ids(ps),
    ensures
        unique_ids(providers_run(ps, reports)),
        providers_run(ps, reports).len() >= ps.len(),
        forall|i: int|
            0 <= i < ps.len() ==> #[trigger] providers_run(ps, reports)[i] == (
                ps[i].0,
                provider_run(ps[i].1, reports_of(reports, ps[i].0)),
            ),
        forall|i: int|
            ps.len() <= i < providers_run(ps, reports).len() ==> (#[trigger] providers_run(
                ps,
                reports,
            )[i]).1 == provider_run(
                empty_provider(),
                reports_of(reports, providers_run(ps, reports)[i].0),
            ),
        forall|pid: Seq<char>|
            !has_id(providers_run(ps, reports), pid) ==> #[trigger] reports_of(reports, pid).len() == 0,
        (forall|i: int| 0 <= i < reports.len() ==> has_id(ps, (#[trigger] reports[i]).provider_id))
            ==> providers_run(ps, reports).len() == ps.len(),
    decreases reports.len(),
{
    if reports.len() == 0 {
        assert forall|pid: Seq<char>| !has_id(ps, pid) implies #[trigger] reports_of(reports, pid).len()
            == 0 by {}
    } else {
        let prev = reports.drop_last();
        let r = reports.last();
        lemma_providers_run(ps, prev);
        let q = providers_run(ps, prev);
        let out = providers_run(ps, reports);
        assert(out == providers_after(q, r).0);
        if has_id(q, r.provider_id) {
            let k = choose|i: int| 0 <= i < q.len() && (#[trigger] q[i]).0 == r.provider_id;
            assert(out == q.update(k, (q[k].0, provider_after(q[k].1, r).0)));
            assert forall|i: int| 0 <= i < out.len() implies (#[trigger] out[i]).0 == q[i].0 by {}
            assert forall|i: int, j: int|
                0 <= i < out.len() && 0 <= j < out.len() && i != j implies (#[trigger] out[i]).0
                != (#[trigger] out[j]).0 by {
                assert(out[i].0 == q[i].0);
                assert(out[j].0 == q[j].0);
            }
            assert forall|i: int| 0 <= i < out.len() implies #[trigger] out[i] == (
                q[i].0,
                provider_run(
                    if i < ps.len() {
                        ps[i].1
                    } else {
                        empty_provider()
                    },
                    reports_of(reports, q[i].0),
                ),
            ) by {
                if i < ps.len() {
                    assert(q[i] == (ps[i].0, provider_run(ps[i].1, reports_of(prev, ps[i].0))));
                } else {
                    assert(q[i].1 == provider_run(empty_provider(), reports_of(prev, q[i].0)));
                }
                if q[i].0 == r.provider_id {
                    assert(i == k);
                    let rs = reports_of(reports, q[i].0);
                    assert(rs.drop_last() =~= reports_of(prev, q[i].0));
                    assert(rs.last() == r);
                } else {
                    assert(i != k);
                    assert(reports_of(reports, q[i].0) =~= reports_of(prev, q[i].0));
                }
            }
            assert forall|i: int| 0 <= i < ps.len() implies #[trigger] out[i] == (
                ps[i].0,
                provider_run(ps[i].1, reports_of(reports, ps[i].0)),
            ) by {
                assert(out[i] == (q[i].0, provider_run(ps[i].1, reports_of(reports, q[i].0))));
                assert(q[i].0 == ps[i].0);
            }
            assert forall|i: int| ps.len() <= i < out.len() implies (#[trigger] out[i]).1
                == provider_run(empty_provider(), reports_of(reports, out[i].0)) by {
                assert(out[i] == (q[i].0, provider_run(empty_provider(), reports_of(reports, q[i].0))));
            }
            assert forall|pid: Seq<char>| !has_id(out, pid) implies #[trigger] reports_of(
                reports,
                pid,
            ).len() == 0 by {
                if has_id(q, pid) {
                    let j = choose|j: int| 0 <= j < q.len() && (#[trigger] q[j]).0 == pid;
                    assert(out[j].0 == pid);
                }
                assert(pid != r.provider_id) by {
                    assert(out[k].0 == r.provider_id);
                }
                assert(reports_of(reports, pid) =~= reports_of(prev, pid));
            }
        } else {
            let np = provider_after(empty_provider(), r).0;
            assert(out == q.push((r.provider_id, np)));
            assert(reports_of(prev, r.provider_id).len() == 0);
            assert forall|i: int, j: int|
                0 <= i < out.len() && 0 <= j < out.len() && i != j implies (#[trigger] out[i]).0
                != (#[trigger] out[j]).0 by {
                if i < q.len() && j < q.len() {
                    assert(out[i] == q[i]);
                    assert(out[j] == q[j]);
                } else if i < q.len() {
                    assert(out[i] == q[i]);
                    assert(q[i].0 != r.provider_id);
                } else if j < q.len() {
                    assert(out[j] == q[j]);
                    assert(q[j].0 != r.provider_id);
                }
            }
            assert forall|i: int| 0 <= i < ps.len() implies #[trigger] out[i] == (
                ps[i].0,
                provider_run(ps[i].1, reports_of(reports, ps[i].0)),
            ) by {
                assert(out[i] == q[i]);
                assert(q[i].0 != r.provider_id);
                assert(reports_of(reports, ps[i].0) =~= reports_of(prev, ps[i].0));
            }
            assert forall|i: int| ps.len() <= i < out.len() implies (#[trigger] out[i]).1
                == provider_run(empty_provider(), reports_of(reports, out[i].0)) by {
                if i < q.len() {
                    assert(out[i] == q[i]);
                    assert(q[i].0 != r.provider_id);
                    assert(reports_of(reports, q[i].0) =~= reports_of(prev, q[i].0));
                } else {
                    assert(i == q.len());
                    assert(out[i] == (r.provider_id, np));
                    let rs = reports_of(reports, r.provider_id);
                    assert(rs.drop_last() =~= reports_of(prev, r.provider_id));
                    assert(reports_of(prev, r.provider_id) =~= Seq::<ReportView>::empty());
                    assert(rs.last() == r);
                    assert(provider_run(empty_provider(), rs.drop_last()) == empty_provider());
                    assert(provider_run(empty_provider(), rs) == np);
                }
            }
            assert forall|pid: Seq<char>| !has_id(out, pid) implies #[trigger] reports_of(
                reports,
                pid,
            ).len() == 0 by {
                if has_id(q, pid) {
                    let j = choose|j: int| 0 <= j < q.len() && (#[trigger] q[j]).0 == pid;
                    assert(out[j].0 == pid);
                }
                assert(out[q.len() as int].0 == r.provider_id);
                assert(reports_of(reports, pid) =~= reports_of(prev, pid));
            }
            if forall|i: int| 0 <= i < reports.len() ==> has_id(ps, (#[trigger] reports[i]).provider_id) {
                assert(has_id(ps, reports[reports.len() - 1].provider_id));
                let j = choose|j: int| 0 <= j < ps.len() && (#[trigger] ps[j]).0 == r.provider_id;
                assert(q[j].0 == ps[j].0);
            }
        }
        if forall|i: int| 0 <= i < reports.len() ==> has_id(ps, (#[trigger] reports[i]).provider_id) {
            assert forall|i: int| 0 <= i < prev.len() implies has_id(ps, (#[trigger] prev[i]).provider_id) by {
                assert(prev[i] == reports[i]);
            }
        }
    }
}

/// Running the same reports through a device's providers a second time
/// leaves them as the first run left them.
pub proof fn lemma_providers_run_idempotent(
    ps: Seq<(Seq<char>, ProviderView)>,
    reports: Seq<ReportView>,
)
    requires
        providers_wf(ps),
    ensures
        providers_run(providers_run(ps, reports), reports) == providers_run(ps, reports),
{
    let q = providers_run(ps, reports);
    lemma_providers_run(ps, reports);
    assert forall|i: int| 0 <= i < reports.len() implies has_id(q, (#[trigger] reports[i]).provider_id) by {
        let pid = reports[i].provider_id;
        if !has_id(q, pid) {
            lemma_reports_of_contains(reports, i);
        }
    }
    lemma_providers_run(q, reports);
    let q2 = providers_run(q, reports);
    assert forall|i: int| 0 <= i < q.len() implies #[trigger] q2[i] == q[i] by {
        let rs = reports_of(reports, q[i].0);
        if i < ps.len() {
            assert(slots_wf(ps[i].1.slots));
            lemma_provider_run_idempotent(ps[i].1, rs);
        } else {
            lemma_provider_run_idempotent(empty_provider(), rs);
        }
    }
    assert(q2 =~= q);
}

proof fn lemma_reports_of_contains(reports: Seq<ReportView>, i: int)
    requires
        0 <= i < reports.len(),
    ensures
        reports_of(reports, reports[i].provider_id).len() > 0,
    decreases reports.len(),
{
    let pid = reports[i].provider_id;
    if i < reports.len() - 1 {
        let prev = reports.drop_last();
        assert(prev[i] == reports[i]);
        lemma_reports_of_contains(prev, i);
    }
}

/// One change delivered to the registry: a device's connection state, or a
/// provider report.
pub enum Delivery {
    /// The device with this identifier is in this connection state.
    Connection(Seq<char>, ConnectionState),
    /// A provider reported on a device.
    Report(ReportView),
}

/// The device a delivery is about.
pub open spec fn delivery_device(e: Delivery) -> Seq<char> {
    match e {
        Delivery::Connection(id, _) => id,
        Delivery::Report(r) => r.device_id,
    }
}

/// A device's state after one delivery about it.
pub open spec fn device_step(d: DeviceView, e: Delivery) -> DeviceView {
    match e {
        Delivery::Connection(_, state) => DeviceView { connection_state: state, ..d },
        Delivery::Report(r) => device_after(d, r).0,
    }
}

/// The registry after one delivery.
pub open spec fn delivered(m: Map<Seq<char>, DeviceView>, e: Delivery) -> Map<Seq<char>, DeviceView> {
    m.insert(delivery_device(e), device_step(device_or_empty(m, delivery_device(e)), e))
}

/// The registry after `es`, one after the other.
pub open spec fn deliver_all(m: Map<Seq<char>, DeviceView>, es: Seq<Delivery>) -> Map<
    Seq<char>,
    DeviceView,
>
    decreases es.len(),
{
    if es.len() == 0 {
        m
    } else {
        delivered(deliver_all(m, es.drop_last()), es.last())
    }
}

/// Device `id` after the deliveries of `es` that are about it.
pub open spec fn device_run(d: DeviceView, es: Seq<Delivery>, id: Seq<char>) -> DeviceView
    decreases es.len(),
{
    if es.len() == 0 {
        d
    } else {
        let prev = device_run(d, es.drop_last(), id);
        if delivery_device(es.last()) == id {
            device_step(prev, es.last())
        } else {
            prev
        }
    }
}

/// Whether some delivery of `es` is about device `id`.
pub open spec fn touches(es: Seq<Delivery>, id: Seq<char>) -> bool
    decreases es.len(),
{
    es.len() > 0 && (delivery_device(es.last()) == id || touches(es.drop_last(), id))
}

/// The reports among the deliveries about device `id`.
pub open spec fn device_reports_in(es: Seq<Delivery>, id: Seq<char>) -> Seq<ReportView>
    decreases es.len(),
{
    if es.len() == 0 {
        Seq::empty()
    } else {
        device_reports_in(es.drop_last(), id) + match es.last() {
            Delivery::Report(r) => if r.device_id == id {
                seq![r]
            } else {
                Seq::empty()
            },
            Delivery::Connection(_, _) => Seq::empty(),
        }
    }
}

/// The connection state of device `id` after the deliveries of `es`.
pub open spec fn connection_run(c: ConnectionState, es: Seq<Delivery>, id: Seq<char>) -> ConnectionState
    decreases es.len(),
{
    if es.len() == 0 {
        c
    } else {
        match es.last() {
            Delivery::Connection(d, state) => if d == id {
                state
            } else {
                connection_run(c, es.drop_last(), id)
            },
            Delivery::Report(_) => connection_run(c, es.drop_last(), id),
        }
    }
}

/// Whether `es` sets the connection state of device `id`.
pub open spec fn sets_connection(es: Seq<Delivery>, id: Seq<char>) -> bool
    decreases es.len(),
{
    es.len() > 0 && (es.last() matches Delivery::Connection(d, _) && d == id || sets_connection(
        es.drop_last(),
        id,
    ))
}

proof fn lemma_connection_run(c: ConnectionState, e: ConnectionState, es: Seq<Delivery>, id: Seq<char>)
    ensures
        sets_connection(es, id) ==> connection_run(c, es, id) == connection_run(e, es, id),
        !sets_connection(es, id) ==> connection_run(c, es, id) == c,
    decreases es.len(),
{
    if es.len() > 0 {
        lemma_connection_run(c, e, es.drop_last(), id);
    }
}

proof fn lemma_device_run_parts(d: DeviceView, es: Seq<Delivery>, id: Seq<char>)
    ensures
        device_run(d, es, id).providers == providers_run(d.providers, device_reports_in(es, id)),
        device_run(d, es, id).connection_state == connection_run(d.connection_state, es, id),
    decreases es.len(),
{
    if es.len() > 0 {
        let prev = es.drop_last();
        lemma_device_run_parts(d, prev, id);
        let rs = device_reports_in(es, id);
        match es.last() {
            Delivery::Report(r) => {
                if r.device_id == id {
                    assert(rs.drop_last() =~= device_reports_in(prev, id));
                    assert(rs.last() == r);
                } else {
                    assert(rs =~= device_reports_in(prev, id));
                }
            },
            Delivery::Connection(_, _) => {
                assert(rs =~= device_reports_in(prev, id));
            },
        }
    }
}

/// Running the same deliveries through a device a second time leaves it as
/// the first run left it.
pub proof fn lemma_device_run_idempotent(d: DeviceView, es: Seq<Delivery>, id: Seq<char>)
    requires
        providers_wf(d.providers),
    ensures
        device_run(device_run(d, es, id), es, id) == device_run(d, es, id),
{
    let d1 = device_run(d, es, id);
    lemma_device_run_parts(d, es, id);
    lemma_device_run_parts(d1, es, id);
    lemma_providers_run_idempotent(d.providers, device_reports_in(es, id));
    lemma_connection_run(d1.connection_state, d.connection_state, es, id);
    lemma_connection_run(d.connection_state, d.connection_state, es, id);
}

/// Each device after `es` is what the deliveries about it make of it; a
/// device is known afterwards exactly when it was known before or some
/// delivery is about it.
pub proof fn lemma_deliver_all_by_device(m: Map<Seq<char>, DeviceView>, es: Seq<Delivery>, id: Seq<char>)
    ensures
        deliver_all(m, es).contains_key(id) == (m.contains_key(id) || touches(es, id)),
        deliver_all(m, es).contains_key(id) ==> deliver_all(m, es)[id] == device_run(
            device_or_empty(m, id),
            es,
            id,
        ),
    decreases es.len(),
{
    if es.len() > 0 {
        lemma_deliver_all_by_device(m, es.drop_last(), id);
        lemma_untouched_device(device_or_empty(m, id), es.drop_last(), id);
    }
}

proof fn lemma_untouched_device(d: DeviceView, es: Seq<Delivery>, id: Seq<char>)
    ensures
        !touches(es, id) ==> device_run(d, es, id) == d,
    decreases es.len(),
{
    if es.len() > 0 {
        lemma_untouched_device(d, es.drop_last(), id);
    }
}

/// Delivering the same changes a second time, to the registry the first
/// delivery left, with devices outside `kept` forgotten in between when
/// `forget` holds, leaves the registry as the first delivery left it,
/// provided the first delivery started from the same forgetting.
pub proof fn lemma_deliver_all_again(
    m: Map<Seq<char>, DeviceView>,
    es: Seq<Delivery>,
    forget: bool,
    kept: Set<Seq<char>>,
)
    requires
        view_wf(m),
    ensures
        deliver_all(
            if forget {
                deliver_all(if forget { m.restrict(kept) } else { m }, es).restrict(kept)
            } else {
                deliver_all(m, es)
            },
            es,
        ) == deliver_all(if forget { m.restrict(kept) } else { m }, es),
{
    let start1 = if forget { m.restrict(kept) } else { m };
    let v1 = deliver_all(start1, es);
    let start2 = if forget { v1.restrict(kept) } else { v1 };
    let v2 = deliver_all(start2, es);
    assert forall|id: Seq<char>| #[trigger] v2.contains_key(id) == v1.contains_key(id) by {
        lemma_deliver_all_by_device(start1, es, id);
        lemma_deliver_all_by_device(start2, es, id);
    }
    assert forall|id: Seq<char>| #[trigger] v2.contains_key(id) implies v2[id] == v1[id] by {
        lemma_deliver_all_by_device(start1, es, id);
        lemma_deliver_all_by_device(start2, es, id);
        let d0 = device_or_empty(start1, id);
        assert(providers_wf(d0.providers)) by {
            if !start1.contains_key(id) {
                assert(d0.providers =~= Seq::<(Seq<char>, ProviderView)>::empty());
            }
        }
        lemma_device_run_idempotent(d0, es, id);
        if start2.contains_key(id) {
            assert(start2[id] == v1[id]);
        } else {
            assert(!start1.contains_key(id));
        }
    }
    assert(v2 =~= v1);
}

/// Applying reports is delivering them one after the other.
pub proof fn lemma_apply_reports_delivered(m: Map<Seq<char>, DeviceView>, reports: Seq<ReportView>)
    ensures
        apply_reports(m, reports) == deliver_all(m, reports.map_values(|r: ReportView| Delivery::Report(r))),
    decreases reports.len(),
{
    if reports.len() > 0 {
        let prev = reports.drop_last();
        lemma_apply_reports_delivered(m, prev);
        let es = reports.map_values(|r: ReportView| Delivery::Report(r));
        assert(es.drop_last() =~= prev.map_values(|r: ReportView| Delivery::Report(r)));
        assert(es.last() == Delivery::Report(reports.last()));
    }
}

/// Delivering two runs one after the other is delivering their concatenation.
pub proof fn lemma_deliver_all_concat(m: Map<Seq<char>, DeviceView>, a: Seq<Delivery>, b: Seq<Delivery>)
    ensures
        deliver_all(deliver_all(m, a), b) == deliver_all(m, a + b),
    decreases b.len(),
{
    if b.len() == 0 {
        assert(a + b =~= a);
    } else {
        lemma_deliver_all_concat(m, a, b.drop_last());
        assert((a + b).drop_last() =~= a + b.drop_last());
        assert((a + b).last() == b.last());
    }
}

/// Whether `outcomes` is a whole run of the providers over an observation:
/// it stops at the first failure, or else asks every provider.
pub open spec fn complete_trace(
    providers: Seq<ProviderKind>,
    observation: RawObservation,
    outcomes: Seq<Result<Option<ReportView>, ProviderError>>,
) -> bool {
    &&& provider_trace(providers, observation, outcomes)
    &&& !(outcomes.len() > 0 && outcomes.last() is Err) ==> outcomes.len() == providers.len()
}

proof fn lemma_produced_same(
    x: Seq<Result<Option<ReportView>, ProviderError>>,
    y: Seq<Result<Option<ReportView>, ProviderError>>,
)
    requires
        x.len() == y.len(),
        forall|i: int| 0 <= i < x.len() ==> same_outcome(#[trigger] x[i], y[i]),
    ensures
        produced_reports(x) == produced_reports(y),
    decreases x.len(),
{
    if x.len() > 0 {
        assert forall|i: int| 0 <= i < x.len() - 1 implies same_outcome(
            #[trigger] x.drop_last()[i],
            y.drop_last()[i],
        ) by {
            assert(x.drop_last()[i] == x[i]);
            assert(y.drop_last()[i] == y[i]);
        }
        lemma_produced_same(x.drop_last(), y.drop_last());
        assert(same_outcome(x[x.len() - 1], y[y.len() - 1]));
    }
}

/// Two whole runs of this library's providers over one observation produce
/// the same reports.
pub proof fn lemma_complete_trace_unique(
    providers: Seq<ProviderKind>,
    observation: RawObservation,
    x: Seq<Result<Option<ReportView>, ProviderError>>,
    y: Seq<Result<Option<ReportView>, ProviderError>>,
)
    requires
        complete_trace(providers, observation, x),
        complete_trace(providers, observation, y),
    ensures
        produced_reports(x) == produced_reports(y),
{
    let n = if x.len() < y.len() { x.len() } else { y.len() };
    assert forall|i: int| 0 <= i < n implies same_outcome(#[trigger] x[i], y[i]) by {
        if providers[i].spec_supports(observation) {
            lemma_outcome_unique(providers[i], observation, x[i], y[i]);
        }
    }
    if x.len() < y.len() {
        assert(x.len() > 0 && x.last() is Err);
        assert(same_outcome(x[x.len() - 1], y[x.len() - 1]));
        assert(y[x.len() - 1] is Ok);
    }
    if y.len() < x.len() {
        assert(y.len() > 0 && y.last() is Err);
        assert(same_outcome(x[y.len() - 1], y[y.len() - 1]));
        assert(x[y.len() - 1] is Ok);
    }
    lemma_produced_same(x, y);
}

/// What one observation delivers to the registry: its connection state, or
/// the reports of a whole run of the providers over it.
pub open spec fn observation_deliveries(providers: Seq<ProviderKind>, observation: RawObservation) -> Seq<
    Delivery,
> {
    match observation {
        RawObservation::Connection { device_id, state, .. } => seq![
            Delivery::Connection(device_id@, state),
        ],
        _ => produced_reports(
            choose|outcomes: Seq<Result<Option<ReportView>, ProviderError>>|
                complete_trace(providers, observation, outcomes),
        ).map_values(|r: ReportView| Delivery::Report(r)),
    }
}

/// The registry after processing an observation with this library's
/// providers is what the observation delivers.
pub proof fn lemma_processed_delivers(
    providers: Seq<ProviderKind>,
    policy: FreshnessPolicy,
    before: Map<Seq<char>, DeviceView>,
    observation: RawObservation,
    after: Map<Seq<char>, DeviceView>,
    result: Result<DeviceSnapshot, crate::processor::ProcessingError>,
)
    requires
        processed(providers, policy, before, observation, after, result),
    ensures
        after == deliver_all(before, observation_deliveries(providers, observation)),
{
    match observation {
        RawObservation::Connection { device_id, state, .. } => {
            let es = observation_deliveries(providers, observation);
            assert(es.drop_last() =~= Seq::<Delivery>::empty());
            assert(deliver_all(before, es.drop_last()) == before);
            assert(es.last() == Delivery::Connection(device_id@, state));
            assert(delivery_device(es.last()) == observation.spec_device_id());
            assert(deliver_all(before, es) == delivered(before, es.last()));
        },
        _ => {
            let w = choose|outcomes: Seq<Result<Option<ReportView>, ProviderError>>|
                provider_trace(providers, observation, outcomes) && after == apply_reports(
                    before,
                    produced_reports(outcomes),
                ) && if outcomes.len() > 0 && outcomes.last() is Err {
                    result matches Err(crate::processor::ProcessingError::Provider { provider_id, source })
                        && Err::<Option<ReportView>, ProviderError>(source) == outcomes.last()
                        && provider_id@ == providers[outcomes.len() - 1].spec_id()
                } else {
                    outcomes.len() == providers.len() && {
                        let id = observation.spec_device_id();
                        let at = observation.spec_observed_at();
                        match result {
                            Ok(s) => after.contains_key(id) && crate::registry::snapshot_matches(
                                s,
                                after[id],
                                id,
                                at,
                                policy,
                            ),
                            Err(crate::processor::ProcessingError::MissingSnapshot { device_id }) => !after.contains_key(id)
                                && device_id@ == id,
                            Err(crate::processor::ProcessingError::Provider { .. }) => false,
                        }
                    }
                };
            assert(complete_trace(providers, observation, w));
            let c = choose|outcomes: Seq<Result<Option<ReportView>, ProviderError>>|
                complete_trace(providers, observation, outcomes);
            lemma_complete_trace_unique(providers, observation, w, c);
            lemma_apply_reports_delivered(before, produced_reports(w));
        },
    }
}

proof fn lemma_sorted_prefix<K>(
    a: Seq<K>,
    b: Seq<K>,
    lt: spec_fn(K, K) -> bool,
    fa: spec_fn(int) -> int,
    fb: spec_fn(int) -> int,
    n: int,
)
    requires
        forall|x: K, y: K| #[trigger] lt(x, y) ==> !lt(y, x),
        forall|i: int, j: int| 0 <= i < j < a.len() ==> lt(#[trigger] a[i], #[trigger] a[j]),
        forall|i: int, j: int| 0 <= i < j < b.len() ==> lt(#[trigger] b[i], #[trigger] b[j]),
        forall|i: int| 0 <= i < a.len() ==> 0 <= #[trigger] fa(i) < b.len() && b[fa(i)] == a[i],
        forall|j: int| 0 <= j < b.len() ==> 0 <= #[trigger] fb(j) < a.len() && a[fb(j)] == b[j],
        0 <= n <= a.len(),
    ensures
        n <= b.len(),
        forall|i: int| 0 <= i < n ==> a[i] == b[i],
    decreases n,
{
    if n > 0 {
        lemma_sorted_prefix(a, b, lt, fa, fb, n - 1);
        let i = n - 1;
        let j = fa(i);
        if j < i {
            assert(b[j] == a[j]);
            assert(lt(a[j], a[i]));
        } else if j > i {
            let m = fb(i);
            if m < i {
                assert(a[m] == b[m]);
                assert(lt(b[m], b[i]));
            } else if m > i {
                assert(lt(a[i], a[m]));
                assert(lt(b[i], b[j]));
            }
        }
    }
}

/// Two sequences, each strictly increasing under an asymmetric order, that
/// hold the same elements (`fa` and `fb` locate each element of one in the
/// other) are the same sequence.
pub proof fn lemma_sorted_unique<K>(
    a: Seq<K>,
    b: Seq<K>,
    lt: spec_fn(K, K) -> bool,
    fa: spec_fn(int) -> int,
    fb: spec_fn(int) -> int,
)
    requires
        forall|x: K, y: K| #[trigger] lt(x, y) ==> !lt(y, x),
        forall|i: int, j: int| 0 <= i < j < a.len() ==> lt(#[trigger] a[i], #[trigger] a[j]),
        forall|i: int, j: int| 0 <= i < j < b.len() ==> lt(#[trigger] b[i], #[trigger] b[j]),
        forall|i: int| 0 <= i < a.len() ==> 0 <= #[trigger] fa(i) < b.len() && b[fa(i)] == a[i],
        forall|j: int| 0 <= j < b.len() ==> 0 <= #[trigger] fb(j) < a.len() && a[fb(j)] == b[j],
    ensures
        a == b,
{
    lemma_sorted_prefix(a, b, lt, fa, fb, a.len() as int);
    lemma_sorted_prefix(b, a, lt, fb, fa, b.len() as int);
    assert(a =~= b);
}

/// The first of the best candidates for a component type is one candidate.
proof fn lemma_first_best_unique(cands: Seq<Candidate>, k1: int, k2: int)
    requires
        is_first_best(cands, k1),
        is_first_best(cands, k2),
        cands[k1].0.component_type == cands[k2].0.component_type,
    ensures
        k1 == k2,
{
    if k1 < k2 {
        assert(beats(cands[k2], cands[k1]));
    } else if k2 < k1 {
        assert(beats(cands[k1], cands[k2]));
    }
}

/// Where the component of type `t` stands in `r`.
spec fn position_of_type(r: Seq<BatteryComponent>, t: crate::battery::ComponentType) -> int {
    choose|j: int| 0 <= j < r.len() && (#[trigger] r[j]).component_type == t
}

/// Whether every component of `r` is the first best candidate of its type.
#[verifier::opaque]
spec fn firsts(r: Seq<BatteryComponent>, cands: Seq<Candidate>) -> bool {
    crate::resolver::all_first_best(r, cands)
}

/// Whether `r` has a component of every type that has a candidate.
#[verifier::opaque]
spec fn covered(r: Seq<BatteryComponent>, cands: Seq<Candidate>) -> bool {
    crate::resolver::covers(r, cands)
}

/// The first best candidate that component `i` of `r` is.
spec fn best_of(r: Seq<BatteryComponent>, cands: Seq<Candidate>, i: int) -> int {
    choose|k: int| is_first_best(cands, k) && cands[k].0 == #[trigger] r[i]
}

proof fn lemma_best_of(r: Seq<BatteryComponent>, cands: Seq<Candidate>, i: int)
    requires
        firsts(r, cands),
        0 <= i < r.len(),
    ensures
        is_first_best(cands, best_of(r, cands, i)),
        cands[best_of(r, cands, i)].0 == r[i],
{
    reveal(firsts);
}

proof fn lemma_position_of_type(r: Seq<BatteryComponent>, cands: Seq<Candidate>, k: int)
    requires
        covered(r, cands),
        0 <= k < cands.len(),
    ensures
        0 <= position_of_type(r, cands[k].0.component_type) < r.len(),
        r[position_of_type(r, cands[k].0.component_type)].component_type == cands[k].0.component_type,
{
    reveal(covered);
    assert(cands[k] == cands[k]);
}

proof fn lemma_resolved_match(a: Seq<BatteryComponent>, b: Seq<BatteryComponent>, cands: Seq<Candidate>, i: int)
    requires
        firsts(a, cands),
        firsts(b, cands),
        covered(b, cands),
        0 <= i < a.len(),
    ensures
        0 <= position_of_type(b, a[i].component_type) < b.len(),
        b[position_of_type(b, a[i].component_type)] == a[i],
{
    let k1 = best_of(a, cands, i);
    lemma_best_of(a, cands, i);
    lemma_position_of_type(b, cands, k1);
    let j = position_of_type(b, a[i].component_type);
    let k2 = best_of(b, cands, j);
    lemma_best_of(b, cands, j);
    lemma_first_best_unique(cands, k1, k2);
}

/// A resolution of candidates is one sequence of components.
pub proof fn lemma_resolves_unique(a: Seq<BatteryComponent>, b: Seq<BatteryComponent>, cands: Seq<Candidate>)
    requires
        resolves(a, cands),
        resolves(b, cands),
    ensures
        a == b,
{
    assert(firsts(a, cands) && covered(a, cands) && firsts(b, cands) && covered(b, cands)) by {
        reveal(firsts);
        reveal(covered);
    }
    let fa = |i: int| position_of_type(b, a[i].component_type);
    let fb = |j: int| position_of_type(a, b[j].component_type);
    assert forall|i: int| 0 <= i < a.len() implies 0 <= #[trigger] fa(i) < b.len() && b[fa(i)] == a[i] by {
        lemma_resolved_match(a, b, cands, i);
    }
    assert forall|j: int| 0 <= j < b.len() implies 0 <= #[trigger] fb(j) < a.len() && a[fb(j)] == b[j] by {
        lemma_resolved_match(b, a, cands, j);
    }
    let lt = |x: BatteryComponent, y: BatteryComponent|
        x.component_type.spec_rank() < y.component_type.spec_rank();
    lemma_sorted_unique(a, b, lt, fa, fb);
}

proof fn lemma_slot_after_rank(x: Option<BatteryComponent>, comps: Seq<BatteryComponent>, t: int)
    requires
        x matches Some(c) ==> c.component_type.spec_rank() == t,
        forall|i: int| 0 <= i < comps.len() ==> (#[trigger] comps[i]).component_type.spec_rank() == t,
    ensures
        slot_after(x, comps) matches Some(c) ==> c.component_type.spec_rank() == t,
    decreases comps.len(),
{
    if comps.len() > 0 {
        let prev = comps.drop_last();
        assert forall|i: int| 0 <= i < prev.len() implies (#[trigger] prev[i]).component_type.spec_rank() == t by {
            assert(prev[i] == comps[i]);
        }
        lemma_slot_after_rank(x, prev, t);
        assert(comps[comps.len() - 1] == comps.last());
    }
}

proof fn lemma_of_rank_rank(comps: Seq<BatteryComponent>, t: int)
    ensures
        forall|i: int| 0 <= i < of_rank(comps, t).len() ==> (#[trigger] of_rank(comps, t)[i]).component_type.spec_rank() == t,
    decreases comps.len(),
{
    if comps.len() > 0 {
        lemma_of_rank_rank(comps.drop_last(), t);
        let prev = of_rank(comps.drop_last(), t);
        assert forall|i: int| 0 <= i < of_rank(comps, t).len() implies (#[trigger] of_rank(comps, t)[i]).component_type.spec_rank() == t by {
            if i < prev.len() {
                assert(of_rank(comps, t)[i] == prev[i]);
            }
        }
    }
}

/// Absorbing components keeps every slot holding its own component type.
pub proof fn lemma_absorb_wf(s: Slots, comps: Seq<BatteryComponent>)
    requires
        slots_wf(s),
    ensures
        slots_wf(absorb(s, comps).0),
{
    lemma_absorb_by_slot(s, comps);
    assert forall|t: int| 0 <= t < 6 implies match #[trigger] absorb(s, comps).0[t] {
        Some(c) => c.component_type.spec_rank() == t,
        None => true,
    } by {
        lemma_of_rank_rank(comps, t);
        lemma_slot_after_rank(s[t], of_rank(comps, t), t);
    }
}

/// Deliveries keep every device's providers distinct and well formed.
pub proof fn lemma_deliver_all_wf(m: Map<Seq<char>, DeviceView>, es: Seq<Delivery>)
    requires
        view_wf(m),
    ensures
        view_wf(deliver_all(m, es)),
{
    assert forall|id: Seq<char>| #[trigger] deliver_all(m, es).contains_key(id) implies providers_wf(
        deliver_all(m, es)[id].providers,
    ) by {
        lemma_deliver_all_by_device(m, es, id);
        let d = device_or_empty(m, id);
        assert(providers_wf(d.providers)) by {
            if !m.contains_key(id) {
                assert(d.providers =~= Seq::<(Seq<char>, ProviderView)>::empty());
            }
        }
        lemma_device_run_parts(d, es, id);
        let rs = device_reports_in(es, id);
        lemma_providers_run(d.providers, rs);
        let q = providers_run(d.providers, rs);
        assert forall|i: int| 0 <= i < q.len() implies slots_wf((#[trigger] q[i]).1.slots) by {
            let base = if i < d.providers.len() { d.providers[i].1 } else { empty_provider() };
            let own = reports_of(rs, q[i].0);
            lemma_provider_run_parts(base, own);
            lemma_absorb_wf(base.slots, all_components(own));
        }
    }
}

} // verus!
