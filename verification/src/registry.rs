//! In-memory normalized device registry: the latest known component per
//! provider and device, resolved and freshness-adjusted on demand.

use vstd::prelude::*;

use crate::battery::{BatteryComponent, ComponentType};
use crate::device::ConnectionState;
use crate::freshness::{expire_all, expire_components, FreshnessPolicy};
use crate::provider::{ProviderReport, ReportView};
use crate::resolver::{reports_view, resolve_reports, resolves, view_candidates};
use crate::entries::{entries_map, list_contains, list_has, find_id, has_id, lemma_map_at, lemma_map_insert,
    lemma_map_update, lemma_sorted_insert, lemma_sorted_unique, sorted_ids, sorted_position,
    unique_ids};
use crate::text::{lemma_text_order_equal, text_order};
use crate::timestamp::Timestamp;

verus! {

/// One optional component per component type, in declared order.
pub type Slots = Seq<Option<BatteryComponent>>;

/// Whether a stored component `existing` gives way to `incoming`: an older
/// value never replaces a newer one, an unavailable value never erases a
/// known one, and an identical value is no change.
pub open spec fn accepts(existing: Option<BatteryComponent>, incoming: BatteryComponent) -> bool {
    match existing {
        None => true,
        Some(e) => !(incoming.updated_at.unix_nanos < e.updated_at.unix_nanos) && !(
        e.percentage is Some && incoming.percentage is None) && e != incoming,
    }
}

/// `slots` after taking in `comps` in order, and whether any was taken.
pub open spec fn absorb(slots: Slots, comps: Seq<BatteryComponent>) -> (Slots, bool)
    decreases comps.len(),
{
    if comps.len() == 0 {
        (slots, false)
    } else {
        let prev = absorb(slots, comps.drop_last());
        let incoming = comps.last();
        let t = incoming.component_type.spec_rank();
        if accepts(prev.0[t], incoming) {
            (prev.0.update(t, Some(incoming)), true)
        } else {
            prev
        }
    }
}

/// The components held by `slots`, in declared component order.
pub open spec fn present(slots: Slots) -> Seq<BatteryComponent>
    decreases slots.len(),
{
    if slots.len() == 0 {
        Seq::empty()
    } else {
        present(slots.drop_last()) + match slots.last() {
            Some(c) => seq![c],
            None => Seq::empty(),
        }
    }
}

/// Whether `slots` holds six slots, each empty or holding its own component type.
pub open spec fn slots_wf(slots: Slots) -> bool {
    &&& slots.len() == 6
    &&& forall|t: int|
        0 <= t < 6 ==> match #[trigger] slots[t] {
            Some(c) => c.component_type.spec_rank() == t,
            None => true,
        }
}

/// What the registry remembers of one provider for one device.
pub struct ProviderView {
    /// Priority of the latest report.
    pub priority: u16,
    /// Latest report time, if any report arrived.
    pub observed_at: Option<Timestamp>,
    /// Latest accepted component per component type.
    pub slots: Slots,
}

/// The state of a provider before its first report.
pub open spec fn empty_provider() -> ProviderView {
    ProviderView { priority: 0, observed_at: None, slots: seq![None, None, None, None, None, None] }
}

/// A provider's state after `report`, and whether anything visible changed.
pub open spec fn provider_after(p: ProviderView, report: ReportView) -> (ProviderView, bool) {
    let absorbed = absorb(p.slots, report.components);
    (
        ProviderView {
            priority: report.priority,
            observed_at: Some(
                match p.observed_at {
                    Some(t) => if t.unix_nanos < report.observed_at.unix_nanos {
                        report.observed_at
                    } else {
                        t
                    },
                    None => report.observed_at,
                },
            ),
            slots: absorbed.0,
        },
        p.priority != report.priority || absorbed.1,
    )
}

struct ProviderState {
    priority: u16,
    observed_at: Option<Timestamp>,
    components: Vec<Option<BatteryComponent>>,
}

impl ProviderState {
    spec fn view(&self) -> ProviderView {
        ProviderView {
            priority: self.priority,
            observed_at: self.observed_at,
            slots: self.components@,
        }
    }

    fn new() -> (r: ProviderState)
        ensures
            r.view() == empty_provider(),
    {
        let r = ProviderState {
            priority: 0,
            observed_at: None,
            components: vec![None, None, None, None, None, None],
        };
        assert(r.view().slots =~= empty_provider().slots);
        r
    }

    fn apply(&mut self, report: &ProviderReport) -> (changed: bool)
        requires
            slots_wf(old(self).view().slots),
        ensures
            slots_wf(final(self).view().slots),
            (final(self).view(), changed) == provider_after(old(self).view(), report@),
    {
        let mut changed = self.priority != report.priority;
        self.priority = report.priority;
        self.observed_at = match self.observed_at {
            Some(current) => Some(current.max(report.observed_at)),
            None => Some(report.observed_at),
        };
        let ghost start = old(self).view().slots;
        let n = report.components.len();
        let mut i: usize = 0;
        assert(report@.components.take(0) =~= Seq::<BatteryComponent>::empty());
        while i < n
            invariant
                n == report@.components.len(),
                i <= n,
                self.priority == report.priority,
                self.observed_at == provider_after(old(self).view(), report@).0.observed_at,
                slots_wf(self.components@),
                (self.components@, changed) == (
                    absorb(start, report@.components.take(i as int)).0,
                    old(self).view().priority != report.priority || absorb(
                        start,
                        report@.components.take(i as int),
                    ).1,
                ),
            decreases n - i,
        {
            let incoming = report.components[i];
            let t = incoming.component_type.rank() as usize;
            let replace = match self.components[t] {
                Some(existing) => {
                    if incoming.updated_at.unix_nanos < existing.updated_at.unix_nanos {
                        false
                    } else if existing.percentage.is_some() && incoming.percentage.is_none() {
                        false
                    } else {
                        existing != incoming
                    }
                },
                None => true,
            };
            assert(report@.components.take(i + 1).drop_last() =~= report@.components.take(
                i as int,
            ));
            if replace {
                self.components.set(t, Some(incoming));
                changed = true;
            }
            i = i + 1;
        }
        assert(report@.components.take(n as int) =~= report@.components);
        changed
    }

    fn as_report(&self, provider_id: &str, device_id: &str) -> (r: Option<ProviderReport>)
        ensures
            r matches Some(rep) ==> rep@ == (ReportView {
                provider_id: provider_id@,
                device_id: device_id@,
                priority: self.priority,
                observed_at: self.observed_at->0,
                components: present(self.components@),
            }),
            r is Some <==> self.observed_at is Some,
    {
        match self.observed_at {
            None => None,
            Some(at) => {
                let mut components: Vec<BatteryComponent> = Vec::new();
                let mut t: usize = 0;
                let n = self.components.len();
                assert(self.components@.take(0) =~= Seq::<Option<BatteryComponent>>::empty());
                while t < n
                    invariant
                        n == self.components@.len(),
                        t <= n,
                        components@ == present(self.components@.take(t as int)),
                    decreases n - t,
                {
                    assert(self.components@.take(t + 1).drop_last() =~= self.components@.take(
                        t as int,
                    ));
                    match self.components[t] {
                        Some(c) => {
                            components.push(c);
                        },
                        None => {},
                    }
                    proof {
                        let s = self.components@.take(t + 1);
                        assert(s.last() == self.components@[t as int]);
                        if self.components@[t as int] is None {
                            assert(components@ =~= present(s));
                        } else {
                            assert(components@ =~= present(s));
                        }
                    }
                    t = t + 1;
                }
                assert(self.components@.take(n as int) =~= self.components@);
                Some(ProviderReport::new(provider_id, device_id, self.priority, at, components))
            },
        }
    }
}


/// What the registry remembers of one device.
pub struct DeviceView {
    /// Provider states in order of each provider's first report.
    pub providers: Seq<(Seq<char>, ProviderView)>,
    /// Latest connection state.
    pub connection_state: ConnectionState,
}

/// The state of a device before any report or connection update.
pub open spec fn empty_device() -> DeviceView {
    DeviceView { providers: Seq::empty(), connection_state: ConnectionState::Unknown }
}

/// Whether provider identifiers are distinct and every provider's slots are well formed.
pub open spec fn providers_wf(ps: Seq<(Seq<char>, ProviderView)>) -> bool {
    &&& unique_ids(ps)
    &&& forall|i: int| 0 <= i < ps.len() ==> slots_wf((#[trigger] ps[i]).1.slots)
}

/// The provider states after `report`, and whether anything visible changed.
pub open spec fn providers_after(ps: Seq<(Seq<char>, ProviderView)>, report: ReportView) -> (
    Seq<(Seq<char>, ProviderView)>,
    bool,
) {
    if has_id(ps, report.provider_id) {
        let k = choose|i: int| 0 <= i < ps.len() && (#[trigger] ps[i]).0 == report.provider_id;
        let r = provider_after(ps[k].1, report);
        (ps.update(k, (ps[k].0, r.0)), r.1)
    } else {
        let r = provider_after(empty_provider(), report);
        (ps.push((report.provider_id, r.0)), r.1)
    }
}

/// A device's state after `report`, and whether anything visible changed.
pub open spec fn device_after(d: DeviceView, report: ReportView) -> (DeviceView, bool) {
    let r = providers_after(d.providers, report);
    (DeviceView { providers: r.0, connection_state: d.connection_state }, r.1)
}

/// The reports that the providers of a device stand for, skipping providers
/// that never reported.
pub open spec fn device_reports(ps: Seq<(Seq<char>, ProviderView)>, device_id: Seq<char>) -> Seq<
    ReportView,
>
    decreases ps.len(),
{
    if ps.len() == 0 {
        Seq::empty()
    } else {
        device_reports(ps.drop_last(), device_id) + match ps.last().1.observed_at {
            Some(t) => seq![
                ReportView {
                    provider_id: ps.last().0,
                    device_id,
                    priority: ps.last().1.priority,
                    observed_at: t,
                    components: present(ps.last().1.slots),
                },
            ],
            None => Seq::empty(),
        }
    }
}

/// Whether `comps` are the resolved components of device `d`, with their
/// staleness evaluated at `now`.
pub open spec fn snapshot_components_ok(
    comps: Seq<BatteryComponent>,
    d: DeviceView,
    device_id: Seq<char>,
    now: Timestamp,
    policy: FreshnessPolicy,
) -> bool {
    exists|r: Seq<BatteryComponent>|
        resolves(r, view_candidates(device_reports(d.providers, device_id))) && comps
            == expire_all(r, now, d.connection_state, policy)
}

/// Whether every known device has distinct provider identifiers and
/// well-formed component slots.
pub open spec fn view_wf(m: Map<Seq<char>, DeviceView>) -> bool {
    forall|id: Seq<char>| #[trigger] m.contains_key(id) ==> providers_wf(m[id].providers)
}

proof fn lemma_entries_view_wf(es: Seq<(Seq<char>, DeviceView)>)
    requires
        sorted_ids(es),
        forall|i: int| 0 <= i < es.len() ==> providers_wf((#[trigger] es[i]).1.providers),
    ensures
        view_wf(entries_map(es)),
{
    lemma_sorted_unique(es);
    assert forall|id: Seq<char>| #[trigger] entries_map(es).contains_key(id) implies providers_wf(
        entries_map(es)[id].providers,
    ) by {
        let i = choose|i: int| 0 <= i < es.len() && (#[trigger] es[i]).0 == id;
        lemma_map_at(es, i);
    }
}

struct DeviceState {
    providers: Vec<(String, ProviderState)>,
    connection_state: ConnectionState,
}

impl DeviceState {
    spec fn view(&self) -> DeviceView {
        DeviceView {
            providers: self.providers@.map_values(
                |e: (String, ProviderState)| (e.0@, e.1.view()),
            ),
            connection_state: self.connection_state,
        }
    }

    fn new() -> (r: DeviceState)
        ensures
            r.view() == empty_device(),
    {
        let r = DeviceState { providers: Vec::new(), connection_state: ConnectionState::Unknown };
        assert(r.view().providers =~= empty_device().providers);
        r
    }

    fn apply(&mut self, report: &ProviderReport) -> (changed: bool)
        requires
            providers_wf(old(self).view().providers),
        ensures
            providers_wf(final(self).view().providers),
            (final(self).view(), changed) == device_after(old(self).view(), report@),
    {
        let ghost ps = old(self).view().providers;
        match find_id(&self.providers, report.provider_id.as_str()) {
            Some(k) => {
                assert(ps[k as int].0 == report@.provider_id);
                assert(has_id(ps, report@.provider_id));
                let ghost chosen = choose|i: int|
                    0 <= i < ps.len() && (#[trigger] ps[i]).0 == report@.provider_id;
                assert(chosen == k);
                let (id, mut state) = self.providers.remove(k);
                let changed = state.apply(report);
                self.providers.insert(k, (id, state));
                assert(self.view().providers =~= ps.update(k as int, (ps[k as int].0, state.view())));
                proof {
                    lemma_map_update(ps, k as int, state.view());
                }
                changed
            },
            None => {
                assert(!has_id(ps, report@.provider_id));
                let mut state = ProviderState::new();
                let changed = state.apply(report);
                let id = report.provider_id.clone();
                self.providers.push((id, state));
                assert(self.view().providers =~= ps.push((report@.provider_id, state.view())));
                proof {
                    lemma_map_insert(ps, ps.len() as int, report@.provider_id, state.view());
                    assert(ps.insert(ps.len() as int, (report@.provider_id, state.view())) =~= ps.push(
                        (report@.provider_id, state.view()),
                    ));
                }
                changed
            },
        }
    }
}


impl DeviceState {
    fn reports(&self, device_id: &str) -> (r: Vec<ProviderReport>)
        ensures
            reports_view(r@) == device_reports(self.view().providers, device_id@),
    {
        let ghost ps = self.view().providers;
        let mut out: Vec<ProviderReport> = Vec::new();
        let n = self.providers.len();
        let mut i: usize = 0;
        assert(ps.take(0) =~= Seq::<(Seq<char>, ProviderView)>::empty());
        assert(reports_view(out@) =~= Seq::<ReportView>::empty());
        while i < n
            invariant
                n == self.providers@.len(),
                ps == self.view().providers,
                i <= n,
                reports_view(out@) == device_reports(ps.take(i as int), device_id@),
            decreases n - i,
        {
            let entry = &self.providers[i];
            let ghost before = out@;
            assert(ps.take(i + 1).drop_last() =~= ps.take(i as int));
            assert(ps.take(i + 1).last() == ps[i as int]);
            match entry.1.as_report(entry.0.as_str(), device_id) {
                Some(report) => {
                    out.push(report);
                    assert(reports_view(out@) =~= reports_view(before).push(report@));
                },
                None => {},
            }
            i = i + 1;
        }
        assert(ps.take(n as int) =~= ps);
        out
    }

    fn snapshot(&self, device_id: &str, now: Timestamp, policy: FreshnessPolicy) -> (r:
        DeviceSnapshot)
        ensures
            r.device_id@ == device_id@,
            r.connection_state == self.connection_state,
            snapshot_components_ok(r.components@, self.view(), device_id@, now, policy),
    {
        let reports = self.reports(device_id);
        let resolved = resolve_reports(reports.as_slice());
        let components = expire_components(resolved.as_slice(), now, self.connection_state, policy);
        assert(resolves(resolved@, view_candidates(device_reports(self.view().providers, device_id@))));
        DeviceSnapshot { device_id: device_id.to_owned(), connection_state: self.connection_state, components }
    }
}

/// Read-only user-visible registry snapshot.
#[derive(Debug, Clone, PartialEq, Eq)]
pub struct DeviceSnapshot {
    /// Backend device identifier.
    pub device_id: String,
    /// Current connection state.
    pub connection_state: ConnectionState,
    /// Resolved and freshness-adjusted components.
    pub components: Vec<BatteryComponent>,
}

/// Whether `s` is the snapshot of device `d` with identifier `id` at `now`.
pub open spec fn snapshot_matches(
    s: DeviceSnapshot,
    d: DeviceView,
    id: Seq<char>,
    now: Timestamp,
    policy: FreshnessPolicy,
) -> bool {
    &&& s.device_id@ == id
    &&& s.connection_state == d.connection_state
    &&& snapshot_components_ok(s.components@, d, id, now, policy)
}

/// The known state of a device, or the state of a device never seen.
pub open spec fn device_or_empty(m: Map<Seq<char>, DeviceView>, id: Seq<char>) -> DeviceView {
    if m.contains_key(id) {
        m[id]
    } else {
        empty_device()
    }
}

/// Registry that keeps the latest known component per provider and device.
pub struct DeviceRegistry {
    policy: FreshnessPolicy,
    devices: Vec<(String, DeviceState)>,
}

impl DeviceRegistry {
    spec fn entries(&self) -> Seq<(Seq<char>, DeviceView)> {
        self.devices@.map_values(|e: (String, DeviceState)| (e.0@, e.1.view()))
    }

    #[verifier::type_invariant]
    spec fn wf(&self) -> bool {
        &&& sorted_ids(self.entries())
        &&& forall|i: int|
            0 <= i < self.entries().len() ==> providers_wf((#[trigger] self.entries()[i]).1.providers)
    }

    /// The freshness policy of the registry.
    pub closed spec fn spec_policy(&self) -> FreshnessPolicy {
        self.policy
    }

    /// The known devices by backend identifier.
    pub closed spec fn view(&self) -> Map<Seq<char>, DeviceView> {
        entries_map(self.entries())
    }

    /// Creates an empty registry.
    pub fn new(policy: FreshnessPolicy) -> (r: DeviceRegistry)
        ensures
            r.spec_policy() == policy,
            r.view() == Map::<Seq<char>, DeviceView>::empty(),
            view_wf(r.view()),
    {
        let r = DeviceRegistry { policy, devices: Vec::new() };
        assert(r.view() =~= Map::<Seq<char>, DeviceView>::empty());
        r
    }
}


impl DeviceRegistry {
    /// Takes the device entry for `id` out of `devices`, or a fresh one with
    /// the position where it belongs.
    fn take_device(devices: &mut Vec<(String, DeviceState)>, id: &str) -> (r: (usize, String, DeviceState, bool))
        requires
            sorted_ids(old(devices)@.map_values(|e: (String, DeviceState)| (e.0@, e.1.view()))),
        ensures
            r.0 <= old(devices)@.len(),
            r.1@ == id@,
            r.3 ==> final(devices)@ == old(devices)@.remove(r.0 as int) && r.0 < old(devices)@.len()
                && old(devices)@[r.0 as int].0@ == id@ && old(devices)@[r.0 as int].1 == r.2,
            !r.3 ==> final(devices)@ == old(devices)@ && r.2.view() == empty_device()
                && !has_id(old(devices)@.map_values(|e: (String, DeviceState)| (e.0@, e.1.view())), id@)
                && (forall|i: int| 0 <= i < r.0 ==> text_order((#[trigger] old(devices)@[i]).0@, id@) < 0)
                && (forall|i: int| r.0 <= i < old(devices)@.len() ==> text_order((#[trigger] old(devices)@[i]).0@, id@) > 0),
    {
        let ghost es = devices@.map_values(|e: (String, DeviceState)| (e.0@, e.1.view()));
        assert forall|i: int, j: int| 0 <= i < j < devices@.len() implies text_order(
            (#[trigger] devices@[i]).0@,
            (#[trigger] devices@[j]).0@,
        ) < 0 by {
            assert(es[i].0 == devices@[i].0@);
            assert(es[j].0 == devices@[j].0@);
        }
        match find_id(devices, id) {
            Some(i) => {
                let (key, state) = devices.remove(i);
                (i, key, state, true)
            },
            None => {
                let p = sorted_position(devices, id);
                proof {
                    assert forall|j: int| p <= j < devices@.len() implies text_order(
                        (#[trigger] devices@[j]).0@,
                        id@,
                    ) > 0 by {
                        lemma_text_order_equal(devices@[j].0@, id@);
                    }
                    assert forall|j: int| 0 <= j < es.len() implies (#[trigger] es[j]).0 != id@ by {
                        assert(es[j].0 == devices@[j].0@);
                    }
                }
                (p, id.to_owned(), DeviceState::new(), false)
            },
        }
    }

    /// Puts back an entry taken by `take_device`.
    proof fn lemma_put_back(
        es: Seq<(Seq<char>, DeviceView)>,
        found: bool,
        i: int,
        id: Seq<char>,
        d: DeviceView,
    )
        requires
            sorted_ids(es),
            found ==> 0 <= i < es.len() && es[i].0 == id,
            !found ==> 0 <= i <= es.len() && !has_id(es, id) && (forall|j: int|
                0 <= j < i ==> text_order((#[trigger] es[j]).0, id) < 0) && (forall|j: int|
                i <= j < es.len() ==> text_order((#[trigger] es[j]).0, id) > 0),
        ensures
            found ==> sorted_ids(es.update(i, (id, d))) && entries_map(es.update(i, (id, d)))
                == entries_map(es).insert(id, d),
            !found ==> sorted_ids(es.insert(i, (id, d))) && entries_map(es.insert(i, (id, d)))
                == entries_map(es).insert(id, d),
            found ==> entries_map(es).contains_key(id) && entries_map(es)[id] == es[i].1,
            !found ==> !entries_map(es).contains_key(id),
    {
        lemma_sorted_unique(es);
        if found {
            lemma_map_update(es, i, d);
            lemma_map_at(es, i);
            let ns = es.update(i, (id, d));
            assert forall|a: int, b: int| 0 <= a < b < ns.len() implies text_order(
                (#[trigger] ns[a]).0,
                (#[trigger] ns[b]).0,
            ) < 0 by {
                assert(ns[a].0 == es[a].0);
                assert(ns[b].0 == es[b].0);
            }
        } else {
            lemma_map_insert(es, i, id, d);
            lemma_sorted_insert(es, i, id, d);
        }
    }

    /// Applies a provider report component by component.
    ///
    /// An unavailable component does not erase a previously known value. The
    /// known value keeps its original timestamp and therefore becomes stale at
    /// the normal policy boundary.
    pub fn apply_report(&mut self, report: &ProviderReport) -> (changed: bool)
        ensures
            final(self).spec_policy() == old(self).spec_policy(),
            final(self).view() == old(self).view().insert(
                report@.device_id,
                device_after(device_or_empty(old(self).view(), report@.device_id), report@).0,
            ),
            changed == device_after(
                device_or_empty(old(self).view(), report@.device_id),
                report@,
            ).1,
            view_wf(final(self).view()),
    {
        proof {
            use_type_invariant(&*self);
        }
        let ghost es = self.entries();
        let mut devices: Vec<(String, DeviceState)> = Vec::new();
        std::mem::swap(&mut devices, &mut self.devices);
        assert(devices@.map_values(|e: (String, DeviceState)| (e.0@, e.1.view())) == es);
        let (pos, key, mut state, found) = Self::take_device(&mut devices, report.device_id.as_str());
        proof {
            if found {
                assert(es[pos as int].1 == state.view());
            }
            Self::lemma_put_back(es, found, pos as int, report@.device_id, state.view());
            if found {
                assert(providers_wf(es[pos as int].1.providers));
            }
        }
        let changed = state.apply(report);
        devices.insert(pos, (key, state));
        proof {
            let ns = devices@.map_values(|e: (String, DeviceState)| (e.0@, e.1.view()));
            Self::lemma_put_back(es, found, pos as int, report@.device_id, state.view());
            if found {
                assert(ns =~= es.update(pos as int, (report@.device_id, state.view())));
            } else {
                assert(ns =~= es.insert(pos as int, (report@.device_id, state.view())));
            }
            assert forall|i: int| 0 <= i < ns.len() implies providers_wf((#[trigger] ns[i]).1.providers) by {
                if i != pos {
                    if found || i < pos {
                        assert(ns[i] == es[i]);
                    } else {
                        assert(ns[i] == es[i - 1]);
                    }
                }
            }
        }
        proof {
            let ns = devices@.map_values(|e: (String, DeviceState)| (e.0@, e.1.view()));
            lemma_entries_view_wf(ns);
        }
        self.devices = devices;
        changed
    }

    /// Updates connection state independently from battery reports.
    pub fn set_connection_state(&mut self, device_id: &str, state: ConnectionState)
        ensures
            final(self).spec_policy() == old(self).spec_policy(),
            final(self).view() == old(self).view().insert(
                device_id@,
                DeviceView {
                    connection_state: state,
                    ..device_or_empty(old(self).view(), device_id@)
                },
            ),
            view_wf(final(self).view()),
    {
        proof {
            use_type_invariant(&*self);
        }
        let ghost es = self.entries();
        let mut devices: Vec<(String, DeviceState)> = Vec::new();
        std::mem::swap(&mut devices, &mut self.devices);
        assert(devices@.map_values(|e: (String, DeviceState)| (e.0@, e.1.view())) == es);
        let (pos, key, mut entry, found) = Self::take_device(&mut devices, device_id);
        proof {
            if found {
                assert(es[pos as int].1 == entry.view());
                assert(providers_wf(es[pos as int].1.providers));
            }
        }
        entry.connection_state = state;
        devices.insert(pos, (key, entry));
        proof {
            let ns = devices@.map_values(|e: (String, DeviceState)| (e.0@, e.1.view()));
            Self::lemma_put_back(es, found, pos as int, device_id@, entry.view());
            if found {
                assert(ns =~= es.update(pos as int, (device_id@, entry.view())));
            } else {
                assert(ns =~= es.insert(pos as int, (device_id@, entry.view())));
                assert(entry.view().providers =~= Seq::<(Seq<char>, ProviderView)>::empty());
            }
            assert forall|i: int| 0 <= i < ns.len() implies providers_wf((#[trigger] ns[i]).1.providers) by {
                if i != pos {
                    if found || i < pos {
                        assert(ns[i] == es[i]);
                    } else {
                        assert(ns[i] == es[i - 1]);
                    }
                }
            }
        }
        proof {
            let ns = devices@.map_values(|e: (String, DeviceState)| (e.0@, e.1.view()));
            lemma_entries_view_wf(ns);
        }
        self.devices = devices;
    }
}


/// The identifiers named by `list`.
pub open spec fn id_set(list: Seq<String>) -> Set<Seq<char>> {
    Set::new(|x: Seq<char>| list_has(list, x))
}

impl DeviceRegistry {
    /// Removes devices that are no longer present in the authoritative platform catalog.
    pub fn retain_devices(&mut self, device_ids: &[String])
        ensures
            final(self).spec_policy() == old(self).spec_policy(),
            final(self).view() == old(self).view().restrict(id_set(device_ids@)),
            view_wf(final(self).view()),
    {
        proof {
            use_type_invariant(&*self);
        }
        let ghost es = self.entries();
        let ghost keep = id_set(device_ids@);
        proof {
            lemma_sorted_unique(es);
        }
        let mut devices: Vec<(String, DeviceState)> = Vec::new();
        std::mem::swap(&mut devices, &mut self.devices);
        let mut kept: Vec<(String, DeviceState)> = Vec::new();
        let ghost mut k: int = 0;
        let n = devices.len();
        assert(es.take(0) =~= Seq::<(Seq<char>, DeviceView)>::empty());
        assert(entries_map(Seq::<(Seq<char>, DeviceView)>::empty()) =~= Map::<Seq<char>, DeviceView>::empty());
        while devices.len() > 0
            invariant
                sorted_ids(es),
                unique_ids(es),
                n == es.len(),
                0 <= k <= n,
                devices@.len() == n - k,
                forall|j: int| 0 <= j < devices@.len() ==> ((#[trigger] devices@[j]).0@, devices@[j].1.view()) == es[k + j],
                sorted_ids(kept@.map_values(|e: (String, DeviceState)| (e.0@, e.1.view()))),
                forall|j: int, m: int| 0 <= j < kept@.len() && k <= m < n ==> text_order((#[trigger] kept@[j]).0@, (#[trigger] es[m]).0) < 0,
                forall|j: int| 0 <= j < kept@.len() ==> providers_wf((#[trigger] kept@[j]).1.view().providers),
                forall|j: int| 0 <= j < n ==> providers_wf((#[trigger] es[j]).1.providers),
                entries_map(kept@.map_values(|e: (String, DeviceState)| (e.0@, e.1.view()))) == entries_map(es.take(k)).restrict(keep),
                keep == id_set(device_ids@),
            decreases devices@.len(),
        {
            let entry = devices.remove(0);
            let ghost e = es[k];
            assert((entry.0@, entry.1.view()) == e);
            let ghost kv = kept@.map_values(|x: (String, DeviceState)| (x.0@, x.1.view()));
            proof {
                assert(es.take(k + 1) =~= es.take(k).insert(k, e));
                assert(!has_id(es.take(k), e.0)) by {
                    if has_id(es.take(k), e.0) {
                        let i = choose|i: int| 0 <= i < es.take(k).len() && (#[trigger] es.take(k)[i]).0 == e.0;
                        assert(es[i].0 == es[k].0);
                    }
                }
                assert(unique_ids(es.take(k))) by {
                    assert forall|a: int, b: int| 0 <= a < es.take(k).len() && 0 <= b < es.take(k).len() && a != b
                        implies (#[trigger] es.take(k)[a]).0 != (#[trigger] es.take(k)[b]).0 by {
                        assert(es.take(k)[a] == es[a]);
                        assert(es.take(k)[b] == es[b]);
                    }
                }
                lemma_map_insert(es.take(k), k, e.0, e.1);
            }
            if list_contains(device_ids, entry.0.as_str()) {
                kept.push(entry);
                proof {
                    let nkv = kept@.map_values(|x: (String, DeviceState)| (x.0@, x.1.view()));
                    assert(nkv =~= kv.push(e));
                    assert(!has_id(kv, e.0)) by {
                        if has_id(kv, e.0) {
                            let i = choose|i: int| 0 <= i < kv.len() && (#[trigger] kv[i]).0 == e.0;
                            assert(text_order(kept@[i].0@, es[k].0) < 0);
                            lemma_text_order_equal(kept@[i].0@, es[k].0);
                        }
                    }
                    lemma_sorted_unique(kv);
                    lemma_map_insert(kv, kv.len() as int, e.0, e.1);
                    assert(kv.insert(kv.len() as int, e) =~= kv.push(e));
                    assert forall|a: int, b: int| 0 <= a < b < nkv.len() implies text_order(
                        (#[trigger] nkv[a]).0,
                        (#[trigger] nkv[b]).0,
                    ) < 0 by {
                        if b == nkv.len() - 1 {
                            assert(nkv[a].0 == kept@[a].0@);
                        }
                    }
                    assert(keep.contains(e.0));
                    assert(entries_map(nkv) =~= entries_map(es.take(k + 1)).restrict(keep));
                }
            } else {
                proof {
                    assert(!keep.contains(e.0));
                    assert(entries_map(kv) =~= entries_map(es.take(k + 1)).restrict(keep));
                }
            }
            proof {
                k = k + 1;
            }
        }
        assert(es.take(n as int) =~= es);
        proof {
            let ns = kept@.map_values(|e: (String, DeviceState)| (e.0@, e.1.view()));
            lemma_entries_view_wf(ns);
        }
        self.devices = kept;
    }

    /// Builds a current snapshot for a known device.
    pub fn snapshot(&self, device_id: &str, now: Timestamp) -> (r: Option<DeviceSnapshot>)
        ensures
            r is Some <==> self.view().contains_key(device_id@),
            r matches Some(s) ==> snapshot_matches(
                s,
                self.view()[device_id@],
                device_id@,
                now,
                self.spec_policy(),
            ),
    {
        proof {
            use_type_invariant(self);
            lemma_sorted_unique(self.entries());
        }
        match find_id(&self.devices, device_id) {
            Some(i) => {
                proof {
                    lemma_map_at(self.entries(), i as int);
                }
                Some(self.devices[i].1.snapshot(device_id, now, self.policy))
            },
            None => {
                assert(!has_id(self.entries(), device_id@)) by {
                    if has_id(self.entries(), device_id@) {
                        let i = choose|i: int|
                            0 <= i < self.entries().len() && (#[trigger] self.entries()[i]).0
                                == device_id@;
                        assert(self.devices@[i].0@ == device_id@);
                    }
                }
                None
            },
        }
    }

    /// Returns snapshots for all known devices, in identifier order.
    pub fn snapshots(&self, now: Timestamp) -> (r: Vec<DeviceSnapshot>)
        ensures
            forall|i: int, j: int|
                0 <= i < j < r@.len() ==> text_order(
                    (#[trigger] r@[i]).device_id@,
                    (#[trigger] r@[j]).device_id@,
                ) < 0,
            forall|id: Seq<char>|
                self.view().contains_key(id) <==> exists|i: int|
                    0 <= i < r@.len() && (#[trigger] r@[i]).device_id@ == id,
            forall|i: int|
                0 <= i < r@.len() ==> snapshot_matches(
                    #[trigger] r@[i],
                    self.view()[r@[i].device_id@],
                    r@[i].device_id@,
                    now,
                    self.spec_policy(),
                ),
    {
        proof {
            use_type_invariant(self);
            lemma_sorted_unique(self.entries());
        }
        let ghost es = self.entries();
        let mut out: Vec<DeviceSnapshot> = Vec::new();
        let n = self.devices.len();
        let mut i: usize = 0;
        while i < n
            invariant
                n == es.len(),
                es == self.entries(),
                sorted_ids(es),
                unique_ids(es),
                i <= n,
                out@.len() == i,
                forall|j: int| 0 <= j < i ==> (#[trigger] out@[j]).device_id@ == es[j].0,
                forall|j: int|
                    0 <= j < i ==> snapshot_matches(
                        #[trigger] out@[j],
                        es[j].1,
                        es[j].0,
                        now,
                        self.spec_policy(),
                    ),
            decreases n - i,
        {
            let entry = &self.devices[i];
            let s = entry.1.snapshot(entry.0.as_str(), now, self.policy);
            out.push(s);
            i = i + 1;
        }
        proof {
            assert forall|a: int| 0 <= a < out@.len() implies snapshot_matches(
                #[trigger] out@[a],
                self.view()[out@[a].device_id@],
                out@[a].device_id@,
                now,
                self.spec_policy(),
            ) by {
                lemma_map_at(es, a);
            }
            assert forall|id: Seq<char>|
                self.view().contains_key(id) <==> exists|a: int|
                    0 <= a < out@.len() && (#[trigger] out@[a]).device_id@ == id by {
                if self.view().contains_key(id) {
                    let a = choose|a: int| 0 <= a < es.len() && (#[trigger] es[a]).0 == id;
                    assert(out@[a].device_id@ == id);
                }
                if exists|a: int| 0 <= a < out@.len() && (#[trigger] out@[a]).device_id@ == id {
                    let a = choose|a: int| 0 <= a < out@.len() && (#[trigger] out@[a]).device_id@ == id;
                    lemma_map_at(es, a);
                }
            }
        }
        out
    }
}

} // verus!

verus! {

/// Whether the components of a report are of pairwise distinct types.
pub open spec fn distinct_component_types(comps: Seq<BatteryComponent>) -> bool {
    forall|i: int, j: int|
        0 <= i < comps.len() && 0 <= j < comps.len() && i != j ==> (#[trigger] comps[i]).component_type
            != (#[trigger] comps[j]).component_type
}

proof fn lemma_absorb_len(s: Slots, c: Seq<BatteryComponent>)
    requires
        s.len() == 6,
    ensures
        absorb(s, c).0.len() == 6,
    decreases c.len(),
{
    if c.len() > 0 {
        lemma_absorb_len(s, c.drop_last());
    }
}

proof fn lemma_absorb_untouched(s: Slots, c: Seq<BatteryComponent>, t: int)
    requires
        s.len() == 6,
        0 <= t < 6,
        forall|i: int| 0 <= i < c.len() ==> (#[trigger] c[i]).component_type.spec_rank() != t,
    ensures
        absorb(s, c).0[t] == s[t],
    decreases c.len(),
{
    if c.len() > 0 {
        lemma_absorb_untouched(s, c.drop_last(), t);
        lemma_absorb_len(s, c.drop_last());
        assert(c.last() == c[c.len() - 1]);
    }
}

proof fn lemma_absorb_slot(s: Slots, c: Seq<BatteryComponent>, i: int)
    requires
        s.len() == 6,
        distinct_component_types(c),
        0 <= i < c.len(),
    ensures
        absorb(s, c).0[c[i].component_type.spec_rank()] == if accepts(
            s[c[i].component_type.spec_rank()],
            c[i],
        ) {
            Some(c[i])
        } else {
            s[c[i].component_type.spec_rank()]
        },
    decreases c.len(),
{
    let t = c[i].component_type.spec_rank();
    let prefix = c.drop_last();
    lemma_absorb_len(s, prefix);
    assert(distinct_component_types(prefix)) by {
        assert forall|a: int, b: int|
            0 <= a < prefix.len() && 0 <= b < prefix.len() && a != b implies (
            #[trigger] prefix[a]).component_type != (#[trigger] prefix[b]).component_type by {
            assert(prefix[a] == c[a]);
            assert(prefix[b] == c[b]);
        }
    }
    if i == c.len() - 1 {
        assert forall|j: int| 0 <= j < prefix.len() implies (
        #[trigger] prefix[j]).component_type.spec_rank() != t by {
            assert(prefix[j] == c[j]);
            assert(c[j].component_type != c[i].component_type);
        }
        lemma_absorb_untouched(s, prefix, t);
    } else {
        assert(prefix[i] == c[i]);
        lemma_absorb_slot(s, prefix, i);
        assert(c.last().component_type != c[i].component_type);
    }
}

proof fn lemma_absorb_again(s: Slots, c: Seq<BatteryComponent>, n: int)
    requires
        s.len() == 6,
        distinct_component_types(c),
        0 <= n <= c.len(),
        forall|i: int| 0 <= i < c.len() ==> 0 <= (#[trigger] c[i]).component_type.spec_rank() < 6,
    ensures
        absorb(absorb(s, c).0, c.take(n)) == (absorb(s, c).0, false),
    decreases n,
{
    let a = absorb(s, c).0;
    lemma_absorb_len(s, c);
    if n > 0 {
        lemma_absorb_again(s, c, n - 1);
        assert(c.take(n).drop_last() =~= c.take(n - 1));
        let inc = c.take(n).last();
        assert(inc == c[n - 1]);
        lemma_absorb_slot(s, c, n - 1);
    } else {
        assert(c.take(0) =~= Seq::<BatteryComponent>::empty());
    }
}

/// Applying the same report twice in a row: the second application changes
/// nothing visible, provided the report names each component type at most once.
pub proof fn lemma_repeated_report_is_no_change(
    m: Map<Seq<char>, DeviceView>,
    report: ReportView,
)
    requires
        view_wf(m),
        distinct_component_types(report.components),
    ensures
        !device_after(device_after(device_or_empty(m, report.device_id), report).0, report).1,
{
    let d = device_or_empty(m, report.device_id);
    assert(providers_wf(d.providers)) by {
        if !m.contains_key(report.device_id) {
            assert(d.providers =~= Seq::<(Seq<char>, ProviderView)>::empty());
        }
    }
    let ps = d.providers;
    let c = report.components;
    assert(c.take(c.len() as int) =~= c);
    if has_id(ps, report.provider_id) {
        let k = choose|i: int| 0 <= i < ps.len() && (#[trigger] ps[i]).0 == report.provider_id;
        let p1 = provider_after(ps[k].1, report).0;
        let ps1 = ps.update(k, (ps[k].0, p1));
        assert(ps1[k].0 == report.provider_id);
        assert(has_id(ps1, report.provider_id));
        let k2 = choose|i: int| 0 <= i < ps1.len() && (#[trigger] ps1[i]).0 == report.provider_id;
        assert(k2 == k) by {
            if k2 != k {
                assert(ps1[k2] == ps[k2]);
            }
        }
        assert(slots_wf(ps[k].1.slots));
        lemma_absorb_again(ps[k].1.slots, c, c.len() as int);
    } else {
        let p1 = provider_after(empty_provider(), report).0;
        let ps1 = ps.push((report.provider_id, p1));
        assert(ps1[ps.len() as int].0 == report.provider_id);
        assert(has_id(ps1, report.provider_id));
        let k2 = choose|i: int| 0 <= i < ps1.len() && (#[trigger] ps1[i]).0 == report.provider_id;
        assert(k2 == ps.len()) by {
            if k2 != ps.len() {
                assert(ps1[k2] == ps[k2]);
            }
        }
        lemma_absorb_again(empty_provider().slots, c, c.len() as int);
    }
}

/// A stored value never gives way to an older one, and a known value never
/// gives way to an unavailable one.
pub proof fn lemma_stored_value_protected(existing: BatteryComponent, incoming: BatteryComponent)
    ensures
        incoming.updated_at.unix_nanos < existing.updated_at.unix_nanos ==> !accepts(
            Some(existing),
            incoming,
        ),
        existing.percentage is Some && incoming.percentage is None ==> !accepts(
            Some(existing),
            incoming,
        ),
        !accepts(Some(existing), existing),
{
}

/// A report or connection update for one device leaves every other device as it was.
pub proof fn lemma_devices_independent(
    m: Map<Seq<char>, DeviceView>,
    id: Seq<char>,
    d: DeviceView,
    other: Seq<char>,
)
    requires
        other != id,
    ensures
        m.insert(id, d).contains_key(other) == m.contains_key(other),
        m.contains_key(other) ==> m.insert(id, d)[other] == m[other],
{
}


/// Whether `c` may replace `e` in a slot by its age and availability: it is
/// not older, and it does not trade a known percentage for an unknown one.
pub open spec fn dominates(c: BatteryComponent, e: BatteryComponent) -> bool {
    !(c.updated_at.unix_nanos < e.updated_at.unix_nanos) && !(e.percentage is Some
        && c.percentage is None)
}

/// Whether `c` and `e` are equally recent and equally available.
pub open spec fn peers(c: BatteryComponent, e: BatteryComponent) -> bool {
    dominates(c, e) && dominates(e, c)
}

/// The component a slot holds after taking in `comps` in order.
pub open spec fn slot_after(x: Option<BatteryComponent>, comps: Seq<BatteryComponent>) -> Option<
    BatteryComponent,
>
    decreases comps.len(),
{
    if comps.len() == 0 {
        x
    } else {
        let prev = slot_after(x, comps.drop_last());
        if accepts(prev, comps.last()) {
            Some(comps.last())
        } else {
            prev
        }
    }
}

/// The last of `comps` that is a peer of `f`.
pub open spec fn last_peer(comps: Seq<BatteryComponent>, f: BatteryComponent) -> Option<
    BatteryComponent,
>
    decreases comps.len(),
{
    if comps.len() == 0 {
        None
    } else if peers(comps.last(), f) {
        Some(comps.last())
    } else {
        last_peer(comps.drop_last(), f)
    }
}

proof fn lemma_slot_after_once(x: Option<BatteryComponent>, comps: Seq<BatteryComponent>)
    ensures
        slot_after(x, comps) is None ==> x is None && comps.len() == 0,
        slot_after(x, comps) matches Some(f) ==> {
            &&& forall|i: int|
                0 <= i < comps.len() && dominates(#[trigger] comps[i], f) ==> peers(comps[i], f)
            &&& last_peer(comps, f) is Some ==> slot_after(x, comps) == last_peer(comps, f)
            &&& last_peer(comps, f) is None ==> slot_after(x, comps) == x
        },
    decreases comps.len(),
{
    if comps.len() > 0 {
        let prev = comps.drop_last();
        let c = comps.last();
        lemma_slot_after_once(x, prev);
        let fp = slot_after(x, prev);
        if accepts(fp, c) {
            assert forall|i: int|
                0 <= i < comps.len() && dominates(#[trigger] comps[i], c) implies peers(
                comps[i],
                c,
            ) by {
                if i < comps.len() - 1 {
                    assert(comps[i] == prev[i]);
                    if let Some(f) = fp {
                        assert(dominates(comps[i], f));
                        assert(peers(prev[i], f));
                    }
                }
            }
        } else {
            let f = fp->0;
            assert forall|i: int|
                0 <= i < comps.len() && dominates(#[trigger] comps[i], f) implies peers(
                comps[i],
                f,
            ) by {
                if i < comps.len() - 1 {
                    assert(comps[i] == prev[i]);
                }
            }
        }
    }
}

proof fn lemma_last_peer_is_peer(comps: Seq<BatteryComponent>, f: BatteryComponent)
    ensures
        last_peer(comps, f) matches Some(p) ==> peers(p, f),
    decreases comps.len(),
{
    if comps.len() > 0 {
        lemma_last_peer_is_peer(comps.drop_last(), f);
    }
}

proof fn lemma_slot_after_peers(
    y: Option<BatteryComponent>,
    comps: Seq<BatteryComponent>,
    f: BatteryComponent,
)
    requires
        y matches Some(g) && peers(g, f),
        forall|i: int| 0 <= i < comps.len() && dominates(#[trigger] comps[i], f) ==> peers(comps[i], f),
    ensures
        slot_after(y, comps) == match last_peer(comps, f) {
            Some(p) => Some(p),
            None => y,
        },
    decreases comps.len(),
{
    if comps.len() > 0 {
        let prev = comps.drop_last();
        assert forall|i: int| 0 <= i < prev.len() && dominates(#[trigger] prev[i], f) implies peers(
            prev[i],
            f,
        ) by {
            assert(prev[i] == comps[i]);
        }
        lemma_slot_after_peers(y, prev, f);
        let c = comps.last();
        assert(comps[comps.len() - 1] == c);
        let h = slot_after(y, prev);
        let h0 = h->0;
        assert(peers(h0, f)) by {
            if let Some(p) = last_peer(prev, f) {
                lemma_last_peer_is_peer(prev, f);
            }
        }
        if peers(c, f) {
            assert(dominates(c, h0));
        } else {
            assert(!dominates(c, f));
            assert(!dominates(c, h0));
        }
    }
}

/// Taking in the same components a second time leaves a slot as the first
/// time left it.
pub proof fn lemma_slot_after_idempotent(x: Option<BatteryComponent>, comps: Seq<BatteryComponent>)
    ensures
        slot_after(slot_after(x, comps), comps) == slot_after(x, comps),
{
    lemma_slot_after_once(x, comps);
    if let Some(f) = slot_after(x, comps) {
        lemma_slot_after_peers(slot_after(x, comps), comps, f);
    }
}

} // verus!
