//! Desktop runtime state: one refresh transaction applied to the engine, with
//! device and backend-status changes detected independently.

use vstd::prelude::*;

use crate::desktop::{BackendStatus, PlatformCollection, PlatformKind};
use crate::device::{BluetoothAudioDevice, Capability};
use crate::battery::BatteryComponent;
use crate::engine::{
    assembles, joined, lists_devices, opt_text, snapshots_listed, ApplicationEngine,
    DeviceDescriptor,
};
use crate::processor::{processed, ProcessingError};
use crate::provider::RawObservation;
use crate::providers::{DeviceProvider, ProviderKind};
use crate::settings::{AppSettings, SettingsRepository};
use crate::dbus::{BackendSnapshot, ServiceSnapshot, IPC_SCHEMA_VERSION};
use crate::desktop::platform_text;
use crate::store::key_set;
use crate::timestamp::Timestamp;
use crate::registry::{
    snapshot_components_ok, snapshot_matches, view_wf, DeviceSnapshot, DeviceView,
};
use crate::freshness::FreshnessPolicy;
use crate::replay::{
    deliver_all, lemma_deliver_all_again, lemma_deliver_all_concat, lemma_processed_delivers,
    lemma_deliver_all_wf, lemma_resolves_unique, lemma_sorted_unique, observation_deliveries,
    Delivery,
};
use crate::text::{lemma_text_order_antisymmetric, text_order};

verus! {

/// Whether two devices hold the same values.
pub open spec fn same_device(a: BluetoothAudioDevice, b: BluetoothAudioDevice) -> bool {
    &&& a.id@ == b.id@
    &&& a.display_name@ == b.display_name@
    &&& opt_text(a.system_name) == opt_text(b.system_name)
    &&& opt_text(a.manufacturer) == opt_text(b.manufacturer)
    &&& opt_text(a.model) == opt_text(b.model)
    &&& a.device_family == b.device_family
    &&& a.visual.key@ == b.visual.key@
    &&& a.visual.confidence == b.visual.confidence
    &&& a.transport == b.transport
    &&& a.connection_state == b.connection_state
    &&& a.last_seen_at == b.last_seen_at
    &&& a.last_updated_at == b.last_updated_at
    &&& a.capabilities@ == b.capabilities@
    &&& a.components@ == b.components@
}

/// Whether two device lists hold the same values in the same order.
pub open spec fn same_devices(a: Seq<BluetoothAudioDevice>, b: Seq<BluetoothAudioDevice>) -> bool {
    &&& a.len() == b.len()
    &&& forall|i: int| 0 <= i < a.len() ==> same_device(#[trigger] a[i], b[i])
}

/// Whether two backend statuses hold the same values.
pub open spec fn same_status(a: BackendStatus, b: BackendStatus) -> bool {
    &&& a.platform == b.platform
    &&& a.available == b.available
    &&& opt_text(a.adapter_name) == opt_text(b.adapter_name)
    &&& a.powered == b.powered
    &&& a.discovering == b.discovering
    &&& a.detail@ == b.detail@
}

fn same_opt_text(a: &Option<String>, b: &Option<String>) -> (r: bool)
    ensures
        r == (opt_text(*a) == opt_text(*b)),
{
    match (a, b) {
        (Some(x), Some(y)) => *x == *y,
        (None, None) => true,
        _ => false,
    }
}

fn same_instant(a: Option<Timestamp>, b: Option<Timestamp>) -> (r: bool)
    ensures
        r == (a == b),
{
    match (a, b) {
        (Some(x), Some(y)) => x.unix_nanos == y.unix_nanos,
        (None, None) => true,
        _ => false,
    }
}

fn same_flag(a: Option<bool>, b: Option<bool>) -> (r: bool)
    ensures
        r == (a == b),
{
    match (a, b) {
        (Some(x), Some(y)) => x == y,
        (None, None) => true,
        _ => false,
    }
}

fn same_capabilities(a: &Vec<Capability>, b: &Vec<Capability>) -> (r: bool)
    ensures
        r == (a@ == b@),
{
    if a.len() != b.len() {
        return false;
    }
    let mut i: usize = 0;
    while i < a.len()
        invariant
            a@.len() == b@.len(),
            i <= a@.len(),
            forall|k: int| 0 <= k < i ==> a@[k] == b@[k],
        decreases a@.len() - i,
    {
        if a[i] != b[i] {
            return false;
        }
        i = i + 1;
    }
    assert(a@ =~= b@);
    true
}

fn same_components(a: &Vec<BatteryComponent>, b: &Vec<BatteryComponent>) -> (r: bool)
    ensures
        r == (a@ == b@),
{
    if a.len() != b.len() {
        return false;
    }
    let mut i: usize = 0;
    while i < a.len()
        invariant
            a@.len() == b@.len(),
            i <= a@.len(),
            forall|k: int| 0 <= k < i ==> a@[k] == b@[k],
        decreases a@.len() - i,
    {
        if a[i] != b[i] {
            return false;
        }
        i = i + 1;
    }
    assert(a@ =~= b@);
    true
}

fn device_matches(a: &BluetoothAudioDevice, b: &BluetoothAudioDevice) -> (r: bool)
    ensures
        r == same_device(*a, *b),
{
    a.id == b.id && a.display_name == b.display_name && same_opt_text(
        &a.system_name,
        &b.system_name,
    ) && same_opt_text(&a.manufacturer, &b.manufacturer) && same_opt_text(&a.model, &b.model)
        && a.device_family == b.device_family && a.visual.key == b.visual.key
        && a.visual.confidence == b.visual.confidence && a.transport == b.transport
        && a.connection_state == b.connection_state && same_instant(
        a.last_seen_at,
        b.last_seen_at,
    ) && same_instant(a.last_updated_at, b.last_updated_at) && same_capabilities(
        &a.capabilities,
        &b.capabilities,
    ) && same_components(&a.components, &b.components)
}

/// Whether two device lists hold the same values in the same order.
pub fn devices_match(a: &[BluetoothAudioDevice], b: &[BluetoothAudioDevice]) -> (r: bool)
    ensures
        r == same_devices(a@, b@),
{
    if a.len() != b.len() {
        return false;
    }
    let mut i: usize = 0;
    while i < a.len()
        invariant
            a@.len() == b@.len(),
            i <= a@.len(),
            forall|k: int| 0 <= k < i ==> same_device(#[trigger] a@[k], b@[k]),
        decreases a@.len() - i,
    {
        if !device_matches(&a[i], &b[i]) {
            return false;
        }
        i = i + 1;
    }
    true
}

/// Whether two backend statuses hold the same values.
pub fn status_matches(a: &BackendStatus, b: &BackendStatus) -> (r: bool)
    ensures
        r == same_status(*a, *b),
{
    a.platform == b.platform && a.available == b.available && same_opt_text(
        &a.adapter_name,
        &b.adapter_name,
    ) && same_flag(a.powered, b.powered) && same_flag(a.discovering, b.discovering)
        && a.detail == b.detail
}

fn copy_text(s: &Option<String>) -> (r: Option<String>)
    ensures
        opt_text(r) == opt_text(*s),
{
    match s {
        Some(x) => Some(x.clone()),
        None => None,
    }
}

fn copy_device(d: &BluetoothAudioDevice) -> (r: BluetoothAudioDevice)
    ensures
        same_device(r, *d),
{
    let capabilities = d.capabilities.clone();
    let components = d.components.clone();
    assert(capabilities@ =~= d.capabilities@);
    assert(components@ =~= d.components@);
    BluetoothAudioDevice {
        id: d.id.clone(),
        display_name: d.display_name.clone(),
        system_name: copy_text(&d.system_name),
        manufacturer: copy_text(&d.manufacturer),
        model: copy_text(&d.model),
        device_family: d.device_family,
        visual: crate::device::DeviceVisual {
            key: d.visual.key.clone(),
            confidence: d.visual.confidence,
        },
        transport: d.transport,
        connection_state: d.connection_state,
        last_seen_at: d.last_seen_at,
        last_updated_at: d.last_updated_at,
        capabilities,
        components,
    }
}

fn copy_devices(ds: &Vec<BluetoothAudioDevice>) -> (r: Vec<BluetoothAudioDevice>)
    ensures
        same_devices(r@, ds@),
{
    let mut r: Vec<BluetoothAudioDevice> = Vec::new();
    let mut i: usize = 0;
    while i < ds.len()
        invariant
            i <= ds@.len(),
            r@.len() == i,
            forall|k: int| 0 <= k < i ==> same_device(#[trigger] r@[k], ds@[k]),
        decreases ds@.len() - i,
    {
        r.push(copy_device(&ds[i]));
        i = i + 1;
    }
    r
}

fn copy_status(s: &BackendStatus) -> (r: BackendStatus)
    ensures
        same_status(r, *s),
{
    BackendStatus {
        platform: s.platform,
        available: s.available,
        adapter_name: copy_text(&s.adapter_name),
        powered: s.powered,
        discovering: s.discovering,
        detail: s.detail.clone(),
    }
}

/// Descriptors after inserting each of `ds` in order, later ones replacing
/// earlier ones with the same backend identifier.
pub open spec fn upserted(
    m: Map<Seq<char>, DeviceDescriptor>,
    ds: Seq<DeviceDescriptor>,
) -> Map<Seq<char>, DeviceDescriptor>
    decreases ds.len(),
{
    if ds.len() == 0 {
        m
    } else {
        upserted(m, ds.drop_last()).insert(ds.last().backend_id@, ds.last())
    }
}

/// The backend identifiers of `ds`.
pub open spec fn descriptor_keys(ds: Seq<DeviceDescriptor>) -> Set<Seq<char>> {
    Set::new(|k: Seq<char>| exists|i: int| 0 <= i < ds.len() && (#[trigger] ds[i]).backend_id@ == k)
}

/// The descriptor catalog after a collection: an available backend's
/// descriptors replace the catalog, an unavailable one's are added to it.
pub open spec fn catalog_after(
    m: Map<Seq<char>, DeviceDescriptor>,
    ds: Seq<DeviceDescriptor>,
    available: bool,
) -> Map<Seq<char>, DeviceDescriptor> {
    upserted(if available { m.restrict(descriptor_keys(ds)) } else { m }, ds)
}

proof fn lemma_upserted_at(m: Map<Seq<char>, DeviceDescriptor>, ds: Seq<DeviceDescriptor>, k: Seq<char>)
    ensures
        upserted(m, ds).contains_key(k) == (m.contains_key(k) || descriptor_keys(ds).contains(k)),
        !descriptor_keys(ds).contains(k) && m.contains_key(k) ==> upserted(m, ds)[k] == m[k],
        forall|m2: Map<Seq<char>, DeviceDescriptor>|
            descriptor_keys(ds).contains(k) ==> #[trigger] upserted(m2, ds)[k] == upserted(m, ds)[k],
    decreases ds.len(),
{
    if ds.len() > 0 {
        let prev = ds.drop_last();
        lemma_upserted_at(m, prev, k);
        assert forall|k2: Seq<char>| descriptor_keys(ds).contains(k2) <==> (descriptor_keys(
            prev,
        ).contains(k2) || ds.last().backend_id@ == k2) by {
            if descriptor_keys(ds).contains(k2) && ds.last().backend_id@ != k2 {
                let i = choose|i: int| 0 <= i < ds.len() && (#[trigger] ds[i]).backend_id@ == k2;
                assert(prev[i] == ds[i]);
            }
            if descriptor_keys(prev).contains(k2) {
                let i = choose|i: int| 0 <= i < prev.len() && (#[trigger] prev[i]).backend_id@ == k2;
                assert(ds[i] == prev[i]);
            }
            if ds.last().backend_id@ == k2 {
                assert(ds[ds.len() - 1].backend_id@ == k2);
            }
        }
        assert forall|m2: Map<Seq<char>, DeviceDescriptor>|
            descriptor_keys(ds).contains(k) implies #[trigger] upserted(m2, ds)[k] == upserted(
                m,
                ds,
            )[k] by {
            lemma_upserted_at(m2, prev, k);
        }
    }
}

/// Applying a collection a second time leaves the descriptor catalog as the
/// first application left it, and a backend status is never reported as
/// changed against itself.
pub proof fn lemma_repeated_collection_keeps_catalog(
    m: Map<Seq<char>, DeviceDescriptor>,
    ds: Seq<DeviceDescriptor>,
    available: bool,
    status: BackendStatus,
)
    ensures
        catalog_after(catalog_after(m, ds, available), ds, available) == catalog_after(
            m,
            ds,
            available,
        ),
        same_status(status, status),
{
    let keys = descriptor_keys(ds);
    let base = if available { m.restrict(keys) } else { m };
    let once = upserted(base, ds);
    let base2 = if available { once.restrict(keys) } else { once };
    let twice = upserted(base2, ds);
    assert forall|k: Seq<char>| #[trigger] twice.contains_key(k) == once.contains_key(k) by {
        lemma_upserted_at(base, ds, k);
        lemma_upserted_at(base2, ds, k);
    }
    assert forall|k: Seq<char>| #[trigger] twice.contains_key(k) implies twice[k] == once[k] by {
        lemma_upserted_at(base, ds, k);
        lemma_upserted_at(base2, ds, k);
        if !keys.contains(k) {
            lemma_upserted_at(base, ds, k);
        }
    }
    assert(twice =~= once);
}

/// The error of one processing result, if it failed.
pub open spec fn error_of(sr: Result<DeviceSnapshot, ProcessingError>) -> Seq<ProcessingError> {
    match sr {
        Err(e) => seq![e],
        Ok(_) => Seq::empty(),
    }
}

/// Whether registry `after` is what the observations lead to, one after the
/// other, from registry `before`, and `errors` are the failures of those
/// observations that failed, in order.
pub open spec fn processes_all<P: DeviceProvider>(
    providers: Seq<P>,
    policy: FreshnessPolicy,
    before: Map<Seq<char>, DeviceView>,
    observations: Seq<RawObservation>,
    after: Map<Seq<char>, DeviceView>,
    errors: Seq<ProcessingError>,
) -> bool
    decreases observations.len(),
{
    if observations.len() == 0 {
        after == before && errors.len() == 0
    } else {
        exists|mid: Map<Seq<char>, DeviceView>, sr: Result<DeviceSnapshot, ProcessingError>|
            #[trigger] processed(providers, policy, mid, observations.last(), after, sr) && {
                let earlier = errors.take(errors.len() - error_of(sr).len());
                &&& errors.len() >= error_of(sr).len()
                &&& errors == earlier + error_of(sr)
                &&& processes_all(providers, policy, before, observations.drop_last(), mid, earlier)
            }
    }
}

/// What a run of observations delivers to the registry, observation after
/// observation.
pub open spec fn all_deliveries(providers: Seq<ProviderKind>, observations: Seq<RawObservation>) -> Seq<
    Delivery,
>
    decreases observations.len(),
{
    if observations.len() == 0 {
        Seq::empty()
    } else {
        all_deliveries(providers, observations.drop_last()) + observation_deliveries(
            providers,
            observations.last(),
        )
    }
}

proof fn lemma_processes_all_delivers(
    providers: Seq<ProviderKind>,
    policy: FreshnessPolicy,
    before: Map<Seq<char>, DeviceView>,
    observations: Seq<RawObservation>,
    after: Map<Seq<char>, DeviceView>,
    errors: Seq<ProcessingError>,
)
    requires
        processes_all(providers, policy, before, observations, after, errors),
    ensures
        after == deliver_all(before, all_deliveries(providers, observations)),
    decreases observations.len(),
{
    if observations.len() > 0 {
        let (mid, sr) = choose|mid: Map<Seq<char>, DeviceView>, sr: Result<DeviceSnapshot, ProcessingError>|
            #[trigger] processed(providers, policy, mid, observations.last(), after, sr) && {
                let earlier = errors.take(errors.len() - error_of(sr).len());
                &&& errors.len() >= error_of(sr).len()
                &&& errors == earlier + error_of(sr)
                &&& processes_all(providers, policy, before, observations.drop_last(), mid, earlier)
            };
        let earlier = errors.take(errors.len() - error_of(sr).len());
        lemma_processes_all_delivers(providers, policy, before, observations.drop_last(), mid, earlier);
        lemma_processed_delivers(providers, policy, mid, observations.last(), after, sr);
        lemma_deliver_all_concat(
            before,
            all_deliveries(providers, observations.drop_last()),
            observation_deliveries(providers, observations.last()),
        );
    }
}

/// Whether two snapshots hold the same values.
pub open spec fn same_snapshot(a: DeviceSnapshot, b: DeviceSnapshot) -> bool {
    &&& a.device_id@ == b.device_id@
    &&& a.connection_state == b.connection_state
    &&& a.components@ == b.components@
}

proof fn lemma_components_unique(
    c1: Seq<crate::battery::BatteryComponent>,
    c2: Seq<crate::battery::BatteryComponent>,
    d: DeviceView,
    id: Seq<char>,
    now: Timestamp,
    policy: FreshnessPolicy,
)
    requires
        snapshot_components_ok(c1, d, id, now, policy),
        snapshot_components_ok(c2, d, id, now, policy),
    ensures
        c1 == c2,
{
    let cands = crate::resolver::view_candidates(crate::registry::device_reports(d.providers, id));
    let r1 = choose|r: Seq<crate::battery::BatteryComponent>|
        crate::resolver::resolves(r, cands) && c1 == crate::freshness::expire_all(
            r,
            now,
            d.connection_state,
            policy,
        );
    let r2 = choose|r: Seq<crate::battery::BatteryComponent>|
        crate::resolver::resolves(r, cands) && c2 == crate::freshness::expire_all(
            r,
            now,
            d.connection_state,
            policy,
        );
    lemma_resolves_unique(r1, r2, cands);
}

/// Where the snapshot of device `id` stands in `snaps`.
spec fn position_of_id(snaps: Seq<DeviceSnapshot>, id: Seq<char>) -> int {
    choose|i: int| 0 <= i < snaps.len() && (#[trigger] snaps[i]).device_id@ == id
}

proof fn lemma_snapshots_unique(
    view: Map<Seq<char>, DeviceView>,
    policy: FreshnessPolicy,
    now: Timestamp,
    s1: Seq<DeviceSnapshot>,
    s2: Seq<DeviceSnapshot>,
)
    requires
        snapshots_listed(view, policy, now, s1),
        snapshots_listed(view, policy, now, s2),
    ensures
        s1.len() == s2.len(),
        forall|i: int| 0 <= i < s1.len() ==> same_snapshot(#[trigger] s1[i], s2[i]),
{
    let a = s1.map_values(|x: DeviceSnapshot| x.device_id@);
    let b = s2.map_values(|x: DeviceSnapshot| x.device_id@);
    let lt = |x: Seq<char>, y: Seq<char>| text_order(x, y) < 0;
    assert forall|x: Seq<char>, y: Seq<char>| #[trigger] lt(x, y) implies !lt(y, x) by {
        lemma_text_order_antisymmetric(x, y);
    }
    assert forall|i: int, j: int| 0 <= i < j < a.len() implies lt(#[trigger] a[i], #[trigger] a[j]) by {
        assert(text_order(s1[i].device_id@, s1[j].device_id@) < 0);
    }
    assert forall|i: int, j: int| 0 <= i < j < b.len() implies lt(#[trigger] b[i], #[trigger] b[j]) by {
        assert(text_order(s2[i].device_id@, s2[j].device_id@) < 0);
    }
    let fa = |i: int| position_of_id(s2, a[i]);
    let fb = |j: int| position_of_id(s1, b[j]);
    assert forall|i: int| 0 <= i < a.len() implies 0 <= #[trigger] fa(i) < b.len() && b[fa(i)] == a[i] by {
        assert(s1[i].device_id@ == a[i]);
        assert(view.contains_key(a[i]));
    }
    assert forall|j: int| 0 <= j < b.len() implies 0 <= #[trigger] fb(j) < a.len() && a[fb(j)] == b[j] by {
        assert(s2[j].device_id@ == b[j]);
        assert(view.contains_key(b[j]));
    }
    lemma_sorted_unique(a, b, lt, fa, fb);
    assert(s1.len() == a.len() && s2.len() == b.len());
    assert forall|i: int| 0 <= i < s1.len() implies same_snapshot(#[trigger] s1[i], s2[i]) by {
        assert(a[i] == b[i]);
        let id = s1[i].device_id@;
        assert(snapshot_matches(s1[i], view[id], id, now, policy));
        assert(snapshot_matches(s2[i], view[s2[i].device_id@], s2[i].device_id@, now, policy));
        lemma_components_unique(s1[i].components@, s2[i].components@, view[id], id, now, policy);
    }
}

proof fn lemma_joined_same(
    s1: Seq<DeviceSnapshot>,
    s2: Seq<DeviceSnapshot>,
    descriptors: Map<Seq<char>, DeviceDescriptor>,
)
    requires
        s1.len() == s2.len(),
        forall|i: int| 0 <= i < s1.len() ==> same_snapshot(#[trigger] s1[i], s2[i]),
    ensures
        joined(s1, descriptors).len() == joined(s2, descriptors).len(),
        forall|i: int|
            0 <= i < joined(s1, descriptors).len() ==> same_snapshot(
                (#[trigger] joined(s1, descriptors)[i]).0,
                joined(s2, descriptors)[i].0,
            ) && joined(s1, descriptors)[i].1 == joined(s2, descriptors)[i].1,
    decreases s1.len(),
{
    if s1.len() > 0 {
        assert forall|i: int| 0 <= i < s1.len() - 1 implies same_snapshot(
            #[trigger] s1.drop_last()[i],
            s2.drop_last()[i],
        ) by {
            assert(s1.drop_last()[i] == s1[i]);
            assert(s2.drop_last()[i] == s2[i]);
        }
        lemma_joined_same(s1.drop_last(), s2.drop_last(), descriptors);
        assert(same_snapshot(s1[s1.len() - 1], s2[s2.len() - 1]));
    }
}

/// The devices listed from one registry and one catalog at one time hold
/// the same values, however they were produced.
pub proof fn lemma_lists_devices_unique(
    view: Map<Seq<char>, DeviceView>,
    descriptors: Map<Seq<char>, DeviceDescriptor>,
    policy: FreshnessPolicy,
    now: Timestamp,
    r1: Seq<BluetoothAudioDevice>,
    r2: Seq<BluetoothAudioDevice>,
)
    requires
        lists_devices(view, descriptors, policy, now, r1),
        lists_devices(view, descriptors, policy, now, r2),
    ensures
        same_devices(r1, r2),
{
    let s1 = choose|snaps: Seq<DeviceSnapshot>|
        #[trigger] snapshots_listed(view, policy, now, snaps) && r1.len() == joined(
            snaps,
            descriptors,
        ).len() && forall|i: int|
            0 <= i < r1.len() ==> assembles(
                #[trigger] r1[i],
                joined(snaps, descriptors)[i].1,
                joined(snaps, descriptors)[i].0,
            );
    let s2 = choose|snaps: Seq<DeviceSnapshot>|
        #[trigger] snapshots_listed(view, policy, now, snaps) && r2.len() == joined(
            snaps,
            descriptors,
        ).len() && forall|i: int|
            0 <= i < r2.len() ==> assembles(
                #[trigger] r2[i],
                joined(snaps, descriptors)[i].1,
                joined(snaps, descriptors)[i].0,
            );
    lemma_snapshots_unique(view, policy, now, s1, s2);
    lemma_joined_same(s1, s2, descriptors);
    assert forall|i: int| 0 <= i < r1.len() implies same_device(#[trigger] r1[i], r2[i]) by {
        assert(assembles(r1[i], joined(s1, descriptors)[i].1, joined(s1, descriptors)[i].0));
        assert(assembles(r2[i], joined(s2, descriptors)[i].1, joined(s2, descriptors)[i].0));
        assert(same_snapshot(joined(s1, descriptors)[i].0, joined(s2, descriptors)[i].0));
    }
}

/// Processing one more observation extends a run of processing by its
/// outcome: the registry it leaves and its failure, if it failed.
proof fn lemma_processes_all_push<P: DeviceProvider>(
    providers: Seq<P>,
    policy: FreshnessPolicy,
    before: Map<Seq<char>, DeviceView>,
    observations: Seq<RawObservation>,
    mid: Map<Seq<char>, DeviceView>,
    earlier: Seq<ProcessingError>,
    observation: RawObservation,
    after: Map<Seq<char>, DeviceView>,
    sr: Result<DeviceSnapshot, ProcessingError>,
)
    requires
        processes_all(providers, policy, before, observations, mid, earlier),
        processed(providers, policy, mid, observation, after, sr),
    ensures
        processes_all(
            providers,
            policy,
            before,
            observations.push(observation),
            after,
            earlier + error_of(sr),
        ),
{
    let s = observations.push(observation);
    assert(s.drop_last() =~= observations);
    assert(s.last() == observation);
    let errors = earlier + error_of(sr);
    assert(errors.take(errors.len() - error_of(sr).len()) =~= earlier);
    assert(processed(providers, policy, mid, s.last(), after, sr));
}

/// Snapshot returned after state application.
#[derive(Debug, Clone)]
pub struct RefreshResult {
    /// Current normalized public devices.
    pub devices: Vec<BluetoothAudioDevice>,
    /// Current backend status.
    pub status: BackendStatus,
    /// Whether the public device snapshot changed.
    pub devices_changed: bool,
    /// Whether native backend health changed independently of device data.
    pub status_changed: bool,
    /// The failures of observations that could not be processed, in order.
    pub errors: Vec<ProcessingError>,
}

/// Whether `after` and `r` are what applying `collection` at `now` to
/// `before` leads to: an available backend's descriptors replace the catalog,
/// every descriptor is upserted and every observation processed in order; the
/// engine's devices at `now` are published, and each of the devices and the
/// status is reported changed exactly when it differs from what was published
/// before.
pub open spec fn collection_applied(
    before: RuntimeState,
    collection: PlatformCollection,
    now: Timestamp,
    after: RuntimeState,
    r: RefreshResult,
) -> bool {
    &&& after.spec_settings() == before.spec_settings()
    &&& after.spec_engine().spec_providers() == before.spec_engine().spec_providers()
    &&& after.spec_engine().spec_policy() == before.spec_engine().spec_policy()
    &&& after.spec_engine().spec_descriptors() == catalog_after(
        before.spec_engine().spec_descriptors(),
        collection.descriptors@,
        collection.status.available,
    )
    &&& processes_all(
        before.spec_engine().spec_providers(),
        before.spec_engine().spec_policy(),
        if collection.status.available {
            before.spec_engine().view().restrict(descriptor_keys(collection.descriptors@))
        } else {
            before.spec_engine().view()
        },
        collection.observations@,
        after.spec_engine().view(),
        r.errors@,
    )
    &&& lists_devices(
        after.spec_engine().view(),
        after.spec_engine().spec_descriptors(),
        after.spec_engine().spec_policy(),
        now,
        r.devices@,
    )
    &&& same_devices(after.spec_devices(), r.devices@)
    &&& r.devices_changed == !same_devices(before.spec_devices(), r.devices@)
    &&& same_status(r.status, collection.status)
    &&& after.spec_status() == collection.status
    &&& r.status_changed == !same_status(before.spec_status(), collection.status)
}

/// A collection applied a second time at the same time reports no change:
/// when `second` carries the same descriptors, observations and availability
/// as `first`, applying it after `first` publishes the devices that `first`
/// published, reports the devices unchanged, and reports the status changed
/// exactly when the two statuses differ, so a repeated collection reports
/// nothing changed and one that differs only in its status detail reports
/// only a status change.
pub proof fn lemma_repeated_collection_is_no_change(
    s0: RuntimeState,
    first: PlatformCollection,
    s1: RuntimeState,
    r1: RefreshResult,
    second: PlatformCollection,
    s2: RuntimeState,
    r2: RefreshResult,
    now: Timestamp,
)
    requires
        view_wf(s0.spec_engine().view()),
        collection_applied(s0, first, now, s1, r1),
        collection_applied(s1, second, now, s2, r2),
        second.descriptors@ == first.descriptors@,
        second.observations@ == first.observations@,
        second.status.available == first.status.available,
    ensures
        same_devices(r2.devices@, r1.devices@),
        !r2.devices_changed,
        r2.status_changed == !same_status(first.status, second.status),
        second == first ==> !r2.status_changed,
{
    let providers = s0.spec_engine().spec_providers();
    let policy = s0.spec_engine().spec_policy();
    let ds = first.descriptors@;
    let available = first.status.available;
    let keys = descriptor_keys(ds);
    let events = all_deliveries(providers, first.observations@);
    lemma_repeated_collection_keeps_catalog(
        s0.spec_engine().spec_descriptors(),
        ds,
        available,
        first.status,
    );
    let start1 = if available { s0.spec_engine().view().restrict(keys) } else { s0.spec_engine().view() };
    let start2 = if available { s1.spec_engine().view().restrict(keys) } else { s1.spec_engine().view() };
    lemma_processes_all_delivers(providers, policy, start1, first.observations@, s1.spec_engine().view(), r1.errors@);
    lemma_processes_all_delivers(providers, policy, start2, first.observations@, s2.spec_engine().view(), r2.errors@);
    lemma_deliver_all_again(s0.spec_engine().view(), events, available, keys);
    assert(s2.spec_engine().view() == s1.spec_engine().view());
    assert(s2.spec_engine().spec_descriptors() == s1.spec_engine().spec_descriptors());
    lemma_lists_devices_unique(
        s1.spec_engine().view(),
        s1.spec_engine().spec_descriptors(),
        policy,
        now,
        r2.devices@,
        r1.devices@,
    );
    assert(same_devices(s1.spec_devices(), r2.devices@)) by {
        assert forall|i: int| 0 <= i < s1.spec_devices().len() implies same_device(
            #[trigger] s1.spec_devices()[i],
            r2.devices@[i],
        ) by {
            assert(same_device(s1.spec_devices()[i], r1.devices@[i]));
            assert(same_device(r2.devices@[i], r1.devices@[i]));
        }
    }
}

/// Application state: the engine, the last published devices and backend
/// status, and the settings store.
pub struct RuntimeState {
    engine: ApplicationEngine<ProviderKind>,
    devices: Vec<BluetoothAudioDevice>,
    backend_status: BackendStatus,
    settings: SettingsRepository,
}

impl RuntimeState {
    /// The normalization engine.
    pub closed spec fn spec_engine(&self) -> ApplicationEngine<ProviderKind> {
        self.engine
    }

    /// The last published devices.
    pub closed spec fn spec_devices(&self) -> Seq<BluetoothAudioDevice> {
        self.devices@
    }

    /// The last published backend status.
    pub closed spec fn spec_status(&self) -> BackendStatus {
        self.backend_status
    }

    /// The settings store.
    pub closed spec fn spec_settings(&self) -> SettingsRepository {
        self.settings
    }

    /// Creates empty runtime state bound to a settings store: the exact
    /// accessory, proximity-pairing and generic battery providers in that
    /// order, no devices, and a backend on `platform` that has not started.
    pub fn new(settings: SettingsRepository, platform: PlatformKind) -> (r: RuntimeState)
        ensures
            r.spec_engine().spec_providers() == seq![
                ProviderKind::AirPodsAccessory,
                ProviderKind::AirPods,
                ProviderKind::GenericBattery,
            ],
            r.spec_engine().spec_policy().case_ttl.nanos == 90_000_000_000,
            r.spec_engine().spec_policy().earbud_ttl.nanos == 300_000_000_000,
            r.spec_engine().spec_policy().aggregate_ttl.nanos == 300_000_000_000,
            r.spec_engine().view() == Map::<Seq<char>, DeviceView>::empty(),
            r.spec_engine().spec_descriptors() == Map::<Seq<char>, DeviceDescriptor>::empty(),
            r.spec_devices().len() == 0,
            r.spec_status().platform == platform,
            !r.spec_status().available,
            r.spec_status().adapter_name is None,
            r.spec_status().powered is None,
            r.spec_status().discovering is None,
            r.spec_status().detail@ == "Bluetooth backend has not started yet."@,
            r.spec_settings() == settings,
            view_wf(r.spec_engine().view()),
    {
        let providers = vec![
            ProviderKind::AirPodsAccessory,
            ProviderKind::AirPods,
            ProviderKind::GenericBattery,
        ];
        let engine = ApplicationEngine::with_policy(FreshnessPolicy::default(), providers);
        RuntimeState {
            engine,
            devices: Vec::new(),
            backend_status: BackendStatus::unavailable(
                platform,
                String::from_str("Bluetooth backend has not started yet."),
            ),
            settings,
        }
    }

    /// An isolated copy of the published devices.
    pub fn devices(&self) -> (r: Vec<BluetoothAudioDevice>)
        ensures
            same_devices(r@, self.spec_devices()),
    {
        copy_devices(&self.devices)
    }

    /// A copy of the published backend status.
    pub fn backend_status(&self) -> (r: BackendStatus)
        ensures
            same_status(r, self.spec_status()),
    {
        copy_status(&self.backend_status)
    }

    /// Replaces the backend status, keeping the engine and devices.
    pub fn set_backend_status(&mut self, status: BackendStatus)
        ensures
            final(self).spec_status() == status,
            final(self).spec_engine() == old(self).spec_engine(),
            final(self).spec_devices() == old(self).spec_devices(),
            final(self).spec_settings() == old(self).spec_settings(),
    {
        self.backend_status = status;
    }

    /// The settings store.
    pub fn settings(&self) -> (r: &SettingsRepository)
        ensures
            *r == self.spec_settings(),
    {
        &self.settings
    }

    /// Applies one native collection at `now`: an available backend's
    /// descriptors replace the catalog, every descriptor is upserted and every
    /// observation processed in order; the engine's devices at `now` are
    /// published, and each of the devices and the status is reported changed
    /// exactly when it differs from what was published before.
    pub fn apply_collection(&mut self, collection: PlatformCollection, now: Timestamp) -> (r:
        RefreshResult)
        ensures
            collection_applied(*old(self), collection, now, *final(self), r),
            view_wf(old(self).spec_engine().view()) ==> view_wf(final(self).spec_engine().view()),
    {
        let PlatformCollection { status, descriptors, observations } = collection;
        let ghost ds = descriptors@;
        let ghost obs = observations@;
        if status.available {
            let mut ids: Vec<String> = Vec::new();
            let mut i: usize = 0;
            while i < descriptors.len()
                invariant
                    i <= descriptors@.len(),
                    ids@.len() == i,
                    forall|k: int| 0 <= k < i ==> (#[trigger] ids@[k])@ == descriptors@[k].backend_id@,
                decreases descriptors@.len() - i,
            {
                ids.push(descriptors[i].backend_id.clone());
                i = i + 1;
            }
            assert(key_set(ids@) =~= descriptor_keys(ds)) by {
                assert forall|k: Seq<char>| key_set(ids@).contains(k) implies descriptor_keys(
                    ds,
                ).contains(k) by {
                    let j = choose|j: int| 0 <= j < ids@.len() && (#[trigger] ids@[j])@ == k;
                    assert(ds[j].backend_id@ == k);
                }
                assert forall|k: Seq<char>| descriptor_keys(ds).contains(k) implies key_set(
                    ids@,
                ).contains(k) by {
                    let j = choose|j: int| 0 <= j < ds.len() && (#[trigger] ds[j]).backend_id@ == k;
                    assert(ids@[j]@ == k);
                }
            }
            self.engine.retain_descriptors(ids.as_slice());
        }
        let ghost base = self.engine.spec_descriptors();
        let ghost start = self.engine.view();
        let mut rest = descriptors;
        let ghost mut k: int = 0;
        while rest.len() > 0
            invariant
                0 <= k <= ds.len(),
                rest@ == ds.skip(k),
                self.engine.spec_descriptors() == upserted(base, ds.take(k)),
                self.engine.view() == start,
                self.engine.spec_providers() == old(self).spec_engine().spec_providers(),
                self.engine.spec_policy() == old(self).spec_engine().spec_policy(),
                self.settings == old(self).settings,
                self.devices == old(self).devices,
                self.backend_status == old(self).backend_status,
            decreases rest@.len(),
        {
            let d = rest.remove(0);
            proof {
                assert(ds.take(k + 1).drop_last() =~= ds.take(k));
                assert(ds.take(k + 1).last() == d);
                k = k + 1;
                assert(rest@ =~= ds.skip(k));
            }
            self.engine.upsert_descriptor(d);
        }
        assert(ds.take(k) =~= ds);
        let mut errors: Vec<ProcessingError> = Vec::new();
        let mut j: usize = 0;
        while j < observations.len()
            invariant
                j <= obs.len(),
                observations@ == obs,
                processes_all(
                    old(self).spec_engine().spec_providers(),
                    old(self).spec_engine().spec_policy(),
                    start,
                    obs.take(j as int),
                    self.engine.view(),
                    errors@,
                ),
                self.engine.spec_descriptors() == upserted(base, ds),
                self.engine.spec_providers() == old(self).spec_engine().spec_providers(),
                self.engine.spec_policy() == old(self).spec_engine().spec_policy(),
                self.settings == old(self).settings,
                self.devices == old(self).devices,
                self.backend_status == old(self).backend_status,
            decreases obs.len() - j,
        {
            let ghost before = self.engine.view();
            let ghost earlier = errors@;
            let outcome = self.engine.process(&observations[j]);
            let ghost sr = choose|sr: Result<DeviceSnapshot, ProcessingError>|
                #[trigger] processed(
                    old(self).spec_engine().spec_providers(),
                    old(self).spec_engine().spec_policy(),
                    before,
                    obs[j as int],
                    self.engine.view(),
                    sr,
                ) && match (sr, outcome) {
                    (Err(e), Err(f)) => e == f,
                    (Ok(s), Ok(None)) => true,
                    (Ok(s), Ok(Some(dev))) => true,
                    _ => false,
                };
            match outcome {
                Err(e) => {
                    errors.push(e);
                },
                Ok(_) => {},
            }
            proof {
                assert(processed(
                    old(self).spec_engine().spec_providers(),
                    old(self).spec_engine().spec_policy(),
                    before,
                    obs[j as int],
                    self.engine.view(),
                    sr,
                ));
                assert(errors@ =~= earlier + error_of(sr));
                lemma_processes_all_push(
                    old(self).spec_engine().spec_providers(),
                    old(self).spec_engine().spec_policy(),
                    start,
                    obs.take(j as int),
                    before,
                    earlier,
                    obs[j as int],
                    self.engine.view(),
                    sr,
                );
                assert(obs.take(j as int).push(obs[j as int]) =~= obs.take(j + 1));
            }
            j = j + 1;
        }
        assert(obs.take(obs.len() as int) =~= obs);
        proof {
            lemma_processes_all_delivers(
                old(self).spec_engine().spec_providers(),
                old(self).spec_engine().spec_policy(),
                start,
                obs,
                self.engine.view(),
                errors@,
            );
            if view_wf(old(self).spec_engine().view()) {
                assert(view_wf(start));
                lemma_deliver_all_wf(start, all_deliveries(old(self).spec_engine().spec_providers(), obs));
            }
        }
        let devices = self.engine.devices(now);
        let devices_changed = !devices_match(self.devices.as_slice(), devices.as_slice());
        if devices_changed {
            self.devices = copy_devices(&devices);
        } else {
            proof {
                assert forall|i: int| 0 <= i < self.devices@.len() implies same_device(
                    #[trigger] self.devices@[i],
                    devices@[i],
                ) by {}
            }
        }
        let status_changed = !status_matches(&self.backend_status, &status);
        let published = copy_status(&status);
        self.backend_status = status;
        RefreshResult { devices, status: published, devices_changed, status_changed, errors }
    }
}

impl RuntimeState {
    /// The snapshot published to shell integrations at `now`: the backend
    /// status as the shell sees it, the published devices, and the preferred
    /// device of the given settings.
    pub fn shell_snapshot(&self, settings: &AppSettings, now: Timestamp) -> (r: ServiceSnapshot)
        ensures
            r.schema_version == IPC_SCHEMA_VERSION,
            r.generated_at == Some(now),
            r.backend matches Some(b) && b.platform@ == platform_text(self.spec_status().platform)
                && b.available == self.spec_status().available && opt_text(b.adapter_name)
                == opt_text(self.spec_status().adapter_name) && b.powered
                == self.spec_status().powered && b.discovering == self.spec_status().discovering
                && b.detail@ == self.spec_status().detail@,
            same_devices(r.devices@, self.spec_devices()),
            opt_text(r.preferred_device_id) == opt_text(settings.preferred_device_id),
    {
        ServiceSnapshot::new(
            now,
            Some(BackendSnapshot::from_status(&self.backend_status)),
            copy_devices(&self.devices),
            copy_text(&settings.preferred_device_id),
        )
    }
}

} // verus!
