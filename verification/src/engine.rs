//! Application-level catalog joining backend metadata with normalized battery state.

use vstd::prelude::*;

use crate::battery::{BatteryComponent, ChargingState, ComponentType};
use crate::classification::{classification_of, classify_device, ClassificationInput};
use crate::device::{BluetoothAudioDevice, Capability, DeviceFamily, Transport, VisualConfidence};
use crate::freshness::FreshnessPolicy;
use crate::processor::{processed, ObservationProcessor, ProcessingError};
use crate::provider::RawObservation;
use crate::providers::DeviceProvider;
use crate::registry::{snapshot_matches, DeviceSnapshot, DeviceView};
use crate::store::{key_set, KeyedStore};
use crate::text::{seq_ascii_lower, text_order};
use crate::timestamp::Timestamp;

verus! {

/// Operating-system metadata retained separately from protocol state.
#[derive(Debug, Clone, PartialEq, Eq)]
pub struct DeviceDescriptor {
    /// Identifier used only to correlate platform observations.
    pub backend_id: String,
    /// Privacy-safe identifier exposed outside the service boundary.
    pub privacy_id: String,
    /// User-visible device name.
    pub display_name: String,
    /// Operating-system name, when different.
    pub system_name: Option<String>,
    /// Manufacturer when reliably identified.
    pub manufacturer: Option<String>,
    /// Model when reliably identified.
    pub model: Option<String>,
    /// Platform icon hint, such as `input-mouse` or `audio-headset`.
    pub icon: Option<String>,
    /// Bluetooth Class of Device.
    pub class: Option<u32>,
    /// Bluetooth SIG appearance value.
    pub appearance: Option<u16>,
    /// Lowercase service UUIDs used only for classification and provider routing.
    pub service_uuids: Vec<String>,
    /// Broad presentation family.
    pub device_family: DeviceFamily,
    /// Bluetooth transport reported by the platform.
    pub transport: Transport,
    /// Most recent platform observation time.
    pub last_seen_at: Option<Timestamp>,
}

/// An optional text followed by a space when present, nothing when absent.
pub open spec fn opt_part(s: Option<String>) -> Seq<char> {
    match s {
        Some(x) => x@ + " "@,
        None => Seq::empty(),
    }
}

/// The text of an optional string.
pub open spec fn opt_text(s: Option<String>) -> Option<Seq<char>> {
    match s {
        Some(x) => Some(x@),
        None => None,
    }
}

/// Family, artwork key and confidence that classification gives a descriptor.
pub open spec fn descriptor_classification(d: DeviceDescriptor) -> (
    DeviceFamily,
    Seq<char>,
    VisualConfidence,
) {
    classification_of(
        seq_ascii_lower(opt_part(d.manufacturer) + opt_part(d.model) + d.display_name@),
        match d.icon {
            Some(x) => seq_ascii_lower(x@),
            None => Seq::empty(),
        },
        d.class,
        d.appearance,
        d.device_family,
    )
}

/// Whether some component is of one of the types selected by `pick`.
pub open spec fn has_component(comps: Seq<BatteryComponent>, pick: spec_fn(ComponentType) -> bool) -> bool {
    exists|i: int| 0 <= i < comps.len() && pick((#[trigger] comps[i]).component_type)
}

/// Whether a component type is an earbud.
pub open spec fn is_earbud(t: ComponentType) -> bool {
    t == ComponentType::Left || t == ComponentType::Right
}

/// Whether a component type is the charging case.
pub open spec fn is_case(t: ComponentType) -> bool {
    t == ComponentType::Case
}

/// Whether a component type is a single aggregate value.
pub open spec fn is_aggregate(t: ComponentType) -> bool {
    t == ComponentType::Headset || t == ComponentType::Aggregate || t == ComponentType::Unknown
}

/// Whether some component reports a known charging state.
pub open spec fn has_charging_state(comps: Seq<BatteryComponent>) -> bool {
    exists|i: int| 0 <= i < comps.len() && (#[trigger] comps[i]).charging_state != ChargingState::Unknown
}

/// `c` once when `b` holds, else nothing.
pub open spec fn when(b: bool, c: Capability) -> Seq<Capability> {
    if b {
        seq![c]
    } else {
        Seq::empty()
    }
}

/// The capabilities shown by the components, in declared order, each once;
/// the `AirPods` family always has earbud, case and charging capabilities.
pub open spec fn capabilities_of(comps: Seq<BatteryComponent>, family: DeviceFamily) -> Seq<Capability> {
    let airpods = family == DeviceFamily::AirPods;
    when(airpods || has_component(comps, |t: ComponentType| is_earbud(t)), Capability::EarbudBattery)
        + when(airpods || has_component(comps, |t: ComponentType| is_case(t)), Capability::CaseBattery)
        + when(has_component(comps, |t: ComponentType| is_aggregate(t)), Capability::AggregateBattery)
        + when(airpods || has_charging_state(comps), Capability::ChargingState)
}

/// The latest update time among components with a known percentage.
pub open spec fn latest_update(comps: Seq<BatteryComponent>) -> Option<Timestamp>
    decreases comps.len(),
{
    if comps.len() == 0 {
        None
    } else {
        let prev = latest_update(comps.drop_last());
        let c = comps.last();
        if c.percentage is Some {
            match prev {
                Some(t) => if t.unix_nanos < c.updated_at.unix_nanos {
                    Some(c.updated_at)
                } else {
                    Some(t)
                },
                None => Some(c.updated_at),
            }
        } else {
            prev
        }
    }
}

/// Whether `dev` is the public device built from descriptor `d` and snapshot `s`.
pub open spec fn assembles(dev: BluetoothAudioDevice, d: DeviceDescriptor, s: DeviceSnapshot) -> bool {
    &&& dev.id@ == d.privacy_id@
    &&& dev.display_name@ == d.display_name@
    &&& opt_text(dev.system_name) == opt_text(d.system_name)
    &&& opt_text(dev.manufacturer) == opt_text(d.manufacturer)
    &&& opt_text(dev.model) == opt_text(d.model)
    &&& (dev.device_family, dev.visual.key@, dev.visual.confidence) == descriptor_classification(d)
    &&& dev.transport == d.transport
    &&& dev.connection_state == s.connection_state
    &&& dev.last_seen_at == d.last_seen_at
    &&& dev.last_updated_at == latest_update(s.components@)
    &&& dev.capabilities@ == capabilities_of(s.components@, d.device_family)
    &&& dev.components@ == s.components@
}

fn clone_opt(s: &Option<String>) -> (r: Option<String>)
    ensures
        opt_text(r) == opt_text(*s),
{
    match s {
        Some(x) => Some(x.clone()),
        None => None,
    }
}

fn opt_str(s: &Option<String>) -> (r: Option<&str>)
    ensures
        match r {
            Some(x) => s matches Some(y) && x@ == y@,
            None => s is None,
        },
{
    match s {
        Some(x) => Some(x.as_str()),
        None => None,
    }
}

fn capabilities(comps: &Vec<BatteryComponent>, family: DeviceFamily) -> (r: Vec<Capability>)
    ensures
        r@ == capabilities_of(comps@, family),
{
    let airpods = family == DeviceFamily::AirPods;
    let mut earbud = false;
    let mut case = false;
    let mut aggregate = false;
    let mut charging = false;
    let mut i: usize = 0;
    while i < comps.len()
        invariant
            i <= comps@.len(),
            earbud == exists|j: int| 0 <= j < i && is_earbud((#[trigger] comps@[j]).component_type),
            case == exists|j: int| 0 <= j < i && is_case((#[trigger] comps@[j]).component_type),
            aggregate == exists|j: int|
                0 <= j < i && is_aggregate((#[trigger] comps@[j]).component_type),
            charging == exists|j: int|
                0 <= j < i && (#[trigger] comps@[j]).charging_state != ChargingState::Unknown,
        decreases comps@.len() - i,
    {
        let c = comps[i];
        match c.component_type {
            ComponentType::Left | ComponentType::Right => {
                earbud = true;
            },
            ComponentType::Case => {
                case = true;
            },
            ComponentType::Headset | ComponentType::Aggregate | ComponentType::Unknown => {
                aggregate = true;
            },
        }
        match c.charging_state {
            ChargingState::Unknown => {},
            _ => {
                charging = true;
            },
        }
        i = i + 1;
    }
    let mut r: Vec<Capability> = Vec::new();
    if airpods || earbud {
        r.push(Capability::EarbudBattery);
    }
    if airpods || case {
        r.push(Capability::CaseBattery);
    }
    if aggregate {
        r.push(Capability::AggregateBattery);
    }
    if airpods || charging {
        r.push(Capability::ChargingState);
    }
    proof {
        let comps_s = comps@;
        assert(earbud == has_component(comps_s, |t: ComponentType| is_earbud(t)));
        assert(case == has_component(comps_s, |t: ComponentType| is_case(t)));
        assert(aggregate == has_component(comps_s, |t: ComponentType| is_aggregate(t)));
        assert(r@ =~= capabilities_of(comps_s, family));
    }
    r
}

fn last_update(comps: &Vec<BatteryComponent>) -> (r: Option<Timestamp>)
    ensures
        r == latest_update(comps@),
{
    let mut latest: Option<Timestamp> = None;
    let mut i: usize = 0;
    while i < comps.len()
        invariant
            i <= comps@.len(),
            latest == latest_update(comps@.take(i as int)),
        decreases comps@.len() - i,
    {
        let c = comps[i];
        assert(comps@.take(i + 1).drop_last() =~= comps@.take(i as int));
        if c.percentage.is_some() {
            latest = match latest {
                Some(t) => Some(t.max(c.updated_at)),
                None => Some(c.updated_at),
            };
        }
        i = i + 1;
    }
    assert(comps@.take(comps@.len() as int) =~= comps@);
    latest
}

fn assemble_device(descriptor: &DeviceDescriptor, snapshot: DeviceSnapshot) -> (r: BluetoothAudioDevice)
    ensures
        assembles(r, *descriptor, snapshot),
{
    let capabilities = capabilities(&snapshot.components, descriptor.device_family);
    let last_updated_at = last_update(&snapshot.components);
    let input = ClassificationInput {
        name: descriptor.display_name.as_str(),
        manufacturer: opt_str(&descriptor.manufacturer),
        model: opt_str(&descriptor.model),
        icon: opt_str(&descriptor.icon),
        class: descriptor.class,
        appearance: descriptor.appearance,
        service_uuids: descriptor.service_uuids.as_slice(),
        family_hint: descriptor.device_family,
    };
    let classification = classify_device(input);
    BluetoothAudioDevice {
        id: descriptor.privacy_id.clone(),
        display_name: descriptor.display_name.clone(),
        system_name: clone_opt(&descriptor.system_name),
        manufacturer: clone_opt(&descriptor.manufacturer),
        model: clone_opt(&descriptor.model),
        device_family: classification.family,
        visual: classification.visual,
        transport: descriptor.transport,
        connection_state: snapshot.connection_state,
        last_seen_at: descriptor.last_seen_at,
        last_updated_at,
        capabilities,
        components: snapshot.components,
    }
}

/// Whether `snaps` are the registry snapshots at `now`: one per known device,
/// in backend identifier order.
pub open spec fn snapshots_listed(
    view: Map<Seq<char>, DeviceView>,
    policy: FreshnessPolicy,
    now: Timestamp,
    snaps: Seq<DeviceSnapshot>,
) -> bool {
    &&& forall|i: int, j: int|
        0 <= i < j < snaps.len() ==> text_order(
            (#[trigger] snaps[i]).device_id@,
            (#[trigger] snaps[j]).device_id@,
        ) < 0
    &&& forall|id: Seq<char>|
        view.contains_key(id) <==> exists|i: int|
            0 <= i < snaps.len() && (#[trigger] snaps[i]).device_id@ == id
    &&& forall|i: int|
        0 <= i < snaps.len() ==> snapshot_matches(
            #[trigger] snaps[i],
            view[snaps[i].device_id@],
            snaps[i].device_id@,
            now,
            policy,
        )
}

/// The snapshots that have a descriptor, each with its descriptor, in order.
pub open spec fn joined(snaps: Seq<DeviceSnapshot>, descriptors: Map<Seq<char>, DeviceDescriptor>) -> Seq<
    (DeviceSnapshot, DeviceDescriptor),
>
    decreases snaps.len(),
{
    if snaps.len() == 0 {
        Seq::empty()
    } else {
        let prev = joined(snaps.drop_last(), descriptors);
        let s = snaps.last();
        if descriptors.contains_key(s.device_id@) {
            prev.push((s, descriptors[s.device_id@]))
        } else {
            prev
        }
    }
}

/// Whether `r` holds, in backend identifier order, the public device of every
/// device that has both registry state and a descriptor, each built from the
/// device's snapshot at `now`.
pub open spec fn lists_devices(
    view: Map<Seq<char>, DeviceView>,
    descriptors: Map<Seq<char>, DeviceDescriptor>,
    policy: FreshnessPolicy,
    now: Timestamp,
    r: Seq<BluetoothAudioDevice>,
) -> bool {
    exists|snaps: Seq<DeviceSnapshot>|
        #[trigger] snapshots_listed(view, policy, now, snaps) && r.len() == joined(
            snaps,
            descriptors,
        ).len() && forall|i: int|
            0 <= i < r.len() ==> assembles(
                #[trigger] r[i],
                joined(snaps, descriptors)[i].1,
                joined(snaps, descriptors)[i].0,
            )
}

/// Stateful normalization engine shared by desktop and shell integrations.
pub struct ApplicationEngine<P: DeviceProvider> {
    processor: ObservationProcessor<P>,
    descriptors: KeyedStore<DeviceDescriptor>,
}

impl<P: DeviceProvider> ApplicationEngine<P> {
    /// Providers in evaluation order.
    pub closed spec fn spec_providers(&self) -> Seq<P> {
        self.processor.spec_providers()
    }

    /// Freshness policy applied to snapshots.
    pub closed spec fn spec_policy(&self) -> FreshnessPolicy {
        self.processor.spec_policy()
    }

    /// Registry state by backend identifier.
    pub closed spec fn view(&self) -> Map<Seq<char>, DeviceView> {
        self.processor.view()
    }

    /// Platform metadata by backend identifier.
    pub closed spec fn spec_descriptors(&self) -> Map<Seq<char>, DeviceDescriptor> {
        self.descriptors@
    }

    /// Creates an engine with the default freshness policy.
    pub fn new(providers: Vec<P>) -> (r: ApplicationEngine<P>)
        ensures
            r.spec_providers() == providers@,
            r.spec_policy().case_ttl.nanos == 90_000_000_000,
            r.spec_policy().earbud_ttl.nanos == 300_000_000_000,
            r.spec_policy().aggregate_ttl.nanos == 300_000_000_000,
            r.view() == Map::<Seq<char>, DeviceView>::empty(),
            r.spec_descriptors() == Map::<Seq<char>, DeviceDescriptor>::empty(),
    {
        Self::with_policy(FreshnessPolicy::default(), providers)
    }

    /// Creates an engine with an explicit freshness policy.
    pub fn with_policy(policy: FreshnessPolicy, providers: Vec<P>) -> (r: ApplicationEngine<P>)
        ensures
            r.spec_providers() == providers@,
            r.spec_policy() == policy,
            r.view() == Map::<Seq<char>, DeviceView>::empty(),
            r.spec_descriptors() == Map::<Seq<char>, DeviceDescriptor>::empty(),
    {
        ApplicationEngine {
            processor: ObservationProcessor::new(policy, providers),
            descriptors: KeyedStore::new(),
        }
    }

    /// Inserts or updates platform metadata for a device.
    pub fn upsert_descriptor(&mut self, descriptor: DeviceDescriptor)
        ensures
            final(self).spec_providers() == old(self).spec_providers(),
            final(self).spec_policy() == old(self).spec_policy(),
            final(self).view() == old(self).view(),
            final(self).spec_descriptors() == old(self).spec_descriptors().insert(
                descriptor.backend_id@,
                descriptor,
            ),
    {
        let key = descriptor.backend_id.clone();
        self.descriptors.insert(key, descriptor);
    }

    /// Reconciles descriptors and provider state with one authoritative platform catalog.
    pub fn retain_descriptors(&mut self, backend_ids: &[String])
        ensures
            final(self).spec_providers() == old(self).spec_providers(),
            final(self).spec_policy() == old(self).spec_policy(),
            final(self).view() == old(self).view().restrict(key_set(backend_ids@)),
            final(self).spec_descriptors() == old(self).spec_descriptors().restrict(
                key_set(backend_ids@),
            ),
    {
        self.descriptors.retain_keys(backend_ids);
        self.processor.retain_devices(backend_ids);
        assert(crate::registry::id_set(backend_ids@) =~= key_set(backend_ids@));
    }

    /// Routes one raw observation and returns a public device when metadata is known.
    ///
    /// The registry changes as the observation leads to; the result is the
    /// processing error, nothing when the device has no descriptor, or the
    /// device built from its descriptor and fresh snapshot.
    pub fn process(&mut self, observation: &RawObservation) -> (r: Result<
        Option<BluetoothAudioDevice>,
        ProcessingError,
    >)
        ensures
            final(self).spec_providers() == old(self).spec_providers(),
            final(self).spec_policy() == old(self).spec_policy(),
            final(self).spec_descriptors() == old(self).spec_descriptors(),
            exists|sr: Result<DeviceSnapshot, ProcessingError>|
                #[trigger] processed(
                    old(self).spec_providers(),
                    old(self).spec_policy(),
                    old(self).view(),
                    *observation,
                    final(self).view(),
                    sr,
                ) && match (sr, r) {
                    (Err(e), Err(f)) => e == f,
                    (Ok(s), Ok(None)) => !old(self).spec_descriptors().contains_key(s.device_id@),
                    (Ok(s), Ok(Some(dev))) => old(self).spec_descriptors().contains_key(
                        s.device_id@,
                    ) && assembles(dev, old(self).spec_descriptors()[s.device_id@], s),
                    _ => false,
                },
    {
        let sr = self.processor.process(observation);
        let ghost g = sr;
        let r = match sr {
            Err(e) => Err(e),
            Ok(snapshot) => match self.descriptors.get(snapshot.device_id.as_str()) {
                Some(descriptor) => Ok(Some(assemble_device(descriptor, snapshot))),
                None => Ok(None),
            },
        };
        assert(processed(
            old(self).spec_providers(),
            old(self).spec_policy(),
            old(self).view(),
            *observation,
            self.view(),
            g,
        ));
        r
    }

    /// Returns all public devices with freshness evaluated at `now`.
    pub fn devices(&self, now: Timestamp) -> (r: Vec<BluetoothAudioDevice>)
        ensures
            lists_devices(self.view(), self.spec_descriptors(), self.spec_policy(), now, r@),
    {
        let mut snapshots = self.processor.snapshots(now);
        let ghost all = snapshots@;
        let ghost descs = self.spec_descriptors();
        assert(snapshots_listed(self.view(), self.spec_policy(), now, all));
        let ghost mut k: int = 0;
        let mut out: Vec<BluetoothAudioDevice> = Vec::new();
        let n = snapshots.len();
        while snapshots.len() > 0
            invariant
                n == all.len(),
                0 <= k <= n,
                snapshots@ == all.skip(k),
                descs == self.spec_descriptors(),
                out@.len() == joined(all.take(k), descs).len(),
                forall|i: int|
                    0 <= i < out@.len() ==> assembles(
                        #[trigger] out@[i],
                        joined(all.take(k), descs)[i].1,
                        joined(all.take(k), descs)[i].0,
                    ),
            decreases snapshots@.len(),
        {
            let snapshot = snapshots.remove(0);
            assert(snapshot == all[k]);
            let ghost prev = joined(all.take(k), descs);
            assert(all.take(k + 1).drop_last() =~= all.take(k));
            assert(all.take(k + 1).last() == all[k]);
            match self.descriptors.get(snapshot.device_id.as_str()) {
                Some(descriptor) => {
                    let dev = assemble_device(descriptor, snapshot);
                    out.push(dev);
                    assert(joined(all.take(k + 1), descs) == prev.push((all[k], descs[all[k].device_id@])));
                },
                None => {},
            }
            proof {
                k = k + 1;
            }
            assert(snapshots@ =~= all.skip(k));
        }
        assert(all.take(n as int) =~= all);
        out
    }
}

} // verus!
