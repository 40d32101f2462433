//! Protocol providers: passive `AirPods` advertisements, active `AirPods`
//! accessory packets, and platform or standard battery values.

use vstd::prelude::*;

use crate::accessory::{accessory_error_text, accessory_outcome, parse_accessory_battery, slot_view};
use crate::airpods::{
    advertisement_encodes, parse_proximity_pairing, AirPodsComponent, APPLE_MANUFACTURER_ID,
    PROXIMITY_PAIRING_TYPE,
};
use crate::battery::{
    invalid_percentage_text, percentage_view, BatteryComponent, BatteryPercentage, ChargingState,
    ComponentType, DataConfidence, DataSource, InvalidBatteryPercentage,
};
use crate::provider::{ProviderError, ProviderReport, RawObservation, ReportView, VendorProtocol};
use crate::timestamp::Timestamp;

verus! {

/// Whether `c` is the normalized form of a component value `v` of type `t`
/// observed at `at`: fresh, with the given source and confidence.
pub open spec fn component_from(
    c: BatteryComponent,
    t: ComponentType,
    v: (Option<u8>, ChargingState),
    at: Timestamp,
    source: DataSource,
    confidence: DataConfidence,
) -> bool {
    &&& c.component_type == t
    &&& percentage_view(c.percentage) == v.0
    &&& c.charging_state == v.1
    &&& c.updated_at == at
    &&& c.source == source
    &&& c.confidence == confidence
    &&& !c.stale
}

/// Whether `rv` reports exactly the component values `values` (in order)
/// for `device_id` at `at`, with the given provider, priority, source and confidence.
pub open spec fn report_of(
    rv: ReportView,
    provider_id: Seq<char>,
    device_id: Seq<char>,
    priority: u16,
    at: Timestamp,
    values: Seq<(ComponentType, (Option<u8>, ChargingState))>,
    source: DataSource,
    confidence: DataConfidence,
) -> bool {
    &&& rv.provider_id == provider_id
    &&& rv.device_id == device_id
    &&& rv.priority == priority
    &&& rv.observed_at == at
    &&& rv.components.len() == values.len()
    &&& forall|i: int|
        0 <= i < values.len() ==> component_from(
            #[trigger] rv.components[i],
            values[i].0,
            values[i].1,
            at,
            source,
            confidence,
        )
}

fn normalized_component(
    component_type: ComponentType,
    component: AirPodsComponent,
    observed_at: Timestamp,
    source: DataSource,
    confidence: DataConfidence,
) -> (r: BatteryComponent)
    ensures
        component_from(r, component_type, component@, observed_at, source, confidence),
{
    BatteryComponent {
        component_type,
        percentage: component.percentage,
        charging_state: component.charging_state,
        updated_at: observed_at,
        source,
        confidence,
        stale: false,
    }
}

/// Plain view of a provider outcome.
pub open spec fn outcome_view(r: Result<Option<ProviderReport>, ProviderError>) -> Result<
    Option<ReportView>,
    ProviderError,
> {
    match r {
        Ok(Some(rep)) => Ok(Some(rep@)),
        Ok(None) => Ok(None),
        Err(e) => Err(e),
    }
}

/// Extensible protocol provider contract.
///
/// A provider that does not describe itself states nothing: its identifier
/// is unspecified, and it may recognize any observation and make any outcome
/// of it.
pub trait DeviceProvider {
    /// Stable provider identifier.
    open spec fn spec_id(&self) -> Seq<char> {
        Seq::empty()
    }

    /// Whether the provider recognizes the observation shape.
    open spec fn spec_supports(&self, observation: RawObservation) -> bool {
        true
    }

    /// Whether `outcome` is what the provider makes of the observation.
    open spec fn spec_parses(
        &self,
        observation: RawObservation,
        outcome: Result<Option<ReportView>, ProviderError>,
    ) -> bool {
        true
    }

    /// Stable provider identifier.
    fn id(&self) -> (r: &'static str)
        ensures
            r@ == self.spec_id(),
    ;

    /// Whether this provider recognizes the observation shape.
    fn supports(&self, observation: &RawObservation) -> (r: bool)
        ensures
            r == self.spec_supports(*observation),
    ;

    /// Parses one observation into an optional normalized report.
    fn parse(&self, observation: &RawObservation) -> (r: Result<Option<ProviderReport>, ProviderError>)
        ensures
            self.spec_parses(*observation, outcome_view(r)),
    ;
}

/// Provider for Apple Continuity proximity-pairing advertisements.
#[derive(Debug, Default, Clone, Copy)]
pub struct AirPodsProvider;

/// Provider for exact `AirPods` battery notifications over the active accessory transport.
#[derive(Debug, Default, Clone, Copy)]
pub struct AirPodsAccessoryProvider;

/// Provider for platform aggregate and standard Battery Service observations.
#[derive(Debug, Default, Clone, Copy)]
pub struct GenericBatteryProvider;

/// Whether `observation` is a complete Apple proximity-pairing advertisement.
pub open spec fn is_complete_airpods_advertisement(observation: RawObservation) -> bool {
    match observation {
        RawObservation::ManufacturerData { company_id, payload, .. } => company_id
            == APPLE_MANUFACTURER_ID && payload@.len() >= 27 && payload@[0]
            == PROXIMITY_PAIRING_TYPE,
        _ => false,
    }
}

/// Whether `outcome` is the report of a complete proximity-pairing
/// advertisement: left, right and case at medium confidence.
pub open spec fn airpods_advertisement_outcome(
    observation: RawObservation,
    outcome: Result<Option<ReportView>, ProviderError>,
) -> bool {
    if is_complete_airpods_advertisement(observation) {
        match observation {
            RawObservation::ManufacturerData { device_id, payload, observed_at, .. } => exists|
                adv: crate::airpods::AirPodsAdvertisement,
            |
                advertisement_encodes(adv, payload@) && (outcome matches Ok(Some(rv)) && report_of(
                    rv,
                    "airpods-proximity-pairing"@,
                    device_id@,
                    100,
                    observed_at,
                    seq![
                        (ComponentType::Left, adv.left@),
                        (ComponentType::Right, adv.right@),
                        (ComponentType::Case, adv.case@),
                    ],
                    DataSource::AirPodsAdvertisement,
                    DataConfidence::Medium,
                )),
            _ => false,
        }
    } else {
        outcome == Ok::<Option<ReportView>, ProviderError>(None)
    }
}

impl DeviceProvider for AirPodsProvider {
    open spec fn spec_supports(&self, observation: RawObservation) -> bool {
        is_complete_airpods_advertisement(observation)
    }

    open spec fn spec_parses(
        &self,
        observation: RawObservation,
        outcome: Result<Option<ReportView>, ProviderError>,
    ) -> bool {
        airpods_advertisement_outcome(observation, outcome)
    }

    open spec fn spec_id(&self) -> Seq<char> {
        "airpods-proximity-pairing"@
    }

    fn id(&self) -> (r: &'static str) {
        "airpods-proximity-pairing"
    }

    fn supports(&self, observation: &RawObservation) -> (r: bool) {
        match observation {
            RawObservation::ManufacturerData { company_id, payload, .. } => *company_id
                == APPLE_MANUFACTURER_ID && payload.len() >= 27 && payload[0]
                == PROXIMITY_PAIRING_TYPE,
            _ => false,
        }
    }

    fn parse(&self, observation: &RawObservation) -> (r: Result<Option<ProviderReport>, ProviderError>) {
        match observation {
            RawObservation::ManufacturerData { device_id, company_id, payload, observed_at } => {
                if *company_id != APPLE_MANUFACTURER_ID || payload.len() < 27 || payload[0]
                    != PROXIMITY_PAIRING_TYPE {
                    return Ok(None);
                }
                match parse_proximity_pairing(payload.as_slice()) {
                    Ok(Some(parsed)) => {
                        let components = vec![
                            normalized_component(
                                ComponentType::Left,
                                parsed.left,
                                *observed_at,
                                DataSource::AirPodsAdvertisement,
                                DataConfidence::Medium,
                            ),
                            normalized_component(
                                ComponentType::Right,
                                parsed.right,
                                *observed_at,
                                DataSource::AirPodsAdvertisement,
                                DataConfidence::Medium,
                            ),
                            normalized_component(
                                ComponentType::Case,
                                parsed.case,
                                *observed_at,
                                DataSource::AirPodsAdvertisement,
                                DataConfidence::Medium,
                            ),
                        ];
                        let report = ProviderReport::new(
                            "airpods-proximity-pairing",
                            device_id.as_str(),
                            100,
                            *observed_at,
                            components,
                        );
                        proof {
                            let vals = seq![
                                (ComponentType::Left, parsed.left@),
                                (ComponentType::Right, parsed.right@),
                                (ComponentType::Case, parsed.case@),
                            ];
                            assert(report_of(
                                report@,
                                "airpods-proximity-pairing"@,
                                device_id@,
                                100,
                                *observed_at,
                                vals,
                                DataSource::AirPodsAdvertisement,
                                DataConfidence::Medium,
                            ));
                        }
                        Ok(Some(report))
                    },
                    _ => Ok(None),
                }
            },
            _ => Ok(None),
        }
    }
}

/// The component values of an accessory view that are present, in the
/// order left, right, case.
pub open spec fn accessory_values(
    v: crate::accessory::AccessoryView,
) -> Seq<(ComponentType, (Option<u8>, ChargingState))> {
    (match v.0 {
        Some(c) => seq![(ComponentType::Left, c)],
        None => Seq::empty(),
    }) + (match v.1 {
        Some(c) => seq![(ComponentType::Right, c)],
        None => Seq::empty(),
    }) + (match v.2 {
        Some(c) => seq![(ComponentType::Case, c)],
        None => Seq::empty(),
    })
}

/// What the accessory provider makes of an observation.
pub open spec fn accessory_packet_outcome(
    observation: RawObservation,
    outcome: Result<Option<ReportView>, ProviderError>,
) -> bool {
    match observation {
        RawObservation::VendorPacket { device_id, protocol, payload, observed_at } => {
            match accessory_outcome(payload@) {
                Err(e) => outcome matches Err(ProviderError::InvalidObservation(msg))
                    && msg@ == accessory_error_text(e),
                Ok(None) => outcome == Ok::<Option<ReportView>, ProviderError>(None),
                Ok(Some(v)) => outcome matches Ok(Some(rv)) && report_of(
                    rv,
                    "airpods-accessory-battery"@,
                    device_id@,
                    300,
                    observed_at,
                    accessory_values(v),
                    DataSource::VendorProtocol,
                    DataConfidence::Verified,
                ),
            }
        },
        _ => outcome == Ok::<Option<ReportView>, ProviderError>(None),
    }
}

impl DeviceProvider for AirPodsAccessoryProvider {
    open spec fn spec_supports(&self, observation: RawObservation) -> bool {
        observation is VendorPacket
    }

    open spec fn spec_parses(
        &self,
        observation: RawObservation,
        outcome: Result<Option<ReportView>, ProviderError>,
    ) -> bool {
        accessory_packet_outcome(observation, outcome)
    }

    open spec fn spec_id(&self) -> Seq<char> {
        "airpods-accessory-battery"@
    }

    fn id(&self) -> (r: &'static str) {
        "airpods-accessory-battery"
    }

    fn supports(&self, observation: &RawObservation) -> (r: bool) {
        match observation {
            RawObservation::VendorPacket { protocol: VendorProtocol::AppleAccessory, .. } => true,
            _ => false,
        }
    }

    fn parse(&self, observation: &RawObservation) -> (r: Result<Option<ProviderReport>, ProviderError>) {
        match observation {
            RawObservation::VendorPacket { device_id, protocol: VendorProtocol::AppleAccessory, payload, observed_at } => {
                match parse_accessory_battery(payload.as_slice()) {
                    Err(e) => Err(ProviderError::InvalidObservation(e.message())),
                    Ok(None) => Ok(None),
                    Ok(Some(parsed)) => {
                        let ghost vals = accessory_values(parsed@);
                        let mut components: Vec<BatteryComponent> = Vec::new();
                        let ghost mut done: Seq<(ComponentType, (Option<u8>, ChargingState))> = Seq::empty();
                        if let Some(c) = parsed.left {
                            components.push(normalized_component(ComponentType::Left, c, *observed_at, DataSource::VendorProtocol, DataConfidence::Verified));
                            proof { done = done.push((ComponentType::Left, c@)); }
                        }
                        if let Some(c) = parsed.right {
                            components.push(normalized_component(ComponentType::Right, c, *observed_at, DataSource::VendorProtocol, DataConfidence::Verified));
                            proof { done = done.push((ComponentType::Right, c@)); }
                        }
                        if let Some(c) = parsed.case {
                            components.push(normalized_component(ComponentType::Case, c, *observed_at, DataSource::VendorProtocol, DataConfidence::Verified));
                            proof { done = done.push((ComponentType::Case, c@)); }
                        }
                        assert(done =~= vals);
                        let report = ProviderReport::new(
                            "airpods-accessory-battery",
                            device_id.as_str(),
                            300,
                            *observed_at,
                            components,
                        );
                        assert(report_of(report@, "airpods-accessory-battery"@, device_id@, 300, *observed_at, vals, DataSource::VendorProtocol, DataConfidence::Verified));
                        Ok(Some(report))
                    },
                }
            },
            _ => Ok(None),
        }
    }
}

/// Whether `outcome` is the single-component report of a raw platform or
/// standard battery percentage: rejected with its message when above 100.
pub open spec fn battery_value_outcome(
    outcome: Result<Option<ReportView>, ProviderError>,
    provider_id: Seq<char>,
    device_id: Seq<char>,
    percentage: u8,
    at: Timestamp,
    t: ComponentType,
    source: DataSource,
    confidence: DataConfidence,
) -> bool {
    if percentage <= 100 {
        outcome matches Ok(Some(rv)) && report_of(
            rv,
            provider_id,
            device_id,
            30,
            at,
            seq![(t, (Some(percentage), ChargingState::Unknown))],
            source,
            confidence,
        )
    } else {
        outcome matches Err(ProviderError::InvalidObservation(msg)) && msg@
            == invalid_percentage_text(InvalidBatteryPercentage { value: percentage })
    }
}

/// Whether `r` normalizes a raw battery percentage into a one-component
/// report, or rejects a value above 100.
pub open spec fn normalized(
    r: Result<ProviderReport, InvalidBatteryPercentage>,
    provider_id: Seq<char>,
    device_id: Seq<char>,
    percentage: u8,
    at: Timestamp,
    t: ComponentType,
    source: DataSource,
    confidence: DataConfidence,
) -> bool {
    if percentage <= 100 {
        r matches Ok(rep) && report_of(
            rep@,
            provider_id,
            device_id,
            30,
            at,
            seq![(t, (Some(percentage), ChargingState::Unknown))],
            source,
            confidence,
        )
    } else {
        r == Err::<ProviderReport, InvalidBatteryPercentage>(
            InvalidBatteryPercentage { value: percentage },
        )
    }
}

fn report(
    provider_id: &str,
    device_id: &str,
    percentage: u8,
    observed_at: Timestamp,
    component_type: ComponentType,
    source: DataSource,
    confidence: DataConfidence,
) -> (r: Result<ProviderReport, InvalidBatteryPercentage>)
    ensures
        normalized(r, provider_id@, device_id@, percentage, observed_at, component_type, source, confidence),
{
    let percentage_value = match BatteryPercentage::new(percentage) {
        Ok(p) => p,
        Err(e) => {
            return Err(e);
        },
    };
    let c = BatteryComponent {
        component_type,
        percentage: Some(percentage_value),
        charging_state: ChargingState::Unknown,
        updated_at: observed_at,
        source,
        confidence,
        stale: false,
    };
    let rep = ProviderReport::new(provider_id, device_id, 30, observed_at, vec![c]);
    assert(report_of(rep@, provider_id@, device_id@, 30, observed_at, seq![(component_type, (Some(percentage), ChargingState::Unknown))], source, confidence));
    Ok(rep)
}

/// Normalizes an operating-system aggregate battery value.
pub fn normalize_platform_battery(device_id: &str, percentage: u8, observed_at: Timestamp) -> (r:
    Result<ProviderReport, InvalidBatteryPercentage>)
    ensures
        normalized(r, "platform-aggregate"@, device_id@, percentage, observed_at, ComponentType::Aggregate, DataSource::AggregatePlatform, DataConfidence::Medium),
{
    normalize_platform_battery_from(device_id, percentage, observed_at, DataSource::AggregatePlatform)
}

/// Normalizes a platform battery value while preserving its exact source.
pub fn normalize_platform_battery_from(
    device_id: &str,
    percentage: u8,
    observed_at: Timestamp,
    source: DataSource,
) -> (r: Result<ProviderReport, InvalidBatteryPercentage>)
    ensures
        normalized(r, "platform-aggregate"@, device_id@, percentage, observed_at, ComponentType::Aggregate, source, DataConfidence::Medium),
{
    report("platform-aggregate", device_id, percentage, observed_at, ComponentType::Aggregate, source, DataConfidence::Medium)
}

/// Normalizes characteristic `0x2A19` from the standard Battery Service.
pub fn normalize_standard_battery(device_id: &str, percentage: u8, observed_at: Timestamp) -> (r:
    Result<ProviderReport, InvalidBatteryPercentage>)
    ensures
        normalized(r, "standard-battery-service"@, device_id@, percentage, observed_at, ComponentType::Headset, DataSource::StandardBleBattery, DataConfidence::Verified),
{
    report("standard-battery-service", device_id, percentage, observed_at, ComponentType::Headset, DataSource::StandardBleBattery, DataConfidence::Verified)
}

/// What the generic battery provider makes of an observation.
pub open spec fn generic_battery_outcome(
    observation: RawObservation,
    outcome: Result<Option<ReportView>, ProviderError>,
) -> bool {
    match observation {
        RawObservation::PlatformBattery { device_id, percentage, source, observed_at } => battery_value_outcome(
            outcome,
            "platform-aggregate"@,
            device_id@,
            percentage,
            observed_at,
            ComponentType::Aggregate,
            source,
            DataConfidence::Medium,
        ),
        RawObservation::StandardBattery { device_id, percentage, observed_at } => battery_value_outcome(
            outcome,
            "standard-battery-service"@,
            device_id@,
            percentage,
            observed_at,
            ComponentType::Headset,
            DataSource::StandardBleBattery,
            DataConfidence::Verified,
        ),
        _ => outcome == Ok::<Option<ReportView>, ProviderError>(None),
    }
}

fn lift(r: Result<ProviderReport, InvalidBatteryPercentage>) -> (o: Result<Option<ProviderReport>, ProviderError>)
    ensures
        r matches Ok(rep) ==> o == Ok::<Option<ProviderReport>, ProviderError>(Some(rep)),
        r matches Err(e) ==> o matches Err(ProviderError::InvalidObservation(msg)) && msg@ == invalid_percentage_text(e),
{
    match r {
        Ok(rep) => Ok(Some(rep)),
        Err(e) => Err(ProviderError::InvalidObservation(e.message())),
    }
}

impl DeviceProvider for GenericBatteryProvider {
    open spec fn spec_supports(&self, observation: RawObservation) -> bool {
        observation is PlatformBattery || observation is StandardBattery
    }

    open spec fn spec_parses(
        &self,
        observation: RawObservation,
        outcome: Result<Option<ReportView>, ProviderError>,
    ) -> bool {
        generic_battery_outcome(observation, outcome)
    }

    open spec fn spec_id(&self) -> Seq<char> {
        "generic-battery"@
    }

    fn id(&self) -> (r: &'static str) {
        "generic-battery"
    }

    fn supports(&self, observation: &RawObservation) -> (r: bool) {
        match observation {
            RawObservation::PlatformBattery { .. } => true,
            RawObservation::StandardBattery { .. } => true,
            _ => false,
        }
    }

    fn parse(&self, observation: &RawObservation) -> (r: Result<Option<ProviderReport>, ProviderError>) {
        match observation {
            RawObservation::PlatformBattery { device_id, percentage, source, observed_at } => lift(
                normalize_platform_battery_from(device_id.as_str(), *percentage, *observed_at, *source),
            ),
            RawObservation::StandardBattery { device_id, percentage, observed_at } => lift(
                normalize_standard_battery(device_id.as_str(), *percentage, *observed_at),
            ),
            _ => Ok(None),
        }
    }
}

/// The built-in providers, evaluated by the observation processor.
#[derive(Debug, Clone, Copy, PartialEq, Eq, Structural)]
pub enum ProviderKind {
    /// Exact accessory battery notifications.
    AirPodsAccessory,
    /// Passive proximity-pairing advertisements.
    AirPods,
    /// Platform and standard battery values.
    GenericBattery,
}

impl DeviceProvider for ProviderKind {
    open spec fn spec_id(&self) -> Seq<char> {
        match self {
            ProviderKind::AirPodsAccessory => AirPodsAccessoryProvider.spec_id(),
            ProviderKind::AirPods => AirPodsProvider.spec_id(),
            ProviderKind::GenericBattery => GenericBatteryProvider.spec_id(),
        }
    }

    open spec fn spec_supports(&self, observation: RawObservation) -> bool {
        match self {
            ProviderKind::AirPodsAccessory => AirPodsAccessoryProvider.spec_supports(observation),
            ProviderKind::AirPods => AirPodsProvider.spec_supports(observation),
            ProviderKind::GenericBattery => GenericBatteryProvider.spec_supports(observation),
        }
    }

    open spec fn spec_parses(
        &self,
        observation: RawObservation,
        outcome: Result<Option<ReportView>, ProviderError>,
    ) -> bool {
        match self {
            ProviderKind::AirPodsAccessory => AirPodsAccessoryProvider.spec_parses(observation, outcome),
            ProviderKind::AirPods => AirPodsProvider.spec_parses(observation, outcome),
            ProviderKind::GenericBattery => GenericBatteryProvider.spec_parses(observation, outcome),
        }
    }

    fn id(&self) -> (r: &'static str) {
        match self {
            ProviderKind::AirPodsAccessory => AirPodsAccessoryProvider.id(),
            ProviderKind::AirPods => AirPodsProvider.id(),
            ProviderKind::GenericBattery => GenericBatteryProvider.id(),
        }
    }

    fn supports(&self, observation: &RawObservation) -> (r: bool) {
        match self {
            ProviderKind::AirPodsAccessory => AirPodsAccessoryProvider.supports(observation),
            ProviderKind::AirPods => AirPodsProvider.supports(observation),
            ProviderKind::GenericBattery => GenericBatteryProvider.supports(observation),
        }
    }

    fn parse(&self, observation: &RawObservation) -> (r: Result<Option<ProviderReport>, ProviderError>) {
        match self {
            ProviderKind::AirPodsAccessory => AirPodsAccessoryProvider.parse(observation),
            ProviderKind::AirPods => AirPodsProvider.parse(observation),
            ProviderKind::GenericBattery => GenericBatteryProvider.parse(observation),
        }
    }
}

/// A platform battery value is never split into invented left, right or case
/// values: it is either rejected or reported as one aggregate component with
/// exactly that percentage.
pub proof fn lemma_platform_battery_stays_aggregate(
    observation: RawObservation,
    outcome: Result<Option<ReportView>, ProviderError>,
)
    requires
        observation is PlatformBattery,
        GenericBatteryProvider.spec_parses(observation, outcome),
    ensures
        outcome matches Ok(Some(rv)) ==> rv.components.len() == 1
            && rv.components[0].component_type == ComponentType::Aggregate && percentage_view(
            rv.components[0].percentage,
        ) == Some(observation->PlatformBattery_percentage),
        outcome is Ok <==> observation->PlatformBattery_percentage <= 100,
{
    if let Ok(Some(rv)) = outcome {
        assert(component_from(
            rv.components[0],
            ComponentType::Aggregate,
            (Some(observation->PlatformBattery_percentage), ChargingState::Unknown),
            observation->PlatformBattery_observed_at,
            observation->PlatformBattery_source,
            DataConfidence::Medium,
        ));
    }
}

/// Whether two provider outcomes agree in everything the registry takes from
/// them: both failed, both recognized nothing, or both produced the same report.
pub open spec fn same_outcome(
    x: Result<Option<ReportView>, ProviderError>,
    y: Result<Option<ReportView>, ProviderError>,
) -> bool {
    match (x, y) {
        (Ok(None), Ok(None)) => true,
        (Ok(Some(a)), Ok(Some(b))) => a == b,
        (Err(_), Err(_)) => true,
        _ => false,
    }
}

proof fn lemma_report_of_unique(
    a: ReportView,
    b: ReportView,
    provider_id: Seq<char>,
    device_id: Seq<char>,
    priority: u16,
    at: Timestamp,
    values: Seq<(ComponentType, (Option<u8>, ChargingState))>,
    source: DataSource,
    confidence: DataConfidence,
)
    requires
        report_of(a, provider_id, device_id, priority, at, values, source, confidence),
        report_of(b, provider_id, device_id, priority, at, values, source, confidence),
    ensures
        a == b,
{
    assert forall|i: int| 0 <= i < a.components.len() implies a.components[i] == b.components[i] by {
        let x = a.components[i];
        let y = b.components[i];
        assert(component_from(x, values[i].0, values[i].1, at, source, confidence));
        assert(component_from(y, values[i].0, values[i].1, at, source, confidence));
        if let (Some(p), Some(q)) = (x.percentage, y.percentage) {
            p.lemma_value_determines(q);
        }
    }
    assert(a.components =~= b.components);
}

/// A provider of this library makes one outcome of an observation: any two
/// outcomes it may give agree in everything the registry takes from them.
pub proof fn lemma_outcome_unique(
    p: ProviderKind,
    observation: RawObservation,
    x: Result<Option<ReportView>, ProviderError>,
    y: Result<Option<ReportView>, ProviderError>,
)
    requires
        p.spec_parses(observation, x),
        p.spec_parses(observation, y),
    ensures
        same_outcome(x, y),
{
    match p {
        ProviderKind::AirPodsAccessory => {
            if let RawObservation::VendorPacket { device_id, protocol, payload, observed_at } = observation {
                if let Ok(Some(v)) = accessory_outcome(payload@) {
                    lemma_report_of_unique(
                        x->Ok_0->Some_0,
                        y->Ok_0->Some_0,
                        "airpods-accessory-battery"@,
                        device_id@,
                        300,
                        observed_at,
                        accessory_values(v),
                        DataSource::VendorProtocol,
                        DataConfidence::Verified,
                    );
                }
            }
        },
        ProviderKind::AirPods => {
            if is_complete_airpods_advertisement(observation) {
                if let RawObservation::ManufacturerData { device_id, payload, observed_at, .. } = observation {
                    let ax = choose|adv: crate::airpods::AirPodsAdvertisement|
                        advertisement_encodes(adv, payload@) && (x matches Ok(Some(rv)) && report_of(
                            rv,
                            "airpods-proximity-pairing"@,
                            device_id@,
                            100,
                            observed_at,
                            seq![
                                (ComponentType::Left, adv.left@),
                                (ComponentType::Right, adv.right@),
                                (ComponentType::Case, adv.case@),
                            ],
                            DataSource::AirPodsAdvertisement,
                            DataConfidence::Medium,
                        ));
                    let ay = choose|adv: crate::airpods::AirPodsAdvertisement|
                        advertisement_encodes(adv, payload@) && (y matches Ok(Some(rv)) && report_of(
                            rv,
                            "airpods-proximity-pairing"@,
                            device_id@,
                            100,
                            observed_at,
                            seq![
                                (ComponentType::Left, adv.left@),
                                (ComponentType::Right, adv.right@),
                                (ComponentType::Case, adv.case@),
                            ],
                            DataSource::AirPodsAdvertisement,
                            DataConfidence::Medium,
                        ));
                    assert(ax.left@ == ay.left@ && ax.right@ == ay.right@ && ax.case@ == ay.case@);
                    lemma_report_of_unique(
                        x->Ok_0->Some_0,
                        y->Ok_0->Some_0,
                        "airpods-proximity-pairing"@,
                        device_id@,
                        100,
                        observed_at,
                        seq![
                            (ComponentType::Left, ax.left@),
                            (ComponentType::Right, ax.right@),
                            (ComponentType::Case, ax.case@),
                        ],
                        DataSource::AirPodsAdvertisement,
                        DataConfidence::Medium,
                    );
                }
            }
        },
        ProviderKind::GenericBattery => {
            match observation {
                RawObservation::PlatformBattery { device_id, percentage, source, observed_at } => {
                    if percentage <= 100 {
                        lemma_report_of_unique(
                            x->Ok_0->Some_0,
                            y->Ok_0->Some_0,
                            "platform-aggregate"@,
                            device_id@,
                            30,
                            observed_at,
                            seq![(ComponentType::Aggregate, (Some(percentage), ChargingState::Unknown))],
                            source,
                            DataConfidence::Medium,
                        );
                    }
                },
                RawObservation::StandardBattery { device_id, percentage, observed_at } => {
                    if percentage <= 100 {
                        lemma_report_of_unique(
                            x->Ok_0->Some_0,
                            y->Ok_0->Some_0,
                            "standard-battery-service"@,
                            device_id@,
                            30,
                            observed_at,
                            seq![(ComponentType::Headset, (Some(percentage), ChargingState::Unknown))],
                            DataSource::StandardBleBattery,
                            DataConfidence::Verified,
                        );
                    }
                },
                _ => {},
            }
        },
    }
}

} // verus!
