//! Observation routing through providers supplied by the caller.

use airbattery::battery::{
    BatteryComponent, BatteryPercentage, ChargingState, ComponentType, DataConfidence, DataSource,
};
use airbattery::freshness::FreshnessPolicy;
use airbattery::processor::{ObservationProcessor, ProcessingError};
use airbattery::provider::{ProviderError, ProviderReport, RawObservation};
use airbattery::providers::DeviceProvider;
use airbattery::Timestamp;

#[derive(Debug)]
struct FixtureProvider {
    id: &'static str,
    priority: u16,
    component_type: ComponentType,
    percentage: u8,
}

impl DeviceProvider for FixtureProvider {
    fn id(&self) -> &'static str {
        self.id
    }

    fn supports(&self, observation: &RawObservation) -> bool {
        matches!(observation, RawObservation::PlatformBattery { .. })
    }

    fn parse(&self, observation: &RawObservation) -> Result<Option<ProviderReport>, ProviderError> {
        let RawObservation::PlatformBattery { device_id, observed_at, .. } = observation else {
            return Err(ProviderError::Unsupported);
        };
        let percentage = BatteryPercentage::new(self.percentage)
            .map_err(|error| ProviderError::InvalidObservation(error.message()))?;
        Ok(Some(ProviderReport::new(
            self.id,
            device_id,
            self.priority,
            *observed_at,
            vec![BatteryComponent {
                component_type: self.component_type,
                percentage: Some(percentage),
                charging_state: ChargingState::Unknown,
                updated_at: *observed_at,
                source: DataSource::AggregatePlatform,
                confidence: DataConfidence::Medium,
                stale: false,
            }],
        )))
    }
}

#[test]
fn processor_routes_observations_and_merges_provider_reports() {
    let now = Timestamp::unix_epoch();
    let providers = vec![
        FixtureProvider { id: "left", priority: 10, component_type: ComponentType::Left, percentage: 60 },
        FixtureProvider { id: "case", priority: 20, component_type: ComponentType::Case, percentage: 80 },
    ];
    let mut processor = ObservationProcessor::new(FreshnessPolicy::default(), providers);

    let snapshot = processor
        .process(&RawObservation::PlatformBattery {
            device_id: "dev".to_owned(),
            percentage: 1,
            source: DataSource::AggregatePlatform,
            observed_at: now,
        })
        .unwrap_or_else(|error| panic!("processing failed: {error:?}"));

    assert_eq!(snapshot.device_id, "dev");
    assert_eq!(snapshot.components.len(), 2);
    assert!(snapshot.components.iter().any(|component| component.component_type == ComponentType::Left));
    assert!(snapshot.components.iter().any(|component| component.component_type == ComponentType::Case));
}

#[test]
fn a_failing_provider_stops_processing_with_its_identifier() {
    let providers = vec![
        FixtureProvider { id: "broken", priority: 10, component_type: ComponentType::Left, percentage: 101 },
        FixtureProvider { id: "case", priority: 20, component_type: ComponentType::Case, percentage: 80 },
    ];
    let mut processor = ObservationProcessor::new(FreshnessPolicy::default(), providers);
    let error = processor
        .process(&RawObservation::PlatformBattery {
            device_id: "dev".to_owned(),
            percentage: 1,
            source: DataSource::AggregatePlatform,
            observed_at: Timestamp::unix_epoch(),
        })
        .err()
        .unwrap_or_else(|| panic!("invalid percentage was accepted"));
    assert!(matches!(error, ProcessingError::Provider { provider_id: "broken", .. }));
}
