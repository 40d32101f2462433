//! Observation processing and application catalog tests.

use airbattery::device::{Capability, ConnectionState, DeviceFamily, Transport};
use airbattery::engine::{ApplicationEngine, DeviceDescriptor};
use airbattery::freshness::FreshnessPolicy;
use airbattery::processor::ObservationProcessor;
use airbattery::provider::RawObservation;
use airbattery::providers::ProviderKind;
use airbattery::{DataSource, Timestamp};

fn descriptor() -> DeviceDescriptor {
    DeviceDescriptor {
        backend_id: "raw-address".to_owned(),
        privacy_id: "bt-safe".to_owned(),
        display_name: "Headphones".to_owned(),
        system_name: Some("System Headphones".to_owned()),
        manufacturer: None,
        model: None,
        icon: None,
        class: None,
        appearance: None,
        service_uuids: Vec::new(),
        device_family: DeviceFamily::Headset,
        transport: Transport::Dual,
        last_seen_at: Some(Timestamp::unix_epoch()),
    }
}

#[test]
fn processor_applies_connection_observations_without_protocol_parsing() {
    let now = Timestamp::unix_epoch();
    let mut processor = ObservationProcessor::new(FreshnessPolicy::default(), Vec::<ProviderKind>::new());
    let snapshot = processor
        .process(&RawObservation::Connection {
            device_id: "dev".to_owned(),
            state: ConnectionState::Connected,
            observed_at: now,
        })
        .unwrap_or_else(|error| panic!("processing failed: {error:?}"));
    assert_eq!(snapshot.connection_state, ConnectionState::Connected);
    assert!(snapshot.components.is_empty());
}

#[test]
fn processor_prunes_devices_absent_from_authoritative_catalog() {
    let now = Timestamp::unix_epoch();
    let mut processor = ObservationProcessor::new(FreshnessPolicy::default(), Vec::<ProviderKind>::new());
    for device_id in ["keep", "remove"] {
        processor
            .process(&RawObservation::Connection {
                device_id: device_id.to_owned(),
                state: ConnectionState::Connected,
                observed_at: now,
            })
            .unwrap_or_else(|error| panic!("processing failed: {error:?}"));
    }
    processor.retain_devices(&["keep".to_owned()]);
    let snapshots = processor.snapshots(now);
    assert_eq!(snapshots.len(), 1);
    assert_eq!(snapshots[0].device_id, "keep");
}

#[test]
fn engine_exposes_privacy_id_and_derived_capabilities() {
    let mut engine = ApplicationEngine::new(vec![ProviderKind::GenericBattery]);
    engine.upsert_descriptor(descriptor());
    engine
        .process(&RawObservation::Connection {
            device_id: "raw-address".to_owned(),
            state: ConnectionState::Connected,
            observed_at: Timestamp::unix_epoch(),
        })
        .unwrap_or_else(|error| panic!("connection processing failed: {error:?}"));
    let device = engine
        .process(&RawObservation::PlatformBattery {
            device_id: "raw-address".to_owned(),
            percentage: 44,
            source: DataSource::AggregatePlatform,
            observed_at: Timestamp::unix_epoch(),
        })
        .unwrap_or_else(|error| panic!("battery processing failed: {error:?}"))
        .unwrap_or_else(|| panic!("known descriptor did not produce a device"));

    assert_eq!(device.id, "bt-safe");
    assert_eq!(device.display_name, "Headphones");
    assert_eq!(device.connection_state, ConnectionState::Connected);
    assert!(device.capabilities.contains(&Capability::AggregateBattery));
    assert_eq!(device.last_updated_at, Some(Timestamp::unix_epoch()));
}

#[test]
fn unknown_backend_device_is_not_exposed_without_metadata() {
    let mut engine = ApplicationEngine::new(vec![ProviderKind::GenericBattery]);
    let result = engine
        .process(&RawObservation::PlatformBattery {
            device_id: "unknown".to_owned(),
            percentage: 50,
            source: DataSource::AggregatePlatform,
            observed_at: Timestamp::unix_epoch(),
        })
        .unwrap_or_else(|error| panic!("processing failed: {error:?}"));
    assert!(result.is_none());
}

#[test]
fn descriptor_reconciliation_removes_expired_platform_devices() {
    let mut engine = ApplicationEngine::new(vec![ProviderKind::GenericBattery]);
    engine.upsert_descriptor(descriptor());
    engine
        .process(&RawObservation::Connection {
            device_id: "raw-address".to_owned(),
            state: ConnectionState::Connected,
            observed_at: Timestamp::unix_epoch(),
        })
        .unwrap_or_else(|error| panic!("connection processing failed: {error:?}"));
    engine.retain_descriptors(&[]);
    assert!(engine.devices(Timestamp::unix_epoch()).is_empty());
}

#[test]
fn engine_lists_devices_in_backend_order_with_airpods_capabilities() {
    let mut engine = ApplicationEngine::new(vec![ProviderKind::GenericBattery]);
    let mut second = descriptor();
    second.backend_id = "b-device".to_owned();
    second.privacy_id = "bt-second".to_owned();
    second.device_family = DeviceFamily::AirPods;
    engine.upsert_descriptor(second);
    let mut first = descriptor();
    first.backend_id = "a-device".to_owned();
    first.privacy_id = "bt-first".to_owned();
    engine.upsert_descriptor(first);
    for id in ["b-device", "a-device"] {
        engine
            .process(&RawObservation::Connection {
                device_id: id.to_owned(),
                state: ConnectionState::Connected,
                observed_at: Timestamp::unix_epoch(),
            })
            .unwrap_or_else(|error| panic!("connection processing failed: {error:?}"));
    }
    let devices = engine.devices(Timestamp::unix_epoch());
    assert_eq!(devices.len(), 2);
    assert_eq!(devices[0].id, "bt-first");
    assert_eq!(devices[1].id, "bt-second");
    assert!(devices[0].capabilities.is_empty());
    assert_eq!(
        devices[1].capabilities,
        vec![Capability::EarbudBattery, Capability::CaseBattery, Capability::ChargingState]
    );
    assert_eq!(devices[1].last_updated_at, None);
}
