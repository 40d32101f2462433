//! Runtime state refresh-transaction tests.

use airbattery::desktop::{BackendStatus, PlatformCollection, PlatformKind};
use airbattery::device::{ConnectionState, DeviceFamily, Transport};
use airbattery::engine::DeviceDescriptor;
use airbattery::processor::ProcessingError;
use airbattery::provider::{ProviderError, RawObservation};
use airbattery::dbus::IPC_SCHEMA_VERSION;
use airbattery::settings::{AppSettings, SettingsRepository};
use airbattery::state::{devices_match, status_matches, RuntimeState};
use airbattery::Timestamp;

fn state() -> RuntimeState {
    RuntimeState::new(
        SettingsRepository::new(std::path::PathBuf::from("settings.json")),
        PlatformKind::Linux,
    )
}

fn connected_collection(observed_at: Timestamp) -> PlatformCollection {
    PlatformCollection {
        status: BackendStatus {
            platform: PlatformKind::Linux,
            available: true,
            adapter_name: Some("hci-test".to_owned()),
            powered: Some(true),
            discovering: Some(false),
            detail: "test backend".to_owned(),
        },
        descriptors: vec![DeviceDescriptor {
            backend_id: "backend-device".to_owned(),
            privacy_id: "bt-safe".to_owned(),
            display_name: "Headphones".to_owned(),
            system_name: None,
            manufacturer: None,
            model: None,
            icon: None,
            class: None,
            appearance: None,
            service_uuids: Vec::new(),
            device_family: DeviceFamily::Headset,
            transport: Transport::Dual,
            last_seen_at: Some(observed_at),
        }],
        observations: vec![RawObservation::Connection {
            device_id: "backend-device".to_owned(),
            state: ConnectionState::Connected,
            observed_at,
        }],
    }
}

#[test]
fn duplicate_collection_does_not_emit_a_changed_snapshot() {
    let mut state = state();
    let collection = connected_collection(Timestamp::unix_epoch());

    let first = state.apply_collection(collection.clone(), Timestamp::unix_epoch());
    let second = state.apply_collection(collection, Timestamp::unix_epoch());

    assert!(first.devices_changed);
    assert!(!second.devices_changed);
    assert_eq!(second.devices.len(), 1);
}

#[test]
fn returned_device_snapshots_are_isolated_clones() {
    let mut state = state();
    state.apply_collection(connected_collection(Timestamp::unix_epoch()), Timestamp::unix_epoch());

    let mut first = state.devices();
    first.clear();

    assert_eq!(state.devices().len(), 1);
}

#[test]
fn backend_status_changes_are_deduplicated_independently() {
    let mut state = state();
    let collection = connected_collection(Timestamp::unix_epoch());

    let first = state.apply_collection(collection.clone(), Timestamp::unix_epoch());
    let second = state.apply_collection(collection.clone(), Timestamp::unix_epoch());
    let mut changed_status = collection;
    changed_status.status.detail = "adapter resumed".to_owned();
    let third = state.apply_collection(changed_status, Timestamp::unix_epoch());

    assert!(first.status_changed);
    assert!(!second.status_changed);
    assert!(!third.devices_changed);
    assert!(third.status_changed);
}

#[test]
fn new_state_waits_for_the_backend() {
    let state = state();
    assert!(state.devices().is_empty());
    let status = state.backend_status();
    assert_eq!(status.platform, PlatformKind::Linux);
    assert!(!status.available);
    assert_eq!(status.detail, "Bluetooth backend has not started yet.");
    assert_eq!(state.settings().path(), std::path::Path::new("settings.json"));
}

#[test]
fn an_available_backend_drops_devices_missing_from_its_catalog() {
    let mut state = state();
    state.apply_collection(connected_collection(Timestamp::unix_epoch()), Timestamp::unix_epoch());
    let mut empty = connected_collection(Timestamp::unix_epoch());
    empty.descriptors.clear();
    empty.observations.clear();
    let pruned = state.apply_collection(empty, Timestamp::unix_epoch());
    assert!(pruned.devices_changed);
    assert!(pruned.devices.is_empty());
}

#[test]
fn an_unavailable_backend_keeps_known_devices() {
    let mut state = state();
    state.apply_collection(connected_collection(Timestamp::unix_epoch()), Timestamp::unix_epoch());
    let offline = PlatformCollection {
        status: BackendStatus::unavailable(PlatformKind::Linux, "down".to_owned()),
        descriptors: Vec::new(),
        observations: Vec::new(),
    };
    let kept = state.apply_collection(offline, Timestamp::unix_epoch());
    assert!(!kept.devices_changed);
    assert!(kept.status_changed);
    assert_eq!(kept.devices.len(), 1);
    state.set_backend_status(BackendStatus::unavailable(PlatformKind::Linux, "down".to_owned()));
    assert!(status_matches(
        &state.backend_status(),
        &BackendStatus::unavailable(PlatformKind::Linux, "down".to_owned())
    ));
    assert!(devices_match(&state.devices(), &kept.devices));
}

#[test]
fn shell_snapshots_carry_the_published_state_and_preference() {
    let mut state = state();
    state.apply_collection(connected_collection(Timestamp::unix_epoch()), Timestamp::unix_epoch());
    let mut settings = AppSettings::default();
    settings.preferred_device_id = Some("bt-safe".to_owned());
    let snapshot = state.shell_snapshot(&settings, Timestamp::from_unix_seconds(60));
    assert_eq!(snapshot.schema_version, IPC_SCHEMA_VERSION);
    assert_eq!(snapshot.generated_at, Some(Timestamp::from_unix_seconds(60)));
    let backend = snapshot.backend.unwrap_or_else(|| panic!("backend missing"));
    assert_eq!(backend.platform, "linux");
    assert_eq!(backend.detail, "test backend");
    assert_eq!(snapshot.devices.len(), 1);
    assert_eq!(snapshot.devices[0].id, "bt-safe");
    assert_eq!(snapshot.preferred_device_id.as_deref(), Some("bt-safe"));
}

#[test]
fn a_repeated_unavailable_collection_keeps_the_catalog_and_status() {
    let mut state = state();
    let mut offline = connected_collection(Timestamp::unix_epoch());
    offline.status.available = false;
    let first = state.apply_collection(offline.clone(), Timestamp::unix_epoch());
    let second = state.apply_collection(offline, Timestamp::unix_epoch());
    assert!(first.status_changed);
    assert!(!second.status_changed);
    assert!(!second.devices_changed);
    assert_eq!(second.devices.len(), 1);
}

#[test]
fn rejected_observations_are_handed_back_in_order() {
    let mut state = state();
    let mut collection = connected_collection(Timestamp::unix_epoch());
    collection.observations.push(RawObservation::StandardBattery {
        device_id: "backend-device".to_owned(),
        percentage: 101,
        observed_at: Timestamp::unix_epoch(),
    });
    collection.observations.push(RawObservation::StandardBattery {
        device_id: "backend-device".to_owned(),
        percentage: 80,
        observed_at: Timestamp::unix_epoch(),
    });

    let result = state.apply_collection(collection.clone(), Timestamp::unix_epoch());

    assert_eq!(result.errors.len(), 1);
    match &result.errors[0] {
        ProcessingError::Provider { provider_id, source } => {
            assert_eq!(*provider_id, "generic-battery");
            assert!(matches!(source, ProviderError::InvalidObservation(_)));
        }
        other => panic!("unexpected error: {other:?}"),
    }
    assert_eq!(result.devices.len(), 1);

    let clean = state.apply_collection(connected_collection(Timestamp::unix_epoch()), Timestamp::unix_epoch());
    assert!(clean.errors.is_empty());
}

#[test]
fn a_repeated_collection_with_competing_values_reports_no_change() {
    let mut state = state();
    let mut collection = connected_collection(Timestamp::unix_epoch());
    for percentage in [80u8, 60, 80, 70] {
        collection.observations.push(RawObservation::StandardBattery {
            device_id: "backend-device".to_owned(),
            percentage,
            observed_at: Timestamp::unix_epoch(),
        });
    }

    let first = state.apply_collection(collection.clone(), Timestamp::unix_epoch());
    let second = state.apply_collection(collection, Timestamp::unix_epoch());

    assert!(first.devices_changed);
    assert!(!second.devices_changed);
    assert!(!second.status_changed);
    assert!(devices_match(&first.devices, &second.devices));
    assert_eq!(second.devices.len(), 1);
    let percentage = second.devices[0].components[0].percentage.map(|p| p.get());
    assert_eq!(percentage, Some(70));
}
