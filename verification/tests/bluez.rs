//! `BlueZ` snapshot mapping, accessory packet and correlation tests.

use airbattery::airpods::APPLE_MANUFACTURER_ID;
use airbattery::bluez::{
    correlate_airpods_advertisements, descriptor, has_airpods_payload, index_snapshots,
    is_complete_battery_packet, map_bluez_snapshot, monitor_changes, normalized_address,
    unique_correlation_target, BluezDeviceSnapshot,
};
use airbattery::device::DeviceFamily;
use airbattery::provider::RawObservation;
use airbattery::store::KeyedStore;
use std::collections::BTreeMap;
use airbattery::Timestamp;

fn snapshot(address: &str, connected: bool, icon: Option<&str>) -> BluezDeviceSnapshot {
    BluezDeviceSnapshot {
        address: address.to_owned(),
        alias: Some(if connected { "My AirPods" } else { address }.to_owned()),
        connected,
        paired: connected,
        vendor_id: None,
        product_id: None,
        battery_percentage: if connected { Some(80) } else { None },
        icon: icon.map(ToOwned::to_owned),
        class: None,
        appearance: None,
        service_uuids: KeyedStore::new(),
        rssi: if connected { Some(-45) } else { None },
        manufacturer_data: BTreeMap::new(),
        service_data: KeyedStore::new(),
        observed_at: Timestamp::unix_epoch(),
    }
}

fn airpods_payload() -> Vec<u8> {
    let mut data = vec![0_u8; 27];
    data[0] = 0x07;
    data[3] = 0x0e;
    data[5] = 0x20;
    data[6] = 0x87;
    data[7] = 0x45;
    data
}

fn store(values: Vec<BluezDeviceSnapshot>) -> KeyedStore<BluezDeviceSnapshot> {
    index_snapshots(values)
}

fn count(store: &KeyedStore<BluezDeviceSnapshot>) -> usize {
    store.entries().len()
}

fn get<'a>(store: &'a KeyedStore<BluezDeviceSnapshot>, key: &str) -> &'a BluezDeviceSnapshot {
    store.get(key).unwrap_or_else(|| panic!("snapshot {key} missing"))
}

#[test]
fn normalizes_monitor_keys_across_platform_address_casing() {
    assert_eq!(normalized_address("  aa:bb:cc:dd:ee:ff "), "AA:BB:CC:DD:EE:FF");
}

#[test]
fn recognizes_complete_exact_battery_notifications_only() {
    assert!(is_complete_battery_packet(&[
        0x04, 0x00, 0x04, 0x00, 0x04, 0x00, 0x01, 0x02, 0x01, 0x44, 0x02, 0x01,
    ]));
    assert!(!is_complete_battery_packet(&[0x04, 0x00, 0x04, 0x00, 0x04, 0x00, 0x01, 0x02,]));
    assert!(!is_complete_battery_packet(&[0x04, 0x00, 0x04, 0x00, 0x09, 0x00, 0x00,]));
}

#[test]
fn maps_advertisements_platform_battery_and_service_data_without_invention() {
    let mut manufacturer_data = BTreeMap::new();
    manufacturer_data.insert(76, vec![0x07; 27]);
    let mut service_data = KeyedStore::new();
    service_data.insert("0000180f-0000-1000-8000-00805f9b34fb".to_owned(), vec![70]);
    let mut service_uuids = KeyedStore::new();
    service_uuids.insert("0000180f-0000-1000-8000-00805f9b34fb".to_owned(), ());
    let snapshot = BluezDeviceSnapshot {
        address: "AA:BB:CC:DD:EE:FF".into(),
        alias: Some("AirPods".into()),
        connected: true,
        paired: true,
        vendor_id: Some(0x004c),
        product_id: Some(0x200e),
        battery_percentage: Some(70),
        icon: Some("audio-headset".to_owned()),
        class: Some(0x0024_0418),
        appearance: Some(0x0941),
        service_uuids,
        rssi: Some(-42),
        manufacturer_data,
        service_data,
        observed_at: Timestamp::unix_epoch(),
    };
    let observations = map_bluez_snapshot(&snapshot);
    assert!(observations.iter().any(|observation| matches!(
        observation,
        RawObservation::ManufacturerData { company_id: 76, .. }
    )));
    assert!(observations.iter().any(|observation| matches!(
        observation,
        RawObservation::PlatformBattery { percentage: 70, .. }
    )));
    assert!(observations.iter().any(|observation| matches!(
        observation,
        RawObservation::ServiceData { service_uuid, payload, .. }
            if service_uuid == "0000180f-0000-1000-8000-00805f9b34fb" && payload == &[70]
    )));
    assert_eq!(observations.len(), 4);
    assert!(matches!(observations[0], RawObservation::Connection { .. }));

    let descriptor = descriptor(&snapshot);
    assert_eq!(descriptor.display_name, "AirPods");
    assert_eq!(descriptor.manufacturer.as_deref(), Some("Apple"));
    // The payload parses with an unrecorded model nibble, which outranks the product id.
    assert_eq!(descriptor.model.as_deref(), Some("AirPods"));
    assert_eq!(descriptor.device_family, DeviceFamily::AirPods);

    let mut without_payload = snapshot;
    without_payload.manufacturer_data = BTreeMap::new();
    let descriptor = airbattery::bluez::descriptor(&without_payload);
    assert_eq!(descriptor.model.as_deref(), Some("AirPods Pro (1st generation)"));
}

#[test]
fn unique_connected_audio_device_receives_rotating_airpods_payload() {
    let mut connected = snapshot("known", true, Some("audio-headset"));
    connected.alias = Some("My AirPods".to_owned());
    let mut advertisement = snapshot("rotating", false, None);
    advertisement.alias = None;
    advertisement.rssi = Some(-38);
    advertisement.manufacturer_data.insert(APPLE_MANUFACTURER_ID, airpods_payload());
    let mut snapshots = store(vec![connected, advertisement]);

    correlate_airpods_advertisements(&mut snapshots);

    assert_eq!(count(&snapshots), 1);
    let merged = get(&snapshots, "known");
    assert!(has_airpods_payload(merged));
    assert_eq!(merged.alias.as_deref(), Some("My AirPods"));
}

#[test]
fn paired_apple_audio_identity_receives_payload_while_disconnected() {
    let mut known = snapshot("known", false, Some("audio-headphones"));
    known.alias = Some("My AirPods".to_owned());
    known.paired = true;
    known.vendor_id = Some(u32::from(APPLE_MANUFACTURER_ID));

    let mut advertisement = snapshot("rotating", false, None);
    advertisement.alias = None;
    advertisement.rssi = Some(-38);
    advertisement.manufacturer_data.insert(APPLE_MANUFACTURER_ID, airpods_payload());
    let mut snapshots = store(vec![known, advertisement]);

    correlate_airpods_advertisements(&mut snapshots);

    assert_eq!(count(&snapshots), 1);
    assert!(has_airpods_payload(get(&snapshots, "known")));
}

#[test]
fn paired_apple_identity_wins_when_multiple_audio_devices_are_connected() {
    let mut airpods = snapshot("airpods", true, Some("audio-headphones"));
    airpods.alias = Some("My AirPods".to_owned());
    airpods.vendor_id = Some(u32::from(APPLE_MANUFACTURER_ID));
    let mut speaker = snapshot("speaker", true, Some("audio-card"));
    speaker.alias = Some("Desk Speaker".to_owned());

    let mut advertisement = snapshot("rotating", false, None);
    advertisement.alias = None;
    advertisement.rssi = Some(-38);
    advertisement.manufacturer_data.insert(APPLE_MANUFACTURER_ID, airpods_payload());
    let mut snapshots = store(vec![airpods, speaker, advertisement]);

    correlate_airpods_advertisements(&mut snapshots);

    assert_eq!(count(&snapshots), 2);
    assert!(has_airpods_payload(get(&snapshots, "airpods")));
    assert!(!has_airpods_payload(get(&snapshots, "speaker")));
}

#[test]
fn multiple_paired_apple_devices_are_never_guessed() {
    let mut first = snapshot("first", false, Some("audio-headphones"));
    first.alias = Some("AirPods One".to_owned());
    first.paired = true;
    first.vendor_id = Some(u32::from(APPLE_MANUFACTURER_ID));

    let mut second = snapshot("second", false, Some("audio-headphones"));
    second.alias = Some("AirPods Two".to_owned());
    second.paired = true;
    second.vendor_id = Some(u32::from(APPLE_MANUFACTURER_ID));

    let mut advertisement = snapshot("rotating", false, None);
    advertisement.alias = None;
    advertisement.manufacturer_data.insert(APPLE_MANUFACTURER_ID, airpods_payload());
    let mut snapshots = store(vec![first, second, advertisement]);

    correlate_airpods_advertisements(&mut snapshots);

    assert_eq!(count(&snapshots), 3);
    assert!(!has_airpods_payload(get(&snapshots, "first")));
    assert!(!has_airpods_payload(get(&snapshots, "second")));
}

#[test]
fn ambiguous_connected_audio_devices_are_never_guessed() {
    let first = snapshot("one", true, Some("audio-headset"));
    let second = snapshot("two", true, Some("audio-headset"));
    let mut advertisement = snapshot("rotating", false, None);
    advertisement.manufacturer_data.insert(APPLE_MANUFACTURER_ID, airpods_payload());
    let mut snapshots = store(vec![first, second, advertisement]);

    correlate_airpods_advertisements(&mut snapshots);

    assert_eq!(count(&snapshots), 3);
    assert!(!has_airpods_payload(get(&snapshots, "one")));
    assert!(!has_airpods_payload(get(&snapshots, "two")));
}

#[test]
fn correlation_target_needs_exactly_one_candidate() {
    let mut only = snapshot("only", true, Some("audio-headset"));
    only.alias = Some("Headphones".to_owned());
    let snapshots = store(vec![only]);
    assert_eq!(unique_correlation_target(&snapshots).as_deref(), Some("only"));

    let none = store(vec![snapshot("idle", false, None)]);
    assert_eq!(unique_correlation_target(&none), None);
}

#[test]
fn monitors_follow_connected_candidates() {
    let running = vec!["AA:AA".to_owned(), "BB:BB".to_owned()];
    let connected = vec![" aa:aa ".to_owned(), "cc:cc".to_owned()];
    let candidates = vec!["cc:cc".to_owned(), "aa:aa".to_owned(), "dd:dd".to_owned()];
    let (stop, start) = monitor_changes(&running, &connected, &candidates);
    assert_eq!(stop, vec!["BB:BB".to_owned()]);
    assert_eq!(start, vec!["CC:CC".to_owned()]);
}
