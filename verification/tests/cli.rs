//! Diagnostic command-line reports and accessory session tests.

use airbattery::accessory_link::{
    handshake_packet, link_step, receive_buffer_len, request_notifications_packet, send_outcome,
    LinkAction, LinkEvent,
};
use airbattery::airpods::{AirPodsModel, APPLE_MANUFACTURER_ID};
use airbattery::battery::{BatteryPercentage, ChargingState};
use airbattery::bluez::{BluezDeviceSnapshot, BluezProperties};
use airbattery::cli::{empty_scan_message, parse_airpods_hex, sanitized_snapshot, scan_line};
use airbattery::diagnostics::sanitize_identifier;
use airbattery::Timestamp;

const AIRPODS_HEX: &str = "0700000e0020874500000000000000000000000000000000000000";

fn properties() -> BluezProperties {
    BluezProperties {
        address: "AA:BB:CC:DD:EE:FF".to_owned(),
        alias: Some("SHABIN".to_owned()),
        connected: true,
        paired: true,
        modalias: Some((0x004c, 0x200e)),
        battery_percentage: Some(70),
        icon: Some("audio-headset".to_owned()),
        class: Some(0x0024_0418),
        appearance: None,
        service_uuids: vec![
            "0000180F-0000-1000-8000-00805F9B34FB".to_owned(),
            "0000110b-0000-1000-8000-00805f9b34fb".to_owned(),
        ],
        rssi: Some(-40),
        manufacturer_data: vec![
            (1000, vec![1, 2, 3]),
            (APPLE_MANUFACTURER_ID, {
                let mut data = vec![0_u8; 27];
                data[0] = 0x07;
                data[3] = 0x0e;
                data[5] = 0x20;
                data[6] = 0x87;
                data[7] = 0x45;
                data
            }),
        ],
        service_data: vec![("0000180F-0000-1000-8000-00805F9B34FB".to_owned(), vec![70])],
        observed_at: Timestamp::from_unix_seconds(5),
    }
}

#[test]
fn airpods_payload_hex_parses_like_the_bytes() {
    assert_eq!(AIRPODS_HEX.len(), 54);
    let parsed = parse_airpods_hex(&format!("  {AIRPODS_HEX}\n"))
        .unwrap_or_else(|error| panic!("parse failed: {error}"))
        .unwrap_or_else(|| panic!("payload was not recognized"));
    assert_eq!(parsed.model, AirPodsModel::AirPodsPro);
    assert_eq!(parsed.left.percentage.map(BatteryPercentage::get), Some(70));
    assert_eq!(parsed.case.charging_state, ChargingState::Charging);
    let upper = parse_airpods_hex(&AIRPODS_HEX.to_uppercase())
        .unwrap_or_else(|error| panic!("parse failed: {error}"));
    assert_eq!(upper, Some(parsed));
}

#[test]
fn invalid_or_truncated_hex_is_refused_with_a_reason() {
    let odd = parse_airpods_hex("070").err().unwrap_or_else(|| panic!("odd input accepted"));
    assert!(odd.starts_with("invalid hex: "));
    let bad = parse_airpods_hex("07zz").err().unwrap_or_else(|| panic!("bad digit accepted"));
    assert!(bad.starts_with("invalid hex: "));
    assert_eq!(
        parse_airpods_hex("0701"),
        Err("AirPods proximity-pairing payload is truncated: expected at least 27 bytes, got 2".to_owned())
    );
    assert_eq!(parse_airpods_hex("1000"), Ok(None));
    assert_eq!(parse_airpods_hex(""), Ok(None));
}

#[test]
fn properties_are_keyed_with_lower_case_uuids() {
    let snapshot = BluezDeviceSnapshot::from_properties(properties());
    assert_eq!(snapshot.vendor_id, Some(0x004c));
    assert_eq!(snapshot.product_id, Some(0x200e));
    let uuids: Vec<&str> = snapshot.service_uuids.entries().iter().map(|e| e.0.as_str()).collect();
    assert_eq!(
        uuids,
        vec!["0000110b-0000-1000-8000-00805f9b34fb", "0000180f-0000-1000-8000-00805f9b34fb"]
    );
    assert_eq!(
        snapshot.service_data.get("0000180f-0000-1000-8000-00805f9b34fb").cloned(),
        Some(vec![70])
    );
    assert_eq!(snapshot.manufacturer_data.get(&1000).cloned(), Some(vec![1, 2, 3]));
    let mut without = properties();
    without.modalias = None;
    let bare = BluezDeviceSnapshot::from_properties(without);
    assert_eq!(bare.vendor_id, None);
    assert_eq!(bare.product_id, None);
}

#[test]
fn scan_lines_hide_the_address() {
    let snapshot = BluezDeviceSnapshot::from_properties(properties());
    let id = sanitize_identifier("AA:BB:CC:DD:EE:FF");
    assert_eq!(scan_line(&snapshot), format!("{id}  connected=true battery=70%"));
    let mut quiet = properties();
    quiet.connected = false;
    quiet.battery_percentage = None;
    let quiet = BluezDeviceSnapshot::from_properties(quiet);
    assert_eq!(scan_line(&quiet), format!("{id}  connected=false battery=unavailable"));
    assert_eq!(empty_scan_message(), "No Bluetooth advertisements observed in the scan window.");
}

#[test]
fn sanitized_snapshots_keep_only_safe_fields() {
    let snapshot = BluezDeviceSnapshot::from_properties(properties());
    let summary = sanitized_snapshot(&snapshot);
    assert_eq!(summary.id, sanitize_identifier("AA:BB:CC:DD:EE:FF"));
    assert_eq!(summary.name.as_deref(), Some("SHABIN"));
    assert_eq!(summary.manufacturer_company_ids, vec![76, 1000]);
    // Decimal names order as text: "1000" before "76".
    assert_eq!(
        summary.manufacturer_payload_lengths,
        vec![("1000".to_owned(), 3), ("76".to_owned(), 27)]
    );
    assert_eq!(summary.service_uuids.len(), 2);
    let air_pods = summary.air_pods.unwrap_or_else(|| panic!("AirPods payload missing"));
    assert_eq!(air_pods.model, AirPodsModel::AirPodsPro);
    assert_eq!(summary.observed_at, Timestamp::from_unix_seconds(5));
}

#[test]
fn accessory_session_packets_are_fixed() {
    assert_eq!(
        handshake_packet(),
        vec![0x00, 0x00, 0x04, 0x00, 0x01, 0x00, 0x02, 0x00, 0x00, 0x00, 0x00, 0x00, 0x00, 0x00, 0x00, 0x00]
    );
    assert_eq!(
        request_notifications_packet(),
        vec![0x04, 0x00, 0x04, 0x00, 0x0f, 0x00, 0xff, 0xff, 0xff, 0xff]
    );
    assert_eq!(send_outcome(10, 10), Ok(()));
    assert_eq!(
        send_outcome(16, 4),
        Err("L2CAP packet was only partially sent: expected 16 bytes, sent 4".to_owned())
    );
    assert_eq!(receive_buffer_len(23), 64);
    assert_eq!(receive_buffer_len(672), 672);
}

#[test]
fn accessory_session_stores_only_complete_notifications() {
    let at = Timestamp::from_unix_seconds(9);
    let complete = vec![0x04, 0x00, 0x04, 0x00, 0x04, 0x00, 0x01, 0x02, 0x01, 0x44, 0x02, 0x01];
    match link_step(LinkEvent::Received { packet: complete.clone(), at }) {
        LinkAction::Store(packet) => {
            assert_eq!(packet.payload, complete);
            assert_eq!(packet.observed_at, at);
        },
        other => panic!("unexpected action: {other:?}"),
    }
    assert_eq!(
        link_step(LinkEvent::Received { packet: vec![0x04, 0x00, 0x04, 0x00, 0x09, 0x00, 0x00], at }),
        LinkAction::Ignore
    );
    assert_eq!(link_step(LinkEvent::TimedOut), LinkAction::RequestNotifications);
    assert_eq!(
        link_step(LinkEvent::ReceiveFailed("reset".to_owned())),
        LinkAction::Close("L2CAP receive failed: reset".to_owned())
    );
}

#[test]
fn invalid_hex_reports_the_decoders_reason() {
    assert_eq!(parse_airpods_hex("070"), Err("invalid hex: Odd number of digits".to_owned()));
    assert_eq!(
        parse_airpods_hex(" 07zz "),
        Err("invalid hex: Invalid character 'z' at position 2".to_owned())
    );
}
