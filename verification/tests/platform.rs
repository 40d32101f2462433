//! Backend failures, platform collections and diagnostic export tests.

use airbattery::battery::{
    BatteryComponent, BatteryPercentage, ChargingState, ComponentType, DataConfidence, DataSource,
};
use airbattery::desktop::{PlatformKind, RefreshMode};
use airbattery::device::{
    BluetoothAudioDevice, ConnectionState, DeviceFamily, DeviceVisual, Transport, VisualConfidence,
};
use airbattery::export::{
    diagnostic_device, diagnostic_summary, diagnostics_file_name, DiagnosticBundle,
};
use airbattery::platform::{
    connection_from_status, format_guid, known_device_name, standard_battery_value,
    linux_collection, linux_devices_unreadable, linux_session_unavailable,
    linux_status_unreadable, native_error, scan_precondition, unavailable_collection,
    unsupported_collection, windows_collection, windows_detail, BluetoothLinuxError,
    LinuxBackendStatus, WindowsBluetoothError, WindowsCollection,
};
use airbattery::Timestamp;

#[test]
fn backend_failures_read_as_sentences() {
    assert_eq!(
        BluetoothLinuxError::BackendUnavailable("no bus".to_owned()).message(),
        "BlueZ backend unavailable: no bus"
    );
    assert_eq!(BluetoothLinuxError::AdapterPoweredOff.message(), "Bluetooth adapter is powered off");
    assert_eq!(
        native_error("access denied".to_owned()).message(),
        "Windows Bluetooth API failed: access denied"
    );
    assert_eq!(
        WindowsBluetoothError::UnsupportedTarget.message(),
        "Windows Bluetooth backend is unavailable on this operating system"
    );
}

#[test]
fn windows_detail_names_the_discovery_window() {
    assert_eq!(
        windows_detail(Some(2)),
        "Windows Bluetooth is available; paired GATT data and a 2-second BLE advertisement window were combined."
    );
    assert_eq!(
        windows_detail(Some(30)),
        "Windows Bluetooth is available; paired GATT data and a 30-second BLE advertisement window were combined."
    );
    assert_eq!(
        windows_detail(None),
        "Windows Bluetooth is available; paired GATT battery data was refreshed."
    );
}

#[test]
fn linux_collections_carry_the_adapter_state() {
    let native = LinuxBackendStatus {
        adapter_name: "hci0".to_owned(),
        powered: true,
        discovering: false,
    };
    let failed = linux_devices_unreadable(native.clone());
    assert!(!failed.status.available);
    assert_eq!(failed.status.adapter_name.as_deref(), Some("hci0"));
    assert_eq!(failed.status.detail, "Known Bluetooth devices could not be read.");
    let ready = linux_collection(native, true, RefreshMode::BoundedDiscovery, Vec::new(), Vec::new());
    assert!(ready.status.available);
    assert_eq!(ready.status.powered, Some(true));
    assert_eq!(
        ready.status.detail,
        "BlueZ is available, but the bounded advertisement refresh failed. Known-device data is retained."
    );
    let off = unavailable_collection(PlatformKind::Linux, "BlueZ is unavailable or no Bluetooth adapter was found.");
    assert_eq!(off.status.platform, PlatformKind::Linux);
    assert!(!off.status.available);
    let none = unsupported_collection();
    assert_eq!(none.status.platform, PlatformKind::Unsupported);
    assert_eq!(none.status.detail, "No Bluetooth backend is available for this operating system.");
}

#[test]
fn windows_collections_mark_discovery_by_mode() {
    let collected = WindowsCollection {
        available: true,
        adapter_name: Some("Radio".to_owned()),
        powered: Some(true),
        detail: windows_detail(Some(2)),
        descriptors: Vec::new(),
        observations: Vec::new(),
    };
    let ready = windows_collection(Ok(collected), RefreshMode::BoundedDiscovery);
    assert_eq!(ready.status.platform, PlatformKind::Windows);
    assert_eq!(ready.status.discovering, Some(true));
    assert_eq!(ready.status.adapter_name.as_deref(), Some("Radio"));
    let failed = windows_collection(Err(WindowsBluetoothError::UnsupportedTarget), RefreshMode::KnownOnly);
    assert!(!failed.status.available);
    assert_eq!(failed.status.detail, "Windows Bluetooth data could not be read.");
    let known = windows_collection(
        Ok(WindowsCollection {
            available: true,
            adapter_name: None,
            powered: None,
            detail: windows_detail(None),
            descriptors: Vec::new(),
            observations: Vec::new(),
        }),
        RefreshMode::KnownOnly,
    );
    assert_eq!(known.status.discovering, Some(false));
}

fn device(id: &str, state: ConnectionState, sources: &[DataSource]) -> BluetoothAudioDevice {
    BluetoothAudioDevice {
        id: id.to_owned(),
        display_name: id.to_owned(),
        system_name: None,
        manufacturer: None,
        model: None,
        device_family: DeviceFamily::Headset,
        visual: DeviceVisual {
            key: "headset-generic".to_owned(),
            confidence: VisualConfidence::Category,
        },
        transport: Transport::Dual,
        connection_state: state,
        last_seen_at: None,
        last_updated_at: None,
        capabilities: Vec::new(),
        components: sources
            .iter()
            .map(|source| BatteryComponent {
                component_type: ComponentType::Headset,
                percentage: BatteryPercentage::new(50).ok(),
                charging_state: ChargingState::Unknown,
                updated_at: Timestamp::unix_epoch(),
                source: *source,
                confidence: DataConfidence::Medium,
                stale: false,
            })
            .collect(),
    }
}

#[test]
fn diagnostic_summary_counts_devices_and_lists_sources_once_in_order() {
    let devices = vec![
        device("bt-a", ConnectionState::Connected, &[DataSource::VendorProtocol, DataSource::BluezBattery]),
        device("bt-b", ConnectionState::Disconnected, &[DataSource::BluezBattery]),
        device("bt-c", ConnectionState::Connected, &[DataSource::AirPodsAdvertisement]),
    ];
    let summary = diagnostic_summary(&devices);
    assert_eq!(summary.device_count, 3);
    assert_eq!(summary.connected_device_count, 2);
    assert_eq!(summary.sanitized_device_ids, vec!["bt-a", "bt-b", "bt-c"]);
    assert_eq!(
        summary.data_sources,
        vec![DataSource::AirPodsAdvertisement, DataSource::BluezBattery, DataSource::VendorProtocol]
    );
    let empty = diagnostic_summary(&[]);
    assert_eq!(empty.device_count, 0);
    assert!(empty.data_sources.is_empty());
}

#[test]
fn diagnostic_files_are_named_by_their_unix_time() {
    assert_eq!(diagnostics_file_name(1_785_326_400), "airbattery-diagnostics-1785326400.json");
    assert_eq!(diagnostics_file_name(0), "airbattery-diagnostics-0.json");
    assert_eq!(diagnostics_file_name(-5), "airbattery-diagnostics--5.json");
    assert_eq!(
        diagnostics_file_name(i64::MIN),
        "airbattery-diagnostics--9223372036854775808.json"
    );
    let bundle = DiagnosticBundle::new("/tmp/report.json".to_owned(), "2026-07-29T12:00:00Z".to_owned());
    assert_eq!(bundle.path(), "/tmp/report.json");
    assert_eq!(bundle.created_at(), "2026-07-29T12:00:00Z");
}

#[test]
fn guids_are_hyphenated_lower_case_hexadecimal() {
    assert_eq!(
        format_guid(0x0000_180f, 0x0000, 0x1000, [0x80, 0x00, 0x00, 0x80, 0x5f, 0x9b, 0x34, 0xfb]),
        "0000180f-0000-1000-8000-00805f9b34fb"
    );
    assert_eq!(
        format_guid(0xDEAD_BEEF, 0xABCD, 0x0001, [0xff, 0x01, 0, 0, 0, 0, 0, 0x0a]),
        "deadbeef-abcd-0001-ff01-00000000000a"
    );
}

#[test]
fn windows_device_names_fall_back_past_blank_values() {
    assert_eq!(known_device_name(Some(" Pods ".to_owned()), Some("Info".to_owned())), " Pods ");
    assert_eq!(known_device_name(Some("   ".to_owned()), Some("Info".to_owned())), "Info");
    assert_eq!(known_device_name(None, Some("\t".to_owned())), "Bluetooth LE device");
    assert_eq!(known_device_name(None, None), "Bluetooth LE device");
}

#[test]
fn windows_status_and_battery_values_are_mapped_conservatively() {
    assert_eq!(connection_from_status(Some(true)), ConnectionState::Connected);
    assert_eq!(connection_from_status(Some(false)), ConnectionState::Disconnected);
    assert_eq!(connection_from_status(None), ConnectionState::Unknown);
    assert_eq!(standard_battery_value(100), Some(100));
    assert_eq!(standard_battery_value(0), Some(0));
    assert_eq!(standard_battery_value(101), None);
}

#[test]
fn diagnostic_devices_list_components_without_raw_identifiers() {
    let source = device("bt-a", ConnectionState::Connected, &[DataSource::VendorProtocol]);
    let listed = diagnostic_device(&source);
    assert_eq!(listed.id, "bt-a");
    assert_eq!(listed.family, DeviceFamily::Headset);
    assert_eq!(listed.components.len(), 1);
    assert_eq!(listed.components[0].percentage, Some(50));
    assert_eq!(listed.components[0].source, DataSource::VendorProtocol);
    assert!(!listed.components[0].stale);
}

#[test]
fn blue_z_session_and_status_failures_leave_the_backend_unavailable() {
    let session = linux_session_unavailable();
    assert_eq!(session.status.platform, PlatformKind::Linux);
    assert!(!session.status.available);
    assert_eq!(session.status.adapter_name, None);
    assert_eq!(session.status.detail, "BlueZ is unavailable or no Bluetooth adapter was found.");
    assert!(session.descriptors.is_empty());
    assert!(session.observations.is_empty());

    let status = linux_status_unreadable();
    assert_eq!(status.status.platform, PlatformKind::Linux);
    assert!(!status.status.available);
    assert_eq!(status.status.powered, None);
    assert_eq!(status.status.detail, "The Bluetooth adapter status could not be read.");
    assert!(status.descriptors.is_empty());
    assert!(status.observations.is_empty());
}

#[test]
fn discovery_refuses_a_powered_off_adapter() {
    assert_eq!(scan_precondition(true), Ok(()));
    assert_eq!(scan_precondition(false), Err(BluetoothLinuxError::AdapterPoweredOff));
}

#[test]
fn diagnostic_reports_carry_sanitized_identifiers() {
    let identifier = airbattery::diagnostics::sanitize_identifier("AA:BB:CC:DD:EE:FF");
    let report = airbattery::diagnostics::DiagnosticReport {
        version: "0.1.0".to_owned(),
        operating_system: "linux".to_owned(),
        backend_state: "available".to_owned(),
        devices: vec![identifier.clone()],
        generated_at: Timestamp::unix_epoch(),
    };
    let copy = report.clone();
    assert_eq!(copy, report);
    assert_eq!(copy.devices, vec![identifier]);
    assert!(copy.devices[0].starts_with("bt-"));
    assert_eq!(copy.devices[0].len(), 19);
}
