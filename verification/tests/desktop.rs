//! Desktop status-surface, refresh schedule, tray icon and tray summary tests.

use airbattery::battery::{
    BatteryComponent, BatteryPercentage, ChargingState, ComponentType, DataConfidence, DataSource,
};
use airbattery::desktop::{
    command_message, desktop_environment_from_values, discovery_window_seconds,
    linux_status_detail, platform_name, scheduled_refresh_mode, settings_effects, should_scan,
    should_show_native_tray, BackendStatus, CommandError, DesktopEnvironment, PlatformKind,
    RefreshMode,
};
use airbattery::device::{
    BluetoothAudioDevice, ConnectionState, DeviceFamily, DeviceVisual, Transport, VisualConfidence,
};
use airbattery::settings::AppSettings;
use airbattery::tray::{tray_snapshot, tray_tooltip, TraySnapshot};
use airbattery::tray_icon::{
    render_disconnected_icon, render_percentage_icon, render_unavailable_icon, SIZE,
};
use airbattery::Timestamp;

const CONNECTED: [u8; 4] = [52, 199, 89, 255];
const LOW: [u8; 4] = [255, 159, 10, 255];
const CRITICAL: [u8; 4] = [255, 69, 58, 255];
const UNAVAILABLE: [u8; 4] = [142, 142, 147, 255];
const DISCONNECTED: [u8; 4] = [99, 99, 102, 176];

fn pixel(buffer: &[u8], x: i32, y: i32) -> [u8; 4] {
    let index = ((y * SIZE + x) * 4) as usize;
    buffer[index..index + 4]
        .try_into()
        .unwrap_or_else(|_| panic!("pixel must contain four channels"))
}

#[test]
fn ubuntu_and_gnome_session_names_are_detected_without_case_sensitivity() {
    assert_eq!(
        desktop_environment_from_values(Some("ubuntu:GNOME"), None),
        DesktopEnvironment::Gnome
    );
    assert_eq!(
        desktop_environment_from_values(None, Some("Gnome-Wayland")),
        DesktopEnvironment::Gnome
    );
    assert_eq!(
        desktop_environment_from_values(Some("KDE"), Some("plasma")),
        DesktopEnvironment::Other
    );
}

#[test]
fn desktop_names_are_trimmed_and_split_on_both_separators() {
    assert_eq!(
        desktop_environment_from_values(Some("X-Cinnamon; Ubuntu "), None),
        DesktopEnvironment::Gnome
    );
    assert_eq!(desktop_environment_from_values(None, None), DesktopEnvironment::Other);
    assert_eq!(desktop_environment_from_values(Some(""), Some(":;")), DesktopEnvironment::Other);
}

#[test]
fn gnome_extension_replaces_the_linux_tray_but_not_the_windows_tray() {
    let settings = AppSettings::default();

    assert!(!should_show_native_tray(
        PlatformKind::Linux,
        DesktopEnvironment::Gnome,
        &settings
    ));
    assert!(should_show_native_tray(
        PlatformKind::Linux,
        DesktopEnvironment::Other,
        &settings
    ));
    assert!(should_show_native_tray(
        PlatformKind::Windows,
        DesktopEnvironment::Gnome,
        &settings
    ));
}

#[test]
fn disabling_gnome_integration_restores_the_linux_fallback_tray() {
    let settings = AppSettings {
        enable_gnome_integration: false,
        ..AppSettings::default()
    };

    assert!(should_show_native_tray(
        PlatformKind::Linux,
        DesktopEnvironment::Gnome,
        &settings
    ));
}

#[test]
fn hidden_tray_setting_hides_every_native_tray() {
    let settings = AppSettings {
        show_tray_icon: false,
        ..AppSettings::default()
    };
    assert!(!should_show_native_tray(PlatformKind::Windows, DesktopEnvironment::Other, &settings));
    assert!(!should_show_native_tray(PlatformKind::Linux, DesktopEnvironment::Other, &settings));
}

#[test]
fn refresh_schedule_scans_for_short_lived_advertisements_every_tick() {
    assert_eq!(scheduled_refresh_mode(1), RefreshMode::BoundedDiscovery);
    assert_eq!(scheduled_refresh_mode(3), RefreshMode::BoundedDiscovery);
    assert_eq!(scheduled_refresh_mode(4), RefreshMode::BoundedDiscovery);
    assert_eq!(scheduled_refresh_mode(8), RefreshMode::BoundedDiscovery);
}

#[test]
fn discovery_windows_and_scan_decisions_follow_the_refresh_mode() {
    assert_eq!(discovery_window_seconds(RefreshMode::KnownOnly), None);
    assert_eq!(discovery_window_seconds(RefreshMode::BoundedDiscovery), Some(2));
    assert_eq!(discovery_window_seconds(RefreshMode::DiagnosticDiscovery), Some(30));
    assert!(should_scan(RefreshMode::BoundedDiscovery, true, false));
    assert!(!should_scan(RefreshMode::BoundedDiscovery, false, false));
    assert!(!should_scan(RefreshMode::BoundedDiscovery, true, true));
    assert!(!should_scan(RefreshMode::KnownOnly, true, false));
    assert_eq!(
        linux_status_detail(false, false, RefreshMode::BoundedDiscovery),
        "Bluetooth is available but powered off."
    );
    assert_eq!(
        linux_status_detail(true, false, RefreshMode::DiagnosticDiscovery),
        "BlueZ is available; a thirty-second diagnostic advertisement scan completed."
    );
}

#[test]
fn platform_names_and_command_errors_are_stable() {
    assert_eq!(platform_name(PlatformKind::Linux), "linux");
    assert_eq!(platform_name(PlatformKind::Windows), "windows");
    assert_eq!(platform_name(PlatformKind::Unsupported), "unsupported");
    let status = BackendStatus::unavailable(PlatformKind::Linux, "no adapter".to_owned());
    assert!(!status.available);
    assert_eq!(status.detail, "no adapter");
    let error = CommandError::storage("disk full".to_owned());
    assert_eq!(error.code, "storage_failed");
    assert_eq!(command_message(error), "disk full");
    assert_eq!(CommandError::backend("down".to_owned()).code, "backend_failed");
}

#[test]
fn all_tray_variants_have_the_expected_rgba_size() {
    assert_eq!(render_percentage_icon(79).len(), 32 * 32 * 4);
    assert_eq!(render_unavailable_icon().len(), 32 * 32 * 4);
    assert_eq!(render_disconnected_icon().len(), 32 * 32 * 4);
}

#[test]
fn percentage_renderer_clamps_values_above_one_hundred() {
    assert_eq!(render_percentage_icon(255), render_percentage_icon(100));
}

#[test]
fn the_approved_logo_itself_uses_the_live_status_color() {
    assert_eq!(pixel(&render_percentage_icon(80), 14, 5), CONNECTED);
    assert_eq!(pixel(&render_percentage_icon(15), 14, 5), LOW);
    assert_eq!(pixel(&render_percentage_icon(5), 14, 5), CRITICAL);
    assert_eq!(pixel(&render_unavailable_icon(), 16, 16), UNAVAILABLE);
    assert_eq!(pixel(&render_disconnected_icon(), 16, 16), DISCONNECTED);
}

#[test]
fn tray_icon_has_no_separate_status_ring_or_dot() {
    assert_eq!(pixel(&render_percentage_icon(80), 16, 1), [0, 0, 0, 0]);
    assert_eq!(pixel(&render_unavailable_icon(), 2, 16), [0, 0, 0, 0]);
}

#[test]
fn status_color_thresholds_sit_at_twenty_and_ten() {
    assert_eq!(pixel(&render_percentage_icon(21), 14, 5), CONNECTED);
    assert_eq!(pixel(&render_percentage_icon(20), 14, 5), LOW);
    assert_eq!(pixel(&render_percentage_icon(11), 14, 5), LOW);
    assert_eq!(pixel(&render_percentage_icon(10), 14, 5), CRITICAL);
    assert_eq!(pixel(&render_percentage_icon(0), 0, 0), [0, 0, 0, 0]);
}

fn component(
    component_type: ComponentType,
    percentage: u8,
    updated_at: Timestamp,
    source: DataSource,
    confidence: DataConfidence,
    stale: bool,
) -> BatteryComponent {
    BatteryComponent {
        component_type,
        percentage: Some(
            BatteryPercentage::new(percentage)
                .unwrap_or_else(|error| panic!("fixture failed: {error:?}")),
        ),
        charging_state: ChargingState::Unknown,
        updated_at,
        source,
        confidence,
        stale,
    }
}

fn airpods(id: &str, name: &str, updated_at: Option<Timestamp>, components: Vec<BatteryComponent>)
    -> BluetoothAudioDevice {
    BluetoothAudioDevice {
        id: id.to_owned(),
        display_name: name.to_owned(),
        system_name: Some(name.to_owned()),
        manufacturer: Some("Apple".to_owned()),
        model: Some("AirPods Pro (1st generation)".to_owned()),
        device_family: DeviceFamily::AirPods,
        visual: DeviceVisual {
            key: "airpods-pro-1".to_owned(),
            confidence: VisualConfidence::Exact,
        },
        transport: Transport::Dual,
        connection_state: ConnectionState::Connected,
        last_seen_at: updated_at,
        last_updated_at: updated_at,
        capabilities: Vec::new(),
        components,
    }
}

#[test]
fn tray_summary_prefers_split_earbuds_and_ignores_case_for_icon_percentage() {
    let epoch = Timestamp::unix_epoch();
    let value = |component_type, percentage| {
        component(
            component_type,
            percentage,
            epoch,
            DataSource::AirPodsAdvertisement,
            DataConfidence::High,
            false,
        )
    };
    let device = airpods(
        "airpods",
        "SHABIN",
        Some(epoch),
        vec![
            value(ComponentType::Left, 82),
            value(ComponentType::Right, 79),
            value(ComponentType::Case, 20),
        ],
    );

    let summary = tray_snapshot(&[device], None).unwrap_or_else(|| panic!("tray snapshot missing"));
    assert_eq!(summary.label, "L 82%  R 79%  C 20%");
    assert_eq!(summary.icon_percentage, Some(79));
}

#[test]
fn tray_summary_uses_one_real_aggregate_for_airpods_when_split_data_is_unavailable() {
    let epoch = Timestamp::unix_epoch();
    let device = airpods(
        "airpods",
        "SHABIN",
        Some(epoch),
        vec![component(
            ComponentType::Aggregate,
            88,
            epoch,
            DataSource::BluezBattery,
            DataConfidence::Medium,
            false,
        )],
    );

    let summary = tray_snapshot(&[device], None).unwrap_or_else(|| panic!("tray snapshot missing"));
    assert_eq!(summary.label, "88%");
    assert_eq!(summary.icon_percentage, Some(88));
}

#[test]
fn tray_prefers_the_freshest_connected_battery_sender_over_an_old_preference() {
    let make_device = |id: &str, updated_at: Timestamp, stale: bool| {
        let mut device = airpods(
            id,
            id,
            Some(updated_at),
            vec![component(
                ComponentType::Left,
                68,
                updated_at,
                DataSource::VendorProtocol,
                DataConfidence::Verified,
                stale,
            )],
        );
        device.model = Some("AirPods Pro".to_owned());
        device.components[0].charging_state = ChargingState::NotCharging;
        device
    };

    // 2026-08-01 17:00 UTC and 17:45 UTC.
    let old = make_device("old", Timestamp::from_unix_seconds(1_785_603_600), true);
    let current = make_device("current", Timestamp::from_unix_seconds(1_785_606_300), false);
    let snapshot = tray_snapshot(&[old, current], Some("old"))
        .unwrap_or_else(|| panic!("tray snapshot missing"));

    assert_eq!(snapshot.device_name, "current");
}

#[test]
fn tray_uses_fresh_exact_battery_evidence_when_bluez_connection_state_lags() {
    let old = BluetoothAudioDevice {
        id: "old".to_owned(),
        display_name: "ACEFAST N2".to_owned(),
        system_name: Some("ACEFAST N2".to_owned()),
        manufacturer: None,
        model: None,
        device_family: DeviceFamily::Headset,
        visual: DeviceVisual {
            key: "headset-generic".to_owned(),
            confidence: VisualConfidence::Category,
        },
        transport: Transport::Dual,
        connection_state: ConnectionState::Disconnected,
        last_seen_at: None,
        last_updated_at: None,
        capabilities: Vec::new(),
        components: Vec::new(),
    };
    // 2026-08-02 06:50 UTC.
    let updated_at = Timestamp::from_unix_seconds(1_785_653_400);
    let mut current = airpods(
        "current",
        "SHABIN",
        Some(updated_at),
        vec![component(
            ComponentType::Left,
            71,
            updated_at,
            DataSource::VendorProtocol,
            DataConfidence::Verified,
            false,
        )],
    );
    current.model = Some("AirPods Pro".to_owned());
    current.connection_state = ConnectionState::Disconnected;
    current.components[0].charging_state = ChargingState::NotCharging;

    let snapshot = tray_snapshot(&[old, current], Some("old"))
        .unwrap_or_else(|| panic!("tray snapshot missing"));
    assert_eq!(snapshot.device_name, "SHABIN");
    assert_eq!(snapshot.icon_percentage, Some(71));
}

#[test]
fn tray_falls_back_to_the_preferred_then_the_first_device() {
    let mut first = airpods("first", "First", None, Vec::new());
    first.connection_state = ConnectionState::Disconnected;
    let mut second = airpods("second", "Second", None, Vec::new());
    second.connection_state = ConnectionState::Disconnected;
    let devices = [first, second];
    let preferred = tray_snapshot(&devices, Some("second")).unwrap_or_else(|| panic!("missing"));
    assert_eq!(preferred.device_name, "Second");
    assert_eq!(preferred.label, "—");
    assert_eq!(preferred.icon_percentage, None);
    let fallback = tray_snapshot(&devices, Some("absent")).unwrap_or_else(|| panic!("missing"));
    assert_eq!(fallback.device_name, "First");
    assert!(tray_snapshot(&[], Some("anything")).is_none());
}

#[test]
fn tray_summary_shows_an_em_dash_for_unknown_split_values() {
    let epoch = Timestamp::unix_epoch();
    let device = airpods(
        "airpods",
        "Pods",
        Some(epoch),
        vec![component(
            ComponentType::Left,
            50,
            epoch,
            DataSource::AirPodsAdvertisement,
            DataConfidence::High,
            false,
        )],
    );
    let summary = tray_snapshot(&[device], None).unwrap_or_else(|| panic!("tray snapshot missing"));
    assert_eq!(summary.label, "L 50%  R —  C —");
    assert_eq!(summary.icon_percentage, Some(50));
}

#[test]
fn tray_tooltips_name_the_device_and_summary() {
    let summary = TraySnapshot {
        device_name: "SHABIN".to_owned(),
        label: "L 82%  R 79%  C 20%".to_owned(),
        icon_percentage: Some(79),
    };
    assert_eq!(tray_tooltip(&Some(summary)), "AirBattery · SHABIN · L 82%  R 79%  C 20%");
    assert_eq!(tray_tooltip(&None), "AirBattery · battery data unavailable");
}

#[test]
fn saving_settings_drives_autostart_tray_widget_and_gnome() {
    let mut settings = AppSettings::default();
    settings.start_with_system = true;
    let effects = settings_effects(&settings, PlatformKind::Linux, DesktopEnvironment::Gnome);
    assert!(effects.start_with_system);
    assert!(!effects.tray_visible);
    assert!(effects.hide_widget);
    assert!(effects.gnome_integration);
    settings.enable_desktop_widget = true;
    settings.enable_gnome_integration = false;
    let effects = settings_effects(&settings, PlatformKind::Linux, DesktopEnvironment::Gnome);
    assert!(effects.tray_visible);
    assert!(!effects.hide_widget);
    assert!(!effects.gnome_integration);
}

#[test]
fn percentage_icons_are_equal_exactly_within_a_color_band() {
    assert_eq!(render_percentage_icon(0), render_percentage_icon(10));
    assert_eq!(render_percentage_icon(11), render_percentage_icon(20));
    assert_eq!(render_percentage_icon(21), render_percentage_icon(255));
    assert_ne!(render_percentage_icon(10), render_percentage_icon(11));
    assert_ne!(render_percentage_icon(20), render_percentage_icon(21));
    let red = render_percentage_icon(5);
    let green = render_percentage_icon(90);
    for k in 0..1024 {
        let a = &red[4 * k..4 * k + 4];
        let b = &green[4 * k..4 * k + 4];
        assert!((a == CRITICAL && b == CONNECTED) || (a == [0, 0, 0, 0] && b == [0, 0, 0, 0]));
    }
}
