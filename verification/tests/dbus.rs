//! Session-bus snapshot validation and identifier sanitization tests.

use airbattery::dbus::{
    request_queue_message, response_result, BackendSnapshot, ResponseOutcome, ServiceSnapshot,
    SnapshotError, BUS_NAME, INTERFACE_NAME, IPC_SCHEMA_VERSION, OBJECT_PATH,
};
use airbattery::desktop::{BackendStatus, PlatformKind};
use airbattery::diagnostics::{identifier_from_digest, sanitize_identifier};
use airbattery::Timestamp;

#[test]
fn rejects_unsupported_snapshot_schema() {
    let decoded = ServiceSnapshot {
        schema_version: 99,
        generated_at: None,
        backend: None,
        devices: Vec::new(),
        preferred_device_id: None,
    };
    let error = decoded
        .validated()
        .err()
        .unwrap_or_else(|| panic!("unsupported schema was accepted"));
    assert!(matches!(error, SnapshotError::UnsupportedSchema(99)));
}

#[test]
fn current_schema_snapshots_are_accepted_unchanged() {
    let backend = BackendSnapshot::from_status(&BackendStatus {
        platform: PlatformKind::Linux,
        available: true,
        adapter_name: Some("Primary Bluetooth adapter".to_owned()),
        powered: Some(true),
        discovering: Some(false),
        detail: "BlueZ backend ready".to_owned(),
    });
    assert_eq!(backend.platform, "linux");
    assert_eq!(backend.adapter_name.as_deref(), Some("Primary Bluetooth adapter"));
    let snapshot = ServiceSnapshot::new(
        Timestamp::from_unix_seconds(1_785_326_400),
        Some(backend),
        Vec::new(),
        Some("bt-safe-device".to_owned()),
    );
    assert_eq!(snapshot.schema_version, IPC_SCHEMA_VERSION);
    assert_eq!(snapshot.clone().validated(), Ok(snapshot));
    let idle = ServiceSnapshot::unavailable();
    assert_eq!(idle.generated_at, None);
    assert!(idle.devices.is_empty());
    assert_eq!(idle.clone().validated(), Ok(idle));
}

#[test]
fn bus_names_are_versioned_and_stable() {
    assert_eq!(BUS_NAME, "io.github.airbattery.Service");
    assert_eq!(OBJECT_PATH, "/io/github/airbattery/Service");
    assert_eq!(INTERFACE_NAME, "io.github.airbattery.Service1");
}

#[test]
fn sanitizer_is_stable_and_does_not_expose_input() {
    let first = sanitize_identifier("AA:BB:CC:DD:EE:FF");
    let second = sanitize_identifier("AA:BB:CC:DD:EE:FF");
    assert_eq!(first, second);
    assert!(!first.contains("AA:BB"));
}

#[test]
fn sanitizer_uses_the_first_eight_digest_bytes() {
    assert_eq!(sanitize_identifier("AA:BB:CC:DD:EE:FF"), "bt-261900fb1113aa4d");
    assert_eq!(sanitize_identifier(""), "bt-e3b0c44298fc1c14");
}

#[test]
fn digest_prefix_is_rendered_as_lower_case_hexadecimal() {
    let digest = [0x00, 0x01, 0xab, 0xcd, 0xef, 0x10, 0x9f, 0xff, 0x42, 0x42];
    assert_eq!(identifier_from_digest(&digest), "bt-0001abcdef109fff");
}

#[test]
fn request_response_times_out() {
    let result = response_result::<()>(ResponseOutcome::TimedOut);
    assert!(matches!(result, Err(message) if message.contains("timed out")));
}

#[test]
fn completed_response_is_forwarded() {
    let result = response_result(ResponseOutcome::Completed(Ok::<_, String>("snapshot".to_owned())));
    assert!(matches!(result, Ok(value) if value == "snapshot"));
}

#[test]
fn canceled_and_failed_responses_become_failures() {
    assert_eq!(
        response_result::<()>(ResponseOutcome::Canceled),
        Err("AirBattery request was canceled".to_owned())
    );
    assert_eq!(
        response_result::<()>(ResponseOutcome::Completed(Err("no window".to_owned()))),
        Err("no window".to_owned())
    );
    assert_eq!(
        request_queue_message("channel full"),
        "AirBattery desktop request queue is unavailable: channel full"
    );
}

#[test]
fn snapshot_errors_read_as_sentences() {
    assert_eq!(
        SnapshotError::UnsupportedSchema(99).message(),
        "snapshot schema version 99 is unsupported"
    );
    assert_eq!(
        SnapshotError::Json("expected value".to_owned()).message(),
        "snapshot JSON is invalid: expected value"
    );
}
