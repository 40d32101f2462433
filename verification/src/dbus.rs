//! Versioned session-bus snapshot contract for the GNOME Shell companion.

use vstd::prelude::*;

use crate::desktop::{platform_name, platform_text, BackendStatus};
use crate::device::BluetoothAudioDevice;
use crate::engine::opt_text;
use crate::text::{decimal, text_with_number};
use crate::timestamp::Timestamp;

verus! {

/// Well-known session-bus name owned by the desktop process.
pub const BUS_NAME: &'static str = "io.github.airbattery.Service";

/// Object path exported by the desktop process.
pub const OBJECT_PATH: &'static str = "/io/github/airbattery/Service";

/// Versioned bus interface consumed by the GNOME extension.
pub const INTERFACE_NAME: &'static str = "io.github.airbattery.Service1";

/// Current JSON envelope schema version.
pub const IPC_SCHEMA_VERSION: u16 = 1;

/// Bluetooth backend health included in shell snapshots.
#[derive(Debug, Clone, PartialEq, Eq)]
pub struct BackendSnapshot {
    /// Stable platform name such as `linux` or `windows`.
    pub platform: String,
    /// Whether the native Bluetooth backend is currently available.
    pub available: bool,
    /// User-safe adapter display name when available.
    pub adapter_name: Option<String>,
    /// Adapter power state when exposed by the platform.
    pub powered: Option<bool>,
    /// Whether bounded discovery is active.
    pub discovering: Option<bool>,
    /// Sanitized human-readable backend status.
    pub detail: String,
}

fn clone_opt(s: &Option<String>) -> (r: Option<String>)
    ensures
        opt_text(r) == opt_text(*s),
{
    match s {
        Some(x) => Some(x.clone()),
        None => None,
    }
}

impl BackendSnapshot {
    /// The shell view of a backend status, the platform given by its name.
    pub fn from_status(status: &BackendStatus) -> (r: BackendSnapshot)
        ensures
            r.platform@ == platform_text(status.platform),
            r.available == status.available,
            opt_text(r.adapter_name) == opt_text(status.adapter_name),
            r.powered == status.powered,
            r.discovering == status.discovering,
            r.detail@ == status.detail@,
    {
        BackendSnapshot {
            platform: platform_name(status.platform).to_owned(),
            available: status.available,
            adapter_name: clone_opt(&status.adapter_name),
            powered: status.powered,
            discovering: status.discovering,
            detail: status.detail.clone(),
        }
    }
}

/// Complete versioned snapshot transported over the session bus.
#[derive(Debug, Clone, PartialEq, Eq)]
pub struct ServiceSnapshot {
    /// JSON contract version.
    pub schema_version: u16,
    /// Generation time, or `None` before the first refresh.
    pub generated_at: Option<Timestamp>,
    /// Current native backend health.
    pub backend: Option<BackendSnapshot>,
    /// Privacy-safe normalized devices.
    pub devices: Vec<BluetoothAudioDevice>,
    /// Preferred privacy-safe device identifier from application settings.
    pub preferred_device_id: Option<String>,
}

/// Why a snapshot was refused.
#[derive(Debug, Clone, PartialEq, Eq)]
pub enum SnapshotError {
    /// The snapshot JSON could not be encoded or decoded; the message says why.
    Json(String),
    /// A peer supplied a newer or otherwise unsupported schema.
    UnsupportedSchema(u16),
}

impl ServiceSnapshot {
    /// Creates a snapshot using the current schema version.
    pub fn new(
        generated_at: Timestamp,
        backend: Option<BackendSnapshot>,
        devices: Vec<BluetoothAudioDevice>,
        preferred_device_id: Option<String>,
    ) -> (r: ServiceSnapshot)
        ensures
            r.schema_version == IPC_SCHEMA_VERSION,
            r.generated_at == Some(generated_at),
            r.backend == backend,
            r.devices == devices,
            r.preferred_device_id == preferred_device_id,
    {
        ServiceSnapshot {
            schema_version: IPC_SCHEMA_VERSION,
            generated_at: Some(generated_at),
            backend,
            devices,
            preferred_device_id,
        }
    }

    /// Creates an unavailable snapshot before the native backend starts.
    pub fn unavailable() -> (r: ServiceSnapshot)
        ensures
            r.schema_version == IPC_SCHEMA_VERSION,
            r.generated_at is None,
            r.backend is None,
            r.devices@.len() == 0,
            r.preferred_device_id is None,
    {
        ServiceSnapshot {
            schema_version: IPC_SCHEMA_VERSION,
            generated_at: None,
            backend: None,
            devices: Vec::new(),
            preferred_device_id: None,
        }
    }

    /// Accepts a decoded snapshot only with the current schema version.
    pub fn validated(self) -> (r: Result<ServiceSnapshot, SnapshotError>)
        ensures
            self.schema_version == IPC_SCHEMA_VERSION ==> r == Ok::<ServiceSnapshot, SnapshotError>(
                self,
            ),
            self.schema_version != IPC_SCHEMA_VERSION ==> r == Err::<ServiceSnapshot, SnapshotError>(
                SnapshotError::UnsupportedSchema(self.schema_version),
            ),
    {
        if self.schema_version != IPC_SCHEMA_VERSION {
            let v = self.schema_version;
            return Err(SnapshotError::UnsupportedSchema(v));
        }
        Ok(self)
    }
}

/// The text of a snapshot refusal.
pub open spec fn snapshot_error_text(error: SnapshotError) -> Seq<char> {
    match error {
        SnapshotError::Json(detail) => "snapshot JSON is invalid: "@ + detail@,
        SnapshotError::UnsupportedSchema(v) => "snapshot schema version "@ + decimal(v as nat)
            + " is unsupported"@,
    }
}

impl SnapshotError {
    /// The refusal as a sentence.
    pub fn message(&self) -> (r: String)
        ensures
            r@ == snapshot_error_text(*self),
    {
        match self {
            SnapshotError::Json(detail) => {
                let mut s = String::from_str("snapshot JSON is invalid: ");
                s.append(detail.as_str());
                s
            },
            SnapshotError::UnsupportedSchema(v) => text_with_number(
                "snapshot schema version ",
                *v as u64,
                " is unsupported",
            ),
        }
    }
}

/// How waiting for the desktop's answer to a bus request ended.
#[derive(Debug)]
pub enum ResponseOutcome<T> {
    /// The desktop answered with this result.
    Completed(Result<T, String>),
    /// The desktop dropped the request without answering.
    Canceled,
    /// No answer came within the request timeout.
    TimedOut,
}

/// The bus method's result for how a request ended: the desktop's own
/// answer when it gave one, else a failure saying what happened.
pub fn response_result<T>(outcome: ResponseOutcome<T>) -> (r: Result<T, String>)
    ensures
        match outcome {
            ResponseOutcome::Completed(answer) => r == answer,
            ResponseOutcome::Canceled => r matches Err(m) && m@
                == "AirBattery request was canceled"@,
            ResponseOutcome::TimedOut => r matches Err(m) && m@ == "AirBattery request timed out"@,
        },
{
    match outcome {
        ResponseOutcome::Completed(answer) => answer,
        ResponseOutcome::Canceled => Err(String::from_str("AirBattery request was canceled")),
        ResponseOutcome::TimedOut => Err(String::from_str("AirBattery request timed out")),
    }
}

/// The failure reported when a request cannot be queued for the desktop.
pub fn request_queue_message(detail: &str) -> (r: String)
    ensures
        r@ == "AirBattery desktop request queue is unavailable: "@ + detail@,
{
    let mut s = String::from_str("AirBattery desktop request queue is unavailable: ");
    s.append(detail);
    s
}

} // verus!
