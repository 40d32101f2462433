//! Raw backend observations and normalized provider reports.

use vstd::prelude::*;

use crate::battery::{BatteryComponent, DataSource};
use crate::device::ConnectionState;
use crate::timestamp::Timestamp;

verus! {

/// Documented vendor transport attached to a raw packet.
#[derive(Debug, Clone, Copy, PartialEq, Eq, Structural)]
pub enum VendorProtocol {
    /// `Apple Accessory Communication Protocol` over classic Bluetooth L2CAP.
    AppleAccessory,
}

/// Raw information produced by a platform Bluetooth backend.
#[derive(Debug, Clone, PartialEq, Eq)]
pub enum RawObservation {
    /// Manufacturer-specific advertisement payload.
    ManufacturerData {
        /// Backend device identifier.
        device_id: String,
        /// Bluetooth SIG company identifier.
        company_id: u16,
        /// Bytes after the company identifier.
        payload: Vec<u8>,
        /// Observation timestamp.
        observed_at: Timestamp,
    },
    /// Packet received from a documented active vendor transport.
    VendorPacket {
        /// Backend device identifier.
        device_id: String,
        /// Vendor protocol used by the transport.
        protocol: VendorProtocol,
        /// Complete vendor packet bytes.
        payload: Vec<u8>,
        /// Observation timestamp.
        observed_at: Timestamp,
    },
    /// Service-specific advertising payload.
    ServiceData {
        /// Backend device identifier.
        device_id: String,
        /// Canonical service UUID.
        service_uuid: String,
        /// Raw advertised bytes.
        payload: Vec<u8>,
        /// Observation timestamp.
        observed_at: Timestamp,
    },
    /// Aggregate battery supplied by a platform API.
    PlatformBattery {
        /// Backend device identifier.
        device_id: String,
        /// Raw percentage from the platform.
        percentage: u8,
        /// Exact platform source.
        source: DataSource,
        /// Observation timestamp.
        observed_at: Timestamp,
    },
    /// Standard Battery Service value.
    StandardBattery {
        /// Backend device identifier.
        device_id: String,
        /// Raw percentage from characteristic 0x2A19.
        percentage: u8,
        /// Observation timestamp.
        observed_at: Timestamp,
    },
    /// Connection state update.
    Connection {
        /// Backend device identifier.
        device_id: String,
        /// New connection state.
        state: ConnectionState,
        /// Observation timestamp.
        observed_at: Timestamp,
    },
}

/// A raw observation with its texts and bytes taken as sequences.
pub enum ObservationView {
    /// Manufacturer-specific advertisement payload.
    ManufacturerData {
        device_id: Seq<char>,
        company_id: u16,
        payload: Seq<u8>,
        observed_at: Timestamp,
    },
    /// Packet received from an active vendor transport.
    VendorPacket {
        device_id: Seq<char>,
        protocol: VendorProtocol,
        payload: Seq<u8>,
        observed_at: Timestamp,
    },
    /// Service-specific advertising payload.
    ServiceData {
        device_id: Seq<char>,
        service_uuid: Seq<char>,
        payload: Seq<u8>,
        observed_at: Timestamp,
    },
    /// Aggregate battery supplied by a platform API.
    PlatformBattery {
        device_id: Seq<char>,
        percentage: u8,
        source: DataSource,
        observed_at: Timestamp,
    },
    /// Standard Battery Service value.
    StandardBattery { device_id: Seq<char>, percentage: u8, observed_at: Timestamp },
    /// Connection state update.
    Connection { device_id: Seq<char>, state: ConnectionState, observed_at: Timestamp },
}

/// The view of a raw observation.
pub open spec fn observation_view(o: RawObservation) -> ObservationView {
    match o {
        RawObservation::ManufacturerData { device_id, company_id, payload, observed_at } => ObservationView::ManufacturerData {
            device_id: device_id@,
            company_id,
            payload: payload@,
            observed_at,
        },
        RawObservation::VendorPacket { device_id, protocol, payload, observed_at } => ObservationView::VendorPacket {
            device_id: device_id@,
            protocol,
            payload: payload@,
            observed_at,
        },
        RawObservation::ServiceData { device_id, service_uuid, payload, observed_at } => ObservationView::ServiceData {
            device_id: device_id@,
            service_uuid: service_uuid@,
            payload: payload@,
            observed_at,
        },
        RawObservation::PlatformBattery { device_id, percentage, source, observed_at } => ObservationView::PlatformBattery {
            device_id: device_id@,
            percentage,
            source,
            observed_at,
        },
        RawObservation::StandardBattery { device_id, percentage, observed_at } => ObservationView::StandardBattery {
            device_id: device_id@,
            percentage,
            observed_at,
        },
        RawObservation::Connection { device_id, state, observed_at } => ObservationView::Connection {
            device_id: device_id@,
            state,
            observed_at,
        },
    }
}

impl RawObservation {
    /// The backend device the observation is about.
    pub open spec fn spec_device_id(&self) -> Seq<char> {
        match self {
            RawObservation::ManufacturerData { device_id, .. } => device_id@,
            RawObservation::VendorPacket { device_id, .. } => device_id@,
            RawObservation::ServiceData { device_id, .. } => device_id@,
            RawObservation::PlatformBattery { device_id, .. } => device_id@,
            RawObservation::StandardBattery { device_id, .. } => device_id@,
            RawObservation::Connection { device_id, .. } => device_id@,
        }
    }

    /// The time of the observation.
    pub open spec fn spec_observed_at(&self) -> Timestamp {
        match self {
            RawObservation::ManufacturerData { observed_at, .. } => *observed_at,
            RawObservation::VendorPacket { observed_at, .. } => *observed_at,
            RawObservation::ServiceData { observed_at, .. } => *observed_at,
            RawObservation::PlatformBattery { observed_at, .. } => *observed_at,
            RawObservation::StandardBattery { observed_at, .. } => *observed_at,
            RawObservation::Connection { observed_at, .. } => *observed_at,
        }
    }

    /// The backend device identifier and time of the observation.
    pub fn identity(&self) -> (r: (&String, Timestamp))
        ensures
            r.0@ == self.spec_device_id(),
            r.1 == self.spec_observed_at(),
    {
        match self {
            RawObservation::ManufacturerData { device_id, observed_at, .. } => (device_id, *observed_at),
            RawObservation::VendorPacket { device_id, observed_at, .. } => (device_id, *observed_at),
            RawObservation::ServiceData { device_id, observed_at, .. } => (device_id, *observed_at),
            RawObservation::PlatformBattery { device_id, observed_at, .. } => (device_id, *observed_at),
            RawObservation::StandardBattery { device_id, observed_at, .. } => (device_id, *observed_at),
            RawObservation::Connection { device_id, observed_at, .. } => (device_id, *observed_at),
        }
    }
}

/// One provider's normalized component report.
#[derive(Debug, Clone, PartialEq, Eq)]
pub struct ProviderReport {
    /// Stable provider identifier used for deterministic tie-breaking.
    pub provider_id: String,
    /// Backend device identifier.
    pub device_id: String,
    /// Provider-specific priority.
    pub priority: u16,
    /// Report timestamp.
    pub observed_at: Timestamp,
    /// Normalized components.
    pub components: Vec<BatteryComponent>,
}

/// Plain view of a provider report.
pub struct ReportView {
    /// Provider identifier.
    pub provider_id: Seq<char>,
    /// Backend device identifier.
    pub device_id: Seq<char>,
    /// Provider-specific priority.
    pub priority: u16,
    /// Report timestamp.
    pub observed_at: Timestamp,
    /// Normalized components.
    pub components: Seq<BatteryComponent>,
}

impl View for ProviderReport {
    type V = ReportView;

    open spec fn view(&self) -> ReportView {
        ReportView {
            provider_id: self.provider_id@,
            device_id: self.device_id@,
            priority: self.priority,
            observed_at: self.observed_at,
            components: self.components@,
        }
    }
}

impl ProviderReport {
    /// Creates a provider report.
    pub fn new(
        provider_id: &str,
        device_id: &str,
        priority: u16,
        observed_at: Timestamp,
        components: Vec<BatteryComponent>,
    ) -> (r: ProviderReport)
        ensures
            r@.provider_id == provider_id@,
            r@.device_id == device_id@,
            r.priority == priority,
            r.observed_at == observed_at,
            r@.components == components@,
    {
        ProviderReport {
            provider_id: provider_id.to_owned(),
            device_id: device_id.to_owned(),
            priority,
            observed_at,
            components,
        }
    }
}

/// Error returned by a device provider.
#[derive(Debug, Clone, PartialEq, Eq)]
pub enum ProviderError {
    /// Observation is malformed for this provider.
    InvalidObservation(String),
    /// Provider cannot process the observation.
    Unsupported,
}

} // verus!
