//! Battery-related domain values.

use vstd::prelude::*;

use crate::text::{decimal, text_with_number};
use crate::timestamp::Timestamp;

verus! {

/// Error returned when a battery percentage is outside `0..=100`.
#[derive(Debug, Clone, Copy, PartialEq, Eq, Structural)]
pub struct InvalidBatteryPercentage {
    /// The rejected value.
    pub value: u8,
}

/// A validated battery percentage in the inclusive range `0..=100`.
#[derive(Debug, Clone, Copy, PartialEq, Eq, Structural)]
pub struct BatteryPercentage(u8);

impl BatteryPercentage {
    #[verifier::type_invariant]
    spec fn in_range(self) -> bool {
        self.0 <= 100
    }

    /// The integer value of this percentage.
    pub closed spec fn value(self) -> u8 {
        self.0
    }

    /// Two percentages with the same value are the same percentage.
    pub proof fn lemma_value_determines(self, other: BatteryPercentage)
        ensures
            self.value() == other.value() ==> self == other,
    {
    }

    /// Creates a validated percentage; values above 100 are rejected.
    pub fn new(value: u8) -> (r: Result<BatteryPercentage, InvalidBatteryPercentage>)
        ensures
            value <= 100 <==> r is Ok,
            r matches Ok(p) ==> p.value() == value,
            r matches Err(e) ==> e.value == value,
    {
        if value <= 100 {
            Ok(BatteryPercentage(value))
        } else {
            Err(InvalidBatteryPercentage { value })
        }
    }

    /// Returns the percentage as an integer.
    pub fn get(self) -> (r: u8)
        ensures
            r == self.value(),
            r <= 100,
    {
        proof {
            use_type_invariant(self);
        }
        self.0
    }
}

/// Logical battery component exposed by a device.
#[derive(Debug, Clone, Copy, PartialEq, Eq, Structural)]
pub enum ComponentType {
    /// Left earbud.
    Left,
    /// Right earbud.
    Right,
    /// Charging case.
    Case,
    /// Whole headset value from a standard Battery Service.
    Headset,
    /// Aggregate platform-provided value.
    Aggregate,
    /// A component the provider cannot classify further.
    Unknown,
}

impl ComponentType {
    /// Position of the component type in its declared order.
    pub open spec fn spec_rank(self) -> int {
        match self {
            ComponentType::Left => 0,
            ComponentType::Right => 1,
            ComponentType::Case => 2,
            ComponentType::Headset => 3,
            ComponentType::Aggregate => 4,
            ComponentType::Unknown => 5,
        }
    }

    /// Position of the component type in its declared order.
    pub fn rank(self) -> (r: u8)
        ensures
            r == self.spec_rank(),
    {
        match self {
            ComponentType::Left => 0,
            ComponentType::Right => 1,
            ComponentType::Case => 2,
            ComponentType::Headset => 3,
            ComponentType::Aggregate => 4,
            ComponentType::Unknown => 5,
        }
    }
}

/// Charging state supported by reliable source evidence.
#[derive(Debug, Clone, Copy, PartialEq, Eq, Structural)]
pub enum ChargingState {
    /// The component is charging.
    Charging,
    /// The component is known not to be charging.
    NotCharging,
    /// The source explicitly reports a full state.
    Full,
    /// The source does not reliably expose charging state.
    Unknown,
}

/// Normalized origin of battery information.
#[derive(Debug, Clone, Copy, PartialEq, Eq, Structural)]
pub enum DataSource {
    /// Apple Continuity proximity-pairing advertisement.
    AirPodsAdvertisement,
    /// `BlueZ` `org.bluez.Battery1` value.
    BluezBattery,
    /// Bluetooth SIG standard Battery Service.
    StandardBleBattery,
    /// Windows platform battery value.
    WindowsBattery,
    /// Battery value decoded from advertised service data.
    ServiceData,
    /// Battery value reported through a Human Interface Device channel.
    HidBattery,
    /// Battery value decoded from a documented vendor protocol.
    VendorProtocol,
    /// Generic aggregate value supplied by an operating system.
    AggregatePlatform,
}

impl DataSource {
    /// Resolver priority of the source.
    pub open spec fn spec_priority(self) -> u8 {
        match self {
            DataSource::VendorProtocol => 55,
            DataSource::AirPodsAdvertisement => 50,
            DataSource::StandardBleBattery | DataSource::HidBattery => 40,
            DataSource::BluezBattery | DataSource::WindowsBattery | DataSource::ServiceData => 30,
            DataSource::AggregatePlatform => 20,
        }
    }

    /// Stable resolver priority for equally fresh and confident values.
    pub fn priority(self) -> (r: u8)
        ensures
            r == self.spec_priority(),
    {
        match self {
            DataSource::VendorProtocol => 55,
            DataSource::AirPodsAdvertisement => 50,
            DataSource::StandardBleBattery | DataSource::HidBattery => 40,
            DataSource::BluezBattery | DataSource::WindowsBattery | DataSource::ServiceData => 30,
            DataSource::AggregatePlatform => 20,
        }
    }
}

/// Provider confidence in a normalized value.
#[derive(Debug, Clone, Copy, PartialEq, Eq, Structural)]
pub enum DataConfidence {
    /// No useful confidence signal.
    Unknown,
    /// Weak heuristic evidence.
    Low,
    /// Platform-reported or partially verified evidence.
    Medium,
    /// Protocol-specific validated evidence.
    High,
    /// Direct standard or platform evidence with verified semantics.
    Verified,
}

impl DataConfidence {
    /// Position of the confidence level, weakest first.
    pub open spec fn spec_rank(self) -> int {
        match self {
            DataConfidence::Unknown => 0,
            DataConfidence::Low => 1,
            DataConfidence::Medium => 2,
            DataConfidence::High => 3,
            DataConfidence::Verified => 4,
        }
    }

    /// Position of the confidence level, weakest first.
    pub fn rank(self) -> (r: u8)
        ensures
            r == self.spec_rank(),
    {
        match self {
            DataConfidence::Unknown => 0,
            DataConfidence::Low => 1,
            DataConfidence::Medium => 2,
            DataConfidence::High => 3,
            DataConfidence::Verified => 4,
        }
    }
}

/// One user-visible battery component.
#[derive(Debug, Clone, Copy, PartialEq, Eq, Structural)]
pub struct BatteryComponent {
    /// Component kind.
    pub component_type: ComponentType,
    /// Percentage when currently known. `None` is never equivalent to zero.
    pub percentage: Option<BatteryPercentage>,
    /// Charging state when reliably known.
    pub charging_state: ChargingState,
    /// Timestamp of the source observation.
    pub updated_at: Timestamp,
    /// Source selected for this component.
    pub source: DataSource,
    /// Confidence assigned by the provider.
    pub confidence: DataConfidence,
    /// Whether this value is older than the applicable freshness policy.
    pub stale: bool,
}

} // verus!

verus! {

/// The integer held by an optional percentage.
pub open spec fn percentage_view(p: Option<BatteryPercentage>) -> Option<u8> {
    match p {
        Some(x) => Some(x.value()),
        None => None,
    }
}

/// The message of a rejected percentage.
pub open spec fn invalid_percentage_text(e: InvalidBatteryPercentage) -> Seq<char> {
    "battery percentage "@ + decimal(e.value as nat) + " is outside the valid 0..=100 range"@
}

impl InvalidBatteryPercentage {
    /// Human-readable description of the error.
    pub fn message(&self) -> (r: String)
        ensures
            r@ == invalid_percentage_text(*self),
    {
        text_with_number(
            "battery percentage ",
            self.value as u64,
            " is outside the valid 0..=100 range",
        )
    }
}

} // verus!
