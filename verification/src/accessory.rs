//! Exact battery notifications of the Apple accessory protocol over classic
//! Bluetooth L2CAP.

use vstd::prelude::*;

use crate::airpods::AirPodsComponent;
use crate::battery::{BatteryPercentage, ChargingState};
use crate::text::{decimal, decimal_text, text_with_number};

verus! {

/// Length of one component record.
pub const RECORD_LENGTH: usize = 5;

/// Component marker of the right earbud.
pub const RIGHT_COMPONENT: u8 = 0x02;

/// Component marker of the left earbud.
pub const LEFT_COMPONENT: u8 = 0x04;

/// Component marker of the charging case.
pub const CASE_COMPONENT: u8 = 0x08;

/// Exact component values carried by an active `AirPods` accessory connection.
#[derive(Debug, Clone, Copy, PartialEq, Eq, Structural)]
pub struct AirPodsAccessoryBattery {
    /// Exact left earbud value when present in the packet.
    pub left: Option<AirPodsComponent>,
    /// Exact right earbud value when present in the packet.
    pub right: Option<AirPodsComponent>,
    /// Exact charging case value when present in the packet.
    pub case: Option<AirPodsComponent>,
}

/// Plain view of one optional component.
pub open spec fn slot_view(c: Option<AirPodsComponent>) -> Option<(Option<u8>, ChargingState)> {
    match c {
        Some(x) => Some(x@),
        None => None,
    }
}

/// Plain view of an accessory battery notification: left, right and case.
pub type AccessoryView = (
    Option<(Option<u8>, ChargingState)>,
    Option<(Option<u8>, ChargingState)>,
    Option<(Option<u8>, ChargingState)>,
);

impl View for AirPodsAccessoryBattery {
    type V = AccessoryView;

    open spec fn view(&self) -> AccessoryView {
        (slot_view(self.left), slot_view(self.right), slot_view(self.case))
    }
}

/// Strict active accessory packet error.
#[derive(Debug, Clone, Copy, PartialEq, Eq, Structural)]
pub enum AirPodsAccessoryParseError {
    /// The packet declares more component records than it contains.
    Truncated {
        /// Required packet length derived from the record count.
        expected: usize,
        /// Actual received packet length.
        actual: usize,
    },
    /// A component record does not contain the required marker bytes.
    InvalidRecord {
        /// Zero-based component record index.
        index: usize,
    },
    /// An exact battery percentage is outside the supported range.
    InvalidPercentage {
        /// Invalid packet value.
        percentage: u8,
    },
}

/// The charging state a record's status byte stands for.
pub open spec fn status_charging_state(status: u8) -> ChargingState {
    if status == 0x01 {
        ChargingState::Charging
    } else if status == 0x02 {
        ChargingState::NotCharging
    } else {
        ChargingState::Unknown
    }
}

fn charging_state(status: u8) -> (r: ChargingState)
    ensures
        r == status_charging_state(status),
{
    match status {
        0x01 => ChargingState::Charging,
        0x02 => ChargingState::NotCharging,
        _ => ChargingState::Unknown,
    }
}

/// Whether `data` is an accessory packet with the battery opcode.
pub open spec fn is_battery_packet(data: Seq<u8>) -> bool {
    &&& data.len() >= 6
    &&& data[0] == 0x04 && data[1] == 0x00 && data[2] == 0x04 && data[3] == 0x00
    &&& data[4] == 0x04 && data[5] == 0x00
}

/// Byte `k` of record `i`.
pub open spec fn record_byte(data: Seq<u8>, i: int, k: int) -> u8 {
    data[7 + i * 5 + k]
}

/// Whether record `i` says its percentage is temporarily unavailable: one of
/// the sentinels `0x7f` and `0xff`, or a zero case value without charging
/// status.
pub open spec fn record_unavailable(data: Seq<u8>, i: int) -> bool {
    record_byte(data, i, 2) == 0x7f || record_byte(data, i, 2) == 0xff || (record_byte(data, i, 0)
        == CASE_COMPONENT
        && record_byte(data, i, 2) == 0 && status_charging_state(record_byte(data, i, 3))
        == ChargingState::Unknown)
}

/// The error that record `i` raises, if any.
pub open spec fn record_error(data: Seq<u8>, i: int) -> Option<AirPodsAccessoryParseError> {
    if record_byte(data, i, 1) != 0x01 || record_byte(data, i, 4) != 0x01 {
        Some(AirPodsAccessoryParseError::InvalidRecord { index: i as usize })
    } else if !record_unavailable(data, i) && record_byte(data, i, 2) > 100 {
        Some(AirPodsAccessoryParseError::InvalidPercentage { percentage: record_byte(data, i, 2) })
    } else {
        None
    }
}

/// The component that a valid record `i` describes.
pub open spec fn record_component(data: Seq<u8>, i: int) -> (Option<u8>, ChargingState) {
    if record_unavailable(data, i) {
        (None, ChargingState::Unknown)
    } else {
        (Some(record_byte(data, i, 2)), status_charging_state(record_byte(data, i, 3)))
    }
}

/// `view` after applying valid record `i`: records of unknown components are
/// ignored and a later record replaces an earlier one of the same component.
pub open spec fn apply_record(view: AccessoryView, data: Seq<u8>, i: int) -> AccessoryView {
    let marker = record_byte(data, i, 0);
    let c = record_component(data, i);
    if marker == LEFT_COMPONENT {
        (Some(c), view.1, view.2)
    } else if marker == RIGHT_COMPONENT {
        (view.0, Some(c), view.2)
    } else if marker == CASE_COMPONENT {
        (view.0, view.1, Some(c))
    } else {
        view
    }
}

/// The outcome of reading the first `n` records of a battery packet: the
/// first invalid record decides the error.
pub open spec fn records_outcome(data: Seq<u8>, n: nat) -> Result<
    AccessoryView,
    AirPodsAccessoryParseError,
>
    decreases n,
{
    if n == 0 {
        Ok((None, None, None))
    } else {
        match records_outcome(data, (n - 1) as nat) {
            Err(e) => Err(e),
            Ok(view) => match record_error(data, n - 1) {
                Some(e) => Err(e),
                None => Ok(apply_record(view, data, n - 1)),
            },
        }
    }
}

proof fn lemma_error_persists(data: Seq<u8>, i: nat, n: nat)
    requires
        i <= n,
        records_outcome(data, i) is Err,
    ensures
        records_outcome(data, n) == records_outcome(data, i),
    decreases n - i,
{
    if i < n {
        lemma_error_persists(data, i, (n - 1) as nat);
    }
}

/// The outcome of parsing `data` as an accessory battery notification.
pub open spec fn accessory_outcome(data: Seq<u8>) -> Result<
    Option<AccessoryView>,
    AirPodsAccessoryParseError,
> {
    if !is_battery_packet(data) {
        Ok(None)
    } else if data.len() < 7 {
        Err(AirPodsAccessoryParseError::Truncated { expected: 7, actual: data.len() as usize })
    } else if data.len() < 7 + data[6] * 5 {
        Err(
            AirPodsAccessoryParseError::Truncated {
                expected: (7 + data[6] * 5) as usize,
                actual: data.len() as usize,
            },
        )
    } else {
        match records_outcome(data, data[6] as nat) {
            Ok(view) => Ok(Some(view)),
            Err(e) => Err(e),
        }
    }
}

/// Plain view of a parse result.
pub open spec fn accessory_result_view(
    r: Result<Option<AirPodsAccessoryBattery>, AirPodsAccessoryParseError>,
) -> Result<Option<AccessoryView>, AirPodsAccessoryParseError> {
    match r {
        Ok(Some(b)) => Ok(Some(b@)),
        Ok(None) => Ok(None),
        Err(e) => Err(e),
    }
}

/// Parses one active Apple accessory battery notification.
///
/// Returns `Ok(None)` for accessory packets carrying another opcode. Unlike
/// the passive proximity advertisement, component percentages are preserved
/// at one-percent resolution.
pub fn parse_accessory_battery(data: &[u8]) -> (r: Result<
    Option<AirPodsAccessoryBattery>,
    AirPodsAccessoryParseError,
>)
    ensures
        accessory_result_view(r) == accessory_outcome(data@),
{
    if data.len() < 6 || data[0] != 0x04 || data[1] != 0x00 || data[2] != 0x04 || data[3] != 0x00
        || data[4] != 0x04 || data[5] != 0x00 {
        return Ok(None);
    }
    if data.len() < 7 {
        return Err(AirPodsAccessoryParseError::Truncated { expected: 7, actual: data.len() });
    }
    let count = data[6] as usize;
    let expected = 7 + count * RECORD_LENGTH;
    if data.len() < expected {
        return Err(AirPodsAccessoryParseError::Truncated { expected, actual: data.len() });
    }
    let mut battery = AirPodsAccessoryBattery { left: None, right: None, case: None };
    let mut index: usize = 0;
    while index < count
        invariant
            is_battery_packet(data@),
            data@.len() >= 7,
            count == data@[6],
            7 + count * 5 <= data@.len(),
            index <= count,
            records_outcome(data@, index as nat) == Ok::<
                AccessoryView,
                AirPodsAccessoryParseError,
            >(battery@),
        decreases count - index,
    {
        let offset = 7 + index * RECORD_LENGTH;
        assert(offset + 5 <= data@.len()) by (nonlinear_arith)
            requires
                offset == 7 + index * 5,
                index < count,
                7 + count * 5 <= data@.len(),
        ;
        let marker = data[offset];
        let percentage_byte = data[offset + 2];
        let status = data[offset + 3];
        if data[offset + 1] != 0x01 || data[offset + 4] != 0x01 {
            proof {
                lemma_error_persists(data@, (index + 1) as nat, count as nat);
            }
            return Err(AirPodsAccessoryParseError::InvalidRecord { index });
        }
        let state = charging_state(status);
        let temporarily_unavailable = percentage_byte == 0x7f || percentage_byte == 0xff || (marker
            == CASE_COMPONENT
            && percentage_byte == 0 && state == ChargingState::Unknown);
        let percentage = if temporarily_unavailable {
            None
        } else {
            match BatteryPercentage::new(percentage_byte) {
                Ok(p) => Some(p),
                Err(_) => {
                    proof {
                        lemma_error_persists(data@, (index + 1) as nat, count as nat);
                    }
                    return Err(
                        AirPodsAccessoryParseError::InvalidPercentage {
                            percentage: percentage_byte,
                        },
                    );
                },
            }
        };
        let charging = match percentage {
            Some(_) => state,
            None => ChargingState::Unknown,
        };
        let c = AirPodsComponent { percentage, charging_state: charging };
        if marker == LEFT_COMPONENT {
            battery.left = Some(c);
        } else if marker == RIGHT_COMPONENT {
            battery.right = Some(c);
        } else if marker == CASE_COMPONENT {
            battery.case = Some(c);
        }
        index = index + 1;
    }
    Ok(Some(battery))
}

/// The message of an accessory packet parse error.
pub open spec fn accessory_error_text(e: AirPodsAccessoryParseError) -> Seq<char> {
    match e {
        AirPodsAccessoryParseError::Truncated { expected, actual } => "AirPods accessory battery packet is truncated: expected "@
            + decimal(expected as nat) + " bytes, got "@ + decimal(actual as nat),
        AirPodsAccessoryParseError::InvalidRecord { index } => "AirPods accessory battery record "@
            + decimal(index as nat) + " has invalid marker bytes"@,
        AirPodsAccessoryParseError::InvalidPercentage { percentage } => "AirPods accessory battery percentage "@
            + decimal(percentage as nat) + " is outside 0..=100"@,
    }
}

impl AirPodsAccessoryParseError {
    /// Human-readable description of the error.
    pub fn message(&self) -> (r: String)
        ensures
            r@ == accessory_error_text(*self),
    {
        match self {
            AirPodsAccessoryParseError::Truncated { expected, actual } => {
                let mut r = text_with_number(
                    "AirPods accessory battery packet is truncated: expected ",
                    *expected as u64,
                    " bytes, got ",
                );
                let tail = decimal_text(*actual as u64);
                r.append(tail.as_str());
                r
            },
            AirPodsAccessoryParseError::InvalidRecord { index } => text_with_number(
                "AirPods accessory battery record ",
                *index as u64,
                " has invalid marker bytes",
            ),
            AirPodsAccessoryParseError::InvalidPercentage { percentage } => text_with_number(
                "AirPods accessory battery percentage ",
                *percentage as u64,
                " is outside 0..=100",
            ),
        }
    }
}

} // verus!
