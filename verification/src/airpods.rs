//! Apple Continuity proximity-pairing advertisements and Apple accessory
//! battery notifications.

use vstd::prelude::*;

use crate::battery::{percentage_view, BatteryPercentage, ChargingState};
use crate::text::{decimal, text_with_number};

verus! {

/// Apple Bluetooth SIG company identifier.
pub const APPLE_MANUFACTURER_ID: u16 = 0x004c;

/// Continuity proximity-pairing message type.
pub const PROXIMITY_PAIRING_TYPE: u8 = 0x07;

/// Minimum length of a proximity-pairing payload.
pub const PROXIMITY_PAYLOAD_LENGTH: usize = 27;

/// `AirPods` model identified by the proximity-pairing advertisement.
#[derive(Debug, Clone, Copy, PartialEq, Eq, Structural)]
pub enum AirPodsModel {
    /// `AirPods` first generation.
    AirPods1,
    /// `AirPods` second generation.
    AirPods2,
    /// `AirPods` third generation.
    AirPods3,
    /// `AirPods` Pro first generation.
    AirPodsPro,
    /// `AirPods` Pro second generation.
    AirPodsPro2,
    /// `AirPods` Max.
    AirPodsMax,
    /// Unknown model nibble.
    Unknown(u8),
}

/// The user-visible label of a model.
pub open spec fn model_label(model: AirPodsModel) -> Seq<char> {
    match model {
        AirPodsModel::AirPods1 => "AirPods (1st generation)"@,
        AirPodsModel::AirPods2 => "AirPods (2nd generation)"@,
        AirPodsModel::AirPods3 => "AirPods (3rd generation)"@,
        AirPodsModel::AirPodsPro => "AirPods Pro (1st generation)"@,
        AirPodsModel::AirPodsPro2 => "AirPods Pro (2nd generation)"@,
        AirPodsModel::AirPodsMax => "AirPods Max"@,
        AirPodsModel::Unknown(_) => "AirPods"@,
    }
}

impl AirPodsModel {
    /// Returns the stable user-visible model label.
    pub fn display_name(self) -> (r: &'static str)
        ensures
            r@ == model_label(self),
    {
        match self {
            AirPodsModel::AirPods1 => "AirPods (1st generation)",
            AirPodsModel::AirPods2 => "AirPods (2nd generation)",
            AirPodsModel::AirPods3 => "AirPods (3rd generation)",
            AirPodsModel::AirPodsPro => "AirPods Pro (1st generation)",
            AirPodsModel::AirPodsPro2 => "AirPods Pro (2nd generation)",
            AirPodsModel::AirPodsMax => "AirPods Max",
            AirPodsModel::Unknown(_) => "AirPods",
        }
    }
}

/// One component decoded from an `AirPods` packet.
#[derive(Debug, Clone, Copy, PartialEq, Eq, Structural)]
pub struct AirPodsComponent {
    /// Percentage, or unavailable.
    pub percentage: Option<BatteryPercentage>,
    /// Charging state, unknown when the component is absent.
    pub charging_state: ChargingState,
}

impl View for AirPodsComponent {
    type V = (Option<u8>, ChargingState);

    open spec fn view(&self) -> (Option<u8>, ChargingState) {
        (percentage_view(self.percentage), self.charging_state)
    }
}

/// Complete `AirPods` proximity-pairing battery snapshot.
#[derive(Debug, Clone, Copy, PartialEq, Eq, Structural)]
pub struct AirPodsAdvertisement {
    /// Detected model.
    pub model: AirPodsModel,
    /// Left earbud component.
    pub left: AirPodsComponent,
    /// Right earbud component.
    pub right: AirPodsComponent,
    /// Charging case component.
    pub case: AirPodsComponent,
}

/// Strict parser error for a recognized but incomplete payload.
#[derive(Debug, Clone, Copy, PartialEq, Eq, Structural)]
pub enum AirPodsParseError {
    /// A proximity-pairing payload must contain at least 27 bytes.
    Truncated {
        /// Actual payload length.
        actual: usize,
    },
}

/// The percentage an Apple decile nibble stands for: nibbles 0 through 10
/// are tenths, 11 through 15 mean unavailable.
pub open spec fn decile_value(nibble: u8) -> Option<u8> {
    if nibble <= 10 {
        Some((nibble * 10) as u8)
    } else {
        None
    }
}

/// Converts an Apple decile nibble to a validated percentage.
pub fn decode_battery_nibble(nibble: u8) -> (r: Option<BatteryPercentage>)
    ensures
        percentage_view(r) == decile_value(nibble),
{
    if nibble <= 10 {
        match BatteryPercentage::new(nibble * 10) {
            Ok(p) => Some(p),
            Err(_) => None,
        }
    } else {
        None
    }
}

/// Nibble `index` of `data`, high nibble of each byte first.
pub open spec fn nibble_of(data: Seq<u8>, index: int) -> u8 {
    if index % 2 == 0 {
        data[index / 2] >> 4u8
    } else {
        data[index / 2] & 0x0fu8
    }
}

fn nibble_at(data: &[u8], index: usize) -> (r: u8)
    requires
        index / 2 < data@.len(),
    ensures
        r == nibble_of(data@, index as int),
{
    let byte = data[index / 2];
    if index % 2 == 0 {
        byte >> 4u8
    } else {
        byte & 0x0fu8
    }
}

/// The model a model nibble stands for.
pub open spec fn model_of_nibble(nibble: u8) -> AirPodsModel {
    if nibble == 0x2 {
        AirPodsModel::AirPods1
    } else if nibble == 0xf {
        AirPodsModel::AirPods2
    } else if nibble == 0x3 {
        AirPodsModel::AirPods3
    } else if nibble == 0xe {
        AirPodsModel::AirPodsPro
    } else if nibble == 0x4 {
        AirPodsModel::AirPodsPro2
    } else if nibble == 0xa {
        AirPodsModel::AirPodsMax
    } else {
        AirPodsModel::Unknown(nibble)
    }
}

fn model_from_nibble(nibble: u8) -> (r: AirPodsModel)
    ensures
        r == model_of_nibble(nibble),
{
    match nibble {
        0x2 => AirPodsModel::AirPods1,
        0xf => AirPodsModel::AirPods2,
        0x3 => AirPodsModel::AirPods3,
        0xe => AirPodsModel::AirPodsPro,
        0x4 => AirPodsModel::AirPodsPro2,
        0xa => AirPodsModel::AirPodsMax,
        other => AirPodsModel::Unknown(other),
    }
}

/// The component described by a percentage nibble and the charge bit
/// `charge_bit` of the charge nibble: an unavailable percentage never
/// carries a charging state.
pub open spec fn advertised_component(
    percentage_nibble: u8,
    charge_nibble: u8,
    charge_bit: u8,
) -> (Option<u8>, ChargingState) {
    let percentage = decile_value(percentage_nibble);
    (
        percentage,
        if percentage is None {
            ChargingState::Unknown
        } else if charge_nibble & charge_bit != 0 {
            ChargingState::Charging
        } else {
            ChargingState::NotCharging
        },
    )
}

fn component(percentage_nibble: u8, charge_nibble: u8, charge_bit: u8) -> (r: AirPodsComponent)
    ensures
        r@ == advertised_component(percentage_nibble, charge_nibble, charge_bit),
{
    let percentage = decode_battery_nibble(percentage_nibble);
    let charging_state = match percentage {
        None => ChargingState::Unknown,
        Some(_) => {
            if charge_nibble & charge_bit != 0 {
                ChargingState::Charging
            } else {
                ChargingState::NotCharging
            }
        },
    };
    AirPodsComponent { percentage, charging_state }
}

/// Whether the orientation bit says the left and right slots are swapped.
pub open spec fn advertisement_flipped(data: Seq<u8>) -> bool {
    nibble_of(data, 10) & 0x02u8 == 0
}

/// Whether `adv` is what a complete proximity-pairing payload `data` encodes:
/// the model nibble 7, earbud nibbles 12 and 13 in the order the orientation
/// bit selects, the case nibble 15 and the charge nibble 14.
pub open spec fn advertisement_encodes(adv: AirPodsAdvertisement, data: Seq<u8>) -> bool {
    let flipped = advertisement_flipped(data);
    let charge = nibble_of(data, 14);
    &&& adv.model == model_of_nibble(nibble_of(data, 7))
    &&& adv.left@ == advertised_component(
        nibble_of(data, if flipped { 12 } else { 13 }),
        charge,
        if flipped { 0b0010u8 } else { 0b0001u8 },
    )
    &&& adv.right@ == advertised_component(
        nibble_of(data, if flipped { 13 } else { 12 }),
        charge,
        if flipped { 0b0001u8 } else { 0b0010u8 },
    )
    &&& adv.case@ == advertised_component(nibble_of(data, 15), charge, 0b0100u8)
}

/// Whether `data` starts with the proximity-pairing message type.
pub open spec fn is_proximity_pairing(data: Seq<u8>) -> bool {
    data.len() > 0 && data[0] == PROXIMITY_PAIRING_TYPE
}

/// Parses the bytes after Apple company id `0x004C`.
///
/// Returns `Ok(None)` for non-proximity Apple advertisements and an error
/// only when message type `0x07` is recognized but shorter than 27 bytes.
pub fn parse_proximity_pairing(data: &[u8]) -> (r: Result<
    Option<AirPodsAdvertisement>,
    AirPodsParseError,
>)
    ensures
        !is_proximity_pairing(data@) <==> r == Ok::<Option<AirPodsAdvertisement>, AirPodsParseError>(None),
        is_proximity_pairing(data@) && data@.len() < 27 <==> r == Err::<
            Option<AirPodsAdvertisement>,
            AirPodsParseError,
        >(AirPodsParseError::Truncated { actual: data@.len() as usize }),
        r matches Ok(Some(adv)) ==> is_proximity_pairing(data@) && data@.len() >= 27
            && advertisement_encodes(adv, data@),
        is_proximity_pairing(data@) && data@.len() >= 27 ==> r matches Ok(Some(_)),
{
    if data.len() == 0 || data[0] != PROXIMITY_PAIRING_TYPE {
        return Ok(None);
    }
    if data.len() < PROXIMITY_PAYLOAD_LENGTH {
        return Err(AirPodsParseError::Truncated { actual: data.len() });
    }
    let model = model_from_nibble(nibble_at(data, 7));
    let flipped = nibble_at(data, 10) & 0x02u8 == 0;
    let left_index: usize = if flipped { 12 } else { 13 };
    let right_index: usize = if flipped { 13 } else { 12 };
    let charge = nibble_at(data, 14);
    let left_bit: u8 = if flipped { 0b0010 } else { 0b0001 };
    let right_bit: u8 = if flipped { 0b0001 } else { 0b0010 };
    Ok(Some(AirPodsAdvertisement {
        model,
        left: component(nibble_at(data, left_index), charge, left_bit),
        right: component(nibble_at(data, right_index), charge, right_bit),
        case: component(nibble_at(data, 15), charge, 0b0100),
    }))
}

/// A component that an advertisement reports as unavailable never carries a
/// charging state, and an available one is a whole decile of at most 100.
pub proof fn lemma_advertised_component_truthful(
    percentage_nibble: u8,
    charge_nibble: u8,
    charge_bit: u8,
)
    ensures
        advertised_component(percentage_nibble, charge_nibble, charge_bit).0 is None
            ==> advertised_component(percentage_nibble, charge_nibble, charge_bit).1
            == ChargingState::Unknown,
        advertised_component(percentage_nibble, charge_nibble, charge_bit).0 matches Some(v)
            ==> v <= 100 && v % 10 == 0,
        percentage_nibble >= 11 ==> advertised_component(
            percentage_nibble,
            charge_nibble,
            charge_bit,
        ).0 is None,
{
}

/// The message of a proximity-pairing parse error.
pub open spec fn parse_error_text(e: AirPodsParseError) -> Seq<char> {
    match e {
        AirPodsParseError::Truncated { actual } => "AirPods proximity-pairing payload is truncated: expected at least 27 bytes, got "@
            + decimal(actual as nat),
    }
}

impl AirPodsParseError {
    /// Human-readable description of the error.
    pub fn message(&self) -> (r: String)
        ensures
            r@ == parse_error_text(*self),
    {
        match self {
            AirPodsParseError::Truncated { actual } => {
                let r = text_with_number(
                    "AirPods proximity-pairing payload is truncated: expected at least 27 bytes, got ",
                    *actual as u64,
                    "",
                );
                proof {
                    reveal_strlit("");
                }
                assert(r@ =~= parse_error_text(*self));
                r
            },
        }
    }
}

} // verus!
