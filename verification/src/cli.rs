//! Hardware and parser diagnostics reported by the command-line tool: payload
//! parsing from hexadecimal input, scan lines and sanitized snapshot summaries.

use vstd::prelude::*;

use crate::airpods::{
    advertisement_encodes, is_proximity_pairing, parse_error_text, parse_proximity_pairing,
    AirPodsAdvertisement, AirPodsParseError, APPLE_MANUFACTURER_ID,
};
use crate::bluez::BluezDeviceSnapshot;
use crate::diagnostics::{sanitize_identifier, sanitized};
use crate::engine::opt_text;
use crate::entries::{entries_map, sorted_keys};
use crate::store::{keyed, KeyedStore};
use crate::companies::{company_entries, company_pairs, company_payload};
use crate::text::{decimal, decimal_text, trim_seq, trim_text};
use crate::timestamp::Timestamp;
use vstd::utf8::encode_utf8;
use crate::windows::is_airpods_payload;

verus! {

/// The value of a hexadecimal digit, in either case.
pub open spec fn hex_value(c: char) -> Option<u8> {
    if '0' <= c && c <= '9' {
        Some((c as int - '0' as int) as u8)
    } else if 'a' <= c && c <= 'f' {
        Some((c as int - 'a' as int + 10) as u8)
    } else if 'A' <= c && c <= 'F' {
        Some((c as int - 'A' as int + 10) as u8)
    } else {
        None
    }
}

/// Whether text is an even number of hexadecimal digits.
pub open spec fn is_hex_text(s: Seq<char>) -> bool {
    &&& s.len() % 2 == 0
    &&& forall|i: int| 0 <= i < s.len() ==> (#[trigger] hex_value(s[i])) is Some
}

/// The bytes that pairs of hexadecimal digits stand for, high digit first.
pub open spec fn hex_bytes(s: Seq<char>) -> Seq<u8> {
    Seq::new(
        s.len() / 2,
        |i: int| (hex_value(s[2 * i]).unwrap() * 16 + hex_value(s[2 * i + 1]).unwrap()) as u8,
    )
}

/// Whether a byte is an ASCII hexadecimal digit, in either case.
pub open spec fn is_hex_byte(b: u8) -> bool {
    (0x30 <= b && b <= 0x39) || (0x61 <= b && b <= 0x66) || (0x41 <= b && b <= 0x46)
}

/// Whether `message` is the decoder's report on `bytes`: `Odd number of
/// digits` for an odd count, else `Invalid character `, the offending byte
/// as the decoder quotes it, and ` at position ` with the index of the first
/// byte that is no hexadecimal digit.
pub open spec fn hex_failure(bytes: Seq<u8>, message: Seq<char>) -> bool {
    if bytes.len() % 2 == 1 {
        message == "Odd number of digits"@
    } else {
        exists|j: int|
            0 <= j < bytes.len() && !#[trigger] is_hex_byte(bytes[j]) && (forall|i: int|
                0 <= i < j ==> is_hex_byte(bytes[i])) && {
                let tail = " at position "@ + decimal(j as nat);
                &&& message.len() >= 18 + tail.len()
                &&& message.take(18) == "Invalid character "@
                &&& message.skip(message.len() - tail.len()) == tail
            }
    }
}

/// Decodes hexadecimal text into bytes.
///
/// Trusted: `hex::decode`, whose source rejects input of odd length and any
/// byte that is not an ASCII digit or letter `a`-`f` in either case, and
/// otherwise turns each pair into one byte, high digit first. Its error text
/// is `Odd number of digits`, or `Invalid character {c:?} at position {i}`
/// for the first such byte; how the byte is quoted (Rust's `Debug` form of
/// the byte taken as a character) is not stated here.
#[verifier::external_body]
fn hex_decode(text: &str) -> (r: Result<Vec<u8>, String>)
    ensures
        match r {
            Ok(bytes) => is_hex_text(text@) && bytes@ == hex_bytes(text@),
            Err(m) => !is_hex_text(text@) && hex_failure(encode_utf8(text@), m@),
        },
{
    match hex::decode(text) {
        Ok(bytes) => Ok(bytes),
        Err(error) => Err(error.to_string()),
    }
}

/// Parses Apple manufacturer payload bytes given as hexadecimal text, with
/// surrounding white space ignored: text that is not hexadecimal is refused
/// with `invalid hex: ` and the decoder's report, a truncated proximity-pairing
/// payload with the parser's message, and anything else parses as
/// `parse_proximity_pairing` parses the bytes.
pub fn parse_airpods_hex(hex: &str) -> (r: Result<Option<AirPodsAdvertisement>, String>)
    ensures
        !is_hex_text(trim_seq(hex@)) ==> (r matches Err(m) && m@.len() >= 13 && m@.take(13)
            == "invalid hex: "@ && hex_failure(encode_utf8(trim_seq(hex@)), m@.skip(13))),
        is_hex_text(trim_seq(hex@)) ==> {
            let bytes = hex_bytes(trim_seq(hex@));
            &&& !is_proximity_pairing(bytes) ==> r == Ok::<
                Option<AirPodsAdvertisement>,
                String,
            >(None)
            &&& is_proximity_pairing(bytes) && bytes.len() < 27 ==> (r matches Err(m) && m@
                == parse_error_text(AirPodsParseError::Truncated { actual: bytes.len() as usize }))
            &&& is_proximity_pairing(bytes) && bytes.len() >= 27 ==> (r matches Ok(Some(adv))
                && advertisement_encodes(adv, bytes))
        },
{
    let trimmed = trim_text(hex);
    match hex_decode(trimmed.as_str()) {
        Err(error) => {
            let mut m = String::from_str("invalid hex: ");
            proof {
                reveal_strlit("invalid hex: ");
            }
            let ghost head = m@;
            m.append(error.as_str());
            assert(m@.take(13) =~= head);
            assert(m@.skip(13) =~= error@);
            Err(m)
        },
        Ok(bytes) => match parse_proximity_pairing(bytes.as_slice()) {
            Ok(parsed) => Ok(parsed),
            Err(error) => Err(error.message()),
        },
    }
}

/// `true` or `false` as text.
pub open spec fn bool_text(b: bool) -> Seq<char> {
    if b {
        "true"@
    } else {
        "false"@
    }
}

/// A battery percentage as `N%`, or `unavailable`.
pub open spec fn battery_text(p: Option<u8>) -> Seq<char> {
    match p {
        Some(n) => decimal(n as nat) + "%"@,
        None => "unavailable"@,
    }
}

/// The line a scan prints for one device: its sanitized identifier, its
/// connection state and its platform battery.
pub open spec fn scan_line_text(s: BluezDeviceSnapshot) -> Seq<char> {
    sanitized(s.address@) + "  connected="@ + bool_text(s.connected) + " battery="@
        + battery_text(s.battery_percentage)
}

/// The line a scan prints for one device.
pub fn scan_line(snapshot: &BluezDeviceSnapshot) -> (r: String)
    ensures
        r@ == scan_line_text(*snapshot),
{
    let mut line = sanitize_identifier(snapshot.address.as_str());
    line.append("  connected=");
    if snapshot.connected {
        line.append("true");
    } else {
        line.append("false");
    }
    line.append(" battery=");
    match snapshot.battery_percentage {
        Some(p) => {
            let d = decimal_text(p as u64);
            line.append(d.as_str());
            line.append("%");
        },
        None => {
            line.append("unavailable");
        },
    }
    line
}

/// What a scan reports when nothing was observed.
pub fn empty_scan_message() -> (r: &'static str)
    ensures
        r@ == "No Bluetooth advertisements observed in the scan window."@,
{
    "No Bluetooth advertisements observed in the scan window."
}

/// A scanned device as the JSON report shows it: no raw address, and only
/// the lengths of manufacturer payloads.
#[derive(Debug, Clone)]
pub struct SanitizedSnapshot {
    /// Sanitized identifier of the address.
    pub id: String,
    /// Device alias or name.
    pub name: Option<String>,
    /// Current connection state.
    pub connected: bool,
    /// Whether the device is paired.
    pub paired: bool,
    /// Bluetooth SIG vendor id, when exposed.
    pub vendor_id: Option<u32>,
    /// Platform battery, when exposed.
    pub battery_percentage: Option<u8>,
    /// Icon/category hint.
    pub icon: Option<String>,
    /// Class of Device.
    pub class: Option<u32>,
    /// Appearance value.
    pub appearance: Option<u16>,
    /// Service UUIDs in text order.
    pub service_uuids: Vec<String>,
    /// Most recent RSSI value.
    pub rssi: Option<i16>,
    /// Manufacturer company ids in numeric order.
    pub manufacturer_company_ids: Vec<u16>,
    /// Payload length by company id written in decimal, in text order of
    /// those names.
    pub manufacturer_payload_lengths: Vec<(String, usize)>,
    /// The decoded `AirPods` advertisement, when the Apple payload is one.
    pub air_pods: Option<AirPodsAdvertisement>,
    /// Snapshot timestamp.
    pub observed_at: Timestamp,
}

/// Payload lengths keyed by company ids written in decimal, entry by entry.
pub open spec fn payload_lengths(es: Seq<(u16, Vec<u8>)>) -> Map<Seq<char>, usize>
    decreases es.len(),
{
    if es.len() == 0 {
        Map::empty()
    } else {
        payload_lengths(es.drop_last()).insert(decimal(es.last().0 as nat), es.last().1@.len() as usize)
    }
}

/// Summarizes a scanned device without its address or payload bytes.
pub fn sanitized_snapshot(snapshot: &BluezDeviceSnapshot) -> (r: SanitizedSnapshot)
    ensures
        r.id@ == sanitized(snapshot.address@),
        opt_text(r.name) == opt_text(snapshot.alias),
        r.connected == snapshot.connected,
        r.paired == snapshot.paired,
        r.vendor_id == snapshot.vendor_id,
        r.battery_percentage == snapshot.battery_percentage,
        opt_text(r.icon) == opt_text(snapshot.icon),
        r.class == snapshot.class,
        r.appearance == snapshot.appearance,
        r.service_uuids@.map_values(|u: String| u@) == keyed(
            snapshot.service_uuids.spec_entries(),
        ).map_values(|e: (Seq<char>, ())| e.0),
        r.rssi == snapshot.rssi,
        r.manufacturer_company_ids@ == company_entries(snapshot.manufacturer_data@).map_values(
            |e: (u16, Vec<u8>)| e.0,
        ),
        sorted_keys(r.manufacturer_payload_lengths@),
        entries_map(keyed(r.manufacturer_payload_lengths@)) == payload_lengths(
            company_entries(snapshot.manufacturer_data@),
        ),
        r.air_pods is Some <==> (snapshot.manufacturer_data@.contains_key(APPLE_MANUFACTURER_ID)
            && is_airpods_payload(snapshot.manufacturer_data@[APPLE_MANUFACTURER_ID]@)),
        r.air_pods matches Some(adv) ==> advertisement_encodes(
            adv,
            snapshot.manufacturer_data@[APPLE_MANUFACTURER_ID]@,
        ),
        r.observed_at == snapshot.observed_at,
{
    let uuids = snapshot.service_uuids.entries();
    let mut service_uuids: Vec<String> = Vec::new();
    let mut i: usize = 0;
    while i < uuids.len()
        invariant
            i <= uuids@.len(),
            uuids@ == snapshot.service_uuids.spec_entries(),
            service_uuids@.map_values(|u: String| u@) == keyed(uuids@.take(i as int)).map_values(
                |e: (Seq<char>, ())| e.0,
            ),
        decreases uuids@.len() - i,
    {
        let ghost before = service_uuids@.map_values(|u: String| u@);
        service_uuids.push(uuids[i].0.clone());
        assert(service_uuids@.map_values(|u: String| u@) =~= before.push(uuids@[i as int].0@));
        assert(keyed(uuids@.take(i + 1)).map_values(|e: (Seq<char>, ())| e.0) =~= keyed(
            uuids@.take(i as int),
        ).map_values(|e: (Seq<char>, ())| e.0).push(uuids@[i as int].0@));
        i = i + 1;
    }
    assert(uuids@.take(uuids@.len() as int) =~= uuids@);
    let pairs = company_pairs(&snapshot.manufacturer_data);
    let ghost payloads = company_entries(snapshot.manufacturer_data@);
    let mut companies: Vec<u16> = Vec::new();
    let mut lengths: KeyedStore<usize> = KeyedStore::new();
    let mut j: usize = 0;
    while j < pairs.len()
        invariant
            j <= pairs@.len(),
            pairs@.map_values(|e: (u16, &Vec<u8>)| (e.0, *e.1)) == payloads,
            companies@ == payloads.take(j as int).map_values(|e: (u16, Vec<u8>)| e.0),
            lengths@ == payload_lengths(payloads.take(j as int)),
        decreases pairs@.len() - j,
    {
        let company = pairs[j].0;
        let size = pairs[j].1.len();
        proof {
            assert(payloads[j as int] == (pairs@[j as int].0, *pairs@[j as int].1));
        }
        companies.push(company);
        let name = decimal_text(company as u64);
        lengths.insert(name, size);
        assert(payloads.take(j + 1).drop_last() =~= payloads.take(j as int));
        assert(companies@ =~= payloads.take(j + 1).map_values(|e: (u16, Vec<u8>)| e.0));
        j = j + 1;
    }
    assert(payloads.take(payloads.len() as int) =~= payloads);
    let air_pods = match company_payload(&snapshot.manufacturer_data, APPLE_MANUFACTURER_ID) {
        Some(payload) => match parse_proximity_pairing(payload.as_slice()) {
            Ok(Some(adv)) => Some(adv),
            _ => None,
        },
        None => None,
    };
    SanitizedSnapshot {
        id: sanitize_identifier(snapshot.address.as_str()),
        name: match &snapshot.alias {
            Some(a) => Some(a.clone()),
            None => None,
        },
        connected: snapshot.connected,
        paired: snapshot.paired,
        vendor_id: snapshot.vendor_id,
        battery_percentage: snapshot.battery_percentage,
        icon: match &snapshot.icon {
            Some(a) => Some(a.clone()),
            None => None,
        },
        class: snapshot.class,
        appearance: snapshot.appearance,
        service_uuids,
        rssi: snapshot.rssi,
        manufacturer_company_ids: companies,
        manufacturer_payload_lengths: lengths.into_entries(),
        air_pods,
        observed_at: snapshot.observed_at,
    }
}

} // verus!
