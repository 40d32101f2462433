//! `BlueZ` device snapshots: observations, descriptors and rotating-address
//! correlation.

use vstd::prelude::*;

use crate::airpods::{
    model_label, model_of_nibble, nibble_of, parse_proximity_pairing, AirPodsModel,
    APPLE_MANUFACTURER_ID,
};
use crate::battery::DataSource;
use crate::device::{ConnectionState, DeviceFamily, Transport};
use crate::diagnostics::{sanitize_identifier, sanitized};
use crate::engine::{opt_text, DeviceDescriptor};
use crate::entries::{entries_map, sorted_keys};
use crate::provider::{observation_view, ObservationView, RawObservation};
use crate::store::{keyed, KeyedStore};
use crate::companies::{company_entries, company_pairs, company_payload, extend_companies, insert_company};
use std::collections::BTreeMap;
use crate::text::{
    ascii_lower_chars, ascii_lower_string, contains_chars, same_text, seq_ascii_lower,
    seq_ascii_upper, seq_contains, seq_starts_with, starts_with_chars, trim_seq, trim_text,
};
use crate::timestamp::Timestamp;
use crate::windows::is_airpods_payload;

verus! {

/// Snapshot of `BlueZ` properties of one device.
#[derive(Debug)]
pub struct BluezDeviceSnapshot {
    /// Bluetooth address used only inside the backend boundary.
    pub address: String,
    /// Device alias or name.
    pub alias: Option<String>,
    /// Current `BlueZ` connection state.
    pub connected: bool,
    /// Whether the device is paired with the host.
    pub paired: bool,
    /// Bluetooth SIG vendor id from the Device ID modalias, when exposed.
    pub vendor_id: Option<u32>,
    /// Bluetooth SIG product id from the Device ID modalias, when exposed.
    pub product_id: Option<u32>,
    /// `org.bluez.Battery1.Percentage` when exposed.
    pub battery_percentage: Option<u8>,
    /// `BlueZ` icon/category hint.
    pub icon: Option<String>,
    /// Bluetooth Class of Device.
    pub class: Option<u32>,
    /// Bluetooth SIG appearance value.
    pub appearance: Option<u16>,
    /// Advertised or discovered service UUIDs.
    pub service_uuids: KeyedStore<()>,
    /// Most recent RSSI value.
    pub rssi: Option<i16>,
    /// Manufacturer payloads keyed by Bluetooth SIG company id.
    pub manufacturer_data: BTreeMap<u16, Vec<u8>>,
    /// Service payloads keyed by canonical service UUID.
    pub service_data: KeyedStore<Vec<u8>>,
    /// Snapshot timestamp.
    pub observed_at: Timestamp,
}

/// The observations a snapshot maps to: its connection state, its platform
/// battery when exposed, then every manufacturer payload in company order
/// and every service payload in UUID order.
pub open spec fn snapshot_observations(s: BluezDeviceSnapshot) -> Seq<ObservationView> {
    let id = s.address@;
    let t = s.observed_at;
    seq![
        ObservationView::Connection {
            device_id: id,
            state: if s.connected {
                ConnectionState::Connected
            } else {
                ConnectionState::Disconnected
            },
            observed_at: t,
        },
    ] + match s.battery_percentage {
        Some(p) => seq![
            ObservationView::PlatformBattery {
                device_id: id,
                percentage: p,
                source: DataSource::BluezBattery,
                observed_at: t,
            },
        ],
        None => Seq::empty(),
    } + company_entries(s.manufacturer_data@).map_values(
        |e: (u16, Vec<u8>)|
            ObservationView::ManufacturerData {
                device_id: id,
                company_id: e.0,
                payload: e.1@,
                observed_at: t,
            },
    ) + s.service_data.spec_entries().map_values(
        |e: (String, Vec<u8>)|
            ObservationView::ServiceData {
                device_id: id,
                service_uuid: e.0@,
                payload: e.1@,
                observed_at: t,
            },
    )
}

/// Maps one `BlueZ` snapshot to raw observations without protocol inference.
pub fn map_bluez_snapshot(snapshot: &BluezDeviceSnapshot) -> (r: Vec<RawObservation>)
    ensures
        r@.map_values(|o: RawObservation| observation_view(o)) == snapshot_observations(*snapshot),
{
    let ghost s = *snapshot;
    let mut observations: Vec<RawObservation> = Vec::new();
    let state = if snapshot.connected {
        ConnectionState::Connected
    } else {
        ConnectionState::Disconnected
    };
    observations.push(
        RawObservation::Connection {
            device_id: snapshot.address.clone(),
            state,
            observed_at: snapshot.observed_at,
        },
    );
    match snapshot.battery_percentage {
        Some(percentage) => {
            observations.push(
                RawObservation::PlatformBattery {
                    device_id: snapshot.address.clone(),
                    percentage,
                    source: DataSource::BluezBattery,
                    observed_at: snapshot.observed_at,
                },
            );
        },
        None => {},
    }
    let ghost head = observations@.map_values(|o: RawObservation| observation_view(o));
    let md = company_pairs(&snapshot.manufacturer_data);
    let ghost mes = company_entries(snapshot.manufacturer_data@);
    let ghost mds = mes.map_values(
        |e: (u16, Vec<u8>)|
            ObservationView::ManufacturerData {
                device_id: s.address@,
                company_id: e.0,
                payload: e.1@,
                observed_at: s.observed_at,
            },
    );
    proof {
        assert(md@.len() == mes.len());
        assert forall|j: int| 0 <= j < md@.len() implies md@[j].0 == mes[j].0 && *md@[j].1
            == mes[j].1 by {
            assert(md@.map_values(|e: (u16, &Vec<u8>)| (e.0, *e.1))[j] == mes[j]);
        }
    }
    let mut i: usize = 0;
    while i < md.len()
        invariant
            i <= md@.len(),
            observations@.map_values(|o: RawObservation| observation_view(o)) == head + mds.take(
                i as int,
            ),
            mds.len() == md@.len(),
            forall|j: int| 0 <= j < md@.len() ==> #[trigger] mds[j] == (ObservationView::ManufacturerData {
                device_id: s.address@,
                company_id: md@[j].0,
                payload: md@[j].1@,
                observed_at: s.observed_at,
            }),
            mes == company_entries(snapshot.manufacturer_data@),
            md@.len() == mes.len(),
            s == *snapshot,
        decreases md@.len() - i,
    {
        let payload = md[i].1.clone();
        assert(payload@ =~= md@[i as int].1@);
        let ghost prev = observations@;
        let obs = RawObservation::ManufacturerData {
            device_id: snapshot.address.clone(),
            company_id: md[i].0,
            payload,
            observed_at: snapshot.observed_at,
        };
        assert(observation_view(obs) == mds[i as int]);
        observations.push(obs);
        assert(observations@.map_values(|o: RawObservation| observation_view(o)) =~= prev.map_values(
            |o: RawObservation| observation_view(o),
        ).push(mds[i as int]));
        assert(mds.take(i + 1) =~= mds.take(i as int).push(mds[i as int]));
        assert(observations@.map_values(|o: RawObservation| observation_view(o)) =~= head
            + mds.take(i + 1));
        i = i + 1;
    }
    assert(mds.take(md@.len() as int) =~= mds);
    let ghost mid = observations@.map_values(|o: RawObservation| observation_view(o));
    let sd = snapshot.service_data.entries();
    let ghost sds = sd@.map_values(
        |e: (String, Vec<u8>)|
            ObservationView::ServiceData {
                device_id: s.address@,
                service_uuid: e.0@,
                payload: e.1@,
                observed_at: s.observed_at,
            },
    );
    let mut k: usize = 0;
    while k < sd.len()
        invariant
            k <= sd@.len(),
            observations@.map_values(|o: RawObservation| observation_view(o)) == mid + sds.take(
                k as int,
            ),
            sds.len() == sd@.len(),
            forall|j: int| 0 <= j < sd@.len() ==> #[trigger] sds[j] == (ObservationView::ServiceData {
                device_id: s.address@,
                service_uuid: sd@[j].0@,
                payload: sd@[j].1@,
                observed_at: s.observed_at,
            }),
            s == *snapshot,
        decreases sd@.len() - k,
    {
        let payload = sd[k].1.clone();
        assert(payload@ =~= sd@[k as int].1@);
        let ghost prev = observations@;
        let obs = RawObservation::ServiceData {
            device_id: snapshot.address.clone(),
            service_uuid: sd[k].0.clone(),
            payload,
            observed_at: snapshot.observed_at,
        };
        assert(observation_view(obs) == sds[k as int]);
        observations.push(obs);
        assert(observations@.map_values(|o: RawObservation| observation_view(o)) =~= prev.map_values(
            |o: RawObservation| observation_view(o),
        ).push(sds[k as int]));
        assert(sds.take(k + 1) =~= sds.take(k as int).push(sds[k as int]));
        assert(observations@.map_values(|o: RawObservation| observation_view(o)) =~= mid
            + sds.take(k + 1));
        k = k + 1;
    }
    assert(sds.take(sd@.len() as int) =~= sds);
    assert(observations@.map_values(|o: RawObservation| observation_view(o))
        =~= snapshot_observations(s));
    observations
}

/// The monitor key of an address: trimmed and in ASCII upper case.
pub open spec fn address_key(address: Seq<char>) -> Seq<char> {
    seq_ascii_upper(trim_seq(address))
}

/// The monitor key of an address: trimmed and in ASCII upper case.
pub fn normalized_address(address: &str) -> (r: String)
    ensures
        r@ == address_key(address@),
{
    let trimmed = trim_text(address);
    let n = trimmed.as_str().unicode_len();
    let mut r = String::new();
    let mut i: usize = 0;
    while i < n
        invariant
            n == trimmed@.len(),
            i <= n,
            r@ == seq_ascii_upper(trimmed@.take(i as int)),
        decreases n - i,
    {
        let c = trimmed.as_str().get_char(i);
        let u = if c >= 'a' && c <= 'z' {
            ((c as u8) - 32) as char
        } else {
            c
        };
        crate::text::push_char(&mut r, u);
        assert(seq_ascii_upper(trimmed@.take(i + 1)) =~= seq_ascii_upper(trimmed@.take(i as int)).push(
            u,
        ));
        i = i + 1;
    }
    assert(trimmed@.take(n as int) =~= trimmed@);
    r
}

/// The header of an exact accessory battery notification.
pub open spec fn battery_header() -> Seq<u8> {
    seq![0x04u8, 0x00u8, 0x04u8, 0x00u8, 0x04u8, 0x00u8]
}

/// Whether a packet is a complete exact battery notification: the battery
/// header, a record count, and that many five-byte records.
pub open spec fn complete_battery_packet(packet: Seq<u8>) -> bool {
    packet.len() >= 7 && packet.take(6) == battery_header() && packet.len() >= 7 + packet[6] * 5
}

/// Whether a packet is a complete exact battery notification.
pub fn is_complete_battery_packet(packet: &[u8]) -> (r: bool)
    ensures
        r == complete_battery_packet(packet@),
{
    if packet.len() < 7 {
        return false;
    }
    let header_ok = packet[0] == 0x04 && packet[1] == 0x00 && packet[2] == 0x04 && packet[3] == 0x00
        && packet[4] == 0x04 && packet[5] == 0x00;
    assert(header_ok == (packet@.take(6) == battery_header())) by {
        if header_ok {
            assert(packet@.take(6) =~= battery_header());
        }
        if packet@.take(6) == battery_header() {
            assert(packet@.take(6)[0] == packet@[0]);
            assert(packet@.take(6)[1] == packet@[1]);
            assert(packet@.take(6)[2] == packet@[2]);
            assert(packet@.take(6)[3] == packet@[3]);
            assert(packet@.take(6)[4] == packet@[4]);
            assert(packet@.take(6)[5] == packet@[5]);
        }
    }
    if !header_ok {
        return false;
    }
    let record_count = packet[6] as usize;
    packet.len() >= 7 + record_count * 5
}

/// The model name a Device ID product identifier is known to stand for.
pub open spec fn product_model(product_id: Option<u32>) -> Option<Seq<char>> {
    match product_id {
        Some(p) => if p == 0x200e {
            Some("AirPods Pro (1st generation)"@)
        } else {
            None
        },
        None => None,
    }
}

/// The model name a Device ID product identifier is known to stand for.
pub fn apple_model_from_product(product_id: Option<u32>) -> (r: Option<&'static str>)
    ensures
        match r {
            Some(x) => product_model(product_id) == Some(x@),
            None => product_model(product_id) is None,
        },
{
    match product_id {
        Some(0x200e) => Some("AirPods Pro (1st generation)"),
        _ => None,
    }
}

/// The ASCII lower-case text of an optional string, empty when absent.
pub open spec fn lower_or_empty(s: Option<String>) -> Seq<char> {
    match s {
        Some(x) => seq_ascii_lower(x@),
        None => Seq::empty(),
    }
}

/// The `AirPods` model that a snapshot's Apple payload encodes, if any.
pub open spec fn snapshot_model(s: BluezDeviceSnapshot) -> Option<AirPodsModel> {
    if s.manufacturer_data@.contains_key(APPLE_MANUFACTURER_ID) && is_airpods_payload(
        s.manufacturer_data@[APPLE_MANUFACTURER_ID]@,
    ) {
        Some(model_of_nibble(nibble_of(s.manufacturer_data@[APPLE_MANUFACTURER_ID]@, 7)))
    } else {
        None
    }
}

/// Whether a snapshot carries a complete `AirPods` payload.
pub open spec fn carries_airpods_payload(s: BluezDeviceSnapshot) -> bool {
    snapshot_model(s) is Some
}

/// Whether a service UUID is an audio profile: A2DP sink, AVRCP or Hands-Free.
pub open spec fn audio_uuid(u: Seq<char>) -> bool {
    seq_starts_with(u, "0000110b"@) || seq_starts_with(u, "0000110e"@) || seq_starts_with(
        u,
        "0000111e"@,
    ) || seq_starts_with(u, "0000111f"@)
}

/// Whether a snapshot advertises an audio profile.
pub open spec fn has_audio_service(s: BluezDeviceSnapshot) -> bool {
    exists|u: Seq<char>| #[trigger] s.service_uuids@.contains_key(u) && audio_uuid(u)
}

/// Whether a class of device is in the audio/video major class.
pub open spec fn audio_class(class: Option<u32>) -> bool {
    class matches Some(c) && (c >> 8u32) & 0x1fu32 == 0x04u32
}

/// Whether a snapshot without an `AirPods` payload looks like an audio device
/// by name, icon, class of device or services.
pub open spec fn audio_device(s: BluezDeviceSnapshot) -> bool {
    let name = lower_or_empty(s.alias);
    let icon = lower_or_empty(s.icon);
    &&& !carries_airpods_payload(s)
    &&& {
        ||| seq_contains(name, "airpods"@)
        ||| seq_contains(name, "beats"@)
        ||| seq_contains(name, "earbud"@)
        ||| seq_contains(name, "buds"@)
        ||| seq_contains(name, "headset"@)
        ||| seq_contains(name, "headphone"@)
        ||| seq_contains(icon, "audio"@)
        ||| seq_contains(icon, "headset"@)
        ||| seq_contains(icon, "headphones"@)
        ||| audio_class(s.class)
        ||| has_audio_service(s)
    }
}

/// Whether a connected snapshot is an audio device without an `AirPods` payload.
pub open spec fn connected_audio_candidate(s: BluezDeviceSnapshot) -> bool {
    s.connected && !carries_airpods_payload(s) && audio_device(s)
}

/// Whether a paired snapshot is an Apple audio identity: an `AirPods` or
/// Beats name or the Apple vendor id, and audio evidence or an `AirPods`
/// payload.
pub open spec fn paired_apple_audio(s: BluezDeviceSnapshot) -> bool {
    let name = lower_or_empty(s.alias);
    &&& s.paired
    &&& (seq_contains(name, "airpods"@) || seq_contains(name, "beats"@) || s.vendor_id == Some(
        0x004cu32,
    ))
    &&& (audio_device(s) || carries_airpods_payload(s))
}

fn lower_chars_of(s: &Option<String>) -> (r: Vec<char>)
    ensures
        r@ == lower_or_empty(*s),
{
    match s {
        Some(x) => ascii_lower_chars(x.as_str()),
        None => {
            let r: Vec<char> = Vec::new();
            assert(r@ =~= lower_or_empty(*s));
            r
        },
    }
}

fn snapshot_airpods(snapshot: &BluezDeviceSnapshot) -> (r: Option<AirPodsModel>)
    ensures
        r == snapshot_model(*snapshot),
{
    match company_payload(&snapshot.manufacturer_data, APPLE_MANUFACTURER_ID) {
        Some(payload) => match parse_proximity_pairing(payload.as_slice()) {
            Ok(Some(adv)) => Some(adv.model),
            _ => None,
        },
        None => None,
    }
}

/// Whether a snapshot carries a complete `AirPods` payload.
pub fn has_airpods_payload(snapshot: &BluezDeviceSnapshot) -> (r: bool)
    ensures
        r == carries_airpods_payload(*snapshot),
{
    snapshot_airpods(snapshot).is_some()
}

fn audio_service(snapshot: &BluezDeviceSnapshot) -> (r: bool)
    ensures
        r == has_audio_service(*snapshot),
{
    let es = snapshot.service_uuids.entries();
    let ghost ks = keyed(es@);
    let mut i: usize = 0;
    while i < es.len()
        invariant
            i <= es@.len(),
            ks == keyed(es@),
            entries_map(ks) == snapshot.service_uuids@,
            forall|j: int| 0 <= j < i ==> !audio_uuid((#[trigger] es@[j]).0@),
        decreases es@.len() - i,
    {
        let chars = crate::text::chars_of(es[i].0.as_str());
        if starts_with_chars(&chars, "0000110b") || starts_with_chars(&chars, "0000110e")
            || starts_with_chars(&chars, "0000111e") || starts_with_chars(&chars, "0000111f") {
            proof {
                assert(ks[i as int].0 == es@[i as int].0@);
                assert(snapshot.service_uuids@.contains_key(es@[i as int].0@));
            }
            return true;
        }
        i = i + 1;
    }
    proof {
        assert forall|u: Seq<char>| #[trigger] snapshot.service_uuids@.contains_key(u) implies !audio_uuid(u) by {
            let j = choose|j: int| 0 <= j < ks.len() && (#[trigger] ks[j]).0 == u;
            assert(es@[j].0@ == u);
        }
    }
    false
}

/// Whether a snapshot without an `AirPods` payload looks like an audio device.
pub fn is_audio_device(snapshot: &BluezDeviceSnapshot) -> (r: bool)
    ensures
        r == audio_device(*snapshot),
{
    if has_airpods_payload(snapshot) {
        return false;
    }
    let name = lower_chars_of(&snapshot.alias);
    let icon = lower_chars_of(&snapshot.icon);
    let class_audio = match snapshot.class {
        Some(c) => (c >> 8u32) & 0x1fu32 == 0x04u32,
        None => false,
    };
    contains_chars(&name, "airpods") || contains_chars(&name, "beats") || contains_chars(
        &name,
        "earbud",
    ) || contains_chars(&name, "buds") || contains_chars(&name, "headset") || contains_chars(
        &name,
        "headphone",
    ) || contains_chars(&icon, "audio") || contains_chars(&icon, "headset") || contains_chars(
        &icon,
        "headphones",
    ) || class_audio || audio_service(snapshot)
}

/// Whether a connected snapshot is an audio device without an `AirPods` payload.
pub fn is_connected_audio_candidate(snapshot: &BluezDeviceSnapshot) -> (r: bool)
    ensures
        r == connected_audio_candidate(*snapshot),
{
    snapshot.connected && !has_airpods_payload(snapshot) && is_audio_device(snapshot)
}

/// Whether a paired snapshot is an Apple audio identity.
pub fn is_paired_apple_audio_candidate(snapshot: &BluezDeviceSnapshot) -> (r: bool)
    ensures
        r == paired_apple_audio(*snapshot),
{
    if !snapshot.paired {
        return false;
    }
    let name = lower_chars_of(&snapshot.alias);
    let apple_identity = contains_chars(&name, "airpods") || contains_chars(&name, "beats")
        || snapshot.vendor_id == Some(0x004cu32);
    apple_identity && (is_audio_device(snapshot) || has_airpods_payload(snapshot))
}

/// The family a non-Apple snapshot suggests from its usable alias, icon,
/// battery and pairing state.
pub open spec fn bluez_family(s: BluezDeviceSnapshot, alias: Option<Seq<char>>) -> DeviceFamily {
    let n = match alias {
        Some(a) => seq_ascii_lower(a),
        None => Seq::empty(),
    };
    let icon = lower_or_empty(s.icon);
    if seq_contains(n, "buds"@) || seq_contains(n, "earbud"@) || seq_contains(n, "tws"@) {
        DeviceFamily::Earbuds
    } else if seq_contains(n, "speaker"@) || seq_contains(n, "jbl charge"@) || seq_contains(
        icon,
        "speaker"@,
    ) {
        DeviceFamily::Speaker
    } else if seq_contains(n, "mouse"@) || seq_contains(n, "mx master"@) || seq_contains(
        icon,
        "mouse"@,
    ) {
        DeviceFamily::Mouse
    } else if seq_contains(n, "keyboard"@) || seq_contains(n, "keychron"@) || seq_contains(
        icon,
        "keyboard"@,
    ) {
        DeviceFamily::Keyboard
    } else if seq_contains(n, "controller"@) || seq_contains(n, "gamepad"@) || seq_contains(
        n,
        "joystick"@,
    ) {
        DeviceFamily::GameController
    } else if seq_contains(n, "stylus"@) || seq_contains(n, "pencil"@) || seq_contains(
        n,
        "digital pen"@,
    ) {
        DeviceFamily::Stylus
    } else if seq_contains(n, "headset"@) || seq_contains(n, "headphone"@) || seq_contains(
        icon,
        "headset"@,
    ) || seq_contains(icon, "headphones"@) {
        DeviceFamily::Headset
    } else if s.battery_percentage is Some || s.connected || s.paired {
        DeviceFamily::GenericBle
    } else {
        DeviceFamily::Unknown
    }
}

fn generic_family(snapshot: &BluezDeviceSnapshot, alias: Option<&str>) -> (r: DeviceFamily)
    ensures
        r == bluez_family(*snapshot, crate::windows::opt_str_text(alias)),
{
    let n = match alias {
        Some(a) => ascii_lower_chars(a),
        None => {
            let v: Vec<char> = Vec::new();
            assert(v@ =~= Seq::<char>::empty());
            v
        },
    };
    let icon = lower_chars_of(&snapshot.icon);
    if contains_chars(&n, "buds") || contains_chars(&n, "earbud") || contains_chars(&n, "tws") {
        DeviceFamily::Earbuds
    } else if contains_chars(&n, "speaker") || contains_chars(&n, "jbl charge") || contains_chars(
        &icon,
        "speaker",
    ) {
        DeviceFamily::Speaker
    } else if contains_chars(&n, "mouse") || contains_chars(&n, "mx master") || contains_chars(
        &icon,
        "mouse",
    ) {
        DeviceFamily::Mouse
    } else if contains_chars(&n, "keyboard") || contains_chars(&n, "keychron") || contains_chars(
        &icon,
        "keyboard",
    ) {
        DeviceFamily::Keyboard
    } else if contains_chars(&n, "controller") || contains_chars(&n, "gamepad") || contains_chars(
        &n,
        "joystick",
    ) {
        DeviceFamily::GameController
    } else if contains_chars(&n, "stylus") || contains_chars(&n, "pencil") || contains_chars(
        &n,
        "digital pen",
    ) {
        DeviceFamily::Stylus
    } else if contains_chars(&n, "headset") || contains_chars(&n, "headphone") || contains_chars(
        &icon,
        "headset",
    ) || contains_chars(&icon, "headphones") {
        DeviceFamily::Headset
    } else if snapshot.battery_percentage.is_some() || snapshot.connected || snapshot.paired {
        DeviceFamily::GenericBle
    } else {
        DeviceFamily::Unknown
    }
}

/// A snapshot's alias without surrounding white space, when it is neither
/// empty nor the bare address.
pub open spec fn usable_alias(s: BluezDeviceSnapshot) -> Option<Seq<char>> {
    match s.alias {
        Some(a) => if trim_seq(a@).len() > 0 && trim_seq(a@) != s.address@ {
            Some(trim_seq(a@))
        } else {
            None
        },
        None => None,
    }
}

/// The model name of a snapshot: from its `AirPods` payload, else from its
/// Device ID product.
pub open spec fn bluez_model(s: BluezDeviceSnapshot) -> Option<Seq<char>> {
    match snapshot_model(s) {
        Some(m) => Some(model_label(m)),
        None => product_model(s.product_id),
    }
}

/// Whether a snapshot is an `AirPods` identity.
pub open spec fn airpods_identity(s: BluezDeviceSnapshot) -> bool {
    snapshot_model(s) is Some || paired_apple_audio(s)
}

/// The display name of a snapshot: its usable alias, else its model, else a
/// generic name.
pub open spec fn bluez_display_name(s: BluezDeviceSnapshot) -> Seq<char> {
    match usable_alias(s) {
        Some(a) => a,
        None => match bluez_model(s) {
            Some(m) => m,
            None => "Bluetooth audio device"@,
        },
    }
}

/// Whether `d` is the descriptor of snapshot `s`.
pub open spec fn describes_snapshot(d: DeviceDescriptor, s: BluezDeviceSnapshot) -> bool {
    &&& d.backend_id@ == s.address@
    &&& d.privacy_id@ == sanitized(s.address@)
    &&& d.display_name@ == bluez_display_name(s)
    &&& opt_text(d.system_name) == usable_alias(s)
    &&& opt_text(d.manufacturer) == if airpods_identity(s) {
        Some("Apple"@)
    } else {
        None::<Seq<char>>
    }
    &&& opt_text(d.model) == bluez_model(s)
    &&& opt_text(d.icon) == opt_text(s.icon)
    &&& d.class == s.class
    &&& d.appearance == s.appearance
    &&& d.service_uuids@.map_values(|u: String| u@) == s.service_uuids.spec_entries().map_values(
        |e: (String, ())| e.0@,
    )
    &&& d.device_family == if airpods_identity(s) {
        DeviceFamily::AirPods
    } else {
        bluez_family(s, usable_alias(s))
    }
    &&& d.transport == Transport::Unknown
    &&& d.last_seen_at == Some(s.observed_at)
}

fn clone_text(s: &Option<String>) -> (r: Option<String>)
    ensures
        opt_text(r) == opt_text(*s),
{
    match s {
        Some(x) => Some(x.clone()),
        None => None,
    }
}

/// The platform descriptor of a snapshot.
pub fn descriptor(snapshot: &BluezDeviceSnapshot) -> (r: DeviceDescriptor)
    ensures
        describes_snapshot(r, *snapshot),
{
    let airpods = snapshot_airpods(snapshot);
    let is_airpods_identity = airpods.is_some() || is_paired_apple_audio_candidate(snapshot);
    let model: Option<String> = match airpods {
        Some(m) => Some(m.display_name().to_owned()),
        None => match apple_model_from_product(snapshot.product_id) {
            Some(x) => Some(x.to_owned()),
            None => None,
        },
    };
    let alias: Option<String> = match &snapshot.alias {
        Some(a) => {
            let t = trim_text(a.as_str());
            if !t.as_str().is_empty() && !same_text(t.as_str(), snapshot.address.as_str()) {
                Some(t)
            } else {
                None
            }
        },
        None => None,
    };
    assert(opt_text(alias) == usable_alias(*snapshot));
    let display_name = match &alias {
        Some(a) => a.clone(),
        None => match &model {
            Some(m) => m.clone(),
            None => String::from_str("Bluetooth audio device"),
        },
    };
    let family = if is_airpods_identity {
        DeviceFamily::AirPods
    } else {
        match &alias {
            Some(a) => generic_family(snapshot, Some(a.as_str())),
            None => generic_family(snapshot, None),
        }
    };
    let es = snapshot.service_uuids.entries();
    let mut uuids: Vec<String> = Vec::new();
    let mut i: usize = 0;
    while i < es.len()
        invariant
            i <= es@.len(),
            uuids@.map_values(|u: String| u@) == es@.take(i as int).map_values(
                |e: (String, ())| e.0@,
            ),
        decreases es@.len() - i,
    {
        uuids.push(es[i].0.clone());
        assert(es@.take(i + 1).map_values(|e: (String, ())| e.0@) =~= es@.take(i as int).map_values(
            |e: (String, ())| e.0@,
        ).push(es@[i as int].0@));
        assert(uuids@.map_values(|u: String| u@) =~= es@.take(i + 1).map_values(
            |e: (String, ())| e.0@,
        ));
        i = i + 1;
    }
    assert(es@.take(es@.len() as int) =~= es@);
    let manufacturer = if is_airpods_identity {
        Some(String::from_str("Apple"))
    } else {
        None
    };
    proof {
        reveal_strlit("Apple");
    }
    DeviceDescriptor {
        backend_id: snapshot.address.clone(),
        privacy_id: sanitize_identifier(snapshot.address.as_str()),
        display_name,
        system_name: alias,
        manufacturer,
        model,
        icon: clone_text(&snapshot.icon),
        class: snapshot.class,
        appearance: snapshot.appearance,
        service_uuids: uuids,
        device_family: family,
        transport: Transport::Unknown,
        last_seen_at: Some(snapshot.observed_at),
    }
}

/// Identifiers of the snapshots that are paired Apple audio identities, or
/// connected audio candidates, in order.
pub open spec fn candidate_keys(es: Seq<(String, BluezDeviceSnapshot)>, paired: bool) -> Seq<
    Seq<char>,
>
    decreases es.len(),
{
    if es.len() == 0 {
        Seq::empty()
    } else {
        let prev = candidate_keys(es.drop_last(), paired);
        let e = es.last();
        if (if paired {
            paired_apple_audio(e.1)
        } else {
            connected_audio_candidate(e.1)
        }) {
            prev.push(e.0@)
        } else {
            prev
        }
    }
}

/// The device a rotating `AirPods` advertisement may be attributed to: the
/// only paired Apple audio identity; with none, the only connected audio
/// device; nothing when ambiguous.
pub open spec fn correlation_target(es: Seq<(String, BluezDeviceSnapshot)>) -> Option<Seq<char>> {
    let p = candidate_keys(es, true);
    if p.len() == 1 {
        Some(p[0])
    } else if p.len() > 0 {
        None
    } else {
        let c = candidate_keys(es, false);
        if c.len() == 1 {
            Some(c[0])
        } else {
            None
        }
    }
}

/// Whether a snapshot is a rotating `AirPods` advertisement: neither
/// connected nor paired, with an `AirPods` payload.
pub open spec fn rotating(s: BluezDeviceSnapshot) -> bool {
    !s.connected && !s.paired && carries_airpods_payload(s)
}

/// The signal strength of a snapshot, lowest when unknown.
pub open spec fn snapshot_rssi(s: BluezDeviceSnapshot) -> int {
    match s.rssi {
        Some(r) => r as int,
        None => i16::MIN as int,
    }
}

/// Whether snapshot `a` ranks at least as high as `b`: stronger signal first,
/// then later observation.
pub open spec fn ranks_at_least(a: BluezDeviceSnapshot, b: BluezDeviceSnapshot) -> bool {
    snapshot_rssi(a) > snapshot_rssi(b) || (snapshot_rssi(a) == snapshot_rssi(b)
        && a.observed_at.unix_nanos >= b.observed_at.unix_nanos)
}

/// The position of the last highest-ranked rotating advertisement.
pub open spec fn best_rotating(es: Seq<(String, BluezDeviceSnapshot)>) -> Option<int>
    decreases es.len(),
{
    if es.len() == 0 {
        None
    } else {
        let prev = best_rotating(es.drop_last());
        let i = es.len() - 1;
        if rotating(es[i].1) && (prev matches Some(b) ==> ranks_at_least(es[i].1, es[b].1)) {
            Some(i)
        } else {
            prev
        }
    }
}

/// Identifiers of the rotating advertisements, in order.
pub open spec fn rotating_keys(es: Seq<(String, BluezDeviceSnapshot)>) -> Seq<Seq<char>>
    decreases es.len(),
{
    if es.len() == 0 {
        Seq::empty()
    } else {
        let prev = rotating_keys(es.drop_last());
        if rotating(es.last().1) {
            prev.push(es.last().0@)
        } else {
            prev
        }
    }
}

/// Whether `n` is snapshot `c` with the payloads, services and signal of the
/// advertisement `sel` merged in, the later time kept.
pub open spec fn merged_snapshot(
    n: BluezDeviceSnapshot,
    c: BluezDeviceSnapshot,
    sel: BluezDeviceSnapshot,
) -> bool {
    &&& n.address == c.address
    &&& n.alias == c.alias
    &&& n.connected == c.connected
    &&& n.paired == c.paired
    &&& n.vendor_id == c.vendor_id
    &&& n.product_id == c.product_id
    &&& n.battery_percentage == c.battery_percentage
    &&& n.icon == c.icon
    &&& n.class == c.class
    &&& n.appearance == c.appearance
    &&& n.service_uuids@ == c.service_uuids@.union_prefer_right(sel.service_uuids@)
    &&& n.manufacturer_data@ == c.manufacturer_data@.union_prefer_right(sel.manufacturer_data@)
    &&& n.service_data@ == c.service_data@.union_prefer_right(sel.service_data@)
    &&& n.rssi == match sel.rssi {
        Some(r) => Some(r),
        None => c.rssi,
    }
    &&& n.observed_at == crate::windows::later(c.observed_at, sel.observed_at)
}

/// Whether `after` is what correlation makes of the snapshots `before`,
/// listed in order as `es`: unless the target or the advertisement is
/// missing, every rotating advertisement leaves and the target gains the
/// data of the best-ranked one.
pub open spec fn correlated(
    es: Seq<(String, BluezDeviceSnapshot)>,
    before: Map<Seq<char>, BluezDeviceSnapshot>,
    after: Map<Seq<char>, BluezDeviceSnapshot>,
) -> bool {
    match (correlation_target(es), best_rotating(es)) {
        (Some(t), Some(b)) => {
            let kept = before.remove_keys(rotating_keys(es).to_set());
            &&& after.dom() == kept.dom()
            &&& forall|k: Seq<char>| #[trigger] kept.contains_key(k) && k != t ==> after[k] == kept[k]
            &&& kept.contains_key(t) ==> merged_snapshot(after[t], kept[t], es[b].1)
        },
        _ => after == before,
    }
}

/// The only device a rotating advertisement may be attributed to, if any.
pub fn unique_correlation_target(snapshots: &KeyedStore<BluezDeviceSnapshot>) -> (r: Option<String>)
    ensures
        opt_text(r) == correlation_target(snapshots.spec_entries()),
{
    let es = snapshots.entries();
    let mut paired: Vec<String> = Vec::new();
    let mut connected: Vec<String> = Vec::new();
    let mut i: usize = 0;
    while i < es.len()
        invariant
            i <= es@.len(),
            paired@.map_values(|k: String| k@) == candidate_keys(es@.take(i as int), true),
            connected@.map_values(|k: String| k@) == candidate_keys(es@.take(i as int), false),
        decreases es@.len() - i,
    {
        assert(es@.take(i + 1).drop_last() =~= es@.take(i as int));
        let ghost before_p = paired@;
        let ghost before_c = connected@;
        if is_paired_apple_audio_candidate(&es[i].1) {
            paired.push(es[i].0.clone());
            assert(paired@.map_values(|k: String| k@) =~= before_p.map_values(|k: String| k@).push(
                es@[i as int].0@,
            ));
        }
        if is_connected_audio_candidate(&es[i].1) {
            connected.push(es[i].0.clone());
            assert(connected@.map_values(|k: String| k@) =~= before_c.map_values(|k: String| k@).push(
                es@[i as int].0@,
            ));
        }
        i = i + 1;
    }
    assert(es@.take(es@.len() as int) =~= es@);
    if paired.len() == 1 {
        assert(paired@.map_values(|k: String| k@)[0] == paired@[0]@);
        return Some(paired[0].clone());
    }
    if paired.len() > 0 {
        return None;
    }
    if connected.len() == 1 {
        assert(connected@.map_values(|k: String| k@)[0] == connected@[0]@);
        Some(connected[0].clone())
    } else {
        None
    }
}

fn ranks(a: &BluezDeviceSnapshot, b: &BluezDeviceSnapshot) -> (r: bool)
    ensures
        r == ranks_at_least(*a, *b),
{
    let ra: i16 = match a.rssi {
        Some(r) => r,
        None => i16::MIN,
    };
    let rb: i16 = match b.rssi {
        Some(r) => r,
        None => i16::MIN,
    };
    ra > rb || (ra == rb && a.observed_at.unix_nanos >= b.observed_at.unix_nanos)
}

fn merge_into(candidate: &mut BluezDeviceSnapshot, selected: BluezDeviceSnapshot)
    ensures
        merged_snapshot(*final(candidate), *old(candidate), selected),
{
    let ghost sel = selected;
    let BluezDeviceSnapshot {
        address: _,
        alias: _,
        connected: _,
        paired: _,
        vendor_id: _,
        product_id: _,
        battery_percentage: _,
        icon: _,
        class: _,
        appearance: _,
        service_uuids,
        rssi,
        manufacturer_data,
        service_data,
        observed_at,
    } = selected;
    extend_companies(&mut candidate.manufacturer_data, manufacturer_data);
    candidate.service_data.extend(service_data);
    candidate.service_uuids.extend(service_uuids);
    candidate.rssi = match rssi {
        Some(r) => Some(r),
        None => candidate.rssi,
    };
    candidate.observed_at = candidate.observed_at.max(observed_at);
}

proof fn lemma_rotating_keys(es: Seq<(String, BluezDeviceSnapshot)>)
    requires
        sorted_keys(es),
    ensures
        forall|i: int|
            #![trigger rotating_keys(es)[i]]
            0 <= i < rotating_keys(es).len() ==> exists|j: int|
                0 <= j < es.len() && (#[trigger] es[j]).0@ == rotating_keys(es)[i] && rotating(
                    es[j].1,
                ),
        forall|j: int|
            0 <= j < es.len() && rotating((#[trigger] es[j]).1) ==> rotating_keys(es).contains(
                es[j].0@,
            ),
        forall|a: int, b: int|
            0 <= a < b < rotating_keys(es).len() ==> crate::text::text_order(
                #[trigger] rotating_keys(es)[a],
                #[trigger] rotating_keys(es)[b],
            ) < 0,
    decreases es.len(),
{
    if es.len() > 0 {
        let init = es.drop_last();
        assert(sorted_keys(init)) by {
            assert forall|a: int, b: int| 0 <= a < b < init.len() implies crate::text::text_order(
                (#[trigger] init[a]).0@,
                (#[trigger] init[b]).0@,
            ) < 0 by {
                assert(init[a] == es[a] && init[b] == es[b]);
            }
        }
        lemma_rotating_keys(init);
        let prev = rotating_keys(init);
        let rk = rotating_keys(es);
        let n = es.len() - 1;
        assert forall|i: int| #![trigger rk[i]] 0 <= i < rk.len() implies exists|j: int|
            0 <= j < es.len() && (#[trigger] es[j]).0@ == rk[i] && rotating(es[j].1) by {
            if i < prev.len() {
                let j = choose|j: int|
                    0 <= j < init.len() && (#[trigger] init[j]).0@ == prev[i] && rotating(init[j].1);
                assert(es[j] == init[j]);
            } else {
                assert(es[n].0@ == rk[i]);
            }
        }
        assert forall|j: int| 0 <= j < es.len() && rotating((#[trigger] es[j]).1) implies rk.contains(
            es[j].0@,
        ) by {
            if j < n {
                assert(init[j] == es[j]);
                let i = choose|i: int| 0 <= i < prev.len() && #[trigger] prev[i] == es[j].0@;
                assert(rk[i] == prev[i]);
            } else {
                assert(rk[rk.len() - 1] == es[n].0@);
            }
        }
        assert forall|a: int, b: int| 0 <= a < b < rk.len() implies crate::text::text_order(
            #[trigger] rk[a],
            #[trigger] rk[b],
        ) < 0 by {
            if b >= prev.len() {
                let j = choose|j: int|
                    0 <= j < init.len() && (#[trigger] init[j]).0@ == prev[a] && rotating(init[j].1);
                assert(es[j] == init[j]);
                assert(crate::text::text_order(es[j].0@, es[n].0@) < 0);
            } else {
                assert(rk[a] == prev[a] && rk[b] == prev[b]);
            }
        }
    }
}

proof fn lemma_best_rotating(es: Seq<(String, BluezDeviceSnapshot)>)
    ensures
        best_rotating(es) matches Some(b) ==> 0 <= b < es.len() && rotating(es[b].1),
    decreases es.len(),
{
    if es.len() > 0 {
        lemma_best_rotating(es.drop_last());
    }
}

/// Correlates a rotating Apple continuity advertisement with one unambiguous
/// paired Apple audio identity, falling back to one connected audio device.
/// Ambiguous sessions stay separate rather than assigning a nearby person's
/// battery to the wrong device.
pub fn correlate_airpods_advertisements(snapshots: &mut KeyedStore<BluezDeviceSnapshot>)
    ensures
        correlated(old(snapshots).spec_entries(), old(snapshots)@, final(snapshots)@),
{
    let ghost es0 = snapshots.spec_entries();
    let ghost before = snapshots@;
    let target = match unique_correlation_target(snapshots) {
        Some(t) => t,
        None => {
            return ;
        },
    };
    let es = snapshots.entries();
    proof {
        lemma_rotating_keys(es@);
        lemma_best_rotating(es@);
        crate::store::lemma_keyed_sorted(es@);
        crate::entries::lemma_sorted_unique(keyed(es@));
    }
    let mut keys: Vec<String> = Vec::new();
    let mut best: Option<usize> = None;
    let mut i: usize = 0;
    while i < es.len()
        invariant
            i <= es@.len(),
            keys@.map_values(|k: String| k@) == rotating_keys(es@.take(i as int)),
            match best {
                Some(b) => best_rotating(es@.take(i as int)) == Some(b as int) && b < i,
                None => best_rotating(es@.take(i as int)) is None,
            },
        decreases es@.len() - i,
    {
        assert(es@.take(i + 1).drop_last() =~= es@.take(i as int));
        assert(es@.take(i + 1)[i as int] == es@[i as int]);
        let s = &es[i].1;
        if !s.connected && !s.paired && has_airpods_payload(s) {
            let ghost prev = keys@;
            keys.push(es[i].0.clone());
            assert(keys@.map_values(|k: String| k@) =~= prev.map_values(|k: String| k@).push(
                es@[i as int].0@,
            ));
            let better = match best {
                Some(b) => {
                    assert(es@.take(i + 1)[b as int] == es@[b as int]);
                    ranks(s, &es[b].1)
                },
                None => true,
            };
            if better {
                best = Some(i);
            }
        }
        i = i + 1;
    }
    assert(es@.take(es@.len() as int) =~= es@);
    let b = match best {
        Some(b) => b,
        None => {
            return ;
        },
    };
    let selected_key = es[b].0.clone();
    let ghost rk = rotating_keys(es@);
    let ghost sel = es@[b as int].1;
    proof {
        crate::entries::lemma_map_at(keyed(es@), b as int);
        assert(keyed(es@)[b as int] == (es@[b as int].0@, es@[b as int].1));
        assert(rk.contains(selected_key@));
    }
    proof {
        assert forall|a: int| 0 <= a < rk.len() implies #[trigger] before.contains_key(rk[a]) by {
            let jj = choose|jj: int| 0 <= jj < es@.len() && (#[trigger] es@[jj]).0@ == rk[a] && rotating(es@[jj].1);
            assert(keyed(es@)[jj].0 == es@[jj].0@);
        }
    }
    let mut selected: Option<BluezDeviceSnapshot> = None;
    let mut j: usize = 0;
    assert(before.remove_keys(rk.take(0).to_set()) =~= before);
    while j < keys.len()
        invariant
            j <= keys@.len(),
            keys@.map_values(|k: String| k@) == rk,
            snapshots@ == before.remove_keys(rk.take(j as int).to_set()),
            forall|a: int, c: int| 0 <= a < c < rk.len() ==> crate::text::text_order(
                #[trigger] rk[a],
                #[trigger] rk[c],
            ) < 0,
            forall|a: int|
                0 <= a < rk.len() ==> #[trigger] before.contains_key(rk[a]),
            before.contains_key(selected_key@),
            before[selected_key@] == sel,
            rk.contains(selected_key@),
            match selected {
                Some(x) => x == sel && rk.take(j as int).contains(selected_key@),
                None => !rk.take(j as int).contains(selected_key@),
            },
        decreases keys@.len() - j,
    {
        let ghost kj = rk[j as int];
        assert(keys@[j as int]@ == kj);
        proof {
            assert(!rk.take(j as int).contains(kj)) by {
                if rk.take(j as int).contains(kj) {
                    let a = choose|a: int| 0 <= a < j && #[trigger] rk.take(j as int)[a] == kj;
                    assert(rk[a] == kj);
                    assert(crate::text::text_order(rk[a], rk[j as int]) < 0);
                    crate::text::lemma_text_order_equal(rk[a], rk[j as int]);
                }
            }
        }
        let removed = snapshots.remove(keys[j].as_str());
        proof {
            assert forall|x: Seq<char>| rk.take(j + 1).contains(x) <==> (rk.take(j as int).contains(x) || x == kj) by {
                if rk.take(j + 1).contains(x) {
                    let a = choose|a: int| 0 <= a < j + 1 && #[trigger] rk.take(j + 1)[a] == x;
                    if a < j {
                        assert(rk.take(j as int)[a] == x);
                    }
                }
                if rk.take(j as int).contains(x) {
                    let a = choose|a: int| 0 <= a < j && #[trigger] rk.take(j as int)[a] == x;
                    assert(rk.take(j + 1)[a] == x);
                }
                if x == kj {
                    assert(rk.take(j + 1)[j as int] == kj);
                }
            }
            assert(rk.take(j + 1).to_set() =~= rk.take(j as int).to_set().insert(kj));
            assert(snapshots@ =~= before.remove_keys(rk.take(j + 1).to_set()));
        }
        match removed {
            Some(x) => {
                if same_text(keys[j].as_str(), selected_key.as_str()) {
                    assert(x == sel);
                    assert(rk.take(j + 1)[j as int] == kj);
                    selected = Some(x);
                } else {
                    proof {
                        if rk.take(j + 1).contains(selected_key@) {
                            let a = choose|a: int| 0 <= a < j + 1 && #[trigger] rk.take(j + 1)[a] == selected_key@;
                            assert(rk.take(j as int)[a] == selected_key@);
                        }
                    }
                }
            },
            None => {
                assert(false);
            },
        }
        proof {
            if selected is Some && rk.take(j as int).contains(selected_key@) {
                let a = choose|a: int| 0 <= a < j && #[trigger] rk.take(j as int)[a] == selected_key@;
                assert(rk.take(j + 1)[a] == selected_key@);
            }
        }
        j = j + 1;
    }
    assert(rk.take(rk.len() as int) =~= rk);
    let selected = match selected {
        Some(x) => x,
        None => {
            assert(false);
            return ;
        },
    };
    let ghost kept = snapshots@;
    match snapshots.remove(target.as_str()) {
        Some(mut candidate) => {
            merge_into(&mut candidate, selected);
            snapshots.insert(target, candidate);
            assert(snapshots@.dom() =~= kept.dom());
        },
        None => {},
    }
}

/// Latest exact packet received from an active Apple accessory channel.
#[derive(Debug, Clone, PartialEq, Eq)]
pub struct AppleAccessoryPacket {
    /// Complete accessory packet, including header and opcode.
    pub payload: Vec<u8>,
    /// Time the packet was received from the socket.
    pub observed_at: Timestamp,
}

/// Snapshots by address; a later snapshot of an address replaces an earlier one.
pub open spec fn indexed(values: Seq<BluezDeviceSnapshot>) -> Map<Seq<char>, BluezDeviceSnapshot>
    decreases values.len(),
{
    if values.len() == 0 {
        Map::empty()
    } else {
        indexed(values.drop_last()).insert(values.last().address@, values.last())
    }
}

/// Indexes snapshots by address.
pub fn index_snapshots(values: Vec<BluezDeviceSnapshot>) -> (r: KeyedStore<BluezDeviceSnapshot>)
    ensures
        r@ == indexed(values@),
{
    let ghost all = values@;
    let mut store: KeyedStore<BluezDeviceSnapshot> = KeyedStore::new();
    let mut pending = values;
    let ghost mut k: int = 0;
    while pending.len() > 0
        invariant
            0 <= k <= all.len(),
            pending@ == all.skip(k),
            store@ == indexed(all.take(k)),
        decreases pending@.len(),
    {
        let s = pending.remove(0);
        assert(s == all[k]);
        assert(all.take(k + 1).drop_last() =~= all.take(k));
        let key = s.address.clone();
        store.insert(key, s);
        proof {
            k = k + 1;
        }
        assert(pending@ =~= all.skip(k));
    }
    assert(all.take(all.len() as int) =~= all);
    store
}

/// Addresses of connected paired Apple audio identities, whose exact
/// accessory packets are worth reading, in order.
pub open spec fn packet_targets(es: Seq<(String, BluezDeviceSnapshot)>) -> Seq<Seq<char>>
    decreases es.len(),
{
    if es.len() == 0 {
        Seq::empty()
    } else {
        let prev = packet_targets(es.drop_last());
        let s = es.last().1;
        if s.connected && paired_apple_audio(s) {
            prev.push(s.address@)
        } else {
            prev
        }
    }
}

/// Addresses of connected paired Apple audio identities, in identifier order.
pub fn exact_packet_addresses(snapshots: &KeyedStore<BluezDeviceSnapshot>) -> (r: Vec<String>)
    ensures
        r@.map_values(|a: String| a@) == packet_targets(snapshots.spec_entries()),
{
    let es = snapshots.entries();
    let mut out: Vec<String> = Vec::new();
    let mut i: usize = 0;
    while i < es.len()
        invariant
            i <= es@.len(),
            out@.map_values(|a: String| a@) == packet_targets(es@.take(i as int)),
        decreases es@.len() - i,
    {
        assert(es@.take(i + 1).drop_last() =~= es@.take(i as int));
        let s = &es[i].1;
        if s.connected && is_paired_apple_audio_candidate(s) {
            let ghost prev = out@;
            out.push(s.address.clone());
            assert(out@.map_values(|a: String| a@) =~= prev.map_values(|a: String| a@).push(
                s.address@,
            ));
        }
        i = i + 1;
    }
    assert(es@.take(es@.len() as int) =~= es@);
    out
}

/// The observations of the snapshots in order, each followed by the exact
/// accessory packet read for its address, if any.
pub open spec fn collected_observations(
    es: Seq<(String, BluezDeviceSnapshot)>,
    packets: Map<Seq<char>, AppleAccessoryPacket>,
) -> Seq<ObservationView>
    decreases es.len(),
{
    if es.len() == 0 {
        Seq::empty()
    } else {
        let s = es.last().1;
        collected_observations(es.drop_last(), packets) + snapshot_observations(s) + if packets.contains_key(
            s.address@,
        ) {
            seq![
                ObservationView::VendorPacket {
                    device_id: s.address@,
                    protocol: crate::provider::VendorProtocol::AppleAccessory,
                    payload: packets[s.address@].payload@,
                    observed_at: packets[s.address@].observed_at,
                },
            ]
        } else {
            Seq::empty()
        }
    }
}

/// Descriptors and observations of indexed snapshots with the exact packets
/// read for them: one descriptor per snapshot in identifier order, and each
/// snapshot's observations followed by its packet.
pub fn collect_snapshots(
    snapshots: &KeyedStore<BluezDeviceSnapshot>,
    packets: &KeyedStore<AppleAccessoryPacket>,
) -> (r: (Vec<DeviceDescriptor>, Vec<RawObservation>))
    ensures
        r.0@.len() == snapshots.spec_entries().len(),
        forall|i: int|
            0 <= i < r.0@.len() ==> describes_snapshot(
                #[trigger] r.0@[i],
                snapshots.spec_entries()[i].1,
            ),
        r.1@.map_values(|o: RawObservation| observation_view(o)) == collected_observations(
            snapshots.spec_entries(),
            packets@,
        ),
{
    let es = snapshots.entries();
    let mut descriptors: Vec<DeviceDescriptor> = Vec::new();
    let mut observations: Vec<RawObservation> = Vec::new();
    let mut i: usize = 0;
    while i < es.len()
        invariant
            i <= es@.len(),
            es@ == snapshots.spec_entries(),
            descriptors@.len() == i,
            forall|j: int| 0 <= j < i ==> describes_snapshot(#[trigger] descriptors@[j], es@[j].1),
            observations@.map_values(|o: RawObservation| observation_view(o))
                == collected_observations(es@.take(i as int), packets@),
        decreases es@.len() - i,
    {
        let s = &es[i].1;
        assert(es@.take(i + 1).drop_last() =~= es@.take(i as int));
        assert(es@.take(i + 1).last() == es@[i as int]);
        descriptors.push(descriptor(s));
        let ghost before = observations@;
        let mut mapped = map_bluez_snapshot(s);
        let ghost mv = mapped@;
        observations.append(&mut mapped);
        assert(observations@ =~= before + mv);
        assert(observations@.map_values(|o: RawObservation| observation_view(o)) =~= before.map_values(
            |o: RawObservation| observation_view(o),
        ) + mv.map_values(|o: RawObservation| observation_view(o)));
        let ghost mid = observations@;
        match packets.get(s.address.as_str()) {
            Some(packet) => {
                let payload = packet.payload.clone();
                assert(payload@ =~= packet.payload@);
                let obs = RawObservation::VendorPacket {
                    device_id: s.address.clone(),
                    protocol: crate::provider::VendorProtocol::AppleAccessory,
                    payload,
                    observed_at: packet.observed_at,
                };
                observations.push(obs);
                assert(observations@.map_values(|o: RawObservation| observation_view(o)) =~= mid.map_values(
                    |o: RawObservation| observation_view(o),
                ).push(observation_view(obs)));
            },
            None => {},
        }
        i = i + 1;
    }
    assert(es@.take(es@.len() as int) =~= es@);
    (descriptors, observations)
}

/// Whether some text of `list` equals `k`.
pub open spec fn listed(list: Seq<String>, k: Seq<char>) -> bool {
    exists|a: int| 0 <= a < list.len() && (#[trigger] list[a])@ == k
}

/// Whether `k` is among the first `j` candidate keys, connected and without
/// a running monitor.
pub open spec fn chosen_before(
    es: Seq<(String, ())>,
    j: int,
    keep: Set<Seq<char>>,
    run: Seq<Seq<char>>,
    k: Seq<char>,
) -> bool {
    exists|m: int| 0 <= m < j && (#[trigger] es[m]).0@ == k && keep.contains(k) && !run.contains(k)
}

/// The monitor keys of a list of addresses.
pub open spec fn address_keys(addresses: Seq<String>) -> Set<Seq<char>> {
    Set::new(|k: Seq<char>| exists|i: int| 0 <= i < addresses.len() && address_key((#[trigger] addresses[i])@) == k)
}

fn key_set_of(addresses: &[String]) -> (r: KeyedStore<()>)
    ensures
        r@.dom() == address_keys(addresses@),
{
    let mut set: KeyedStore<()> = KeyedStore::new();
    let mut i: usize = 0;
    while i < addresses.len()
        invariant
            i <= addresses@.len(),
            set@.dom() == address_keys(addresses@.take(i as int)),
        decreases addresses@.len() - i,
    {
        let key = normalized_address(addresses[i].as_str());
        let ghost k = key@;
        set.insert(key, ());
        proof {
            assert forall|x: Seq<char>| #[trigger] set@.dom().contains(x) <==> address_keys(addresses@.take(i + 1)).contains(x) by {
                if address_keys(addresses@.take(i as int)).contains(x) {
                    let j = choose|j: int| 0 <= j < i && address_key((#[trigger] addresses@.take(i as int)[j])@) == x;
                    assert(addresses@.take(i + 1)[j] == addresses@.take(i as int)[j]);
                }
                if x == k {
                    assert(addresses@.take(i + 1)[i as int] == addresses@[i as int]);
                }
                if address_keys(addresses@.take(i + 1)).contains(x) {
                    let j = choose|j: int| 0 <= j < i + 1 && address_key((#[trigger] addresses@.take(i + 1)[j])@) == x;
                    if j < i {
                        assert(addresses@.take(i as int)[j] == addresses@.take(i + 1)[j]);
                    }
                }
            }
            assert(set@.dom() =~= address_keys(addresses@.take(i + 1)));
        }
        i = i + 1;
    }
    assert(addresses@.take(addresses@.len() as int) =~= addresses@);
    set
}

/// Monitors to stop and to start so that exactly the connected candidate
/// addresses are monitored: running monitors whose address is no longer
/// connected stop, in their order; connected candidates without a monitor
/// start, in address order. Addresses compare trimmed and in upper case.
pub fn monitor_changes(running: &[String], connected: &[String], candidates: &[String]) -> (r: (
    Vec<String>,
    Vec<String>,
))
    ensures
        r.0@.map_values(|k: String| k@) == running@.map_values(|k: String| k@).filter(
            |k: Seq<char>| !address_keys(connected@).contains(k),
        ),
        forall|i: int, j: int|
            0 <= i < j < r.1@.len() ==> crate::text::text_order(
                (#[trigger] r.1@[i])@,
                (#[trigger] r.1@[j])@,
            ) < 0,
        forall|k: Seq<char>|
            #[trigger] listed(r.1@, k) <==> (address_keys(candidates@).contains(k) && address_keys(
                connected@,
            ).contains(k) && !running@.map_values(|x: String| x@).contains(k)),
{
    let connected_keys = key_set_of(connected);
    let candidate_keys = key_set_of(candidates);
    let ghost run = running@.map_values(|k: String| k@);
    let ghost keep = address_keys(connected@);
    let mut stop: Vec<String> = Vec::new();
    let mut i: usize = 0;
    proof {
        reveal(Seq::filter);
    }
    assert(run.take(0).filter(|k: Seq<char>| !keep.contains(k)) =~= Seq::<Seq<char>>::empty());
    while i < running.len()
        invariant
            i <= running@.len(),
            run == running@.map_values(|k: String| k@),
            connected_keys@.dom() == keep,
            stop@.map_values(|k: String| k@) == run.take(i as int).filter(|k: Seq<char>| !keep.contains(k)),
        decreases running@.len() - i,
    {
        proof {
            reveal(Seq::filter);
        }
        assert(run.take(i + 1).drop_last() =~= run.take(i as int));
        assert(run.take(i + 1).last() == running@[i as int]@);
        let ghost prev = stop@;
        match connected_keys.get(running[i].as_str()) {
            Some(_) => {},
            None => {
                stop.push(running[i].clone());
                assert(stop@.map_values(|k: String| k@) =~= prev.map_values(|k: String| k@).push(
                    running@[i as int]@,
                ));
            },
        }
        i = i + 1;
    }
    assert(run.take(run.len() as int) =~= run);
    let es = candidate_keys.entries();
    let mut start: Vec<String> = Vec::new();
    let mut j: usize = 0;
    proof {
        crate::store::lemma_keyed_sorted(es@);
    }
    while j < es.len()
        invariant
            j <= es@.len(),
            sorted_keys(es@),
            entries_map(keyed(es@)) == candidate_keys@,
            candidate_keys@.dom() == address_keys(candidates@),
            connected_keys@.dom() == keep,
            run == running@.map_values(|k: String| k@),
            forall|a: int, b: int|
                0 <= a < b < start@.len() ==> crate::text::text_order(
                    (#[trigger] start@[a])@,
                    (#[trigger] start@[b])@,
                ) < 0,
            forall|a: int, m: int|
                0 <= a < start@.len() && j <= m < es@.len() ==> crate::text::text_order(
                    (#[trigger] start@[a])@,
                    (#[trigger] es@[m]).0@,
                ) < 0,
            forall|k: Seq<char>|
                #[trigger] listed(start@, k) <==> chosen_before(es@, j as int, keep, run, k),
        decreases es@.len() - j,
    {
        let key = &es[j].0;
        let in_connected = match connected_keys.get(key.as_str()) {
            Some(_) => true,
            None => false,
        };
        let in_running = crate::entries::list_contains(running, key.as_str());
        assert(in_running == run.contains(key@)) by {
            if in_running {
                let a = choose|a: int| 0 <= a < running@.len() && (#[trigger] running@[a])@ == key@;
                assert(run[a] == key@);
            }
            if run.contains(key@) {
                let a = choose|a: int| 0 <= a < run.len() && run[a] == key@;
                assert(running@[a]@ == key@);
            }
        }
        assert(in_connected == keep.contains(key@));
        let ghost old_start = start@;
        if in_connected && !in_running {
            start.push(key.clone());
        }
        proof {
            assert forall|a: int, m: int|
                0 <= a < start@.len() && j + 1 <= m < es@.len() implies crate::text::text_order(
                    (#[trigger] start@[a])@,
                    (#[trigger] es@[m]).0@,
                ) < 0 by {
                assert(crate::text::text_order(es@[j as int].0@, es@[m].0@) < 0);
                if a < old_start.len() {
                    assert(start@[a] == old_start[a]);
                    crate::text::lemma_text_order_transitive(start@[a]@, es@[j as int].0@, es@[m].0@);
                }
            }
            assert forall|k: Seq<char>|
                #[trigger] listed(start@, k) <==> chosen_before(es@, j + 1, keep, run, k) by {
                if chosen_before(es@, j + 1, keep, run, k) {
                    let m = choose|m: int| 0 <= m < j + 1 && (#[trigger] es@[m]).0@ == k && keep.contains(k) && !run.contains(k);
                    if m < j {
                        assert(chosen_before(es@, j as int, keep, run, k));
                        assert(listed(old_start, k));
                        let a = choose|a: int| 0 <= a < old_start.len() && (#[trigger] old_start[a])@ == k;
                        assert(start@[a] == old_start[a]);
                    } else {
                        assert(start@[start@.len() - 1]@ == k);
                    }
                }
                if listed(start@, k) {
                    let a = choose|a: int| 0 <= a < start@.len() && (#[trigger] start@[a])@ == k;
                    if a < old_start.len() {
                        assert(old_start[a] == start@[a]);
                        assert(listed(old_start, k));
                        let m = choose|m: int| 0 <= m < j && (#[trigger] es@[m]).0@ == k && keep.contains(k) && !run.contains(k);
                        assert(es@[m].0@ == k);
                    } else {
                        assert(es@[j as int].0@ == k);
                    }
                }
            }
        }
        j = j + 1;
    }
    proof {
        let ks = keyed(es@);
        assert forall|k: Seq<char>|
            #[trigger] listed(start@, k) <==> (address_keys(candidates@).contains(k) && keep.contains(k)
                && !run.contains(k)) by {
            if address_keys(candidates@).contains(k) && keep.contains(k) && !run.contains(k) {
                assert(candidate_keys@.contains_key(k));
                let m = choose|m: int| 0 <= m < ks.len() && (#[trigger] ks[m]).0 == k;
                assert(es@[m].0@ == k);
                assert(chosen_before(es@, j as int, keep, run, k));
            }
            if listed(start@, k) {
                let m = choose|m: int| 0 <= m < j && (#[trigger] es@[m]).0@ == k && keep.contains(k) && !run.contains(k);
                assert(ks[m].0 == k);
                assert(candidate_keys@.contains_key(k));
            }
        }
    }
    (stop, start)
}

/// Device properties as `BlueZ` reports them, before they are keyed.
#[derive(Debug)]
pub struct BluezProperties {
    /// Bluetooth address.
    pub address: String,
    /// Device alias or name.
    pub alias: Option<String>,
    /// Current connection state.
    pub connected: bool,
    /// Whether the device is paired.
    pub paired: bool,
    /// Vendor and product ids of the Device ID modalias, when readable.
    pub modalias: Option<(u32, u32)>,
    /// `org.bluez.Battery1.Percentage` when exposed.
    pub battery_percentage: Option<u8>,
    /// Icon/category hint.
    pub icon: Option<String>,
    /// Class of Device.
    pub class: Option<u32>,
    /// Appearance value.
    pub appearance: Option<u16>,
    /// Service UUIDs as text.
    pub service_uuids: Vec<String>,
    /// Most recent RSSI value.
    pub rssi: Option<i16>,
    /// Manufacturer payloads with their company ids.
    pub manufacturer_data: Vec<(u16, Vec<u8>)>,
    /// Service payloads with their service UUIDs as text.
    pub service_data: Vec<(String, Vec<u8>)>,
    /// When the properties were read.
    pub observed_at: Timestamp,
}

/// The lower-case forms of `us`, as keys.
pub open spec fn lowered_keys(us: Seq<String>) -> Map<Seq<char>, ()>
    decreases us.len(),
{
    if us.len() == 0 {
        Map::empty()
    } else {
        lowered_keys(us.drop_last()).insert(seq_ascii_lower(us.last()@), ())
    }
}

/// Payloads keyed by company id, a later pair replacing an earlier one.
pub open spec fn company_payloads(es: Seq<(u16, Vec<u8>)>) -> Map<u16, Vec<u8>>
    decreases es.len(),
{
    if es.len() == 0 {
        Map::empty()
    } else {
        company_payloads(es.drop_last()).insert(es.last().0, es.last().1)
    }
}

/// Payloads keyed by the lower-case form of their UUID, a later pair
/// replacing an earlier one.
pub open spec fn lowered_payloads(es: Seq<(String, Vec<u8>)>) -> Map<Seq<char>, Vec<u8>>
    decreases es.len(),
{
    if es.len() == 0 {
        Map::empty()
    } else {
        lowered_payloads(es.drop_last()).insert(seq_ascii_lower(es.last().0@), es.last().1)
    }
}

impl BluezDeviceSnapshot {
    /// Keys the properties of one device: UUIDs in lower case, payloads by
    /// company id and by lower-case UUID, and the modalias split into vendor
    /// and product ids.
    pub fn from_properties(p: BluezProperties) -> (r: BluezDeviceSnapshot)
        ensures
            r.address == p.address,
            r.alias == p.alias,
            r.connected == p.connected,
            r.paired == p.paired,
            r.vendor_id == match p.modalias {
                Some(m) => Some(m.0),
                None => None::<u32>,
            },
            r.product_id == match p.modalias {
                Some(m) => Some(m.1),
                None => None::<u32>,
            },
            r.battery_percentage == p.battery_percentage,
            r.icon == p.icon,
            r.class == p.class,
            r.appearance == p.appearance,
            r.service_uuids@ == lowered_keys(p.service_uuids@),
            r.rssi == p.rssi,
            r.manufacturer_data@ == company_payloads(p.manufacturer_data@),
            r.service_data@ == lowered_payloads(p.service_data@),
            r.observed_at == p.observed_at,
    {
        let BluezProperties {
            address,
            alias,
            connected,
            paired,
            modalias,
            battery_percentage,
            icon,
            class,
            appearance,
            service_uuids: uuid_list,
            rssi,
            manufacturer_data: manufacturer_list,
            service_data: service_list,
            observed_at,
        } = p;
        let mut service_uuids: KeyedStore<()> = KeyedStore::new();
        let mut i: usize = 0;
        while i < uuid_list.len()
            invariant
                i <= uuid_list@.len(),
                service_uuids@ == lowered_keys(uuid_list@.take(i as int)),
            decreases uuid_list@.len() - i,
        {
            let lowered = ascii_lower_string(uuid_list[i].as_str());
            service_uuids.insert(lowered, ());
            assert(uuid_list@.take(i + 1).drop_last() =~= uuid_list@.take(i as int));
            i = i + 1;
        }
        assert(uuid_list@.take(uuid_list@.len() as int) =~= uuid_list@);
        let ghost all_m = manufacturer_list@;
        let mut rest_m = manufacturer_list;
        let mut manufacturer_data: BTreeMap<u16, Vec<u8>> = BTreeMap::new();
        let ghost mut k: int = 0;
        while rest_m.len() > 0
            invariant
                0 <= k <= all_m.len(),
                rest_m@ == all_m.skip(k),
                manufacturer_data@ == company_payloads(all_m.take(k)),
            decreases rest_m@.len(),
        {
            let (company, payload) = rest_m.remove(0);
            proof {
                assert(all_m.take(k + 1).drop_last() =~= all_m.take(k));
                assert(all_m[k] == (company, payload));
            }
            insert_company(&mut manufacturer_data, company, payload);
            proof {
                k = k + 1;
                assert(rest_m@ =~= all_m.skip(k));
            }
        }
        assert(all_m.take(k) =~= all_m);
        let ghost all_s = service_list@;
        let mut rest_s = service_list;
        let mut service_data: KeyedStore<Vec<u8>> = KeyedStore::new();
        let ghost mut n: int = 0;
        while rest_s.len() > 0
            invariant
                0 <= n <= all_s.len(),
                rest_s@ == all_s.skip(n),
                service_data@ == lowered_payloads(all_s.take(n)),
            decreases rest_s@.len(),
        {
            let (uuid, payload) = rest_s.remove(0);
            proof {
                assert(all_s.take(n + 1).drop_last() =~= all_s.take(n));
                assert(all_s[n] == (uuid, payload));
            }
            let lowered = ascii_lower_string(uuid.as_str());
            service_data.insert(lowered, payload);
            proof {
                n = n + 1;
                assert(rest_s@ =~= all_s.skip(n));
            }
        }
        assert(all_s.take(n) =~= all_s);
        let (vendor_id, product_id) = match modalias {
            Some(m) => (Some(m.0), Some(m.1)),
            None => (None, None),
        };
        BluezDeviceSnapshot {
            address,
            alias,
            connected,
            paired,
            vendor_id,
            product_id,
            battery_percentage,
            icon,
            class,
            appearance,
            service_uuids,
            rssi,
            manufacturer_data,
            service_data,
            observed_at,
        }
    }
}

} // verus!
