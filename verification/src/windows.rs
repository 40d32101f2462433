//! Target-independent Windows Bluetooth observation mapping.

use vstd::prelude::*;

use crate::airpods::{
    is_proximity_pairing, parse_proximity_pairing, APPLE_MANUFACTURER_ID, PROXIMITY_PAYLOAD_LENGTH,
};
use crate::device::{ConnectionState, DeviceFamily, Transport};
use crate::diagnostics::{sanitize_identifier, sanitized};
use crate::engine::{opt_text, DeviceDescriptor};
use crate::provider::{observation_view, ObservationView, RawObservation};
use crate::airpods::{model_label, model_of_nibble, nibble_of, AirPodsModel};
use crate::diagnostics::hex_digit;
use crate::text::text_order;
use crate::text::{
    ascii_lower_chars, contains_chars, push_char, seq_ascii_lower, seq_contains,
    seq_starts_with, starts_with_chars, trim_seq, trim_text,
};
use crate::store::KeyedStore;
use crate::text::{ascii_lower_string, same_text};
use crate::timestamp::Timestamp;

verus! {

/// Paired or operating-system-known Windows BLE device.
#[derive(Debug, Clone, PartialEq, Eq)]
pub struct WindowsKnownDevice {
    /// Windows Runtime device identifier.
    pub backend_id: String,
    /// Bluetooth address used to merge advertisements.
    pub address: Option<u64>,
    /// User-visible operating-system name.
    pub display_name: String,
    /// Current connection state.
    pub connection_state: ConnectionState,
    /// Standard Battery Service value when exposed.
    pub standard_battery: Option<u8>,
    /// Observation time.
    pub observed_at: Timestamp,
}

/// One BLE advertisement received by the Windows watcher.
#[derive(Debug, Clone, PartialEq, Eq)]
pub struct WindowsAdvertisement {
    /// Bluetooth address reported by the watcher.
    pub address: u64,
    /// Advertisement local name when present.
    pub local_name: Option<String>,
    /// Company identifier and manufacturer payload pairs.
    pub manufacturer_data: Vec<(u16, Vec<u8>)>,
    /// Advertised service UUIDs.
    pub service_uuids: Vec<String>,
    /// Received signal strength.
    pub rssi: Option<i16>,
    /// Observation time.
    pub observed_at: Timestamp,
}

/// Hexadecimal digits of `n`, most significant first, without leading zeros.
pub open spec fn hex_text(n: nat) -> Seq<char>
    decreases n,
{
    if n < 16 {
        seq![hex_digit(n as int)]
    } else {
        hex_text(n / 16).push(hex_digit((n % 16) as int))
    }
}

/// `s` preceded by zeros up to `width` characters.
pub open spec fn zero_padded(s: Seq<char>, width: nat) -> Seq<char> {
    if s.len() < width {
        Seq::new((width - s.len()) as nat, |i: int| '0') + s
    } else {
        s
    }
}

/// The backend identifier of an advertisement address without a known
/// device: `ble:` and at least twelve lower-case hexadecimal digits.
pub open spec fn ble_backend_id(address: u64) -> Seq<char> {
    "ble:"@ + zero_padded(hex_text(address as nat), 12)
}

fn hex_char(d: u64) -> (r: char)
    requires
        d < 16,
    ensures
        r == hex_digit(d as int),
{
    let b: u8 = d as u8;
    if b < 10 {
        (48u8 + b) as char
    } else {
        (87u8 + b) as char
    }
}

pub(crate) fn push_hex(out: &mut Vec<char>, n: u64)
    ensures
        final(out)@ == old(out)@ + hex_text(n as nat),
    decreases n,
{
    if n >= 16 {
        push_hex(out, n / 16);
    }
    out.push(hex_char(n % 16));
    assert(hex_text(n as nat) =~= if n < 16 {
        seq![hex_digit(n as int)]
    } else {
        hex_text((n / 16) as nat).push(hex_digit((n % 16) as int))
    });
}

pub fn advertisement_backend_id(address: u64) -> (r: String)
    ensures
        r@ == ble_backend_id(address),
{
    let mut digits: Vec<char> = Vec::new();
    push_hex(&mut digits, address);
    assert(digits@ =~= hex_text(address as nat));
    let mut r = String::new();
    push_char(&mut r, 'b');
    push_char(&mut r, 'l');
    push_char(&mut r, 'e');
    push_char(&mut r, ':');
    proof {
        reveal_strlit("ble:");
    }
    let ghost prefix = r@;
    assert(prefix == "ble:"@);
    let mut pad: usize = 0;
    if digits.len() < 12 {
        pad = 12 - digits.len();
    }
    let mut k: usize = 0;
    while k < pad
        invariant
            k <= pad,
            r@ == prefix + Seq::new(k as nat, |i: int| '0'),
        decreases pad - k,
    {
        push_char(&mut r, '0');
        assert(Seq::new((k + 1) as nat, |i: int| '0') =~= Seq::new(k as nat, |i: int| '0').push('0'));
        k = k + 1;
    }
    let ghost padded = r@;
    let mut j: usize = 0;
    while j < digits.len()
        invariant
            j <= digits@.len(),
            r@ == padded + digits@.take(j as int),
        decreases digits@.len() - j,
    {
        push_char(&mut r, digits[j]);
        assert(digits@.take(j + 1) =~= digits@.take(j as int).push(digits@[j as int]));
        j = j + 1;
    }
    assert(digits@.take(digits@.len() as int) =~= digits@);
    assert(r@ =~= ble_backend_id(address));
    r
}

/// A name's text without surrounding white space, when that is not empty.
pub open spec fn trimmed_name(value: Option<Seq<char>>) -> Option<Seq<char>> {
    match value {
        Some(v) => if trim_seq(v).len() > 0 {
            Some(trim_seq(v))
        } else {
            None
        },
        None => None,
    }
}

/// The text of an optional string slice.
pub open spec fn opt_str_text(value: Option<&str>) -> Option<Seq<char>> {
    match value {
        Some(v) => Some(v@),
        None => None,
    }
}

/// The text of an optional string.
pub open spec fn opt_string_text(value: Option<String>) -> Option<Seq<char>> {
    match value {
        Some(v) => Some(v@),
        None => None,
    }
}

fn nonempty_name(value: Option<&str>) -> (r: Option<String>)
    ensures
        opt_string_text(r) == trimmed_name(opt_str_text(value)),
{
    match value {
        Some(v) => {
            let t = trim_text(v);
            if t.as_str().is_empty() {
                None
            } else {
                Some(t)
            }
        },
        None => None,
    }
}

/// The family that a device name suggests, from its ASCII lower-case form.
pub open spec fn family_hint_of(name: Seq<char>) -> DeviceFamily {
    let n = seq_ascii_lower(name);
    if seq_contains(n, "buds"@) || seq_contains(n, "earbud"@) || seq_contains(n, "tws"@)
        || seq_contains(n, "liberty"@) {
        DeviceFamily::Earbuds
    } else if seq_contains(n, "speaker"@) || seq_contains(n, "jbl charge"@) {
        DeviceFamily::Speaker
    } else if seq_contains(n, "mouse"@) || seq_contains(n, "mx master"@) {
        DeviceFamily::Mouse
    } else if seq_contains(n, "keyboard"@) || seq_contains(n, "keychron"@) {
        DeviceFamily::Keyboard
    } else if seq_contains(n, "controller"@) || seq_contains(n, "gamepad"@) || seq_contains(
        n,
        "joystick"@,
    ) {
        DeviceFamily::GameController
    } else if seq_contains(n, "stylus"@) || seq_contains(n, "pencil"@) {
        DeviceFamily::Stylus
    } else if seq_contains(n, "headset"@) || seq_contains(n, "headphone"@) || seq_starts_with(
        n,
        "wh-"@,
    ) {
        DeviceFamily::Headset
    } else {
        DeviceFamily::GenericBle
    }
}

fn family_hint(name: &str) -> (r: DeviceFamily)
    ensures
        r == family_hint_of(name@),
{
    let n = ascii_lower_chars(name);
    if contains_chars(&n, "buds") || contains_chars(&n, "earbud") || contains_chars(&n, "tws")
        || contains_chars(&n, "liberty") {
        DeviceFamily::Earbuds
    } else if contains_chars(&n, "speaker") || contains_chars(&n, "jbl charge") {
        DeviceFamily::Speaker
    } else if contains_chars(&n, "mouse") || contains_chars(&n, "mx master") {
        DeviceFamily::Mouse
    } else if contains_chars(&n, "keyboard") || contains_chars(&n, "keychron") {
        DeviceFamily::Keyboard
    } else if contains_chars(&n, "controller") || contains_chars(&n, "gamepad") || contains_chars(
        &n,
        "joystick",
    ) {
        DeviceFamily::GameController
    } else if contains_chars(&n, "stylus") || contains_chars(&n, "pencil") {
        DeviceFamily::Stylus
    } else if contains_chars(&n, "headset") || contains_chars(&n, "headphone")
        || starts_with_chars(&n, "wh-") {
        DeviceFamily::Headset
    } else {
        DeviceFamily::GenericBle
    }
}

/// Whether a manufacturer payload is a complete proximity-pairing message.
pub open spec fn is_airpods_payload(payload: Seq<u8>) -> bool {
    is_proximity_pairing(payload) && payload.len() >= PROXIMITY_PAYLOAD_LENGTH
}

/// Whether an advertisement carries a complete Apple proximity-pairing payload.
pub open spec fn is_airpods_ad(ad: WindowsAdvertisement) -> bool {
    exists|i: int|
        0 <= i < ad.manufacturer_data@.len() && (#[trigger] ad.manufacturer_data@[i]).0
            == APPLE_MANUFACTURER_ID && is_airpods_payload(ad.manufacturer_data@[i].1@)
}

fn is_airpods_advertisement(ad: &WindowsAdvertisement) -> (r: bool)
    ensures
        r == is_airpods_ad(*ad),
{
    let mut i: usize = 0;
    while i < ad.manufacturer_data.len()
        invariant
            i <= ad.manufacturer_data@.len(),
            forall|j: int|
                0 <= j < i ==> !((#[trigger] ad.manufacturer_data@[j]).0 == APPLE_MANUFACTURER_ID
                    && is_airpods_payload(ad.manufacturer_data@[j].1@)),
        decreases ad.manufacturer_data@.len() - i,
    {
        let entry = &ad.manufacturer_data[i];
        if entry.0 == APPLE_MANUFACTURER_ID {
            match parse_proximity_pairing(entry.1.as_slice()) {
                Ok(Some(_)) => {
                    return true;
                },
                _ => {},
            }
        }
        i = i + 1;
    }
    false
}

/// Advertisement addresses mapped to backend identifiers, each address once.
struct AddressBook {
    pairs: Vec<(u64, String)>,
}

impl AddressBook {
    #[verifier::type_invariant]
    spec fn wf(&self) -> bool {
        forall|i: int, j: int|
            0 <= i < self.pairs@.len() && 0 <= j < self.pairs@.len() && i != j ==> (
            #[trigger] self.pairs@[i]).0 != (#[trigger] self.pairs@[j]).0
    }

    spec fn view(&self) -> Map<u64, Seq<char>> {
        Map::new(
            |a: u64| exists|i: int| 0 <= i < self.pairs@.len() && (#[trigger] self.pairs@[i]).0 == a,
            |a: u64|
                self.pairs@[choose|i: int|
                    0 <= i < self.pairs@.len() && (#[trigger] self.pairs@[i]).0 == a].1@,
        )
    }

    fn new() -> (r: AddressBook)
        ensures
            r@ == Map::<u64, Seq<char>>::empty(),
    {
        let r = AddressBook { pairs: Vec::new() };
        assert(r@ =~= Map::<u64, Seq<char>>::empty());
        r
    }

    fn find(&self, address: u64) -> (r: Option<usize>)
        ensures
            match r {
                Some(i) => i < self.pairs@.len() && self.pairs@[i as int].0 == address,
                None => forall|i: int|
                    0 <= i < self.pairs@.len() ==> (#[trigger] self.pairs@[i]).0 != address,
            },
    {
        let mut i: usize = 0;
        while i < self.pairs.len()
            invariant
                i <= self.pairs@.len(),
                forall|j: int| 0 <= j < i ==> (#[trigger] self.pairs@[j]).0 != address,
            decreases self.pairs@.len() - i,
        {
            if self.pairs[i].0 == address {
                return Some(i);
            }
            i = i + 1;
        }
        None
    }

    fn get(&self, address: u64) -> (r: Option<&String>)
        ensures
            match r {
                Some(k) => self@.contains_key(address) && self@[address] == k@,
                None => !self@.contains_key(address),
            },
    {
        proof {
            use_type_invariant(self);
        }
        match self.find(address) {
            Some(i) => {
                assert(self@.contains_key(address));
                let ghost j = choose|j: int|
                    0 <= j < self.pairs@.len() && (#[trigger] self.pairs@[j]).0 == address;
                assert(j == i);
                Some(&self.pairs[i].1)
            },
            None => None,
        }
    }

    fn insert(&mut self, address: u64, key: String)
        ensures
            final(self)@ == old(self)@.insert(address, key@),
    {
        proof {
            use_type_invariant(&*self);
        }
        let ghost old_view = self@;
        let ghost old_pairs = self.pairs@;
        let ghost k = key@;
        match self.find(address) {
            Some(i) => {
                let mut pairs: Vec<(u64, String)> = Vec::new();
                std::mem::swap(&mut pairs, &mut self.pairs);
                pairs.set(i, (address, key));
                self.pairs = pairs;
                proof {
                    assert forall|a: u64| #[trigger] self@.contains_key(a) <==> old_view.insert(address, k).contains_key(a) by {
                        if a != address && old_view.contains_key(a) {
                            let j = choose|j: int| 0 <= j < old_pairs.len() && (#[trigger] old_pairs[j]).0 == a;
                            assert(self.pairs@[j].0 == a);
                        }
                        if a == address {
                            assert(self.pairs@[i as int].0 == a);
                        }
                        if a != address && self@.contains_key(a) {
                            let j = choose|j: int| 0 <= j < self.pairs@.len() && (#[trigger] self.pairs@[j]).0 == a;
                            assert(old_pairs[j].0 == a);
                        }
                    }
                    assert forall|a: u64| #[trigger] self@.contains_key(a) implies self@[a] == old_view.insert(address, k)[a] by {
                        let j = choose|j: int| 0 <= j < self.pairs@.len() && (#[trigger] self.pairs@[j]).0 == a;
                        if a != address {
                            assert(old_pairs[j].0 == a);
                            let j0 = choose|j0: int| 0 <= j0 < old_pairs.len() && (#[trigger] old_pairs[j0]).0 == a;
                            assert(j0 == j);
                        } else {
                            assert(j == i);
                        }
                    }
                    assert(self@ =~= old_view.insert(address, k));
                }
            },
            None => {
                let mut pairs: Vec<(u64, String)> = Vec::new();
                std::mem::swap(&mut pairs, &mut self.pairs);
                pairs.push((address, key));
                self.pairs = pairs;
                proof {
                    let n = old_pairs.len() as int;
                    assert forall|a: u64| #[trigger] self@.contains_key(a) <==> old_view.insert(address, k).contains_key(a) by {
                        if a != address && old_view.contains_key(a) {
                            let j = choose|j: int| 0 <= j < old_pairs.len() && (#[trigger] old_pairs[j]).0 == a;
                            assert(self.pairs@[j].0 == a);
                        }
                        if a == address {
                            assert(self.pairs@[n].0 == a);
                        }
                    }
                    assert forall|a: u64| #[trigger] self@.contains_key(a) implies self@[a] == old_view.insert(address, k)[a] by {
                        let j = choose|j: int| 0 <= j < self.pairs@.len() && (#[trigger] self.pairs@[j]).0 == a;
                        if a != address {
                            assert(j < n);
                            assert(old_pairs[j].0 == a);
                            let j0 = choose|j0: int| 0 <= j0 < old_pairs.len() && (#[trigger] old_pairs[j0]).0 == a;
                            assert(j0 == j);
                        } else {
                            assert(j == n);
                        }
                    }
                    assert(self@ =~= old_view.insert(address, k));
                }
            },
        }
    }
}

/// Whether payload entries are in strictly increasing company order.
pub open spec fn payloads_sorted(v: Seq<(u16, Vec<u8>, Timestamp)>) -> bool {
    forall|i: int, j: int| 0 <= i < j < v.len() ==> (#[trigger] v[i]).0 < (#[trigger] v[j]).0
}

/// Payload entries as a map from company identifier to payload and time.
pub open spec fn payload_map(v: Seq<(u16, Vec<u8>, Timestamp)>) -> Map<u16, (Seq<u8>, Timestamp)> {
    Map::new(
        |c: u16| exists|i: int| 0 <= i < v.len() && (#[trigger] v[i]).0 == c,
        |c: u16|
            {
                let i = choose|i: int| 0 <= i < v.len() && (#[trigger] v[i]).0 == c;
                (v[i].1@, v[i].2)
            },
    )
}

/// The payloads after one company payload observed at `t`: it replaces an
/// older or equally old payload of the same company.
pub open spec fn put_one(
    md: Map<u16, (Seq<u8>, Timestamp)>,
    company: u16,
    payload: Seq<u8>,
    t: Timestamp,
) -> Map<u16, (Seq<u8>, Timestamp)> {
    if !md.contains_key(company) || t.unix_nanos >= md[company].1.unix_nanos {
        md.insert(company, (payload, t))
    } else {
        md
    }
}

proof fn lemma_payload_at(v: Seq<(u16, Vec<u8>, Timestamp)>, i: int)
    requires
        payloads_sorted(v),
        0 <= i < v.len(),
    ensures
        payload_map(v).contains_key(v[i].0),
        payload_map(v)[v[i].0] == (v[i].1@, v[i].2),
{
    let c = v[i].0;
    assert(payload_map(v).contains_key(c));
    let j = choose|j: int| 0 <= j < v.len() && (#[trigger] v[j]).0 == c;
    if j < i {
        assert(v[j].0 < v[i].0);
    } else if j > i {
        assert(v[i].0 < v[j].0);
    }
}

fn put_payload(v: &mut Vec<(u16, Vec<u8>, Timestamp)>, company: u16, payload: Vec<u8>, t: Timestamp)
    requires
        payloads_sorted(old(v)@),
    ensures
        payloads_sorted(final(v)@),
        payload_map(final(v)@) == put_one(payload_map(old(v)@), company, payload@, t),
{
    let ghost old_v = v@;
    let ghost p = payload@;
    let mut i: usize = 0;
    while i < v.len() && v[i].0 < company
        invariant
            v@ == old_v,
            i <= v@.len(),
            payloads_sorted(v@),
            forall|j: int| 0 <= j < i ==> (#[trigger] v@[j]).0 < company,
        decreases v@.len() - i,
    {
        i = i + 1;
    }
    let ghost md = payload_map(old_v);
    if i < v.len() && v[i].0 == company {
        proof {
            lemma_payload_at(old_v, i as int);
        }
        if t.unix_nanos >= v[i].2.unix_nanos {
            v.set(i, (company, payload, t));
            proof {
                let nv = v@;
                assert forall|a: int, b: int| 0 <= a < b < nv.len() implies (#[trigger] nv[a]).0 < (#[trigger] nv[b]).0 by {
                    assert(nv[a].0 == old_v[a].0);
                    assert(nv[b].0 == old_v[b].0);
                }
                assert forall|c: u16| #[trigger] payload_map(nv).contains_key(c) <==> md.insert(company, (p, t)).contains_key(c) by {
                    if md.contains_key(c) {
                        let j = choose|j: int| 0 <= j < old_v.len() && (#[trigger] old_v[j]).0 == c;
                        assert(nv[j].0 == c);
                    }
                    if payload_map(nv).contains_key(c) {
                        let j = choose|j: int| 0 <= j < nv.len() && (#[trigger] nv[j]).0 == c;
                        assert(old_v[j].0 == c);
                    }
                }
                assert forall|c: u16| #[trigger] payload_map(nv).contains_key(c) implies payload_map(nv)[c] == md.insert(company, (p, t))[c] by {
                    let j = choose|j: int| 0 <= j < nv.len() && (#[trigger] nv[j]).0 == c;
                    lemma_payload_at(nv, j);
                    if j != i {
                        lemma_payload_at(old_v, j);
                    }
                }
                assert(payload_map(nv) =~= md.insert(company, (p, t)));
            }
        } else {
            assert(md.contains_key(company));
        }
    } else {
        proof {
            assert(!md.contains_key(company)) by {
                if md.contains_key(company) {
                    let j = choose|j: int| 0 <= j < old_v.len() && (#[trigger] old_v[j]).0 == company;
                    if j < i {
                    } else if j > i {
                        assert(old_v[i as int].0 < old_v[j].0);
                    }
                }
            }
        }
        v.insert(i, (company, payload, t));
        proof {
            let nv = v@;
            assert forall|a: int, b: int| 0 <= a < b < nv.len() implies (#[trigger] nv[a]).0 < (#[trigger] nv[b]).0 by {
                if a < i && b < i {
                    assert(nv[a] == old_v[a] && nv[b] == old_v[b]);
                } else if a < i && b == i {
                    assert(nv[a] == old_v[a]);
                } else if a < i {
                    assert(nv[a] == old_v[a] && nv[b] == old_v[b - 1]);
                } else if a == i {
                    assert(nv[b] == old_v[b - 1]);
                    assert(old_v[i as int].0 >= company);
                    if b - 1 > i {
                        assert(old_v[i as int].0 < old_v[b - 1].0);
                    }
                } else {
                    assert(nv[a] == old_v[a - 1] && nv[b] == old_v[b - 1]);
                }
            }
            assert forall|c: u16| #[trigger] payload_map(nv).contains_key(c) <==> md.insert(company, (p, t)).contains_key(c) by {
                if md.contains_key(c) {
                    let j = choose|j: int| 0 <= j < old_v.len() && (#[trigger] old_v[j]).0 == c;
                    let j1 = if j < i { j } else { j + 1 };
                    assert(nv[j1].0 == c);
                }
                if c == company {
                    assert(nv[i as int].0 == c);
                }
                if payload_map(nv).contains_key(c) && c != company {
                    let j = choose|j: int| 0 <= j < nv.len() && (#[trigger] nv[j]).0 == c;
                    let j0 = if j < i { j } else { j - 1 };
                    assert(old_v[j0].0 == c);
                }
            }
            assert forall|c: u16| #[trigger] payload_map(nv).contains_key(c) implies payload_map(nv)[c] == md.insert(company, (p, t))[c] by {
                let j = choose|j: int| 0 <= j < nv.len() && (#[trigger] nv[j]).0 == c;
                lemma_payload_at(nv, j);
                if j != i {
                    let j0 = if j < i { j } else { j - 1 };
                    assert(nv[j] == old_v[j0]);
                    lemma_payload_at(old_v, j0);
                }
            }
            assert(payload_map(nv) =~= md.insert(company, (p, t)));
        }
    }
}

/// What the mapping knows of one device while merging.
pub struct MergedView {
    /// Backend identifier.
    pub backend_id: Seq<char>,
    /// Display name so far.
    pub display_name: Seq<char>,
    /// Connection state reported by Windows.
    pub connection_state: ConnectionState,
    /// Standard battery value, when valid.
    pub standard_battery: Option<u8>,
    /// Latest payload and its time per company identifier.
    pub payloads: Map<u16, (Seq<u8>, Timestamp)>,
    /// Lower-case service UUIDs.
    pub service_uuids: Set<Seq<char>>,
    /// Latest observation time.
    pub observed_at: Timestamp,
}

/// Name given to a known device without a usable name.
pub open spec fn le_device_name() -> Seq<char> {
    "Bluetooth LE device"@
}

/// Name given to an advertising device without a usable name.
pub open spec fn nearby_device_name() -> Seq<char> {
    "Nearby Bluetooth device"@
}

/// The merged state of one known device.
pub open spec fn known_entry(k: WindowsKnownDevice) -> MergedView {
    MergedView {
        backend_id: k.backend_id@,
        display_name: match trimmed_name(Some(k.display_name@)) {
            Some(n) => n,
            None => le_device_name(),
        },
        connection_state: k.connection_state,
        standard_battery: match k.standard_battery {
            Some(v) => if v <= 100 {
                Some(v)
            } else {
                None
            },
            None => None,
        },
        payloads: Map::empty(),
        service_uuids: Set::empty(),
        observed_at: k.observed_at,
    }
}

/// Known devices by backend identifier; a later entry replaces an earlier one.
pub open spec fn merge_known(known: Seq<WindowsKnownDevice>) -> Map<Seq<char>, MergedView>
    decreases known.len(),
{
    if known.len() == 0 {
        Map::empty()
    } else {
        merge_known(known.drop_last()).insert(known.last().backend_id@, known_entry(known.last()))
    }
}

/// Backend identifiers by known address; a later entry replaces an earlier one.
pub open spec fn known_addresses(known: Seq<WindowsKnownDevice>) -> Map<u64, Seq<char>>
    decreases known.len(),
{
    if known.len() == 0 {
        Map::empty()
    } else {
        let prev = known_addresses(known.drop_last());
        match known.last().address {
            Some(a) => prev.insert(a, known.last().backend_id@),
            None => prev,
        }
    }
}

/// Backend identifiers of connected known devices, in order.
pub open spec fn connected_keys(known: Seq<WindowsKnownDevice>) -> Seq<Seq<char>>
    decreases known.len(),
{
    if known.len() == 0 {
        Seq::empty()
    } else {
        let prev = connected_keys(known.drop_last());
        if known.last().connection_state == ConnectionState::Connected {
            prev.push(known.last().backend_id@)
        } else {
            prev
        }
    }
}

/// The signal strength of an advertisement, lowest when unknown.
pub open spec fn rssi_or_min(ad: WindowsAdvertisement) -> int {
    match ad.rssi {
        Some(r) => r as int,
        None => i16::MIN as int,
    }
}

/// Whether advertisement `a` ranks at least as high as `b`: stronger signal
/// first, then later observation.
pub open spec fn ranks_at_least(a: WindowsAdvertisement, b: WindowsAdvertisement) -> bool {
    rssi_or_min(a) > rssi_or_min(b) || (rssi_or_min(a) == rssi_or_min(b)
        && a.observed_at.unix_nanos >= b.observed_at.unix_nanos)
}

/// Whether an advertisement carries `AirPods` data from an unknown address.
pub open spec fn unmatched_airpods(ad: WindowsAdvertisement, book: Map<u64, Seq<char>>) -> bool {
    !book.contains_key(ad.address) && is_airpods_ad(ad)
}

/// The position of the last highest-ranked unmatched `AirPods` advertisement.
pub open spec fn best_unmatched(ads: Seq<WindowsAdvertisement>, book: Map<u64, Seq<char>>) -> Option<
    int,
>
    decreases ads.len(),
{
    if ads.len() == 0 {
        None
    } else {
        let prev = best_unmatched(ads.drop_last(), book);
        let i = ads.len() - 1;
        if unmatched_airpods(ads[i], book) && (prev matches Some(b) ==> ranks_at_least(ads[i], ads[b])) {
            Some(i)
        } else {
            prev
        }
    }
}

/// Whether an advertisement survives correlation to the address `selected`.
pub open spec fn kept_after_correlation(
    ad: WindowsAdvertisement,
    book: Map<u64, Seq<char>>,
    selected: u64,
) -> bool {
    !is_airpods_ad(ad) || book.contains_key(ad.address) || ad.address == selected
}

/// The advertisements that survive correlation, in order.
pub open spec fn kept_ads(
    ads: Seq<WindowsAdvertisement>,
    book: Map<u64, Seq<char>>,
    selected: u64,
) -> Seq<WindowsAdvertisement>
    decreases ads.len(),
{
    if ads.len() == 0 {
        Seq::empty()
    } else {
        let prev = kept_ads(ads.drop_last(), book, selected);
        if kept_after_correlation(ads.last(), book, selected) {
            prev.push(ads.last())
        } else {
            prev
        }
    }
}

/// Advertisements and address book after correlating a rotating `AirPods`
/// address with the only connected device; nothing changes unless exactly
/// one device is connected and an unmatched `AirPods` advertisement exists.
pub open spec fn correlated(
    ads: Seq<WindowsAdvertisement>,
    book: Map<u64, Seq<char>>,
    connected: Seq<Seq<char>>,
) -> (Seq<WindowsAdvertisement>, Map<u64, Seq<char>>) {
    if connected.len() != 1 {
        (ads, book)
    } else {
        match best_unmatched(ads, book) {
            None => (ads, book),
            Some(i) => {
                let selected = ads[i].address;
                (kept_ads(ads, book, selected), book.insert(selected, connected[0]))
            },
        }
    }
}

fn score_at_least(a: &WindowsAdvertisement, b: &WindowsAdvertisement) -> (r: bool)
    ensures
        r == ranks_at_least(*a, *b),
{
    let ra: i16 = match a.rssi {
        Some(r) => r,
        None => i16::MIN,
    };
    let rb: i16 = match b.rssi {
        Some(r) => r,
        None => i16::MIN,
    };
    ra > rb || (ra == rb && a.observed_at.unix_nanos >= b.observed_at.unix_nanos)
}

/// Associates a rotating continuity address only when Windows reports exactly
/// one connected paired device and no exact address match exists.
fn correlate_unique_airpods_advertisement(
    advertisements: &mut Vec<WindowsAdvertisement>,
    book: &mut AddressBook,
    connected: &Vec<String>,
)
    ensures
        (final(advertisements)@, final(book)@) == correlated(
            old(advertisements)@,
            old(book)@,
            connected@.map_values(|k: String| k@),
        ),
{
    let ghost ads = advertisements@;
    let ghost keys = connected@.map_values(|k: String| k@);
    if connected.len() != 1 {
        return;
    }
    let mut best: Option<usize> = None;
    let mut i: usize = 0;
    while i < advertisements.len()
        invariant
            advertisements@ == ads,
            i <= ads.len(),
            match best {
                Some(b) => best_unmatched(ads.take(i as int), book@) == Some(b as int) && b < i,
                None => best_unmatched(ads.take(i as int), book@) is None,
            },
        decreases ads.len() - i,
    {
        let ad = &advertisements[i];
        assert(ads.take(i + 1).drop_last() =~= ads.take(i as int));
        assert(ads.take(i + 1)[i as int] == ads[i as int]);
        let candidate = match book.get(ad.address) {
            Some(_) => false,
            None => is_airpods_advertisement(ad),
        };
        if candidate {
            let better = match best {
                Some(b) => {
                    assert(ads.take(i + 1)[b as int] == ads[b as int]);
                    score_at_least(ad, &advertisements[b])
                },
                None => true,
            };
            if better {
                best = Some(i);
            }
        }
        i = i + 1;
    }
    assert(ads.take(ads.len() as int) =~= ads);
    let selected = match best {
        Some(b) => advertisements[b].address,
        None => {
            return;
        },
    };
    let ghost old_book = book@;
    let mut pending: Vec<WindowsAdvertisement> = Vec::new();
    std::mem::swap(&mut pending, advertisements);
    let mut kept: Vec<WindowsAdvertisement> = Vec::new();
    let ghost mut k: int = 0;
    while pending.len() > 0
        invariant
            0 <= k <= ads.len(),
            pending@ == ads.skip(k),
            kept@ == kept_ads(ads.take(k), old_book, selected),
            book@ == old_book,
        decreases pending@.len(),
    {
        let ad = pending.remove(0);
        assert(ad == ads[k]);
        assert(ads.take(k + 1).drop_last() =~= ads.take(k));
        let known = match book.get(ad.address) {
            Some(_) => true,
            None => false,
        };
        let keep = !is_airpods_advertisement(&ad) || known || ad.address == selected;
        if keep {
            kept.push(ad);
        }
        proof {
            k = k + 1;
        }
        assert(pending@ =~= ads.skip(k));
    }
    assert(ads.take(ads.len() as int) =~= ads);
    *advertisements = kept;
    book.insert(selected, connected[0].clone());
}

/// The later of two times.
pub open spec fn later(a: Timestamp, b: Timestamp) -> Timestamp {
    if a.unix_nanos < b.unix_nanos {
        b
    } else {
        a
    }
}

/// The backend identifier an advertisement is merged under.
pub open spec fn ad_key(book: Map<u64, Seq<char>>, ad: WindowsAdvertisement) -> Seq<char> {
    if book.contains_key(ad.address) {
        book[ad.address]
    } else {
        ble_backend_id(ad.address)
    }
}

/// Payloads after the company payloads of one advertisement observed at `t`.
pub open spec fn put_payloads(
    md: Map<u16, (Seq<u8>, Timestamp)>,
    pairs: Seq<(u16, Vec<u8>)>,
    t: Timestamp,
) -> Map<u16, (Seq<u8>, Timestamp)>
    decreases pairs.len(),
{
    if pairs.len() == 0 {
        md
    } else {
        put_one(put_payloads(md, pairs.drop_last(), t), pairs.last().0, pairs.last().1@, t)
    }
}

/// Service UUIDs after adding the lower-case forms of `uuids`.
pub open spec fn add_uuids(set: Set<Seq<char>>, uuids: Seq<String>) -> Set<Seq<char>>
    decreases uuids.len(),
{
    if uuids.len() == 0 {
        set
    } else {
        add_uuids(set, uuids.drop_last()).insert(seq_ascii_lower(uuids.last()@))
    }
}

/// The device an advertisement joins: the one merged under `key`, or a new
/// nearby device.
pub open spec fn ad_base(m: Map<Seq<char>, MergedView>, key: Seq<char>, ad: WindowsAdvertisement) -> MergedView {
    if m.contains_key(key) {
        m[key]
    } else {
        MergedView {
            backend_id: key,
            display_name: match trimmed_name(opt_string_text(ad.local_name)) {
                Some(n) => n,
                None => nearby_device_name(),
            },
            connection_state: ConnectionState::Unknown,
            standard_battery: None,
            payloads: Map::empty(),
            service_uuids: Set::empty(),
            observed_at: ad.observed_at,
        }
    }
}

/// A device after an advertisement: a placeholder name gives way to the
/// advertised name, and the time, service UUIDs and newer company payloads
/// are brought in.
pub open spec fn ad_merged(base: MergedView, ad: WindowsAdvertisement) -> MergedView {
    let name = match trimmed_name(opt_string_text(ad.local_name)) {
        Some(n) => if base.display_name == le_device_name() || base.display_name
            == nearby_device_name() {
            n
        } else {
            base.display_name
        },
        None => base.display_name,
    };
    MergedView {
        display_name: name,
        observed_at: later(base.observed_at, ad.observed_at),
        service_uuids: add_uuids(base.service_uuids, ad.service_uuids@),
        payloads: put_payloads(base.payloads, ad.manufacturer_data@, ad.observed_at),
        ..base
    }
}

/// The merged devices after one advertisement.
pub open spec fn merge_ad(
    m: Map<Seq<char>, MergedView>,
    book: Map<u64, Seq<char>>,
    ad: WindowsAdvertisement,
) -> Map<Seq<char>, MergedView> {
    let key = ad_key(book, ad);
    m.insert(key, ad_merged(ad_base(m, key, ad), ad))
}

/// The merged devices after advertisements in order.
pub open spec fn merge_ads(
    m: Map<Seq<char>, MergedView>,
    book: Map<u64, Seq<char>>,
    ads: Seq<WindowsAdvertisement>,
) -> Map<Seq<char>, MergedView>
    decreases ads.len(),
{
    if ads.len() == 0 {
        m
    } else {
        merge_ad(merge_ads(m, book, ads.drop_last()), book, ads.last())
    }
}

/// Every device known or advertising, merged: known devices first, then the
/// advertisements that survive correlation, under the correlated addresses.
pub open spec fn merged_devices(
    known: Seq<WindowsKnownDevice>,
    ads: Seq<WindowsAdvertisement>,
) -> Map<Seq<char>, MergedView> {
    let c = correlated(ads, known_addresses(known), connected_keys(known));
    merge_ads(merge_known(known), c.1, c.0)
}

struct MergedDevice {
    backend_id: String,
    display_name: String,
    connection_state: ConnectionState,
    standard_battery: Option<u8>,
    payloads: Vec<(u16, Vec<u8>, Timestamp)>,
    service_uuids: KeyedStore<()>,
    observed_at: Timestamp,
}

impl MergedDevice {
    spec fn view(&self) -> MergedView {
        MergedView {
            backend_id: self.backend_id@,
            display_name: self.display_name@,
            connection_state: self.connection_state,
            standard_battery: self.standard_battery,
            payloads: payload_map(self.payloads@),
            service_uuids: self.service_uuids@.dom(),
            observed_at: self.observed_at,
        }
    }

    spec fn wf(&self) -> bool {
        payloads_sorted(self.payloads@)
    }
}

spec fn store_view(m: Map<Seq<char>, MergedDevice>) -> Map<Seq<char>, MergedView> {
    m.map_values(|d: MergedDevice| d@)
}

spec fn store_wf(m: Map<Seq<char>, MergedDevice>) -> bool {
    forall|k: Seq<char>| #[trigger] m.contains_key(k) ==> m[k].wf()
}

fn opt_str(s: &Option<String>) -> (r: Option<&str>)
    ensures
        opt_str_text(r) == opt_string_text(*s),
{
    match s {
        Some(x) => Some(x.as_str()),
        None => None,
    }
}

fn merge_advertisement(
    merged: &mut KeyedStore<MergedDevice>,
    book: &AddressBook,
    ad: WindowsAdvertisement,
)
    requires
        store_wf(old(merged)@),
    ensures
        store_wf(final(merged)@),
        store_view(final(merged)@) == merge_ad(store_view(old(merged)@), book@, ad),
{
    let ghost a = ad;
    let ghost before = merged@;
    let key = match book.get(ad.address) {
        Some(k) => k.clone(),
        None => advertisement_backend_id(ad.address),
    };
    let local = nonempty_name(opt_str(&ad.local_name));
    let ghost local_text = trimmed_name(opt_string_text(a.local_name));
    let WindowsAdvertisement { address: _, local_name: _, manufacturer_data, service_uuids, rssi: _, observed_at } = ad;
    let mut entry = match merged.remove(key.as_str()) {
        Some(e) => e,
        None => {
            let name = match &local {
                Some(n) => n.clone(),
                None => "Nearby Bluetooth device".to_owned(),
            };
            let e = MergedDevice {
                backend_id: key.clone(),
                display_name: name,
                connection_state: ConnectionState::Unknown,
                standard_battery: None,
                payloads: Vec::new(),
                service_uuids: KeyedStore::new(),
                observed_at,
            };
            assert(payload_map(e.payloads@) =~= Map::<u16, (Seq<u8>, Timestamp)>::empty());
            assert(e.service_uuids@.dom() =~= Set::<Seq<char>>::empty());
            e
        },
    };
    let ghost base = entry@;
    proof {
        reveal_strlit("Bluetooth LE device");
        reveal_strlit("Nearby Bluetooth device");
    }
    match local {
        Some(n) => {
            if same_text(entry.display_name.as_str(), "Bluetooth LE device") || same_text(
                entry.display_name.as_str(),
                "Nearby Bluetooth device",
            ) {
                entry.display_name = n;
            }
        },
        None => {},
    }
    entry.observed_at = entry.observed_at.max(observed_at);
    let ghost mid = entry@;
    let ghost uuids_all = service_uuids@;
    let mut j: usize = 0;
    while j < service_uuids.len()
        invariant
            j <= uuids_all.len(),
            uuids_all == service_uuids@,
            entry.service_uuids@.dom() == add_uuids(base.service_uuids, uuids_all.take(j as int)),
            entry.wf(),
            payload_map(entry.payloads@) == base.payloads,
            entry@ == (MergedView { service_uuids: entry@.service_uuids, ..mid }),
        decreases uuids_all.len() - j,
    {
        let lowered = ascii_lower_string(service_uuids[j].as_str());
        entry.service_uuids.insert(lowered, ());
        assert(uuids_all.take(j + 1).drop_last() =~= uuids_all.take(j as int));
        assert(entry.service_uuids@.dom() =~= add_uuids(base.service_uuids, uuids_all.take(j + 1)));
        j = j + 1;
    }
    assert(uuids_all.take(uuids_all.len() as int) =~= uuids_all);
    let ghost pairs_all = manufacturer_data@;
    let mut pairs = manufacturer_data;
    let ghost mut k: int = 0;
    while pairs.len() > 0
        invariant
            0 <= k <= pairs_all.len(),
            pairs@ == pairs_all.skip(k),
            entry.wf(),
            payload_map(entry.payloads@) == put_payloads(base.payloads, pairs_all.take(k), observed_at),
            entry@ == (MergedView { payloads: entry@.payloads, service_uuids: add_uuids(base.service_uuids, uuids_all), ..mid }),
        decreases pairs@.len(),
    {
        let (company, payload) = pairs.remove(0);
        assert((company, payload) == pairs_all[k]);
        put_payload(&mut entry.payloads, company, payload, observed_at);
        assert(pairs_all.take(k + 1).drop_last() =~= pairs_all.take(k));
        proof {
            k = k + 1;
        }
        assert(pairs@ =~= pairs_all.skip(k));
    }
    assert(pairs_all.take(pairs_all.len() as int) =~= pairs_all);
    let ghost after = entry@;
    merged.insert(key, entry);
    proof {
        let lhs = store_view(merged@);
        let rhs = merge_ad(store_view(before), book@, a);
        let expect = ad_merged(base, a);
        assert(after.display_name == expect.display_name);
        assert(after.observed_at == expect.observed_at);
        assert(after.service_uuids == expect.service_uuids);
        assert(after.payloads == expect.payloads);
        assert(after.backend_id == expect.backend_id);
        assert(after.connection_state == expect.connection_state);
        assert(after.standard_battery == expect.standard_battery);
        assert(after == ad_merged(base, a));
        assert(lhs =~= rhs);
    }
}

/// The company identifier of a payload observation, `-1` for any other.
pub open spec fn company_of(o: ObservationView) -> int {
    match o {
        ObservationView::ManufacturerData { company_id, .. } => company_id as int,
        _ => -1,
    }
}

/// The `AirPods` model that a device's Apple payload encodes, if any.
pub open spec fn airpods_model_of(m: MergedView) -> Option<AirPodsModel> {
    if m.payloads.contains_key(APPLE_MANUFACTURER_ID) && is_airpods_payload(
        m.payloads[APPLE_MANUFACTURER_ID].0,
    ) {
        Some(model_of_nibble(nibble_of(m.payloads[APPLE_MANUFACTURER_ID].0, 7)))
    } else {
        None
    }
}

/// The name a mapped device gets: the `AirPods` model name in place of the
/// nearby placeholder, else its merged name.
pub open spec fn mapped_name(m: MergedView) -> Seq<char> {
    match airpods_model_of(m) {
        Some(model) => if m.display_name == nearby_device_name() {
            model_label(model)
        } else {
            m.display_name
        },
        None => m.display_name,
    }
}

/// Whether `d` is the descriptor of merged device `m`.
pub open spec fn describes(d: DeviceDescriptor, m: MergedView) -> bool {
    let model = airpods_model_of(m);
    &&& d.backend_id@ == m.backend_id
    &&& d.privacy_id@ == sanitized(m.backend_id)
    &&& d.display_name@ == mapped_name(m)
    &&& opt_text(d.system_name) == Some(mapped_name(m))
    &&& opt_text(d.manufacturer) == if model is Some {
        Some("Apple"@)
    } else {
        None::<Seq<char>>
    }
    &&& opt_text(d.model) == match model {
        Some(x) => Some(model_label(x)),
        None => None,
    }
    &&& d.icon is None
    &&& d.class is None
    &&& d.appearance is None
    &&& forall|i: int, j: int|
        0 <= i < j < d.service_uuids@.len() ==> text_order(
            (#[trigger] d.service_uuids@[i])@,
            (#[trigger] d.service_uuids@[j])@,
        ) < 0
    &&& forall|u: Seq<char>|
        m.service_uuids.contains(u) <==> exists|i: int|
            0 <= i < d.service_uuids@.len() && (#[trigger] d.service_uuids@[i])@ == u
    &&& d.device_family == if model is Some {
        DeviceFamily::AirPods
    } else {
        family_hint_of(mapped_name(m))
    }
    &&& d.transport == Transport::LowEnergy
    &&& d.last_seen_at == Some(m.observed_at)
}

/// The connection observation, then the battery observation when there is
/// one, that a merged device leads with.
pub open spec fn leading_observations(m: MergedView) -> Seq<ObservationView> {
    seq![
        ObservationView::Connection {
            device_id: m.backend_id,
            state: m.connection_state,
            observed_at: m.observed_at,
        },
    ] + match m.standard_battery {
        Some(p) => seq![
            ObservationView::StandardBattery {
                device_id: m.backend_id,
                percentage: p,
                observed_at: m.observed_at,
            },
        ],
        None => Seq::empty(),
    }
}

/// Whether `obs` are the observations of merged device `m`: its leading
/// observations, then one payload observation per company, in increasing
/// company order.
pub open spec fn device_observations(m: MergedView, obs: Seq<ObservationView>) -> bool {
    let head = leading_observations(m);
    &&& head.len() <= obs.len()
    &&& obs.take(head.len() as int) == head
    &&& forall|i: int|
        head.len() <= i < obs.len() ==> match #[trigger] obs[i] {
            ObservationView::ManufacturerData { device_id, company_id, payload, observed_at } => {
                &&& device_id == m.backend_id
                &&& m.payloads.contains_key(company_id)
                &&& m.payloads[company_id] == (payload, observed_at)
            },
            _ => false,
        }
    &&& forall|i: int, j: int|
        head.len() <= i < j < obs.len() ==> company_of(#[trigger] obs[i]) < company_of(
            #[trigger] obs[j],
        )
    &&& forall|c: u16|
        #[trigger] m.payloads.contains_key(c) ==> exists|i: int|
            head.len() <= i < obs.len() && company_of(#[trigger] obs[i]) == c
}

/// Mapped descriptors and observations consumed by the application engine.
#[derive(Debug)]
pub struct WindowsMapping {
    /// Device metadata merged by Bluetooth address.
    pub descriptors: Vec<DeviceDescriptor>,
    /// Connection, standard battery, and advertisement observations.
    pub observations: Vec<RawObservation>,
}

impl Default for WindowsMapping {
    fn default() -> (r: WindowsMapping)
        ensures
            r.descriptors@.len() == 0,
            r.observations@.len() == 0,
    {
        WindowsMapping { descriptors: Vec::new(), observations: Vec::new() }
    }
}

/// Whether `r` holds, in the order of `keys`, the descriptor of every merged
/// device, and the concatenation of `segments`, each device's observations;
/// `keys` are the merged identifiers in increasing order.
pub open spec fn maps_devices_as(
    state: Map<Seq<char>, MergedView>,
    r: WindowsMapping,
    keys: Seq<Seq<char>>,
    segments: Seq<Seq<ObservationView>>,
) -> bool {
    &&& keys.len() == segments.len()
    &&& keys.len() == r.descriptors@.len()
    &&& forall|i: int, j: int|
        0 <= i < j < keys.len() ==> text_order(#[trigger] keys[i], #[trigger] keys[j]) < 0
    &&& forall|k: Seq<char>| state.contains_key(k) <==> #[trigger] keys.contains(k)
    &&& forall|i: int|
        0 <= i < keys.len() ==> describes(#[trigger] r.descriptors@[i], state[keys[i]])
            && device_observations(state[keys[i]], segments[i])
    &&& r.observations@.map_values(|o: RawObservation| observation_view(o)) == segments.flatten()
}

/// Whether `r` holds, in backend identifier order, the descriptor and the
/// observations of every merged device.
pub open spec fn maps_devices(state: Map<Seq<char>, MergedView>, r: WindowsMapping) -> bool {
    exists|keys: Seq<Seq<char>>, segments: Seq<Seq<ObservationView>>|
        #[trigger] maps_devices_as(state, r, keys, segments)
}

fn airpods_model(payloads: &Vec<(u16, Vec<u8>, Timestamp)>) -> (r: Option<AirPodsModel>)
    requires
        payloads_sorted(payloads@),
    ensures
        r == airpods_model_of(
            MergedView {
                backend_id: Seq::empty(),
                display_name: Seq::empty(),
                connection_state: ConnectionState::Unknown,
                standard_battery: None,
                payloads: payload_map(payloads@),
                service_uuids: Set::empty(),
                observed_at: Timestamp { unix_nanos: 0 },
            },
        ),
{
    let mut i: usize = 0;
    while i < payloads.len()
        invariant
            i <= payloads@.len(),
            payloads_sorted(payloads@),
            forall|j: int| 0 <= j < i ==> (#[trigger] payloads@[j]).0 != APPLE_MANUFACTURER_ID,
        decreases payloads@.len() - i,
    {
        if payloads[i].0 == APPLE_MANUFACTURER_ID {
            proof {
                lemma_payload_at(payloads@, i as int);
            }
            return match parse_proximity_pairing(payloads[i].1.as_slice()) {
                Ok(Some(adv)) => Some(adv.model),
                _ => None,
            };
        }
        i = i + 1;
    }
    assert(!payload_map(payloads@).contains_key(APPLE_MANUFACTURER_ID));
    None
}

fn uuid_list(uuids: KeyedStore<()>) -> (r: Vec<String>)
    ensures
        forall|i: int, j: int|
            0 <= i < j < r@.len() ==> text_order((#[trigger] r@[i])@, (#[trigger] r@[j])@) < 0,
        forall|u: Seq<char>|
            #[trigger] uuids@.dom().contains(u) <==> exists|i: int|
                0 <= i < r@.len() && (#[trigger] r@[i])@ == u,
{
    let ghost view = uuids@;
    let entries = uuids.into_entries();
    let ghost es = entries@;
    proof {
        crate::store::lemma_keyed_sorted(es);
    }
    let mut r: Vec<String> = Vec::new();
    let mut i: usize = 0;
    while i < entries.len()
        invariant
            es == entries@,
            i <= es.len(),
            r@.len() == i,
            forall|j: int| 0 <= j < i ==> (#[trigger] r@[j])@ == es[j].0@,
        decreases es.len() - i,
    {
        r.push(entries[i].0.clone());
        i = i + 1;
    }
    proof {
        let ks = crate::store::keyed(es);
        assert forall|u: Seq<char>| view.dom().contains(u) implies exists|i: int| 0 <= i < r@.len() && (#[trigger] r@[i])@ == u by {
            let j = choose|j: int| 0 <= j < ks.len() && (#[trigger] ks[j]).0 == u;
            assert(r@[j]@ == u);
        }
        assert forall|u: Seq<char>| (exists|i: int| 0 <= i < r@.len() && (#[trigger] r@[i])@ == u) implies view.dom().contains(u) by {
            let j = choose|j: int| 0 <= j < r@.len() && (#[trigger] r@[j])@ == u;
            assert(ks[j].0 == u);
        }
    }
    r
}

fn emit_device(
    device: MergedDevice,
    descriptors: &mut Vec<DeviceDescriptor>,
    observations: &mut Vec<RawObservation>,
)
    requires
        device.wf(),
    ensures
        final(descriptors)@.len() == old(descriptors)@.len() + 1,
        final(descriptors)@.take(old(descriptors)@.len() as int) == old(descriptors)@,
        describes(final(descriptors)@.last(), device@),
        final(observations)@.len() >= old(observations)@.len(),
        final(observations)@.take(old(observations)@.len() as int) == old(observations)@,
        device_observations(
            device@,
            final(observations)@.skip(old(observations)@.len() as int).map_values(
                |o: RawObservation| observation_view(o),
            ),
        ),
{
    let ghost m = device@;
    let ghost d0 = descriptors@;
    let ghost o0 = observations@;
    let model_kind = airpods_model(&device.payloads);
    assert(model_kind == airpods_model_of(m));
    let model: Option<String> = match model_kind {
        Some(k) => Some(k.display_name().to_owned()),
        None => None,
    };
    let manufacturer: Option<String> = match model_kind {
        Some(_) => Some("Apple".to_owned()),
        None => None,
    };
    let MergedDevice {
        backend_id,
        display_name,
        connection_state,
        standard_battery,
        payloads,
        service_uuids,
        observed_at,
    } = device;
    proof {
        reveal_strlit("Nearby Bluetooth device");
    }
    let name = if same_text(display_name.as_str(), "Nearby Bluetooth device") {
        match &model {
            Some(x) => x.clone(),
            None => display_name,
        }
    } else {
        display_name
    };
    assert(name@ == mapped_name(m));
    let family = match model_kind {
        Some(_) => DeviceFamily::AirPods,
        None => family_hint(name.as_str()),
    };
    let ghost service_uuids_view = service_uuids@.dom();
    let uuids = uuid_list(service_uuids);
    let ghost uuids_view = uuids@;
    let descriptor = DeviceDescriptor {
        privacy_id: sanitize_identifier(backend_id.as_str()),
        backend_id: backend_id.clone(),
        display_name: name.clone(),
        system_name: Some(name),
        manufacturer,
        model,
        icon: None,
        class: None,
        appearance: None,
        service_uuids: uuids,
        device_family: family,
        transport: Transport::LowEnergy,
        last_seen_at: Some(observed_at),
    };
    assert(m.service_uuids == service_uuids_view);
    assert(descriptor.service_uuids@ == uuids_view);
    assert forall|u: Seq<char>|
        m.service_uuids.contains(u) <==> exists|i: int|
            0 <= i < descriptor.service_uuids@.len() && (#[trigger] descriptor.service_uuids@[i])@ == u by {
        assert(service_uuids_view.contains(u) <==> exists|i: int|
            0 <= i < uuids_view.len() && (#[trigger] uuids_view[i])@ == u);
    }
    assert(describes(descriptor, m));
    descriptors.push(descriptor);
    assert(descriptors@.take(d0.len() as int) =~= d0);
    observations.push(
        RawObservation::Connection { device_id: backend_id.clone(), state: connection_state, observed_at },
    );
    match standard_battery {
        Some(percentage) => {
            observations.push(
                RawObservation::StandardBattery {
                    device_id: backend_id.clone(),
                    percentage,
                    observed_at,
                },
            );
        },
        None => {},
    }
    let ghost head = leading_observations(m);
    let ghost base_len = o0.len() + head.len();
    assert(observations@.len() == base_len);
    assert(observations@.take(o0.len() as int) =~= o0);
    assert(observations@.skip(o0.len() as int).map_values(|o: RawObservation| observation_view(o))
        =~= head);
    let ghost all = payloads@;
    let mut pending = payloads;
    let ghost mut k: int = 0;
    while pending.len() > 0
        invariant
            0 <= k <= all.len(),
            pending@ == all.skip(k),
            payloads_sorted(all),
            observations@.len() == base_len + k,
            base_len == o0.len() + head.len(),
            head == leading_observations(m),
            observations@.take(o0.len() as int) == o0,
            observations@.skip(o0.len() as int).map_values(|o: RawObservation| observation_view(o)).take(
                head.len() as int,
            ) == head,
            forall|j: int|
                0 <= j < k ==> observation_view(#[trigger] observations@[base_len + j])
                    == (ObservationView::ManufacturerData {
                    device_id: m.backend_id,
                    company_id: all[j].0,
                    payload: all[j].1@,
                    observed_at: all[j].2,
                }),
            backend_id@ == m.backend_id,
        decreases pending@.len(),
    {
        let (company_id, payload, at) = pending.remove(0);
        assert((company_id, payload, at) == all[k]);
        let ghost before = observations@;
        observations.push(
            RawObservation::ManufacturerData {
                device_id: backend_id.clone(),
                company_id,
                payload,
                observed_at: at,
            },
        );
        assert(observations@.take(o0.len() as int) =~= o0) by {
            assert(observations@.take(o0.len() as int) =~= before.take(o0.len() as int));
        }
        assert(observations@.skip(o0.len() as int).map_values(|o: RawObservation| observation_view(o)).take(
            head.len() as int,
        ) =~= before.skip(o0.len() as int).map_values(|o: RawObservation| observation_view(o)).take(
            head.len() as int,
        ));
        proof {
            k = k + 1;
        }
        assert(pending@ =~= all.skip(k));
    }
    proof {
        let seg = observations@.skip(o0.len() as int).map_values(|o: RawObservation| observation_view(o));
        assert(seg.take(head.len() as int) == head);
        assert forall|i: int| head.len() <= i < seg.len() implies match #[trigger] seg[i] {
            ObservationView::ManufacturerData { device_id, company_id, payload, observed_at } => {
                &&& device_id == m.backend_id
                &&& m.payloads.contains_key(company_id)
                &&& m.payloads[company_id] == (payload, observed_at)
            },
            _ => false,
        } by {
            let j = i - head.len();
            assert(seg[i] == observation_view(observations@[base_len + j]));
            lemma_payload_at(all, j);
        }
        assert forall|i: int, j: int| head.len() <= i < j < seg.len() implies company_of(
            #[trigger] seg[i],
        ) < company_of(#[trigger] seg[j]) by {
            let a = i - head.len();
            let b = j - head.len();
            assert(seg[i] == observation_view(observations@[base_len + a]));
            assert(seg[j] == observation_view(observations@[base_len + b]));
        }
        assert forall|c: u16| #[trigger] m.payloads.contains_key(c) implies exists|i: int|
            head.len() <= i < seg.len() && company_of(#[trigger] seg[i]) == c by {
            let j = choose|j: int| 0 <= j < all.len() && (#[trigger] all[j]).0 == c;
            let i = head.len() + j;
            assert(seg[i] == observation_view(observations@[base_len + j]));
        }
    }
}

/// Merges paired devices with the latest advertisement values per company id.
///
/// Known devices come first, each under its backend identifier; a rotating
/// `AirPods` address joins the only connected device; every advertisement
/// then joins the device its address maps to, or a new nearby device. The
/// result lists, in backend identifier order, each device's descriptor and
/// its connection, standard battery and latest company payload observations.
pub fn map_windows_devices(
    known_devices: Vec<WindowsKnownDevice>,
    advertisements: Vec<WindowsAdvertisement>,
) -> (r: WindowsMapping)
    ensures
        maps_devices(merged_devices(known_devices@, advertisements@), r),
{
    let ghost known = known_devices@;
    let ghost ads0 = advertisements@;
    let mut merged: KeyedStore<MergedDevice> = KeyedStore::new();
    let mut book = AddressBook::new();
    let mut connected: Vec<String> = Vec::new();
    assert(store_view(merged@) =~= Map::<Seq<char>, MergedView>::empty());
    assert(connected@.map_values(|k: String| k@) =~= Seq::<Seq<char>>::empty());
    let mut i: usize = 0;
    while i < known_devices.len()
        invariant
            known == known_devices@,
            i <= known.len(),
            store_wf(merged@),
            store_view(merged@) == merge_known(known.take(i as int)),
            book@ == known_addresses(known.take(i as int)),
            connected@.map_values(|k: String| k@) == connected_keys(known.take(i as int)),
        decreases known.len() - i,
    {
        let k = &known_devices[i];
        assert(known.take(i + 1).drop_last() =~= known.take(i as int));
        assert(known.take(i + 1).last() == *k);
        let key = k.backend_id.clone();
        match k.address {
            Some(address) => book.insert(address, key.clone()),
            None => {},
        }
        if k.connection_state == ConnectionState::Connected {
            let ghost before = connected@;
            connected.push(key.clone());
            assert(connected@.map_values(|x: String| x@) =~= before.map_values(|x: String| x@).push(
                key@,
            ));
        }
        let name = match nonempty_name(Some(k.display_name.as_str())) {
            Some(n) => n,
            None => "Bluetooth LE device".to_owned(),
        };
        proof {
            reveal_strlit("Bluetooth LE device");
        }
        let battery = match k.standard_battery {
            Some(v) => if v <= 100 {
                Some(v)
            } else {
                None
            },
            None => None,
        };
        let device = MergedDevice {
            backend_id: key.clone(),
            display_name: name,
            connection_state: k.connection_state,
            standard_battery: battery,
            payloads: Vec::new(),
            service_uuids: KeyedStore::new(),
            observed_at: k.observed_at,
        };
        assert(payload_map(device.payloads@) =~= Map::<u16, (Seq<u8>, Timestamp)>::empty());
        assert(device.service_uuids@.dom() =~= Set::<Seq<char>>::empty());
        assert(device@ == known_entry(*k));
        let ghost before = merged@;
        merged.insert(key, device);
        assert(store_view(merged@) =~= store_view(before).insert(k.backend_id@, known_entry(*k)));
        i = i + 1;
    }
    assert(known.take(known.len() as int) =~= known);
    let mut ads = advertisements;
    correlate_unique_airpods_advertisement(&mut ads, &mut book, &connected);
    let ghost c = correlated(ads0, known_addresses(known), connected_keys(known));
    assert(ads@ == c.0 && book@ == c.1);
    let ghost kept = ads@;
    let ghost mut k: int = 0;
    while ads.len() > 0
        invariant
            0 <= k <= kept.len(),
            ads@ == kept.skip(k),
            book@ == c.1,
            store_wf(merged@),
            store_view(merged@) == merge_ads(merge_known(known), c.1, kept.take(k)),
        decreases ads@.len(),
    {
        let ad = ads.remove(0);
        assert(ad == kept[k]);
        assert(kept.take(k + 1).drop_last() =~= kept.take(k));
        merge_advertisement(&mut merged, &book, ad);
        proof {
            k = k + 1;
        }
        assert(ads@ =~= kept.skip(k));
    }
    assert(kept.take(kept.len() as int) =~= kept);
    let ghost state = store_view(merged@);
    assert(state == merged_devices(known, ads0));
    let ghost stored = merged@;
    let mut entries = merged.into_entries();
    let ghost es = entries@;
    proof {
        crate::store::lemma_keyed_sorted(es);
        crate::entries::lemma_sorted_unique(crate::store::keyed(es));
    }
    let mut mapping = WindowsMapping::default();
    let ghost mut segments: Seq<Seq<ObservationView>> = Seq::empty();
    let ghost mut n: int = 0;
    assert(mapping.observations@.map_values(|o: RawObservation| observation_view(o)) =~= segments.flatten());
    while entries.len() > 0
        invariant
            0 <= n <= es.len(),
            entries@ == es.skip(n),
            crate::entries::sorted_keys(es),
            crate::entries::unique_ids(crate::store::keyed(es)),
            crate::entries::entries_map(crate::store::keyed(es)) == stored,
            store_wf(stored),
            state == store_view(stored),
            mapping.descriptors@.len() == n,
            segments.len() == n,
            forall|j: int|
                0 <= j < n ==> describes(#[trigger] mapping.descriptors@[j], state[es[j].0@])
                    && device_observations(state[es[j].0@], segments[j]),
            mapping.observations@.map_values(|o: RawObservation| observation_view(o))
                == segments.flatten(),
        decreases entries@.len(),
    {
        let (key, device) = entries.remove(0);
        assert((key, device) == es[n]);
        proof {
            crate::entries::lemma_map_at(crate::store::keyed(es), n);
            assert(crate::store::keyed(es)[n] == (es[n].0@, es[n].1));
            assert(stored.contains_key(key@));
            assert(stored[key@] == device);
        }
        let ghost d0 = mapping.descriptors@;
        let ghost o0 = mapping.observations@;
        emit_device(device, &mut mapping.descriptors, &mut mapping.observations);
        proof {
            let seg = mapping.observations@.skip(o0.len() as int).map_values(
                |o: RawObservation| observation_view(o),
            );
            assert(mapping.observations@ =~= o0 + mapping.observations@.skip(o0.len() as int));
            assert(mapping.observations@.map_values(|o: RawObservation| observation_view(o))
                =~= o0.map_values(|o: RawObservation| observation_view(o)) + seg);
            segments.lemma_flatten_push(seg);
            segments = segments.push(seg);
            assert forall|j: int| 0 <= j < n + 1 implies describes(
                #[trigger] mapping.descriptors@[j],
                state[es[j].0@],
            ) && device_observations(state[es[j].0@], segments[j]) by {
                if j < n {
                    assert(mapping.descriptors@[j] == mapping.descriptors@.take(d0.len() as int)[j]);
                }
            }
            n = n + 1;
        }
        assert(entries@ =~= es.skip(n));
    }
    proof {
        let keys = es.map_values(|e: (String, MergedDevice)| e.0@);
        assert(maps_devices_as(state, mapping, keys, segments)) by {
            assert forall|a: int, b: int| 0 <= a < b < keys.len() implies text_order(
                #[trigger] keys[a],
                #[trigger] keys[b],
            ) < 0 by {}
            assert forall|x: Seq<char>| state.contains_key(x) <==> #[trigger] keys.contains(x) by {
                let ks = crate::store::keyed(es);
                if state.contains_key(x) {
                    let j = choose|j: int| 0 <= j < ks.len() && (#[trigger] ks[j]).0 == x;
                    assert(keys[j] == x);
                }
                if keys.contains(x) {
                    let j = choose|j: int| 0 <= j < keys.len() && keys[j] == x;
                    assert(ks[j].0 == x);
                }
            }
        }
    }
    mapping
}

} // verus!
