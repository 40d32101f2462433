//! Tray summaries of the most relevant device.

use vstd::prelude::*;

use crate::battery::{BatteryComponent, ComponentType, DataConfidence, DataSource, percentage_view};
use crate::device::{BluetoothAudioDevice, ConnectionState, DeviceFamily};
use crate::text::{decimal, decimal_text, same_text};

verus! {

/// Display data shared by tray tooltips and the percentage icon.
#[derive(Debug, Clone, PartialEq, Eq)]
pub struct TraySnapshot {
    /// Device name.
    pub device_name: String,
    /// Human-readable component summary.
    pub label: String,
    /// Percentage rendered into the tray icon.
    pub icon_percentage: Option<u8>,
}

/// Whether a component is a fresh known value of type `t`.
pub open spec fn shows_known(c: BatteryComponent, t: ComponentType) -> bool {
    c.component_type == t && !c.stale && c.percentage is Some
}

/// The first fresh known percentage of type `t`, if any.
pub open spec fn first_known(comps: Seq<BatteryComponent>, t: ComponentType) -> Option<u8>
    decreases comps.len(),
{
    if comps.len() == 0 {
        None
    } else if shows_known(comps[0], t) {
        percentage_view(comps[0].percentage)
    } else {
        first_known(comps.drop_first(), t)
    }
}

/// A percentage as `N%`, or an em dash when unknown.
pub open spec fn percentage_label(value: Option<u8>) -> Seq<char> {
    match value {
        Some(p) => decimal(p as nat) + "%"@,
        None => "—"@,
    }
}

/// Whether some component has a fresh known percentage.
pub open spec fn has_fresh_battery(d: BluetoothAudioDevice) -> bool {
    exists|i: int|
        0 <= i < d.components@.len() && (#[trigger] d.components@[i]).percentage is Some
            && !d.components@[i].stale
}

/// Whether some fresh known percentage came from a verified vendor protocol.
pub open spec fn has_live_accessory_evidence(d: BluetoothAudioDevice) -> bool {
    exists|i: int|
        0 <= i < d.components@.len() && (#[trigger] d.components@[i]).percentage is Some
            && !d.components@[i].stale && d.components@[i].source == DataSource::VendorProtocol
            && d.components@[i].confidence == DataConfidence::Verified
}

/// The time of the last battery update, earliest possible when never updated.
pub open spec fn activity(d: BluetoothAudioDevice) -> int {
    match d.last_updated_at {
        Some(t) => t.unix_nanos as int,
        None => i128::MIN as int,
    }
}

/// Whether a device is the preferred one.
pub open spec fn is_preferred(d: BluetoothAudioDevice, preferred: Option<Seq<char>>) -> bool {
    match preferred {
        Some(id) => d.id@ == id,
        None => false,
    }
}

/// Whether a device may be the active one: connected, connecting, or with
/// live accessory evidence.
pub open spec fn is_active_candidate(d: BluetoothAudioDevice) -> bool {
    d.connection_state == ConnectionState::Connected || d.connection_state
        == ConnectionState::Connecting || has_live_accessory_evidence(d)
}

/// Whether `a` ranks at least as high as `b`: fresh battery first, then the
/// latest update, then the preference.
pub open spec fn outranks_or_ties(
    a: BluetoothAudioDevice,
    b: BluetoothAudioDevice,
    preferred: Option<Seq<char>>,
) -> bool {
    let fa = has_fresh_battery(a);
    let fb = has_fresh_battery(b);
    let pa = is_preferred(a, preferred);
    let pb = is_preferred(b, preferred);
    (fa && !fb) || (fa == fb && (activity(a) > activity(b) || (activity(a) == activity(b) && (pa
        || !pb))))
}

/// The position of the last highest-ranked active candidate.
pub open spec fn best_active(devices: Seq<BluetoothAudioDevice>, preferred: Option<Seq<char>>) -> Option<
    int,
>
    decreases devices.len(),
{
    if devices.len() == 0 {
        None
    } else {
        let prev = best_active(devices.drop_last(), preferred);
        let i = devices.len() - 1;
        if is_active_candidate(devices[i]) && (prev matches Some(b) ==> outranks_or_ties(
            devices[i],
            devices[b],
            preferred,
        )) {
            Some(i)
        } else {
            prev
        }
    }
}

/// The position of the first device with identifier `id`.
pub open spec fn first_with_id(devices: Seq<BluetoothAudioDevice>, id: Seq<char>) -> Option<int>
    decreases devices.len(),
{
    if devices.len() == 0 {
        None
    } else {
        match first_with_id(devices.drop_last(), id) {
            Some(i) => Some(i),
            None => if devices.last().id@ == id {
                Some(devices.len() - 1)
            } else {
                None
            },
        }
    }
}

/// The device the tray summarizes: the best active candidate, else the
/// preferred device, else the first device.
pub open spec fn selected_device(devices: Seq<BluetoothAudioDevice>, preferred: Option<Seq<char>>) -> Option<
    int,
> {
    match best_active(devices, preferred) {
        Some(i) => Some(i),
        None => {
            let by_id = match preferred {
                Some(id) => first_with_id(devices, id),
                None => None,
            };
            match by_id {
                Some(i) => Some(i),
                None => if devices.len() > 0 {
                    Some(0)
                } else {
                    None
                },
            }
        },
    }
}

/// The lower of the known earbud percentages.
pub open spec fn lower_known(left: Option<u8>, right: Option<u8>) -> Option<u8> {
    match (left, right) {
        (Some(l), Some(r)) => Some(if l < r { l } else { r }),
        (Some(l), None) => Some(l),
        (None, Some(r)) => Some(r),
        (None, None) => None,
    }
}

/// The label and icon percentage for a device: `L`, `R` and, for `AirPods`
/// or a known case, `C` values when components are split, else the one
/// aggregate value.
pub open spec fn summary_of(d: BluetoothAudioDevice) -> (Seq<char>, Option<u8>) {
    let comps = d.components@;
    let left = first_known(comps, ComponentType::Left);
    let right = first_known(comps, ComponentType::Right);
    let case = first_known(comps, ComponentType::Case);
    let aggregate = match first_known(comps, ComponentType::Aggregate) {
        Some(p) => Some(p),
        None => match first_known(comps, ComponentType::Headset) {
            Some(p) => Some(p),
            None => first_known(comps, ComponentType::Unknown),
        },
    };
    let airpods = d.device_family == DeviceFamily::AirPods;
    let split = (airpods && (left is Some || right is Some || case is Some)) || (left is Some
        && right is Some);
    if split {
        let base = "L "@ + percentage_label(left) + "  R "@ + percentage_label(right);
        (
            if airpods || case is Some {
                base + "  C "@ + percentage_label(case)
            } else {
                base
            },
            lower_known(left, right),
        )
    } else {
        (percentage_label(aggregate), aggregate)
    }
}

fn known_percentage(device: &BluetoothAudioDevice, component_type: ComponentType) -> (r: Option<
    u8,
>)
    ensures
        r == first_known(device.components@, component_type),
{
    let comps = &device.components;
    let mut i: usize = 0;
    assert(comps@.skip(0) =~= comps@);
    while i < comps.len()
        invariant
            i <= comps@.len(),
            comps@ == device.components@,
            first_known(comps@, component_type) == first_known(comps@.skip(i as int), component_type),
        decreases comps@.len() - i,
    {
        let c = comps[i];
        assert(comps@.skip(i as int)[0] == c);
        assert(comps@.skip(i as int).drop_first() =~= comps@.skip(i + 1));
        if c.component_type == component_type && !c.stale {
            match c.percentage {
                Some(p) => {
                    assert(shows_known(c, component_type));
                    assert(first_known(comps@.skip(i as int), component_type) == percentage_view(c.percentage));
                    let v = p.get();
                    assert(Some(v) == percentage_view(c.percentage));
                    return Some(v);
                },
                None => {},
            }
        }
        i = i + 1;
    }
    None
}

fn percentage_text(value: Option<u8>) -> (r: String)
    ensures
        r@ == percentage_label(value),
{
    match value {
        Some(p) => {
            let mut s = decimal_text(p as u64);
            s.append("%");
            s
        },
        None => String::from_str("—"),
    }
}

fn fresh_battery(device: &BluetoothAudioDevice) -> (r: bool)
    ensures
        r == has_fresh_battery(*device),
{
    let mut i: usize = 0;
    while i < device.components.len()
        invariant
            i <= device.components@.len(),
            forall|j: int|
                0 <= j < i ==> !((#[trigger] device.components@[j]).percentage is Some
                    && !device.components@[j].stale),
        decreases device.components@.len() - i,
    {
        let c = device.components[i];
        if c.percentage.is_some() && !c.stale {
            return true;
        }
        i = i + 1;
    }
    false
}

fn live_accessory_evidence(device: &BluetoothAudioDevice) -> (r: bool)
    ensures
        r == has_live_accessory_evidence(*device),
{
    let mut i: usize = 0;
    while i < device.components.len()
        invariant
            i <= device.components@.len(),
            forall|j: int|
                0 <= j < i ==> !((#[trigger] device.components@[j]).percentage is Some
                    && !device.components@[j].stale && device.components@[j].source
                    == DataSource::VendorProtocol && device.components@[j].confidence
                    == DataConfidence::Verified),
        decreases device.components@.len() - i,
    {
        let c = device.components[i];
        if c.percentage.is_some() && !c.stale && c.source == DataSource::VendorProtocol
            && c.confidence == DataConfidence::Verified {
            return true;
        }
        i = i + 1;
    }
    false
}

fn activity_timestamp(device: &BluetoothAudioDevice) -> (r: i128)
    ensures
        r == activity(*device),
{
    match device.last_updated_at {
        Some(t) => t.unix_nanos,
        None => i128::MIN,
    }
}

/// The text of an optional identifier.
pub open spec fn opt_id(value: Option<&str>) -> Option<Seq<char>> {
    match value {
        Some(v) => Some(v@),
        None => None,
    }
}

fn preferred_match(device: &BluetoothAudioDevice, preferred_device_id: Option<&str>) -> (r: bool)
    ensures
        r == is_preferred(*device, opt_id(preferred_device_id)),
{
    match preferred_device_id {
        Some(id) => same_text(device.id.as_str(), id),
        None => false,
    }
}

fn outranks(
    a: &BluetoothAudioDevice,
    b: &BluetoothAudioDevice,
    preferred_device_id: Option<&str>,
) -> (r: bool)
    ensures
        r == outranks_or_ties(*a, *b, opt_id(preferred_device_id)),
{
    let fa = fresh_battery(a);
    let fb = fresh_battery(b);
    let ta = activity_timestamp(a);
    let tb = activity_timestamp(b);
    let pa = preferred_match(a, preferred_device_id);
    let pb = preferred_match(b, preferred_device_id);
    (fa && !fb) || (fa == fb && (ta > tb || (ta == tb && (pa || !pb))))
}

fn select_active_device(devices: &[BluetoothAudioDevice], preferred_device_id: Option<&str>) -> (r:
    Option<usize>)
    ensures
        match r {
            Some(i) => selected_device(devices@, opt_id(preferred_device_id)) == Some(i as int) && i
                < devices@.len(),
            None => selected_device(devices@, opt_id(preferred_device_id)) is None,
        },
{
    let ghost pref = opt_id(preferred_device_id);
    let mut best: Option<usize> = None;
    let mut i: usize = 0;
    while i < devices.len()
        invariant
            i <= devices@.len(),
            pref == opt_id(preferred_device_id),
            match best {
                Some(b) => best_active(devices@.take(i as int), pref) == Some(b as int) && b < i,
                None => best_active(devices@.take(i as int), pref) is None,
            },
        decreases devices@.len() - i,
    {
        let d = &devices[i];
        assert(devices@.take(i + 1).drop_last() =~= devices@.take(i as int));
        assert(devices@.take(i + 1)[i as int] == devices@[i as int]);
        let candidate = d.connection_state == ConnectionState::Connected || d.connection_state
            == ConnectionState::Connecting || live_accessory_evidence(d);
        if candidate {
            let better = match best {
                Some(b) => {
                    assert(devices@.take(i + 1)[b as int] == devices@[b as int]);
                    outranks(d, &devices[b], preferred_device_id)
                },
                None => true,
            };
            if better {
                best = Some(i);
            }
        }
        i = i + 1;
    }
    assert(devices@.take(devices@.len() as int) =~= devices@);
    if best.is_some() {
        return best;
    }
    match preferred_device_id {
        Some(id) => {
            let mut j: usize = 0;
            while j < devices.len()
                invariant
                    j <= devices@.len(),
                    first_with_id(devices@.take(j as int), id@) is None,
                    best_active(devices@, pref) is None,
                    pref == Some(id@),
                    pref == opt_id(preferred_device_id),
                decreases devices@.len() - j,
            {
                assert(devices@.take(j + 1).drop_last() =~= devices@.take(j as int));
                if same_text(devices[j].id.as_str(), id) {
                    assert(first_with_id(devices@.take(j + 1), id@) == Some(j as int));
                    proof {
                        lemma_first_with_id_prefix(devices@, j + 1, id@);
                    }
                    assert(first_with_id(devices@, id@) == Some(j as int));
                    assert(selected_device(devices@, pref) == Some(j as int));
                    return Some(j);
                }
                j = j + 1;
            }
            assert(devices@.take(devices@.len() as int) =~= devices@);
        },
        None => {},
    }
    if devices.len() > 0 {
        Some(0)
    } else {
        None
    }
}

proof fn lemma_first_with_id_prefix(devices: Seq<BluetoothAudioDevice>, k: int, id: Seq<char>)
    requires
        0 <= k <= devices.len(),
        first_with_id(devices.take(k), id) is Some,
    ensures
        first_with_id(devices, id) == first_with_id(devices.take(k), id),
    decreases devices.len() - k,
{
    if k < devices.len() {
        assert(devices.take(k + 1).drop_last() =~= devices.take(k));
        lemma_first_with_id_prefix(devices, k + 1, id);
    } else {
        assert(devices.take(k) =~= devices);
    }
}

/// Selects the active, preferred, or first device and builds a truthful
/// tray summary of it; nothing when there is no device.
pub fn tray_snapshot(devices: &[BluetoothAudioDevice], preferred_device_id: Option<&str>) -> (r:
    Option<TraySnapshot>)
    ensures
        match selected_device(devices@, opt_id(preferred_device_id)) {
            None => r is None,
            Some(i) => r matches Some(s) && s.device_name@ == devices@[i].display_name@ && (
            s.label@, s.icon_percentage) == summary_of(devices@[i]),
        },
{
    let index = match select_active_device(devices, preferred_device_id) {
        Some(i) => i,
        None => {
            return None;
        },
    };
    let device = &devices[index];
    let left = known_percentage(device, ComponentType::Left);
    let right = known_percentage(device, ComponentType::Right);
    let case = known_percentage(device, ComponentType::Case);
    let aggregate = match known_percentage(device, ComponentType::Aggregate) {
        Some(p) => Some(p),
        None => match known_percentage(device, ComponentType::Headset) {
            Some(p) => Some(p),
            None => known_percentage(device, ComponentType::Unknown),
        },
    };
    let airpods = device.device_family == DeviceFamily::AirPods;
    let has_split_component = left.is_some() || right.is_some() || case.is_some();
    let split = (airpods && has_split_component) || (left.is_some() && right.is_some());
    let (label, icon_percentage) = if split {
        let mut label = String::from_str("L ");
        label.append(percentage_text(left).as_str());
        label.append("  R ");
        label.append(percentage_text(right).as_str());
        if airpods || case.is_some() {
            label.append("  C ");
            label.append(percentage_text(case).as_str());
        }
        let lowest = match (left, right) {
            (Some(l), Some(r)) => Some(if l < r { l } else { r }),
            (Some(l), None) => Some(l),
            (None, Some(r)) => Some(r),
            (None, None) => None,
        };
        (label, lowest)
    } else {
        (percentage_text(aggregate), aggregate)
    };
    Some(TraySnapshot { device_name: device.display_name.clone(), label, icon_percentage })
}

/// The tray tooltip for a summary, or for no summary.
pub open spec fn tooltip_text(snapshot: Option<TraySnapshot>) -> Seq<char> {
    match snapshot {
        Some(s) => "AirBattery · "@ + s.device_name@ + " · "@ + s.label@,
        None => "AirBattery · battery data unavailable"@,
    }
}

/// The tray tooltip for a summary, or for no summary.
pub fn tray_tooltip(snapshot: &Option<TraySnapshot>) -> (r: String)
    ensures
        r@ == tooltip_text(*snapshot),
{
    match snapshot {
        Some(s) => {
            let mut t = String::from_str("AirBattery · ");
            t.append(s.device_name.as_str());
            t.append(" · ");
            t.append(s.label.as_str());
            t
        },
        None => String::from_str("AirBattery · battery data unavailable"),
    }
}


/// The known value of a component type comes from a fresh component of that
/// type holding that percentage; a stale component never supplies it.
pub proof fn lemma_known_value_is_fresh(comps: Seq<BatteryComponent>, t: ComponentType)
    ensures
        first_known(comps, t) matches Some(p) ==> exists|i: int|
            0 <= i < comps.len() && (#[trigger] comps[i]).component_type == t && !comps[i].stale
                && percentage_view(comps[i].percentage) == Some(p),
        (forall|i: int| 0 <= i < comps.len() ==> (#[trigger] comps[i]).stale) ==> first_known(comps, t)
            is None,
    decreases comps.len(),
{
    if comps.len() > 0 {
        let rest = comps.drop_first();
        lemma_known_value_is_fresh(rest, t);
        if !shows_known(comps[0], t) {
            if let Some(p) = first_known(comps, t) {
                let j = choose|j: int|
                    0 <= j < rest.len() && (#[trigger] rest[j]).component_type == t && !rest[j].stale
                        && percentage_view(rest[j].percentage) == Some(p);
                assert(comps[j + 1] == rest[j]);
            }
        }
        if forall|i: int| 0 <= i < comps.len() ==> (#[trigger] comps[i]).stale {
            assert forall|i: int| 0 <= i < rest.len() implies (#[trigger] rest[i]).stale by {
                assert(rest[i] == comps[i + 1]);
            }
            assert(comps[0].stale);
        }
    }
}

/// The tray's icon percentage of a device is a percentage that some fresh
/// component of the device holds, and a device whose components are all
/// stale shows no percentage: stale values are never shown as current.
pub proof fn lemma_icon_percentage_is_fresh(d: BluetoothAudioDevice)
    ensures
        summary_of(d).1 matches Some(p) ==> exists|i: int|
            0 <= i < d.components@.len() && !(#[trigger] d.components@[i]).stale
                && percentage_view(d.components@[i].percentage) == Some(p),
        (forall|i: int| 0 <= i < d.components@.len() ==> (#[trigger] d.components@[i]).stale)
            ==> summary_of(d).1 is None,
{
    let comps = d.components@;
    lemma_known_value_is_fresh(comps, ComponentType::Left);
    lemma_known_value_is_fresh(comps, ComponentType::Right);
    lemma_known_value_is_fresh(comps, ComponentType::Case);
    lemma_known_value_is_fresh(comps, ComponentType::Aggregate);
    lemma_known_value_is_fresh(comps, ComponentType::Headset);
    lemma_known_value_is_fresh(comps, ComponentType::Unknown);
}
} // verus!
