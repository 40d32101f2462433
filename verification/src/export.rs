//! Diagnostic export: what a sanitized report summarizes of the current
//! devices, the file it is written to, and the bundle handed to the frontend.

use vstd::prelude::*;

use crate::battery::{
    percentage_view, BatteryComponent, ChargingState, ComponentType, DataConfidence, DataSource,
};
use crate::device::{BluetoothAudioDevice, ConnectionState, DeviceFamily, DeviceVisual};
use crate::engine::opt_text;
use crate::timestamp::Timestamp;
use crate::text::{decimal, text_with_number};

verus! {

/// Diagnostic export metadata returned to the frontend.
#[derive(Debug, Clone)]
pub struct DiagnosticBundle {
    path: String,
    created_at: String,
}

impl DiagnosticBundle {
    /// The path of the written report.
    pub closed spec fn spec_path(&self) -> Seq<char> {
        self.path@
    }

    /// The report's creation time, as written into it.
    pub closed spec fn spec_created_at(&self) -> Seq<char> {
        self.created_at@
    }

    /// Metadata for a report written to `path` at `created_at`.
    pub fn new(path: String, created_at: String) -> (r: DiagnosticBundle)
        ensures
            r.spec_path() == path@,
            r.spec_created_at() == created_at@,
    {
        DiagnosticBundle { path, created_at }
    }

    /// The path of the written report.
    pub fn path(&self) -> (r: &str)
        ensures
            r@ == self.spec_path(),
    {
        self.path.as_str()
    }

    /// The report's creation time.
    pub fn created_at(&self) -> (r: &str)
        ensures
            r@ == self.spec_created_at(),
    {
        self.created_at.as_str()
    }
}

/// What a diagnostic report says of the current devices.
#[derive(Debug, Clone, PartialEq, Eq)]
pub struct DiagnosticSummary {
    /// Number of devices.
    pub device_count: usize,
    /// Number of connected devices.
    pub connected_device_count: usize,
    /// The devices' privacy-safe identifiers, in device order.
    pub sanitized_device_ids: Vec<String>,
    /// Every source some component came from, once each, in declared order.
    pub data_sources: Vec<DataSource>,
}

/// The number of connected devices.
pub open spec fn connected_count(devices: Seq<BluetoothAudioDevice>) -> nat
    decreases devices.len(),
{
    if devices.len() == 0 {
        0
    } else {
        connected_count(devices.drop_last()) + if devices.last().connection_state
            == ConnectionState::Connected {
            1nat
        } else {
            0nat
        }
    }
}

/// The position of a source in its declared order.
pub open spec fn source_rank(source: DataSource) -> int {
    match source {
        DataSource::AirPodsAdvertisement => 0,
        DataSource::BluezBattery => 1,
        DataSource::StandardBleBattery => 2,
        DataSource::WindowsBattery => 3,
        DataSource::ServiceData => 4,
        DataSource::HidBattery => 5,
        DataSource::VendorProtocol => 6,
        DataSource::AggregatePlatform => 7,
    }
}

/// Whether some component of some device came from `source`.
pub open spec fn reports_source(devices: Seq<BluetoothAudioDevice>, source: DataSource) -> bool {
    exists|i: int, j: int|
        0 <= i < devices.len() && 0 <= j < devices[i].components@.len()
            && (#[trigger] devices[i].components@[j]).source == source
}

/// Whether a list of sources is strictly increasing in declared order.
pub open spec fn sources_ordered(sources: Seq<DataSource>) -> bool {
    forall|i: int, j: int|
        0 <= i < j < sources.len() ==> source_rank(#[trigger] sources[i]) < source_rank(
            #[trigger] sources[j],
        )
}

fn device_reports(device: &BluetoothAudioDevice, source: DataSource) -> (r: bool)
    ensures
        r == exists|j: int|
            0 <= j < device.components@.len() && (#[trigger] device.components@[j]).source
                == source,
{
    let mut j: usize = 0;
    while j < device.components.len()
        invariant
            j <= device.components@.len(),
            forall|k: int| 0 <= k < j ==> (#[trigger] device.components@[k]).source != source,
        decreases device.components@.len() - j,
    {
        if device.components[j].source == source {
            return true;
        }
        j = j + 1;
    }
    false
}

fn any_reports(devices: &[BluetoothAudioDevice], source: DataSource) -> (r: bool)
    ensures
        r == reports_source(devices@, source),
{
    let mut i: usize = 0;
    while i < devices.len()
        invariant
            i <= devices@.len(),
            forall|k: int, j: int|
                0 <= k < i && 0 <= j < devices@[k].components@.len() ==> (
                #[trigger] devices@[k].components@[j]).source != source,
        decreases devices@.len() - i,
    {
        if device_reports(&devices[i], source) {
            let ghost d = devices@[i as int];
            let ghost j = choose|j: int|
                0 <= j < d.components@.len() && (#[trigger] d.components@[j]).source == source;
            assert(devices@[i as int].components@[j].source == source);
            return true;
        }
        i = i + 1;
    }
    false
}

/// Whether `sources` lists, in declared order, exactly the reported sources
/// of rank below `k`.
pub open spec fn lists_sources_below(
    sources: Seq<DataSource>,
    devices: Seq<BluetoothAudioDevice>,
    k: int,
) -> bool {
    &&& sources_ordered(sources)
    &&& forall|i: int| 0 <= i < sources.len() ==> source_rank(#[trigger] sources[i]) < k
    &&& forall|s: DataSource|
        sources.contains(s) <==> (reports_source(devices, s) && source_rank(s) < k)
}

fn push_if_reported(out: &mut Vec<DataSource>, devices: &[BluetoothAudioDevice], source: DataSource)
    requires
        lists_sources_below(old(out)@, devices@, source_rank(source)),
    ensures
        lists_sources_below(final(out)@, devices@, source_rank(source) + 1),
{
    let ghost before = out@;
    if any_reports(devices, source) {
        out.push(source);
        assert forall|s: DataSource|
            out@.contains(s) <==> (reports_source(devices@, s) && source_rank(s) < source_rank(
                source,
            ) + 1) by {
            if out@.contains(s) && s != source {
                let i = choose|i: int| 0 <= i < out@.len() && out@[i] == s;
                assert(before[i] == s);
            }
            if s == source {
                assert(out@[before.len() as int] == s);
            } else if reports_source(devices@, s) && source_rank(s) < source_rank(source) + 1 {
                assert(before.contains(s));
                let i = choose|i: int| 0 <= i < before.len() && before[i] == s;
                assert(out@[i] == s);
            }
        }
    } else {
        assert forall|s: DataSource|
            out@.contains(s) <==> (reports_source(devices@, s) && source_rank(s) < source_rank(
                source,
            ) + 1) by {
            if out@.contains(s) {
                let i = choose|i: int| 0 <= i < out@.len() && out@[i] == s;
                assert(source_rank(out@[i]) < source_rank(source));
            }
        }
    }
}

/// Summarizes devices for a diagnostic report: how many there are, how many
/// are connected, their identifiers, and the sources their components came
/// from, each once, in declared order.
pub fn diagnostic_summary(devices: &[BluetoothAudioDevice]) -> (r: DiagnosticSummary)
    ensures
        r.device_count == devices@.len(),
        r.connected_device_count == connected_count(devices@),
        r.sanitized_device_ids@.map_values(|s: String| s@) == devices@.map_values(
            |d: BluetoothAudioDevice| d.id@,
        ),
        sources_ordered(r.data_sources@),
        forall|s: DataSource| r.data_sources@.contains(s) <==> reports_source(devices@, s),
{
    let mut connected: usize = 0;
    let mut ids: Vec<String> = Vec::new();
    let mut i: usize = 0;
    while i < devices.len()
        invariant
            i <= devices@.len(),
            connected <= i,
            connected == connected_count(devices@.take(i as int)),
            ids@.map_values(|s: String| s@) == devices@.take(i as int).map_values(
                |d: BluetoothAudioDevice| d.id@,
            ),
        decreases devices@.len() - i,
    {
        assert(devices@.take(i + 1).drop_last() =~= devices@.take(i as int));
        if devices[i].connection_state == ConnectionState::Connected {
            connected = connected + 1;
        }
        let ghost before = ids@.map_values(|s: String| s@);
        let id = devices[i].id.clone();
        assert(id@ == devices@[i as int].id@);
        ids.push(id);
        assert(ids@.map_values(|s: String| s@) =~= before.push(devices@[i as int].id@));
        assert(devices@.take(i + 1).map_values(|d: BluetoothAudioDevice| d.id@)
            =~= devices@.take(i as int).map_values(|d: BluetoothAudioDevice| d.id@).push(
            devices@[i as int].id@,
        ));
        i = i + 1;
    }
    assert(devices@.take(devices@.len() as int) =~= devices@);
    let mut sources: Vec<DataSource> = Vec::new();
    push_if_reported(&mut sources, devices, DataSource::AirPodsAdvertisement);
    push_if_reported(&mut sources, devices, DataSource::BluezBattery);
    push_if_reported(&mut sources, devices, DataSource::StandardBleBattery);
    push_if_reported(&mut sources, devices, DataSource::WindowsBattery);
    push_if_reported(&mut sources, devices, DataSource::ServiceData);
    push_if_reported(&mut sources, devices, DataSource::HidBattery);
    push_if_reported(&mut sources, devices, DataSource::VendorProtocol);
    push_if_reported(&mut sources, devices, DataSource::AggregatePlatform);
    DiagnosticSummary {
        device_count: devices.len(),
        connected_device_count: connected,
        sanitized_device_ids: ids,
        data_sources: sources,
    }
}

/// A whole number in decimal, with a leading minus sign when negative.
pub open spec fn signed_decimal(n: int) -> Seq<char> {
    if n < 0 {
        "-"@ + decimal((-n) as nat)
    } else {
        decimal(n as nat)
    }
}

/// The file name of a report written at `unix_seconds`.
pub fn diagnostics_file_name(unix_seconds: i64) -> (r: String)
    ensures
        r@ == "airbattery-diagnostics-"@ + signed_decimal(unix_seconds as int) + ".json"@,
{
    proof {
        reveal_strlit("airbattery-diagnostics-");
        reveal_strlit("airbattery-diagnostics--");
        reveal_strlit("-");
    }
    if unix_seconds < 0 {
        let magnitude: u64 = (0i128 - (unix_seconds as i128)) as u64;
        let r = text_with_number("airbattery-diagnostics--", magnitude, ".json");
        assert(r@ =~= "airbattery-diagnostics-"@ + signed_decimal(unix_seconds as int)
            + ".json"@);
        r
    } else {
        text_with_number("airbattery-diagnostics-", unix_seconds as u64, ".json")
    }
}

/// One component as a diagnostic report lists it.
#[derive(Debug, Clone, Copy, PartialEq, Eq, Structural)]
pub struct DiagnosticComponent {
    /// Component kind.
    pub component_type: ComponentType,
    /// Percentage when known.
    pub percentage: Option<u8>,
    /// Charging state.
    pub charging_state: ChargingState,
    /// Source of the value.
    pub source: DataSource,
    /// Confidence of the value.
    pub confidence: DataConfidence,
    /// Whether the value is stale.
    pub stale: bool,
    /// Time of the value.
    pub updated_at: Timestamp,
}

/// Whether `d` lists component `c`.
pub open spec fn lists_component(d: DiagnosticComponent, c: BatteryComponent) -> bool {
    &&& d.component_type == c.component_type
    &&& d.percentage == percentage_view(c.percentage)
    &&& d.charging_state == c.charging_state
    &&& d.source == c.source
    &&& d.confidence == c.confidence
    &&& d.stale == c.stale
    &&& d.updated_at == c.updated_at
}

/// One component as a diagnostic report lists it.
pub fn diagnostic_component(c: &BatteryComponent) -> (r: DiagnosticComponent)
    ensures
        lists_component(r, *c),
{
    DiagnosticComponent {
        component_type: c.component_type,
        percentage: match c.percentage {
            Some(p) => Some(p.get()),
            None => None,
        },
        charging_state: c.charging_state,
        source: c.source,
        confidence: c.confidence,
        stale: c.stale,
        updated_at: c.updated_at,
    }
}

/// One device as a diagnostic report lists it: privacy-safe fields only.
#[derive(Debug, Clone)]
pub struct DiagnosticDevice {
    /// Privacy-safe identifier.
    pub id: String,
    /// User-visible name.
    pub display_name: String,
    /// Manufacturer when detected.
    pub manufacturer: Option<String>,
    /// Model when detected.
    pub model: Option<String>,
    /// Device family.
    pub family: DeviceFamily,
    /// Presentation artwork.
    pub visual: DeviceVisual,
    /// Connection state.
    pub connection_state: ConnectionState,
    /// Components.
    pub components: Vec<DiagnosticComponent>,
}

/// One device as a diagnostic report lists it.
pub fn diagnostic_device(d: &BluetoothAudioDevice) -> (r: DiagnosticDevice)
    ensures
        r.id@ == d.id@,
        r.display_name@ == d.display_name@,
        opt_text(r.manufacturer) == opt_text(d.manufacturer),
        opt_text(r.model) == opt_text(d.model),
        r.family == d.device_family,
        r.visual.key@ == d.visual.key@,
        r.visual.confidence == d.visual.confidence,
        r.connection_state == d.connection_state,
        r.components@.len() == d.components@.len(),
        forall|i: int|
            0 <= i < d.components@.len() ==> lists_component(
                #[trigger] r.components@[i],
                d.components@[i],
            ),
{
    let mut components: Vec<DiagnosticComponent> = Vec::new();
    let mut i: usize = 0;
    while i < d.components.len()
        invariant
            i <= d.components@.len(),
            components@.len() == i,
            forall|k: int|
                0 <= k < i ==> lists_component(#[trigger] components@[k], d.components@[k]),
        decreases d.components@.len() - i,
    {
        components.push(diagnostic_component(&d.components[i]));
        i = i + 1;
    }
    DiagnosticDevice {
        id: d.id.clone(),
        display_name: d.display_name.clone(),
        manufacturer: match &d.manufacturer {
            Some(m) => Some(m.clone()),
            None => None,
        },
        model: match &d.model {
            Some(m) => Some(m.clone()),
            None => None,
        },
        family: d.device_family,
        visual: DeviceVisual { key: d.visual.key.clone(), confidence: d.visual.confidence },
        connection_state: d.connection_state,
        components,
    }
}

} // verus!
