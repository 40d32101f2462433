//! Native backend failures and the platform collections built from what the
//! `BlueZ` and Windows backends report.

use vstd::prelude::*;

use crate::desktop::{
    discovery_window, discovery_window_seconds, linux_detail, linux_status_detail, BackendStatus,
    PlatformCollection, PlatformKind, RefreshMode,
};
use crate::engine::{opt_text, DeviceDescriptor};
use crate::provider::RawObservation;
use crate::device::ConnectionState;
use crate::text::{decimal, push_char, text_with_number, trim_seq, trim_text};
use crate::windows::{hex_text, push_hex, zero_padded};

verus! {

/// Read-only adapter status.
#[derive(Debug, Clone, PartialEq, Eq)]
pub struct LinuxBackendStatus {
    /// `BlueZ` adapter name, such as `hci0`.
    pub adapter_name: String,
    /// Whether the adapter is powered.
    pub powered: bool,
    /// Whether the adapter is currently discovering.
    pub discovering: bool,
}

/// Linux Bluetooth backend failure.
#[derive(Debug, Clone, PartialEq, Eq)]
pub enum BluetoothLinuxError {
    /// `BlueZ` or the system D-Bus is unavailable; the text says why.
    BackendUnavailable(String),
    /// The selected adapter exists but is powered off.
    AdapterPoweredOff,
}

/// The text of a Linux backend failure.
pub open spec fn linux_error_text(error: BluetoothLinuxError) -> Seq<char> {
    match error {
        BluetoothLinuxError::BackendUnavailable(detail) => "BlueZ backend unavailable: "@ + detail@,
        BluetoothLinuxError::AdapterPoweredOff => "Bluetooth adapter is powered off"@,
    }
}

impl BluetoothLinuxError {
    /// The failure as a user-facing sentence.
    pub fn message(&self) -> (r: String)
        ensures
            r@ == linux_error_text(*self),
    {
        match self {
            BluetoothLinuxError::BackendUnavailable(detail) => {
                let mut s = String::from_str("BlueZ backend unavailable: ");
                s.append(detail.as_str());
                s
            },
            BluetoothLinuxError::AdapterPoweredOff => String::from_str(
                "Bluetooth adapter is powered off",
            ),
        }
    }
}

/// Native Windows Bluetooth failure.
#[derive(Debug, Clone, PartialEq, Eq)]
pub enum WindowsBluetoothError {
    /// A Windows Runtime API failed; the text is the API's error message.
    Native(String),
    /// The backend was invoked on a non-Windows target.
    UnsupportedTarget,
}

/// The text of a Windows backend failure.
pub open spec fn windows_error_text(error: WindowsBluetoothError) -> Seq<char> {
    match error {
        WindowsBluetoothError::Native(detail) => "Windows Bluetooth API failed: "@ + detail@,
        WindowsBluetoothError::UnsupportedTarget =>
            "Windows Bluetooth backend is unavailable on this operating system"@,
    }
}

impl WindowsBluetoothError {
    /// The failure as a user-facing sentence.
    pub fn message(&self) -> (r: String)
        ensures
            r@ == windows_error_text(*self),
    {
        match self {
            WindowsBluetoothError::Native(detail) => {
                let mut s = String::from_str("Windows Bluetooth API failed: ");
                s.append(detail.as_str());
                s
            },
            WindowsBluetoothError::UnsupportedTarget => String::from_str(
                "Windows Bluetooth backend is unavailable on this operating system",
            ),
        }
    }
}

/// Wraps the message of a failed Windows Runtime call.
pub fn native_error(message: String) -> (r: WindowsBluetoothError)
    ensures
        r == WindowsBluetoothError::Native(message),
{
    WindowsBluetoothError::Native(message)
}

/// `n` in lower-case hexadecimal, zero-padded to `width` digits.
pub open spec fn hex_field(n: nat, width: nat) -> Seq<char> {
    zero_padded(hex_text(n), width)
}

/// A GUID in its hyphenated lower-case form: eight, four, four, four and
/// twelve hexadecimal digits.
pub open spec fn guid_text(data1: u32, data2: u16, data3: u16, data4: Seq<u8>) -> Seq<char> {
    hex_field(data1 as nat, 8) + seq!['-'] + hex_field(data2 as nat, 4) + seq!['-'] + hex_field(
        data3 as nat,
        4,
    ) + seq!['-'] + hex_field(data4[0] as nat, 2) + hex_field(data4[1] as nat, 2) + seq!['-']
        + hex_field(data4[2] as nat, 2) + hex_field(data4[3] as nat, 2) + hex_field(
        data4[4] as nat,
        2,
    ) + hex_field(data4[5] as nat, 2) + hex_field(data4[6] as nat, 2) + hex_field(
        data4[7] as nat,
        2,
    )
}

fn push_field(out: &mut Vec<char>, n: u64, width: usize)
    ensures
        final(out)@ == old(out)@ + hex_field(n as nat, width as nat),
{
    let mut digits: Vec<char> = Vec::new();
    push_hex(&mut digits, n);
    assert(digits@ =~= hex_text(n as nat));
    let ghost start = out@;
    let mut k: usize = digits.len();
    while k < width
        invariant
            digits@ == hex_text(n as nat),
            digits@.len() <= k <= width || (k == digits@.len() && k >= width),
            out@ == start + Seq::new((k - digits@.len()) as nat, |i: int| '0'),
        decreases width - k,
    {
        out.push('0');
        assert(out@ =~= start + Seq::new((k + 1 - digits@.len()) as nat, |i: int| '0'));
        k = k + 1;
    }
    let ghost padded = out@;
    let mut i: usize = 0;
    while i < digits.len()
        invariant
            i <= digits@.len(),
            out@ == padded + digits@.take(i as int),
        decreases digits@.len() - i,
    {
        out.push(digits[i]);
        assert(digits@.take(i + 1) =~= digits@.take(i as int).push(digits@[i as int]));
        assert(out@ =~= padded + digits@.take(i + 1));
        i = i + 1;
    }
    assert(digits@.take(digits@.len() as int) =~= digits@);
    if digits.len() < width {
        assert(out@ =~= start + hex_field(n as nat, width as nat));
    } else {
        assert(Seq::new(0, |i: int| '0') =~= Seq::<char>::empty());
        assert(out@ =~= start + hex_field(n as nat, width as nat));
    }
}

/// Formats a GUID in its hyphenated lower-case form.
pub fn format_guid(data1: u32, data2: u16, data3: u16, data4: [u8; 8]) -> (r: String)
    ensures
        r@ == guid_text(data1, data2, data3, data4@),
{
    let mut cs: Vec<char> = Vec::new();
    push_field(&mut cs, data1 as u64, 8);
    cs.push('-');
    push_field(&mut cs, data2 as u64, 4);
    cs.push('-');
    push_field(&mut cs, data3 as u64, 4);
    cs.push('-');
    push_field(&mut cs, data4[0] as u64, 2);
    push_field(&mut cs, data4[1] as u64, 2);
    cs.push('-');
    push_field(&mut cs, data4[2] as u64, 2);
    push_field(&mut cs, data4[3] as u64, 2);
    push_field(&mut cs, data4[4] as u64, 2);
    push_field(&mut cs, data4[5] as u64, 2);
    push_field(&mut cs, data4[6] as u64, 2);
    push_field(&mut cs, data4[7] as u64, 2);
    assert(cs@ =~= guid_text(data1, data2, data3, data4@));
    let mut r = String::new();
    let mut i: usize = 0;
    while i < cs.len()
        invariant
            i <= cs@.len(),
            r@ == cs@.take(i as int),
        decreases cs@.len() - i,
    {
        push_char(&mut r, cs[i]);
        assert(cs@.take(i + 1) =~= cs@.take(i as int).push(cs@[i as int]));
        i = i + 1;
    }
    assert(cs@.take(cs@.len() as int) =~= cs@);
    r
}

/// Whether a name is empty once white space is trimmed.
pub open spec fn is_blank(s: Seq<char>) -> bool {
    trim_seq(s).len() == 0
}

/// The name of a paired Windows device: the device's own name unless blank,
/// else the enumeration name unless blank, else a generic label.
pub open spec fn known_name(device_name: Option<Seq<char>>, info_name: Option<Seq<char>>) -> Seq<
    char,
> {
    match device_name {
        Some(n) if !is_blank(n) => n,
        _ => match info_name {
            Some(n) if !is_blank(n) => n,
            _ => "Bluetooth LE device"@,
        },
    }
}

fn blank(s: &str) -> (r: bool)
    ensures
        r == is_blank(s@),
{
    let t = trim_text(s);
    t.as_str().unicode_len() == 0
}

/// The name of a paired Windows device.
pub fn known_device_name(device_name: Option<String>, info_name: Option<String>) -> (r: String)
    ensures
        r@ == known_name(opt_text(device_name), opt_text(info_name)),
{
    match device_name {
        Some(n) if !blank(n.as_str()) => n,
        _ => match info_name {
            Some(n) if !blank(n.as_str()) => n,
            _ => String::from_str("Bluetooth LE device"),
        },
    }
}

/// The connection state Windows reports: connected, disconnected, or
/// unknown when the status could not be read.
pub fn connection_from_status(connected: Option<bool>) -> (r: ConnectionState)
    ensures
        r == match connected {
            Some(true) => ConnectionState::Connected,
            Some(false) => ConnectionState::Disconnected,
            None => ConnectionState::Unknown,
        },
{
    match connected {
        Some(true) => ConnectionState::Connected,
        Some(false) => ConnectionState::Disconnected,
        None => ConnectionState::Unknown,
    }
}

/// A Battery Level characteristic value, kept only when it is a percentage.
pub fn standard_battery_value(value: u8) -> (r: Option<u8>)
    ensures
        r == if value <= 100 {
            Some(value)
        } else {
            None::<u8>
        },
{
    if value <= 100 {
        Some(value)
    } else {
        None
    }
}

/// One Windows refresh transaction consumed by the desktop host.
#[derive(Debug)]
pub struct WindowsCollection {
    /// Whether the native adapter could be queried.
    pub available: bool,
    /// Adapter display name when Windows exposes one.
    pub adapter_name: Option<String>,
    /// Radio power state when exposed.
    pub powered: Option<bool>,
    /// User-safe status detail.
    pub detail: String,
    /// Privacy-safe device metadata with backend ids retained internally.
    pub descriptors: Vec<DeviceDescriptor>,
    /// Connection, Battery Service, and advertisement observations.
    pub observations: Vec<RawObservation>,
}

/// The detail of an available Windows backend for a discovery window.
pub open spec fn windows_detail_text(window_seconds: Option<u64>) -> Seq<char> {
    match window_seconds {
        Some(n) => "Windows Bluetooth is available; paired GATT data and a "@ + decimal(n as nat)
            + "-second BLE advertisement window were combined."@,
        None => "Windows Bluetooth is available; paired GATT battery data was refreshed."@,
    }
}

/// The detail of an available Windows backend for a discovery window.
pub fn windows_detail(window_seconds: Option<u64>) -> (r: String)
    ensures
        r@ == windows_detail_text(window_seconds),
{
    match window_seconds {
        Some(n) => text_with_number(
            "Windows Bluetooth is available; paired GATT data and a ",
            n,
            "-second BLE advertisement window were combined.",
        ),
        None => String::from_str(
            "Windows Bluetooth is available; paired GATT battery data was refreshed.",
        ),
    }
}

/// An empty collection for a backend that could not be used.
pub fn unavailable_collection(platform: PlatformKind, detail: &str) -> (r: PlatformCollection)
    ensures
        r.status.platform == platform,
        !r.status.available,
        r.status.adapter_name is None,
        r.status.powered is None,
        r.status.discovering is None,
        r.status.detail@ == detail@,
        r.descriptors@.len() == 0,
        r.observations@.len() == 0,
{
    PlatformCollection {
        status: BackendStatus::unavailable(platform, String::from_str(detail)),
        descriptors: Vec::new(),
        observations: Vec::new(),
    }
}

/// The collection for a build target without a Bluetooth backend.
pub fn unsupported_collection() -> (r: PlatformCollection)
    ensures
        r.status.platform == PlatformKind::Unsupported,
        !r.status.available,
        r.status.detail@ == "No Bluetooth backend is available for this operating system."@,
        r.descriptors@.len() == 0,
        r.observations@.len() == 0,
{
    unavailable_collection(
        PlatformKind::Unsupported,
        "No Bluetooth backend is available for this operating system.",
    )
}

/// The collection of a refresh whose `BlueZ` session could not be opened:
/// the backend is unavailable and nothing was collected.
pub fn linux_session_unavailable() -> (r: PlatformCollection)
    ensures
        r.status.platform == PlatformKind::Linux,
        !r.status.available,
        r.status.adapter_name is None,
        r.status.powered is None,
        r.status.discovering is None,
        r.status.detail@ == "BlueZ is unavailable or no Bluetooth adapter was found."@,
        r.descriptors@.len() == 0,
        r.observations@.len() == 0,
{
    unavailable_collection(
        PlatformKind::Linux,
        "BlueZ is unavailable or no Bluetooth adapter was found.",
    )
}

/// The collection of a refresh whose adapter status could not be read: the
/// backend is unavailable and nothing was collected.
pub fn linux_status_unreadable() -> (r: PlatformCollection)
    ensures
        r.status.platform == PlatformKind::Linux,
        !r.status.available,
        r.status.adapter_name is None,
        r.status.powered is None,
        r.status.discovering is None,
        r.status.detail@ == "The Bluetooth adapter status could not be read."@,
        r.descriptors@.len() == 0,
        r.observations@.len() == 0,
{
    unavailable_collection(PlatformKind::Linux, "The Bluetooth adapter status could not be read.")
}

/// Whether a discovery window may start on an adapter: only a powered
/// adapter is scanned; a powered-off one is refused and never powered on.
pub fn scan_precondition(powered: bool) -> (r: Result<(), BluetoothLinuxError>)
    ensures
        r is Ok <==> powered,
        !powered ==> r == Err::<(), BluetoothLinuxError>(BluetoothLinuxError::AdapterPoweredOff),
{
    if powered {
        Ok(())
    } else {
        Err(BluetoothLinuxError::AdapterPoweredOff)
    }
}

/// The status of an adapter whose known devices could not be read.
pub fn linux_devices_unreadable(native: LinuxBackendStatus) -> (r: PlatformCollection)
    ensures
        r.status.platform == PlatformKind::Linux,
        !r.status.available,
        opt_text(r.status.adapter_name) == Some(native.adapter_name@),
        r.status.powered == Some(native.powered),
        r.status.discovering == Some(native.discovering),
        r.status.detail@ == "Known Bluetooth devices could not be read."@,
        r.descriptors@.len() == 0,
        r.observations@.len() == 0,
{
    PlatformCollection {
        status: BackendStatus {
            platform: PlatformKind::Linux,
            available: false,
            adapter_name: Some(native.adapter_name),
            powered: Some(native.powered),
            discovering: Some(native.discovering),
            detail: String::from_str("Known Bluetooth devices could not be read."),
        },
        descriptors: Vec::new(),
        observations: Vec::new(),
    }
}

/// The collection of an available `BlueZ` backend: the adapter's state, the
/// detail for the refresh, and the collected descriptors and observations.
pub fn linux_collection(
    native: LinuxBackendStatus,
    discovery_failed: bool,
    mode: RefreshMode,
    descriptors: Vec<DeviceDescriptor>,
    observations: Vec<RawObservation>,
) -> (r: PlatformCollection)
    ensures
        r.status.platform == PlatformKind::Linux,
        r.status.available,
        opt_text(r.status.adapter_name) == Some(native.adapter_name@),
        r.status.powered == Some(native.powered),
        r.status.discovering == Some(native.discovering),
        r.status.detail@ == linux_detail(native.powered, discovery_failed, mode),
        r.descriptors == descriptors,
        r.observations == observations,
{
    let detail = linux_status_detail(native.powered, discovery_failed, mode);
    PlatformCollection {
        status: BackendStatus {
            platform: PlatformKind::Linux,
            available: true,
            adapter_name: Some(native.adapter_name),
            powered: Some(native.powered),
            discovering: Some(native.discovering),
            detail: String::from_str(detail),
        },
        descriptors,
        observations,
    }
}

/// The platform collection for a Windows refresh in `mode`: a failed one is
/// an unavailable backend, a successful one keeps what Windows reported and
/// marks discovery as active when the mode allows a window.
pub fn windows_collection(
    collected: Result<WindowsCollection, WindowsBluetoothError>,
    mode: RefreshMode,
) -> (r: PlatformCollection)
    ensures
        r.status.platform == PlatformKind::Windows,
        match collected {
            Err(_) => !r.status.available && r.status.adapter_name is None
                && r.status.powered is None && r.status.discovering is None
                && r.status.detail@ == "Windows Bluetooth data could not be read."@
                && r.descriptors@.len() == 0 && r.observations@.len() == 0,
            Ok(c) => r.status.available == c.available && opt_text(r.status.adapter_name)
                == opt_text(c.adapter_name) && r.status.powered == c.powered
                && r.status.discovering == Some(discovery_window(mode) is Some)
                && r.status.detail@ == c.detail@ && r.descriptors == c.descriptors
                && r.observations == c.observations,
        },
{
    match collected {
        Err(_) => unavailable_collection(
            PlatformKind::Windows,
            "Windows Bluetooth data could not be read.",
        ),
        Ok(c) => {
            let window = discovery_window_seconds(mode);
            PlatformCollection {
                status: BackendStatus {
                    platform: PlatformKind::Windows,
                    available: c.available,
                    adapter_name: c.adapter_name,
                    powered: c.powered,
                    discovering: Some(window.is_some()),
                    detail: c.detail,
                },
                descriptors: c.descriptors,
                observations: c.observations,
            }
        },
    }
}

} // verus!
