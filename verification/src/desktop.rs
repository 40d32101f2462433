//! Desktop-host models and native status-surface decisions.

use vstd::prelude::*;

use crate::engine::DeviceDescriptor;
use crate::processor::ProcessingError;
use crate::provider::RawObservation;
use crate::settings::AppSettings;
use crate::text::{ascii_lower_chars, contains_chars, seq_ascii_lower, seq_contains, trim_seq,
    trim_text};

verus! {

/// Runtime platform name exposed to the frontend.
#[derive(Debug, Clone, Copy, PartialEq, Eq, Structural)]
pub enum PlatformKind {
    /// `BlueZ`-based Linux host.
    Linux,
    /// Windows Runtime host.
    Windows,
    /// Build target without a Bluetooth adapter implementation.
    Unsupported,
}

/// Current platform Bluetooth health.
#[derive(Debug, Clone, PartialEq, Eq)]
pub struct BackendStatus {
    /// Active platform backend.
    pub platform: PlatformKind,
    /// Whether the native backend can currently be queried.
    pub available: bool,
    /// Adapter name supplied by the operating system.
    pub adapter_name: Option<String>,
    /// Adapter power state when exposed.
    pub powered: Option<bool>,
    /// Active bounded discovery state when exposed.
    pub discovering: Option<bool>,
    /// User-safe status detail.
    pub detail: String,
}

impl BackendStatus {
    /// Creates an unavailable backend status without failing application startup.
    pub fn unavailable(platform: PlatformKind, detail: String) -> (r: BackendStatus)
        ensures
            r.platform == platform,
            !r.available,
            r.adapter_name is None,
            r.powered is None,
            r.discovering is None,
            r.detail@ == detail@,
    {
        BackendStatus {
            platform,
            available: false,
            adapter_name: None,
            powered: None,
            discovering: None,
            detail,
        }
    }
}

/// Platform observations collected as one deterministic refresh transaction.
#[derive(Debug, Clone)]
pub struct PlatformCollection {
    /// Current native backend health.
    pub status: BackendStatus,
    /// Metadata keyed by backend-local identifiers.
    pub descriptors: Vec<DeviceDescriptor>,
    /// Raw values routed through protocol providers.
    pub observations: Vec<RawObservation>,
}

/// Whether a platform collection may initiate bounded discovery.
#[derive(Debug, Clone, Copy, PartialEq, Eq, Structural)]
pub enum RefreshMode {
    /// Read only devices already known to the operating system.
    KnownOnly,
    /// Add a short discovery window to obtain intermittent advertisements.
    BoundedDiscovery,
    /// Run a longer user-initiated discovery window for hardware diagnostics.
    DiagnosticDiscovery,
}

/// Chooses bounded advertisement discovery for every automatic refresh.
///
/// `AirPods` battery values are carried by short-lived advertisements, so each
/// serialized tick performs one short bounded scan.
pub fn scheduled_refresh_mode(tick: u64) -> (r: RefreshMode)
    ensures
        r == RefreshMode::BoundedDiscovery,
{
    RefreshMode::BoundedDiscovery
}

/// The platform name published to shell integrations.
pub open spec fn platform_text(platform: PlatformKind) -> Seq<char> {
    match platform {
        PlatformKind::Linux => "linux"@,
        PlatformKind::Windows => "windows"@,
        PlatformKind::Unsupported => "unsupported"@,
    }
}

/// The platform name published to shell integrations.
pub fn platform_name(platform: PlatformKind) -> (r: &'static str)
    ensures
        r@ == platform_text(platform),
{
    match platform {
        PlatformKind::Linux => "linux",
        PlatformKind::Windows => "windows",
        PlatformKind::Unsupported => "unsupported",
    }
}

/// Stable command error returned to the first-party frontend.
#[derive(Debug, Clone)]
pub struct CommandError {
    /// Stable machine-readable category.
    pub code: &'static str,
    /// User-safe explanation without raw Bluetooth identifiers.
    pub message: String,
}

impl CommandError {
    /// Creates a command error with a stable code.
    pub fn new(code: &'static str, message: String) -> (r: CommandError)
        ensures
            r.code@ == code@,
            r.message@ == message@,
    {
        CommandError { code, message }
    }

    /// Maps an internal error, given by its display text, into a safe backend failure.
    pub fn backend(message: String) -> (r: CommandError)
        ensures
            r.code@ == "backend_failed"@,
            r.message@ == message@,
    {
        Self::new("backend_failed", message)
    }

    /// Maps an application-controlled storage failure, given by its display text.
    pub fn storage(message: String) -> (r: CommandError)
        ensures
            r.code@ == "storage_failed"@,
            r.message@ == message@,
    {
        Self::new("storage_failed", message)
    }

    /// The error's user-safe message, as the shell integration reports it.
    pub fn message(&self) -> (r: String)
        ensures
            r@ == self.message@,
    {
        self.message.clone()
    }
}

/// The message a shell integration reports for a command error.
pub fn command_message(error: CommandError) -> (r: String)
    ensures
        r@ == error.message@,
{
    error.message
}

/// How a processing error is logged: a warning for a provider that rejected
/// an observation, a debug note for an observation without battery data.
#[derive(Debug, Clone, Copy, PartialEq, Eq, Structural)]
pub enum ProcessingLogLevel {
    /// A provider rejected an observation.
    Warning,
    /// The observation produced no battery report.
    Debug,
}

/// The log level for a processing error.
pub fn processing_log_level(error: &ProcessingError) -> (r: ProcessingLogLevel)
    ensures
        r == match error {
            ProcessingError::Provider { .. } => ProcessingLogLevel::Warning,
            ProcessingError::MissingSnapshot { .. } => ProcessingLogLevel::Debug,
        },
{
    match error {
        ProcessingError::Provider { .. } => ProcessingLogLevel::Warning,
        ProcessingError::MissingSnapshot { .. } => ProcessingLogLevel::Debug,
    }
}

/// Desktop shell relevant to native status-surface selection.
#[derive(Debug, Clone, Copy, PartialEq, Eq, Structural)]
pub enum DesktopEnvironment {
    /// GNOME Shell or an Ubuntu GNOME session.
    Gnome,
    /// Any other desktop shell.
    Other,
}

/// Whether `c` separates desktop names in a session variable.
pub open spec fn is_desktop_separator(c: char) -> bool {
    c == ':' || c == ';'
}

/// The pieces of `s` between separators, in order; empty pieces included.
pub open spec fn desktop_pieces(s: Seq<char>) -> Seq<Seq<char>>
    decreases s.len(),
{
    if s.len() == 0 {
        seq![Seq::empty()]
    } else {
        let prev = desktop_pieces(s.drop_last());
        if is_desktop_separator(s.last()) {
            prev.push(Seq::empty())
        } else {
            prev.update(prev.len() - 1, prev.last().push(s.last()))
        }
    }
}

/// Whether one desktop name, trimmed, names GNOME or Ubuntu.
pub open spec fn names_gnome(piece: Seq<char>) -> bool {
    let t = seq_ascii_lower(trim_seq(piece));
    t == "gnome"@ || t == "ubuntu"@ || seq_contains(t, "gnome"@)
}

/// Whether some desktop name names GNOME or Ubuntu.
pub open spec fn any_gnome(pieces: Seq<Seq<char>>) -> bool {
    exists|i: int| 0 <= i < pieces.len() && names_gnome(#[trigger] pieces[i])
}

/// Whether some desktop name in an optional variable names GNOME or Ubuntu.
pub open spec fn value_names_gnome(value: Option<Seq<char>>) -> bool {
    match value {
        Some(v) => any_gnome(desktop_pieces(v)),
        None => false,
    }
}

/// The text of an optional string slice.
pub open spec fn opt_view(value: Option<&str>) -> Option<Seq<char>> {
    match value {
        Some(v) => Some(v@),
        None => None,
    }
}

proof fn lemma_pieces_nonempty(s: Seq<char>)
    ensures
        desktop_pieces(s).len() >= 1,
    decreases s.len(),
{
    if s.len() > 0 {
        lemma_pieces_nonempty(s.drop_last());
    }
}

fn piece_names_gnome(piece: &Vec<char>) -> (r: bool)
    ensures
        r == names_gnome(piece@),
{
    let mut text = String::new();
    let mut i: usize = 0;
    while i < piece.len()
        invariant
            i <= piece@.len(),
            text@ == piece@.take(i as int),
        decreases piece@.len() - i,
    {
        crate::text::push_char(&mut text, piece[i]);
        assert(piece@.take(i + 1) =~= piece@.take(i as int).push(piece@[i as int]));
        i = i + 1;
    }
    assert(piece@.take(piece@.len() as int) =~= piece@);
    let trimmed = trim_text(text.as_str());
    let lowered = ascii_lower_chars(trimmed.as_str());
    let mut lowered_text = String::new();
    let mut j: usize = 0;
    while j < lowered.len()
        invariant
            j <= lowered@.len(),
            lowered_text@ == lowered@.take(j as int),
        decreases lowered@.len() - j,
    {
        crate::text::push_char(&mut lowered_text, lowered[j]);
        assert(lowered@.take(j + 1) =~= lowered@.take(j as int).push(lowered@[j as int]));
        j = j + 1;
    }
    assert(lowered@.take(lowered@.len() as int) =~= lowered@);
    crate::text::same_text(lowered_text.as_str(), "gnome") || crate::text::same_text(
        lowered_text.as_str(),
        "ubuntu",
    ) || contains_chars(&lowered, "gnome")
}

fn mentions_gnome(value: &str) -> (r: bool)
    ensures
        r == value_names_gnome(Some(value@)),
{
    let n = value.unicode_len();
    let mut piece: Vec<char> = Vec::new();
    let mut found = false;
    let mut i: usize = 0;
    proof {
        lemma_pieces_nonempty(value@);
    }
    assert(desktop_pieces(value@.take(0)) =~= seq![Seq::<char>::empty()]);
    while i < n
        invariant
            n == value@.len(),
            i <= n,
            desktop_pieces(value@.take(i as int)).len() >= 1,
            piece@ == desktop_pieces(value@.take(i as int)).last(),
            found == exists|k: int|
                0 <= k < desktop_pieces(value@.take(i as int)).len() - 1 && names_gnome(
                    #[trigger] desktop_pieces(value@.take(i as int))[k],
                ),
        decreases n - i,
    {
        let c = value.get_char(i);
        let ghost prev = desktop_pieces(value@.take(i as int));
        assert(value@.take(i + 1).drop_last() =~= value@.take(i as int));
        if c == ':' || c == ';' {
            let done = piece_names_gnome(&piece);
            let ghost cur = desktop_pieces(value@.take(i + 1));
            assert(cur == prev.push(Seq::<char>::empty()));
            proof {
                assert forall|k: int| 0 <= k < cur.len() - 1 implies #[trigger] cur[k] == prev[k] by {}
                assert((found || done) == exists|k: int|
                    0 <= k < cur.len() - 1 && names_gnome(#[trigger] cur[k])) by {
                    if found {
                        let k = choose|k: int| 0 <= k < prev.len() - 1 && names_gnome(#[trigger] prev[k]);
                        assert(cur[k] == prev[k]);
                    }
                    if done {
                        assert(cur[prev.len() - 1] == prev[prev.len() - 1]);
                    }
                    if exists|k: int| 0 <= k < cur.len() - 1 && names_gnome(#[trigger] cur[k]) {
                        let k = choose|k: int| 0 <= k < cur.len() - 1 && names_gnome(#[trigger] cur[k]);
                        assert(cur[k] == prev[k]);
                        if k < prev.len() - 1 {
                            assert(names_gnome(prev[k]));
                        }
                    }
                }
            }
            found = found || done;
            piece = Vec::new();
        } else {
            piece.push(c);
            let ghost cur = desktop_pieces(value@.take(i + 1));
            proof {
                assert(cur == prev.update(prev.len() - 1, prev.last().push(c)));
                assert(cur.len() == prev.len());
                assert forall|k: int| 0 <= k < cur.len() - 1 implies #[trigger] cur[k] == prev[k] by {}
                assert(found == exists|k: int| 0 <= k < cur.len() - 1 && names_gnome(#[trigger] cur[k])) by {
                    if found {
                        let k = choose|k: int| 0 <= k < prev.len() - 1 && names_gnome(#[trigger] prev[k]);
                        assert(cur[k] == prev[k]);
                    }
                    if exists|k: int| 0 <= k < cur.len() - 1 && names_gnome(#[trigger] cur[k]) {
                        let k = choose|k: int| 0 <= k < cur.len() - 1 && names_gnome(#[trigger] cur[k]);
                        assert(names_gnome(prev[k]));
                    }
                }
                assert(piece@ == cur.last());
            }
        }
        i = i + 1;
    }
    assert(value@.take(n as int) =~= value@);
    let last = piece_names_gnome(&piece);
    proof {
        let ps = desktop_pieces(value@);
        assert(ps == desktop_pieces(value@.take(i as int)));
        assert(found == exists|k: int| 0 <= k < ps.len() - 1 && names_gnome(#[trigger] ps[k]));
        assert(last == names_gnome(ps[ps.len() - 1]));
        assert((found || last) == exists|k: int| 0 <= k < ps.len() && names_gnome(#[trigger] ps[k])) by {
            if found {
                let k = choose|k: int| 0 <= k < ps.len() - 1 && names_gnome(#[trigger] ps[k]);
                assert(names_gnome(ps[k]));
            }
            if last {
                assert(names_gnome(ps[ps.len() - 1]));
            }
            if exists|k: int| 0 <= k < ps.len() && names_gnome(#[trigger] ps[k]) {
                let k = choose|k: int| 0 <= k < ps.len() && names_gnome(#[trigger] ps[k]);
                if k < ps.len() - 1 {
                    assert(names_gnome(ps[k]));
                }
            }
        }
    }
    proof {
        let ps = desktop_pieces(value@);
        assert((found || last) == any_gnome(ps));
    }
    found || last
}

/// Detects GNOME from the current and session desktop variables: any
/// `:`- or `;`-separated name that, trimmed and compared without ASCII case,
/// is `gnome` or `ubuntu` or contains `gnome`.
pub fn desktop_environment_from_values(
    current_desktop: Option<&str>,
    session_desktop: Option<&str>,
) -> (r: DesktopEnvironment)
    ensures
        r == if value_names_gnome(opt_view(current_desktop)) || value_names_gnome(
            opt_view(session_desktop),
        ) {
            DesktopEnvironment::Gnome
        } else {
            DesktopEnvironment::Other
        },
{
    let first = match current_desktop {
        Some(v) => mentions_gnome(v),
        None => false,
    };
    let second = match session_desktop {
        Some(v) => mentions_gnome(v),
        None => false,
    };
    if first || second {
        DesktopEnvironment::Gnome
    } else {
        DesktopEnvironment::Other
    }
}

/// Whether the native tray icon should be shown: never when the tray is
/// turned off; on Linux unless GNOME integration replaces it on GNOME; always
/// elsewhere.
pub open spec fn native_tray_visible(
    platform: PlatformKind,
    desktop: DesktopEnvironment,
    show_tray_icon: bool,
    enable_gnome_integration: bool,
) -> bool {
    show_tray_icon && match platform {
        PlatformKind::Linux => !(desktop == DesktopEnvironment::Gnome && enable_gnome_integration),
        _ => true,
    }
}

/// Returns whether the tray/AppIndicator should be visible.
///
/// GNOME uses the Shell extension as its only status surface when integration
/// is enabled. Other Linux desktops use the `AppIndicator` fallback, while
/// Windows uses the native system tray.
pub fn should_show_native_tray(
    platform: PlatformKind,
    desktop: DesktopEnvironment,
    settings: &AppSettings,
) -> (r: bool)
    ensures
        r == native_tray_visible(
            platform,
            desktop,
            settings.show_tray_icon,
            settings.enable_gnome_integration,
        ),
{
    if !settings.show_tray_icon {
        return false;
    }
    match platform {
        PlatformKind::Linux => !(desktop == DesktopEnvironment::Gnome
            && settings.enable_gnome_integration),
        PlatformKind::Windows | PlatformKind::Unsupported => true,
    }
}

/// The discovery window, in seconds, that a refresh mode allows: none for
/// known devices only, two for an automatic refresh, thirty for diagnostics.
pub open spec fn discovery_window(mode: RefreshMode) -> Option<u64> {
    match mode {
        RefreshMode::KnownOnly => None,
        RefreshMode::BoundedDiscovery => Some(2),
        RefreshMode::DiagnosticDiscovery => Some(30),
    }
}

/// The discovery window, in seconds, that a refresh mode allows.
pub fn discovery_window_seconds(mode: RefreshMode) -> (r: Option<u64>)
    ensures
        r == discovery_window(mode),
{
    match mode {
        RefreshMode::KnownOnly => None,
        RefreshMode::BoundedDiscovery => Some(2),
        RefreshMode::DiagnosticDiscovery => Some(30),
    }
}

/// Whether a bounded discovery scan runs: the mode allows one, the adapter
/// is powered and not already discovering.
pub fn should_scan(mode: RefreshMode, powered: bool, discovering: bool) -> (r: bool)
    ensures
        r == (discovery_window(mode) is Some && powered && !discovering),
{
    discovery_window_seconds(mode).is_some() && powered && !discovering
}

/// The detail of an available `BlueZ` backend.
pub open spec fn linux_detail(powered: bool, discovery_failed: bool, mode: RefreshMode) -> Seq<
    char,
> {
    if !powered {
        "Bluetooth is available but powered off."@
    } else if discovery_failed {
        "BlueZ is available, but the bounded advertisement refresh failed. Known-device data is retained."@
    } else if mode == RefreshMode::DiagnosticDiscovery {
        "BlueZ is available; a thirty-second diagnostic advertisement scan completed."@
    } else {
        "BlueZ is available; automatic advertisement scans are bounded to two seconds."@
    }
}

/// The detail of an available `BlueZ` backend.
pub fn linux_status_detail(powered: bool, discovery_failed: bool, mode: RefreshMode) -> (r:
    &'static str)
    ensures
        r@ == linux_detail(powered, discovery_failed, mode),
{
    if !powered {
        "Bluetooth is available but powered off."
    } else if discovery_failed {
        "BlueZ is available, but the bounded advertisement refresh failed. Known-device data is retained."
    } else if mode == RefreshMode::DiagnosticDiscovery {
        "BlueZ is available; a thirty-second diagnostic advertisement scan completed."
    } else {
        "BlueZ is available; automatic advertisement scans are bounded to two seconds."
    }
}

/// What saving settings changes on the desktop besides the stored file.
#[derive(Debug, Clone, Copy, PartialEq, Eq, Structural)]
pub struct SettingsEffects {
    /// Whether the application starts with the user session.
    pub start_with_system: bool,
    /// Whether the native tray icon is visible.
    pub tray_visible: bool,
    /// Whether an open floating widget is hidden.
    pub hide_widget: bool,
    /// Whether the GNOME session-bus service runs.
    pub gnome_integration: bool,
}

/// What saving normalized settings changes on `platform` in `desktop`:
/// autostart follows the setting, the tray follows `should_show_native_tray`,
/// a disabled widget is hidden, and the GNOME service follows its switch.
pub fn settings_effects(
    settings: &AppSettings,
    platform: PlatformKind,
    desktop: DesktopEnvironment,
) -> (r: SettingsEffects)
    ensures
        r.start_with_system == settings.start_with_system,
        r.tray_visible == native_tray_visible(
            platform,
            desktop,
            settings.show_tray_icon,
            settings.enable_gnome_integration,
        ),
        r.hide_widget == !settings.enable_desktop_widget,
        r.gnome_integration == settings.enable_gnome_integration,
{
    SettingsEffects {
        start_with_system: settings.start_with_system,
        tray_visible: should_show_native_tray(platform, desktop, settings),
        hide_widget: !settings.enable_desktop_widget,
        gnome_integration: settings.enable_gnome_integration,
    }
}

} // verus!
