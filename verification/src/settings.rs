//! Versioned, validated application settings.

use vstd::prelude::*;

use crate::entries::{list_contains, list_has};
use crate::text::{lemma_trim_idempotent, trim_seq, trim_text};
use std::path::PathBuf;

verus! {

/// Current settings schema version.
pub const CURRENT_SCHEMA_VERSION: u16 = 1;

/// Application update behavior.
#[derive(Debug, Clone, Copy, PartialEq, Eq, Structural)]
pub enum UpdateMode {
    /// Download and apply supported updates automatically.
    Automatic,
    /// Notify the user before installing an update.
    Notify,
    /// Never check automatically.
    Manual,
}

/// Application color theme.
#[derive(Debug, Clone, Copy, PartialEq, Eq, Structural)]
pub enum Theme {
    /// Follow the operating-system preference.
    System,
    /// Always use the light palette.
    Light,
    /// Always use the dark palette.
    Dark,
}

/// Appearance preferences.
#[derive(Debug, Clone, PartialEq, Eq, Structural)]
pub struct AppearanceSettings {
    /// Selected color theme.
    pub theme: Theme,
    /// Glass opacity percentage in `0..=100`.
    pub transparency: u16,
    /// Use tighter component spacing.
    pub compact_layout: bool,
    /// Enable decorative interface animation.
    pub animations: bool,
    /// Force reduced motion independently of the operating system.
    pub reduced_motion: bool,
}

impl Default for AppearanceSettings {
    fn default() -> (r: AppearanceSettings)
        ensures
            r == (AppearanceSettings {
                theme: Theme::System,
                transparency: 78,
                compact_layout: false,
                animations: true,
                reduced_motion: false,
            }),
    {
        AppearanceSettings {
            theme: Theme::System,
            transparency: 78,
            compact_layout: false,
            animations: true,
            reduced_motion: false,
        }
    }
}

/// Local notification preferences.
#[derive(Debug, Clone, PartialEq, Eq, Structural)]
pub struct NotificationSettings {
    /// Whether battery notifications are enabled.
    pub enabled: bool,
    /// Low-battery threshold percentage.
    pub low_threshold: u16,
    /// Critical-battery threshold percentage.
    pub critical_threshold: u16,
    /// Whether alerts should name the affected component.
    pub component_specific: bool,
    /// Minimum minutes before repeating the same alert.
    pub cooldown_minutes: u16,
    /// Whether meaningful connection transitions generate notifications.
    pub connection_events: bool,
}

impl Default for NotificationSettings {
    fn default() -> (r: NotificationSettings)
        ensures
            r == (NotificationSettings {
                enabled: true,
                low_threshold: 20,
                critical_threshold: 10,
                component_specific: true,
                cooldown_minutes: 30,
                connection_events: false,
            }),
    {
        NotificationSettings {
            enabled: true,
            low_threshold: 20,
            critical_threshold: 10,
            component_specific: true,
            cooldown_minutes: 30,
            connection_events: false,
        }
    }
}

/// Complete persisted application settings.
#[derive(Debug, Clone, PartialEq, Eq)]
pub struct AppSettings {
    /// Version used for future migrations.
    pub schema_version: u16,
    /// Start `AirBattery` for the current user after sign-in.
    pub start_with_system: bool,
    /// Hide rather than exit when the main window closes.
    pub run_in_background: bool,
    /// Create a tray/status icon where supported.
    pub show_tray_icon: bool,
    /// Publish the session D-Bus API for the GNOME extension.
    pub enable_gnome_integration: bool,
    /// Enable the optional floating widget.
    pub enable_desktop_widget: bool,
    /// Update-checking behavior.
    pub update_mode: UpdateMode,
    /// Privacy-safe preferred device identifier.
    pub preferred_device_id: Option<String>,
    /// Privacy-safe device identifiers hidden from the UI.
    pub hidden_device_ids: Vec<String>,
    /// Appearance preferences.
    pub appearance: AppearanceSettings,
    /// Notification preferences.
    pub notifications: NotificationSettings,
}

/// Settings with texts taken as character sequences.
pub struct SettingsView {
    /// Version used for future migrations.
    pub schema_version: u16,
    /// Start with the system.
    pub start_with_system: bool,
    /// Keep running when the main window closes.
    pub run_in_background: bool,
    /// Show a tray icon.
    pub show_tray_icon: bool,
    /// Publish the GNOME integration.
    pub enable_gnome_integration: bool,
    /// Enable the desktop widget.
    pub enable_desktop_widget: bool,
    /// Update-checking behavior.
    pub update_mode: UpdateMode,
    /// Preferred device identifier.
    pub preferred_device_id: Option<Seq<char>>,
    /// Hidden device identifiers, in order.
    pub hidden_device_ids: Seq<Seq<char>>,
    /// Appearance preferences.
    pub appearance: AppearanceSettings,
    /// Notification preferences.
    pub notifications: NotificationSettings,
}

impl View for AppSettings {
    type V = SettingsView;

    open spec fn view(&self) -> SettingsView {
        SettingsView {
            schema_version: self.schema_version,
            start_with_system: self.start_with_system,
            run_in_background: self.run_in_background,
            show_tray_icon: self.show_tray_icon,
            enable_gnome_integration: self.enable_gnome_integration,
            enable_desktop_widget: self.enable_desktop_widget,
            update_mode: self.update_mode,
            preferred_device_id: match self.preferred_device_id {
                Some(p) => Some(p@),
                None => None,
            },
            hidden_device_ids: self.hidden_device_ids@.map_values(|s: String| s@),
            appearance: self.appearance,
            notifications: self.notifications,
        }
    }
}

/// The default settings.
pub open spec fn default_settings() -> SettingsView {
    SettingsView {
        schema_version: CURRENT_SCHEMA_VERSION,
        start_with_system: false,
        run_in_background: true,
        show_tray_icon: true,
        enable_gnome_integration: true,
        enable_desktop_widget: false,
        update_mode: UpdateMode::Notify,
        preferred_device_id: None,
        hidden_device_ids: Seq::empty(),
        appearance: AppearanceSettings {
            theme: Theme::System,
            transparency: 78,
            compact_layout: false,
            animations: true,
            reduced_motion: false,
        },
        notifications: NotificationSettings {
            enabled: true,
            low_threshold: 20,
            critical_threshold: 10,
            component_specific: true,
            cooldown_minutes: 30,
            connection_events: false,
        },
    }
}

impl Default for AppSettings {
    fn default() -> (r: AppSettings)
        ensures
            r@ == default_settings(),
    {
        let r = AppSettings {
            schema_version: CURRENT_SCHEMA_VERSION,
            start_with_system: false,
            run_in_background: true,
            show_tray_icon: true,
            enable_gnome_integration: true,
            enable_desktop_widget: false,
            update_mode: UpdateMode::Notify,
            preferred_device_id: None,
            hidden_device_ids: Vec::new(),
            appearance: AppearanceSettings::default(),
            notifications: NotificationSettings::default(),
        };
        assert(r@.hidden_device_ids =~= Seq::<Seq<char>>::empty());
        r
    }
}

/// The smaller of two numbers.
pub open spec fn min_u16(a: u16, b: u16) -> u16 {
    if a < b {
        a
    } else {
        b
    }
}

/// The trimmed identifier when it is not empty.
pub open spec fn trimmed_identifier(s: Seq<char>) -> Option<Seq<char>> {
    if trim_seq(s).len() > 0 {
        Some(trim_seq(s))
    } else {
        None
    }
}

/// Each identifier trimmed, empty ones dropped, and only the first of equal
/// ones kept, in order.
pub open spec fn distinct_trimmed(ids: Seq<Seq<char>>) -> Seq<Seq<char>>
    decreases ids.len(),
{
    if ids.len() == 0 {
        Seq::empty()
    } else {
        let prev = distinct_trimmed(ids.drop_last());
        let t = trim_seq(ids.last());
        if t.len() > 0 && !prev.contains(t) {
            prev.push(t)
        } else {
            prev
        }
    }
}

/// Settings after schema migration and validation.
pub open spec fn normalize_settings(v: SettingsView) -> SettingsView {
    let low = min_u16(v.notifications.low_threshold, 100);
    SettingsView {
        schema_version: CURRENT_SCHEMA_VERSION,
        preferred_device_id: match v.preferred_device_id {
            Some(p) => trimmed_identifier(p),
            None => None,
        },
        hidden_device_ids: distinct_trimmed(v.hidden_device_ids),
        appearance: AppearanceSettings {
            transparency: min_u16(v.appearance.transparency, 100),
            ..v.appearance
        },
        notifications: NotificationSettings {
            low_threshold: low,
            critical_threshold: min_u16(v.notifications.critical_threshold, low),
            cooldown_minutes: if v.notifications.cooldown_minutes < 1 {
                1
            } else if v.notifications.cooldown_minutes > 1440 {
                1440
            } else {
                v.notifications.cooldown_minutes
            },
            ..v.notifications
        },
        ..v
    }
}

/// Whether a text has no leading or trailing white space and is not empty.
pub open spec fn clean_identifier(s: Seq<char>) -> bool {
    trim_seq(s) == s && s.len() > 0
}

/// Whether settings satisfy every validation rule: current schema, bounded
/// percentages, critical threshold at most the low one, cooldown within a
/// day, and clean, distinct identifiers.
pub open spec fn settings_valid(v: SettingsView) -> bool {
    &&& v.schema_version == CURRENT_SCHEMA_VERSION
    &&& v.appearance.transparency <= 100
    &&& v.notifications.low_threshold <= 100
    &&& v.notifications.critical_threshold <= v.notifications.low_threshold
    &&& 1 <= v.notifications.cooldown_minutes <= 1440
    &&& (v.preferred_device_id matches Some(p) ==> clean_identifier(p))
    &&& forall|i: int|
        0 <= i < v.hidden_device_ids.len() ==> clean_identifier(#[trigger] v.hidden_device_ids[i])
    &&& forall|i: int, j: int|
        0 <= i < j < v.hidden_device_ids.len() ==> #[trigger] v.hidden_device_ids[i]
            != #[trigger] v.hidden_device_ids[j]
}

proof fn lemma_distinct_trimmed_clean(ids: Seq<Seq<char>>)
    ensures
        forall|i: int|
            0 <= i < distinct_trimmed(ids).len() ==> clean_identifier(
                #[trigger] distinct_trimmed(ids)[i],
            ),
        forall|i: int, j: int|
            0 <= i < j < distinct_trimmed(ids).len() ==> #[trigger] distinct_trimmed(ids)[i]
                != #[trigger] distinct_trimmed(ids)[j],
    decreases ids.len(),
{
    if ids.len() > 0 {
        lemma_distinct_trimmed_clean(ids.drop_last());
        lemma_trim_idempotent(ids.last());
        let prev = distinct_trimmed(ids.drop_last());
        let t = trim_seq(ids.last());
        if t.len() > 0 && !prev.contains(t) {
            let d = prev.push(t);
            assert forall|i: int, j: int| 0 <= i < j < d.len() implies #[trigger] d[i] != #[trigger] d[j] by {
                if j == d.len() - 1 {
                    assert(d[i] == prev[i]);
                    if d[i] == d[j] {
                        assert(prev.contains(t));
                    }
                }
            }
        }
    }
}

proof fn lemma_distinct_trimmed_fixed(ids: Seq<Seq<char>>)
    requires
        forall|i: int| 0 <= i < ids.len() ==> clean_identifier(#[trigger] ids[i]),
        forall|i: int, j: int| 0 <= i < j < ids.len() ==> #[trigger] ids[i] != #[trigger] ids[j],
    ensures
        distinct_trimmed(ids) == ids,
    decreases ids.len(),
{
    if ids.len() > 0 {
        let init = ids.drop_last();
        assert forall|i: int| 0 <= i < init.len() implies clean_identifier(#[trigger] init[i]) by {
            assert(init[i] == ids[i]);
        }
        assert forall|i: int, j: int| 0 <= i < j < init.len() implies #[trigger] init[i]
            != #[trigger] init[j] by {
            assert(init[i] == ids[i]);
            assert(init[j] == ids[j]);
        }
        lemma_distinct_trimmed_fixed(init);
        assert(clean_identifier(ids[ids.len() - 1]));
        assert(!init.contains(ids.last())) by {
            if init.contains(ids.last()) {
                let i = choose|i: int| 0 <= i < init.len() && init[i] == ids.last();
                assert(ids[i] == ids[ids.len() - 1]);
            }
        }
        assert(init.push(ids.last()) =~= ids);
    }
}

/// Normalized settings satisfy every validation rule.
pub proof fn lemma_normalized_settings_valid(v: SettingsView)
    ensures
        settings_valid(normalize_settings(v)),
{
    lemma_distinct_trimmed_clean(v.hidden_device_ids);
    if let Some(p) = v.preferred_device_id {
        lemma_trim_idempotent(p);
    }
}

/// Normalization leaves valid settings unchanged.
pub proof fn lemma_valid_settings_unchanged(v: SettingsView)
    requires
        settings_valid(v),
    ensures
        normalize_settings(v) == v,
{
    lemma_distinct_trimmed_fixed(v.hidden_device_ids);
    let n = normalize_settings(v);
    assert(n.appearance == v.appearance);
    assert(n.notifications == v.notifications);
}

/// Normalizing twice gives what normalizing once gives.
pub proof fn lemma_normalize_idempotent(v: SettingsView)
    ensures
        normalize_settings(normalize_settings(v)) == normalize_settings(v),
{
    lemma_normalized_settings_valid(v);
    lemma_valid_settings_unchanged(normalize_settings(v));
}

/// `value` when it is not empty.
pub fn non_empty(value: &str) -> (r: Option<&str>)
    ensures
        match r {
            Some(x) => x@ == value@ && value@.len() > 0,
            None => value@.len() == 0,
        },
{
    if value.is_empty() {
        None
    } else {
        Some(value)
    }
}

fn distinct_trimmed_ids(ids: &Vec<String>) -> (r: Vec<String>)
    ensures
        r@.map_values(|s: String| s@) == distinct_trimmed(ids@.map_values(|s: String| s@)),
{
    let ghost all = ids@.map_values(|s: String| s@);
    let mut kept: Vec<String> = Vec::new();
    let mut i: usize = 0;
    while i < ids.len()
        invariant
            i <= ids@.len(),
            all == ids@.map_values(|s: String| s@),
            kept@.map_values(|s: String| s@) == distinct_trimmed(all.take(i as int)),
        decreases ids@.len() - i,
    {
        let t = trim_text(ids[i].as_str());
        let ghost prev = kept@.map_values(|s: String| s@);
        assert(all.take(i + 1).drop_last() =~= all.take(i as int));
        assert(all.take(i + 1).last() == ids@[i as int]@);
        let present = list_contains(&kept, t.as_str());
        assert(present == prev.contains(t@)) by {
            if present {
                let j = choose|j: int| 0 <= j < kept@.len() && (#[trigger] kept@[j])@ == t@;
                assert(prev[j] == t@);
            }
            if prev.contains(t@) {
                let j = choose|j: int| 0 <= j < prev.len() && prev[j] == t@;
                assert(kept@[j]@ == t@);
            }
        }
        if !t.as_str().is_empty() && !present {
            kept.push(t);
            assert(kept@.map_values(|s: String| s@) =~= prev.push(trim_seq(ids@[i as int]@)));
        }
        i = i + 1;
    }
    assert(all.take(ids@.len() as int) =~= all);
    kept
}

impl AppSettings {
    /// Applies schema migration and validation without failing on user input.
    pub fn normalized(self) -> (r: AppSettings)
        ensures
            r@ == normalize_settings(self@),
    {
        let transparency = if self.appearance.transparency > 100 {
            100
        } else {
            self.appearance.transparency
        };
        let low = if self.notifications.low_threshold > 100 {
            100
        } else {
            self.notifications.low_threshold
        };
        let critical = if self.notifications.critical_threshold > low {
            low
        } else {
            self.notifications.critical_threshold
        };
        let cooldown = if self.notifications.cooldown_minutes < 1 {
            1
        } else if self.notifications.cooldown_minutes > 1440 {
            1440
        } else {
            self.notifications.cooldown_minutes
        };
        let preferred = normalized_preferred(&self.preferred_device_id);
        let hidden = distinct_trimmed_ids(&self.hidden_device_ids);
        let appearance = AppearanceSettings { transparency, ..self.appearance };
        let notifications = NotificationSettings {
            low_threshold: low,
            critical_threshold: critical,
            cooldown_minutes: cooldown,
            ..self.notifications
        };
        let ghost v = self@;
        let r = AppSettings {
            schema_version: CURRENT_SCHEMA_VERSION,
            preferred_device_id: preferred,
            hidden_device_ids: hidden,
            appearance,
            notifications,
            ..self
        };
        assert(r@.appearance == normalize_settings(v).appearance);
        assert(r@.notifications == normalize_settings(v).notifications);
        r
    }
}

fn normalized_preferred(value: &Option<String>) -> (r: Option<String>)
    ensures
        match r {
            Some(x) => value matches Some(v) && trimmed_identifier(v@) == Some(x@),
            None => value matches Some(v) ==> trimmed_identifier(v@) is None,
        },
{
    match value {
        Some(value) => {
            let trimmed = trim_text(value.as_str());
            match non_empty(trimmed.as_str()) {
                Some(x) => Some(x.to_owned()),
                None => None,
            }
        },
        None => None,
    }
}

/// What the settings store holds, as read by the platform layer.
#[derive(Debug, Clone, PartialEq, Eq)]
pub enum StoredSettings {
    /// No settings file exists.
    Missing,
    /// The file held well-formed settings.
    Parsed(AppSettings),
    /// The file content could not be read as settings.
    Corrupt,
}

/// Result of loading settings, including non-fatal corruption recovery.
#[derive(Debug, Clone, PartialEq, Eq)]
pub struct SettingsLoadResult {
    /// Valid normalized settings.
    pub settings: AppSettings,
    /// Whether invalid JSON was replaced in memory with defaults.
    pub recovered_from_corrupt: bool,
}

impl SettingsLoadResult {
    /// The settings to use for what the store holds: defaults for a missing
    /// file, normalized settings for a well-formed one, and defaults with the
    /// recovery flag for corrupt content.
    pub fn from_stored(stored: StoredSettings) -> (r: SettingsLoadResult)
        ensures
            match stored {
                StoredSettings::Missing => r.settings@ == default_settings()
                    && !r.recovered_from_corrupt,
                StoredSettings::Parsed(s) => r.settings@ == normalize_settings(s@)
                    && !r.recovered_from_corrupt,
                StoredSettings::Corrupt => r.settings@ == default_settings()
                    && r.recovered_from_corrupt,
            },
    {
        match stored {
            StoredSettings::Missing => SettingsLoadResult {
                settings: AppSettings::default(),
                recovered_from_corrupt: false,
            },
            StoredSettings::Parsed(settings) => SettingsLoadResult {
                settings: settings.normalized(),
                recovered_from_corrupt: false,
            },
            StoredSettings::Corrupt => SettingsLoadResult {
                settings: AppSettings::default(),
                recovered_from_corrupt: true,
            },
        }
    }
}

/// The standard library's owned file-system path.
#[verifier::external_type_specification]
#[verifier::external_body]
pub struct ExPathBuf(std::path::PathBuf);

/// Repository bound to one application-controlled settings path.
#[derive(Debug)]
pub struct SettingsRepository {
    path: PathBuf,
}

impl SettingsRepository {
    /// The settings path.
    pub closed spec fn spec_path(&self) -> PathBuf {
        self.path
    }

    /// Creates a repository for an application-owned path.
    pub fn new(path: PathBuf) -> (r: SettingsRepository)
        ensures
            r.spec_path() == path,
    {
        SettingsRepository { path }
    }

    /// Returns the configured settings path; it dereferences to a `Path`.
    pub fn path(&self) -> (r: &PathBuf)
        ensures
            *r == self.spec_path(),
    {
        &self.path
    }
}

} // verus!
