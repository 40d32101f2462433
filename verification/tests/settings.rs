//! Settings validation and load-result tests.

use airbattery::settings::{
    non_empty, AppSettings, SettingsLoadResult, SettingsRepository, StoredSettings, Theme,
    UpdateMode, CURRENT_SCHEMA_VERSION,
};

#[test]
fn normalization_clamps_and_preserves_cross_field_invariants() {
    let mut settings = AppSettings::default();
    settings.appearance.transparency = 250;
    settings.notifications.low_threshold = 5;
    settings.notifications.critical_threshold = 90;
    settings.notifications.cooldown_minutes = 0;
    settings.hidden_device_ids = vec!["one".to_owned(), "one".to_owned(), String::new()];

    let normalized = settings.normalized();
    assert_eq!(normalized.appearance.transparency, 100);
    assert_eq!(normalized.notifications.critical_threshold, 5);
    assert_eq!(normalized.notifications.cooldown_minutes, 1);
    assert_eq!(normalized.hidden_device_ids, vec!["one"]);
}

#[test]
fn corrupt_file_returns_defaults_with_recovery_flag() {
    let result = SettingsLoadResult::from_stored(StoredSettings::Corrupt);
    assert!(result.recovered_from_corrupt);
    assert_eq!(result.settings, AppSettings::default());
}

#[test]
fn missing_file_returns_defaults_without_recovery_flag() {
    let result = SettingsLoadResult::from_stored(StoredSettings::Missing);
    assert!(!result.recovered_from_corrupt);
    assert_eq!(result.settings, AppSettings::default());
}

#[test]
fn parsed_settings_are_normalized_on_load() {
    let mut settings = AppSettings::default();
    settings.schema_version = 0;
    settings.appearance.theme = Theme::Dark;
    settings.update_mode = UpdateMode::Manual;
    settings.notifications.low_threshold = 300;
    settings.notifications.cooldown_minutes = 5000;
    settings.preferred_device_id = Some("  bt-1  ".to_owned());
    let result = SettingsLoadResult::from_stored(StoredSettings::Parsed(settings));
    assert!(!result.recovered_from_corrupt);
    assert_eq!(result.settings.schema_version, CURRENT_SCHEMA_VERSION);
    assert_eq!(result.settings.appearance.theme, Theme::Dark);
    assert_eq!(result.settings.update_mode, UpdateMode::Manual);
    assert_eq!(result.settings.notifications.low_threshold, 100);
    assert_eq!(result.settings.notifications.critical_threshold, 10);
    assert_eq!(result.settings.notifications.cooldown_minutes, 1440);
    assert_eq!(result.settings.preferred_device_id.as_deref(), Some("bt-1"));
}

#[test]
fn blank_preferred_device_and_hidden_ids_are_dropped() {
    let mut settings = AppSettings::default();
    settings.preferred_device_id = Some(" \t ".to_owned());
    settings.hidden_device_ids = vec![" b ".to_owned(), "a".to_owned(), "b".to_owned(), "  ".to_owned()];
    let normalized = settings.normalized();
    assert_eq!(normalized.preferred_device_id, None);
    assert_eq!(normalized.hidden_device_ids, vec!["b", "a"]);
}

#[test]
fn normalizing_twice_changes_nothing_more() {
    let mut settings = AppSettings::default();
    settings.appearance.transparency = 101;
    settings.notifications.low_threshold = 40;
    settings.notifications.critical_threshold = 60;
    settings.hidden_device_ids = vec![" x".to_owned(), "x ".to_owned()];
    let once = settings.normalized();
    let twice = once.clone().normalized();
    assert_eq!(once, twice);
    assert_eq!(AppSettings::default().normalized(), AppSettings::default());
}

#[test]
fn non_empty_keeps_only_text_with_characters() {
    assert_eq!(non_empty(""), None);
    assert_eq!(non_empty("x"), Some("x"));
    assert_eq!(non_empty(" "), Some(" "));
}

#[test]
fn repository_keeps_the_path_it_was_given() {
    let path = std::path::PathBuf::from("nested/settings.json");
    let repository = SettingsRepository::new(path.clone());
    assert_eq!(repository.path(), path.as_path());
}
