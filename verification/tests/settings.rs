use game_launcher::settings::{combine_warnings, AppMode, Settings};

#[test]
fn default_settings_run_in_release_mode() {
    assert_eq!(Settings::default().mode, AppMode::Release);
    assert_eq!(AppMode::default(), AppMode::Release);
}

#[test]
fn settings_live_next_to_the_launcher() {
    assert_eq!(Settings::path("/opt/launcher"), "/opt/launcher/settings.json");
}

#[test]
fn warnings_combine_on_separate_lines() {
    assert_eq!(
        combine_warnings(Some("a".to_string()), Some("b".to_string())),
        Some("a\nb".to_string())
    );
    assert_eq!(combine_warnings(Some("a".to_string()), None), Some("a".to_string()));
    assert_eq!(combine_warnings(None, Some("b".to_string())), Some("b".to_string()));
    assert_eq!(combine_warnings(None, None), None);
}
