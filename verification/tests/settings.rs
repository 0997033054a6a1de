use diaspor_vfs::settings::{
    app_directory, log_directory, reported_log_file, settings_file, AppSettings, LoggingSettings,
    SettingsManager,
    UiSettings,
};

#[test]
fn defaults_match_the_documented_values() {
    let s = AppSettings::default();
    assert_eq!(s.logging.log_level.as_deref(), Some("INFO"));
    assert_eq!(s.logging.max_file_size, Some(10 * 1024 * 1024));
    assert_eq!(s.logging.max_rotated_files, Some(5));
    assert_eq!(s.logging.enable_file_logging, Some(true));
    assert_eq!(s.ui.theme.as_deref(), Some("auto"));
    assert_eq!(s.ui.default_view.as_deref(), Some("grid"));
    assert_eq!(s.ui.show_hidden_files, Some(false));
    assert_eq!(s.storage.max_cache_size, Some(1024 * 1024 * 1024));
    assert_eq!(s.ai.ollama_url.as_deref(), Some("http://localhost:11434"));
    assert_eq!(s.performance.thumbnail_cache_size, Some(1000));
    assert_eq!(s.security.session_timeout, Some(3600));
    assert_eq!(s.security.enable_audit_log, Some(true));
}

#[test]
fn updates_touch_one_category_and_reset_restores_defaults() {
    let mut state = SettingsManager::new("/cfg", None);
    state.update_ui(UiSettings {
        theme: Some("dark".to_string()),
        default_view: Some("list".to_string()),
        show_hidden_files: Some(true),
    });
    assert_eq!(state.get_all().ui.theme.as_deref(), Some("dark"));
    assert_eq!(state.get_all().logging.log_level.as_deref(), Some("INFO"));
    state.reset();
    assert_eq!(state.get_all().ui.theme.as_deref(), Some("auto"));
}

#[test]
fn loaded_settings_are_kept() {
    let mut read = AppSettings::default();
    read.ai.enable_ai = Some(false);
    let state = SettingsManager::new("/cfg", Some(read));
    assert_eq!(state.get_all().ai.enable_ai, Some(false));
}

#[test]
fn directories_and_files() {
    assert_eq!(app_directory(Some("/home/me/.local/share"), "logs"), "/home/me/.local/share/diaspor/logs");
    assert_eq!(app_directory(None, "logs"), "./diaspor/logs");
    let mut logging = LoggingSettings::default();
    assert_eq!(log_directory(&logging, Some("/data")), "/data/diaspor/logs");
    logging.log_path = Some("/var/log/diaspor".to_string());
    assert_eq!(log_directory(&logging, Some("/data")), "/var/log/diaspor");
    assert_eq!(settings_file("/cfg/diaspor"), "/cfg/diaspor/settings.json");
}

#[test]
fn partial_updates_keep_what_is_not_given() {
    let mut state = SettingsManager::new("/cfg", None);
    state.patch_logging(None, Some("DEBUG".to_string()), None, Some(9), None);
    let l = state.get_logging();
    assert_eq!(l.log_level.as_deref(), Some("DEBUG"));
    assert_eq!(l.max_rotated_files, Some(9));
    assert_eq!(l.max_file_size, Some(10 * 1024 * 1024));
    assert!(l.log_path.is_none());
    state.patch_ui(None, Some("list".to_string()), None);
    assert_eq!(state.get_all().ui.theme.as_deref(), Some("auto"));
    assert_eq!(state.get_all().ui.default_view.as_deref(), Some("list"));
    assert_eq!(reported_log_file("/logs"), "/logs/diaspor.log");
}

#[test]
fn getters_copy_each_category() {
    let mut state = SettingsManager::new("/home/me/.local/share/diaspor/settings", None);
    assert_eq!(state.file_path(), "/home/me/.local/share/diaspor/settings/settings.json");
    assert_eq!(state.get_ui().theme.as_deref(), Some("auto"));
    assert_eq!(state.get_storage().max_cache_size, Some(1024 * 1024 * 1024));
    assert_eq!(state.get_ai().ollama_url.as_deref(), Some("http://localhost:11434"));
    assert_eq!(state.get_performance().enable_gpu, Some(true));
    assert_eq!(state.get_security().require_auth, Some(false));
    assert_eq!(state.get_log_directory(Some("/data")), "/data/diaspor/logs");
    state.patch_logging(Some("/var/log/d".to_string()), None, None, None, None);
    assert_eq!(state.get_log_directory(Some("/data")), "/var/log/d");
    assert_eq!(SettingsManager::default_settings_dir(None), "./diaspor/settings");
}
