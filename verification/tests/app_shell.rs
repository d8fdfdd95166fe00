use wallpaper_desktop::platform::PathStyle;
use wallpaper_desktop::commands::{cached_thumbnail, is_background_launch, thumbnail_mime};
use wallpaper_desktop::paths::AppPaths;
use wallpaper_desktop::settings::{is_hex_color, validate_settings, AppConfig};

#[test]
fn recognizes_only_the_explicit_background_launch_argument() {
    assert!(is_background_launch(&vec!["wallpaper-desktop.exe".to_string(), "--hidden".to_string()]));
    assert!(!is_background_launch(&vec!["wallpaper-desktop.exe".to_string(), "--hidden-window".to_string()]));
    assert!(!is_background_launch(&vec!["wallpaper-desktop.exe".to_string()]));
}

#[test]
fn defaults_follow_the_v1_baseline() {
    let config = AppConfig::default();
    assert_eq!(config.minimum_resolution, "3840x2160");
    assert_eq!(config.resource_sync_interval_seconds, 86_400);
    assert_eq!(config.cache_limit_bytes, 5 * 1024 * 1024 * 1024);
    assert!(!config.auto_start);
    assert!(config.local_directories.is_empty());
    assert_eq!(config.theme_mode, "dark");
    assert_eq!(config.theme_effect, "solid");
    assert_eq!(config.theme_pack, "classic");
    assert_eq!(config.theme_background_fit, "fill");
}

#[test]
fn discovered_paths_keep_runtime_data_outside_the_install_directory() {
    let paths = AppPaths::under("/home/user/.local/share", '/');
    assert!(paths.database_file.starts_with(&paths.root));
    assert!(paths.logs_dir.starts_with(&paths.root));
    assert!(paths.processed_dir.ends_with("processed"));
    assert_eq!(paths.root, "/home/user/.local/share/4K Wallpaper Desktop");
    assert_eq!(paths.config_file, "/home/user/.local/share/4K Wallpaper Desktop/config/settings.json");
    assert_eq!(paths.required_directories().len(), 6);
}

#[test]
fn settings_validation_normalizes_and_rejects() {
    let mut config = AppConfig::default();
    config.theme_mode = "system".into();
    config.theme_effect = "rainbow".into();
    config.thegamesdb_api_key = Some("  key  ".into());
    let saved = validate_settings(config, true).expect("valid");
    assert_eq!(saved.theme_effect, "solid");
    assert_eq!(saved.thegamesdb_api_key.as_deref(), Some("key"));
    let again = validate_settings(saved.clone(), true).expect("still valid");
    assert_eq!(again.thegamesdb_api_key, saved.thegamesdb_api_key);

    let mut short = AppConfig::default();
    short.resource_sync_interval_seconds = 60;
    assert!(validate_settings(short, true).is_err());
    assert!(validate_settings(AppConfig::default(), false).is_err());
    let mut color = AppConfig::default();
    color.theme_accent = "#12345".into();
    assert!(validate_settings(color, true).is_err());
    let mut blank = AppConfig::default();
    blank.thegamesdb_api_key = Some("   ".into());
    assert_eq!(validate_settings(blank, true).expect("valid").thegamesdb_api_key, None);
}

#[test]
fn hex_colors_need_six_digits() {
    assert!(is_hex_color("#64e8f5"));
    assert!(!is_hex_color("64e8f5"));
    assert!(!is_hex_color("#64e8g5"));
    assert!(!is_hex_color("#64e8f5a"));
}

#[test]
fn thumbnails_are_served_with_their_type() {
    assert_eq!(thumbnail_mime("/cache/a.PNG", PathStyle::Unix), "image/png");
    assert_eq!(thumbnail_mime("/cache/a.jpg", PathStyle::Unix), "image/jpeg");
    assert!(cached_thumbnail(None).is_err());
    assert_eq!(cached_thumbnail(Some("x".into())).expect("cached"), "x");
}
