//! Application settings: product defaults and the validation and normalization
//! applied before a settings change is saved.
use vstd::prelude::*;

use crate::error::{AppError, AppResult};
use crate::text::{
    char_is_ascii_hexdigit, chars_of, is_ascii_hexdigit, spec_trim, str_eq, trim_str,
};

verus! {

/// Persisted application settings (the background overlay opacity, a float, is
/// kept by the application shell and checked there).
#[derive(Clone, Debug)]
pub struct AppConfig {
    pub online_provider: String,
    pub minimum_resolution: String,
    pub safety: String,
    pub resource_sync_enabled: bool,
    pub resource_sync_interval_seconds: u64,
    pub wallpaper_auto_change: bool,
    pub wallpaper_change_interval_seconds: u64,
    pub wallpaper_fit_mode: String,
    pub cache_limit_bytes: u64,
    pub close_to_tray: bool,
    pub auto_start: bool,
    pub local_directories: Vec<String>,
    pub theme_mode: String,
    pub theme_effect: String,
    pub theme_accent: String,
    pub theme_secondary: String,
    pub theme_background: String,
    pub theme_surface: String,
    pub theme_pack: String,
    pub theme_background_image: Option<String>,
    pub theme_background_fit: String,
    pub thegamesdb_api_key: Option<String>,
}

impl Default for AppConfig {
    /// The product defaults: 4K SFW browsing, daily resource sync, a 30-minute
    /// change interval and a 5 GiB cache.
    fn default() -> (c: Self)
        ensures
            c.online_provider@ == "wallhaven"@,
            c.minimum_resolution@ == "3840x2160"@,
            c.safety@ == "SFW"@,
            c.resource_sync_enabled,
            c.resource_sync_interval_seconds == 86400,
            !c.wallpaper_auto_change,
            c.wallpaper_change_interval_seconds == 1800,
            c.wallpaper_fit_mode@ == "fill"@,
            c.cache_limit_bytes == 5368709120,
            c.close_to_tray,
            !c.auto_start,
            c.local_directories@.len() == 0,
            c.theme_mode@ == "dark"@,
            c.theme_effect@ == "solid"@,
            c.theme_accent@ == "#64e8f5"@,
            c.theme_secondary@ == "#4eb2f4"@,
            c.theme_background@ == "#07111d"@,
            c.theme_surface@ == "#0a1b29"@,
            c.theme_pack@ == "classic"@,
            c.theme_background_image is None,
            c.theme_background_fit@ == "fill"@,
            c.thegamesdb_api_key is None,
    {
        AppConfig {
            online_provider: "wallhaven".to_string(),
            minimum_resolution: "3840x2160".to_string(),
            safety: "SFW".to_string(),
            resource_sync_enabled: true,
            resource_sync_interval_seconds: 86400,
            wallpaper_auto_change: false,
            wallpaper_change_interval_seconds: 1800,
            wallpaper_fit_mode: "fill".to_string(),
            cache_limit_bytes: 5368709120,
            close_to_tray: true,
            auto_start: false,
            local_directories: Vec::new(),
            theme_mode: "dark".to_string(),
            theme_effect: "solid".to_string(),
            theme_accent: "#64e8f5".to_string(),
            theme_secondary: "#4eb2f4".to_string(),
            theme_background: "#07111d".to_string(),
            theme_surface: "#0a1b29".to_string(),
            theme_pack: "classic".to_string(),
            theme_background_image: None,
            theme_background_fit: "fill".to_string(),
            thegamesdb_api_key: None,
        }
    }
}

/// `#RRGGBB`: a `#` followed by six ASCII hex digits.
pub open spec fn spec_is_hex_color(value: Seq<char>) -> bool {
    &&& value.len() == 7
    &&& value[0] == '#'
    &&& forall|i: int| 1 <= i < 7 ==> is_ascii_hexdigit(#[trigger] value[i])
}

/// Accepts only `#RRGGBB` colors.
pub fn is_hex_color(value: &str) -> (b: bool)
    ensures
        b == spec_is_hex_color(value@),
{
    let v = chars_of(value);
    if v.len() != 7 || v[0] != '#' {
        return false;
    }
    let mut i: usize = 1;
    while i < 7
        invariant
            1 <= i <= 7,
            v@ == value@,
            v@.len() == 7,
            forall|k: int| 1 <= k < i ==> is_ascii_hexdigit(#[trigger] v@[k]),
        decreases 7 - i,
    {
        if !char_is_ascii_hexdigit(v[i]) {
            assert(!is_ascii_hexdigit(value@[i as int]));
            return false;
        }
        i += 1;
    }
    true
}

/// The fit modes a wallpaper or background can use.
pub open spec fn is_fit_name(value: Seq<char>) -> bool {
    value == "fill"@ || value == "fit"@ || value == "center"@ || value == "stretch"@
}

/// Why a settings change is refused, if it is; `overlay_in_range` says whether
/// the background overlay opacity lies in `[0, 0.85]`.
pub open spec fn spec_settings_error(c: AppConfig, overlay_in_range: bool) -> Option<Seq<char>> {
    if c.resource_sync_interval_seconds < 3600 {
        Some("resource sync interval must be at least one hour"@)
    } else if c.wallpaper_change_interval_seconds < 60 {
        Some("wallpaper interval must be at least one minute"@)
    } else if !is_fit_name(c.wallpaper_fit_mode@) {
        Some("unsupported wallpaper fit mode"@)
    } else if !(c.theme_mode@ == "dark"@ || c.theme_mode@ == "light"@ || c.theme_mode@ == "system"@
        || c.theme_mode@ == "custom"@) {
        Some("unsupported application theme mode"@)
    } else if !(c.theme_effect@ == "solid"@ || c.theme_effect@ == "gradient"@ || c.theme_effect@
        == "rainbow"@) {
        Some("unsupported application theme effect"@)
    } else if !(c.theme_pack@ == "classic"@ || c.theme_pack@ == "gallery"@ || c.theme_pack@
        == "compact"@ || c.theme_pack@ == "glass"@) {
        Some("unsupported built-in theme pack"@)
    } else if !is_fit_name(c.theme_background_fit@) || !overlay_in_range {
        Some("invalid application background settings"@)
    } else if !(spec_is_hex_color(c.theme_accent@) && spec_is_hex_color(c.theme_secondary@)
        && spec_is_hex_color(c.theme_background@) && spec_is_hex_color(c.theme_surface@)) {
        Some("custom theme colors must use #RRGGBB format"@)
    } else {
        None
    }
}

/// The saved form of accepted settings: system mode uses the solid effect, and
/// the optional API key is trimmed, absent when blank.
pub open spec fn normalized_settings(c: AppConfig, r: AppConfig) -> bool {
    &&& r.theme_effect@ == if c.theme_mode@ == "system"@ {
        "solid"@
    } else {
        c.theme_effect@
    }
    &&& match c.thegamesdb_api_key {
        Some(k) => if spec_trim(k@).len() == 0 {
            r.thegamesdb_api_key is None
        } else {
            r.thegamesdb_api_key matches Some(x) && x@ == spec_trim(k@)
        },
        None => r.thegamesdb_api_key is None,
    }
    &&& r.online_provider == c.online_provider
    &&& r.minimum_resolution == c.minimum_resolution
    &&& r.safety == c.safety
    &&& r.resource_sync_enabled == c.resource_sync_enabled
    &&& r.resource_sync_interval_seconds == c.resource_sync_interval_seconds
    &&& r.wallpaper_auto_change == c.wallpaper_auto_change
    &&& r.wallpaper_change_interval_seconds == c.wallpaper_change_interval_seconds
    &&& r.wallpaper_fit_mode == c.wallpaper_fit_mode
    &&& r.cache_limit_bytes == c.cache_limit_bytes
    &&& r.close_to_tray == c.close_to_tray
    &&& r.auto_start == c.auto_start
    &&& r.local_directories == c.local_directories
    &&& r.theme_mode == c.theme_mode
    &&& r.theme_accent == c.theme_accent
    &&& r.theme_secondary == c.theme_secondary
    &&& r.theme_background == c.theme_background
    &&& r.theme_surface == c.theme_surface
    &&& r.theme_pack == c.theme_pack
    &&& r.theme_background_image == c.theme_background_image
    &&& r.theme_background_fit == c.theme_background_fit
}

fn fit_name(value: &str) -> (b: bool)
    ensures
        b == is_fit_name(value@),
{
    str_eq(value, "fill") || str_eq(value, "fit") || str_eq(value, "center") || str_eq(
        value,
        "stretch",
    )
}

/// Validates a settings change and returns the normalized settings to save.
pub fn validate_settings(settings: AppConfig, overlay_in_range: bool) -> (r: AppResult<AppConfig>)
    ensures
        match spec_settings_error(settings, overlay_in_range) {
            Some(message) => r matches Err(AppError::Configuration(m)) && m@ == message,
            None => r matches Ok(c) && normalized_settings(settings, c),
        },
{
    let mut settings = settings;
    let ghost original = settings;
    if settings.resource_sync_interval_seconds < 3600 {
        return Err(
            AppError::Configuration("resource sync interval must be at least one hour".to_string()),
        );
    }
    if settings.wallpaper_change_interval_seconds < 60 {
        return Err(
            AppError::Configuration("wallpaper interval must be at least one minute".to_string()),
        );
    }
    if !fit_name(settings.wallpaper_fit_mode.as_str()) {
        return Err(AppError::Configuration("unsupported wallpaper fit mode".to_string()));
    }
    let mode = settings.theme_mode.as_str();
    if !(str_eq(mode, "dark") || str_eq(mode, "light") || str_eq(mode, "system") || str_eq(
        mode,
        "custom",
    )) {
        return Err(AppError::Configuration("unsupported application theme mode".to_string()));
    }
    let effect = settings.theme_effect.as_str();
    if !(str_eq(effect, "solid") || str_eq(effect, "gradient") || str_eq(effect, "rainbow")) {
        return Err(AppError::Configuration("unsupported application theme effect".to_string()));
    }
    let pack = settings.theme_pack.as_str();
    if !(str_eq(pack, "classic") || str_eq(pack, "gallery") || str_eq(pack, "compact") || str_eq(
        pack,
        "glass",
    )) {
        return Err(AppError::Configuration("unsupported built-in theme pack".to_string()));
    }
    if !fit_name(settings.theme_background_fit.as_str()) || !overlay_in_range {
        return Err(
            AppError::Configuration("invalid application background settings".to_string()),
        );
    }
    if str_eq(settings.theme_mode.as_str(), "system") {
        settings.theme_effect = "solid".to_string();
    }
    if !(is_hex_color(settings.theme_accent.as_str()) && is_hex_color(
        settings.theme_secondary.as_str(),
    ) && is_hex_color(settings.theme_background.as_str()) && is_hex_color(
        settings.theme_surface.as_str(),
    )) {
        return Err(
            AppError::Configuration("custom theme colors must use #RRGGBB format".to_string()),
        );
    }
    let key = match &settings.thegamesdb_api_key {
        Some(k) => {
            let t = trim_str(k.as_str());
            if t.as_str().is_empty() {
                None
            } else {
                Some(t)
            }
        },
        None => None,
    };
    settings.thegamesdb_api_key = key;
    Ok(settings)
}

/// Saving validated settings is stable: settings that passed validation pass it
/// again and come back unchanged.
pub proof fn validation_is_idempotent(c: AppConfig, r: AppConfig, overlay_in_range: bool)
    requires
        spec_settings_error(c, overlay_in_range) is None,
        normalized_settings(c, r),
    ensures
        spec_settings_error(r, overlay_in_range) is None,
        normalized_settings(r, r),
{
    match c.thegamesdb_api_key {
        Some(k) => {
            crate::text::trim_is_idempotent(k@);
        },
        None => {},
    }
}

} // verus!
