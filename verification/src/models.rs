//! Provider-neutral records exchanged between the catalog, the scheduler and the UI.
use vstd::prelude::*;

use crate::error::{AppError, AppResult};
use crate::platform::RuntimeEnvironment;
use crate::text::{chars_of, find_char, parse_unsigned, slice_chars, spec_parse_unsigned, str_eq};

verus! {

/// Persisted collection summary used by navigation and rotation configuration.
#[derive(Clone, Debug)]
pub struct CollectionRecord {
    pub id: i64,
    pub name: String,
    pub description: String,
    pub cover_wallpaper_id: Option<i64>,
    pub position: i64,
    pub wallpaper_count: u64,
    pub smart: bool,
}

/// Versioned allow-list of filters for smart collections; arbitrary SQL is never accepted.
#[derive(Clone, Debug, Default)]
pub struct SmartCollectionRule {
    pub version: u32,
    pub provider: Option<String>,
    pub category: Option<String>,
    pub favorite: Option<bool>,
    pub file_availability: Option<String>,
    pub min_width: Option<u32>,
    pub min_height: Option<u32>,
    pub aspect_ratio: Option<String>,
    pub tags: Vec<String>,
}

/// Platform-independent snapshot of one currently attached display.
#[derive(Clone, Debug)]
pub struct MonitorInfo {
    pub system_monitor_id: String,
    pub name: String,
    pub width: u32,
    pub height: u32,
    pub position_x: i32,
    pub position_y: i32,
    pub primary: bool,
}

/// Persisted provider configuration and latest isolated health result.
#[derive(Clone, Debug)]
pub struct ProviderStatus {
    pub provider: String,
    pub enabled: bool,
    pub status: String,
    pub last_success_at: Option<String>,
    pub last_error_at: Option<String>,
    pub last_error: Option<String>,
    pub response_time_ms: Option<i64>,
}

/// Provenance retained for every provider that resolves to one unified wallpaper entity.
#[derive(Clone, Debug)]
pub struct WallpaperProviderSource {
    pub provider: String,
    pub remote_id: String,
    pub source_page_url: Option<String>,
    pub original_url: Option<String>,
    pub author: Option<String>,
    pub license_name: Option<String>,
    pub license_url: Option<String>,
    pub width: Option<u32>,
    pub height: Option<u32>,
}

/// Persisted per-monitor scheduler state restored after application restart.
#[derive(Clone, Debug)]
pub struct ScheduleRecord {
    pub system_monitor_id: String,
    pub enabled: bool,
    pub paused: bool,
    pub interval_seconds: i64,
    pub fit_mode: String,
    pub last_change_at: Option<String>,
    pub next_change_at: String,
    pub last_error: Option<String>,
    pub wallpaper_count: u32,
    pub selection_mode: String,
}

/// Human-readable persisted explanation for the current per-monitor selection policy.
#[derive(Clone, Debug)]
pub struct RotationExplanation {
    pub system_monitor_id: String,
    pub strategy: String,
    pub last_reason: Option<String>,
    pub source_collection_count: u32,
    pub source_collection_ids: Vec<i64>,
    pub candidate_count: u32,
    pub queued_count: u32,
}

/// Provider-neutral metadata persisted by the local catalog.
#[derive(Clone, Debug)]
pub struct WallpaperRecord {
    pub id: i64,
    pub provider: String,
    pub remote_id: String,
    pub name: String,
    pub source_page_url: Option<String>,
    pub original_url: Option<String>,
    pub thumbnail_url: Option<String>,
    pub thumbnail_local_path: Option<String>,
    pub local_path: Option<String>,
    pub width: u32,
    pub height: u32,
    pub aspect_ratio: Option<String>,
    pub file_size: Option<i64>,
    pub mime_type: Option<String>,
    pub category: String,
    pub purity: String,
    pub hash: Option<String>,
    pub download_status: String,
    pub favorite: bool,
    pub blacklisted: bool,
    pub preset: bool,
    pub created_at: Option<String>,
    pub synced_at: String,
    pub downloaded_at: Option<String>,
    pub last_used_at: Option<String>,
    /// Separates remote-only metadata from available, offline, and missing files.
    pub file_availability: String,
    /// Identifies whether the preferred file is user-owned or application-managed.
    pub storage_kind: String,
    /// Counts all indexed paths for duplicate-copy management.
    pub file_copy_count: u32,
    pub tags: Vec<String>,
}

/// Data accepted by the catalog upsert boundary before SQLite assigns an id.
#[derive(Clone, Debug)]
pub struct NewWallpaper {
    pub provider: String,
    pub remote_id: String,
    pub name: String,
    pub source_page_url: Option<String>,
    pub original_url: Option<String>,
    pub thumbnail_url: Option<String>,
    pub thumbnail_local_path: Option<String>,
    pub local_path: Option<String>,
    pub width: u32,
    pub height: u32,
    pub aspect_ratio: Option<String>,
    pub file_size: Option<i64>,
    pub mime_type: Option<String>,
    pub category: String,
    pub purity: String,
    pub hash: Option<String>,
    pub perceptual_hash: Option<String>,
    pub download_status: String,
    pub preset: bool,
    pub created_at: Option<String>,
    pub author: Option<String>,
    pub license_name: Option<String>,
    pub license_url: Option<String>,
    pub synced_at: String,
    pub tags: Vec<String>,
}

/// Manual apply result carries the retained identity because hash dedup may replace the input id.
#[derive(Clone, Debug)]
pub struct AppliedWallpaper {
    pub processed: crate::image_processing::ProcessedImage,
    pub wallpaper: WallpaperRecord,
}

/// Paginated response keeps catalog queries bounded as the metadata set grows.
#[derive(Clone, Debug)]
pub struct WallpaperPage {
    pub items: Vec<WallpaperRecord>,
    pub page: u32,
    pub page_size: u32,
    pub total: u64,
}

/// One physical file copy participating in a content-hash duplicate group.
#[derive(Clone, Debug)]
pub struct DuplicateFileCopy {
    pub wallpaper_id: i64,
    pub path: String,
    pub storage_kind: String,
    pub availability: String,
    pub file_size: Option<i64>,
}

/// Groups file locations without deleting or silently merging user-owned originals.
#[derive(Clone, Debug)]
pub struct DuplicateFileGroup {
    pub content_hash: String,
    pub copies: Vec<DuplicateFileCopy>,
}

/// Bounded metadata filters used by every catalog page.
#[derive(Clone, Debug, Default)]
pub struct CatalogQuery {
    pub keyword: Option<String>,
    pub name: Option<String>,
    pub category: Option<String>,
    pub provider: Option<String>,
    /// Restricts results to originals that are already available on this device.
    pub locally_available: bool,
    /// Includes indexed file records even when a source is currently offline or missing.
    pub file_backed: bool,
    pub download_status: Option<String>,
    pub file_availability: Option<String>,
    pub storage_kind: Option<String>,
    pub collection_id: Option<i64>,
    pub favorite: Option<bool>,
    pub min_width: Option<u32>,
    pub min_height: Option<u32>,
    pub max_width: Option<u32>,
    pub max_height: Option<u32>,
    pub aspect_ratio: Option<String>,
    pub mime_type: Option<String>,
    pub tags: Vec<String>,
    pub include_blacklisted: bool,
    pub sort: Option<String>,
    pub page: u32,
    pub page_size: u32,
}

// ---------------------------------------------------------------------------
// Declarative rotation rules
// ---------------------------------------------------------------------------

/// Versioned declarative constraints; arbitrary code and cron expressions are rejected.
#[derive(Clone, Debug)]
pub struct RotationRules {
    pub version: u32,
    pub start_time: Option<String>,
    pub end_time: Option<String>,
    pub day_group: String,
    pub pause_on_battery: bool,
    pub pause_on_fullscreen: bool,
}

impl Default for RotationRules {
    fn default() -> (r: Self)
        ensures
            r.version == 1,
            r.start_time is None,
            r.end_time is None,
            r.day_group@ == "all"@,
            !r.pause_on_battery,
            !r.pause_on_fullscreen,
    {
        RotationRules {
            version: 1,
            start_time: None,
            end_time: None,
            day_group: "all".to_string(),
            pause_on_battery: false,
            pause_on_fullscreen: false,
        }
    }
}

/// Index of the first ':' in a time text.
pub open spec fn colon_index(value: Seq<char>) -> Option<int> {
    crate::text::spec_find_char(value, ':')
}

/// What `HH:MM` parsing yields: minutes since midnight, or the error message.
pub open spec fn spec_parse_minutes(value: Seq<char>) -> Result<nat, Seq<char>> {
    match colon_index(value) {
        None => Err("rotation time must use HH:MM"@),
        Some(i) => {
            let hour = spec_parse_unsigned(value.subrange(0, i), 65535);
            let minute = spec_parse_unsigned(value.subrange(i + 1, value.len() as int), 65535);
            if hour is None {
                Err("rotation hour is invalid"@)
            } else if minute is None {
                Err("rotation minute is invalid"@)
            } else if hour->0 > 23 || minute->0 > 59 {
                Err("rotation time is out of range"@)
            } else {
                Ok(hour->0 * 60 + minute->0)
            }
        },
    }
}

/// Converts the fixed HH:MM contract to minutes since midnight.
pub fn parse_minutes(value: &str) -> (r: AppResult<u16>)
    ensures
        match spec_parse_minutes(value@) {
            Ok(minutes) => r == Ok::<u16, AppError>(minutes as u16) && minutes < 1440,
            Err(message) => r matches Err(AppError::Configuration(m)) && m@ == message,
        },
{
    let chars = chars_of(value);
    let colon = match find_char(&chars, ':') {
        Some(i) => i,
        None => {
            assert(colon_index(value@) is None);
            return Err(AppError::Configuration("rotation time must use HH:MM".to_string()));
        },
    };
    assert(colon_index(value@) == Some(colon as int)) by {
        let j = colon_index(value@)->0;
        assert(exists|k: int| 0 <= k < chars@.len() && chars@[k] == ':') by {
            assert(chars@[colon as int] == ':');
        }
        if j < colon {
            assert(chars@[j] != ':');
        }
        if j > colon {
            assert(chars@[colon as int] == ':');
        }
    }
    let hour_text = slice_chars(&chars, 0, colon);
    let minute_text = slice_chars(&chars, colon + 1, chars.len());
    let hour = match parse_unsigned(&hour_text, 65535) {
        Some(h) => h,
        None => {
            return Err(AppError::Configuration("rotation hour is invalid".to_string()));
        },
    };
    let minute = match parse_unsigned(&minute_text, 65535) {
        Some(m) => m,
        None => {
            return Err(AppError::Configuration("rotation minute is invalid".to_string()));
        },
    };
    if hour > 23 || minute > 59 {
        return Err(AppError::Configuration("rotation time is out of range".to_string()));
    }
    Ok((hour * 60 + minute) as u16)
}

/// Reason shown when the day rule pauses rotation.
pub open spec fn day_pause_message() -> Seq<char> {
    "当前日期不在配置的工作日/周末范围"@
}

/// Reason shown when the time window pauses rotation.
pub open spec fn window_pause_message() -> Seq<char> {
    "当前时间不在允许切换的时间段"@
}

/// Reason shown when battery power pauses rotation.
pub open spec fn battery_pause_message() -> Seq<char> {
    "电池供电时暂停自动切换"@
}

/// Reason shown when a full-screen application pauses rotation.
pub open spec fn fullscreen_pause_message() -> Seq<char> {
    "全屏应用运行时暂停自动切换"@
}

/// Whether `current` falls in the inclusive window `[start, end]`, which wraps
/// past midnight when `start > end`.
pub open spec fn in_window(start: nat, end: nat, current: nat) -> bool {
    if start <= end {
        current >= start && current <= end
    } else {
        current >= start || current <= end
    }
}

/// The day group excludes the environment's weekday.
pub open spec fn day_excluded(day_group: Seq<char>, iso_weekday: u8) -> bool {
    (day_group == "weekdays"@ && iso_weekday >= 6) || (day_group == "weekends"@ && iso_weekday < 6)
}

/// What `pause_reason` returns; an unreadable time ends evaluation with no reason.
pub open spec fn spec_pause_reason(rules: RotationRules, env: RuntimeEnvironment) -> Option<Seq<char>> {
    if day_excluded(rules.day_group@, env.iso_weekday) {
        Some(day_pause_message())
    } else if rules.start_time is Some && rules.end_time is Some && (spec_parse_minutes(
        rules.start_time->0@,
    ) is Err || spec_parse_minutes(rules.end_time->0@) is Err) {
        None
    } else if rules.start_time is Some && rules.end_time is Some && !in_window(
        spec_parse_minutes(rules.start_time->0@)->Ok_0,
        spec_parse_minutes(rules.end_time->0@)->Ok_0,
        env.local_minutes as nat,
    ) {
        Some(window_pause_message())
    } else if rules.pause_on_battery && env.on_battery {
        Some(battery_pause_message())
    } else if rules.pause_on_fullscreen && env.fullscreen_app {
        Some(fullscreen_pause_message())
    } else {
        None
    }
}

/// The accepted rule schema: version 1 and a known day group.
pub open spec fn supported_schema(rules: RotationRules) -> bool {
    rules.version == 1 && (rules.day_group@ == "all"@ || rules.day_group@ == "weekdays"@
        || rules.day_group@ == "weekends"@)
}

/// The validation error for a parsed rule set, if any.
pub open spec fn rules_error(rules: RotationRules) -> Option<Seq<char>> {
    if !supported_schema(rules) {
        Some("unsupported rotation rule schema"@)
    } else if rules.start_time is Some && spec_parse_minutes(rules.start_time->0@) is Err {
        Some(spec_parse_minutes(rules.start_time->0@)->Err_0)
    } else if rules.end_time is Some && spec_parse_minutes(rules.end_time->0@) is Err {
        Some(spec_parse_minutes(rules.end_time->0@)->Err_0)
    } else {
        None
    }
}

fn check_time(value: &Option<String>) -> (r: AppResult<()>)
    ensures
        match value {
            Some(v) => match spec_parse_minutes(v@) {
                Ok(_) => r is Ok,
                Err(message) => r matches Err(AppError::Configuration(m)) && m@ == message,
            },
            None => r is Ok,
        },
{
    match value {
        Some(v) => {
            parse_minutes(v.as_str())?;
            Ok(())
        },
        None => Ok(()),
    }
}

impl RotationRules {
    /// Validates a parsed rule set against the bounded schema before it reaches the worker.
    pub fn validated(self) -> (r: AppResult<RotationRules>)
        ensures
            match rules_error(self) {
                Some(message) => r matches Err(AppError::Configuration(m)) && m@ == message,
                None => r == Ok::<RotationRules, AppError>(self),
            },
    {
        let group = self.day_group.as_str();
        if self.version != 1 || !(str_eq(group, "all") || str_eq(group, "weekdays") || str_eq(
            group,
            "weekends",
        )) {
            return Err(AppError::Configuration("unsupported rotation rule schema".to_string()));
        }
        check_time(&self.start_time)?;
        check_time(&self.end_time)?;
        Ok(self)
    }

    /// Returns a user-facing pause reason, or `None` to allow one due execution.
    pub fn pause_reason(&self, environment: &RuntimeEnvironment) -> (r: Option<String>)
        ensures
            match spec_pause_reason(*self, *environment) {
                Some(message) => r matches Some(m) && m@ == message,
                None => r is None,
            },
    {
        let weekend = environment.iso_weekday >= 6;
        let group = self.day_group.as_str();
        if (str_eq(group, "weekdays") && weekend) || (str_eq(group, "weekends") && !weekend) {
            return Some("当前日期不在配置的工作日/周末范围".to_string());
        }
        if let (Some(start_text), Some(end_text)) = (&self.start_time, &self.end_time) {
            let start = match parse_minutes(start_text.as_str()) {
                Ok(v) => v,
                Err(_) => {
                    return None;
                },
            };
            let end = match parse_minutes(end_text.as_str()) {
                Ok(v) => v,
                Err(_) => {
                    return None;
                },
            };
            let current = environment.local_minutes;
            let allowed = if start <= end {
                current >= start && current <= end
            } else {
                current >= start || current <= end
            };
            if !allowed {
                return Some("当前时间不在允许切换的时间段".to_string());
            }
        }
        if self.pause_on_battery && environment.on_battery {
            return Some("电池供电时暂停自动切换".to_string());
        }
        if self.pause_on_fullscreen && environment.fullscreen_app {
            return Some("全屏应用运行时暂停自动切换".to_string());
        }
        None
    }
}

/// The default rules never pause rotation, whatever the environment.
pub proof fn default_rules_never_pause(rules: RotationRules, env: RuntimeEnvironment)
    requires
        rules.version == 1,
        rules.start_time is None,
        rules.end_time is None,
        rules.day_group@ == "all"@,
        !rules.pause_on_battery,
        !rules.pause_on_fullscreen,
    ensures
        spec_pause_reason(rules, env) is None,
{
    reveal_strlit("all");
    reveal_strlit("weekdays");
    reveal_strlit("weekends");
    assert("all"@.len() != "weekdays"@.len());
    assert("all"@.len() != "weekends"@.len());
}

/// With readable times and no other pausing rule, rotation is paused exactly when
/// the current minute is outside the (possibly overnight) window.
pub proof fn time_window_decides(rules: RotationRules, env: RuntimeEnvironment)
    requires
        !day_excluded(rules.day_group@, env.iso_weekday),
        rules.start_time is Some,
        rules.end_time is Some,
        spec_parse_minutes(rules.start_time->0@) is Ok,
        spec_parse_minutes(rules.end_time->0@) is Ok,
        !rules.pause_on_battery,
        !rules.pause_on_fullscreen,
    ensures
        ({
            let start = spec_parse_minutes(rules.start_time->0@)->Ok_0;
            let end = spec_parse_minutes(rules.end_time->0@)->Ok_0;
            let current = env.local_minutes as nat;
            &&& (spec_pause_reason(rules, env) is None) == in_window(start, end, current)
            &&& start > end ==> (in_window(start, end, current) <==> (current >= start
                || current <= end))
        }),
{
}

/// A full-screen application or battery power pauses rotation whenever the
/// rules ask for it, whatever the day group and time window allow. The one
/// exception is a time window that cannot be read, which ends evaluation
/// without a reason.
pub proof fn requested_signals_always_pause(rules: RotationRules, env: RuntimeEnvironment)
    requires
        !(rules.start_time is Some && rules.end_time is Some && (spec_parse_minutes(
            rules.start_time->0@,
        ) is Err || spec_parse_minutes(rules.end_time->0@) is Err)),
    ensures
        rules.pause_on_fullscreen && env.fullscreen_app ==> spec_pause_reason(rules, env) is Some,
        rules.pause_on_battery && env.on_battery ==> spec_pause_reason(rules, env) is Some,
        spec_pause_reason(rules, env) is None ==> !(rules.pause_on_fullscreen && env.fullscreen_app)
            && !(rules.pause_on_battery && env.on_battery),
{
}

} // verus!

