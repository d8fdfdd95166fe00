//! Decisions of downloading, deduplicating and applying catalog wallpapers.
use vstd::prelude::*;

use crate::error::{AppError, AppResult};
use crate::image_processing::{dimensions_text, spec_dimensions_text};
use crate::models::{MonitorInfo, WallpaperRecord};
use crate::platform::PathStyle;
use crate::provider::{copy_option_string, copy_strings, RemoteWallpaper};
use crate::text::str_eq;

verus! {

/// Blacklisted wallpapers are never downloaded or applied.
pub fn check_not_blacklisted(wallpaper: &WallpaperRecord) -> (r: AppResult<()>)
    ensures
        !wallpaper.blacklisted ==> r is Ok,
        wallpaper.blacklisted ==> (r matches Err(AppError::Wallpaper(m)) && m@
            == "blacklisted wallpaper cannot be downloaded or applied"@),
{
    if wallpaper.blacklisted {
        return Err(
            AppError::Wallpaper("blacklisted wallpaper cannot be downloaded or applied".to_string()),
        );
    }
    Ok(())
}

/// Converts persisted metadata back into the provider-neutral download contract.
pub fn record_to_remote(wallpaper: &WallpaperRecord) -> (r: RemoteWallpaper)
    ensures
        r.remote_id == wallpaper.remote_id,
        r.provider == wallpaper.provider,
        r.name == wallpaper.name,
        r.source_page_url == wallpaper.source_page_url,
        r.original_url == wallpaper.original_url,
        r.thumbnail_url == wallpaper.thumbnail_url,
        r.thumbnail_local_path == wallpaper.thumbnail_local_path,
        r.local_path == wallpaper.local_path,
        r.width == Some(wallpaper.width),
        r.height == Some(wallpaper.height),
        r.resolution matches Some(t) && t@ == spec_dimensions_text(
            wallpaper.width as nat,
            wallpaper.height as nat,
        ),
        r.ratio == wallpaper.aspect_ratio,
        r.file_size == wallpaper.file_size,
        r.mime_type == wallpaper.mime_type,
        r.category == wallpaper.category,
        r.purity == wallpaper.purity,
        r.tags@ == wallpaper.tags@,
        r.created_at == wallpaper.created_at,
        r.author is None,
        r.license_name is None,
        r.license_url is None,
        r.perceptual_hash is None,
{
    RemoteWallpaper {
        remote_id: wallpaper.remote_id.clone(),
        provider: wallpaper.provider.clone(),
        name: wallpaper.name.clone(),
        source_page_url: copy_option_string(&wallpaper.source_page_url),
        original_url: copy_option_string(&wallpaper.original_url),
        thumbnail_url: copy_option_string(&wallpaper.thumbnail_url),
        thumbnail_local_path: copy_option_string(&wallpaper.thumbnail_local_path),
        local_path: copy_option_string(&wallpaper.local_path),
        width: Some(wallpaper.width),
        height: Some(wallpaper.height),
        resolution: Some(dimensions_text(wallpaper.width, wallpaper.height)),
        ratio: copy_option_string(&wallpaper.aspect_ratio),
        file_size: wallpaper.file_size,
        mime_type: copy_option_string(&wallpaper.mime_type),
        category: wallpaper.category.clone(),
        purity: wallpaper.purity.clone(),
        tags: copy_strings(&wallpaper.tags),
        created_at: copy_option_string(&wallpaper.created_at),
        author: None,
        license_name: None,
        license_url: None,
        perceptual_hash: None,
    }
}

/// The local original of a downloaded wallpaper.
pub fn downloaded_path(wallpaper: &WallpaperRecord) -> (r: AppResult<&String>)
    ensures
        match wallpaper.local_path {
            Some(p) => r matches Ok(x) && *x == p,
            None => r matches Err(AppError::Wallpaper(m)) && m@
                == "downloaded wallpaper has no local path"@,
        },
{
    match &wallpaper.local_path {
        Some(p) => Ok(p),
        None => Err(AppError::Wallpaper("downloaded wallpaper has no local path".to_string())),
    }
}

/// Index of the first monitor with an id, if any.
pub open spec fn first_monitor(monitors: Seq<MonitorInfo>, id: Seq<char>) -> Option<int> {
    if exists|i: int| 0 <= i < monitors.len() && monitors[i].system_monitor_id@ == id {
        Some(
            choose|i: int|
                0 <= i < monitors.len() && monitors[i].system_monitor_id@ == id && forall|k: int|
                    0 <= k < i ==> #[trigger] monitors[k].system_monitor_id@ != id,
        )
    } else {
        None
    }
}

/// Finds the active monitor with an id; an absent one is a monitor error.
pub fn find_active_monitor(monitors: Vec<MonitorInfo>, id: &str) -> (r: AppResult<MonitorInfo>)
    ensures
        match first_monitor(monitors@, id@) {
            Some(i) => r == Ok::<MonitorInfo, AppError>(monitors@[i]),
            None => r matches Err(AppError::Monitor(m)) && m@ == "selected monitor is not active"@,
        },
{
    let ghost all = monitors@;
    let mut pending = monitors;
    while pending.len() > 0
        invariant
            pending.len() <= all.len(),
            pending@ == all.subrange(all.len() - pending.len(), all.len() as int),
            all == monitors@,
            forall|k: int|
                0 <= k < all.len() - pending.len() ==> #[trigger] all[k].system_monitor_id@ != id@,
        decreases pending.len(),
    {
        let ghost n = all.len() - pending.len();
        let m = pending.remove(0);
        assert(m == all[n]);
        if str_eq(m.system_monitor_id.as_str(), id) {
            proof {
                let j = choose|j: int|
                    0 <= j < all.len() && all[j].system_monitor_id@ == id@ && forall|k: int|
                        0 <= k < j ==> #[trigger] all[k].system_monitor_id@ != id@;
                assert(j == n) by {
                    if j < n {
                        assert(all[j].system_monitor_id@ != id@);
                    } else if n < j {
                        assert(all[n].system_monitor_id@ != id@);
                    }
                }
            }
            return Ok(m);
        }
        assert(pending@ =~= all.subrange(all.len() - pending.len(), all.len() as int));
    }
    Err(AppError::Monitor("selected monitor is not active".to_string()))
}

/// Whether some active monitor has an id.
pub fn monitor_is_active(monitors: &Vec<MonitorInfo>, id: &str) -> (b: bool)
    ensures
        b == exists|i: int| 0 <= i < monitors@.len() && #[trigger] monitors@[i].system_monitor_id@ == id@,
{
    let mut i: usize = 0;
    while i < monitors.len()
        invariant
            i <= monitors.len(),
            forall|k: int| 0 <= k < i ==> #[trigger] monitors@[k].system_monitor_id@ != id@,
        decreases monitors.len() - i,
    {
        if str_eq(monitors[i].system_monitor_id.as_str(), id) {
            return true;
        }
        i += 1;
    }
    false
}

/// Why a cached original may not be deleted, if it may not; otherwise the path to delete, if any.
pub fn cache_deletion_target(wallpaper: &WallpaperRecord) -> (r: AppResult<Option<&String>>)
    ensures
        wallpaper.favorite ==> (r matches Err(AppError::Wallpaper(m)) && m@
            == "favorite originals are protected from cache deletion"@),
        !wallpaper.favorite && wallpaper.provider@ == "local"@ ==> (r matches Err(
            AppError::Wallpaper(m),
        ) && m@ == "LocalProvider originals are user-owned and cannot be deleted"@),
        !wallpaper.favorite && wallpaper.provider@ != "local"@ ==> match wallpaper.local_path {
            Some(p) => r matches Ok(Some(x)) && *x == p,
            None => r matches Ok(None),
        },
{
    if wallpaper.favorite {
        return Err(
            AppError::Wallpaper("favorite originals are protected from cache deletion".to_string()),
        );
    }
    if str_eq(wallpaper.provider.as_str(), "local") {
        return Err(
            AppError::Wallpaper(
                "LocalProvider originals are user-owned and cannot be deleted".to_string(),
            ),
        );
    }
    match &wallpaper.local_path {
        Some(p) => Ok(Some(p)),
        None => Ok(None),
    }
}

/// A newly downloaded duplicate is removed only when it is a different file inside
/// the application-owned original cache.
pub fn duplicate_removable(downloaded: &str, retained: &str, original_root: &str, style: PathStyle) -> (b:
    bool)
    ensures
        b == (downloaded@ != retained@ && crate::cache::spec_path_within(
            downloaded@,
            original_root@,
            style,
        )),
{
    !str_eq(downloaded, retained) && crate::cache::path_within(downloaded, original_root, style)
}

/// The legacy selection mode stored beside an advanced strategy.
pub fn legacy_selection(strategy: &str) -> (s: &'static str)
    ensures
        s@ == (if strategy@ == "shuffle"@ || strategy@ == "weighted_random"@ {
            "random"@
        } else {
            "round_robin"@
        }),
{
    if str_eq(strategy, "shuffle") || str_eq(strategy, "weighted_random") {
        "random"
    } else {
        "round_robin"
    }
}

} // verus!
