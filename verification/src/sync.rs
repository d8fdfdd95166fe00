//! Metadata synchronization rules: when a refresh is due, which provider page a
//! generic refresh reads, and how provider records become catalog rows.
use vstd::prelude::*;

use crate::error::{AppError, AppResult};
use crate::models::NewWallpaper;
use crate::provider::{RemoteWallpaper, WallpaperCategory};
use crate::text::{
    ascii_lowercase_str, spec_ascii_lowercase, spec_trim, spec_zero_padded, str_eq, trim_str,
    zero_padded_decimal,
};

verus! {

/// Last page a generic refresh advances to before starting over.
pub const MAX_PROGRESSIVE_PAGE: u64 = 20;

/// A refresh with no keyword on the first page advances through provider pages.
pub open spec fn spec_is_progressive(keyword: Option<String>, page: u32) -> bool {
    page <= 1 && match keyword {
        Some(k) => spec_trim(k@).len() == 0,
        None => true,
    }
}

/// Whether a refresh is a generic, progressive one.
pub fn is_progressive_refresh(keyword: &Option<String>, page: u32) -> (b: bool)
    ensures
        b == spec_is_progressive(*keyword, page),
{
    let blank = match keyword {
        Some(k) => trim_str(k.as_str()).as_str().is_empty(),
        None => true,
    };
    blank && page <= 1
}

/// The page a progressive refresh reads: the stored cursor, else page 2 when an
/// earlier installation already synchronized page one, else page 1; always 1 to 20.
pub open spec fn spec_progressive_page(stored: Option<u64>, synchronized_before: bool) -> nat {
    let page: nat = match stored {
        Some(p) => p as nat,
        None => if synchronized_before {
            2
        } else {
            1
        },
    };
    if page < 1 {
        1
    } else if page > 20 {
        20
    } else {
        page
    }
}

/// Chooses the provider page of a progressive refresh.
pub fn progressive_page(stored: Option<u64>, synchronized_before: bool) -> (p: u32)
    ensures
        p == spec_progressive_page(stored, synchronized_before),
{
    let page: u64 = match stored {
        Some(p) => p,
        None => if synchronized_before {
            2
        } else {
            1
        },
    };
    if page < 1 {
        1
    } else if page > MAX_PROGRESSIVE_PAGE {
        20
    } else {
        page as u32
    }
}

/// The cursor saved after a progressive refresh of `synchronized`: the next page,
/// wrapping to 1 after page 20.
pub open spec fn spec_next_progressive_page(synchronized: nat) -> nat {
    if synchronized >= 20 {
        1
    } else {
        synchronized + 1
    }
}

/// Computes the cursor saved after a progressive refresh.
pub fn next_progressive_page(synchronized: u32) -> (n: u64)
    ensures
        n == spec_next_progressive_page(synchronized as nat),
{
    if synchronized as u64 >= MAX_PROGRESSIVE_PAGE {
        1
    } else {
        synchronized as u64 + 1
    }
}

/// Generic refreshes stay within the bounded window of provider pages: whatever
/// cursor was stored, the page read and the cursor saved after it are both 1 to 20.
pub proof fn progressive_cursor_stays_bounded(stored: Option<u64>, synchronized_before: bool)
    ensures
        1 <= spec_progressive_page(stored, synchronized_before) <= 20,
        1 <= spec_next_progressive_page(spec_progressive_page(stored, synchronized_before)) <= 20,
{
}

/// The startup refresh runs only when enabled and the last success is older than the interval.
pub fn sync_due(enabled: bool, now: u64, last_success: u64, interval_seconds: u64) -> (b: bool)
    ensures
        b == (enabled && (if now >= last_success {
            now - last_success
        } else {
            0
        }) >= interval_seconds),
{
    let elapsed: u64 = if now >= last_success {
        now - last_success
    } else {
        0
    };
    enabled && elapsed >= interval_seconds
}

/// A fixed-width monotonic stamp: `unix:` and the seconds zero-padded to twenty digits.
pub fn sync_stamp(seconds: u64) -> (s: String)
    ensures
        s@ == "unix:"@ + spec_zero_padded(seconds as nat, 20),
{
    let mut s = String::from_str("unix:");
    s.append(zero_padded_decimal(seconds, 20).as_str());
    s
}

/// A sync that failed on every provider is retried once with fresh clients.
pub fn sync_retry_allowed(error: &AppError) -> (b: bool)
    ensures
        b == (error is Provider),
{
    match error {
        AppError::Provider(_) => true,
        _ => false,
    }
}

/// The catalog category of a provider record: the requested category, or for
/// unscoped refreshes the provider's own category when it is a known one.
pub open spec fn spec_catalog_category(requested: WallpaperCategory, provider_category: Seq<char>) -> Seq<
    char,
> {
    match requested {
        WallpaperCategory::Nature => "nature"@,
        WallpaperCategory::Anime => "anime"@,
        WallpaperCategory::Games => "games"@,
        WallpaperCategory::People => "people"@,
        WallpaperCategory::Local => "local"@,
        WallpaperCategory::All => {
            let c = spec_ascii_lowercase(provider_category);
            if c == "anime"@ {
                "anime"@
            } else if c == "games"@ {
                "games"@
            } else if c == "people"@ {
                "people"@
            } else {
                "nature"@
            }
        },
    }
}

fn catalog_category(requested: WallpaperCategory, provider_category: &str) -> (s: &'static str)
    ensures
        s@ == spec_catalog_category(requested, provider_category@),
{
    match requested {
        WallpaperCategory::Nature => "nature",
        WallpaperCategory::Anime => "anime",
        WallpaperCategory::Games => "games",
        WallpaperCategory::People => "people",
        WallpaperCategory::Local => "local",
        WallpaperCategory::All => {
            let c = ascii_lowercase_str(provider_category);
            if str_eq(c.as_str(), "anime") {
                "anime"
            } else if str_eq(c.as_str(), "games") {
                "games"
            } else if str_eq(c.as_str(), "people") {
                "people"
            } else {
                "nature"
            }
        },
    }
}

/// `n` is the catalog row of provider record `w`.
pub open spec fn converted(
    w: RemoteWallpaper,
    requested: WallpaperCategory,
    synced_at: Seq<char>,
    thumbnail_local_path: Option<String>,
    n: NewWallpaper,
) -> bool {
    let is_local = w.provider@ == "local"@;
    &&& n.provider == w.provider
    &&& n.remote_id == w.remote_id
    &&& n.name == w.name
    &&& n.source_page_url == w.source_page_url
    &&& n.original_url == w.original_url
    &&& n.thumbnail_url == w.thumbnail_url
    &&& n.thumbnail_local_path == thumbnail_local_path
    &&& n.local_path == w.local_path
    &&& n.width == match w.width {
        Some(v) => v,
        None => 0,
    }
    &&& n.height == match w.height {
        Some(v) => v,
        None => 0,
    }
    &&& n.aspect_ratio == w.ratio
    &&& n.file_size == w.file_size
    &&& n.mime_type == w.mime_type
    &&& n.category@ == spec_catalog_category(requested, w.category@)
    &&& n.purity == w.purity
    &&& (if is_local {
        n.hash == Some(w.remote_id)
    } else {
        n.hash is None
    })
    &&& n.perceptual_hash == w.perceptual_hash
    &&& n.download_status@ == (if is_local {
        "downloaded"@
    } else {
        "remote"@
    })
    &&& !n.preset
    &&& n.created_at == w.created_at
    &&& n.author == w.author
    &&& n.license_name == w.license_name
    &&& n.license_url == w.license_url
    &&& n.synced_at@ == synced_at
    &&& n.tags == w.tags
}

/// Maps provider metadata into the persisted catalog while preserving local originals in place.
pub fn remote_to_new(
    wallpaper: RemoteWallpaper,
    requested_category: WallpaperCategory,
    synced_at: &str,
    thumbnail_local_path: Option<String>,
) -> (n: NewWallpaper)
    ensures
        converted(wallpaper, requested_category, synced_at@, thumbnail_local_path, n),
{
    let is_local = str_eq(wallpaper.provider.as_str(), "local");
    let category = catalog_category(requested_category, wallpaper.category.as_str()).to_string();
    let hash = if is_local {
        Some(wallpaper.remote_id.clone())
    } else {
        None
    };
    let download_status = if is_local {
        "downloaded".to_string()
    } else {
        "remote".to_string()
    };
    let width = match wallpaper.width {
        Some(v) => v,
        None => 0,
    };
    let height = match wallpaper.height {
        Some(v) => v,
        None => 0,
    };
    NewWallpaper {
        provider: wallpaper.provider,
        remote_id: wallpaper.remote_id,
        name: wallpaper.name,
        source_page_url: wallpaper.source_page_url,
        original_url: wallpaper.original_url,
        thumbnail_url: wallpaper.thumbnail_url,
        thumbnail_local_path,
        local_path: wallpaper.local_path,
        width,
        height,
        aspect_ratio: wallpaper.ratio,
        file_size: wallpaper.file_size,
        mime_type: wallpaper.mime_type,
        category,
        purity: wallpaper.purity,
        hash,
        perceptual_hash: wallpaper.perceptual_hash,
        download_status,
        preset: false,
        created_at: wallpaper.created_at,
        author: wallpaper.author,
        license_name: wallpaper.license_name,
        license_url: wallpaper.license_url,
        synced_at: synced_at.to_string(),
        tags: wallpaper.tags,
    }
}

} // verus!
