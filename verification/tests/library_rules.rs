use wallpaper_desktop::platform::PathStyle;
use wallpaper_desktop::cache::{
    cache_info, check_owned_file, cleanup_result, order_oldest_first, path_within, sum_sizes,
    CacheFile, CleanupProgress,
};
use wallpaper_desktop::collection::{
    check_rule_version, collection_position, following_page, has_more_pages, member_union,
    validate_name,
};
use wallpaper_desktop::error::AppError;
use wallpaper_desktop::hashing::{hex_lower, sha256_hex};
use wallpaper_desktop::identity::{
    check_single_update, excludes, first_known_identity, merge_identity, new_identity, tombstone,
    ContentIdentity, identity_confidence, improves_card,
    merge_card, merge_flags, merged_confidence, normalized_tags, perceptual_match, ratios_match,
    refresh_skips, retained_identity, storage_kind_for, stored_file_size, CardDisplay, Exclusion,
    UserFlags,
};
use wallpaper_desktop::models::{NewWallpaper, SmartCollectionRule};
use wallpaper_desktop::preset::{
    preset_thumbnail_name, validate_manifest, validate_preset_signature, PresetManifest,
};
use wallpaper_desktop::provider::local::{file_availability, owning_root, track_directories};
use wallpaper_desktop::provider::{RemoteWallpaper, WallpaperCategory};
use wallpaper_desktop::urls::{canonical_query, normalize_original_url};
use wallpaper_desktop::sync::{
    is_progressive_refresh, next_progressive_page, progressive_page, remote_to_new, sync_due,
    sync_retry_allowed, sync_stamp,
};

fn file(path: &str, size: u64, modified_at: u64) -> CacheFile {
    CacheFile { path: path.into(), size, modified_at }
}

#[test]
fn cache_sizes_saturate_instead_of_overflowing() {
    let files = vec![file("a", 10, 1), file("b", 20, 2)];
    assert_eq!(sum_sizes(&files), 30);
    let huge = vec![file("a", u64::MAX, 1), file("b", 5, 2)];
    assert_eq!(sum_sizes(&huge), u64::MAX);
    assert_eq!(sum_sizes(&Vec::new()), 0);

    let info = cache_info(&files, &vec![file("t", 7, 3)], &huge, 1024);
    assert_eq!(info.original_bytes, 30);
    assert_eq!(info.thumbnail_bytes, 7);
    assert_eq!(info.processed_bytes, u64::MAX);
    assert_eq!(info.total_bytes, u64::MAX);
    assert_eq!(info.limit_bytes, 1024);
    assert_eq!(info.file_count, 5);
}

#[test]
fn eviction_order_is_oldest_first_and_stable() {
    let ordered = order_oldest_first(vec![
        file("new", 1, 30),
        file("old-a", 1, 10),
        file("mid", 1, 20),
        file("old-b", 1, 10),
    ]);
    let paths: Vec<&str> = ordered.iter().map(|f| f.path.as_str()).collect();
    assert_eq!(paths, vec!["old-a", "old-b", "mid", "new"]);
}

#[test]
fn cleanup_progress_stops_at_the_target_and_reports_freed_bytes() {
    let mut progress = CleanupProgress::new(100, 40);
    assert!(progress.needs_more());
    progress.removed(50, true);
    assert_eq!(progress.current, 50);
    assert!(progress.needs_more());
    progress.removed(0, false);
    assert_eq!(progress.removed_files, 1);
    progress.removed(80, true);
    assert_eq!(progress.current, 0);
    assert!(!progress.needs_more());
    assert_eq!(progress.removed_files, 2);

    let result = cleanup_result(100, 30, 2, 40);
    assert_eq!(result.freed_bytes, 70);
    assert_eq!(cleanup_result(10, 30, 0, 40).freed_bytes, 0);
}

#[test]
fn owned_files_must_lie_inside_the_cache_root() {
    assert!(path_within("/data/cache/thumbs/a.jpg", "/data/cache", PathStyle::Unix));
    assert!(path_within("/data/cache", "/data/cache", PathStyle::Unix));
    assert!(path_within("/data/cache/a.jpg", "/data/cache/", PathStyle::Unix));
    assert!(!path_within("/data/cache-other/a.jpg", "/data/cache", PathStyle::Unix));
    assert!(!path_within("/data", "/data/cache", PathStyle::Unix));
    assert!(path_within(r"C:\Users\me\cache\a.jpg", r"C:\Users\me\cache", PathStyle::Windows));

    assert!(check_owned_file("/data/cache/a.jpg", "/data/cache", true, PathStyle::Unix).is_ok());
    for (path, is_file) in [("/data/cache/dir", false), ("/etc/passwd", true)] {
        match check_owned_file(path, "/data/cache", is_file, PathStyle::Unix) {
            Err(AppError::FileSystem(m)) => assert_eq!(m, "cache file escaped its owned directory"),
            _ => panic!("cleanup must refuse {path}"),
        }
    }
}

#[test]
fn perceptual_matches_require_proportions_within_two_percent() {
    assert!(ratios_match(3840, 2160, 1920, 1080));
    assert!(ratios_match(1920, 1080, 3840, 2160));
    assert!(ratios_match(1000, 1000, 1019, 1000));
    assert!(!ratios_match(1000, 1000, 1030, 1000));
    assert!(!ratios_match(0, 1080, 1920, 1080));
    assert!(!ratios_match(3840, 2160, 2160, 3840));
}

fn card(name: &str, width: u32, height: u32, preset: bool) -> CardDisplay {
    CardDisplay {
        name: name.into(),
        source_page_url: Some(format!("https://example.test/{name}")),
        original_url: None,
        thumbnail_url: None,
        width,
        height,
        aspect_ratio: Some("16:9".into()),
        file_size: None,
        mime_type: None,
        synced_at: format!("sync-{name}"),
        preset,
    }
}

fn display_fields(c: &CardDisplay) -> String {
    format!(
        "{}|{:?}|{:?}|{:?}|{}x{}|{:?}|{:?}|{:?}|{}|{}",
        c.name,
        c.source_page_url,
        c.original_url,
        c.thumbnail_url,
        c.width,
        c.height,
        c.aspect_ratio,
        c.file_size,
        c.mime_type,
        c.synced_at,
        c.preset
    )
}

#[test]
fn merging_the_same_source_twice_changes_nothing_more() {
    let mut existing = card("small", 1920, 1080, false);
    existing.file_size = Some(10);
    let mut incoming = card("large", 3840, 2160, true);
    incoming.mime_type = Some("image/jpeg".into());
    let once = merge_card(existing, incoming.clone());
    let twice = merge_card(once.clone(), incoming);
    assert_eq!(display_fields(&twice), display_fields(&once));
    assert_eq!(once.name, "large");
    assert!(twice.preset);
}

#[test]
fn merging_sources_keeps_the_larger_picture_and_every_user_mark() {
    assert!(improves_card(1920, 1080, 3840, 2160));
    assert!(!improves_card(3840, 2160, 3840, 2160));

    let mut existing = card("small", 1920, 1080, true);
    existing.file_size = Some(10);
    let mut incoming = card("large", 3840, 2160, false);
    incoming.file_size = Some(99);
    incoming.mime_type = Some("image/png".into());
    let merged = merge_card(existing, incoming);
    assert_eq!(merged.name, "large");
    assert_eq!((merged.width, merged.height), (3840, 2160));
    assert_eq!(merged.file_size, Some(10));
    assert_eq!(merged.mime_type.as_deref(), Some("image/png"));
    assert_eq!(merged.synced_at, "sync-large");
    assert!(merged.preset);

    let kept = merge_card(card("large", 3840, 2160, false), card("small", 1280, 720, false));
    assert_eq!(kept.name, "large");
    assert_eq!(kept.synced_at, "sync-small");

    let flags = merge_flags(
        UserFlags { favorite: false, blacklisted: true, preset: false },
        UserFlags { favorite: true, blacklisted: false, preset: false },
    );
    assert_eq!(flags, UserFlags { favorite: true, blacklisted: true, preset: false });
    assert_eq!(retained_identity(5, Some(2)), 2);
    assert_eq!(retained_identity(5, None), 5);
}

#[test]
fn identity_confidence_prefers_the_strongest_evidence() {
    assert_eq!(identity_confidence(true, true, true), "hash");
    assert_eq!(identity_confidence(false, true, true), "url");
    assert_eq!(identity_confidence(false, false, true), "perceptual");
    assert_eq!(identity_confidence(false, false, false), "provider");
    assert_eq!(merged_confidence("url", true, false), "hash");
    assert_eq!(merged_confidence("provider", false, true), "perceptual");
    assert_eq!(merged_confidence("url", false, true), "url");
    assert_eq!(storage_kind_for("local"), "user_source");
    assert_eq!(storage_kind_for("wallhaven"), "managed_download");
    assert_eq!(
        normalized_tags(&vec![" sea ".into(), "  ".into(), "sky".into()]),
        vec!["sea".to_string(), "sky".to_string()]
    );
}

#[test]
fn download_bookkeeping_errors_name_their_cause() {
    assert_eq!(stored_file_size(42).expect("size"), 42);
    match stored_file_size(u64::MAX) {
        Err(AppError::Database(m)) => assert_eq!(m, "downloaded image size exceeds SQLite range"),
        _ => panic!("oversized files must be rejected"),
    }
    assert!(check_single_update(1, 9).is_ok());
    match check_single_update(0, -3) {
        Err(AppError::Wallpaper(m)) => assert_eq!(m, "wallpaper does not exist: -3"),
        _ => panic!("a missing card must be reported"),
    }
}

fn remote(provider: &str, category: &str) -> RemoteWallpaper {
    RemoteWallpaper {
        remote_id: "abc".into(),
        provider: provider.into(),
        name: "Sea".into(),
        source_page_url: None,
        original_url: Some("https://example.test/sea.jpg".into()),
        thumbnail_url: None,
        thumbnail_local_path: None,
        local_path: None,
        width: Some(3840),
        height: None,
        resolution: None,
        ratio: Some("16:9".into()),
        file_size: Some(5),
        mime_type: Some("image/jpeg".into()),
        category: category.into(),
        purity: "sfw".into(),
        tags: vec!["sea".into()],
        created_at: None,
        author: None,
        license_name: None,
        license_url: None,
        perceptual_hash: Some("ph".into()),
    }
}

#[test]
fn synchronization_pages_and_records_follow_the_refresh_rules() {
    assert!(is_progressive_refresh(&None, 1));
    assert!(is_progressive_refresh(&Some("  ".into()), 0));
    assert!(!is_progressive_refresh(&Some("sea".into()), 1));
    assert!(!is_progressive_refresh(&None, 2));
    assert_eq!(progressive_page(None, false), 1);
    assert_eq!(progressive_page(None, true), 2);
    assert_eq!(progressive_page(Some(0), true), 1);
    assert_eq!(progressive_page(Some(99), false), 20);
    assert_eq!(next_progressive_page(7), 8);
    assert_eq!(next_progressive_page(20), 1);
    assert!(sync_due(true, 1_000, 100, 900));
    assert!(!sync_due(true, 1_000, 200, 900));
    assert!(!sync_due(false, 1_000, 0, 1));
    assert!(!sync_due(true, 5, 10, 1));
    assert_eq!(sync_stamp(42), "unix:00000000000000000042");
    assert!(sync_retry_allowed(&AppError::Provider("all failed".into())));
    assert!(!sync_retry_allowed(&AppError::Network("offline".into())));

    let row = remote_to_new(remote("wallhaven", "Anime"), WallpaperCategory::All, "unix:1", None);
    assert_eq!(row.category, "anime");
    assert_eq!(row.download_status, "remote");
    assert_eq!(row.hash, None);
    assert_eq!((row.width, row.height), (3840, 0));
    assert_eq!(row.perceptual_hash.as_deref(), Some("ph"));
    assert!(!row.preset);
    let other = remote_to_new(remote("wallhaven", "landscape"), WallpaperCategory::All, "s", None);
    assert_eq!(other.category, "nature");
    let scoped = remote_to_new(remote("openverse", "anime"), WallpaperCategory::People, "s", None);
    assert_eq!(scoped.category, "people");
    let local = remote_to_new(
        remote("local", "local"),
        WallpaperCategory::Local,
        "s",
        Some("/thumbs/abc.jpg".into()),
    );
    assert_eq!(local.hash.as_deref(), Some("abc"));
    assert_eq!(local.download_status, "downloaded");
    assert_eq!(local.thumbnail_local_path.as_deref(), Some("/thumbs/abc.jpg"));
}

#[test]
fn collection_names_rules_and_pages_are_bounded() {
    assert!(validate_name("  Favorites  ").is_ok());
    assert!(validate_name(&"x".repeat(80)).is_ok());
    for name in ["   ", &"x".repeat(81)] {
        match validate_name(name) {
            Err(AppError::Configuration(m)) => {
                assert_eq!(m, "collection name must contain 1 to 80 characters")
            }
            _ => panic!("name must be rejected"),
        }
    }
    let mut rule = SmartCollectionRule::default();
    rule.version = 1;
    assert!(check_rule_version(&rule).is_ok());
    rule.version = 2;
    match check_rule_version(&rule) {
        Err(AppError::Configuration(m)) => assert_eq!(m, "unsupported smart collection rule version"),
        _ => panic!("version 2 must be rejected"),
    }
    assert_eq!(collection_position(-4), 0);
    assert_eq!(collection_position(6), 6);
    assert!(has_more_pages(1, 24, 25));
    assert!(!has_more_pages(2, 24, 48));
    assert_eq!(following_page(3), 4);
    assert_eq!(following_page(u32::MAX), u32::MAX);
}

fn preset(id: &str) -> NewWallpaper {
    NewWallpaper {
        provider: "wallhaven".into(),
        remote_id: id.into(),
        name: id.into(),
        source_page_url: None,
        original_url: None,
        thumbnail_url: None,
        thumbnail_local_path: None,
        local_path: None,
        width: 3840,
        height: 2160,
        aspect_ratio: Some("16:9".into()),
        file_size: None,
        mime_type: None,
        category: "nature".into(),
        purity: "sfw".into(),
        hash: None,
        perceptual_hash: None,
        download_status: "remote".into(),
        preset: true,
        created_at: None,
        author: None,
        license_name: None,
        license_url: None,
        synced_at: "unix:0".into(),
        tags: Vec::new(),
    }
}

fn manifest(wallpapers: Vec<NewWallpaper>) -> PresetManifest {
    PresetManifest { version: 1, source: "Wallhaven API v1".into(), wallpapers }
}

fn configuration_message<T>(result: Result<T, AppError>) -> String {
    match result {
        Err(AppError::Configuration(m)) => m,
        _ => panic!("expected a configuration error"),
    }
}

#[test]
fn preset_manifest_requires_thirty_unique_sfw_4k_wallhaven_records() {
    let valid: Vec<NewWallpaper> = (0..30).map(|i| preset(&format!("p{i}"))).collect();
    assert!(validate_manifest(&manifest(valid.clone())).is_ok());

    assert_eq!(
        configuration_message(validate_manifest(&manifest(valid[..29].to_vec()))),
        "preset manifest must contain exactly 30 wallpapers"
    );
    let mut wrong_source = manifest(valid.clone());
    wrong_source.source = "other".into();
    assert_eq!(
        configuration_message(validate_manifest(&wrong_source)),
        "unsupported preset manifest version or source"
    );
    let mut duplicate = valid.clone();
    duplicate[12].remote_id = "p3".into();
    assert_eq!(
        configuration_message(validate_manifest(&manifest(duplicate))),
        "invalid or duplicate preset wallpaper: p3"
    );
    let mut small = valid.clone();
    small[5].height = 1080;
    small[7].purity = "sketchy".into();
    assert_eq!(
        configuration_message(validate_manifest(&manifest(small))),
        "invalid or duplicate preset wallpaper: p5"
    );

    assert_eq!(preset_thumbnail_name("abc", "png"), "preset-abc.png");
    assert!(validate_preset_signature(&[0xFF, 0xD8, 0xFF, 0x00], "a.jpg").is_ok());
    assert!(validate_preset_signature(&[0x89, b'P', b'N', b'G', 0x0D, 0x0A, 0x1A, 0x0A], "a.png").is_ok());
    match validate_preset_signature(b"<html>", "x.jpg") {
        Err(AppError::Image(m)) => assert_eq!(m, "invalid preset thumbnail: x.jpg"),
        _ => panic!("an HTML page is not a thumbnail"),
    }
}

#[test]
fn content_hashes_are_lowercase_sha256_hex() {
    assert_eq!(hex_lower(&[0x00, 0xAB, 0x0F]), "00ab0f");
    assert_eq!(
        sha256_hex(b"abc"),
        "ba7816bf8f01cfea414140de5dae2223b00361a396177a9cb410ff61f20015ad"
    );
    assert_eq!(
        sha256_hex(b""),
        "e3b0c44298fc1c149afbf4c8996fb92427ae41e4649b934ca495991b7852b855"
    );
}

#[test]
fn tracked_directories_grow_without_duplicates_and_stay_sorted() {
    let existing = vec!["/pictures/b".to_string(), "/pictures/a".to_string()];
    assert_eq!(track_directories(&existing, &vec!["/pictures/a".into()]), None);
    assert_eq!(
        track_directories(
            &existing,
            &vec!["/pictures/c".into(), "/pictures/0".into(), "/pictures/c".into()]
        ),
        Some(vec![
            "/pictures/0".to_string(),
            "/pictures/a".to_string(),
            "/pictures/b".to_string(),
            "/pictures/c".to_string(),
        ])
    );
}

#[test]
fn reconciled_files_are_available_missing_or_temporarily_unavailable() {
    let roots = vec!["/photos".to_string(), "/media/usb".to_string()];
    assert_eq!(owning_root("/media/usb/a.jpg", &roots, PathStyle::Unix), Some(1));
    assert_eq!(owning_root("/photos/x/y.png", &roots, PathStyle::Unix), Some(0));
    assert_eq!(owning_root("/photosets/y.png", &roots, PathStyle::Unix), None);
    assert_eq!(file_availability(true, None), Some("available"));
    assert_eq!(file_availability(false, Some(true)), Some("missing"));
    assert_eq!(file_availability(false, Some(false)), Some("temporarily_unavailable"));
    assert_eq!(file_availability(false, None), None);
}

#[test]
fn original_urls_are_canonicalized_for_identity() {
    assert_eq!(
        normalize_original_url("https://Example.com/full/a.jpg?b=2&a=1&a=0#frag").as_deref(),
        Some("https://example.com/full/a.jpg?a=0&a=1&b=2")
    );
    assert_eq!(
        normalize_original_url("http://example.com/p?#x").as_deref(),
        Some("http://example.com/p")
    );
    assert_eq!(normalize_original_url("ftp://example.com/a.jpg"), None);
    assert_eq!(normalize_original_url("not a url"), None);

    let pairs = vec![
        ("sort".to_string(), "desc".to_string()),
        ("page".to_string(), "2".to_string()),
        ("page".to_string(), "10".to_string()),
    ];
    assert_eq!(
        canonical_query(Some("https"), pairs.clone()),
        Some(vec![
            ("page".to_string(), "10".to_string()),
            ("page".to_string(), "2".to_string()),
            ("sort".to_string(), "desc".to_string()),
        ])
    );
    assert_eq!(canonical_query(Some("file"), pairs.clone()), None);
    assert_eq!(canonical_query(None, pairs), None);
}

#[test]
fn refresh_never_brings_back_an_excluded_record() {
    let mut local = preset("a1");
    local.local_path = Some("/pics/a.jpg".into());
    local.hash = Some("abc".into());
    let disliked = Exclusion {
        provider: Some("wallhaven".into()),
        remote_id: Some("a1".into()),
        normalized_path: None,
        content_hash: None,
    };
    let removed_file = Exclusion {
        provider: None,
        remote_id: None,
        normalized_path: Some("/pics/a.jpg".into()),
        content_hash: None,
    };
    let same_content = Exclusion {
        provider: Some("openverse".into()),
        remote_id: Some("zz".into()),
        normalized_path: None,
        content_hash: Some("abc".into()),
    };
    let unrelated = Exclusion {
        provider: Some("wallhaven".into()),
        remote_id: Some("b2".into()),
        normalized_path: Some("/pics/b.jpg".into()),
        content_hash: None,
    };
    assert!(excludes(&disliked, &local));
    assert!(excludes(&removed_file, &local));
    assert!(excludes(&same_content, &local));
    assert!(!excludes(&unrelated, &local));
    assert!(!excludes(&removed_file, &preset("a1")));
    assert!(!refresh_skips(&vec![unrelated.clone()], &local));
    assert!(refresh_skips(&vec![unrelated, disliked], &local));
    assert!(!refresh_skips(&Vec::new(), &local));
}

#[test]
fn identity_lookup_prefers_source_then_url_then_hash_then_perceptual_match() {
    assert_eq!(first_known_identity(Some(1), Some(2), Some(3)), Some(1));
    assert_eq!(first_known_identity(None, Some(2), Some(3)), Some(2));
    assert_eq!(first_known_identity(None, None, Some(3)), Some(3));
    assert_eq!(first_known_identity(None, None, None), None);
    let candidates = vec![(4, 1080, 1920), (7, 1920, 1080), (9, 3840, 2160)];
    assert_eq!(perceptual_match(&candidates, 3840, 2160, None), Some(7));
    assert_eq!(perceptual_match(&candidates, 3840, 2160, Some(7)), Some(9));
    assert_eq!(perceptual_match(&candidates, 1000, 1000, None), None);
}

#[test]
fn content_identity_keeps_first_url_newest_hash_and_largest_size() {
    let created = new_identity(Some("https://a.test/x".into()), None, Some("p1".into()), 1920, 1080);
    assert_eq!(created.confidence, "url");
    let merged = merge_identity(
        created,
        Some("https://b.test/y".into()),
        Some("h1".into()),
        None,
        3840,
        2160,
    );
    assert_eq!(merged.canonical_original_url.as_deref(), Some("https://a.test/x"));
    assert_eq!(merged.sha256.as_deref(), Some("h1"));
    assert_eq!(merged.perceptual_hash.as_deref(), Some("p1"));
    assert_eq!((merged.width, merged.height), (3840, 2160));
    assert_eq!(merged.confidence, "hash");
    let provider_only = ContentIdentity {
        canonical_original_url: None,
        sha256: None,
        perceptual_hash: None,
        width: 100,
        height: 50,
        confidence: "provider".into(),
    };
    let once = merge_identity(provider_only, None, None, Some("p2".into()), 80, 60);
    assert_eq!(once.confidence, "perceptual");
    assert_eq!((once.width, once.height), (100, 60));
    let twice = merge_identity(once.clone(), None, None, Some("p2".into()), 80, 60);
    assert_eq!(format!("{twice:?}"), format!("{once:?}"));
}

#[test]
fn a_disliked_card_leaves_a_tombstone_that_matches_it() {
    let record = preset("abc123");
    let exclusion = tombstone(record.provider.clone(), record.remote_id.clone(), None, None);
    assert!(refresh_skips(&vec![exclusion], &record));
    let tags = vec![" Mountain ".to_string(), "lake".into(), "  ".into()];
    let once = normalized_tags(&tags);
    assert_eq!(once, vec!["Mountain".to_string(), "lake".into()]);
    assert_eq!(normalized_tags(&once), once);
}

#[test]
fn collections_resolve_to_each_member_once_in_increasing_order() {
    let lists = vec![vec![9, 3, 3], vec![], vec![5, 9, 1]];
    assert_eq!(member_union(&lists), vec![1, 3, 5, 9]);
    assert!(member_union(&Vec::new()).is_empty());
}
