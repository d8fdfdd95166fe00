use wallpaper_desktop::platform::PathStyle;
use wallpaper_desktop::error::AppError;
use wallpaper_desktop::models::{MonitorInfo, WallpaperRecord};
use wallpaper_desktop::provider::aggregated::{
    thumbnail_extension, thumbnail_failure_quarantines, thumbnail_retry_allowed,
};
use wallpaper_desktop::provider::art_institute::{
    artwork_parameters, check_download, detail_from_artwork, Artwork, ArtworkThumbnail,
};
use wallpaper_desktop::provider::download::{accept_original_bytes, partial_file_name};
use wallpaper_desktop::provider::local::{
    find_local, local_download_allowed, local_download_path, LocalProvider,
};
use wallpaper_desktop::provider::thegamesdb::{
    download_request, games_parameters, images_parameters, search_term, select_games, Game,
};
use wallpaper_desktop::provider::wallhaven::download_url;
use wallpaper_desktop::provider::wikimedia::{check_page_id, commons_parameters};
use wallpaper_desktop::provider::{RemoteWallpaper, WallpaperCategory, WallpaperQuery};
use wallpaper_desktop::span::service::span_source;
use wallpaper_desktop::wallpaper::{
    cache_deletion_target, check_not_blacklisted, downloaded_path, find_active_monitor,
    legacy_selection, monitor_is_active, record_to_remote,
};

fn remote(provider: &str, id: &str, url: Option<&str>) -> RemoteWallpaper {
    RemoteWallpaper {
        remote_id: id.into(),
        provider: provider.into(),
        name: "Sample".into(),
        source_page_url: None,
        original_url: url.map(str::to_string),
        thumbnail_url: None,
        thumbnail_local_path: None,
        local_path: None,
        width: Some(3840),
        height: Some(2160),
        resolution: Some("3840x2160".into()),
        ratio: Some("16:9".into()),
        file_size: None,
        mime_type: Some("image/jpeg".into()),
        category: "nature".into(),
        purity: "sfw".into(),
        tags: Vec::new(),
        created_at: None,
        author: None,
        license_name: None,
        license_url: None,
        perceptual_hash: None,
    }
}

fn provider_message<T>(result: Result<T, AppError>) -> String {
    match result {
        Err(AppError::Provider(m)) => m,
        _ => panic!("expected a provider error"),
    }
}

fn wallpaper_message<T>(result: Result<T, AppError>) -> String {
    match result {
        Err(AppError::Wallpaper(m)) => m,
        _ => panic!("expected a wallpaper error"),
    }
}

#[test]
fn downloads_are_refused_for_foreign_or_incomplete_records() {
    let ok = remote("wallhaven", "abc123", Some("https://w.wallhaven.cc/full/a.jpg"));
    assert_eq!(download_url(&ok).expect("url"), "https://w.wallhaven.cc/full/a.jpg");
    assert_eq!(
        provider_message(download_url(&remote("openverse", "abc123", Some("https://x")))),
        "wallpaper does not belong to WallhavenProvider"
    );
    assert_eq!(
        provider_message(download_url(&remote("wallhaven", "abc123", None))),
        "Wallhaven metadata did not include an original URL"
    );
    assert_eq!(
        provider_message(download_url(&remote("wallhaven", "abc123", Some("http://x/a.jpg")))),
        "Wallhaven downloads require an HTTPS URL"
    );

    assert!(check_download(&remote("art_institute_chicago", "123", None)).is_ok());
    assert_eq!(
        provider_message(check_download(&remote("art_institute_chicago", "12a", None))),
        "wallpaper does not belong to ArtInstituteChicagoProvider"
    );

    let (url, file_id) =
        download_request(&remote("thegamesdb", "12:34", Some("https://cdn/x.jpg"))).expect("request");
    assert_eq!((url.as_str(), file_id.as_str()), ("https://cdn/x.jpg", "12-34"));
    assert_eq!(
        provider_message(download_request(&remote("wallhaven", "12:34", Some("https://cdn/x.jpg")))),
        "wallpaper does not belong to TheGamesDbProvider"
    );
    assert_eq!(
        provider_message(download_request(&remote("thegamesdb", "12-34", Some("https://cdn/x.jpg")))),
        "invalid TheGamesDB image id"
    );
    assert_eq!(
        provider_message(download_request(&remote("thegamesdb", "x:34", Some("https://cdn/x.jpg")))),
        "invalid TheGamesDB game id"
    );
    assert_eq!(
        provider_message(download_request(&remote("thegamesdb", "12:34", None))),
        "TheGamesDB image has no original URL"
    );

    assert_eq!(partial_file_name("/cache/wallhaven-abc.jpg"), "/cache/wallhaven-abc.jpg.part");
    assert_eq!(accept_original_bytes(10, 20).expect("small body"), 30);
    assert_eq!(
        provider_message(accept_original_bytes(120 * 1024 * 1024, 1)),
        "provider original exceeds the 120 MiB safety limit"
    );
}

#[test]
fn thumbnail_errors_decide_retry_and_quarantine() {
    assert!(thumbnail_retry_allowed(&AppError::Network("reset".into())));
    assert!(!thumbnail_retry_allowed(&AppError::Provider("HTTP 403".into())));
    assert!(thumbnail_failure_quarantines(&AppError::Provider("HTTP 403".into())));
    assert!(thumbnail_failure_quarantines(&AppError::Image("bad".into())));
    assert!(!thumbnail_failure_quarantines(&AppError::Network("reset".into())));
    assert_eq!(thumbnail_extension(&[0xFF, 0xD8, 0xFF, 0xE0]).expect("jpeg"), "jpg");
    assert_eq!(
        thumbnail_extension(&[0x89, b'P', b'N', b'G', 0x0D, 0x0A, 0x1A, 0x0A]).expect("png"),
        "png"
    );
    assert!(matches!(thumbnail_extension(b"<html>"), Err(AppError::Image(_))));
}

#[test]
fn game_searches_use_the_expanded_title_and_keep_the_first_games() {
    let mut query = WallpaperQuery { keyword: Some("  原神 ".into()), ..WallpaperQuery::default() };
    assert_eq!(search_term(&query).expect("term").as_deref(), Some("Genshin Impact"));
    query.keyword = Some("   ".into());
    assert_eq!(search_term(&query).expect("blank"), None);
    query.keyword = Some("zelda".into());
    query.safety = "NSFW".into();
    assert_eq!(
        provider_message(search_term(&query)),
        "TheGamesDB requests are restricted to SFW results"
    );

    let pairs = games_parameters("key", "Zelda", 0);
    assert_eq!(pairs[4], ("page".to_string(), "1".to_string()));
    assert_eq!(pairs[1], ("name".to_string(), "Zelda".to_string()));
    let images = images_parameters("key", "1,2");
    assert_eq!(images[2], ("filter[type]".to_string(), "fanart,screenshot".to_string()));

    let games: Vec<Game> = (1..=30).map(|id| Game { id, game_title: format!("Game {id}") }).collect();
    let (titles, ids) = select_games(&games, 2);
    assert_eq!(titles, vec![("1".to_string(), "Game 1".to_string()), ("2".to_string(), "Game 2".to_string())]);
    assert_eq!(ids, "1,2");
    assert_eq!(select_games(&games, 100).0.len(), 24);
}

#[test]
fn museum_queries_skip_games_and_fall_back_by_category() {
    let games = WallpaperQuery { category: WallpaperCategory::Games, ..WallpaperQuery::default() };
    assert!(artwork_parameters(&games).expect("games").is_none());
    let nature = WallpaperQuery {
        category: WallpaperCategory::Nature,
        page: 0,
        page_size: 99,
        ..WallpaperQuery::default()
    };
    let pairs = artwork_parameters(&nature).expect("nature").expect("searched");
    assert_eq!(pairs[0], ("q".to_string(), "landscape nature".to_string()));
    assert_eq!(pairs[1], ("page".to_string(), "1".to_string()));
    assert_eq!(pairs[2], ("limit".to_string(), "30".to_string()));
    let local = WallpaperQuery { category: WallpaperCategory::Local, ..WallpaperQuery::default() };
    assert_eq!(
        provider_message(artwork_parameters(&local)),
        "the local category must use LocalProvider"
    );

    let artwork = Artwork {
        id: 7,
        title: "Lake".into(),
        image_id: Some("img".into()),
        thumbnail: Some(ArtworkThumbnail { width: 4000, height: 3000 }),
        artist_display: None,
        date_display: None,
        is_public_domain: false,
        classification_title: None,
        subject_titles: Vec::new(),
    };
    assert_eq!(
        provider_message(detail_from_artwork(artwork)),
        "artwork is not available as public domain"
    );
}

#[test]
fn commons_requests_page_by_offset_and_check_page_ids() {
    let query = WallpaperQuery { page: 3, page_size: 80, ..WallpaperQuery::default() };
    let pairs = commons_parameters(&query, &vec!["alps".to_string(), "snow".to_string()]);
    let value = |name: &str| pairs.iter().find(|(k, _)| k == name).map(|(_, v)| v.clone());
    assert_eq!(value("gsrlimit").as_deref(), Some("50"));
    assert_eq!(value("gsroffset").as_deref(), Some("100"));
    assert_eq!(value("gsrsearch").as_deref(), Some("(alps OR snow) filetype:bitmap"));
    assert!(check_page_id("12345").is_ok());
    assert_eq!(provider_message(check_page_id("12a")), "invalid Wikimedia Commons page id");
}

#[test]
fn local_records_are_found_by_content_id_and_served_only_from_approved_roots() {
    let mut a = remote("local", "hash-a", None);
    a.local_path = Some("/photos/a.jpg".into());
    let mut b = remote("local", "hash-b", None);
    b.local_path = Some("/photos/b.png".into());
    assert_eq!(find_local(vec![a.clone(), b.clone()], "hash-b").expect("found").local_path, b.local_path);
    assert_eq!(provider_message(find_local(vec![a.clone()], "hash-x")), "local wallpaper no longer exists");

    assert_eq!(local_download_path(&a).expect("path"), "/photos/a.jpg");
    assert_eq!(
        provider_message(local_download_path(&remote("wallhaven", "x", None))),
        "wallpaper does not belong to LocalProvider"
    );
    assert_eq!(
        provider_message(local_download_path(&remote("local", "x", None))),
        "local wallpaper metadata has no file path"
    );
    assert!(local_download_allowed(true, true, "/photos/a.JPG", PathStyle::Unix).is_ok());
    assert_eq!(
        provider_message(local_download_allowed(true, true, "/photos/notes.txt", PathStyle::Unix)),
        "local wallpaper is outside the selected directories or unsupported"
    );
    assert!(local_download_allowed(false, true, "/photos/a.jpg", PathStyle::Unix).is_err());

    assert!(LocalProvider::inspect_file("/photos/x.jpg", b"not an image", PathStyle::Unix).is_err());
}

fn record(provider: &str, favorite: bool, local_path: Option<&str>) -> WallpaperRecord {
    WallpaperRecord {
        id: 4,
        provider: provider.into(),
        remote_id: "r".into(),
        name: "Record".into(),
        source_page_url: None,
        original_url: Some("https://example.test/r.jpg".into()),
        thumbnail_url: None,
        thumbnail_local_path: None,
        local_path: local_path.map(str::to_string),
        width: 1920,
        height: 1080,
        aspect_ratio: Some("16:9".into()),
        file_size: Some(9),
        mime_type: Some("image/jpeg".into()),
        category: "nature".into(),
        purity: "sfw".into(),
        hash: None,
        download_status: "remote".into(),
        favorite,
        blacklisted: false,
        preset: false,
        created_at: None,
        synced_at: "unix:1".into(),
        downloaded_at: None,
        last_used_at: None,
        file_availability: "remote".into(),
        storage_kind: "remote_metadata".into(),
        file_copy_count: 0,
        tags: vec!["sea".into()],
    }
}

fn monitor(id: &str) -> MonitorInfo {
    MonitorInfo {
        system_monitor_id: id.into(),
        name: id.into(),
        width: 1920,
        height: 1080,
        position_x: 0,
        position_y: 0,
        primary: false,
    }
}

#[test]
fn catalog_cards_guard_application_deletion_and_monitor_choice() {
    let mut disliked = record("wallhaven", false, None);
    disliked.blacklisted = true;
    assert_eq!(
        wallpaper_message(check_not_blacklisted(&disliked)),
        "blacklisted wallpaper cannot be downloaded or applied"
    );
    assert!(check_not_blacklisted(&record("wallhaven", false, None)).is_ok());

    let card = record("wallhaven", false, Some("/orig/a.jpg"));
    let converted = record_to_remote(&card);
    assert_eq!(converted.resolution.as_deref(), Some("1920x1080"));
    assert_eq!((converted.width, converted.height), (Some(1920), Some(1080)));
    assert_eq!(converted.tags, vec!["sea".to_string()]);
    assert_eq!(downloaded_path(&card).expect("path"), "/orig/a.jpg");
    assert_eq!(
        wallpaper_message(downloaded_path(&record("wallhaven", false, None))),
        "downloaded wallpaper has no local path"
    );
    assert_eq!(span_source(&card).expect("source"), "/orig/a.jpg");

    assert_eq!(
        wallpaper_message(cache_deletion_target(&record("wallhaven", true, Some("/orig/a.jpg")))),
        "favorite originals are protected from cache deletion"
    );
    assert_eq!(
        wallpaper_message(cache_deletion_target(&record("local", false, Some("/photos/a.jpg")))),
        "LocalProvider originals are user-owned and cannot be deleted"
    );
    assert_eq!(cache_deletion_target(&card).expect("target").map(String::as_str), Some("/orig/a.jpg"));
    assert_eq!(cache_deletion_target(&record("wallhaven", false, None)).expect("nothing"), None);

    let monitors = vec![monitor("A"), monitor("B")];
    assert!(monitor_is_active(&monitors, "B"));
    assert!(!monitor_is_active(&monitors, "C"));
    assert_eq!(find_active_monitor(monitors.clone(), "B").expect("active").system_monitor_id, "B");
    match find_active_monitor(monitors, "C") {
        Err(AppError::Monitor(m)) => assert_eq!(m, "selected monitor is not active"),
        _ => panic!("an unknown monitor must be refused"),
    }

    assert_eq!(legacy_selection("shuffle"), "random");
    assert_eq!(legacy_selection("weighted_random"), "random");
    assert_eq!(legacy_selection("least_recent"), "round_robin");
}
