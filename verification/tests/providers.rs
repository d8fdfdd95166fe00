use wallpaper_desktop::platform::PathStyle;
use wallpaper_desktop::provider::aggregated::{
    aggregate_outcome, fair_interleave, retain_with_thumbnail, select_providers,
    thumbnail_cache_file_name, thumbnail_url_verdict, accept_thumbnail_bytes,
};
use wallpaper_desktop::provider::art_institute::{map_artwork, Artwork, ArtworkThumbnail};
use wallpaper_desktop::provider::download::{check_download_request, extension_for, original_file_name};
use wallpaper_desktop::provider::local::{is_supported_image, local_page, read_local_metadata};
use wallpaper_desktop::provider::openverse::{map_image, openverse_parameters, valid_id, OpenverseImage};
use wallpaper_desktop::provider::thegamesdb::{
    map_images, parse_remote_id, parse_resolution, ApiKeyStore, GameImage, GameImagesData,
    ImageBaseUrls,
};
use wallpaper_desktop::provider::wallhaven::{
    file_extension, has_supported_image_signature, map_detail, map_listing, valid_remote_id,
    wallhaven_parameters, WallhavenDetail, WallhavenListing,
};
use wallpaper_desktop::provider::wikimedia::{
    category_tags, map_page, strip_html, CommonsImageInfo, CommonsPage,
};
use wallpaper_desktop::provider::{
    metadata_matches_keyword, provider_keywords, ProviderName, RemoteWallpaper,
    WallpaperCategory, WallpaperQuery,
};
use wallpaper_desktop::image_processing::{reduced_aspect_ratio, ImageMetadata};
use wallpaper_desktop::error::AppError;

fn wallpaper(provider: &str, id: &str, name: &str, tags: &[&str]) -> RemoteWallpaper {
    RemoteWallpaper {
        remote_id: id.into(),
        provider: provider.into(),
        name: name.into(),
        source_page_url: None,
        original_url: None,
        thumbnail_url: None,
        thumbnail_local_path: None,
        local_path: None,
        width: Some(3840),
        height: Some(2160),
        resolution: Some("3840x2160".into()),
        ratio: Some("16:9".into()),
        file_size: None,
        mime_type: Some("image/jpeg".into()),
        category: "nature".into(),
        purity: "sfw".into(),
        tags: tags.iter().map(|tag| (*tag).into()).collect(),
        created_at: None,
        author: None,
        license_name: None,
        license_url: None,
        perceptual_hash: None,
    }
}

#[test]
fn fairly_interleaves_uneven_provider_pages() {
    let merged = fair_interleave(vec![
        vec![wallpaper("a", "a1", "a1", &[]), wallpaper("a", "a2", "a2", &[]), wallpaper("a", "a3", "a3", &[])],
        vec![wallpaper("b", "b1", "b1", &[])],
    ]);
    let ids: Vec<_> = merged.iter().map(|wallpaper| wallpaper.remote_id.as_str()).collect();
    assert_eq!(ids, ["a1", "b1", "a2", "a3"]);
}

#[test]
fn interleaving_keeps_every_item_of_three_sources() {
    let merged = fair_interleave(vec![vec![1, 2], vec![], vec![10, 20, 30]]);
    assert_eq!(merged, vec![1, 10, 2, 20, 30]);
    assert!(fair_interleave::<u8>(Vec::new()).is_empty());
}

#[test]
fn excludes_undersized_artwork_and_maps_public_domain_metadata() {
    let artwork = Artwork {
        id: 42,
        title: "Lake".into(),
        image_id: Some("abc".into()),
        thumbnail: Some(ArtworkThumbnail { width: 3000, height: 2000 }),
        artist_display: Some("Artist".into()),
        date_display: Some("1900".into()),
        is_public_domain: true,
        classification_title: Some("painting".into()),
        subject_titles: vec!["landscape".into()],
    };
    assert!(map_artwork(artwork, 3840, 2160).is_none());
}

#[test]
fn maps_public_domain_artwork_urls() {
    let artwork = Artwork {
        id: 42,
        title: "Lake".into(),
        image_id: Some("abc".into()),
        thumbnail: Some(ArtworkThumbnail { width: 4000, height: 2250 }),
        artist_display: Some("Artist".into()),
        date_display: Some("1900".into()),
        is_public_domain: true,
        classification_title: Some("painting".into()),
        subject_titles: vec!["landscape".into()],
    };
    let mapped = map_artwork(artwork, 3840, 2160).expect("large artwork maps");
    assert_eq!(mapped.remote_id, "42");
    assert_eq!(mapped.original_url.as_deref(), Some("https://www.artic.edu/iiif/2/abc/full/full/0/default.jpg"));
    assert_eq!(mapped.thumbnail_url.as_deref(), Some("https://www.artic.edu/iiif/2/abc/full/843,/0/default.jpg"));
    assert_eq!(mapped.source_page_url.as_deref(), Some("https://www.artic.edu/artworks/42"));
    assert_eq!(mapped.tags, vec!["landscape".to_string(), "painting".to_string()]);
    assert_eq!(mapped.license_name.as_deref(), Some("Public Domain"));
    assert_eq!(mapped.ratio.as_deref(), Some("16:9"));
}

#[test]
fn recognizes_supported_extensions_case_insensitively() {
    assert!(is_supported_image("photo.JPEG", PathStyle::Unix));
    assert!(!is_supported_image("notes.txt", PathStyle::Unix));
}

#[test]
fn expands_chinese_titles_and_rejects_unrelated_metadata() {
    let keywords = provider_keywords("七龙珠");
    assert_eq!(keywords, ["七龙珠", "Dragon Ball"]);
    assert!(metadata_matches_keyword(&wallpaper("wikimedia_commons", "fixture", "Dragon Ball Z mural", &["anime"]), &keywords));
    assert!(!metadata_matches_keyword(&wallpaper("wikimedia_commons", "fixture", "Stillgelegte Zabergäubahn", &["railway"]), &keywords));
    assert_eq!(provider_keywords("黑神话悟空"), ["黑神话悟空", "Black Myth Wukong"]);
}

#[test]
fn blank_keywords_expand_to_nothing() {
    assert!(provider_keywords("   ").is_empty());
    assert_eq!(provider_keywords("  mountains "), ["mountains"]);
    assert!(metadata_matches_keyword(&wallpaper("x", "y", "anything", &[]), &Vec::new()));
    assert!(metadata_matches_keyword(&wallpaper("x", "y", "Calm", &["Sea Shore"]), &vec!["sea shore".to_string()]));
}

fn openverse_image(url: &str, filetype: Option<&str>) -> OpenverseImage {
    OpenverseImage {
        id: "123e4567-e89b-12d3-a456-426614174000".into(),
        title: Some("Mountain lake".into()),
        creator: Some("Jane".into()),
        license: Some("cc0".into()),
        license_url: Some("https://creativecommons.org/publicdomain/zero/1.0/".into()),
        foreign_landing_url: Some("https://example.test/photo".into()),
        url: url.into(),
        thumbnail: Some("https://example.test/thumb.jpg".into()),
        width: Some(5000),
        height: Some(3000),
        filesize: Some(10),
        filetype: filetype.map(str::to_string),
        tags: vec!["mountain".into()],
    }
}

#[test]
fn maps_only_large_supported_openverse_images() {
    let mapped = map_image(openverse_image("https://example.test/photo.jpg", Some("jpg")), 3840, 2160)
        .expect("large JPEG should map");
    assert_eq!(mapped.provider, "openverse");
    assert_eq!(mapped.license_name.as_deref(), Some("CC0"));
}

#[test]
fn openverse_infers_types_and_refuses_insecure_urls() {
    let inferred = map_image(openverse_image("https://example.test/a.b/photo.PNG?size=x", None), 0, 0)
        .expect("png inferred from path");
    assert_eq!(inferred.mime_type.as_deref(), Some("image/png"));
    assert_eq!(inferred.resolution.as_deref(), Some("5000x3000"));
    assert_eq!(inferred.ratio.as_deref(), Some("5:3"));
    assert!(map_image(openverse_image("http://example.test/photo.jpg", Some("jpg")), 0, 0).is_none());
    assert!(map_image(openverse_image("https://example.test/photo.gif", None), 0, 0).is_none());
    assert!(map_image(openverse_image("https://example.test/photo.jpg", Some("jpg")), 6000, 0).is_none());
    assert!(valid_id("123e4567-e89b"));
    assert!(!valid_id("../x"));
    assert!(!valid_id(""));
}

#[test]
fn maps_only_large_landscape_game_art() {
    let data = GameImagesData {
        base_url: ImageBaseUrls {
            original: "https://cdn.example.test/original/".into(),
            large: "https://cdn.example.test/large/".into(),
        },
        images: vec![(
            "42".into(),
            vec![
                GameImage { id: 7, image_type: "fanart".into(), filename: "fanart/42-1.jpg".into(), resolution: Some("3840x2160".into()) },
                GameImage { id: 8, image_type: "boxart".into(), filename: "../secret.jpg".into(), resolution: Some("4000x6000".into()) },
            ],
        )],
    };
    let titles = vec![("42".to_string(), "Example Game".to_string())];
    let mapped = map_images(&data, &titles, &WallpaperQuery::default());
    assert_eq!(mapped.len(), 1);
    assert_eq!(mapped[0].provider, "thegamesdb");
    assert_eq!(mapped[0].category, "games");
    assert_eq!(mapped[0].remote_id, "42:7");
    assert_eq!(mapped[0].name, "Example Game · fanart");
    assert_eq!(mapped[0].original_url.as_deref(), Some("https://cdn.example.test/original/fanart/42-1.jpg"));
}

#[test]
fn validates_dimensions_ids_and_runtime_key() {
    assert_eq!(parse_resolution("3840x2160"), Some((3840, 2160)));
    assert!(parse_remote_id("42:7").is_ok());
    assert!(parse_remote_id("42/7").is_err());
    let mut store = ApiKeyStore::new();
    assert!(store.api_key().is_err());
    store.set_api_key(Some(" user-key ")).expect("key accepted");
    assert_eq!(store.api_key().expect("configured"), "user-key");
}

#[test]
fn game_identifiers_and_keys_have_exact_rules() {
    assert_eq!(parse_resolution(" 1920 X 1080 "), Some((1920, 1080)));
    assert_eq!(parse_resolution("0x1080"), None);
    assert_eq!(parse_resolution("wide"), None);
    assert_eq!(parse_remote_id("42:7").expect("ids"), (42, 7));
    match parse_remote_id("x:7") {
        Err(AppError::Provider(m)) => assert_eq!(m, "invalid TheGamesDB game id"),
        other => panic!("unexpected {other:?}"),
    }
    let mut store = ApiKeyStore::new();
    store.set_api_key(Some("k")).expect("short key");
    assert!(store.set_api_key(Some(&"k".repeat(257))).is_err());
    assert_eq!(store.api_key().expect("previous key kept"), "k");
    store.set_api_key(Some("   ")).expect("blank disables");
    assert!(store.api_key().is_err());
}

#[test]
fn validates_download_boundaries() {
    assert!(valid_remote_id("abc123"));
    assert!(!valid_remote_id("../abc"));
    assert_eq!(file_extension(Some("image/png"), "https://x/y"), "png");
    assert!(has_supported_image_signature(&[0xFF, 0xD8, 0xFF, 0xE0]));
    assert!(!has_supported_image_signature(b"<html>error"));
}

#[test]
fn recognizes_webp_and_png_signatures() {
    assert!(has_supported_image_signature(b"RIFF\x00\x00\x00\x00WEBPVP8 "));
    assert!(!has_supported_image_signature(b"RIFF\x00\x00\x00\x00WAVE"));
    assert!(has_supported_image_signature(&[0x89, b'P', b'N', b'G', 0x0D, 0x0A, 0x1A, 0x0A, 0]));
}

#[test]
fn normalizes_commons_metadata_helpers() {
    assert_eq!(strip_html("<span>Jane Doe</span>"), "Jane Doe");
    assert_eq!(reduced_aspect_ratio(3840, 2160), "16:9");
    assert_eq!(wallpaper_desktop::provider::wikimedia::extension_for(Some("image/png"), "https://x/image"), "png");
}

#[test]
fn commons_categories_become_trimmed_tags() {
    assert_eq!(category_tags(" Mountains | |Lakes "), vec!["Mountains".to_string(), "Lakes".to_string()]);
    let many = (0..30).map(|i| format!("c{i}")).collect::<Vec<_>>().join("|");
    assert_eq!(category_tags(&many).len(), 20);
}

#[test]
fn maps_commons_pages_with_attribution() {
    let page = CommonsPage {
        pageid: 77,
        title: "File:Peak.jpg".into(),
        imageinfo: vec![CommonsImageInfo {
            url: "https://upload.example/peak.jpg".into(),
            descriptionurl: "https://commons.example/File:Peak.jpg".into(),
            thumburl: Some("https://upload.example/thumb.jpg".into()),
            width: 4000,
            height: 3000,
            size: 1234,
            mime: "image/jpeg".into(),
            timestamp: Some("2020-01-01T00:00:00Z".into()),
            user: Some("Uploader".into()),
            extmetadata: vec![
                ("LicenseShortName".into(), "<b>CC BY-SA 4.0</b>".into()),
                ("Categories".into(), "Alps|Snow".into()),
            ],
        }],
    };
    let w = map_page(page, 3840, 2160).expect("large page maps");
    assert_eq!(w.remote_id, "77");
    assert_eq!(w.name, "Peak.jpg");
    assert_eq!(w.author.as_deref(), Some("Uploader"));
    assert_eq!(w.license_name.as_deref(), Some("CC BY-SA 4.0"));
    assert_eq!(w.tags, vec!["Alps".to_string(), "Snow".to_string()]);
    assert_eq!(w.ratio.as_deref(), Some("4:3"));
}

fn listing() -> WallhavenListing {
    WallhavenListing {
        id: "abc123".into(),
        url: "https://wallhaven.cc/w/abc123".into(),
        purity: "sfw".into(),
        category: "general".into(),
        dimension_x: 3840,
        dimension_y: 2160,
        resolution: "3840x2160".into(),
        ratio: "1.78".into(),
        file_size: 100,
        file_type: "image/jpeg".into(),
        created_at: "2024-01-01".into(),
        path: "https://w.wallhaven.cc/full/ab/wallhaven-abc123.jpg".into(),
        thumbs_large: "https://th.wallhaven.cc/lg/ab/abc123.jpg".into(),
    }
}

#[test]
fn wallhaven_listing_and_detail_mapping() {
    let w = map_listing(listing());
    assert_eq!(w.name, "Wallhaven abc123");
    assert!(w.tags.is_empty());
    let d = map_detail(WallhavenDetail { listing: listing(), tags: vec!["city".into()] });
    assert_eq!(d.tags, vec!["city".to_string()]);
    assert_eq!(d.original_url.as_deref(), Some("https://w.wallhaven.cc/full/ab/wallhaven-abc123.jpg"));
}

#[test]
fn wallhaven_parameters_follow_the_query() {
    let mut query = WallpaperQuery::default();
    query.category = WallpaperCategory::Nature;
    let parameters = wallhaven_parameters(&query).expect("sfw query");
    let expected: Vec<(String, String)> = [
        ("categories", "100"), ("purity", "100"), ("sorting", "date_added"), ("order", "desc"),
        ("atleast", "3840x2160"), ("page", "1"), ("q", "nature"), ("ratios", "16x9"),
    ]
    .iter()
    .map(|(k, v)| (k.to_string(), v.to_string()))
    .collect();
    assert_eq!(parameters, expected);
    query.safety = "nsfw".into();
    assert!(wallhaven_parameters(&query).is_err());
    let mut local = WallpaperQuery::default();
    local.category = WallpaperCategory::Local;
    assert!(wallhaven_parameters(&local).is_err());
}

#[test]
fn openverse_parameters_use_the_english_alias() {
    let mut query = WallpaperQuery::default();
    query.keyword = Some("雪山".into());
    query.page_size = 100;
    let parameters = openverse_parameters(&query).expect("sfw");
    assert_eq!(parameters[0], ("q".to_string(), "snow mountain".to_string()));
    assert_eq!(parameters[2], ("page_size".to_string(), "40".to_string()));
}

#[test]
fn download_requests_and_file_names() {
    assert!(check_download_request("https://x/y.jpg", "abc-1_2").is_ok());
    assert!(check_download_request("http://x/y.jpg", "abc").is_err());
    assert!(check_download_request("https://x/y.jpg", "../abc").is_err());
    assert_eq!(extension_for(None, "https://x/Y.WEBP?download=1"), "webp");
    assert_eq!(extension_for(None, "https://x/y.png?x=.jpg"), "png");
    assert_eq!(extension_for(None, "https://x/y"), "jpg");
    assert_eq!(original_file_name("openverse", "id1", "png"), "openverse-id1.png");
}

#[test]
fn provider_names_resolve_and_unknown_ones_fail() {
    assert_eq!(ProviderName::from_name("openverse").expect("known"), ProviderName::Openverse);
    match ProviderName::from_name("flickr") {
        Err(AppError::Provider(m)) => assert_eq!(m, "unsupported wallpaper provider: flickr"),
        other => panic!("unexpected {other:?}"),
    }
    assert_eq!(ProviderName::TheGamesDb.as_str(), "thegamesdb");
}

#[test]
fn aggregated_search_selects_enabled_providers_in_scope() {
    let enabled = vec!["wallhaven".to_string(), "openverse".to_string(), "thegamesdb".to_string()];
    let all = select_providers(&enabled, &None);
    assert_eq!(all, vec![ProviderName::Wallhaven, ProviderName::Openverse, ProviderName::TheGamesDb]);
    let scoped = select_providers(&enabled, &Some(vec!["OpenVerse".to_string(), "wikimedia_commons".to_string()]));
    assert_eq!(scoped, vec![ProviderName::Openverse]);
}

#[test]
fn aggregated_search_fails_only_when_every_provider_failed() {
    assert!(aggregate_outcome(1, &vec![("a".into(), "x".into())]).is_ok());
    assert!(aggregate_outcome(0, &Vec::new()).is_ok());
    match aggregate_outcome(0, &vec![("a".into(), "x".into()), ("b".into(), "y".into())]) {
        Err(AppError::Provider(m)) => assert_eq!(m, "all enabled providers failed: a: x; b: y"),
        other => panic!("unexpected {other:?}"),
    }
}

#[test]
fn thumbnails_must_be_cached_https_and_small() {
    let mut with = wallpaper("a", "1", "one", &[]);
    with.thumbnail_local_path = Some("/cache/one.jpg".into());
    let without = wallpaper("a", "2", "two", &[]);
    let kept = retain_with_thumbnail(vec![without, with]);
    assert_eq!(kept.len(), 1);
    assert_eq!(kept[0].remote_id, "1");
    assert!(thumbnail_url_verdict(Some("https")).is_ok());
    assert!(thumbnail_url_verdict(Some("file")).is_err());
    assert!(thumbnail_url_verdict(None).is_err());
    assert!(wallpaper_desktop::provider::aggregated::check_thumbnail_url("file:///private.png").is_err());
    assert!(wallpaper_desktop::provider::aggregated::check_thumbnail_url("https://a.test/x.png").is_ok());
    assert_eq!(accept_thumbnail_bytes(10, 20).expect("small"), 30);
    assert!(accept_thumbnail_bytes(8 * 1024 * 1024, 1).is_err());
    let name = thumbnail_cache_file_name("https://thumbnail.invalid/image.png", "png");
    assert!(name.starts_with("online-") && name.ends_with(".png"));
    assert_eq!(name.len(), "online-".len() + 64 + ".png".len());
}

#[test]
fn local_records_and_pages() {
    let metadata = ImageMetadata {
        width: 80,
        height: 45,
        aspect_ratio: "16:9".into(),
        file_size: 100,
        mime_type: "image/jpeg",
        format: "jpeg",
        sha256: "deadbeef".into(),
    };
    let record = read_local_metadata("/pictures/sample.jpg", metadata, PathStyle::Unix).expect("record");
    assert_eq!(record.name, "sample");
    assert_eq!(record.remote_id, "deadbeef");
    assert_eq!(record.local_path.as_deref(), Some("/pictures/sample.jpg"));
    let items = vec![
        wallpaper("local", "1", "b-Sea", &[]),
        wallpaper("local", "2", "a-sea", &[]),
        wallpaper("local", "3", "forest", &[]),
    ];
    let mut query = WallpaperQuery::default();
    query.category = WallpaperCategory::Local;
    query.keyword = Some("SEA".into());
    let page = local_page(items, &query);
    let names: Vec<_> = page.iter().map(|w| w.name.as_str()).collect();
    assert_eq!(names, ["a-sea", "b-Sea"]);
    let mut games = WallpaperQuery::default();
    games.category = WallpaperCategory::Games;
    assert!(local_page(vec![wallpaper("local", "1", "x", &[])], &games).is_empty());
}

#[test]
fn wallhaven_pages_keep_at_most_the_clamped_page_size() {
    let listings = |n: usize| -> Vec<WallhavenListing> {
        (0..n)
            .map(|i| {
                let mut l = listing();
                l.id = format!("id{i}");
                l
            })
            .collect()
    };
    let page = wallpaper_desktop::provider::wallhaven::map_search_page(listings(30), 100);
    assert_eq!(page.len(), 24);
    assert_eq!(page[0].remote_id, "id0");
    assert_eq!(page[23].remote_id, "id23");
    assert_eq!(wallpaper_desktop::provider::wallhaven::map_search_page(listings(5), 0).len(), 1);
    assert_eq!(wallpaper_desktop::provider::wallhaven::map_search_page(listings(3), 10).len(), 3);
}

#[test]
fn openverse_pages_drop_small_insecure_and_unsupported_results() {
    let mut small = openverse_image("https://example.test/small.jpg", Some("jpg"));
    small.width = Some(1000);
    let insecure = openverse_image("http://example.test/photo.jpg", Some("jpg"));
    let gif = openverse_image("https://example.test/anim.gif", None);
    let mut kept = openverse_image("https://example.test/photo.png?x=1", None);
    kept.id = "ab-12".into();
    let page = wallpaper_desktop::provider::openverse::map_search_results(
        vec![small, insecure, gif, kept],
        3840,
        2160,
    );
    assert_eq!(page.len(), 1);
    assert_eq!(page[0].remote_id, "ab-12");
    assert_eq!(page[0].mime_type.as_deref(), Some("image/png"));
}

#[test]
fn commons_pages_keep_large_rasters_that_mention_a_keyword() {
    let page = |id: i64, mime: &str, categories: &str| CommonsPage {
        pageid: id,
        title: format!("File:Page{id}.jpg"),
        imageinfo: vec![CommonsImageInfo {
            url: format!("https://upload.example/{id}.jpg"),
            descriptionurl: format!("https://commons.example/{id}"),
            thumburl: None,
            width: 4000,
            height: 3000,
            size: 1,
            mime: mime.into(),
            timestamp: None,
            user: None,
            extmetadata: vec![("Categories".into(), categories.into())],
        }],
    };
    let pages = || {
        vec![
            page(1, "image/jpeg", "Alps|Snow"),
            page(2, "image/tiff", "Alps"),
            page(3, "image/png", "Beaches"),
            page(4, "image/webp", "Snowy alps"),
        ]
    };
    let keywords = vec!["alps".to_string()];
    let kept = wallpaper_desktop::provider::wikimedia::map_search_results(pages(), 3840, 2160, &keywords);
    let ids: Vec<&str> = kept.iter().map(|w| w.remote_id.as_str()).collect();
    assert_eq!(ids, vec!["1", "4"]);
    let all = wallpaper_desktop::provider::wikimedia::map_search_results(pages(), 3840, 2160, &Vec::new());
    assert_eq!(all.len(), 3);
}
