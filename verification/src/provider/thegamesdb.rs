//! TheGamesDB: the user-owned API key, game-art request parameters and the
//! mapping that keeps only large landscape raster art with safe relative paths.
use vstd::prelude::*;

use crate::error::{AppError, AppResult};
use crate::image_processing::{
    dimensions_text, reduced_aspect_ratio, spec_dimensions_text, spec_ratio_label,
};
use crate::provider::download::before_query;
use crate::provider::wikimedia::{at_most, lookup};
use crate::provider::{
    clamp, first_page, is_blank, is_sfw, pair_views, provider_keywords, replace_char,
    replace_chars, safety_is_sfw, spec_provider_keywords, string_views, RemoteWallpaper,
    WallpaperQuery,
};
use crate::text::{
    ascii_lowercase, chars_of, contains, decimal, ends_with, find_char, parse_unsigned,
    slice_chars, spec_ascii_lowercase, spec_contains, spec_decimal, spec_ends_with,
    spec_find_char, spec_parse_unsigned, spec_starts_with, spec_trim, spec_utf8_len,
    str_eq, str_starts_with, string_from_chars, trim_chars, trim_str, utf8_len_exceeds,
};

verus! {

// ---------------------------------------------------------------------------
// The runtime API key
// ---------------------------------------------------------------------------

/// The user-owned TheGamesDB key held in memory; absent until configured.
pub struct ApiKeyStore {
    pub key: Option<String>,
}

/// The key kept for an input: trimmed, absent when blank; `Err` when longer than 256 bytes.
pub open spec fn spec_normalized_key(api_key: Option<Seq<char>>) -> Result<Option<Seq<char>>, Seq<char>> {
    match api_key {
        None => Ok(None),
        Some(k) => {
            let t = spec_trim(k);
            if t.len() == 0 {
                Ok(None)
            } else if spec_utf8_len(t) > 256 {
                Err("TheGamesDB API key is longer than 256 characters"@)
            } else {
                Ok(Some(t))
            }
        },
    }
}

impl ApiKeyStore {
    /// A store with no key: access stays disabled until the user configures one.
    pub fn new() -> (s: ApiKeyStore)
        ensures
            s.key is None,
    {
        ApiKeyStore { key: None }
    }

    /// Replaces the runtime credential; empty values disable access, over-long ones are refused
    /// and leave the previous key in place.
    pub fn set_api_key(&mut self, api_key: Option<&str>) -> (r: AppResult<()>)
        ensures
            match spec_normalized_key(crate::provider::download::opt_view(api_key)) {
                Ok(k) => r is Ok && match k {
                    Some(t) => final(self).key matches Some(x) && x@ == t,
                    None => final(self).key is None,
                },
                Err(message) => r matches Err(AppError::Configuration(m)) && m@ == message
                    && final(self).key == old(self).key,
            },
    {
        match api_key {
            None => {
                self.key = None;
                Ok(())
            },
            Some(k) => {
                let trimmed = trim_str(k);
                if trimmed.as_str().is_empty() {
                    self.key = None;
                    return Ok(());
                }
                if utf8_len_exceeds(&chars_of(trimmed.as_str()), 256) {
                    return Err(
                        AppError::Configuration(
                            "TheGamesDB API key is longer than 256 characters".to_string(),
                        ),
                    );
                }
                self.key = Some(trimmed);
                Ok(())
            },
        }
    }

    /// A copy of the configured key, or a configuration error naming the missing setting.
    pub fn api_key(&self) -> (r: AppResult<String>)
        ensures
            match self.key {
                Some(k) => r matches Ok(x) && x@ == k@,
                None => r matches Err(AppError::Configuration(m)) && m@
                    == "TheGamesDB API key is not configured; add it in Settings"@,
            },
    {
        match &self.key {
            Some(k) => Ok(k.clone()),
            None => Err(
                AppError::Configuration(
                    "TheGamesDB API key is not configured; add it in Settings".to_string(),
                ),
            ),
        }
    }
}

// ---------------------------------------------------------------------------
// Paths, types and identifiers
// ---------------------------------------------------------------------------

/// Accepts only HTTPS CDN bases with a trailing slash.
pub open spec fn spec_valid_base_url(value: Seq<char>) -> bool {
    spec_starts_with(value, "https://"@) && value.len() > 0 && value.last() == '/'
}

/// Accepts only HTTPS CDN bases with a trailing slash before joining provider paths.
pub fn valid_base_url(value: &str) -> (b: bool)
    ensures
        b == spec_valid_base_url(value@),
{
    let v = chars_of(value);
    str_starts_with(value, "https://") && v.len() > 0 && v[v.len() - 1] == '/'
}

/// The raster MIME type expected from a relative path's ending (query ignored, any case).
pub open spec fn spec_mime_type(path: Seq<char>) -> Option<Seq<char>> {
    let p = spec_ascii_lowercase(before_query(path));
    if spec_ends_with(p, ".jpg"@) || spec_ends_with(p, ".jpeg"@) {
        Some("image/jpeg"@)
    } else if spec_ends_with(p, ".png"@) {
        Some("image/png"@)
    } else if spec_ends_with(p, ".webp"@) {
        Some("image/webp"@)
    } else {
        None
    }
}

/// Infers the expected raster MIME type from a provider-controlled relative path.
pub fn mime_type(path: &str) -> (r: Option<&'static str>)
    ensures
        match spec_mime_type(path@) {
            Some(m) => r matches Some(x) && x@ == m,
            None => r is None,
        },
{
    let v = chars_of(path);
    let head = match find_char(&v, '?') {
        Some(i) => {
            proof {
                let s = path@;
                let j = spec_find_char(s, '?')->0;
                assert(j == i) by {
                    if j < i {
                        assert(s[j] == '?');
                    } else if i < j {
                        assert(s[i as int] == '?');
                    }
                }
            }
            slice_chars(&v, 0, i)
        },
        None => v,
    };
    let p = ascii_lowercase(&head);
    if ends_with(&p, &chars_of(".jpg")) || ends_with(&p, &chars_of(".jpeg")) {
        Some("image/jpeg")
    } else if ends_with(&p, &chars_of(".png")) {
        Some("image/png")
    } else if ends_with(&p, &chars_of(".webp")) {
        Some("image/webp")
    } else {
        None
    }
}

/// A relative, traversal-free path to a supported raster file.
pub open spec fn spec_valid_image_path(value: Seq<char>) -> bool {
    &&& value.len() > 0
    &&& value[0] != '/'
    &&& !spec_contains(value, ".."@)
    &&& spec_mime_type(value) is Some
}

/// Prevents path traversal and limits downloads to image formats decoded by the application.
pub fn valid_image_path(value: &str) -> (b: bool)
    ensures
        b == spec_valid_image_path(value@),
{
    let v = chars_of(value);
    if v.len() == 0 || v[0] == '/' {
        return false;
    }
    if contains(&v, &chars_of("..")) {
        return false;
    }
    mime_type(value).is_some()
}

/// The first occurrence of `c` splits a text in two, if it occurs.
pub open spec fn spec_split_once(s: Seq<char>, c: char) -> Option<(Seq<char>, Seq<char>)> {
    match spec_find_char(s, c) {
        Some(i) => Some((s.take(i), s.skip(i + 1))),
        None => None,
    }
}

fn split_once(s: &Vec<char>, c: char) -> (r: Option<(Vec<char>, Vec<char>)>)
    ensures
        match spec_split_once(s@, c) {
            Some(parts) => r matches Some(p) && p.0@ == parts.0 && p.1@ == parts.1,
            None => r is None,
        },
{
    match find_char(s, c) {
        Some(i) => {
            proof {
                let j = spec_find_char(s@, c)->0;
                assert(j == i) by {
                    if j < i {
                        assert(s@[j] == c);
                    } else if i < j {
                        assert(s@[i as int] == c);
                    }
                }
            }
            assert(i < s.len());
            let a = slice_chars(s, 0, i);
            let b = slice_chars(s, i + 1, s.len());
            assert(a@ =~= s@.take(i as int));
            assert(b@ =~= s@.skip(i + 1));
            Some((a, b))
        },
        None => None,
    }
}

/// `WIDTHxHEIGHT`, case-insensitive, with whitespace allowed around each number;
/// zero-sized images are refused.
pub open spec fn spec_parse_resolution(value: Seq<char>) -> Option<(u32, u32)> {
    match spec_split_once(spec_ascii_lowercase(value), 'x') {
        None => None,
        Some(parts) => match (
            spec_parse_unsigned(spec_trim(parts.0), u32::MAX as nat),
            spec_parse_unsigned(spec_trim(parts.1), u32::MAX as nat),
        ) {
            (Some(w), Some(h)) => if w > 0 && h > 0 {
                Some((w as u32, h as u32))
            } else {
                None
            },
            _ => None,
        },
    }
}

/// Parses the documented WIDTHxHEIGHT value without accepting zero-sized images.
pub fn parse_resolution(value: &str) -> (r: Option<(u32, u32)>)
    ensures
        r == spec_parse_resolution(value@),
{
    let normalized = ascii_lowercase(&chars_of(value));
    let (width, height) = match split_once(&normalized, 'x') {
        Some(parts) => parts,
        None => {
            return None;
        },
    };
    let w = match parse_unsigned(&trim_chars(&width), 0xFFFF_FFFF) {
        Some(w) => w,
        None => {
            return None;
        },
    };
    let h = match parse_unsigned(&trim_chars(&height), 0xFFFF_FFFF) {
        Some(h) => h,
        None => {
            return None;
        },
    };
    if w > 0 && h > 0 {
        Some((w as u32, h as u32))
    } else {
        None
    }
}

/// The composite `game:image` identifier, or why it is refused.
pub open spec fn spec_parse_remote_id(value: Seq<char>) -> Result<(u64, u64), Seq<char>> {
    match spec_split_once(value, ':') {
        None => Err("invalid TheGamesDB image id"@),
        Some(parts) => match spec_parse_unsigned(parts.0, u64::MAX as nat) {
            None => Err("invalid TheGamesDB game id"@),
            Some(g) => match spec_parse_unsigned(parts.1, u64::MAX as nat) {
                None => Err("invalid TheGamesDB image id"@),
                Some(i) => Ok((g as u64, i as u64)),
            },
        },
    }
}

/// Validates the composite game/image identifier used by detail and download operations.
pub fn parse_remote_id(value: &str) -> (r: AppResult<(u64, u64)>)
    ensures
        match spec_parse_remote_id(value@) {
            Ok(ids) => r == Ok::<(u64, u64), AppError>(ids),
            Err(message) => r matches Err(AppError::Provider(m)) && m@ == message,
        },
{
    let (game, image) = match split_once(&chars_of(value), ':') {
        Some(parts) => parts,
        None => {
            return Err(AppError::Provider("invalid TheGamesDB image id".to_string()));
        },
    };
    let game_id = match parse_unsigned(&game, u64::MAX) {
        Some(g) => g,
        None => {
            return Err(AppError::Provider("invalid TheGamesDB game id".to_string()));
        },
    };
    let image_id = match parse_unsigned(&image, u64::MAX) {
        Some(i) => i,
        None => {
            return Err(AppError::Provider("invalid TheGamesDB image id".to_string()));
        },
    };
    Ok((game_id, image_id))
}

// ---------------------------------------------------------------------------
// Image mapping
// ---------------------------------------------------------------------------

/// CDN base URLs of an image response.
pub struct ImageBaseUrls {
    pub original: String,
    pub large: String,
}

/// One image record of a game.
pub struct GameImage {
    pub id: u64,
    pub image_type: String,
    pub filename: String,
    pub resolution: Option<String>,
}

/// An image response: base URLs and each game's images, keyed by game id.
pub struct GameImagesData {
    pub base_url: ImageBaseUrls,
    pub images: Vec<(String, Vec<GameImage>)>,
}

/// The dimensions of an image that is kept for a query.
pub open spec fn accepted_dimensions(image: GameImage, min_width: u32, min_height: u32) -> Option<
    (u32, u32),
> {
    match image.resolution {
        None => None,
        Some(r) => match spec_parse_resolution(r@) {
            None => None,
            Some(d) => if d.0 < min_width || d.1 < min_height || d.0 <= d.1
                || !spec_valid_image_path(image.filename@) {
                None
            } else {
                Some(d)
            },
        },
    }
}

/// The kept images of one game, each with its game id and title, in order.
pub open spec fn accepted_in_game(
    game_id: Seq<char>,
    title: Seq<char>,
    images: Seq<GameImage>,
    min_width: u32,
    min_height: u32,
) -> Seq<(Seq<char>, Seq<char>, GameImage)>
    decreases images.len(),
{
    if images.len() == 0 {
        Seq::empty()
    } else {
        let rest = accepted_in_game(game_id, title, images.drop_last(), min_width, min_height);
        if accepted_dimensions(images.last(), min_width, min_height) is Some {
            rest.push((game_id, title, images.last()))
        } else {
            rest
        }
    }
}

/// The games of a response by character view.
pub open spec fn game_views(games: Seq<(String, Vec<GameImage>)>) -> Seq<(Seq<char>, Seq<GameImage>)> {
    games.map_values(|g: (String, Vec<GameImage>)| (g.0@, g.1@))
}

/// The kept images of every game whose title is known, in response order.
pub open spec fn accepted_images(
    games: Seq<(Seq<char>, Seq<GameImage>)>,
    titles: Seq<(Seq<char>, Seq<char>)>,
    min_width: u32,
    min_height: u32,
) -> Seq<(Seq<char>, Seq<char>, GameImage)>
    decreases games.len(),
{
    if games.len() == 0 {
        Seq::empty()
    } else {
        let rest = accepted_images(games.drop_last(), titles, min_width, min_height);
        match lookup(titles, games.last().0) {
            Some(t) => rest + accepted_in_game(
                games.last().0,
                t,
                games.last().1,
                min_width,
                min_height,
            ),
            None => rest,
        }
    }
}

/// `w` is the record of a kept image.
pub open spec fn image_record(
    base: ImageBaseUrls,
    entry: (Seq<char>, Seq<char>, GameImage),
    dims: (u32, u32),
    w: RemoteWallpaper,
) -> bool {
    let (game_id, title, image) = entry;
    &&& w.remote_id@ == game_id + ":"@ + spec_decimal(image.id as nat)
    &&& w.provider@ == "thegamesdb"@
    &&& w.name@ == title + " · "@ + image.image_type@
    &&& w.source_page_url matches Some(u) && u@ == "https://thegamesdb.net/game.php?id="@ + game_id
    &&& w.original_url matches Some(u) && u@ == base.original@ + image.filename@
    &&& w.thumbnail_url matches Some(u) && u@ == base.large@ + image.filename@
    &&& w.thumbnail_local_path is None
    &&& w.local_path is None
    &&& w.width == Some(dims.0)
    &&& w.height == Some(dims.1)
    &&& w.resolution matches Some(t) && t@ == spec_dimensions_text(dims.0 as nat, dims.1 as nat)
    &&& w.ratio matches Some(t) && t@ == spec_ratio_label(dims.0 as nat, dims.1 as nat)
    &&& w.file_size is None
    &&& w.mime_type matches Some(t) && Some(t@) == spec_mime_type(image.filename@)
    &&& w.category@ == "games"@
    &&& w.purity@ == "sfw"@
    &&& string_views(w.tags@) == seq![title, "game"@, image.image_type@]
    &&& w.created_at is None
    &&& w.author is None
    &&& w.license_name is None
    &&& w.license_url is None
    &&& w.perceptual_hash is None
}

/// `r` holds the records of the first kept images, up to the page size.
pub open spec fn images_mapped(
    data: GameImagesData,
    titles: Seq<(Seq<char>, Seq<char>)>,
    q: WallpaperQuery,
    r: Seq<RemoteWallpaper>,
) -> bool {
    if !spec_valid_base_url(data.base_url.original@) || !spec_valid_base_url(data.base_url.large@) {
        r.len() == 0
    } else {
        let kept = accepted_images(game_views(data.images@), titles, q.min_width, q.min_height);
        &&& r.len() == at_most(kept, q.page_size as nat).len()
        &&& forall|i: int|
            0 <= i < r.len() ==> image_record(
                data.base_url,
                kept[i],
                accepted_dimensions(kept[i].2, q.min_width, q.min_height)->0,
                #[trigger] r[i],
            )
    }
}

fn build_record(
    base: &ImageBaseUrls,
    game_id: &String,
    title: &String,
    image: &GameImage,
    dims: (u32, u32),
    mime: &'static str,
) -> (w: RemoteWallpaper)
    requires
        Some(mime@) == spec_mime_type(image.filename@),
    ensures
        image_record(*base, (game_id@, title@, *image), dims, w),
{
    let mut remote_id = game_id.clone();
    remote_id.append(":");
    remote_id.append(decimal(image.id).as_str());
    let mut name = title.clone();
    name.append(" · ");
    name.append(image.image_type.as_str());
    let mut source = String::from_str("https://thegamesdb.net/game.php?id=");
    source.append(game_id.as_str());
    let mut original = base.original.clone();
    original.append(image.filename.as_str());
    let mut thumbnail = base.large.clone();
    thumbnail.append(image.filename.as_str());
    let mut tags: Vec<String> = Vec::new();
    tags.push(title.clone());
    tags.push("game".to_string());
    tags.push(image.image_type.clone());
    assert(string_views(tags@) =~= seq![title@, "game"@, image.image_type@]);
    RemoteWallpaper {
        remote_id,
        provider: "thegamesdb".to_string(),
        name,
        source_page_url: Some(source),
        original_url: Some(original),
        thumbnail_url: Some(thumbnail),
        thumbnail_local_path: None,
        local_path: None,
        width: Some(dims.0),
        height: Some(dims.1),
        resolution: Some(dimensions_text(dims.0, dims.1)),
        ratio: Some(reduced_aspect_ratio(dims.0, dims.1)),
        file_size: None,
        mime_type: Some(mime.to_string()),
        category: "games".to_string(),
        purity: "sfw".to_string(),
        tags,
        created_at: None,
        author: None,
        license_name: None,
        license_url: None,
        perceptual_hash: None,
    }
}

fn title_of<'a>(titles: &'a Vec<(String, String)>, game_id: &str) -> (r: Option<&'a String>)
    ensures
        match lookup(pair_views(titles@), game_id@) {
            Some(t) => r matches Some(x) && x@ == t,
            None => r is None,
        },
{
    let ghost tv = pair_views(titles@);
    assert(tv.skip(0) =~= tv);
    let mut i: usize = 0;
    while i < titles.len()
        invariant
            i <= titles.len(),
            tv == pair_views(titles@),
            lookup(tv, game_id@) == lookup(tv.skip(i as int), game_id@),
        decreases titles.len() - i,
    {
        assert(tv.skip(i as int).drop_first() =~= tv.skip(i + 1));
        if str_eq(titles[i].0.as_str(), game_id) {
            return Some(&titles[i].1);
        }
        i += 1;
    }
    None
}

fn image_dimensions(image: &GameImage, min_width: u32, min_height: u32) -> (r: Option<(u32, u32)>)
    ensures
        r == accepted_dimensions(*image, min_width, min_height),
{
    let d = match &image.resolution {
        Some(text) => match parse_resolution(text.as_str()) {
            Some(d) => d,
            None => {
                return None;
            },
        },
        None => {
            return None;
        },
    };
    if d.0 < min_width || d.1 < min_height || d.0 <= d.1 || !valid_image_path(
        image.filename.as_str(),
    ) {
        None
    } else {
        Some(d)
    }
}

/// Maps only safe landscape raster paths with real dimensions from the provider response.
pub fn map_images(data: &GameImagesData, titles: &Vec<(String, String)>, query: &WallpaperQuery) -> (r:
    Vec<RemoteWallpaper>)
    ensures
        images_mapped(*data, pair_views(titles@), *query, r@),
{
    let mut mapped: Vec<RemoteWallpaper> = Vec::new();
    if !valid_base_url(data.base_url.original.as_str()) || !valid_base_url(
        data.base_url.large.as_str(),
    ) {
        return mapped;
    }
    let ghost tv = pair_views(titles@);
    let ghost gv = game_views(data.images@);
    let ghost minw = query.min_width;
    let ghost minh = query.min_height;
    let mut g: usize = 0;
    while g < data.images.len()
        invariant
            g <= data.images.len(),
            gv == game_views(data.images@),
            tv == pair_views(titles@),
            minw == query.min_width,
            minh == query.min_height,
            mapped@.len() == accepted_images(gv.take(g as int), tv, minw, minh).len(),
            forall|i: int|
                0 <= i < mapped@.len() ==> image_record(
                    data.base_url,
                    accepted_images(gv.take(g as int), tv, minw, minh)[i],
                    accepted_dimensions(
                        accepted_images(gv.take(g as int), tv, minw, minh)[i].2,
                        minw,
                        minh,
                    )->0,
                    #[trigger] mapped@[i],
                ),
        decreases data.images.len() - g,
    {
        let game_id = &data.images[g].0;
        let images = &data.images[g].1;
        let ghost before = accepted_images(gv.take(g as int), tv, minw, minh);
        assert(gv.take(g + 1).drop_last() =~= gv.take(g as int));
        assert(gv.take(g + 1).last() == (game_id@, images@));
        match title_of(titles, game_id.as_str()) {
            None => {},
            Some(title) => {
                let ghost base_len = mapped@.len();
                let mut k: usize = 0;
                while k < images.len()
                    invariant
                        k <= images.len(),
                        minw == query.min_width,
                        minh == query.min_height,
                        base_len == before.len(),
                        mapped@.len() == before.len() + accepted_in_game(
                            game_id@,
                            title@,
                            images@.take(k as int),
                            minw,
                            minh,
                        ).len(),
                        forall|i: int|
                            0 <= i < mapped@.len() ==> image_record(
                                data.base_url,
                                (before + accepted_in_game(
                                    game_id@,
                                    title@,
                                    images@.take(k as int),
                                    minw,
                                    minh,
                                ))[i],
                                accepted_dimensions(
                                    (before + accepted_in_game(
                                        game_id@,
                                        title@,
                                        images@.take(k as int),
                                        minw,
                                        minh,
                                    ))[i].2,
                                    minw,
                                    minh,
                                )->0,
                                #[trigger] mapped@[i],
                            ),
                    decreases images.len() - k,
                {
                    let image = &images[k];
                    let ghost prev = accepted_in_game(
                        game_id@,
                        title@,
                        images@.take(k as int),
                        minw,
                        minh,
                    );
                    assert(images@.take(k + 1).drop_last() =~= images@.take(k as int));
                    match image_dimensions(image, query.min_width, query.min_height) {
                        None => {},
                        Some(dims) => {
                            let mime = mime_type(image.filename.as_str()).unwrap();
                            let w = build_record(&data.base_url, game_id, title, image, dims, mime);
                            let ghost old_mapped = mapped@;
                            mapped.push(w);
                            proof {
                                let next = before + prev.push((game_id@, title@, *image));
                                assert(before + prev.push((game_id@, title@, *image)) =~= (before
                                    + prev).push((game_id@, title@, *image)));
                                assert forall|i: int| 0 <= i < mapped@.len() implies image_record(
                                    data.base_url,
                                    next[i],
                                    accepted_dimensions(next[i].2, minw, minh)->0,
                                    #[trigger] mapped@[i],
                                ) by {
                                    if i < old_mapped.len() {
                                        assert(next[i] == (before + prev)[i]);
                                        assert(mapped@[i] == old_mapped[i]);
                                    }
                                }
                            }
                        },
                    }
                    k += 1;
                }
                assert(images@.take(images.len() as int) =~= images@);
            },
        }
        g += 1;
    }
    assert(gv.take(data.images.len() as int) =~= gv);
    if mapped.len() > query.page_size as usize {
        mapped.truncate(query.page_size as usize);
    }
    mapped
}

// ---------------------------------------------------------------------------
// Requests
// ---------------------------------------------------------------------------

/// The game-name search term, or `None` when the query has no keyword and the
/// provider is skipped; queries that are not SFW are refused.
pub open spec fn spec_search_term(q: WallpaperQuery) -> Result<Option<Seq<char>>, Seq<char>> {
    match q.keyword {
        None => Ok(None),
        Some(k) => if spec_trim(k@).len() == 0 {
            Ok(None)
        } else if !is_sfw(q.safety@) {
            Err("TheGamesDB requests are restricted to SFW results"@)
        } else {
            let expanded = spec_provider_keywords(spec_trim(k@));
            if expanded.len() > 0 {
                Ok(Some(expanded.last()))
            } else {
                Ok(Some(spec_trim(k@)))
            }
        },
    }
}

/// Chooses the game-name search term of a query.
pub fn search_term(query: &WallpaperQuery) -> (r: AppResult<Option<String>>)
    ensures
        match spec_search_term(*query) {
            Ok(None) => r matches Ok(None),
            Ok(Some(t)) => r matches Ok(Some(x)) && x@ == t,
            Err(message) => r matches Err(AppError::Provider(m)) && m@ == message,
        },
{
    let keyword = match &query.keyword {
        Some(k) => trim_str(k.as_str()),
        None => {
            return Ok(None);
        },
    };
    if keyword.as_str().is_empty() {
        return Ok(None);
    }
    if !safety_is_sfw(query.safety.as_str()) {
        return Err(
            AppError::Provider("TheGamesDB requests are restricted to SFW results".to_string()),
        );
    }
    let mut expanded = provider_keywords(keyword.as_str());
    if expanded.len() > 0 {
        Ok(Some(expanded.pop().unwrap()))
    } else {
        Ok(Some(keyword))
    }
}

fn pair(name: &str, value: String) -> (p: (String, String))
    ensures
        p.0@ == name@,
        p.1@ == value@,
{
    (name.to_string(), value)
}

/// Parameters of the natural-mode game-name search.
pub fn games_parameters(api_key: &str, name: &str, page: u32) -> (r: Vec<(String, String)>)
    ensures
        pair_views(r@) == seq![
            ("apikey"@, api_key@),
            ("name"@, name@),
            ("fields"@, "alternates"@),
            ("mode"@, "natural"@),
            ("page"@, spec_decimal(first_page(page))),
        ],
{
    let p: u32 = if page < 1 {
        1
    } else {
        page
    };
    let mut r: Vec<(String, String)> = Vec::new();
    r.push(pair("apikey", api_key.to_string()));
    r.push(pair("name", name.to_string()));
    r.push(pair("fields", "alternates".to_string()));
    r.push(pair("mode", "natural".to_string()));
    r.push(pair("page", decimal(p as u64)));
    assert(pair_views(r@) =~= seq![
        ("apikey"@, api_key@),
        ("name"@, name@),
        ("fields"@, "alternates"@),
        ("mode"@, "natural"@),
        ("page"@, spec_decimal(first_page(page))),
    ]);
    r
}

/// Parameters of the one multi-game image request.
pub fn images_parameters(api_key: &str, game_ids: &str) -> (r: Vec<(String, String)>)
    ensures
        pair_views(r@) == seq![
            ("apikey"@, api_key@),
            ("games_id"@, game_ids@),
            ("filter[type]"@, "fanart,screenshot"@),
        ],
{
    let mut r: Vec<(String, String)> = Vec::new();
    r.push(pair("apikey", api_key.to_string()));
    r.push(pair("games_id", game_ids.to_string()));
    r.push(pair("filter[type]", "fanart,screenshot".to_string()));
    assert(pair_views(r@) =~= seq![
        ("apikey"@, api_key@),
        ("games_id"@, game_ids@),
        ("filter[type]"@, "fanart,screenshot"@),
    ]);
    r
}

/// One game of a name search.
pub struct Game {
    pub id: u64,
    pub game_title: String,
}

/// Game ids joined by commas.
pub open spec fn joined_ids(games: Seq<Game>) -> Seq<char>
    decreases games.len(),
{
    if games.len() == 0 {
        Seq::empty()
    } else if games.len() == 1 {
        spec_decimal(games[0].id as nat)
    } else {
        joined_ids(games.drop_last()) + ","@ + spec_decimal(games.last().id as nat)
    }
}

/// The games kept for an image request: at most `clamp(page_size, 1, 24)`.
pub open spec fn kept_games(games: Seq<Game>, page_size: u32) -> Seq<Game> {
    at_most(games, clamp(page_size, 1, 24))
}

/// The (id, title) entry of a game.
pub open spec fn title_entry(g: Game) -> (Seq<char>, Seq<char>) {
    (spec_decimal(g.id as nat), g.game_title@)
}

/// Keeps the first games of a search, their titles by id and the comma-joined id list.
pub fn select_games(games: &Vec<Game>, page_size: u32) -> (r: (Vec<(String, String)>, String))
    ensures
        pair_views(r.0@).len() == kept_games(games@, page_size).len(),
        forall|i: int|
            0 <= i < pair_views(r.0@).len() ==> #[trigger] pair_views(r.0@)[i] == title_entry(
                kept_games(games@, page_size)[i],
            ),
        r.1@ == joined_ids(kept_games(games@, page_size)),
{
    let limit: usize = if page_size < 1 {
        1
    } else if page_size > 24 {
        24
    } else {
        page_size as usize
    };
    let count = if games.len() < limit {
        games.len()
    } else {
        limit
    };
    let ghost kept = kept_games(games@, page_size);
    assert(kept =~= games@.take(count as int));
    let mut titles: Vec<(String, String)> = Vec::new();
    let mut ids = String::new();
    let mut i: usize = 0;
    while i < count
        invariant
            i <= count <= games.len(),
            kept == games@.take(count as int),
            titles@.len() == i,
            forall|j: int| 0 <= j < i ==> #[trigger] pair_views(titles@)[j] == title_entry(kept[j]),
            ids@ == joined_ids(kept.take(i as int)),
        decreases count - i,
    {
        let id_text = decimal(games[i].id);
        if i > 0 {
            ids.append(",");
        }
        ids.append(id_text.as_str());
        let ghost old_titles = titles@;
        titles.push((id_text, games[i].game_title.clone()));
        proof {
            assert forall|j: int| 0 <= j < i + 1 implies #[trigger] pair_views(titles@)[j]
                == title_entry(kept[j]) by {
                if j < i {
                    assert(titles@[j] == old_titles[j]);
                    assert(pair_views(old_titles)[j] == title_entry(kept[j]));
                }
            }
            assert(kept.take(i + 1).drop_last() =~= kept.take(i as int));
            assert(kept[i as int] == games@[i as int]);
            if i == 0 {
                assert(joined_ids(kept.take(0)) =~= Seq::<char>::empty());
            }
        }
        i += 1;
    }
    assert(kept.take(count as int) =~= kept);
    (titles, ids)
}

/// Why a download is refused before any network access, if it is.
pub open spec fn spec_download_refusal(w: RemoteWallpaper) -> Option<Seq<char>> {
    if w.provider@ != "thegamesdb"@ {
        Some("wallpaper does not belong to TheGamesDbProvider"@)
    } else {
        match spec_parse_remote_id(w.remote_id@) {
            Err(m) => Some(m),
            Ok(_) => if w.original_url is None {
                Some("TheGamesDB image has no original URL"@)
            } else {
                None
            },
        }
    }
}

/// Checks a download request and returns the original URL and the file-name id
/// (`game-image`, the colon replaced by a dash).
pub fn download_request(wallpaper: &RemoteWallpaper) -> (r: AppResult<(String, String)>)
    ensures
        match spec_download_refusal(*wallpaper) {
            Some(message) => r matches Err(AppError::Provider(m)) && m@ == message,
            None => r matches Ok(p) && Some(p.0) == wallpaper.original_url
                && p.1@ == replace_char(wallpaper.remote_id@, ':', '-'),
        },
{
    if !str_eq(wallpaper.provider.as_str(), "thegamesdb") {
        return Err(
            AppError::Provider("wallpaper does not belong to TheGamesDbProvider".to_string()),
        );
    }
    parse_remote_id(wallpaper.remote_id.as_str())?;
    match &wallpaper.original_url {
        None => Err(AppError::Provider("TheGamesDB image has no original URL".to_string())),
        Some(url) => Ok((url.clone(), replace_chars(wallpaper.remote_id.as_str(), ':', '-'))),
    }
}

} // verus!
