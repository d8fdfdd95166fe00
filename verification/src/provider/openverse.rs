//! Openverse: search parameters and the mapping that keeps only large, supported,
//! HTTPS raster results.
use vstd::prelude::*;

use crate::error::{AppError, AppResult};
use crate::image_processing::{
    dimensions_text, reduced_aspect_ratio, spec_dimensions_text, spec_ratio_label,
};
use crate::provider::wikimedia::at_most;
use crate::provider::{
    blank, clamp, first_page, is_blank, is_sfw, pair_views, provider_keywords, safety_is_sfw,
    spec_provider_keywords, string_views, RemoteWallpaper, WallpaperCategory, WallpaperQuery,
};
use crate::text::{
    ascii_lowercase, char_is_ascii_hexdigit, chars_of, decimal, is_ascii_hexdigit, slice_chars,
    spec_ascii_lowercase, spec_decimal, spec_find_char, spec_starts_with, spec_unicode_uppercase,
    str_eq, str_starts_with, string_from_chars, unicode_uppercase,
};

verus! {

/// One Openverse image result.
pub struct OpenverseImage {
    pub id: String,
    pub title: Option<String>,
    pub creator: Option<String>,
    pub license: Option<String>,
    pub license_url: Option<String>,
    pub foreign_landing_url: Option<String>,
    pub url: String,
    pub thumbnail: Option<String>,
    pub width: Option<u32>,
    pub height: Option<u32>,
    pub filesize: Option<i64>,
    pub filetype: Option<String>,
    /// Tag names, in the order the API lists them.
    pub tags: Vec<String>,
}

/// The part of a text before its first `?`.
pub open spec fn before_query(s: Seq<char>) -> Seq<char> {
    crate::provider::download::before_query(s)
}

/// Index of the last occurrence of `c`, if any.
pub open spec fn last_index_of(s: Seq<char>, c: char) -> Option<int>
    decreases s.len(),
{
    if s.len() == 0 {
        None
    } else if s.last() == c {
        Some(s.len() - 1)
    } else {
        last_index_of(s.drop_last(), c)
    }
}

/// The text after the last `.`, or the whole text when it has none.
pub open spec fn after_last_dot(s: Seq<char>) -> Seq<char> {
    match last_index_of(s, '.') {
        Some(i) => s.skip(i + 1),
        None => s,
    }
}

/// The file type of a result: the declared one, else inferred from the URL path.
pub open spec fn inferred_type(filetype: Option<String>, url: Seq<char>) -> Seq<char> {
    match filetype {
        Some(t) => t@,
        None => after_last_dot(before_query(url)),
    }
}

/// The MIME type of a supported file type, compared ASCII-case-insensitively.
pub open spec fn spec_mime_for_type(t: Seq<char>) -> Option<Seq<char>> {
    let l = spec_ascii_lowercase(t);
    if l == "jpg"@ || l == "jpeg"@ {
        Some("image/jpeg"@)
    } else if l == "png"@ {
        Some("image/png"@)
    } else if l == "webp"@ {
        Some("image/webp"@)
    } else {
        None
    }
}

fn url_file_type(url: &str) -> (r: String)
    ensures
        r@ == after_last_dot(before_query(url@)),
{
    let v = chars_of(url);
    let mut end: usize = 0;
    while end < v.len() && v[end] != '?'
        invariant
            end <= v.len(),
            v@ == url@,
            forall|k: int| 0 <= k < end ==> v@[k] != '?',
        decreases v.len() - end,
    {
        end += 1;
    }
    let path = slice_chars(&v, 0, end);
    proof {
        let s = url@;
        if end < v.len() {
            assert(s[end as int] == '?');
            let j = crate::text::spec_find_char(s, '?')->0;
            assert(j == end) by {
                if j < end {
                    assert(s[j] == '?');
                }
            }
        } else {
            assert(path@ =~= s);
        }
        assert(path@ == before_query(s));
    }
    let mut dot: usize = path.len();
    assert(path@.take(path.len() as int) =~= path@);
    while dot > 0 && path[dot - 1] != '.'
        invariant
            dot <= path.len(),
            last_index_of(path@, '.') == last_index_of(path@.take(dot as int), '.'),
        decreases dot,
    {
        assert(path@.take(dot as int).drop_last() =~= path@.take(dot - 1));
        dot -= 1;
    }
    if dot > 0 {
        assert(path@.take(dot as int).last() == '.');
        assert(last_index_of(path@, '.') == Some(dot - 1));
        string_from_chars(&slice_chars(&path, dot, path.len()))
    } else {
        assert(path@.take(0) =~= Seq::<char>::empty());
        string_from_chars(&path)
    }
}

fn mime_for_type(t: &str) -> (r: Option<&'static str>)
    ensures
        match spec_mime_for_type(t@) {
            Some(m) => r matches Some(x) && x@ == m,
            None => r is None,
        },
{
    let l = string_from_chars(&ascii_lowercase(&chars_of(t)));
    if str_eq(l.as_str(), "jpg") || str_eq(l.as_str(), "jpeg") {
        Some("image/jpeg")
    } else if str_eq(l.as_str(), "png") {
        Some("image/png")
    } else if str_eq(l.as_str(), "webp") {
        Some("image/webp")
    } else {
        None
    }
}

/// Whether an optional text is present and uses HTTPS.
pub open spec fn https_option(value: Option<String>) -> Option<String> {
    match value {
        Some(u) => if spec_starts_with(u@, "https://"@) {
            Some(u)
        } else {
            None
        },
        None => None,
    }
}

/// Whether a result is kept, and the record it becomes.
pub open spec fn image_mapped(
    image: OpenverseImage,
    min_width: u32,
    min_height: u32,
    r: Option<RemoteWallpaper>,
) -> bool {
    if image.width is None || image.height is None {
        r is None
    } else {
        let width = image.width->0;
        let height = image.height->0;
        if width < min_width || height < min_height || !spec_starts_with(image.url@, "https://"@) {
            r is None
        } else {
            match spec_mime_for_type(inferred_type(image.filetype, image.url@)) {
                None => r is None,
                Some(mime) => r matches Some(w) && {
                    &&& w.remote_id == image.id
                    &&& w.provider@ == "openverse"@
                    &&& w.name@ == match image.title {
                        Some(t) => if !is_blank(t@) {
                            t@
                        } else {
                            "Openverse "@ + image.id@
                        },
                        None => "Openverse "@ + image.id@,
                    }
                    &&& w.source_page_url == image.foreign_landing_url
                    &&& w.original_url == Some(image.url)
                    &&& w.thumbnail_url == https_option(image.thumbnail)
                    &&& w.thumbnail_local_path is None
                    &&& w.local_path is None
                    &&& w.width == Some(width)
                    &&& w.height == Some(height)
                    &&& w.resolution matches Some(t) && t@ == spec_dimensions_text(
                        width as nat,
                        height as nat,
                    )
                    &&& w.ratio matches Some(t) && t@ == spec_ratio_label(width as nat, height as nat)
                    &&& w.file_size == image.filesize
                    &&& w.mime_type matches Some(t) && t@ == mime
                    &&& w.category@ == "all"@
                    &&& w.purity@ == "sfw"@
                    &&& w.tags@ == at_most(image.tags@, 24)
                    &&& w.created_at is None
                    &&& w.author == image.creator
                    &&& match image.license {
                        Some(l) => w.license_name matches Some(x) && x@ == spec_unicode_uppercase(l@),
                        None => w.license_name is None,
                    }
                    &&& w.license_url == image.license_url
                    &&& w.perceptual_hash is None
                },
            }
        }
    }
}

/// Converts only HTTPS raster results with enough pixels for the active resolution filter.
pub fn map_image(image: OpenverseImage, min_width: u32, min_height: u32) -> (r: Option<
    RemoteWallpaper,
>)
    ensures
        image_mapped(image, min_width, min_height, r),
{
    let ghost original = image;
    let OpenverseImage {
        id,
        title,
        creator,
        license,
        license_url,
        foreign_landing_url,
        url,
        thumbnail,
        width,
        height,
        filesize,
        filetype,
        mut tags,
    } = image;
    let width = match width {
        Some(w) => w,
        None => {
            return None;
        },
    };
    let height = match height {
        Some(h) => h,
        None => {
            return None;
        },
    };
    if width < min_width || height < min_height || !str_starts_with(url.as_str(), "https://") {
        return None;
    }
    let inferred = match &filetype {
        Some(t) => t.clone(),
        None => url_file_type(url.as_str()),
    };
    let mime = match mime_for_type(inferred.as_str()) {
        Some(m) => m,
        None => {
            return None;
        },
    };
    let name = match title {
        Some(t) => {
            if !blank(t.as_str()) {
                t
            } else {
                let mut n = String::from_str("Openverse ");
                n.append(id.as_str());
                n
            }
        },
        None => {
            let mut n = String::from_str("Openverse ");
            n.append(id.as_str());
            n
        },
    };
    let thumbnail_url = match thumbnail {
        Some(u) => {
            if str_starts_with(u.as_str(), "https://") {
                Some(u)
            } else {
                None
            }
        },
        None => None,
    };
    let license_name = match license {
        Some(l) => Some(unicode_uppercase(l.as_str())),
        None => None,
    };
    if tags.len() > 24 {
        tags.truncate(24);
    }
    let resolution = dimensions_text(width, height);
    let ratio = reduced_aspect_ratio(width, height);
    Some(
        RemoteWallpaper {
            remote_id: id,
            provider: "openverse".to_string(),
            name,
            source_page_url: foreign_landing_url,
            original_url: Some(url),
            thumbnail_url,
            thumbnail_local_path: None,
            local_path: None,
            width: Some(width),
            height: Some(height),
            resolution: Some(resolution),
            ratio: Some(ratio),
            file_size: filesize,
            mime_type: Some(mime.to_string()),
            category: "all".to_string(),
            purity: "sfw".to_string(),
            tags,
            created_at: None,
            author: creator,
            license_name,
            license_url,
            perceptual_hash: None,
        },
    )
}

/// Whether a result survives the size, HTTPS and raster-format filters.
pub open spec fn image_kept(image: OpenverseImage, min_width: u32, min_height: u32) -> bool {
    &&& image.width is Some
    &&& image.height is Some
    &&& image.width->0 >= min_width
    &&& image.height->0 >= min_height
    &&& spec_starts_with(image.url@, "https://"@)
    &&& spec_mime_for_type(inferred_type(image.filetype, image.url@)) is Some
}

/// The records of a result page: every kept image, mapped, in order.
pub open spec fn search_results_mapped(
    images: Seq<OpenverseImage>,
    min_width: u32,
    min_height: u32,
    r: Seq<RemoteWallpaper>,
) -> bool
    decreases images.len(),
{
    if images.len() == 0 {
        r.len() == 0
    } else {
        let image = images.last();
        if !image_kept(image, min_width, min_height) {
            search_results_mapped(images.drop_last(), min_width, min_height, r)
        } else {
            r.len() > 0 && image_mapped(image, min_width, min_height, Some(r.last()))
                && search_results_mapped(images.drop_last(), min_width, min_height, r.drop_last())
        }
    }
}

/// Maps a result page, dropping the images that fail the filters.
pub fn map_search_results(images: Vec<OpenverseImage>, min_width: u32, min_height: u32) -> (r: Vec<
    RemoteWallpaper,
>)
    ensures
        search_results_mapped(images@, min_width, min_height, r@),
{
    let ghost all = images@;
    let mut pending = images;
    let mut r: Vec<RemoteWallpaper> = Vec::new();
    while pending.len() > 0
        invariant
            pending.len() <= all.len(),
            pending@ == all.subrange(all.len() - pending.len(), all.len() as int),
            search_results_mapped(all.take(all.len() - pending.len()), min_width, min_height, r@),
        decreases pending.len(),
    {
        let ghost n = all.len() - pending.len();
        let image = pending.remove(0);
        assert(image == all[n]);
        assert(all.take(n + 1).drop_last() =~= all.take(n));
        let ghost before = r@;
        match map_image(image, min_width, min_height) {
            Some(w) => {
                r.push(w);
                assert(r@.drop_last() =~= before);
            },
            None => {},
        }
        assert(pending@ =~= all.subrange(all.len() - pending.len(), all.len() as int));
    }
    assert(all.take(all.len() as int) =~= all);
    r
}

/// Openverse ids are non-empty and made of hex digits and dashes.
pub open spec fn spec_valid_id(id: Seq<char>) -> bool {
    id.len() > 0 && forall|i: int|
        0 <= i < id.len() ==> (is_ascii_hexdigit(#[trigger] id[i]) || id[i] == '-')
}

/// Restricts detail URLs and cache filenames to Openverse UUID-like identifiers.
pub fn valid_id(remote_id: &str) -> (b: bool)
    ensures
        b == spec_valid_id(remote_id@),
{
    let v = chars_of(remote_id);
    if v.len() == 0 {
        return false;
    }
    let mut i: usize = 0;
    while i < v.len()
        invariant
            i <= v.len(),
            v@ == remote_id@,
            forall|k: int| 0 <= k < i ==> (is_ascii_hexdigit(#[trigger] v@[k]) || v@[k] == '-'),
        decreases v.len() - i,
    {
        if !(char_is_ascii_hexdigit(v[i]) || v[i] == '-') {
            assert(!(is_ascii_hexdigit(remote_id@[i as int]) || remote_id@[i as int] == '-'));
            return false;
        }
        i += 1;
    }
    true
}

/// The search text used when the caller gave no keyword.
pub open spec fn spec_category_query(c: WallpaperCategory) -> Result<Seq<char>, Seq<char>> {
    match c {
        WallpaperCategory::Nature => Ok("nature landscape"@),
        WallpaperCategory::Anime => Ok("anime illustration"@),
        WallpaperCategory::Games => Ok("video game artwork"@),
        WallpaperCategory::People => Ok("people portrait"@),
        WallpaperCategory::All => Ok("wallpaper landscape"@),
        WallpaperCategory::Local => Err("the local category must use LocalProvider"@),
    }
}

/// The keyword list of a query: the expanded keyword, if any.
pub open spec fn query_keywords(keyword: Option<String>) -> Seq<Seq<char>> {
    match keyword {
        Some(k) => spec_provider_keywords(k@),
        None => Seq::empty(),
    }
}

/// The search term: the English alias when there is one, else the keyword, else the category's.
pub open spec fn spec_search_term(q: WallpaperQuery) -> Result<Seq<char>, Seq<char>> {
    let keywords = query_keywords(q.keyword);
    if keywords.len() > 0 {
        Ok(keywords.last())
    } else {
        spec_category_query(q.category)
    }
}

/// The query-string parameters of an Openverse search, or why the query is refused.
pub open spec fn spec_openverse_parameters(q: WallpaperQuery) -> Result<
    Seq<(Seq<char>, Seq<char>)>,
    Seq<char>,
> {
    if !is_sfw(q.safety@) {
        Err("Openverse requests are restricted to SFW results"@)
    } else {
        match spec_search_term(q) {
            Err(m) => Err(m),
            Ok(term) => Ok(
                seq![
                    ("q"@, term),
                    ("page"@, spec_decimal(first_page(q.page))),
                    ("page_size"@, spec_decimal(clamp(q.page_size, 1, 40))),
                    ("mature"@, "false"@),
                    ("size"@, "large"@),
                ],
            ),
        }
    }
}

/// Expands a query's optional keyword.
pub fn expanded_keywords(keyword: &Option<String>) -> (r: Vec<String>)
    ensures
        string_views(r@) == query_keywords(*keyword),
{
    match keyword {
        Some(k) => provider_keywords(k.as_str()),
        None => {
            let r: Vec<String> = Vec::new();
            assert(string_views(r@) =~= Seq::<Seq<char>>::empty());
            r
        },
    }
}

fn pair(name: &str, value: String) -> (p: (String, String))
    ensures
        p.0@ == name@,
        p.1@ == value@,
{
    (name.to_string(), value)
}

/// Maps the common query into Openverse parameters.
pub fn openverse_parameters(query: &WallpaperQuery) -> (r: AppResult<Vec<(String, String)>>)
    ensures
        match spec_openverse_parameters(*query) {
            Ok(ps) => r matches Ok(v) && pair_views(v@) == ps,
            Err(message) => r matches Err(AppError::Provider(m)) && m@ == message,
        },
{
    if !safety_is_sfw(query.safety.as_str()) {
        return Err(
            AppError::Provider("Openverse requests are restricted to SFW results".to_string()),
        );
    }
    let mut keywords = expanded_keywords(&query.keyword);
    let term: String = if keywords.len() > 0 {
        let last = keywords.pop().unwrap();
        last
    } else {
        let fallback: &str = match query.category {
            WallpaperCategory::Nature => "nature landscape",
            WallpaperCategory::Anime => "anime illustration",
            WallpaperCategory::Games => "video game artwork",
            WallpaperCategory::People => "people portrait",
            WallpaperCategory::All => "wallpaper landscape",
            WallpaperCategory::Local => {
                return Err(
                    AppError::Provider("the local category must use LocalProvider".to_string()),
                );
            },
        };
        fallback.to_string()
    };
    let page: u32 = if query.page < 1 {
        1
    } else {
        query.page
    };
    let page_size: u32 = if query.page_size < 1 {
        1
    } else if query.page_size > 40 {
        40
    } else {
        query.page_size
    };
    let mut r: Vec<(String, String)> = Vec::new();
    r.push(pair("q", term));
    r.push(pair("page", decimal(page as u64)));
    r.push(pair("page_size", decimal(page_size as u64)));
    r.push(pair("mature", "false".to_string()));
    r.push(pair("size", "large".to_string()));
    assert(pair_views(r@) =~= spec_openverse_parameters(*query)->Ok_0);
    Ok(r)
}

} // verus!
