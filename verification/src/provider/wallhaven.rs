//! Wallhaven: request parameters, metadata mapping and download boundaries.
use vstd::prelude::*;

use crate::error::{AppError, AppResult};
use crate::image_processing::{dimensions_text, spec_dimensions_text};
use crate::provider::{
    blank, first_page, is_blank, is_sfw, pair_views, replace_char, replace_chars, safety_is_sfw,
    RemoteWallpaper, WallpaperCategory, WallpaperQuery, WallpaperSort,
};
use crate::text::{
    ascii_lowercase, char_is_ascii_alphanumeric, chars_of, decimal, ends_with, is_ascii_alphanumeric,
    spec_ascii_lowercase, spec_decimal, spec_ends_with, str_eq,
};

verus! {

/// The listing fields of one Wallhaven search result.
pub struct WallhavenListing {
    pub id: String,
    pub url: String,
    pub purity: String,
    pub category: String,
    pub dimension_x: u32,
    pub dimension_y: u32,
    pub resolution: String,
    pub ratio: String,
    pub file_size: i64,
    pub file_type: String,
    pub created_at: String,
    pub path: String,
    pub thumbs_large: String,
}

/// A Wallhaven detail response: the listing plus its tag names.
pub struct WallhavenDetail {
    pub listing: WallhavenListing,
    pub tags: Vec<String>,
}

/// Category flags and the keyword used when the caller gave none.
pub open spec fn spec_category_flags(c: WallpaperCategory) -> Result<
    (Seq<char>, Option<Seq<char>>),
    Seq<char>,
> {
    match c {
        WallpaperCategory::All => Ok(("111"@, None)),
        WallpaperCategory::Nature => Ok(("100"@, Some("nature"@))),
        WallpaperCategory::Anime => Ok(("010"@, None)),
        WallpaperCategory::Games => Ok(("111"@, None)),
        WallpaperCategory::People => Ok(("001"@, None)),
        WallpaperCategory::Local => Err("the local category must use LocalProvider"@),
    }
}

/// Wallhaven's sorting flag.
pub open spec fn spec_sorting(s: WallpaperSort) -> Seq<char> {
    match s {
        WallpaperSort::Latest => "date_added"@,
        WallpaperSort::Popular => "toplist"@,
        WallpaperSort::Random => "random"@,
    }
}

/// The keyword actually searched: the caller's, or the category's when the caller's is empty.
pub open spec fn effective_keyword(keyword: Option<String>, fallback: Option<Seq<char>>) -> Option<
    Seq<char>,
> {
    match keyword {
        Some(k) => if k@.len() > 0 {
            Some(k@)
        } else {
            fallback
        },
        None => fallback,
    }
}

/// The query-string parameters of a Wallhaven search, or why the query is refused.
pub open spec fn spec_wallhaven_parameters(q: WallpaperQuery) -> Result<
    Seq<(Seq<char>, Seq<char>)>,
    Seq<char>,
> {
    if !is_sfw(q.safety@) {
        Err("V1 only permits SFW Wallhaven requests"@)
    } else {
        match spec_category_flags(q.category) {
            Err(m) => Err(m),
            Ok(flags) => {
                let base = seq![
                    ("categories"@, flags.0),
                    ("purity"@, "100"@),
                    ("sorting"@, spec_sorting(q.sort)),
                    ("order"@, "desc"@),
                    ("atleast"@, spec_dimensions_text(q.min_width as nat, q.min_height as nat)),
                    ("page"@, spec_decimal(first_page(q.page))),
                ];
                let with_keyword = match effective_keyword(q.keyword, flags.1) {
                    Some(k) => if !is_blank(k) {
                        base.push(("q"@, k))
                    } else {
                        base
                    },
                    None => base,
                };
                match q.aspect_ratio {
                    Some(r) => if !is_blank(r@) {
                        Ok(with_keyword.push(("ratios"@, replace_char(r@, ':', 'x'))))
                    } else {
                        Ok(with_keyword)
                    },
                    None => Ok(with_keyword),
                }
            },
        }
    }
}

fn pair(name: &str, value: String) -> (p: (String, String))
    ensures
        p.0@ == name@,
        p.1@ == value@,
{
    (name.to_string(), value)
}

/// Maps the stable product query into Wallhaven's flags.
pub fn wallhaven_parameters(query: &WallpaperQuery) -> (r: AppResult<Vec<(String, String)>>)
    ensures
        match spec_wallhaven_parameters(*query) {
            Ok(ps) => r matches Ok(v) && pair_views(v@) == ps,
            Err(message) => r matches Err(AppError::Provider(m)) && m@ == message,
        },
{
    if !safety_is_sfw(query.safety.as_str()) {
        return Err(AppError::Provider("V1 only permits SFW Wallhaven requests".to_string()));
    }
    let (categories, category_keyword): (&str, Option<&str>) = match query.category {
        WallpaperCategory::All => ("111", None),
        WallpaperCategory::Nature => ("100", Some("nature")),
        WallpaperCategory::Anime => ("010", None),
        WallpaperCategory::Games => ("111", None),
        WallpaperCategory::People => ("001", None),
        WallpaperCategory::Local => {
            return Err(
                AppError::Provider("the local category must use LocalProvider".to_string()),
            );
        },
    };
    let sorting: &str = match query.sort {
        WallpaperSort::Latest => "date_added",
        WallpaperSort::Popular => "toplist",
        WallpaperSort::Random => "random",
    };
    let page: u32 = if query.page < 1 {
        1
    } else {
        query.page
    };
    let mut parameters: Vec<(String, String)> = Vec::new();
    parameters.push(pair("categories", categories.to_string()));
    parameters.push(pair("purity", "100".to_string()));
    parameters.push(pair("sorting", sorting.to_string()));
    parameters.push(pair("order", "desc".to_string()));
    parameters.push(pair("atleast", dimensions_text(query.min_width, query.min_height)));
    parameters.push(pair("page", decimal(page as u64)));
    let ghost base = pair_views(parameters@);
    let keyword: Option<String> = match &query.keyword {
        Some(k) => {
            if k.as_str().is_empty() {
                match category_keyword {
                    Some(c) => Some(c.to_string()),
                    None => None,
                }
            } else {
                Some(k.clone())
            }
        },
        None => match category_keyword {
            Some(c) => Some(c.to_string()),
            None => None,
        },
    };
    match keyword {
        Some(k) => {
            if !blank(k.as_str()) {
                parameters.push(pair("q", k));
            }
        },
        None => {},
    }
    let ghost with_keyword = pair_views(parameters@);
    match &query.aspect_ratio {
        Some(ratio) => {
            if !blank(ratio.as_str()) {
                parameters.push(pair("ratios", replace_chars(ratio.as_str(), ':', 'x')));
            }
        },
        None => {},
    }
    proof {
        let flags = spec_category_flags(query.category)->Ok_0;
        assert(base =~= seq![
            ("categories"@, flags.0),
            ("purity"@, "100"@),
            ("sorting"@, spec_sorting(query.sort)),
            ("order"@, "desc"@),
            ("atleast"@, spec_dimensions_text(query.min_width as nat, query.min_height as nat)),
            ("page"@, spec_decimal(first_page(query.page))),
        ]);
    }
    assert(pair_views(parameters@) == spec_wallhaven_parameters(*query)->Ok_0) by {
        let flags = spec_category_flags(query.category)->Ok_0;
        let k = effective_keyword(query.keyword, flags.1);
        if k is Some && !is_blank(k->0) {
            assert(with_keyword =~= base.push(("q"@, k->0)));
        } else {
            assert(with_keyword =~= base);
        }
        match query.aspect_ratio {
            Some(r) => {
                if !is_blank(r@) {
                    assert(pair_views(parameters@) =~= with_keyword.push(
                        ("ratios"@, replace_char(r@, ':', 'x')),
                    ));
                } else {
                    assert(pair_views(parameters@) =~= with_keyword);
                }
            },
            None => {
                assert(pair_views(parameters@) =~= with_keyword);
            },
        }
    }
    Ok(parameters)
}

/// How many listings of a page are kept: the page size clamped into `[1, 24]`.
pub fn wallhaven_result_limit(page_size: u32) -> (n: usize)
    ensures
        n == crate::provider::clamp(page_size, 1, 24),
{
    if page_size < 1 {
        1
    } else if page_size > 24 {
        24
    } else {
        page_size as usize
    }
}

/// Wallhaven's public identifier shape: non-empty and ASCII alphanumeric.
pub open spec fn spec_valid_remote_id(value: Seq<char>) -> bool {
    value.len() > 0 && forall|i: int| 0 <= i < value.len() ==> is_ascii_alphanumeric(#[trigger] value[i])
}

/// Restricts ids used in URLs and file names to Wallhaven's public identifier shape.
pub fn valid_remote_id(value: &str) -> (b: bool)
    ensures
        b == spec_valid_remote_id(value@),
{
    let v = chars_of(value);
    if v.len() == 0 {
        return false;
    }
    let mut i: usize = 0;
    while i < v.len()
        invariant
            i <= v.len(),
            v@ == value@,
            forall|k: int| 0 <= k < i ==> is_ascii_alphanumeric(#[trigger] v@[k]),
        decreases v.len() - i,
    {
        if !char_is_ascii_alphanumeric(v[i]) {
            assert(!is_ascii_alphanumeric(value@[i as int]));
            return false;
        }
        i += 1;
    }
    true
}

/// The extension of a Wallhaven original: trusted MIME metadata, then the URL's ending.
pub open spec fn spec_file_extension(mime_type: Option<Seq<char>>, url: Seq<char>) -> Seq<char> {
    let lowered = spec_ascii_lowercase(url);
    if mime_type == Some("image/png"@) {
        "png"@
    } else if mime_type == Some("image/webp"@) {
        "webp"@
    } else if spec_ends_with(lowered, ".png"@) {
        "png"@
    } else if spec_ends_with(lowered, ".webp"@) {
        "webp"@
    } else {
        "jpg"@
    }
}

/// Chooses an extension from trusted metadata with the URL as a compatibility fallback.
pub fn file_extension(mime_type: Option<&str>, url: &str) -> (e: &'static str)
    ensures
        e@ == spec_file_extension(crate::provider::download::opt_view(mime_type), url@),
{
    match mime_type {
        Some(m) => {
            if str_eq(m, "image/png") {
                return "png";
            }
            if str_eq(m, "image/webp") {
                return "webp";
            }
        },
        None => {},
    }
    let lowered = ascii_lowercase(&chars_of(url));
    if ends_with(&lowered, &chars_of(".png")) {
        "png"
    } else if ends_with(&lowered, &chars_of(".webp")) {
        "webp"
    } else {
        "jpg"
    }
}

/// Whether the bytes start with `prefix`.
pub open spec fn bytes_start_with(bytes: Seq<u8>, prefix: Seq<u8>) -> bool {
    prefix.len() <= bytes.len() && bytes.take(prefix.len() as int) == prefix
}

/// JPEG, PNG or WebP magic bytes.
pub open spec fn spec_supported_signature(bytes: Seq<u8>) -> bool {
    ||| bytes_start_with(bytes, seq![0xFFu8, 0xD8u8, 0xFFu8])
    ||| bytes_start_with(bytes, seq![0x89u8, 0x50u8, 0x4Eu8, 0x47u8, 0x0Du8, 0x0Au8, 0x1Au8, 0x0Au8])
    ||| (bytes_start_with(bytes, seq![0x52u8, 0x49u8, 0x46u8, 0x46u8]) && bytes.len() >= 12
        && bytes.subrange(8, 12) == seq![0x57u8, 0x45u8, 0x42u8, 0x50u8])
}

pub(crate) fn starts_with_bytes(bytes: &[u8], prefix: &[u8]) -> (b: bool)
    ensures
        b == bytes_start_with(bytes@, prefix@),
{
    if prefix.len() > bytes.len() {
        return false;
    }
    let mut i: usize = 0;
    while i < prefix.len()
        invariant
            i <= prefix.len() <= bytes.len(),
            forall|k: int| 0 <= k < i ==> bytes@[k] == prefix@[k],
        decreases prefix.len() - i,
    {
        if bytes[i] != prefix[i] {
            assert(bytes@.take(prefix@.len() as int)[i as int] != prefix@[i as int]);
            return false;
        }
        i += 1;
    }
    assert(bytes@.take(prefix@.len() as int) =~= prefix@);
    true
}

/// Rejects HTML error pages even if a provider endpoint returns HTTP success.
pub fn has_supported_image_signature(bytes: &[u8]) -> (b: bool)
    ensures
        b == spec_supported_signature(bytes@),
{
    let jpeg: [u8; 3] = [0xFF, 0xD8, 0xFF];
    let png: [u8; 8] = [0x89, 0x50, 0x4E, 0x47, 0x0D, 0x0A, 0x1A, 0x0A];
    let riff: [u8; 4] = [0x52, 0x49, 0x46, 0x46];
    assert(jpeg@ =~= seq![0xFFu8, 0xD8u8, 0xFFu8]);
    assert(png@ =~= seq![0x89u8, 0x50u8, 0x4Eu8, 0x47u8, 0x0Du8, 0x0Au8, 0x1Au8, 0x0Au8]);
    assert(riff@ =~= seq![0x52u8, 0x49u8, 0x46u8, 0x46u8]);
    if starts_with_bytes(bytes, jpeg.as_slice()) {
        return true;
    }
    if starts_with_bytes(bytes, png.as_slice()) {
        return true;
    }
    if !starts_with_bytes(bytes, riff.as_slice()) {
        return false;
    }
    if bytes.len() < 12 {
        return false;
    }
    let webp = bytes[8] == 0x57 && bytes[9] == 0x45 && bytes[10] == 0x42 && bytes[11] == 0x50;
    if webp {
        assert(bytes@.subrange(8, 12) =~= seq![0x57u8, 0x45u8, 0x42u8, 0x50u8]);
    } else {
        assert(bytes@.subrange(8, 12) != seq![0x57u8, 0x45u8, 0x42u8, 0x50u8]) by {
            if bytes@.subrange(8, 12) == seq![0x57u8, 0x45u8, 0x42u8, 0x50u8] {
                assert(bytes@.subrange(8, 12)[0] == bytes@[8]);
                assert(bytes@.subrange(8, 12)[1] == bytes@[9]);
                assert(bytes@.subrange(8, 12)[2] == bytes@[10]);
                assert(bytes@.subrange(8, 12)[3] == bytes@[11]);
            }
        }
    }
    webp
}

/// `w` is the provider-neutral record of listing `v` (tags not yet loaded).
pub open spec fn listing_mapped(v: WallhavenListing, w: RemoteWallpaper) -> bool {
    &&& w.name@ == "Wallhaven "@ + v.id@
    &&& w.remote_id == v.id
    &&& w.provider@ == "wallhaven"@
    &&& w.source_page_url == Some(v.url)
    &&& w.original_url == Some(v.path)
    &&& w.thumbnail_url == Some(v.thumbs_large)
    &&& w.thumbnail_local_path is None
    &&& w.local_path is None
    &&& w.width == Some(v.dimension_x)
    &&& w.height == Some(v.dimension_y)
    &&& w.resolution == Some(v.resolution)
    &&& w.ratio == Some(v.ratio)
    &&& w.file_size == Some(v.file_size)
    &&& w.mime_type == Some(v.file_type)
    &&& w.category == v.category
    &&& w.purity == v.purity
    &&& w.created_at == Some(v.created_at)
    &&& w.author is None
    &&& w.license_name is None
    &&& w.license_url is None
    &&& w.perceptual_hash is None
}

/// Converts Wallhaven listing fields into the provider-neutral record.
pub fn map_listing(value: WallhavenListing) -> (w: RemoteWallpaper)
    ensures
        listing_mapped(value, w),
        w.tags@.len() == 0,
{
    let mut name = String::from_str("Wallhaven ");
    name.append(value.id.as_str());
    RemoteWallpaper {
        remote_id: value.id,
        provider: "wallhaven".to_string(),
        name,
        source_page_url: Some(value.url),
        original_url: Some(value.path),
        thumbnail_url: Some(value.thumbs_large),
        thumbnail_local_path: None,
        local_path: None,
        width: Some(value.dimension_x),
        height: Some(value.dimension_y),
        resolution: Some(value.resolution),
        ratio: Some(value.ratio),
        file_size: Some(value.file_size),
        mime_type: Some(value.file_type),
        category: value.category,
        purity: value.purity,
        tags: Vec::new(),
        created_at: Some(value.created_at),
        author: None,
        license_name: None,
        license_url: None,
        perceptual_hash: None,
    }
}

/// The records of a search page: the first `limit` listings, mapped in order.
pub open spec fn search_page_mapped(
    listings: Seq<WallhavenListing>,
    limit: nat,
    r: Seq<RemoteWallpaper>,
) -> bool {
    &&& r.len() == (if listings.len() < limit {
        listings.len()
    } else {
        limit
    })
    &&& forall|k: int|
        0 <= k < r.len() ==> listing_mapped(listings[k], #[trigger] r[k]) && r[k].tags@.len() == 0
}

/// Keeps at most the clamped page size of listings, mapping each one.
pub fn map_search_page(listings: Vec<WallhavenListing>, page_size: u32) -> (r: Vec<RemoteWallpaper>)
    ensures
        search_page_mapped(listings@, crate::provider::clamp(page_size, 1, 24) as nat, r@),
{
    let limit = wallhaven_result_limit(page_size);
    let ghost all = listings@;
    let mut pending = listings;
    let mut r: Vec<RemoteWallpaper> = Vec::new();
    while pending.len() > 0 && r.len() < limit
        invariant
            pending.len() <= all.len(),
            r.len() == all.len() - pending.len(),
            r.len() <= limit,
            pending@ == all.subrange(all.len() - pending.len(), all.len() as int),
            forall|k: int|
                0 <= k < r.len() ==> listing_mapped(all[k], #[trigger] r@[k]) && r@[k].tags@.len()
                    == 0,
        decreases pending.len(),
    {
        let listing = pending.remove(0);
        assert(listing == all[r.len() as int]);
        let w = map_listing(listing);
        r.push(w);
        assert(pending@ =~= all.subrange(all.len() - pending.len(), all.len() as int));
    }
    r
}

/// Preserves listing mapping while adding detail-only tag metadata.
pub fn map_detail(value: WallhavenDetail) -> (w: RemoteWallpaper)
    ensures
        listing_mapped(value.listing, w),
        w.tags == value.tags,
{
    let tags = value.tags;
    let mut wallpaper = map_listing(value.listing);
    wallpaper.tags = tags;
    wallpaper
}

/// Why a download is refused before any network access, if it is.
pub open spec fn spec_download_refusal(w: RemoteWallpaper) -> Option<Seq<char>> {
    if w.provider@ != "wallhaven"@ || !spec_valid_remote_id(w.remote_id@) {
        Some("wallpaper does not belong to WallhavenProvider"@)
    } else if w.original_url is None {
        Some("Wallhaven metadata did not include an original URL"@)
    } else if !crate::text::spec_starts_with(w.original_url->0@, "https://"@) {
        Some("Wallhaven downloads require an HTTPS URL"@)
    } else {
        None
    }
}

/// Checks that a wallpaper can be downloaded by this adapter and returns its original URL.
pub fn download_url(wallpaper: &RemoteWallpaper) -> (r: AppResult<&String>)
    ensures
        match spec_download_refusal(*wallpaper) {
            Some(message) => r matches Err(AppError::Provider(m)) && m@ == message,
            None => r matches Ok(u) && Some(*u) == wallpaper.original_url,
        },
{
    if !str_eq(wallpaper.provider.as_str(), "wallhaven") || !valid_remote_id(
        wallpaper.remote_id.as_str(),
    ) {
        return Err(
            AppError::Provider("wallpaper does not belong to WallhavenProvider".to_string()),
        );
    }
    match &wallpaper.original_url {
        None => Err(
            AppError::Provider("Wallhaven metadata did not include an original URL".to_string()),
        ),
        Some(url) => {
            if crate::text::str_starts_with(url.as_str(), "https://") {
                Ok(url)
            } else {
                Err(AppError::Provider("Wallhaven downloads require an HTTPS URL".to_string()))
            }
        },
    }
}

/// Every accepted Wallhaven search names its sort in the `sorting` parameter:
/// the latest uploads are `date_added`, the popular view is Wallhaven's
/// `toplist`, and random is `random`; two searches with different sorts never
/// send the same sorting.
pub proof fn wallhaven_sorting_names_the_sort(q: WallpaperQuery, other: WallpaperQuery)
    ensures
        spec_wallhaven_parameters(q) matches Ok(ps) ==> {
            &&& ps.len() >= 3
            &&& ps[2].0 == "sorting"@
            &&& ps[2].1 == match q.sort {
                WallpaperSort::Latest => "date_added"@,
                WallpaperSort::Popular => "toplist"@,
                WallpaperSort::Random => "random"@,
            }
        },
        spec_wallhaven_parameters(q) is Ok && spec_wallhaven_parameters(other) is Ok && q.sort
            != other.sort ==> spec_wallhaven_parameters(q)->Ok_0[2].1 != spec_wallhaven_parameters(
            other,
        )->Ok_0[2].1,
{
    reveal_strlit("date_added");
    reveal_strlit("toplist");
    reveal_strlit("random");
    assert("date_added"@.len() == 10 && "toplist"@.len() == 7 && "random"@.len() == 6);
}

} // verus!

