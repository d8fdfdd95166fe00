//! Wikimedia Commons: search parameters, attribution-preserving metadata mapping
//! and the small HTML cleanup applied to `extmetadata` values.
use vstd::prelude::*;

use crate::error::{AppError, AppResult};
use crate::image_processing::{
    dimensions_text, reduced_aspect_ratio, spec_dimensions_text, spec_ratio_label,
};
use crate::provider::wallhaven::{file_extension, spec_file_extension};
use crate::provider::{
    clamp, first_page, metadata_matches_keyword, pair_views, spec_metadata_matches, string_views,
    RemoteWallpaper, WallpaperQuery, WallpaperSort,
};
use crate::text::{
    chars_of, decimal, push_char, signed_decimal, spec_decimal, spec_signed_decimal,
    spec_starts_with, spec_trim, str_eq, string_from_chars, trim_chars,
};

verus! {

/// One `imageinfo` entry of a Commons page.
pub struct CommonsImageInfo {
    pub url: String,
    pub descriptionurl: String,
    pub thumburl: Option<String>,
    pub width: u32,
    pub height: u32,
    pub size: i64,
    pub mime: String,
    pub timestamp: Option<String>,
    pub user: Option<String>,
    /// `extmetadata` entries as (key, value) pairs.
    pub extmetadata: Vec<(String, String)>,
}

/// One File-namespace page of a Commons search.
pub struct CommonsPage {
    pub pageid: i64,
    pub title: String,
    pub imageinfo: Vec<CommonsImageInfo>,
}

// ---------------------------------------------------------------------------
// HTML cleanup
// ---------------------------------------------------------------------------

/// Scans a text, dropping everything between `<` and `>`; also reports whether
/// the scan ends inside a tag.
pub open spec fn strip_scan(s: Seq<char>) -> (Seq<char>, bool)
    decreases s.len(),
{
    if s.len() == 0 {
        (Seq::empty(), false)
    } else {
        let (out, inside) = strip_scan(s.drop_last());
        let c = s.last();
        if c == '<' {
            (out, true)
        } else if c == '>' {
            (out, false)
        } else if !inside {
            (out.push(c), false)
        } else {
            (out, true)
        }
    }
}

/// The text outside markup tags, trimmed.
pub open spec fn spec_strip_html(s: Seq<char>) -> Seq<char> {
    spec_trim(strip_scan(s).0)
}

/// Removes simple HTML markup emitted by extmetadata without rendering remote content.
pub fn strip_html(value: &str) -> (r: String)
    ensures
        r@ == spec_strip_html(value@),
{
    let v = chars_of(value);
    let mut out: Vec<char> = Vec::new();
    let mut inside_tag = false;
    let mut i: usize = 0;
    while i < v.len()
        invariant
            i <= v.len(),
            v@ == value@,
            (out@, inside_tag) == strip_scan(v@.take(i as int)),
        decreases v.len() - i,
    {
        let c = v[i];
        assert(v@.take(i + 1).drop_last() =~= v@.take(i as int));
        if c == '<' {
            inside_tag = true;
        } else if c == '>' {
            inside_tag = false;
        } else if !inside_tag {
            out.push(c);
        }
        i += 1;
    }
    assert(v@.take(v.len() as int) =~= v@);
    string_from_chars(&trim_chars(&out))
}

// ---------------------------------------------------------------------------
// Category tags
// ---------------------------------------------------------------------------

/// `str::split` on one separator character: always at least one part.
pub open spec fn spec_split(s: Seq<char>, sep: char) -> Seq<Seq<char>>
    decreases s.len(),
{
    if s.len() == 0 {
        seq![Seq::empty()]
    } else {
        let parts = spec_split(s.drop_last(), sep);
        if s.last() == sep {
            parts.push(Seq::empty())
        } else {
            parts.update(parts.len() - 1, parts.last().push(s.last()))
        }
    }
}

pub proof fn lemma_split_nonempty(s: Seq<char>, sep: char)
    ensures
        spec_split(s, sep).len() >= 1,
    decreases s.len(),
{
    if s.len() > 0 {
        lemma_split_nonempty(s.drop_last(), sep);
    }
}

/// The trimmed parts that are not blank, in order.
pub open spec fn trimmed_nonblank(parts: Seq<Seq<char>>) -> Seq<Seq<char>>
    decreases parts.len(),
{
    if parts.len() == 0 {
        Seq::empty()
    } else {
        let rest = trimmed_nonblank(parts.drop_last());
        if spec_trim(parts.last()).len() > 0 {
            rest.push(spec_trim(parts.last()))
        } else {
            rest
        }
    }
}

/// At most the first `n` items.
pub open spec fn at_most<T>(s: Seq<T>, n: nat) -> Seq<T> {
    if s.len() > n {
        s.take(n as int)
    } else {
        s
    }
}

/// Commons categories become tags: split on `|`, trimmed, blanks dropped, at most 20.
pub open spec fn spec_category_tags(categories: Seq<char>) -> Seq<Seq<char>> {
    at_most(trimmed_nonblank(spec_split(categories, '|')), 20)
}

/// Splits a `|`-separated category list into at most twenty trimmed tags.
pub fn category_tags(categories: &str) -> (r: Vec<String>)
    ensures
        string_views(r@) == spec_category_tags(categories@),
{
    let v = chars_of(categories);
    let mut kept: Vec<String> = Vec::new();
    let mut current: Vec<char> = Vec::new();
    let mut i: usize = 0;
    while i < v.len()
        invariant
            i <= v.len(),
            v@ == categories@,
            spec_split(v@.take(i as int), '|').len() >= 1,
            string_views(kept@) == trimmed_nonblank(spec_split(v@.take(i as int), '|').drop_last()),
            current@ == spec_split(v@.take(i as int), '|').last(),
        decreases v.len() - i,
    {
        let c = v[i];
        let ghost before = spec_split(v@.take(i as int), '|');
        assert(v@.take(i + 1).drop_last() =~= v@.take(i as int));
        if c == '|' {
            let part = trim_chars(&current);
            if part.len() > 0 {
                kept.push(string_from_chars(&part));
            }
            current = Vec::new();
            proof {
                let after = spec_split(v@.take(i + 1), '|');
                assert(after == before.push(Seq::empty()));
                assert(after.drop_last() =~= before);
                assert(before.drop_last() =~= before.take(before.len() - 1));
                assert(string_views(kept@) =~= trimmed_nonblank(before));
                assert(current@ =~= after.last());
            }
        } else {
            current.push(c);
            proof {
                let after = spec_split(v@.take(i + 1), '|');
                assert(after.drop_last() =~= before.drop_last());
                assert(current@ =~= after.last());
            }
        }
        i += 1;
        proof {
            lemma_split_nonempty(v@.take(i as int), '|');
        }
    }
    assert(v@.take(v.len() as int) =~= v@);
    let ghost parts = spec_split(categories@, '|');
    let part = trim_chars(&current);
    if part.len() > 0 {
        kept.push(string_from_chars(&part));
    }
    assert(parts.drop_last().push(parts.last()) =~= parts);
    assert(string_views(kept@) =~= trimmed_nonblank(parts));
    if kept.len() > 20 {
        kept.truncate(20);
    }
    assert(string_views(kept@) =~= spec_category_tags(categories@));
    kept
}

// ---------------------------------------------------------------------------
// Page mapping
// ---------------------------------------------------------------------------

/// The value stored under `key` in (key, value) entries: the first match.
pub open spec fn lookup(entries: Seq<(Seq<char>, Seq<char>)>, key: Seq<char>) -> Option<Seq<char>>
    decreases entries.len(),
{
    if entries.len() == 0 {
        None
    } else if entries[0].0 == key {
        Some(entries[0].1)
    } else {
        lookup(entries.drop_first(), key)
    }
}

/// A metadata value with markup removed, absent when missing or empty.
pub open spec fn spec_metadata(entries: Seq<(Seq<char>, Seq<char>)>, key: Seq<char>) -> Option<
    Seq<char>,
> {
    match lookup(entries, key) {
        Some(v) => if spec_strip_html(v).len() > 0 {
            Some(spec_strip_html(v))
        } else {
            None
        },
        None => None,
    }
}

fn metadata(entries: &Vec<(String, String)>, key: &str) -> (r: Option<String>)
    ensures
        match spec_metadata(pair_views(entries@), key@) {
            Some(v) => r matches Some(s) && s@ == v,
            None => r is None,
        },
{
    let ghost ev = pair_views(entries@);
    assert(ev.skip(0) =~= ev);
    let mut i: usize = 0;
    while i < entries.len()
        invariant
            i <= entries.len(),
            ev == pair_views(entries@),
            lookup(ev, key@) == lookup(ev.skip(i as int), key@),
        decreases entries.len() - i,
    {
        assert(ev.skip(i as int).drop_first() =~= ev.skip(i + 1));
        if str_eq(entries[i].0.as_str(), key) {
            let cleaned = strip_html(entries[i].1.as_str());
            if cleaned.as_str().is_empty() {
                return None;
            }
            return Some(cleaned);
        }
        i += 1;
    }
    None
}

/// The page title without its `File:` namespace prefix.
pub open spec fn spec_title(title: Seq<char>) -> Seq<char> {
    if spec_starts_with(title, "File:"@) {
        title.skip(5)
    } else {
        title
    }
}

fn strip_file_prefix(title: &str) -> (r: String)
    ensures
        r@ == spec_title(title@),
{
    let v = chars_of(title);
    let prefix = chars_of("File:");
    if crate::text::starts_with(&v, &prefix) {
        proof {
            reveal_strlit("File:");
        }
        string_from_chars(&crate::text::slice_chars(&v, 5, v.len()))
    } else {
        title.to_string()
    }
}

/// MIME types of the raster formats this provider accepts.
pub open spec fn supported_mime(mime: Seq<char>) -> bool {
    mime == "image/jpeg"@ || mime == "image/png"@ || mime == "image/webp"@
}

/// Whether a page is kept, and the record it becomes.
pub open spec fn page_mapped(
    page: CommonsPage,
    min_width: u32,
    min_height: u32,
    r: Option<RemoteWallpaper>,
) -> bool {
    if page.imageinfo@.len() == 0 {
        r is None
    } else {
        let info = page.imageinfo@[0];
        let meta = pair_views(info.extmetadata@);
        if info.width < min_width || info.height < min_height || !supported_mime(info.mime@) {
            r is None
        } else {
            r matches Some(w) && {
                &&& w.remote_id@ == spec_signed_decimal(page.pageid as int)
                &&& w.provider@ == "wikimedia_commons"@
                &&& w.name@ == match spec_metadata(meta, "ImageDescription"@) {
                    Some(d) => d,
                    None => spec_title(page.title@),
                }
                &&& w.source_page_url == Some(info.descriptionurl)
                &&& w.original_url == Some(info.url)
                &&& w.thumbnail_url == info.thumburl
                &&& w.thumbnail_local_path is None
                &&& w.local_path is None
                &&& w.width == Some(info.width)
                &&& w.height == Some(info.height)
                &&& w.resolution matches Some(t) && t@ == spec_dimensions_text(
                    info.width as nat,
                    info.height as nat,
                )
                &&& w.ratio matches Some(t) && t@ == spec_ratio_label(
                    info.width as nat,
                    info.height as nat,
                )
                &&& w.file_size == Some(info.size)
                &&& w.mime_type == Some(info.mime)
                &&& w.category@ == "nature"@
                &&& w.purity@ == "sfw"@
                &&& string_views(w.tags@) == match spec_metadata(meta, "Categories"@) {
                    Some(c) => spec_category_tags(c),
                    None => Seq::empty(),
                }
                &&& w.created_at == info.timestamp
                &&& match spec_metadata(meta, "Artist"@) {
                    Some(a) => w.author matches Some(x) && x@ == a,
                    None => w.author == info.user,
                }
                &&& match spec_metadata(meta, "LicenseShortName"@) {
                    Some(l) => w.license_name matches Some(x) && x@ == l,
                    None => w.license_name is None,
                }
                &&& match spec_metadata(meta, "LicenseUrl"@) {
                    Some(l) => w.license_url matches Some(x) && x@ == l,
                    None => w.license_url is None,
                }
                &&& w.perceptual_hash is None
            }
        }
    }
}

/// Maps only supported raster formats and retains attribution required for lawful reuse.
pub fn map_page(page: CommonsPage, min_width: u32, min_height: u32) -> (r: Option<RemoteWallpaper>)
    ensures
        page_mapped(page, min_width, min_height, r),
{
    let ghost original = page;
    let CommonsPage { pageid, title, mut imageinfo } = page;
    if imageinfo.len() == 0 {
        return None;
    }
    let info = imageinfo.remove(0);
    assert(info == original.imageinfo@[0]);
    let mime_ok = str_eq(info.mime.as_str(), "image/jpeg") || str_eq(info.mime.as_str(), "image/png")
        || str_eq(info.mime.as_str(), "image/webp");
    if info.width < min_width || info.height < min_height || !mime_ok {
        return None;
    }
    let description = metadata(&info.extmetadata, "ImageDescription");
    let artist = metadata(&info.extmetadata, "Artist");
    let license_name = metadata(&info.extmetadata, "LicenseShortName");
    let license_url = metadata(&info.extmetadata, "LicenseUrl");
    let tags = match metadata(&info.extmetadata, "Categories") {
        Some(categories) => category_tags(categories.as_str()),
        None => {
            let none: Vec<String> = Vec::new();
            assert(string_views(none@) =~= Seq::<Seq<char>>::empty());
            none
        },
    };
    let name = match description {
        Some(d) => d,
        None => strip_file_prefix(title.as_str()),
    };
    let author = match artist {
        Some(a) => Some(a),
        None => info.user,
    };
    let resolution = dimensions_text(info.width, info.height);
    let ratio = reduced_aspect_ratio(info.width, info.height);
    Some(
        RemoteWallpaper {
            remote_id: signed_decimal(pageid),
            provider: "wikimedia_commons".to_string(),
            name,
            source_page_url: Some(info.descriptionurl),
            original_url: Some(info.url),
            thumbnail_url: info.thumburl,
            thumbnail_local_path: None,
            local_path: None,
            width: Some(info.width),
            height: Some(info.height),
            resolution: Some(resolution),
            ratio: Some(ratio),
            file_size: Some(info.size),
            mime_type: Some(info.mime),
            category: "nature".to_string(),
            purity: "sfw".to_string(),
            tags,
            created_at: info.timestamp,
            author,
            license_name,
            license_url,
            perceptual_hash: None,
        },
    )
}

/// The display name a kept page receives.
pub open spec fn page_name(page: CommonsPage) -> Seq<char> {
    let info = page.imageinfo@[0];
    match spec_metadata(pair_views(info.extmetadata@), "ImageDescription"@) {
        Some(d) => d,
        None => spec_title(page.title@),
    }
}

/// The tags a kept page receives.
pub open spec fn page_tags(page: CommonsPage) -> Seq<Seq<char>> {
    let info = page.imageinfo@[0];
    match spec_metadata(pair_views(info.extmetadata@), "Categories"@) {
        Some(c) => spec_category_tags(c),
        None => Seq::empty(),
    }
}

/// Whether a page passes the size and format filters and matches one of the keywords.
pub open spec fn page_kept(
    page: CommonsPage,
    min_width: u32,
    min_height: u32,
    keywords: Seq<Seq<char>>,
) -> bool {
    &&& page.imageinfo@.len() > 0
    &&& page.imageinfo@[0].width >= min_width
    &&& page.imageinfo@[0].height >= min_height
    &&& supported_mime(page.imageinfo@[0].mime@)
    &&& spec_metadata_matches(page_name(page), page_tags(page), keywords)
}

/// The records of a search page: every kept page, mapped, in order.
pub open spec fn search_results_mapped(
    pages: Seq<CommonsPage>,
    min_width: u32,
    min_height: u32,
    keywords: Seq<Seq<char>>,
    r: Seq<RemoteWallpaper>,
) -> bool
    decreases pages.len(),
{
    if pages.len() == 0 {
        r.len() == 0
    } else {
        let page = pages.last();
        if !page_kept(page, min_width, min_height, keywords) {
            search_results_mapped(pages.drop_last(), min_width, min_height, keywords, r)
        } else {
            r.len() > 0 && page_mapped(page, min_width, min_height, Some(r.last()))
                && search_results_mapped(
                pages.drop_last(),
                min_width,
                min_height,
                keywords,
                r.drop_last(),
            )
        }
    }
}

/// Maps a search page and keeps the records whose name or tags mention a keyword.
pub fn map_search_results(
    pages: Vec<CommonsPage>,
    min_width: u32,
    min_height: u32,
    keywords: &Vec<String>,
) -> (r: Vec<RemoteWallpaper>)
    ensures
        search_results_mapped(pages@, min_width, min_height, string_views(keywords@), r@),
{
    let ghost all = pages@;
    let ghost kv = string_views(keywords@);
    let mut pending = pages;
    let mut r: Vec<RemoteWallpaper> = Vec::new();
    while pending.len() > 0
        invariant
            pending.len() <= all.len(),
            kv == string_views(keywords@),
            pending@ == all.subrange(all.len() - pending.len(), all.len() as int),
            search_results_mapped(all.take(all.len() - pending.len()), min_width, min_height, kv, r@),
        decreases pending.len(),
    {
        let ghost n = all.len() - pending.len();
        let page = pending.remove(0);
        assert(page == all[n]);
        assert(all.take(n + 1).drop_last() =~= all.take(n));
        let ghost before = r@;
        match map_page(page, min_width, min_height) {
            Some(w) => {
                if metadata_matches_keyword(&w, keywords) {
                    r.push(w);
                    assert(r@.drop_last() =~= before);
                }
            },
            None => {},
        }
        assert(pending@ =~= all.subrange(all.len() - pending.len(), all.len() as int));
    }
    assert(all.take(all.len() as int) =~= all);
    r
}

/// Chooses an extension from trusted MIME first and URL path only as a fallback.
pub fn extension_for(mime: Option<&str>, url: &str) -> (e: &'static str)
    ensures
        e@ == spec_file_extension(crate::provider::download::opt_view(mime), url@),
{
    file_extension(mime, url)
}

// ---------------------------------------------------------------------------
// Search parameters
// ---------------------------------------------------------------------------

/// Keywords joined by ` OR `.
pub open spec fn join_or(keywords: Seq<Seq<char>>) -> Seq<char>
    decreases keywords.len(),
{
    if keywords.len() == 0 {
        Seq::empty()
    } else if keywords.len() == 1 {
        keywords[0]
    } else {
        join_or(keywords.drop_last()) + " OR "@ + keywords.last()
    }
}

/// The CirrusSearch expression: bitmap files, optionally matching any keyword.
pub open spec fn spec_search_expression(keywords: Seq<Seq<char>>) -> Seq<char> {
    if keywords.len() == 0 {
        "filetype:bitmap"@
    } else {
        "("@ + join_or(keywords) + ") filetype:bitmap"@
    }
}

/// Builds the search expression for a keyword list.
pub fn search_expression(keywords: &Vec<String>) -> (s: String)
    ensures
        s@ == spec_search_expression(string_views(keywords@)),
{
    if keywords.len() == 0 {
        return "filetype:bitmap".to_string();
    }
    let ghost kv = string_views(keywords@);
    let mut s = String::from_str("(");
    let mut i: usize = 0;
    while i < keywords.len()
        invariant
            i <= keywords.len(),
            kv == string_views(keywords@),
            s@ == "("@ + join_or(kv.take(i as int)),
        decreases keywords.len() - i,
    {
        if i > 0 {
            s.append(" OR ");
        }
        s.append(keywords[i].as_str());
        proof {
            assert(kv.take(i + 1).drop_last() =~= kv.take(i as int));
            if i == 0 {
                assert(join_or(kv.take(0)) =~= Seq::<char>::empty());
            }
        }
        i += 1;
    }
    assert(kv.take(keywords.len() as int) =~= kv);
    s.append(") filetype:bitmap");
    s
}

/// Commons' search sort flag.
pub open spec fn spec_commons_sort(s: WallpaperSort) -> Seq<char> {
    match s {
        WallpaperSort::Latest => "create_timestamp_desc"@,
        WallpaperSort::Popular => "incoming_links_desc"@,
        WallpaperSort::Random => "random"@,
    }
}

/// The result offset of a page: `(page - 1) * page_size` with the page at least one.
pub open spec fn spec_offset(page: u32, page_size: u32) -> int {
    (first_page(page) - 1) * clamp(page_size, 1, 50)
}

/// The query-string parameters of one bounded File-namespace search.
pub open spec fn spec_commons_parameters(q: WallpaperQuery, keywords: Seq<Seq<char>>) -> Seq<
    (Seq<char>, Seq<char>),
> {
    seq![
        ("action"@, "query"@),
        ("format"@, "json"@),
        ("formatversion"@, "2"@),
        ("generator"@, "search"@),
        ("gsrnamespace"@, "6"@),
        ("gsrsearch"@, spec_search_expression(keywords)),
        ("gsrlimit"@, spec_decimal(clamp(q.page_size, 1, 50))),
        ("gsroffset"@, spec_decimal(spec_offset(q.page, q.page_size) as nat)),
        ("gsrsort"@, spec_commons_sort(q.sort)),
        ("prop"@, "imageinfo"@),
        ("iiprop"@, "url|size|mime|sha1|timestamp|user|extmetadata"@),
        ("iiurlwidth"@, "640"@),
        ("iiextmetadatafilter"@, "Artist|LicenseShortName|LicenseUrl|ImageDescription|Categories"@),
        ("iiextmetadatalanguage"@, "zh"@),
    ]
}

fn pair(name: &str, value: String) -> (p: (String, String))
    ensures
        p.0@ == name@,
        p.1@ == value@,
{
    (name.to_string(), value)
}

/// Builds the parameters of one search page; the offset must fit in 32 bits.
pub fn commons_parameters(query: &WallpaperQuery, keywords: &Vec<String>) -> (r: Vec<(String, String)>)
    requires
        spec_offset(query.page, query.page_size) <= u32::MAX,
    ensures
        pair_views(r@) == spec_commons_parameters(*query, string_views(keywords@)),
{
    let page_size: u32 = if query.page_size < 1 {
        1
    } else if query.page_size > 50 {
        50
    } else {
        query.page_size
    };
    let page: u32 = if query.page < 1 {
        1
    } else {
        query.page
    };
    let offset: u32 = (page - 1) * page_size;
    let sort: &str = match query.sort {
        WallpaperSort::Latest => "create_timestamp_desc",
        WallpaperSort::Popular => "incoming_links_desc",
        WallpaperSort::Random => "random",
    };
    let mut r: Vec<(String, String)> = Vec::new();
    r.push(pair("action", "query".to_string()));
    r.push(pair("format", "json".to_string()));
    r.push(pair("formatversion", "2".to_string()));
    r.push(pair("generator", "search".to_string()));
    r.push(pair("gsrnamespace", "6".to_string()));
    r.push(pair("gsrsearch", search_expression(keywords)));
    r.push(pair("gsrlimit", decimal(page_size as u64)));
    r.push(pair("gsroffset", decimal(offset as u64)));
    r.push(pair("gsrsort", sort.to_string()));
    r.push(pair("prop", "imageinfo".to_string()));
    r.push(pair("iiprop", "url|size|mime|sha1|timestamp|user|extmetadata".to_string()));
    r.push(pair("iiurlwidth", "640".to_string()));
    r.push(
        pair(
            "iiextmetadatafilter",
            "Artist|LicenseShortName|LicenseUrl|ImageDescription|Categories".to_string(),
        ),
    );
    r.push(pair("iiextmetadatalanguage", "zh".to_string()));
    assert(pair_views(r@) =~= spec_commons_parameters(*query, string_views(keywords@)));
    r
}

/// Commons page ids are decimal digits.
pub open spec fn spec_valid_page_id(id: Seq<char>) -> bool {
    forall|i: int| 0 <= i < id.len() ==> crate::text::is_ascii_digit(#[trigger] id[i])
}

/// Refuses detail lookups whose id is not all digits.
pub fn check_page_id(remote_id: &str) -> (r: AppResult<()>)
    ensures
        spec_valid_page_id(remote_id@) ==> r is Ok,
        !spec_valid_page_id(remote_id@) ==> (r matches Err(AppError::Provider(m))
            && m@ == "invalid Wikimedia Commons page id"@),
{
    let v = chars_of(remote_id);
    let mut i: usize = 0;
    while i < v.len()
        invariant
            i <= v.len(),
            v@ == remote_id@,
            forall|k: int| 0 <= k < i ==> crate::text::is_ascii_digit(#[trigger] v@[k]),
        decreases v.len() - i,
    {
        if !crate::text::char_is_ascii_digit(v[i]) {
            assert(!crate::text::is_ascii_digit(remote_id@[i as int]));
            return Err(AppError::Provider("invalid Wikimedia Commons page id".to_string()));
        }
        i += 1;
    }
    Ok(())
}

} // verus!
