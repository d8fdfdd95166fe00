//! Provider-neutral wallpaper metadata and the rules shared by every source.
use vstd::prelude::*;

use crate::error::{AppError, AppResult};
use crate::text::{
    ascii_lowercase_str, chars_of, concat2, contains, push_char, spec_ascii_lowercase,
    spec_contains, spec_trim, spec_unicode_lowercase, str_eq, trim_str, unicode_lowercase,
};


pub mod aggregated;
pub mod art_institute;
pub mod download;
pub mod local;
pub mod wallhaven;
pub mod openverse;
pub mod thegamesdb;
pub mod wikimedia;

verus! {

/// Product categories remain stable even when a provider uses different category flags.
#[derive(Clone, Copy, Debug, PartialEq, Eq)]
pub enum WallpaperCategory {
    All,
    Nature,
    Anime,
    Games,
    People,
    Local,
}

/// Sorting vocabulary supported by the business layer rather than one remote API.
#[derive(Clone, Copy, Debug, PartialEq, Eq)]
pub enum WallpaperSort {
    Latest,
    Popular,
    Random,
}

/// Provider-neutral query with safe 4K landscape defaults.
#[derive(Clone, Debug)]
pub struct WallpaperQuery {
    pub keyword: Option<String>,
    pub category: WallpaperCategory,
    pub min_width: u32,
    pub min_height: u32,
    pub aspect_ratio: Option<String>,
    pub page: u32,
    pub page_size: u32,
    pub sort: WallpaperSort,
    pub safety: String,
    /// Optional provider scope; absence means every enabled online source.
    pub providers: Option<Vec<String>>,
}

impl Default for WallpaperQuery {
    /// Ordinary online browsing stays SFW and at least 4K.
    fn default() -> (q: Self)
        ensures
            q.keyword is None,
            q.category == WallpaperCategory::All,
            q.min_width == 3840,
            q.min_height == 2160,
            q.aspect_ratio matches Some(r) && r@ == "16:9"@,
            q.page == 1,
            q.page_size == 24,
            q.sort == WallpaperSort::Latest,
            q.safety@ == "sfw"@,
            q.providers is None,
    {
        WallpaperQuery {
            keyword: None,
            category: WallpaperCategory::All,
            min_width: 3840,
            min_height: 2160,
            aspect_ratio: Some("16:9".to_string()),
            page: 1,
            page_size: 24,
            sort: WallpaperSort::Latest,
            safety: "sfw".to_string(),
            providers: None,
        }
    }
}

/// Complete provider-neutral metadata returned by remote and local adapters.
#[derive(Clone, Debug)]
pub struct RemoteWallpaper {
    pub remote_id: String,
    pub provider: String,
    pub name: String,
    pub source_page_url: Option<String>,
    pub original_url: Option<String>,
    pub thumbnail_url: Option<String>,
    pub thumbnail_local_path: Option<String>,
    pub local_path: Option<String>,
    pub width: Option<u32>,
    pub height: Option<u32>,
    pub resolution: Option<String>,
    pub ratio: Option<String>,
    pub file_size: Option<i64>,
    pub mime_type: Option<String>,
    pub category: String,
    pub purity: String,
    pub tags: Vec<String>,
    pub created_at: Option<String>,
    pub author: Option<String>,
    pub license_name: Option<String>,
    pub license_url: Option<String>,
    /// Optional thumbnail-derived fingerprint for cross-provider deduplication.
    pub perceptual_hash: Option<String>,
}

/// A value-preserving copy of an optional string.
pub fn copy_option_string(value: &Option<String>) -> (r: Option<String>)
    ensures
        r == *value,
{
    match value {
        Some(s) => Some(s.clone()),
        None => None,
    }
}

/// A value-preserving copy of a list of strings.
pub fn copy_strings(values: &Vec<String>) -> (r: Vec<String>)
    ensures
        r@ == values@,
{
    let mut r: Vec<String> = Vec::new();
    let mut i: usize = 0;
    while i < values.len()
        invariant
            i <= values.len(),
            r@ == values@.subrange(0, i as int),
        decreases values.len() - i,
    {
        r.push(values[i].clone());
        i += 1;
        assert(r@ =~= values@.subrange(0, i as int));
    }
    assert(values@.subrange(0, values@.len() as int) =~= values@);
    r
}

// ---------------------------------------------------------------------------
// Provider registry names
// ---------------------------------------------------------------------------

/// The built-in adapters, in the order aggregated search visits them.
#[derive(Clone, Copy, Debug, PartialEq, Eq)]
pub enum ProviderName {
    Wallhaven,
    WikimediaCommons,
    Openverse,
    ArtInstituteChicago,
    TheGamesDb,
    Local,
}

/// The registry name of each adapter.
pub open spec fn spec_provider_name(p: ProviderName) -> Seq<char> {
    match p {
        ProviderName::Wallhaven => "wallhaven"@,
        ProviderName::WikimediaCommons => "wikimedia_commons"@,
        ProviderName::Openverse => "openverse"@,
        ProviderName::ArtInstituteChicago => "art_institute_chicago"@,
        ProviderName::TheGamesDb => "thegamesdb"@,
        ProviderName::Local => "local"@,
    }
}

/// The adapter registered under a name, if any.
pub open spec fn spec_provider_from_name(name: Seq<char>) -> Option<ProviderName> {
    if name == "wallhaven"@ {
        Some(ProviderName::Wallhaven)
    } else if name == "wikimedia_commons"@ {
        Some(ProviderName::WikimediaCommons)
    } else if name == "openverse"@ {
        Some(ProviderName::Openverse)
    } else if name == "art_institute_chicago"@ {
        Some(ProviderName::ArtInstituteChicago)
    } else if name == "thegamesdb"@ {
        Some(ProviderName::TheGamesDb)
    } else if name == "local"@ {
        Some(ProviderName::Local)
    } else {
        None
    }
}

/// The online adapters used by aggregated search and refresh, in visiting order.
pub open spec fn spec_online_providers() -> Seq<ProviderName> {
    seq![
        ProviderName::Wallhaven,
        ProviderName::WikimediaCommons,
        ProviderName::Openverse,
        ProviderName::ArtInstituteChicago,
        ProviderName::TheGamesDb,
    ]
}

impl ProviderName {
    /// The registry name of this adapter.
    pub fn as_str(self) -> (s: &'static str)
        ensures
            s@ == spec_provider_name(self),
    {
        match self {
            ProviderName::Wallhaven => "wallhaven",
            ProviderName::WikimediaCommons => "wikimedia_commons",
            ProviderName::Openverse => "openverse",
            ProviderName::ArtInstituteChicago => "art_institute_chicago",
            ProviderName::TheGamesDb => "thegamesdb",
            ProviderName::Local => "local",
        }
    }

    /// Resolves only supported providers and reports unsupported names as recoverable errors.
    pub fn from_name(provider: &str) -> (r: AppResult<ProviderName>)
        ensures
            match spec_provider_from_name(provider@) {
                Some(p) => r == Ok::<ProviderName, AppError>(p),
                None => r matches Err(AppError::Provider(m))
                    && m@ == "unsupported wallpaper provider: "@ + provider@,
            },
    {
        if str_eq(provider, "wallhaven") {
            Ok(ProviderName::Wallhaven)
        } else if str_eq(provider, "wikimedia_commons") {
            Ok(ProviderName::WikimediaCommons)
        } else if str_eq(provider, "openverse") {
            Ok(ProviderName::Openverse)
        } else if str_eq(provider, "art_institute_chicago") {
            Ok(ProviderName::ArtInstituteChicago)
        } else if str_eq(provider, "thegamesdb") {
            Ok(ProviderName::TheGamesDb)
        } else if str_eq(provider, "local") {
            Ok(ProviderName::Local)
        } else {
            Err(AppError::Provider(concat2("unsupported wallpaper provider: ", provider)))
        }
    }
}

/// Every built-in online adapter for aggregated search and refresh.
pub fn online_providers() -> (r: Vec<ProviderName>)
    ensures
        r@ == spec_online_providers(),
{
    let r = vec![
        ProviderName::Wallhaven,
        ProviderName::WikimediaCommons,
        ProviderName::Openverse,
        ProviderName::ArtInstituteChicago,
        ProviderName::TheGamesDb,
    ];
    assert(r@ =~= spec_online_providers());
    r
}

/// Looking a provider up by its own registry name finds it again.
pub proof fn provider_name_roundtrip(p: ProviderName)
    ensures
        spec_provider_from_name(spec_provider_name(p)) == Some(p),
{
    reveal_strlit("wallhaven");
    reveal_strlit("wikimedia_commons");
    reveal_strlit("openverse");
    reveal_strlit("art_institute_chicago");
    reveal_strlit("thegamesdb");
    reveal_strlit("local");
    let names = seq![
        "wallhaven"@,
        "wikimedia_commons"@,
        "openverse"@,
        "art_institute_chicago"@,
        "thegamesdb"@,
        "local"@,
    ];
    assert forall|i: int, j: int| 0 <= i < j < 6 implies names[i] != names[j] by {
        assert(names[i].len() != names[j].len() || names[i][0] != names[j][0]);
    }
}

// ---------------------------------------------------------------------------
// Keyword expansion and relevance
// ---------------------------------------------------------------------------

/// The character views of a list of strings.
pub open spec fn string_views(v: Seq<String>) -> Seq<Seq<char>> {
    v.map_values(|s: String| s@)
}

/// The character views of a list of string pairs.
pub open spec fn pair_views(v: Seq<(String, String)>) -> Seq<(Seq<char>, Seq<char>)> {
    v.map_values(|f: (String, String)| (f.0@, f.1@))
}

/// Whether a text is empty once surrounding whitespace is removed.
pub open spec fn is_blank(s: Seq<char>) -> bool {
    spec_trim(s).len() == 0
}

/// Whether a text is blank.
pub fn blank(s: &str) -> (b: bool)
    ensures
        b == is_blank(s@),
{
    trim_str(s).as_str().is_empty()
}

/// Whether the requested safety level is SFW, compared ASCII-case-insensitively.
pub open spec fn is_sfw(safety: Seq<char>) -> bool {
    spec_ascii_lowercase(safety) == "sfw"@
}

/// Whether the requested safety level is SFW.
pub fn safety_is_sfw(safety: &str) -> (b: bool)
    ensures
        b == is_sfw(safety@),
{
    str_eq(ascii_lowercase_str(safety).as_str(), "sfw")
}

/// `s` with every `from` replaced by `to`.
pub open spec fn replace_char(s: Seq<char>, from: char, to: char) -> Seq<char> {
    s.map_values(|c: char| if c == from { to } else { c })
}

/// Replaces every occurrence of one character.
pub fn replace_chars(s: &str, from: char, to: char) -> (r: String)
    ensures
        r@ == replace_char(s@, from, to),
{
    let v = chars_of(s);
    let mut r = String::new();
    let mut i: usize = 0;
    while i < v.len()
        invariant
            i <= v.len(),
            v@ == s@,
            r@ == replace_char(v@.take(i as int), from, to),
        decreases v.len() - i,
    {
        let c = v[i];
        if c == from {
            push_char(&mut r, to);
        } else {
            push_char(&mut r, c);
        }
        assert(replace_char(v@.take(i + 1), from, to) =~= replace_char(v@.take(i as int), from, to).push(
            if c == from { to } else { c },
        ));
        i += 1;
    }
    assert(v@.take(v.len() as int) =~= v@);
    r
}

/// The page number sent to providers: at least one.
pub open spec fn first_page(page: u32) -> nat {
    if page < 1 {
        1
    } else {
        page as nat
    }
}

/// `value` clamped into `[low, high]`.
pub open spec fn clamp(value: u32, low: u32, high: u32) -> nat {
    if value < low {
        low as nat
    } else if value > high {
        high as nat
    } else {
        value as nat
    }
}

/// English search terms for a small, auditable set of common Chinese wallpaper terms.
pub open spec fn keyword_alias(normalized: Seq<char>) -> Option<Seq<char>> {
    if normalized == "七龙珠"@ || normalized == "龙珠"@ {
        Some("Dragon Ball"@)
    } else if normalized == "孙悟空"@ || normalized == "悟空"@ {
        Some("Goku"@)
    } else if normalized == "海贼王"@ {
        Some("One Piece anime"@)
    } else if normalized == "火影忍者"@ || normalized == "火影"@ {
        Some("Naruto anime"@)
    } else if normalized == "黑神话悟空"@ || normalized == "黑神话：悟空"@ {
        Some("Black Myth Wukong"@)
    } else if normalized == "赛博朋克2077"@ || normalized == "赛博朋克 2077"@ {
        Some("Cyberpunk 2077"@)
    } else if normalized == "原神"@ {
        Some("Genshin Impact"@)
    } else if normalized == "艾尔登法环"@ {
        Some("Elden Ring"@)
    } else if normalized == "塞尔达传说"@ || normalized == "塞尔达"@ {
        Some("The Legend of Zelda"@)
    } else if normalized == "英雄联盟"@ {
        Some("League of Legends"@)
    } else if normalized == "守望先锋"@ {
        Some("Overwatch"@)
    } else if normalized == "雪山"@ {
        Some("snow mountain"@)
    } else if normalized == "日落"@ || normalized == "夕阳"@ {
        Some("sunset"@)
    } else if normalized == "星空"@ {
        Some("starry sky"@)
    } else if normalized == "城市夜景"@ || normalized == "夜景"@ {
        Some("city night"@)
    } else {
        None
    }
}

/// The trimmed keyword, followed by its English alias when one is known.
pub open spec fn spec_provider_keywords(keyword: Seq<char>) -> Seq<Seq<char>> {
    let trimmed = spec_trim(keyword);
    if trimmed.len() == 0 {
        seq![]
    } else {
        match keyword_alias(spec_unicode_lowercase(trimmed)) {
            Some(alias) => seq![trimmed, alias],
            None => seq![trimmed],
        }
    }
}

/// Looks up the alias table.
fn alias_of(normalized: &str) -> (r: Option<&'static str>)
    ensures
        match keyword_alias(normalized@) {
            Some(a) => r matches Some(x) && x@ == a,
            None => r is None,
        },
{
    if str_eq(normalized, "七龙珠") || str_eq(normalized, "龙珠") {
        Some("Dragon Ball")
    } else if str_eq(normalized, "孙悟空") || str_eq(normalized, "悟空") {
        Some("Goku")
    } else if str_eq(normalized, "海贼王") {
        Some("One Piece anime")
    } else if str_eq(normalized, "火影忍者") || str_eq(normalized, "火影") {
        Some("Naruto anime")
    } else if str_eq(normalized, "黑神话悟空") || str_eq(normalized, "黑神话：悟空") {
        Some("Black Myth Wukong")
    } else if str_eq(normalized, "赛博朋克2077") || str_eq(normalized, "赛博朋克 2077") {
        Some("Cyberpunk 2077")
    } else if str_eq(normalized, "原神") {
        Some("Genshin Impact")
    } else if str_eq(normalized, "艾尔登法环") {
        Some("Elden Ring")
    } else if str_eq(normalized, "塞尔达传说") || str_eq(normalized, "塞尔达") {
        Some("The Legend of Zelda")
    } else if str_eq(normalized, "英雄联盟") {
        Some("League of Legends")
    } else if str_eq(normalized, "守望先锋") {
        Some("Overwatch")
    } else if str_eq(normalized, "雪山") {
        Some("snow mountain")
    } else if str_eq(normalized, "日落") || str_eq(normalized, "夕阳") {
        Some("sunset")
    } else if str_eq(normalized, "星空") {
        Some("starry sky")
    } else if str_eq(normalized, "城市夜景") || str_eq(normalized, "夜景") {
        Some("city night")
    } else {
        None
    }
}

/// Expands a small, auditable set of common Chinese wallpaper terms for English-first APIs.
pub fn provider_keywords(keyword: &str) -> (r: Vec<String>)
    ensures
        string_views(r@) == spec_provider_keywords(keyword@),
{
    let trimmed = trim_str(keyword);
    if trimmed.as_str().is_empty() {
        let r: Vec<String> = Vec::new();
        assert(string_views(r@) =~= spec_provider_keywords(keyword@));
        return r;
    }
    let normalized = unicode_lowercase(trimmed.as_str());
    let alias = alias_of(normalized.as_str());
    let mut r: Vec<String> = Vec::new();
    r.push(trimmed);
    match alias {
        Some(a) => {
            r.push(a.to_string());
        },
        None => {},
    }
    assert(string_views(r@) =~= spec_provider_keywords(keyword@));
    r
}

/// The wallpaper's title followed by its tags, separated by single spaces.
pub open spec fn searchable_text(name: Seq<char>, tags: Seq<Seq<char>>) -> Seq<char>
    decreases tags.len(),
{
    if tags.len() == 0 {
        name
    } else {
        searchable_text(name, tags.drop_last()) + seq![' '] + tags.last()
    }
}

/// Whether the normalized title/tag text contains any normalized keyword.
pub open spec fn spec_metadata_matches(
    name: Seq<char>,
    tags: Seq<Seq<char>>,
    keywords: Seq<Seq<char>>,
) -> bool {
    keywords.len() == 0 || exists|i: int|
        0 <= i < keywords.len() && spec_contains(
            spec_unicode_lowercase(searchable_text(name, tags)),
            #[trigger] spec_unicode_lowercase(keywords[i]),
        )
}

/// Builds the searchable text of a wallpaper.
fn build_searchable(name: &String, tags: &Vec<String>) -> (s: String)
    ensures
        s@ == searchable_text(name@, string_views(tags@)),
{
    let mut s = name.clone();
    let mut i: usize = 0;
    while i < tags.len()
        invariant
            i <= tags.len(),
            s@ == searchable_text(name@, string_views(tags@.subrange(0, i as int))),
        decreases tags.len() - i,
    {
        push_char(&mut s, ' ');
        s.append(tags[i].as_str());
        proof {
            let prev = string_views(tags@.subrange(0, i as int));
            let next = string_views(tags@.subrange(0, i + 1));
            assert(next.drop_last() =~= prev);
            assert(next.last() == tags@[i as int]@);
        }
        i += 1;
    }
    assert(tags@.subrange(0, tags.len() as int) =~= tags@);
    s
}

/// Uses normalized title/tag text to reject known-loose provider matches.
pub fn metadata_matches_keyword(wallpaper: &RemoteWallpaper, keywords: &Vec<String>) -> (b: bool)
    ensures
        b == spec_metadata_matches(
            wallpaper.name@,
            string_views(wallpaper.tags@),
            string_views(keywords@),
        ),
{
    if keywords.len() == 0 {
        return true;
    }
    let searchable = build_searchable(&wallpaper.name, &wallpaper.tags);
    let lowered = chars_of(unicode_lowercase(searchable.as_str()).as_str());
    let ghost kv = string_views(keywords@);
    let mut i: usize = 0;
    while i < keywords.len()
        invariant
            i <= keywords.len(),
            kv == string_views(keywords@),
            lowered@ == spec_unicode_lowercase(
                searchable_text(wallpaper.name@, string_views(wallpaper.tags@)),
            ),
            forall|k: int|
                0 <= k < i ==> !spec_contains(lowered@, #[trigger] spec_unicode_lowercase(kv[k])),
        decreases keywords.len() - i,
    {
        let keyword = chars_of(unicode_lowercase(keywords[i].as_str()).as_str());
        assert(kv[i as int] == keywords@[i as int]@);
        if contains(&lowered, &keyword) {
            return true;
        }
        i += 1;
    }
    false
}

} // verus!
