//! Art Institute of Chicago: public-domain artwork search and IIIF URL mapping.
use vstd::prelude::*;

use crate::error::{AppError, AppResult};
use crate::image_processing::{
    dimensions_text, reduced_aspect_ratio, spec_dimensions_text, spec_ratio_label,
};
use crate::provider::openverse::{expanded_keywords, query_keywords};
use crate::provider::{
    clamp, first_page, pair_views, string_views, RemoteWallpaper, WallpaperCategory, WallpaperQuery,
};
use crate::text::{
    all_digits, char_is_ascii_digit, chars_of, decimal, signed_decimal, spec_decimal,
    spec_signed_decimal, str_eq,
};

verus! {

/// Pixel dimensions reported for an artwork's primary image.
pub struct ArtworkThumbnail {
    pub width: u32,
    pub height: u32,
}

/// One artwork record of the museum API.
pub struct Artwork {
    pub id: i64,
    pub title: String,
    pub image_id: Option<String>,
    pub thumbnail: Option<ArtworkThumbnail>,
    pub artist_display: Option<String>,
    pub date_display: Option<String>,
    pub is_public_domain: bool,
    pub classification_title: Option<String>,
    pub subject_titles: Vec<String>,
}

/// Root of the museum's IIIF image service.
pub open spec fn iiif_root() -> Seq<char> {
    "https://www.artic.edu/iiif/2/"@
}

/// The tags of an artwork: its subjects, then its classification when present.
pub open spec fn artwork_tags(a: Artwork) -> Seq<String> {
    match a.classification_title {
        Some(c) => a.subject_titles@.push(c),
        None => a.subject_titles@,
    }
}

/// Whether an artwork is kept, and the record it becomes.
pub open spec fn artwork_mapped(
    a: Artwork,
    min_width: u32,
    min_height: u32,
    r: Option<RemoteWallpaper>,
) -> bool {
    if a.image_id is None || a.thumbnail is None {
        r is None
    } else {
        let image_id = a.image_id->0@;
        let d = a.thumbnail->0;
        if d.width < min_width || d.height < min_height {
            r is None
        } else {
            r matches Some(w) && {
                &&& w.remote_id@ == spec_signed_decimal(a.id as int)
                &&& w.provider@ == "art_institute_chicago"@
                &&& w.name == a.title
                &&& w.source_page_url matches Some(u) && u@ == "https://www.artic.edu/artworks/"@
                    + spec_signed_decimal(a.id as int)
                &&& w.original_url matches Some(u) && u@ == iiif_root() + image_id
                    + "/full/full/0/default.jpg"@
                &&& w.thumbnail_url matches Some(u) && u@ == iiif_root() + image_id
                    + "/full/843,/0/default.jpg"@
                &&& w.thumbnail_local_path is None
                &&& w.local_path is None
                &&& w.width == Some(d.width)
                &&& w.height == Some(d.height)
                &&& w.resolution matches Some(t) && t@ == spec_dimensions_text(
                    d.width as nat,
                    d.height as nat,
                )
                &&& w.ratio matches Some(t) && t@ == spec_ratio_label(d.width as nat, d.height as nat)
                &&& w.file_size is None
                &&& w.mime_type matches Some(t) && t@ == "image/jpeg"@
                &&& w.category@ == "all"@
                &&& w.purity@ == "sfw"@
                &&& w.tags@ == artwork_tags(a)
                &&& w.created_at == a.date_display
                &&& w.author == a.artist_display
                &&& w.license_name matches Some(t) && t@ == "Public Domain"@
                &&& w.license_url matches Some(t) && t@
                    == "https://creativecommons.org/publicdomain/mark/1.0/"@
                &&& w.perceptual_hash is None
            }
        }
    }
}

/// Maps verified public-domain artwork while retaining institution attribution and subjects.
pub fn map_artwork(artwork: Artwork, min_width: u32, min_height: u32) -> (r: Option<
    RemoteWallpaper,
>)
    ensures
        artwork_mapped(artwork, min_width, min_height, r),
{
    let ghost original = artwork;
    let Artwork {
        id,
        title,
        image_id,
        thumbnail,
        artist_display,
        date_display,
        is_public_domain: _,
        classification_title,
        mut subject_titles,
    } = artwork;
    let image_id = match image_id {
        Some(i) => i,
        None => {
            return None;
        },
    };
    let dimensions = match thumbnail {
        Some(d) => d,
        None => {
            return None;
        },
    };
    if dimensions.width < min_width || dimensions.height < min_height {
        return None;
    }
    match classification_title {
        Some(c) => {
            subject_titles.push(c);
        },
        None => {},
    }
    let number = signed_decimal(id);
    let mut source = String::from_str("https://www.artic.edu/artworks/");
    source.append(number.as_str());
    let mut original_url = String::from_str("https://www.artic.edu/iiif/2/");
    original_url.append(image_id.as_str());
    original_url.append("/full/full/0/default.jpg");
    let mut thumbnail_url = String::from_str("https://www.artic.edu/iiif/2/");
    thumbnail_url.append(image_id.as_str());
    thumbnail_url.append("/full/843,/0/default.jpg");
    let resolution = dimensions_text(dimensions.width, dimensions.height);
    let ratio = reduced_aspect_ratio(dimensions.width, dimensions.height);
    Some(
        RemoteWallpaper {
            remote_id: number,
            provider: "art_institute_chicago".to_string(),
            name: title,
            source_page_url: Some(source),
            original_url: Some(original_url),
            thumbnail_url: Some(thumbnail_url),
            thumbnail_local_path: None,
            local_path: None,
            width: Some(dimensions.width),
            height: Some(dimensions.height),
            resolution: Some(resolution),
            ratio: Some(ratio),
            file_size: None,
            mime_type: Some("image/jpeg".to_string()),
            category: "all".to_string(),
            purity: "sfw".to_string(),
            tags: subject_titles,
            created_at: date_display,
            author: artist_display,
            license_name: Some("Public Domain".to_string()),
            license_url: Some("https://creativecommons.org/publicdomain/mark/1.0/".to_string()),
            perceptual_hash: None,
        },
    )
}

/// Loads a detail record: only public-domain artworks with a usable image are accepted.
pub fn detail_from_artwork(artwork: Artwork) -> (r: AppResult<RemoteWallpaper>)
    ensures
        !artwork.is_public_domain ==> (r matches Err(AppError::Provider(m)) && m@
            == "artwork is not available as public domain"@),
        artwork.is_public_domain ==> match r {
            Ok(w) => artwork_mapped(artwork, 0, 0, Some(w)),
            Err(e) => e matches AppError::Provider(m) && m@ == "artwork image is not usable"@
                && artwork_mapped(artwork, 0, 0, None),
        },
{
    if !artwork.is_public_domain {
        return Err(AppError::Provider("artwork is not available as public domain".to_string()));
    }
    match map_artwork(artwork, 0, 0) {
        Some(w) => Ok(w),
        None => Err(AppError::Provider("artwork image is not usable".to_string())),
    }
}

/// The mapped public-domain artworks of a search page, in order.
pub open spec fn search_results_mapped(
    artworks: Seq<Artwork>,
    min_width: u32,
    min_height: u32,
    r: Seq<RemoteWallpaper>,
) -> bool
    decreases artworks.len(),
{
    if artworks.len() == 0 {
        r.len() == 0
    } else {
        let a = artworks.last();
        if !a.is_public_domain || a.image_id is None || a.thumbnail is None
            || a.thumbnail->0.width < min_width || a.thumbnail->0.height < min_height {
            search_results_mapped(artworks.drop_last(), min_width, min_height, r)
        } else {
            r.len() > 0 && artwork_mapped(a, min_width, min_height, Some(r.last()))
                && search_results_mapped(artworks.drop_last(), min_width, min_height, r.drop_last())
        }
    }
}

/// Keeps public-domain artworks and maps those whose image is large enough.
pub fn map_search_results(artworks: Vec<Artwork>, min_width: u32, min_height: u32) -> (r: Vec<
    RemoteWallpaper,
>)
    ensures
        search_results_mapped(artworks@, min_width, min_height, r@),
{
    let ghost all = artworks@;
    let mut pending = artworks;
    let mut r: Vec<RemoteWallpaper> = Vec::new();
    while pending.len() > 0
        invariant
            pending.len() <= all.len(),
            pending@ == all.subrange(all.len() - pending.len(), all.len() as int),
            search_results_mapped(all.take(all.len() - pending.len()), min_width, min_height, r@),
        decreases pending.len(),
    {
        let ghost n = all.len() - pending.len();
        let a = pending.remove(0);
        assert(a == all[n]);
        assert(all.take(n + 1).drop_last() =~= all.take(n));
        if a.is_public_domain {
            let ghost before = r@;
            match map_artwork(a, min_width, min_height) {
                Some(w) => {
                    r.push(w);
                    assert(r@.drop_last() =~= before);
                },
                None => {},
            }
        }
        assert(pending@ =~= all.subrange(all.len() - pending.len(), all.len() as int));
    }
    assert(all.take(all.len() as int) =~= all);
    r
}

/// The search text used when the caller gave no keyword; `None` skips the museum entirely.
pub open spec fn spec_artwork_fallback(c: WallpaperCategory) -> Result<Option<Seq<char>>, Seq<char>> {
    match c {
        WallpaperCategory::Nature => Ok(Some("landscape nature"@)),
        WallpaperCategory::People => Ok(Some("portrait"@)),
        WallpaperCategory::Anime => Ok(Some("Japanese print"@)),
        WallpaperCategory::Games => Ok(None),
        WallpaperCategory::All => Ok(Some("landscape"@)),
        WallpaperCategory::Local => Err("the local category must use LocalProvider"@),
    }
}

/// The fields requested for every artwork.
pub open spec fn artwork_fields() -> Seq<char> {
    "id,title,image_id,thumbnail,artist_display,date_display,is_public_domain,classification_title,subject_titles"@
}

/// The search parameters; `Ok(None)` when the museum has nothing for the query (games).
pub open spec fn spec_artwork_parameters(q: WallpaperQuery) -> Result<
    Option<Seq<(Seq<char>, Seq<char>)>>,
    Seq<char>,
> {
    if q.category == WallpaperCategory::Games {
        Ok(None)
    } else {
        let keywords = query_keywords(q.keyword);
        let term: Result<Option<Seq<char>>, Seq<char>> = if keywords.len() > 0 {
            Ok(Some(keywords.last()))
        } else {
            spec_artwork_fallback(q.category)
        };
        match term {
            Err(m) => Err(m),
            Ok(None) => Ok(None),
            Ok(Some(t)) => Ok(
                Some(
                    seq![
                        ("q"@, t),
                        ("page"@, spec_decimal(first_page(q.page))),
                        ("limit"@, spec_decimal(clamp(q.page_size, 1, 30))),
                        ("fields"@, artwork_fields()),
                    ],
                ),
            ),
        }
    }
}

fn pair(name: &str, value: String) -> (p: (String, String))
    ensures
        p.0@ == name@,
        p.1@ == value@,
{
    (name.to_string(), value)
}

/// Maps the common query into museum search parameters.
pub fn artwork_parameters(query: &WallpaperQuery) -> (r: AppResult<Option<Vec<(String, String)>>>)
    ensures
        match spec_artwork_parameters(*query) {
            Ok(None) => r matches Ok(None),
            Ok(Some(ps)) => r matches Ok(Some(v)) && pair_views(v@) == ps,
            Err(message) => r matches Err(AppError::Provider(m)) && m@ == message,
        },
{
    match query.category {
        WallpaperCategory::Games => {
            return Ok(None);
        },
        _ => {},
    }
    let mut keywords = expanded_keywords(&query.keyword);
    let term: String = if keywords.len() > 0 {
        keywords.pop().unwrap()
    } else {
        let fallback: &str = match query.category {
            WallpaperCategory::Nature => "landscape nature",
            WallpaperCategory::People => "portrait",
            WallpaperCategory::Anime => "Japanese print",
            WallpaperCategory::Games => {
                return Ok(None);
            },
            WallpaperCategory::All => "landscape",
            WallpaperCategory::Local => {
                return Err(
                    AppError::Provider("the local category must use LocalProvider".to_string()),
                );
            },
        };
        fallback.to_string()
    };
    let page: u32 = if query.page < 1 {
        1
    } else {
        query.page
    };
    let limit: u32 = if query.page_size < 1 {
        1
    } else if query.page_size > 30 {
        30
    } else {
        query.page_size
    };
    let mut r: Vec<(String, String)> = Vec::new();
    r.push(pair("q", term));
    r.push(pair("page", decimal(page as u64)));
    r.push(pair("limit", decimal(limit as u64)));
    r.push(
        pair(
            "fields",
            "id,title,image_id,thumbnail,artist_display,date_display,is_public_domain,classification_title,subject_titles".to_string(),
        ),
    );
    assert(pair_views(r@) =~= spec_artwork_parameters(*query)->Ok_0->0);
    Ok(Some(r))
}

/// Whether a text is made of decimal digits only.
pub fn digits_only(value: &str) -> (b: bool)
    ensures
        b == all_digits(value@),
{
    let v = chars_of(value);
    let mut i: usize = 0;
    while i < v.len()
        invariant
            i <= v.len(),
            v@ == value@,
            forall|k: int| 0 <= k < i ==> crate::text::is_ascii_digit(#[trigger] v@[k]),
        decreases v.len() - i,
    {
        if !char_is_ascii_digit(v[i]) {
            assert(!crate::text::is_ascii_digit(value@[i as int]));
            return false;
        }
        i += 1;
    }
    true
}

/// Why a download is refused before the detail lookup, if it is.
pub open spec fn spec_download_refusal(w: RemoteWallpaper) -> Option<Seq<char>> {
    if w.provider@ != "art_institute_chicago"@ || !all_digits(w.remote_id@) {
        Some("wallpaper does not belong to ArtInstituteChicagoProvider"@)
    } else {
        None
    }
}

/// Refuses downloads of foreign records and malformed artwork ids.
pub fn check_download(wallpaper: &RemoteWallpaper) -> (r: AppResult<()>)
    ensures
        match spec_download_refusal(*wallpaper) {
            Some(message) => r matches Err(AppError::Provider(m)) && m@ == message,
            None => r is Ok,
        },
{
    if !str_eq(wallpaper.provider.as_str(), "art_institute_chicago") || !digits_only(
        wallpaper.remote_id.as_str(),
    ) {
        return Err(
            AppError::Provider(
                "wallpaper does not belong to ArtInstituteChicagoProvider".to_string(),
            ),
        );
    }
    Ok(())
}

} // verus!
