//! Catalog identity rules: when two records show the same picture, which source
//! improves a unified card, and what a merge keeps of user state.
use vstd::prelude::*;

use crate::error::{AppError, AppResult};
use crate::models::NewWallpaper;
use crate::provider::string_views;
use crate::text::{signed_decimal, spec_signed_decimal, spec_trim, str_eq, trim_str};

verus! {

/// Two pictures have the same shape when both are sized and their aspect ratios
/// differ by at most 2% of the larger cross product.
pub open spec fn spec_ratios_match(w1: u32, h1: u32, w2: u32, h2: u32) -> bool {
    let a = w1 as int * h2 as int;
    let b = w2 as int * h1 as int;
    &&& w1 > 0 && h1 > 0 && w2 > 0 && h2 > 0
    &&& (if a >= b {
        a - b
    } else {
        b - a
    }) * 100 <= (if a >= b {
        a
    } else {
        b
    }) * 2
}

/// Whether a perceptual-hash match is confirmed by the pictures' proportions.
pub fn ratios_match(w1: u32, h1: u32, w2: u32, h2: u32) -> (b: bool)
    ensures
        b == spec_ratios_match(w1, h1, w2, h2),
{
    if w1 == 0 || h1 == 0 || w2 == 0 || h2 == 0 {
        return false;
    }
    proof {
        assert(w1 as int * h2 as int <= 0xFFFF_FFFF * 0xFFFF_FFFF) by (nonlinear_arith)
            requires
                w1 <= 0xFFFF_FFFFu32,
                h2 <= 0xFFFF_FFFFu32,
        ;
        assert(w2 as int * h1 as int <= 0xFFFF_FFFF * 0xFFFF_FFFF) by (nonlinear_arith)
            requires
                w2 <= 0xFFFF_FFFFu32,
                h1 <= 0xFFFF_FFFFu32,
        ;
    }
    let a: u128 = (w1 as u128) * (h2 as u128);
    let b: u128 = (w2 as u128) * (h1 as u128);
    let (high, low) = if a >= b {
        (a, b)
    } else {
        (b, a)
    };
    (high - low) * 100 <= high * 2
}

/// Matching proportions is symmetric and every sized picture matches itself.
pub proof fn ratio_match_is_symmetric(w1: u32, h1: u32, w2: u32, h2: u32)
    ensures
        spec_ratios_match(w1, h1, w2, h2) == spec_ratios_match(w2, h2, w1, h1),
        w1 > 0 && h1 > 0 ==> spec_ratios_match(w1, h1, w1, h1),
{
    assert(w1 as int * h2 as int == h2 as int * w1 as int) by (nonlinear_arith);
    assert(w2 as int * h1 as int == h1 as int * w2 as int) by (nonlinear_arith);
}

/// A source improves a unified card when it has strictly more pixels.
pub open spec fn spec_improves(existing_w: u32, existing_h: u32, w: u32, h: u32) -> bool {
    w as int * h as int > existing_w as int * existing_h as int
}

/// Whether a newly seen source replaces the card's display metadata.
pub fn improves_card(existing_w: u32, existing_h: u32, w: u32, h: u32) -> (b: bool)
    ensures
        b == spec_improves(existing_w, existing_h, w, h),
{
    proof {
        assert(w as int * h as int <= 0xFFFF_FFFF * 0xFFFF_FFFF) by (nonlinear_arith)
            requires
                w <= 0xFFFF_FFFFu32,
                h <= 0xFFFF_FFFFu32,
        ;
        assert(existing_w as int * existing_h as int <= 0xFFFF_FFFF * 0xFFFF_FFFF) by (nonlinear_arith)
            requires
                existing_w <= 0xFFFF_FFFFu32,
                existing_h <= 0xFFFF_FFFFu32,
        ;
    }
    (w as u64) * (h as u64) > (existing_w as u64) * (existing_h as u64)
}

/// Display metadata of a unified card that a better source may replace.
#[derive(Clone, Debug)]
pub struct CardDisplay {
    pub name: String,
    pub source_page_url: Option<String>,
    pub original_url: Option<String>,
    pub thumbnail_url: Option<String>,
    pub width: u32,
    pub height: u32,
    pub aspect_ratio: Option<String>,
    pub file_size: Option<i64>,
    pub mime_type: Option<String>,
    pub synced_at: String,
    pub preset: bool,
}

/// The card after merging a newly seen source: the better picture's display
/// metadata, the first known size and type, the latest sync time, and the preset
/// mark if either had it.
pub open spec fn merged_card(existing: CardDisplay, incoming: CardDisplay, r: CardDisplay) -> bool {
    let better = spec_improves(existing.width, existing.height, incoming.width, incoming.height);
    let pick = if better {
        incoming
    } else {
        existing
    };
    &&& r.name == pick.name
    &&& r.source_page_url == pick.source_page_url
    &&& r.original_url == pick.original_url
    &&& r.thumbnail_url == pick.thumbnail_url
    &&& r.width == pick.width
    &&& r.height == pick.height
    &&& r.aspect_ratio == pick.aspect_ratio
    &&& r.file_size == (if existing.file_size is Some {
        existing.file_size
    } else {
        incoming.file_size
    })
    &&& r.mime_type == (if existing.mime_type is Some {
        existing.mime_type
    } else {
        incoming.mime_type
    })
    &&& r.synced_at == incoming.synced_at
    &&& r.preset == (existing.preset || incoming.preset)
}

/// Merges a newly seen source into an existing unified card.
pub fn merge_card(existing: CardDisplay, incoming: CardDisplay) -> (r: CardDisplay)
    ensures
        merged_card(existing, incoming, r),
{
    let better = improves_card(existing.width, existing.height, incoming.width, incoming.height);
    let preset = existing.preset || incoming.preset;
    let file_size = if existing.file_size.is_some() {
        existing.file_size
    } else {
        incoming.file_size
    };
    let CardDisplay {
        name: e_name,
        source_page_url: e_source,
        original_url: e_original,
        thumbnail_url: e_thumbnail,
        width: e_width,
        height: e_height,
        aspect_ratio: e_ratio,
        file_size: _,
        mime_type: e_mime,
        synced_at: _,
        preset: _,
    } = existing;
    let CardDisplay {
        name: i_name,
        source_page_url: i_source,
        original_url: i_original,
        thumbnail_url: i_thumbnail,
        width: i_width,
        height: i_height,
        aspect_ratio: i_ratio,
        file_size: _,
        mime_type: i_mime,
        synced_at: i_synced,
        preset: _,
    } = incoming;
    let mime_type = if e_mime.is_some() {
        e_mime
    } else {
        i_mime
    };
    if better {
        CardDisplay {
            name: i_name,
            source_page_url: i_source,
            original_url: i_original,
            thumbnail_url: i_thumbnail,
            width: i_width,
            height: i_height,
            aspect_ratio: i_ratio,
            file_size,
            mime_type,
            synced_at: i_synced,
            preset,
        }
    } else {
        CardDisplay {
            name: e_name,
            source_page_url: e_source,
            original_url: e_original,
            thumbnail_url: e_thumbnail,
            width: e_width,
            height: e_height,
            aspect_ratio: e_ratio,
            file_size,
            mime_type,
            synced_at: i_synced,
            preset,
        }
    }
}

/// Merging never lowers a card's resolution and never drops its preset mark.
pub proof fn merge_never_downgrades(existing: CardDisplay, incoming: CardDisplay, r: CardDisplay)
    requires
        merged_card(existing, incoming, r),
    ensures
        r.width as int * r.height as int >= existing.width as int * existing.height as int,
        existing.preset ==> r.preset,
{
}

/// Seeing the same source again changes nothing: merging `incoming` into the card
/// it was already merged into gives that card back.
pub proof fn merge_is_idempotent(
    existing: CardDisplay,
    incoming: CardDisplay,
    once: CardDisplay,
    twice: CardDisplay,
)
    requires
        merged_card(existing, incoming, once),
        merged_card(once, incoming, twice),
    ensures
        twice == once,
{
}

/// How an identity was established, strongest first.
pub open spec fn spec_confidence(has_sha256: bool, has_url: bool, has_perceptual: bool) -> Seq<char> {
    if has_sha256 {
        "hash"@
    } else if has_url {
        "url"@
    } else if has_perceptual {
        "perceptual"@
    } else {
        "provider"@
    }
}

/// The confidence recorded for a new content identity.
pub fn identity_confidence(has_sha256: bool, has_url: bool, has_perceptual: bool) -> (c: &'static str)
    ensures
        c@ == spec_confidence(has_sha256, has_url, has_perceptual),
{
    if has_sha256 {
        "hash"
    } else if has_url {
        "url"
    } else if has_perceptual {
        "perceptual"
    } else {
        "provider"
    }
}

/// The confidence after a new observation of an existing identity.
pub open spec fn spec_merged_confidence(existing: Seq<char>, has_sha256: bool, has_perceptual: bool) -> Seq<
    char,
> {
    if has_sha256 {
        "hash"@
    } else if has_perceptual && existing == "provider"@ {
        "perceptual"@
    } else {
        existing
    }
}

/// Upgrades an identity's confidence when stronger evidence arrives.
pub fn merged_confidence(existing: &str, has_sha256: bool, has_perceptual: bool) -> (c: String)
    ensures
        c@ == spec_merged_confidence(existing@, has_sha256, has_perceptual),
{
    if has_sha256 {
        "hash".to_string()
    } else if has_perceptual && str_eq(existing, "provider") {
        "perceptual".to_string()
    } else {
        existing.to_string()
    }
}

/// Local sources are user files; every other original is an application download.
pub fn storage_kind_for(provider: &str) -> (k: &'static str)
    ensures
        k@ == (if provider@ == "local"@ {
            "user_source"@
        } else {
            "managed_download"@
        }),
{
    if str_eq(provider, "local") {
        "user_source"
    } else {
        "managed_download"
    }
}

/// The tags that are not blank, trimmed, in order.
pub open spec fn spec_normalized_tags(tags: Seq<Seq<char>>) -> Seq<Seq<char>>
    decreases tags.len(),
{
    if tags.len() == 0 {
        Seq::empty()
    } else {
        let rest = spec_normalized_tags(tags.drop_last());
        if spec_trim(tags.last()).len() > 0 {
            rest.push(spec_trim(tags.last()))
        } else {
            rest
        }
    }
}

/// Trims tags and drops blank ones before they are linked to a wallpaper.
pub fn normalized_tags(tags: &Vec<String>) -> (r: Vec<String>)
    ensures
        string_views(r@) == spec_normalized_tags(string_views(tags@)),
{
    let ghost tv = string_views(tags@);
    let mut r: Vec<String> = Vec::new();
    let mut i: usize = 0;
    while i < tags.len()
        invariant
            i <= tags.len(),
            tv == string_views(tags@),
            string_views(r@) == spec_normalized_tags(tv.take(i as int)),
        decreases tags.len() - i,
    {
        let t = trim_str(tags[i].as_str());
        let ghost before = r@;
        assert(tv.take(i + 1).drop_last() =~= tv.take(i as int));
        if !t.as_str().is_empty() {
            r.push(t);
            assert(string_views(r@) =~= string_views(before).push(spec_trim(tv[i as int])));
        }
        i += 1;
    }
    assert(tv.take(tags.len() as int) =~= tv);
    r
}

/// The card that survives content deduplication: an existing duplicate, else the input.
pub open spec fn spec_retained_identity(wallpaper_id: i64, duplicate: Option<i64>) -> i64 {
    match duplicate {
        Some(d) => d,
        None => wallpaper_id,
    }
}

/// The card that survives content deduplication: an existing duplicate, else the input.
pub fn retained_identity(wallpaper_id: i64, duplicate: Option<i64>) -> (id: i64)
    ensures
        id == spec_retained_identity(wallpaper_id, duplicate),
{
    match duplicate {
        Some(d) => d,
        None => wallpaper_id,
    }
}

/// User state kept when a redundant card is merged into the retained one.
#[derive(Clone, Copy, Debug, PartialEq, Eq)]
pub struct UserFlags {
    pub favorite: bool,
    pub blacklisted: bool,
    pub preset: bool,
}

/// The marks of the card that survives a merge: every mark either card had.
pub open spec fn spec_merge_flags(retained: UserFlags, redundant: UserFlags) -> UserFlags {
    UserFlags {
        favorite: retained.favorite || redundant.favorite,
        blacklisted: retained.blacklisted || redundant.blacklisted,
        preset: retained.preset || redundant.preset,
    }
}

/// A merge keeps every mark either card had.
pub fn merge_flags(retained: UserFlags, redundant: UserFlags) -> (r: UserFlags)
    ensures
        r == spec_merge_flags(retained, redundant),
{
    UserFlags {
        favorite: retained.favorite || redundant.favorite,
        blacklisted: retained.blacklisted || redundant.blacklisted,
        preset: retained.preset || redundant.preset,
    }
}

/// A downloaded original's size as stored by SQLite.
pub fn stored_file_size(file_size: u64) -> (r: AppResult<i64>)
    ensures
        file_size <= i64::MAX ==> r == Ok::<i64, AppError>(file_size as i64),
        file_size > i64::MAX ==> (r matches Err(AppError::Database(m)) && m@
            == "downloaded image size exceeds SQLite range"@),
{
    if file_size > 0x7FFF_FFFF_FFFF_FFFF {
        Err(AppError::Database("downloaded image size exceeds SQLite range".to_string()))
    } else {
        Ok(file_size as i64)
    }
}

/// Exactly one card must be updated; otherwise the wallpaper does not exist.
pub fn check_single_update(updated: usize, wallpaper_id: i64) -> (r: AppResult<()>)
    ensures
        updated == 1 ==> r is Ok,
        updated != 1 ==> (r matches Err(AppError::Wallpaper(m)) && m@ == "wallpaper does not exist: "@
            + spec_signed_decimal(wallpaper_id as int)),
{
    if updated != 1 {
        let mut m = String::from_str("wallpaper does not exist: ");
        m.append(signed_decimal(wallpaper_id).as_str());
        return Err(AppError::Wallpaper(m));
    }
    Ok(())
}

// ---------------------------------------------------------------------------
// Exclusions and identity lookup during a refresh
// ---------------------------------------------------------------------------

/// A tombstone left by a dislike or a removal; a refresh never brings back a
/// record it matches.
#[derive(Clone, Debug)]
pub struct Exclusion {
    pub provider: Option<String>,
    pub remote_id: Option<String>,
    pub normalized_path: Option<String>,
    pub content_hash: Option<String>,
}

/// Both sides are known and equal (an unknown value matches nothing).
pub open spec fn known_equal(a: Option<String>, b: Option<String>) -> bool {
    &&& a is Some
    &&& b is Some
    &&& a->0@ == b->0@
}

/// An exclusion matches a record by provider identity, local path or content hash.
pub open spec fn spec_excludes(e: Exclusion, w: NewWallpaper) -> bool {
    ||| (e.provider is Some && e.provider->0@ == w.provider@ && e.remote_id is Some
        && e.remote_id->0@ == w.remote_id@)
    ||| known_equal(e.normalized_path, w.local_path)
    ||| known_equal(e.content_hash, w.hash)
}

/// A refresh skips a record that any exclusion matches.
pub open spec fn spec_refresh_skips(es: Seq<Exclusion>, w: NewWallpaper) -> bool {
    exists|k: int| 0 <= k < es.len() && spec_excludes(#[trigger] es[k], w)
}

/// The exclusion that disliking a stored record leaves behind.
pub open spec fn exclusion_of(w: NewWallpaper) -> Exclusion {
    Exclusion {
        provider: Some(w.provider),
        remote_id: Some(w.remote_id),
        normalized_path: w.local_path,
        content_hash: w.hash,
    }
}

fn known_equal_exec(a: &Option<String>, b: &Option<String>) -> (r: bool)
    ensures
        r == known_equal(*a, *b),
{
    match (a, b) {
        (Some(x), Some(y)) => str_eq(x.as_str(), y.as_str()),
        _ => false,
    }
}

/// Whether one exclusion matches a record.
pub fn excludes(e: &Exclusion, w: &NewWallpaper) -> (r: bool)
    ensures
        r == spec_excludes(*e, *w),
{
    let by_source = match (&e.provider, &e.remote_id) {
        (Some(p), Some(id)) => str_eq(p.as_str(), w.provider.as_str()) && str_eq(
            id.as_str(),
            w.remote_id.as_str(),
        ),
        _ => false,
    };
    by_source || known_equal_exec(&e.normalized_path, &w.local_path) || known_equal_exec(
        &e.content_hash,
        &w.hash,
    )
}

/// Whether a refresh must skip a record: some exclusion matches it.
pub fn refresh_skips(es: &Vec<Exclusion>, w: &NewWallpaper) -> (r: bool)
    ensures
        r == spec_refresh_skips(es@, *w),
{
    let mut i: usize = 0;
    while i < es.len()
        invariant
            i <= es.len(),
            forall|k: int| 0 <= k < i ==> !spec_excludes(#[trigger] es@[k], *w),
        decreases es.len() - i,
    {
        if excludes(&es[i], w) {
            return true;
        }
        i += 1;
    }
    false
}

/// An excluded record stays excluded: once a record is disliked, every later
/// refresh skips it, and recording further exclusions never lets a skipped
/// record back in.
pub proof fn excluded_records_never_return(es: Seq<Exclusion>, w: NewWallpaper, more: Exclusion)
    ensures
        spec_refresh_skips(es.push(exclusion_of(w)), w),
        spec_refresh_skips(es, w) ==> spec_refresh_skips(es.push(more), w),
{
    let t = es.push(exclusion_of(w));
    assert(spec_excludes(t[es.len() as int], w));
    if spec_refresh_skips(es, w) {
        let k = choose|k: int| 0 <= k < es.len() && spec_excludes(#[trigger] es[k], w);
        assert(es.push(more)[k] == es[k]);
    }
}

/// The card a record merges into when its provider source, canonical original
/// URL or content hash is already known, in that order of precedence.
pub fn first_known_identity(by_source: Option<i64>, by_url: Option<i64>, by_hash: Option<i64>) -> (r:
    Option<i64>)
    ensures
        r == spec_first_known(by_source, by_url, by_hash),
{
    match by_source {
        Some(id) => Some(id),
        None => match by_url {
            Some(id) => Some(id),
            None => by_hash,
        },
    }
}

/// The first candidate (card id, width, height) sharing the perceptual hash
/// whose proportions match the record, skipping `exclude`.
pub open spec fn first_ratio_match(
    cands: Seq<(i64, u32, u32)>,
    width: u32,
    height: u32,
    exclude: Option<i64>,
) -> Option<i64>
    decreases cands.len(),
{
    if cands.len() == 0 {
        None
    } else if Some(cands[0].0) != exclude && spec_ratios_match(
        cands[0].1,
        cands[0].2,
        width,
        height,
    ) {
        Some(cands[0].0)
    } else {
        first_ratio_match(cands.drop_first(), width, height, exclude)
    }
}

/// Finds the card a record joins by perceptual hash: the first candidate, in the
/// given order, other than `exclude`, whose proportions match within 2%.
pub fn perceptual_match(
    cands: &Vec<(i64, u32, u32)>,
    width: u32,
    height: u32,
    exclude: Option<i64>,
) -> (r: Option<i64>)
    ensures
        r == first_ratio_match(cands@, width, height, exclude),
{
    let mut i: usize = 0;
    assert(cands@.subrange(0, cands@.len() as int) =~= cands@);
    while i < cands.len()
        invariant
            i <= cands.len(),
            first_ratio_match(cands@, width, height, exclude) == first_ratio_match(
                cands@.subrange(i as int, cands@.len() as int),
                width,
                height,
                exclude,
            ),
        decreases cands.len() - i,
    {
        let (id, w, h) = cands[i];
        proof {
            let rest = cands@.subrange(i as int, cands@.len() as int);
            assert(rest[0] == cands@[i as int]);
            assert(rest.drop_first() =~= cands@.subrange(i + 1, cands@.len() as int));
        }
        let skip = match exclude {
            Some(x) => x == id,
            None => false,
        };
        if !skip && ratios_match(w, h, width, height) {
            return Some(id);
        }
        i += 1;
    }
    None
}

// ---------------------------------------------------------------------------
// Content identity of a card
// ---------------------------------------------------------------------------

/// What identifies a card's picture: its canonical original URL, content hash,
/// perceptual hash, the largest size seen, and how the identity was established.
#[derive(Clone, Debug)]
pub struct ContentIdentity {
    pub canonical_original_url: Option<String>,
    pub sha256: Option<String>,
    pub perceptual_hash: Option<String>,
    pub width: u32,
    pub height: u32,
    pub confidence: String,
}

/// The identity recorded for a card seen for the first time.
pub open spec fn identity_created(
    canonical_url: Option<String>,
    sha256: Option<String>,
    perceptual_hash: Option<String>,
    width: u32,
    height: u32,
    r: ContentIdentity,
) -> bool {
    &&& r.canonical_original_url == canonical_url
    &&& r.sha256 == sha256
    &&& r.perceptual_hash == perceptual_hash
    &&& r.width == width
    &&& r.height == height
    &&& r.confidence@ == spec_confidence(sha256 is Some, canonical_url is Some, perceptual_hash is Some)
}

/// Records the identity of a card seen for the first time.
pub fn new_identity(
    canonical_url: Option<String>,
    sha256: Option<String>,
    perceptual_hash: Option<String>,
    width: u32,
    height: u32,
) -> (r: ContentIdentity)
    ensures
        identity_created(canonical_url, sha256, perceptual_hash, width, height, r),
{
    let confidence = identity_confidence(
        sha256.is_some(),
        canonical_url.is_some(),
        perceptual_hash.is_some(),
    ).to_string();
    ContentIdentity {
        canonical_original_url: canonical_url,
        sha256,
        perceptual_hash,
        width,
        height,
        confidence,
    }
}

/// An identity after another observation of the same picture: the first known
/// canonical URL stays; a new content or perceptual hash replaces the old one,
/// a missing one keeps it; width and height keep the largest seen; confidence
/// is upgraded by the new evidence.
pub open spec fn identity_merged(
    existing: ContentIdentity,
    canonical_url: Option<String>,
    sha256: Option<String>,
    perceptual_hash: Option<String>,
    width: u32,
    height: u32,
    r: ContentIdentity,
) -> bool {
    &&& r.canonical_original_url == (if existing.canonical_original_url is Some {
        existing.canonical_original_url
    } else {
        canonical_url
    })
    &&& r.sha256 == (if sha256 is Some {
        sha256
    } else {
        existing.sha256
    })
    &&& r.perceptual_hash == (if perceptual_hash is Some {
        perceptual_hash
    } else {
        existing.perceptual_hash
    })
    &&& r.width == (if existing.width >= width {
        existing.width
    } else {
        width
    })
    &&& r.height == (if existing.height >= height {
        existing.height
    } else {
        height
    })
    &&& r.confidence@ == spec_merged_confidence(
        existing.confidence@,
        sha256 is Some,
        perceptual_hash is Some,
    )
}

/// Merges another observation of the same picture into a card's identity.
pub fn merge_identity(
    existing: ContentIdentity,
    canonical_url: Option<String>,
    sha256: Option<String>,
    perceptual_hash: Option<String>,
    width: u32,
    height: u32,
) -> (r: ContentIdentity)
    ensures
        identity_merged(existing, canonical_url, sha256, perceptual_hash, width, height, r),
{
    let confidence = merged_confidence(
        existing.confidence.as_str(),
        sha256.is_some(),
        perceptual_hash.is_some(),
    );
    let ContentIdentity {
        canonical_original_url: e_url,
        sha256: e_sha,
        perceptual_hash: e_perceptual,
        width: e_width,
        height: e_height,
        confidence: _,
    } = existing;
    ContentIdentity {
        canonical_original_url: if e_url.is_some() {
            e_url
        } else {
            canonical_url
        },
        sha256: if sha256.is_some() {
            sha256
        } else {
            e_sha
        },
        perceptual_hash: if perceptual_hash.is_some() {
            perceptual_hash
        } else {
            e_perceptual
        },
        width: if e_width >= width {
            e_width
        } else {
            width
        },
        height: if e_height >= height {
            e_height
        } else {
            height
        },
        confidence,
    }
}

/// The exclusion left for a stored card's provider source, local path and hash.
pub fn tombstone(
    provider: String,
    remote_id: String,
    local_path: Option<String>,
    hash: Option<String>,
) -> (e: Exclusion)
    ensures
        e.provider == Some(provider),
        e.remote_id == Some(remote_id),
        e.normalized_path == local_path,
        e.content_hash == hash,
{
    Exclusion {
        provider: Some(provider),
        remote_id: Some(remote_id),
        normalized_path: local_path,
        content_hash: hash,
    }
}

// ---------------------------------------------------------------------------
// Laws of the catalog
// ---------------------------------------------------------------------------

/// The card a record joins: its provider source first, then its canonical URL,
/// then its content hash.
pub open spec fn spec_first_known(by_source: Option<i64>, by_url: Option<i64>, by_hash: Option<i64>) -> Option<
    i64,
> {
    if by_source is Some {
        by_source
    } else if by_url is Some {
        by_url
    } else {
        by_hash
    }
}

/// Merging the same observation into a content identity a second time leaves
/// it as the first merge made it.
pub proof fn identity_merge_is_idempotent(
    existing: ContentIdentity,
    canonical_url: Option<String>,
    sha256: Option<String>,
    perceptual_hash: Option<String>,
    width: u32,
    height: u32,
    once: ContentIdentity,
    twice: ContentIdentity,
)
    requires
        identity_merged(existing, canonical_url, sha256, perceptual_hash, width, height, once),
        identity_merged(once, canonical_url, sha256, perceptual_hash, width, height, twice),
    ensures
        twice.canonical_original_url == once.canonical_original_url,
        twice.sha256 == once.sha256,
        twice.perceptual_hash == once.perceptual_hash,
        twice.width == once.width,
        twice.height == once.height,
        twice.confidence@ == once.confidence@,
{
    reveal_strlit("perceptual");
    reveal_strlit("provider");
    reveal_strlit("hash");
}

/// Normalizing tags that are already normalized changes nothing, so the tags a
/// card keeps are the same however often a record is imported.
pub proof fn tag_normalization_is_idempotent(tags: Seq<Seq<char>>)
    ensures
        spec_normalized_tags(spec_normalized_tags(tags)) == spec_normalized_tags(tags),
    decreases tags.len(),
{
    if tags.len() > 0 {
        tag_normalization_is_idempotent(tags.drop_last());
        let rest = spec_normalized_tags(tags.drop_last());
        let t = spec_trim(tags.last());
        if t.len() > 0 {
            crate::text::trim_is_idempotent(tags.last());
            assert(rest.push(t).drop_last() =~= rest);
        }
    }
}

/// Importing a record again changes nothing: its provider source already names
/// its card, so it joins that card rather than adding one; the card's display
/// metadata and content identity stay as the first import left them; and its
/// normalized tags are unchanged by normalizing again.
pub proof fn repeated_import_changes_nothing(
    card_id: i64,
    by_url: Option<i64>,
    by_hash: Option<i64>,
    stored: CardDisplay,
    incoming: CardDisplay,
    card_once: CardDisplay,
    card_twice: CardDisplay,
    identity: ContentIdentity,
    canonical_url: Option<String>,
    sha256: Option<String>,
    perceptual_hash: Option<String>,
    identity_once: ContentIdentity,
    identity_twice: ContentIdentity,
    tags: Seq<Seq<char>>,
)
    requires
        merged_card(stored, incoming, card_once),
        merged_card(card_once, incoming, card_twice),
        identity_merged(
            identity,
            canonical_url,
            sha256,
            perceptual_hash,
            incoming.width,
            incoming.height,
            identity_once,
        ),
        identity_merged(
            identity_once,
            canonical_url,
            sha256,
            perceptual_hash,
            incoming.width,
            incoming.height,
            identity_twice,
        ),
    ensures
        spec_first_known(Some(card_id), by_url, by_hash) == Some(card_id),
        card_twice == card_once,
        identity_twice.canonical_original_url == identity_once.canonical_original_url,
        identity_twice.sha256 == identity_once.sha256,
        identity_twice.perceptual_hash == identity_once.perceptual_hash,
        identity_twice.width == identity_once.width,
        identity_twice.height == identity_once.height,
        identity_twice.confidence@ == identity_once.confidence@,
        spec_normalized_tags(spec_normalized_tags(tags)) == spec_normalized_tags(tags),
{
    merge_is_idempotent(stored, incoming, card_once, card_twice);
    identity_merge_is_idempotent(
        identity,
        canonical_url,
        sha256,
        perceptual_hash,
        incoming.width,
        incoming.height,
        identity_once,
        identity_twice,
    );
    tag_normalization_is_idempotent(tags);
}

/// Equal content keeps one card: a download whose content already belongs to
/// another card is folded into that card, which keeps every mark either had; a
/// download with no duplicate keeps its own card.
pub proof fn equal_content_keeps_one_card(
    wallpaper_id: i64,
    duplicate: i64,
    retained: UserFlags,
    redundant: UserFlags,
)
    ensures
        spec_retained_identity(wallpaper_id, Some(duplicate)) == duplicate,
        spec_retained_identity(wallpaper_id, None) == wallpaper_id,
        spec_merge_flags(retained, redundant).favorite <==> (retained.favorite || redundant.favorite),
        spec_merge_flags(retained, redundant).blacklisted <==> (retained.blacklisted
            || redundant.blacklisted),
        spec_merge_flags(retained, redundant).preset <==> (retained.preset || redundant.preset),
        spec_merge_flags(retained, retained) == retained,
{
}

} // verus!


