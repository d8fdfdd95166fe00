//! Local folders: extension policy, metadata records of inspected files and the
//! search, ordering and paging applied to the local snapshot.
use vstd::prelude::*;

use crate::error::{AppError, AppResult};
use crate::image_processing::{
    dimensions_text, inspect_image, inspection_error, metadata_of, spec_dimensions_text,
    ImageMetadata,
};
use crate::platform::{extension, file_name, spec_extension, spec_file_name, PathStyle};
use crate::cache::{path_within, spec_path_within};
use crate::provider::{
    clamp, first_page, string_views, RemoteWallpaper, WallpaperCategory, WallpaperQuery,
};
use crate::text::{
    ascii_lowercase, ascii_lowercase_str, chars_of, contains, slice_chars, spec_ascii_lowercase,
    spec_contains, str_eq, string_from_chars, text_lt, text_precedes,
};

verus! {

/// Read-only adapter for directories explicitly selected by the user.
pub struct LocalProvider {
    pub roots: Vec<String>,
}

impl LocalProvider {
    /// Stores only caller-approved roots; scanning never broadens access beyond them.
    pub fn new(roots: Vec<String>) -> (p: LocalProvider)
        ensures
            p.roots == roots,
    {
        LocalProvider { roots }
    }

    /// Validates and hashes one changed file through the shared image safety policy.
    pub fn inspect_file(path: &str, data: &[u8], style: PathStyle) -> (r: AppResult<RemoteWallpaper>)
        ensures
            match inspection_error(data@) {
                Some(message) => r matches Err(AppError::Image(m)) && m@ == message,
                None => exists|meta: ImageMetadata|
                    metadata_of(data@, meta) && local_record(path@, meta, style, r),
            },
    {
        let metadata = inspect_image(data)?;
        read_local_metadata(path, metadata, style)
    }
}

/// Extensions of the formats scanned in local folders.
pub open spec fn is_local_image_extension(ext: Seq<char>) -> bool {
    ext == "jpg"@ || ext == "jpeg"@ || ext == "png"@ || ext == "webp"@
}

/// Whether a path names a supported image (case-insensitive extension).
pub open spec fn spec_is_supported_image(path: Seq<char>, style: PathStyle) -> bool {
    match spec_extension(path, style) {
        Some(e) => is_local_image_extension(spec_ascii_lowercase(e)),
        None => false,
    }
}

/// Keeps extension policy centralized and case-insensitive.
pub fn is_supported_image(path: &str, style: PathStyle) -> (b: bool)
    ensures
        b == spec_is_supported_image(path@, style),
{
    match extension(&chars_of(path), style) {
        Some(e) => {
            let lowered = string_from_chars(&ascii_lowercase(&e));
            let l = lowered.as_str();
            str_eq(l, "jpg") || str_eq(l, "jpeg") || str_eq(l, "png") || str_eq(l, "webp")
        },
        None => false,
    }
}

/// The file name without its extension, as `Path::file_stem` gives it.
pub open spec fn spec_file_stem(path: Seq<char>, style: PathStyle) -> Option<Seq<char>> {
    let name = spec_file_name(path, style)->0;
    if spec_file_name(path, style) is None {
        None
    } else if exists|i: int| 0 < i < name.len() && name[i] == '.' {
        let i = choose|i: int|
            0 < i < name.len() && name[i] == '.' && forall|k: int| i < k < name.len() ==> name[k] != '.';
        Some(name.take(i))
    } else {
        Some(name)
    }
}

fn file_stem(path: &str, style: PathStyle) -> (r: Option<String>)
    ensures
        match spec_file_stem(path@, style) {
            Some(s) => r matches Some(x) && x@ == s,
            None => r is None,
        },
{
    let name = match file_name(&chars_of(path), style) {
        Some(n) => n,
        None => {
            return None;
        },
    };
    let mut i: usize = name.len();
    while i > 1
        invariant
            i <= name.len(),
            spec_file_name(path@, style) == Some(name@),
            forall|k: int| i <= k < name@.len() ==> name@[k] != '.',
        decreases i,
    {
        if name[i - 1] == '.' {
            proof {
                let n = name@;
                let d = (i - 1) as int;
                assert(n[d] == '.');
                let j = choose|j: int|
                    0 < j < n.len() && n[j] == '.' && forall|k: int| j < k < n.len() ==> n[k] != '.';
                assert(j == d) by {
                    if j < d {
                        assert(n[d] == '.');
                    } else if d < j {
                        assert(n[j] == '.');
                    }
                }
            }
            return Some(string_from_chars(&slice_chars(&name, 0, i - 1)));
        }
        i -= 1;
    }
    proof {
        assert(forall|k: int| 0 < k < name@.len() ==> name@[k] != '.');
    }
    Some(string_from_chars(&name))
}

/// `r` is the local record of the file at `path` with inspected metadata `meta`.
pub open spec fn local_record(
    path: Seq<char>,
    meta: ImageMetadata,
    style: PathStyle,
    r: AppResult<RemoteWallpaper>,
) -> bool {
    if meta.file_size > i64::MAX {
        r matches Err(AppError::FileSystem(m)) && m@ == "local wallpaper is too large to index"@
    } else {
        r matches Ok(w) && {
            &&& w.remote_id == meta.sha256
            &&& w.provider@ == "local"@
            &&& w.name@ == match spec_file_stem(path, style) {
                Some(s) => s,
                None => path,
            }
            &&& w.source_page_url is None
            &&& w.original_url is None
            &&& w.thumbnail_url is None
            &&& w.thumbnail_local_path is None
            &&& w.local_path matches Some(p) && p@ == path
            &&& w.width == Some(meta.width)
            &&& w.height == Some(meta.height)
            &&& w.resolution matches Some(t) && t@ == spec_dimensions_text(
                meta.width as nat,
                meta.height as nat,
            )
            &&& w.ratio == Some(meta.aspect_ratio)
            &&& w.file_size == Some(meta.file_size as i64)
            &&& w.mime_type matches Some(t) && t@ == meta.mime_type@
            &&& w.category@ == "local"@
            &&& w.purity@ == "local"@
            &&& w.tags@.len() == 0
            &&& w.created_at is None
            &&& w.author is None
            &&& w.license_name is None
            &&& w.license_url is None
            &&& w.perceptual_hash is None
        }
    }
}

/// Builds the record of one inspected local file.
pub fn read_local_metadata(path: &str, metadata: ImageMetadata, style: PathStyle) -> (r: AppResult<
    RemoteWallpaper,
>)
    ensures
        local_record(path@, metadata, style, r),
{
    if metadata.file_size > 0x7FFF_FFFF_FFFF_FFFF {
        return Err(AppError::FileSystem("local wallpaper is too large to index".to_string()));
    }
    let name = match file_stem(path, style) {
        Some(stem) => stem,
        None => path.to_string(),
    };
    let resolution = dimensions_text(metadata.width, metadata.height);
    Ok(
        RemoteWallpaper {
            remote_id: metadata.sha256,
            provider: "local".to_string(),
            name,
            source_page_url: None,
            original_url: None,
            thumbnail_url: None,
            thumbnail_local_path: None,
            local_path: Some(path.to_string()),
            width: Some(metadata.width),
            height: Some(metadata.height),
            resolution: Some(resolution),
            ratio: Some(metadata.aspect_ratio),
            file_size: Some(metadata.file_size as i64),
            mime_type: Some(metadata.mime_type.to_string()),
            category: "local".to_string(),
            purity: "local".to_string(),
            tags: Vec::new(),
            created_at: None,
            author: None,
            license_name: None,
            license_url: None,
            perceptual_hash: None,
        },
    )
}

// ---------------------------------------------------------------------------
// Search, ordering and paging of the local snapshot
// ---------------------------------------------------------------------------

/// Whether a wallpaper's name matches a lowercased keyword (empty matches all).
pub open spec fn name_matches(w: RemoteWallpaper, keyword: Seq<char>) -> bool {
    keyword.len() == 0 || spec_contains(spec_ascii_lowercase(w.name@), keyword)
}

/// Stable insertion by name: after every element whose name does not follow it.
pub open spec fn insert_by_name(s: Seq<RemoteWallpaper>, x: RemoteWallpaper) -> Seq<RemoteWallpaper>
    decreases s.len(),
{
    if s.len() == 0 {
        seq![x]
    } else if text_lt(x.name@, s.last().name@) {
        insert_by_name(s.drop_last(), x).push(s.last())
    } else {
        s.push(x)
    }
}

/// The matching wallpapers, stably sorted by name.
pub open spec fn sorted_matches(s: Seq<RemoteWallpaper>, keyword: Seq<char>) -> Seq<RemoteWallpaper>
    decreases s.len(),
{
    if s.len() == 0 {
        Seq::empty()
    } else if name_matches(s.last(), keyword) {
        insert_by_name(sorted_matches(s.drop_last(), keyword), s.last())
    } else {
        sorted_matches(s.drop_last(), keyword)
    }
}

/// The page of `items` starting at `offset` with at most `size` items.
pub open spec fn page_of<T>(items: Seq<T>, offset: nat, size: nat) -> Seq<T> {
    if offset >= items.len() {
        Seq::empty()
    } else if offset + size >= items.len() {
        items.skip(offset as int)
    } else {
        items.subrange(offset as int, (offset + size) as int)
    }
}

/// The local search: only the All and Local categories, names containing the
/// keyword (ASCII case-insensitive), sorted by name, one page of at most 100.
pub open spec fn spec_local_page(ws: Seq<RemoteWallpaper>, q: WallpaperQuery) -> Seq<RemoteWallpaper> {
    if q.category != WallpaperCategory::All && q.category != WallpaperCategory::Local {
        Seq::empty()
    } else {
        let keyword = match q.keyword {
            Some(k) => spec_ascii_lowercase(k@),
            None => Seq::empty(),
        };
        let size = clamp(q.page_size, 1, 100);
        page_of(sorted_matches(ws, keyword), ((first_page(q.page) - 1) * size) as nat, size)
    }
}

proof fn lemma_insert_by_name_suffix(s: Seq<RemoteWallpaper>, x: RemoteWallpaper, j: int)
    requires
        0 <= j <= s.len(),
        forall|k: int| j <= k < s.len() ==> text_lt(x.name@, #[trigger] s[k].name@),
    ensures
        insert_by_name(s, x) == insert_by_name(s.subrange(0, j), x) + s.subrange(j, s.len() as int),
    decreases s.len() - j,
{
    if j < s.len() {
        let d = s.drop_last();
        assert forall|k: int| j <= k < d.len() implies text_lt(x.name@, #[trigger] d[k].name@) by {
            assert(d[k] == s[k]);
        }
        lemma_insert_by_name_suffix(d, x, j);
        assert(d.subrange(0, j) =~= s.subrange(0, j));
        assert(text_lt(x.name@, s[s.len() - 1].name@));
        assert(d.subrange(j, d.len() as int).push(s.last()) =~= s.subrange(j, s.len() as int));
    } else {
        assert(s.subrange(0, j) =~= s);
        assert(s.subrange(j, s.len() as int) =~= Seq::<RemoteWallpaper>::empty());
    }
}

fn insert_wallpaper(sorted: &mut Vec<RemoteWallpaper>, x: RemoteWallpaper)
    ensures
        final(sorted)@ == insert_by_name(old(sorted)@, x),
{
    let ghost s = sorted@;
    let mut j: usize = sorted.len();
    while j > 0 && text_precedes(&x.name, &sorted[j - 1].name)
        invariant
            j <= sorted.len(),
            sorted@ == s,
            forall|k: int| j <= k < s.len() ==> text_lt(x.name@, #[trigger] s[k].name@),
        decreases j,
    {
        j -= 1;
    }
    proof {
        lemma_insert_by_name_suffix(s, x, j as int);
        let p = s.subrange(0, j as int);
        if j > 0 {
            assert(p.last() == s[j - 1]);
        }
    }
    sorted.insert(j, x);
    assert(sorted@ =~= s.subrange(0, j as int).push(x) + s.subrange(j as int, s.len() as int));
}

/// Applies provider-neutral search and bounded pagination to the local index snapshot.
pub fn local_page(wallpapers: Vec<RemoteWallpaper>, query: &WallpaperQuery) -> (r: Vec<
    RemoteWallpaper,
>)
    ensures
        r@ == spec_local_page(wallpapers@, *query),
{
    match query.category {
        WallpaperCategory::All | WallpaperCategory::Local => {},
        _ => {
            return Vec::new();
        },
    }
    let keyword: Vec<char> = match &query.keyword {
        Some(k) => ascii_lowercase(&chars_of(k.as_str())),
        None => Vec::new(),
    };
    let ghost all = wallpapers@;
    let mut pending = wallpapers;
    let mut sorted: Vec<RemoteWallpaper> = Vec::new();
    while pending.len() > 0
        invariant
            pending.len() <= all.len(),
            pending@ == all.subrange(all.len() - pending.len(), all.len() as int),
            sorted@ == sorted_matches(all.take(all.len() - pending.len()), keyword@),
        decreases pending.len(),
    {
        let ghost n = all.len() - pending.len();
        let w = pending.remove(0);
        assert(w == all[n]);
        assert(all.take(n + 1).drop_last() =~= all.take(n));
        let keep = keyword.len() == 0 || contains(
            &ascii_lowercase(&chars_of(w.name.as_str())),
            &keyword,
        );
        if keep {
            insert_wallpaper(&mut sorted, w);
        }
        assert(pending@ =~= all.subrange(all.len() - pending.len(), all.len() as int));
    }
    assert(all.take(all.len() as int) =~= all);
    let size: u64 = if query.page_size < 1 {
        1
    } else if query.page_size > 100 {
        100
    } else {
        query.page_size as u64
    };
    let page: u64 = if query.page < 1 {
        1
    } else {
        query.page as u64
    };
    assert((page - 1) * size <= 0xFFFF_FFFFu64 * 100) by (nonlinear_arith)
        requires
            1 <= page <= 0xFFFF_FFFFu64,
            size <= 100,
    ;
    let offset: u64 = (page - 1) * size;
    let ghost s = sorted@;
    let mut r: Vec<RemoteWallpaper> = Vec::new();
    if offset >= sorted.len() as u64 {
        assert(r@ =~= page_of(s, offset as nat, size as nat));
        return r;
    }
    let start = offset as usize;
    let end: usize = if offset + size >= sorted.len() as u64 {
        sorted.len()
    } else {
        (offset + size) as usize
    };
    let mut rest = sorted.split_off(start);
    assert(rest@ =~= s.skip(start as int));
    rest.truncate(end - start);
    assert(rest@ =~= page_of(s, offset as nat, size as nat));
    rest
}

/// Finds the local record with a content id.
pub fn find_local(wallpapers: Vec<RemoteWallpaper>, remote_id: &str) -> (r: AppResult<RemoteWallpaper>)
    ensures
        match r {
            Ok(w) => w.remote_id@ == remote_id@ && wallpapers@.contains(w) && exists|i: int|
                0 <= i < wallpapers@.len() && wallpapers@[i] == w && forall|k: int|
                    0 <= k < i ==> wallpapers@[k].remote_id@ != remote_id@,
            Err(e) => e matches AppError::Provider(m) && m@ == "local wallpaper no longer exists"@
                && forall|k: int| 0 <= k < wallpapers@.len() ==> wallpapers@[k].remote_id@ != remote_id@,
        },
{
    let ghost all = wallpapers@;
    let mut pending = wallpapers;
    while pending.len() > 0
        invariant
            pending.len() <= all.len(),
            pending@ == all.subrange(all.len() - pending.len(), all.len() as int),
            all == wallpapers@,
            forall|k: int| 0 <= k < all.len() - pending.len() ==> all[k].remote_id@ != remote_id@,
        decreases pending.len(),
    {
        let ghost n = all.len() - pending.len();
        let w = pending.remove(0);
        assert(w == all[n]);
        if str_eq(w.remote_id.as_str(), remote_id) {
            assert(all[n] == w);
            assert(all.contains(w));
            return Ok(w);
        }
        assert(pending@ =~= all.subrange(all.len() - pending.len(), all.len() as int));
    }
    Err(AppError::Provider("local wallpaper no longer exists".to_string()))
}

/// Why a local download is refused before the file system is consulted, if it is;
/// otherwise the recorded path is checked against the approved roots by the caller.
pub open spec fn spec_local_download_refusal(w: RemoteWallpaper) -> Option<Seq<char>> {
    if w.provider@ != "local"@ {
        Some("wallpaper does not belong to LocalProvider"@)
    } else if w.local_path is None {
        Some("local wallpaper metadata has no file path"@)
    } else {
        None
    }
}

/// Returns the recorded path of a local wallpaper, or why it cannot be served.
pub fn local_download_path(wallpaper: &RemoteWallpaper) -> (r: AppResult<&String>)
    ensures
        match spec_local_download_refusal(*wallpaper) {
            Some(message) => r matches Err(AppError::Provider(m)) && m@ == message,
            None => r matches Ok(p) && Some(*p) == wallpaper.local_path,
        },
{
    if !str_eq(wallpaper.provider.as_str(), "local") {
        return Err(AppError::Provider("wallpaper does not belong to LocalProvider".to_string()));
    }
    match &wallpaper.local_path {
        Some(p) => Ok(p),
        None => Err(AppError::Provider("local wallpaper metadata has no file path".to_string())),
    }
}

/// Whether a canonical file may be served: inside an approved root, a regular
/// file, and of a supported format.
pub fn local_download_allowed(inside_root: bool, is_file: bool, canonical: &str, style: PathStyle) -> (r:
    AppResult<()>)
    ensures
        (inside_root && is_file && spec_is_supported_image(canonical@, style)) ==> r is Ok,
        !(inside_root && is_file && spec_is_supported_image(canonical@, style)) ==> (r matches Err(
            AppError::Provider(m),
        ) && m@ == "local wallpaper is outside the selected directories or unsupported"@),
{
    if !inside_root || !is_file || !is_supported_image(canonical, style) {
        return Err(
            AppError::Provider(
                "local wallpaper is outside the selected directories or unsupported".to_string(),
            ),
        );
    }
    Ok(())
}

// ---------------------------------------------------------------------------
// Tracked roots and file availability
// ---------------------------------------------------------------------------

/// The roots after appending, in order, each one not already present.
pub open spec fn with_new_roots(existing: Seq<Seq<char>>, roots: Seq<Seq<char>>) -> Seq<Seq<char>>
    decreases roots.len(),
{
    if roots.len() == 0 {
        existing
    } else {
        let before = with_new_roots(existing, roots.drop_last());
        if before.contains(roots.last()) {
            before
        } else {
            before.push(roots.last())
        }
    }
}

/// Stable insertion of a text after every element that does not follow it.
pub open spec fn insert_text(s: Seq<Seq<char>>, x: Seq<char>) -> Seq<Seq<char>>
    decreases s.len(),
{
    if s.len() == 0 {
        seq![x]
    } else if text_lt(x, s.last()) {
        insert_text(s.drop_last(), x).push(s.last())
    } else {
        s.push(x)
    }
}

/// Texts in ascending code-point order (a stable insertion sort).
pub open spec fn sorted_texts(s: Seq<Seq<char>>) -> Seq<Seq<char>>
    decreases s.len(),
{
    if s.len() == 0 {
        Seq::empty()
    } else {
        insert_text(sorted_texts(s.drop_last()), s.last())
    }
}

proof fn lemma_insert_text_suffix(s: Seq<Seq<char>>, x: Seq<char>, j: int)
    requires
        0 <= j <= s.len(),
        forall|k: int| j <= k < s.len() ==> text_lt(x, #[trigger] s[k]),
    ensures
        insert_text(s, x) == insert_text(s.subrange(0, j), x) + s.subrange(j, s.len() as int),
    decreases s.len() - j,
{
    if j < s.len() {
        let d = s.drop_last();
        assert forall|k: int| j <= k < d.len() implies text_lt(x, #[trigger] d[k]) by {
            assert(d[k] == s[k]);
        }
        lemma_insert_text_suffix(d, x, j);
        assert(d.subrange(0, j) =~= s.subrange(0, j));
        assert(text_lt(x, s[s.len() - 1]));
        assert(d.subrange(j, d.len() as int).push(s.last()) =~= s.subrange(j, s.len() as int));
    } else {
        assert(s.subrange(0, j) =~= s);
        assert(s.subrange(j, s.len() as int) =~= Seq::<Seq<char>>::empty());
    }
}

fn insert_sorted_text(sorted: &mut Vec<String>, x: String)
    ensures
        string_views(final(sorted)@) == insert_text(string_views(old(sorted)@), x@),
{
    let ghost s = string_views(sorted@);
    let mut j: usize = sorted.len();
    while j > 0 && text_precedes(&x, &sorted[j - 1])
        invariant
            j <= sorted.len(),
            string_views(sorted@) == s,
            forall|k: int| j <= k < s.len() ==> text_lt(x@, #[trigger] s[k]),
        decreases j,
    {
        assert(s[j - 1] == sorted@[j - 1]@);
        j -= 1;
    }
    proof {
        lemma_insert_text_suffix(s, x@, j as int);
        let p = s.subrange(0, j as int);
        if j > 0 {
            assert(p.last() == s[j - 1]);
        }
    }
    sorted.insert(j, x);
    assert(string_views(sorted@) =~= s.subrange(0, j as int).push(x@) + s.subrange(
        j as int,
        s.len() as int,
    ));
}

/// Sorts texts in ascending code-point order, the order `sort` gives strings.
pub fn sort_texts(texts: Vec<String>) -> (r: Vec<String>)
    ensures
        string_views(r@) == sorted_texts(string_views(texts@)),
{
    let ghost all = string_views(texts@);
    let mut pending = texts;
    let mut sorted: Vec<String> = Vec::new();
    while pending.len() > 0
        invariant
            pending.len() <= all.len(),
            string_views(pending@) == all.subrange(all.len() - pending.len(), all.len() as int),
            string_views(sorted@) == sorted_texts(all.take(all.len() - pending.len())),
        decreases pending.len(),
    {
        let ghost n = all.len() - pending.len();
        let ghost p = pending@;
        let x = pending.remove(0);
        assert(x@ == string_views(p)[0]);
        assert(x@ == all[n]);
        assert(all.take(n + 1).drop_last() =~= all.take(n));
        insert_sorted_text(&mut sorted, x);
        assert(pending@ =~= p.subrange(1, p.len() as int));
        assert(string_views(pending@) =~= string_views(p).subrange(1, p.len() as int));
        assert(string_views(pending@) =~= all.subrange(all.len() - pending.len(), all.len() as int));
    }
    assert(all.take(all.len() as int) =~= all);
    sorted
}

fn contains_text(v: &Vec<String>, x: &String) -> (b: bool)
    ensures
        b == string_views(v@).contains(x@),
{
    let ghost views = string_views(v@);
    let mut i: usize = 0;
    while i < v.len()
        invariant
            i <= v.len(),
            views == string_views(v@),
            forall|k: int| 0 <= k < i ==> views[k] != x@,
        decreases v.len() - i,
    {
        if str_eq(v[i].as_str(), x.as_str()) {
            assert(views[i as int] == x@);
            return true;
        }
        i += 1;
    }
    false
}

/// Adds newly selected roots to the tracked list; `Some` holds the sorted list when
/// anything was added, `None` means the list is unchanged.
pub fn track_directories(existing: &Vec<String>, roots: &Vec<String>) -> (r: Option<Vec<String>>)
    ensures
        match r {
            None => with_new_roots(string_views(existing@), string_views(roots@)) == string_views(
                existing@,
            ),
            Some(v) => with_new_roots(string_views(existing@), string_views(roots@)).len()
                > existing@.len() && string_views(v@) == sorted_texts(
                with_new_roots(string_views(existing@), string_views(roots@)),
            ),
        },
{
    let ghost e = string_views(existing@);
    let ghost rs = string_views(roots@);
    let mut listed = crate::provider::copy_strings(existing);
    let mut i: usize = 0;
    while i < roots.len()
        invariant
            i <= roots.len(),
            e == string_views(existing@),
            rs == string_views(roots@),
            string_views(listed@) == with_new_roots(e, rs.take(i as int)),
            listed@.len() >= existing@.len(),
        decreases roots.len() - i,
    {
        assert(rs.take(i + 1).drop_last() =~= rs.take(i as int));
        assert(rs.take(i + 1).last() == roots@[i as int]@);
        if !contains_text(&listed, &roots[i]) {
            let root = roots[i].clone();
            listed.push(root);
            assert(string_views(listed@) =~= with_new_roots(e, rs.take(i as int)).push(
                roots@[i as int]@,
            ));
        }
        i += 1;
    }
    assert(rs.take(roots.len() as int) =~= rs);
    if listed.len() == existing.len() {
        proof {
            lemma_roots_extend(e, rs);
            assert(with_new_roots(e, rs) =~= e);
        }
        None
    } else {
        Some(sort_texts(listed))
    }
}

proof fn lemma_roots_extend(existing: Seq<Seq<char>>, roots: Seq<Seq<char>>)
    ensures
        with_new_roots(existing, roots).len() >= existing.len(),
        with_new_roots(existing, roots).subrange(0, existing.len() as int) == existing,
    decreases roots.len(),
{
    if roots.len() > 0 {
        lemma_roots_extend(existing, roots.drop_last());
        let before = with_new_roots(existing, roots.drop_last());
        if !before.contains(roots.last()) {
            assert(before.push(roots.last()).subrange(0, existing.len() as int) =~= before.subrange(
                0,
                existing.len() as int,
            ));
        }
    }
}

/// Index of the first listed root that contains `path`.
pub open spec fn first_owning_root(path: Seq<char>, roots: Seq<Seq<char>>, style: PathStyle) -> Option<
    int,
> {
    if exists|k: int| 0 <= k < roots.len() && spec_path_within(path, #[trigger] roots[k], style) {
        Some(
            choose|k: int|
                0 <= k < roots.len() && spec_path_within(path, roots[k], style) && forall|j: int|
                    0 <= j < k ==> !spec_path_within(path, #[trigger] roots[j], style),
        )
    } else {
        None
    }
}

/// Finds the first listed root that contains `path`.
pub fn owning_root(path: &str, roots: &Vec<String>, style: PathStyle) -> (r: Option<usize>)
    ensures
        match first_owning_root(path@, string_views(roots@), style) {
            Some(k) => r == Some(k as usize),
            None => r is None,
        },
{
    let ghost views = string_views(roots@);
    let mut i: usize = 0;
    while i < roots.len()
        invariant
            i <= roots.len(),
            views == string_views(roots@),
            forall|j: int| 0 <= j < i ==> !spec_path_within(path@, #[trigger] views[j], style),
        decreases roots.len() - i,
    {
        if path_within(path, roots[i].as_str(), style) {
            proof {
                assert(spec_path_within(path@, views[i as int], style));
                let f = first_owning_root(path@, views, style)->0;
                assert(first_owning_root(path@, views, style) is Some);
                assert(f == i) by {
                    if f < i {
                        assert(!spec_path_within(path@, views[f], style));
                    }
                    if f > i {
                        assert(spec_path_within(path@, views[i as int], style));
                    }
                }
            }
            return Some(i);
        }
        i += 1;
    }
    None
}

/// The availability a user-owned file is given when its roots are re-checked:
/// present files are available; absent ones are missing when their root is still a
/// directory and temporarily unavailable when it is not; files outside every root
/// are left as they are (`None`).
pub fn file_availability(is_file: bool, owning_root_is_dir: Option<bool>) -> (r: Option<&'static str>)
    ensures
        is_file ==> (r matches Some(s) && s@ == "available"@),
        !is_file && owning_root_is_dir == Some(true) ==> (r matches Some(s) && s@ == "missing"@),
        !is_file && owning_root_is_dir == Some(false) ==> (r matches Some(s) && s@
            == "temporarily_unavailable"@),
        !is_file && owning_root_is_dir is None ==> r is None,
{
    if is_file {
        Some("available")
    } else {
        match owning_root_is_dir {
            Some(true) => Some("missing"),
            Some(false) => Some("temporarily_unavailable"),
            None => None,
        }
    }
}

/// `x`, cut down to `n`.
pub open spec fn clip(x: int, n: int) -> int {
    if x < n {
        x
    } else {
        n
    }
}

/// The keyword a local query searches for, lowercased (empty when absent).
pub open spec fn local_keyword(q: WallpaperQuery) -> Seq<char> {
    match q.keyword {
        Some(k) => spec_ascii_lowercase(k@),
        None => Seq::empty(),
    }
}

/// Pages of the local index tile its sorted matches: page `p` of size `s` holds
/// the matches from position `(p - 1) * s` up to `p * s`, and pages `p` and
/// `p + 1` together hold the matches from `(p - 1) * s` up to `(p + 1) * s`, so
/// consecutive pages neither repeat nor skip a wallpaper.
pub proof fn local_pages_tile_the_matches(
    ws: Seq<RemoteWallpaper>,
    q: WallpaperQuery,
    next: WallpaperQuery,
)
    requires
        q.category == WallpaperCategory::All || q.category == WallpaperCategory::Local,
        q.page >= 1,
        next.page == q.page + 1,
        next.category == q.category,
        next.keyword == q.keyword,
        next.page_size == q.page_size,
    ensures
        ({
            let m = sorted_matches(ws, local_keyword(q));
            let s = clamp(q.page_size, 1, 100) as int;
            let start = (q.page - 1) * s;
            &&& spec_local_page(ws, q) == m.subrange(
                clip(start, m.len() as int),
                clip(start + s, m.len() as int),
            )
            &&& spec_local_page(ws, q) + spec_local_page(ws, next) == m.subrange(
                clip(start, m.len() as int),
                clip(start + 2 * s, m.len() as int),
            )
        }),
{
    let m = sorted_matches(ws, local_keyword(q));
    let s = clamp(q.page_size, 1, 100) as int;
    let start = (q.page - 1) * s;
    let n = m.len() as int;
    assert(q.page * s == start + s) by (nonlinear_arith)
        requires
            start == (q.page - 1) * s,
    ;
    assert(start >= 0) by (nonlinear_arith)
        requires
            start == (q.page - 1) * s,
            q.page >= 1,
            s >= 1,
    ;
    assert(first_page(q.page) == q.page);
    assert(first_page(next.page) == next.page);
    let a = clip(start, n);
    let b = clip(start + s, n);
    let c = clip(start + 2 * s, n);
    assert(spec_local_page(ws, q) =~= m.subrange(a, b));
    assert(spec_local_page(ws, next) =~= m.subrange(b, c));
    assert(m.subrange(a, b) + m.subrange(b, c) =~= m.subrange(a, c));
}

} // verus!

