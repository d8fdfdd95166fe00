//! Platform-neutral contracts and the pure decisions made around native adapters.
use vstd::prelude::*;

use crate::error::{AppError, AppResult};
use crate::models::MonitorInfo;
use crate::text::{
    ascii_lowercase, chars_of, concat2, find_char, parse_unsigned, slice_chars, spec_ascii_lowercase,
    spec_parse_unsigned, string_from_chars,
};

verus! {

/// Platform-neutral signals used only by declarative scheduler pause rules.
#[derive(Clone, Copy, Debug, Default, PartialEq, Eq)]
pub struct RuntimeEnvironment {
    pub on_battery: bool,
    pub fullscreen_app: bool,
    pub iso_weekday: u8,
    pub local_minutes: u16,
}

/// Captures transient power and foreground-window state.
pub trait PlatformEnvironmentService {
    fn runtime_environment(&self) -> AppResult<RuntimeEnvironment>;
}

/// Unified monitor contract consumed by commands and business services.
pub trait PlatformMonitorService {
    fn get_monitors(&self) -> AppResult<Vec<MonitorInfo>>;

    /// Derives the primary display from the same native snapshot used by callers.
    fn get_primary_monitor(&self) -> (r: AppResult<MonitorInfo>)
        ensures
            r matches Ok(m) ==> m.primary,
    {
        let monitors = self.get_monitors()?;
        primary_monitor(monitors)
    }
}

/// Unified wallpaper contract that keeps platform APIs out of business code.
pub trait PlatformWallpaperService {
    fn set_wallpaper_for_all(&self, image_path: &str) -> AppResult<()>;

    fn set_wallpaper_for_monitor(&self, monitor_id: &str, image_path: &str) -> AppResult<()>;

    /// Captures the current native assignment so spanning mode can roll back.
    fn get_wallpaper_for_monitor(&self, monitor_id: &str) -> AppResult<String>;

    /// Restores platform-managed assignments after a desktop transition.
    fn reconcile_wallpapers(&self) -> (r: AppResult<usize>)
        default_ensures
            r matches Ok(n) && n == 0,
    {
        Ok(0)
    }
}

/// Index of the first monitor reported as primary.
pub open spec fn first_primary(ms: Seq<MonitorInfo>) -> Option<int> {
    if exists|i: int| 0 <= i < ms.len() && ms[i].primary {
        Some(
            choose|i: int|
                0 <= i < ms.len() && ms[i].primary && forall|k: int| 0 <= k < i ==> !ms[k].primary,
        )
    } else {
        None
    }
}

/// The first monitor flagged primary, or a monitor error when none is.
pub fn primary_monitor(monitors: Vec<MonitorInfo>) -> (r: AppResult<MonitorInfo>)
    ensures
        match first_primary(monitors@) {
            Some(i) => r == Ok::<MonitorInfo, AppError>(monitors@[i]),
            None => r matches Err(AppError::Monitor(m)) && m@ == "no primary monitor was reported"@,
        },
        r matches Ok(m) ==> m.primary,
{
    let ghost original = monitors@;
    let mut i: usize = 0;
    while i < monitors.len()
        invariant
            i <= monitors.len(),
            monitors@ == original,
            forall|k: int| 0 <= k < i ==> !original[k].primary,
        decreases monitors.len() - i,
    {
        if monitors[i].primary {
            proof {
                let f = first_primary(original)->0;
                assert(first_primary(original) is Some);
                assert(f == i) by {
                    if f < i {
                        assert(!original[f].primary);
                    }
                    if f > i {
                        assert(original[i as int].primary);
                    }
                }
            }
            let mut list = monitors;
            let found = list.remove(i);
            assert(found == original[i as int]);
            return Ok(found);
        }
        i += 1;
    }
    Err(AppError::monitor("no primary monitor was reported"))
}

/// Native monitor bounds as signed edges.
#[derive(Clone, Copy, Debug, PartialEq, Eq)]
pub struct Rect {
    pub left: i32,
    pub top: i32,
    pub right: i32,
    pub bottom: i32,
}

/// The virtual-desktop origin lies inside the bounds (the primary-monitor marker).
pub fn contains_origin(bounds: &Rect) -> (b: bool)
    ensures
        b == (bounds.left <= 0 && bounds.right > 0 && bounds.top <= 0 && bounds.bottom > 0),
{
    bounds.left <= 0 && bounds.right > 0 && bounds.top <= 0 && bounds.bottom > 0
}

/// Accepts only strictly positive native dimensions.
pub fn positive_dimension(value: i32, label: &str) -> (r: AppResult<u32>)
    ensures
        value > 0 ==> r == Ok::<u32, AppError>(value as u32),
        value <= 0 ==> (r matches Err(AppError::Monitor(_))),
{
    if value <= 0 {
        let mut message = concat2("monitor ", label);
        message.append(" is invalid: ");
        let number = crate::text::signed_decimal(value as i64);
        message.append(number.as_str());
        return Err(AppError::Monitor(message));
    }
    Ok(value as u32)
}

// ---------------------------------------------------------------------------
// Wallpaper file formats accepted by native desktop APIs
// ---------------------------------------------------------------------------

/// How the target platform separates path components: Unix accepts only '/',
/// Windows accepts '/' and '\\'.
#[derive(Clone, Copy, Debug, PartialEq, Eq)]
pub enum PathStyle {
    Unix,
    Windows,
}

pub open spec fn is_separator(style: PathStyle, c: char) -> bool {
    c == '/' || (style == PathStyle::Windows && c == '\\')
}

pub fn separator_char(style: PathStyle, c: char) -> (b: bool)
    ensures
        b == is_separator(style, c),
{
    match style {
        PathStyle::Unix => c == '/',
        PathStyle::Windows => c == '/' || c == '\\',
    }
}

/// Index of the last separator in `path`, or -1 when it has none.
pub open spec fn last_separator_index(path: Seq<char>, style: PathStyle) -> int
    decreases path.len(),
{
    if path.len() == 0 {
        -1
    } else if is_separator(style, path.last()) {
        path.len() - 1
    } else {
        last_separator_index(path.drop_last(), style)
    }
}

/// The last separator, if any, lies inside the path, and before a final non-separator.
pub proof fn lemma_last_separator_bounds(path: Seq<char>, style: PathStyle)
    ensures
        -1 <= last_separator_index(path, style) < path.len(),
        path.len() > 0 && !is_separator(style, path.last()) ==> last_separator_index(path, style)
            < path.len() - 1,
    decreases path.len(),
{
    if path.len() > 0 && !is_separator(style, path.last()) {
        lemma_last_separator_bounds(path.drop_last(), style);
    }
}

/// The final name of a path, as `Path::file_name` gives it: trailing separators
/// and `.` components are passed over; a path that is empty, a root, or ends in a
/// `..` component has none. (Windows prefixes such as `C:` or a UNC share are
/// read as ordinary names.)
pub open spec fn spec_file_name(path: Seq<char>, style: PathStyle) -> Option<Seq<char>>
    decreases path.len(),
{
    if path.len() == 0 {
        None
    } else if is_separator(style, path.last()) {
        spec_file_name(path.drop_last(), style)
    } else {
        proof {
            lemma_last_separator_bounds(path, style);
        }
        let start = last_separator_index(path, style) + 1;
        let name = path.subrange(start, path.len() as int);
        if name =~= seq!['.'] {
            if start == 0 {
                None
            } else {
                spec_file_name(path.take(start), style)
            }
        } else if name =~= seq!['.', '.'] {
            None
        } else {
            Some(name)
        }
    }
}

/// The extension of a file name: the text after its last '.', when that '.' is
/// not the name's first character.
pub open spec fn name_extension(name: Seq<char>) -> Option<Seq<char>> {
    if exists|i: int| 0 < i < name.len() && name[i] == '.' {
        let i = choose|i: int|
            0 < i < name.len() && name[i] == '.' && forall|k: int| i < k < name.len() ==> name[k] != '.';
        Some(name.subrange(i + 1, name.len() as int))
    } else {
        None
    }
}

/// The extension of a path's final name, as `Path::extension` gives it.
pub open spec fn spec_extension(path: Seq<char>, style: PathStyle) -> Option<Seq<char>> {
    match spec_file_name(path, style) {
        None => None,
        Some(name) => name_extension(name),
    }
}

/// One past the last separator among the first `end` characters (0 when none).
fn name_start(path: &Vec<char>, end: usize, style: PathStyle) -> (r: usize)
    requires
        end <= path.len(),
    ensures
        r == last_separator_index(path@.take(end as int), style) + 1,
        r <= end,
    decreases end,
{
    if end == 0 {
        0
    } else if separator_char(style, path[end - 1]) {
        end
    } else {
        assert(path@.take(end as int).drop_last() =~= path@.take(end - 1));
        name_start(path, end - 1, style)
    }
}

fn file_name_upto(path: &Vec<char>, end: usize, style: PathStyle) -> (r: Option<Vec<char>>)
    requires
        end <= path.len(),
    ensures
        match spec_file_name(path@.take(end as int), style) {
            Some(n) => r matches Some(v) && v@ == n,
            None => r is None,
        },
    decreases end,
{
    let ghost p = path@.take(end as int);
    if end == 0 {
        return None;
    }
    if separator_char(style, path[end - 1]) {
        assert(p.drop_last() =~= path@.take(end - 1));
        return file_name_upto(path, end - 1, style);
    }
    let start = name_start(path, end, style);
    proof {
        lemma_last_separator_bounds(p, style);
    }
    let name = slice_chars(path, start, end);
    assert(name@ =~= p.subrange(start as int, p.len() as int));
    if name.len() == 1 && name[0] == '.' {
        assert(name@ =~= seq!['.']);
        if start == 0 {
            return None;
        }
        assert(p.take(start as int) =~= path@.take(start as int));
        return file_name_upto(path, start, style);
    }
    assert(!(name@ =~= seq!['.']));
    if name.len() == 2 && name[0] == '.' && name[1] == '.' {
        assert(name@ =~= seq!['.', '.']);
        return None;
    }
    assert(!(name@ =~= seq!['.', '.']));
    Some(name)
}

/// Final name of a path, as `Path::file_name` gives it.
pub fn file_name(path: &Vec<char>, style: PathStyle) -> (r: Option<Vec<char>>)
    ensures
        match spec_file_name(path@, style) {
            Some(n) => r matches Some(v) && v@ == n,
            None => r is None,
        },
{
    assert(path@.take(path@.len() as int) =~= path@);
    file_name_upto(path, path.len(), style)
}

/// The extension of a path's final name, as `Path::extension` gives it.
pub fn extension(path: &Vec<char>, style: PathStyle) -> (r: Option<Vec<char>>)
    ensures
        match spec_extension(path@, style) {
            Some(e) => r matches Some(v) && v@ == e,
            None => r is None,
        },
{
    let name = match file_name(path, style) {
        Some(n) => n,
        None => {
            return None;
        },
    };
    let mut i: usize = name.len();
    while i > 1
        invariant
            i <= name.len(),
            spec_file_name(path@, style) == Some(name@),
            forall|k: int| i <= k < name@.len() ==> name@[k] != '.',
        decreases i,
    {
        if name[i - 1] == '.' {
            proof {
                let n = name@;
                let d = (i - 1) as int;
                let j = choose|j: int|
                    0 < j < n.len() && n[j] == '.' && forall|k: int| j < k < n.len() ==> n[k] != '.';
                assert(n[d] == '.');
                assert(j == d) by {
                    if j < d {
                        assert(n[d] == '.');
                    } else if d < j {
                        assert(n[j] == '.');
                    }
                }
                assert(name_extension(n)->0 =~= n.subrange(d + 1, n.len() as int));
            }
            return Some(slice_chars(&name, i, name.len()));
        }
        i -= 1;
    }
    proof {
        assert(forall|k: int| 0 < k < name@.len() ==> name@[k] != '.');
    }
    None
}

/// Lowercase extension is one the native wallpaper APIs accept.
pub open spec fn is_wallpaper_extension(ext: Seq<char>) -> bool {
    ext == "jpg"@ || ext == "jpeg"@ || ext == "png"@ || ext == "bmp"@ || ext == "webp"@
}

/// The lowercase extension (empty when absent) of a wallpaper path.
pub open spec fn wallpaper_extension(path: Seq<char>, style: PathStyle) -> Seq<char> {
    match spec_extension(path, style) {
        Some(e) => spec_ascii_lowercase(e),
        None => Seq::empty(),
    }
}

/// Rejects unsupported formats before a native desktop API receives the file.
pub fn validate_wallpaper_extension(image_path: &str, style: PathStyle) -> (r: AppResult<()>)
    ensures
        is_wallpaper_extension(wallpaper_extension(image_path@, style)) ==> r is Ok,
        !is_wallpaper_extension(wallpaper_extension(image_path@, style)) ==> (r matches Err(
            AppError::Wallpaper(m),
        ) && m@ == "unsupported wallpaper format: "@ + wallpaper_extension(image_path@, style)),
{
    let path = chars_of(image_path);
    let lowered = match extension(&path, style) {
        Some(e) => ascii_lowercase(&e),
        None => Vec::new(),
    };
    assert(lowered@ == wallpaper_extension(image_path@, style));
    let text = string_from_chars(&lowered);
    let s = text.as_str();
    if crate::text::str_eq(s, "jpg") || crate::text::str_eq(s, "jpeg") || crate::text::str_eq(
        s,
        "png",
    ) || crate::text::str_eq(s, "bmp") || crate::text::str_eq(s, "webp") {
        Ok(())
    } else {
        Err(AppError::Wallpaper(concat2("unsupported wallpaper format: ", s)))
    }
}

// ---------------------------------------------------------------------------
// Windows path comparison
// ---------------------------------------------------------------------------

/// Drops every leading extended-length prefix, replaces '/' with '\\' and lowercases.
pub open spec fn spec_normalize_windows_path(path: Seq<char>) -> Seq<char> {
    crate::text::spec_unicode_lowercase(replace_slashes(strip_verbatim(path)))
}

pub open spec fn verbatim_prefix() -> Seq<char> {
    seq!['\\', '\\', '?', '\\']
}

/// Repeatedly strips the extended-length prefix (what `trim_start_matches` does).
pub open spec fn strip_verbatim(path: Seq<char>) -> Seq<char>
    decreases path.len(),
{
    if path.len() >= 4 && path.subrange(0, 4) == verbatim_prefix() {
        strip_verbatim(path.subrange(4, path.len() as int))
    } else {
        path
    }
}

/// Every '/' replaced by '\\'.
pub open spec fn replace_slashes(path: Seq<char>) -> Seq<char> {
    path.map_values(|c: char| if c == '/' { '\\' } else { c })
}

fn verbatim_at(chars: &Vec<char>, start: usize) -> (b: bool)
    requires
        start <= chars.len(),
    ensures
        b == (start + 4 <= chars@.len() && chars@.subrange(start as int, start + 4)
            == verbatim_prefix()),
{
    if chars.len() - start < 4 {
        return false;
    }
    let r = chars[start] == '\\' && chars[start + 1] == '\\' && chars[start + 2] == '?'
        && chars[start + 3] == '\\';
    proof {
        let sub = chars@.subrange(start as int, start + 4);
        if r {
            assert(sub =~= verbatim_prefix());
        } else {
            if sub == verbatim_prefix() {
                assert(sub[0] == chars@[start as int]);
                assert(sub[1] == chars@[start + 1]);
                assert(sub[2] == chars@[start + 2]);
                assert(sub[3] == chars@[start + 3]);
            }
        }
    }
    r
}

/// Normalizes a resolved Windows path for case-insensitive comparison.
pub fn normalize_windows_path(path: &str) -> (r: String)
    ensures
        r@ == spec_normalize_windows_path(path@),
{
    let chars = chars_of(path);
    let mut start: usize = 0;
    let ghost full = chars@;
    assert(full.subrange(0, full.len() as int) =~= full);
    while verbatim_at(&chars, start)
        invariant
            start <= chars.len(),
            chars@ == full,
            strip_verbatim(full) == strip_verbatim(full.subrange(start as int, full.len() as int)),
        decreases chars.len() - start,
    {
        proof {
            let rest = full.subrange(start as int, full.len() as int);
            assert(rest.subrange(0, 4) =~= full.subrange(start as int, start + 4));
            assert(rest.subrange(4, rest.len() as int) =~= full.subrange(start + 4, full.len() as int));
        }
        start += 4;
    }
    proof {
        let rest = full.subrange(start as int, full.len() as int);
        if rest.len() >= 4 {
            assert(rest.subrange(0, 4) =~= full.subrange(start as int, start + 4));
        }
    }
    let mut replaced: Vec<char> = Vec::new();
    let mut i: usize = start;
    while i < chars.len()
        invariant
            start <= i <= chars.len(),
            chars@ == full,
            replaced@ == replace_slashes(full.subrange(start as int, i as int)),
        decreases chars.len() - i,
    {
        let c = chars[i];
        if c == '/' {
            replaced.push('\\');
        } else {
            replaced.push(c);
        }
        i += 1;
        assert(replaced@ =~= replace_slashes(full.subrange(start as int, i as int)));
    }
    let text = string_from_chars(&replaced);
    crate::text::unicode_lowercase(text.as_str())
}

/// Compares two resolved Windows paths case-insensitively, tolerating the
/// extended-length prefix and either separator.
pub fn same_windows_path(left: &str, right: &str) -> (b: bool)
    ensures
        b == (spec_normalize_windows_path(left@) == spec_normalize_windows_path(right@)),
{
    let a = normalize_windows_path(left);
    let b = normalize_windows_path(right);
    crate::text::str_eq(a.as_str(), b.as_str())
}

// ---------------------------------------------------------------------------
// Restoring recorded assignments after a desktop transition
// ---------------------------------------------------------------------------

/// The current path of a monitor as a view, `None` when it is not connected.
pub open spec fn current_view(current: Option<String>) -> Option<Seq<char>> {
    match current {
        Some(path) => Some(path@),
        None => None,
    }
}

/// A recorded assignment is restored when its monitor is connected and shows a
/// different image than the one the application last set on it.
pub open spec fn spec_needs_restore(current: Option<Seq<char>>, expected: Seq<char>) -> bool {
    match current {
        Some(path) => spec_normalize_windows_path(path) != spec_normalize_windows_path(expected),
        None => false,
    }
}

/// Whether one recorded assignment must be applied again.
pub fn needs_restore(current: &Option<String>, expected: &str) -> (b: bool)
    ensures
        b == spec_needs_restore(current_view(*current), expected@),
{
    match current {
        Some(path) => !same_windows_path(path.as_str(), expected),
        None => false,
    }
}

/// Indices, in order, of the first `n` recorded assignments that must be restored.
pub open spec fn restore_indices(entries: Seq<(Option<String>, String)>, n: int) -> Seq<usize>
    decreases n,
{
    if n <= 0 {
        Seq::empty()
    } else {
        let rest = restore_indices(entries, n - 1);
        if spec_needs_restore(current_view(entries[n - 1].0), entries[n - 1].1@) {
            rest.push((n - 1) as usize)
        } else {
            rest
        }
    }
}

/// Decides which recorded assignments to restore. Each entry pairs the path a
/// monitor currently shows (`None` when the monitor is not connected) with the
/// path the application last set on it; the count of restorations is the
/// length of the result.
pub fn restoration_plan(entries: &Vec<(Option<String>, String)>) -> (r: Vec<usize>)
    ensures
        r@ == restore_indices(entries@, entries@.len() as int),
        r@.len() <= entries@.len(),
{
    let mut r: Vec<usize> = Vec::new();
    let mut i: usize = 0;
    while i < entries.len()
        invariant
            i <= entries.len(),
            r@ == restore_indices(entries@, i as int),
            r@.len() <= i,
        decreases entries.len() - i,
    {
        let entry = &entries[i];
        if needs_restore(&entry.0, entry.1.as_str()) {
            r.push(i);
        }
        i += 1;
    }
    r
}

} // verus!

