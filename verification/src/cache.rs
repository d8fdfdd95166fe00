//! Cache accounting and cleanup planning: saturating size totals, oldest-first
//! eviction order, the ownership check on deleted files and cleanup reports.
use vstd::prelude::*;

use crate::error::{AppError, AppResult};
use crate::platform::{is_separator, separator_char, PathStyle};
use crate::text::chars_of;

verus! {

/// Cache categories and the configured finite or unlimited capacity.
#[derive(Clone, Debug)]
pub struct CacheInfo {
    pub total_bytes: u64,
    pub limit_bytes: u64,
    pub original_bytes: u64,
    pub thumbnail_bytes: u64,
    pub processed_bytes: u64,
    pub file_count: usize,
}

/// What a cleanup pass freed.
#[derive(Clone, Debug)]
pub struct CacheCleanupResult {
    pub before_bytes: u64,
    pub after_bytes: u64,
    pub freed_bytes: u64,
    pub removed_files: usize,
    pub limit_bytes: u64,
}

/// One regular file found under a cache directory.
#[derive(Clone, Debug)]
pub struct CacheFile {
    pub path: String,
    pub size: u64,
    pub modified_at: u64,
}

/// The exact total size of a list of files.
pub open spec fn total_size(files: Seq<CacheFile>) -> nat
    decreases files.len(),
{
    if files.len() == 0 {
        0
    } else {
        total_size(files.drop_last()) + files.last().size as nat
    }
}

/// `n`, capped at the largest 64-bit value.
pub open spec fn saturate(n: nat) -> u64 {
    if n > u64::MAX {
        u64::MAX
    } else {
        n as u64
    }
}

/// Sums file sizes, saturating instead of overflowing.
pub fn sum_sizes(files: &Vec<CacheFile>) -> (total: u64)
    ensures
        total == saturate(total_size(files@)),
{
    let mut total: u64 = 0;
    let mut i: usize = 0;
    while i < files.len()
        invariant
            i <= files.len(),
            total == saturate(total_size(files@.take(i as int))),
        decreases files.len() - i,
    {
        assert(files@.take(i + 1).drop_last() =~= files@.take(i as int));
        total = total.saturating_add(files[i].size);
        i += 1;
    }
    assert(files@.take(files.len() as int) =~= files@);
    total
}

/// Current usage per category; the total saturates.
pub fn cache_info(
    originals: &Vec<CacheFile>,
    thumbnails: &Vec<CacheFile>,
    processed: &Vec<CacheFile>,
    limit_bytes: u64,
) -> (info: CacheInfo)
    requires
        originals@.len() + thumbnails@.len() + processed@.len() <= usize::MAX,
    ensures
        info.original_bytes == saturate(total_size(originals@)),
        info.thumbnail_bytes == saturate(total_size(thumbnails@)),
        info.processed_bytes == saturate(total_size(processed@)),
        info.total_bytes == saturate(
            info.original_bytes as nat + info.thumbnail_bytes as nat + info.processed_bytes as nat,
        ),
        info.limit_bytes == limit_bytes,
        info.file_count == originals@.len() + thumbnails@.len() + processed@.len(),
{
    let original_bytes = sum_sizes(originals);
    let thumbnail_bytes = sum_sizes(thumbnails);
    let processed_bytes = sum_sizes(processed);
    CacheInfo {
        total_bytes: original_bytes.saturating_add(thumbnail_bytes).saturating_add(processed_bytes),
        limit_bytes,
        original_bytes,
        thumbnail_bytes,
        processed_bytes,
        file_count: originals.len() + thumbnails.len() + processed.len(),
    }
}

// ---------------------------------------------------------------------------
// Eviction order
// ---------------------------------------------------------------------------

/// Stable insertion by modification time: after every file not newer than it.
pub open spec fn insert_by_age(s: Seq<CacheFile>, x: CacheFile) -> Seq<CacheFile>
    decreases s.len(),
{
    if s.len() == 0 {
        seq![x]
    } else if x.modified_at < s.last().modified_at {
        insert_by_age(s.drop_last(), x).push(s.last())
    } else {
        s.push(x)
    }
}

/// Files ordered oldest first; files of equal age keep their order.
pub open spec fn oldest_first(s: Seq<CacheFile>) -> Seq<CacheFile>
    decreases s.len(),
{
    if s.len() == 0 {
        Seq::empty()
    } else {
        insert_by_age(oldest_first(s.drop_last()), s.last())
    }
}

proof fn lemma_insert_by_age_suffix(s: Seq<CacheFile>, x: CacheFile, j: int)
    requires
        0 <= j <= s.len(),
        forall|k: int| j <= k < s.len() ==> x.modified_at < #[trigger] s[k].modified_at,
    ensures
        insert_by_age(s, x) == insert_by_age(s.subrange(0, j), x) + s.subrange(j, s.len() as int),
    decreases s.len() - j,
{
    if j < s.len() {
        let d = s.drop_last();
        assert forall|k: int| j <= k < d.len() implies x.modified_at < #[trigger] d[k].modified_at by {
            assert(d[k] == s[k]);
        }
        lemma_insert_by_age_suffix(d, x, j);
        assert(d.subrange(0, j) =~= s.subrange(0, j));
        assert(x.modified_at < s[s.len() - 1].modified_at);
        assert(d.subrange(j, d.len() as int).push(s.last()) =~= s.subrange(j, s.len() as int));
    } else {
        assert(s.subrange(0, j) =~= s);
        assert(s.subrange(j, s.len() as int) =~= Seq::<CacheFile>::empty());
    }
}

fn insert_file(sorted: &mut Vec<CacheFile>, x: CacheFile)
    ensures
        final(sorted)@ == insert_by_age(old(sorted)@, x),
{
    let ghost s = sorted@;
    let mut j: usize = sorted.len();
    while j > 0 && x.modified_at < sorted[j - 1].modified_at
        invariant
            j <= sorted.len(),
            sorted@ == s,
            forall|k: int| j <= k < s.len() ==> x.modified_at < #[trigger] s[k].modified_at,
        decreases j,
    {
        j -= 1;
    }
    proof {
        lemma_insert_by_age_suffix(s, x, j as int);
        let p = s.subrange(0, j as int);
        if j > 0 {
            assert(p.last() == s[j - 1]);
        }
    }
    sorted.insert(j, x);
    assert(sorted@ =~= s.subrange(0, j as int).push(x) + s.subrange(j as int, s.len() as int));
}

/// Orders files oldest first for least-recently-modified eviction (a stable sort).
pub fn order_oldest_first(files: Vec<CacheFile>) -> (r: Vec<CacheFile>)
    ensures
        r@ == oldest_first(files@),
{
    let ghost all = files@;
    let mut pending = files;
    let mut sorted: Vec<CacheFile> = Vec::new();
    while pending.len() > 0
        invariant
            pending.len() <= all.len(),
            pending@ == all.subrange(all.len() - pending.len(), all.len() as int),
            sorted@ == oldest_first(all.take(all.len() - pending.len())),
        decreases pending.len(),
    {
        let ghost n = all.len() - pending.len();
        let f = pending.remove(0);
        assert(f == all[n]);
        assert(all.take(n + 1).drop_last() =~= all.take(n));
        insert_file(&mut sorted, f);
        assert(pending@ =~= all.subrange(all.len() - pending.len(), all.len() as int));
    }
    assert(all.take(all.len() as int) =~= all);
    sorted
}

// ---------------------------------------------------------------------------
// Cleanup progress
// ---------------------------------------------------------------------------

/// Running state of a cleanup pass toward a byte target.
pub struct CleanupProgress {
    pub current: u64,
    pub target: u64,
    pub removed_files: usize,
}

impl CleanupProgress {
    /// Starts a pass from the measured usage.
    pub fn new(current: u64, target: u64) -> (p: CleanupProgress)
        ensures
            p.current == current,
            p.target == target,
            p.removed_files == 0,
    {
        CleanupProgress { current, target, removed_files: 0 }
    }

    /// Whether more files must go: usage is still above the target.
    pub fn needs_more(&self) -> (b: bool)
        ensures
            b == (self.current > self.target),
    {
        self.current > self.target
    }

    /// Accounts for one removed entry of `size` bytes; an entry counts as a removed
    /// file when `counted` holds.
    pub fn removed(&mut self, size: u64, counted: bool)
        requires
            old(self).removed_files < usize::MAX,
        ensures
            final(self).current == (if old(self).current >= size {
                old(self).current - size
            } else {
                0
            }),
            final(self).target == old(self).target,
            final(self).removed_files == old(self).removed_files + (if counted {
                1usize
            } else {
                0usize
            }),
    {
        self.current = if self.current >= size {
            self.current - size
        } else {
            0
        };
        if counted {
            self.removed_files = self.removed_files + 1;
        }
    }
}

/// The report of a finished pass: freed bytes never underflow.
pub fn cleanup_result(before: u64, after: u64, removed_files: usize, limit_bytes: u64) -> (r:
    CacheCleanupResult)
    ensures
        r.before_bytes == before,
        r.after_bytes == after,
        r.freed_bytes == (if before >= after {
            before - after
        } else {
            0
        }),
        r.removed_files == removed_files,
        r.limit_bytes == limit_bytes,
{
    CacheCleanupResult {
        before_bytes: before,
        after_bytes: after,
        freed_bytes: if before >= after {
            before - after
        } else {
            0
        },
        removed_files,
        limit_bytes,
    }
}

// ---------------------------------------------------------------------------
// Ownership
// ---------------------------------------------------------------------------

/// Whether a canonical path lies inside a canonical root directory: the root
/// itself, or the root followed by a separator of `style` and more.
pub open spec fn spec_path_within(path: Seq<char>, root: Seq<char>, style: PathStyle) -> bool {
    ||| path == root
    ||| (root.len() < path.len() && path.take(root.len() as int) == root && (root.len() > 0
        && is_separator(style, root.last()) || is_separator(style, path[root.len() as int])))
}

/// Whether a canonical path lies inside a canonical root directory.
pub fn path_within(path: &str, root: &str, style: PathStyle) -> (b: bool)
    ensures
        b == spec_path_within(path@, root@, style),
{
    let p = chars_of(path);
    let r = chars_of(root);
    if crate::text::chars_eq(&p, &r) {
        return true;
    }
    if r.len() >= p.len() {
        return false;
    }
    let head = crate::text::slice_chars(&p, 0, r.len());
    if !crate::text::chars_eq(&head, &r) {
        assert(head@ == p@.take(r@.len() as int));
        return false;
    }
    assert(head@ =~= p@.take(r@.len() as int));
    let root_sep = r.len() > 0 && separator_char(style, r[r.len() - 1]);
    root_sep || separator_char(style, p[r.len()])
}

/// Deletion is allowed only for regular files inside the exact cache root.
pub fn check_owned_file(
    canonical_path: &str,
    canonical_root: &str,
    is_file: bool,
    style: PathStyle,
) -> (r: AppResult<()>)
    ensures
        (spec_path_within(canonical_path@, canonical_root@, style) && is_file) ==> r is Ok,
        !(spec_path_within(canonical_path@, canonical_root@, style) && is_file) ==> (r matches Err(
            AppError::FileSystem(m),
        ) && m@ == "cache file escaped its owned directory"@),
{
    if !path_within(canonical_path, canonical_root, style) || !is_file {
        return Err(AppError::FileSystem("cache file escaped its owned directory".to_string()));
    }
    Ok(())
}

} // verus!
