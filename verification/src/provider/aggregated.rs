//! Aggregated search across the online adapters: provider selection, fair
//! interleaving of result pages and the rules for thumbnails attached to them.
use vstd::prelude::*;
use vstd::string::StringSliceAdditionalSpecFns;

use crate::error::{AppError, AppResult};
use crate::hashing::{sha256_hex, spec_hex, spec_sha256};
use crate::image_processing::{guess_image_format, spec_guessed_format};
use crate::provider::{
    online_providers, pair_views, spec_online_providers, spec_provider_name, string_views, ProviderName,
    RemoteWallpaper,
};
use crate::text::{ascii_lowercase_str, spec_ascii_lowercase, str_eq};
use crate::urls::{spec_url_scheme, url_parts};

verus! {

// ---------------------------------------------------------------------------
// Fair interleaving
// ---------------------------------------------------------------------------

/// The item at position `r` of every source that has one, in source order.
pub open spec fn spec_round<T>(sources: Seq<Seq<T>>, r: int) -> Seq<T>
    decreases sources.len(),
{
    if sources.len() == 0 {
        Seq::empty()
    } else {
        let rest = spec_round(sources.drop_last(), r);
        if 0 <= r < sources.last().len() {
            rest.push(sources.last()[r])
        } else {
            rest
        }
    }
}

/// The first `n` rounds, one after another.
pub open spec fn spec_rounds<T>(sources: Seq<Seq<T>>, n: nat) -> Seq<T>
    decreases n,
{
    if n == 0 {
        Seq::empty()
    } else {
        spec_rounds(sources, (n - 1) as nat) + spec_round(sources, n - 1)
    }
}

/// The length of the longest source.
pub open spec fn longest<T>(sources: Seq<Seq<T>>) -> nat
    decreases sources.len(),
{
    if sources.len() == 0 {
        0
    } else {
        let m = longest(sources.drop_last());
        if sources.last().len() > m {
            sources.last().len()
        } else {
            m
        }
    }
}

/// Round-robin order: one item at a time from each source until all are exhausted.
pub open spec fn spec_fair_interleave<T>(sources: Seq<Seq<T>>) -> Seq<T> {
    spec_rounds(sources, longest(sources))
}

/// The item sequences of a list of pages.
pub open spec fn page_views<T>(pages: Seq<Vec<T>>) -> Seq<Seq<T>> {
    pages.map_values(|p: Vec<T>| p@)
}

/// Total number of items over all sources.
pub open spec fn total_items<T>(sources: Seq<Seq<T>>) -> nat
    decreases sources.len(),
{
    if sources.len() == 0 {
        0
    } else {
        total_items(sources.drop_last()) + sources.last().len()
    }
}

/// Number of sources that still have an item at position `r`.
pub open spec fn count_longer<T>(sources: Seq<Seq<T>>, r: int) -> nat
    decreases sources.len(),
{
    if sources.len() == 0 {
        0
    } else {
        count_longer(sources.drop_last(), r) + if 0 <= r < sources.last().len() {
            1nat
        } else {
            0nat
        }
    }
}

/// Number of items over all sources when each source is cut after `n` items.
pub open spec fn capped_total<T>(sources: Seq<Seq<T>>, n: nat) -> nat
    decreases sources.len(),
{
    if sources.len() == 0 {
        0
    } else {
        capped_total(sources.drop_last(), n) + if sources.last().len() < n {
            sources.last().len()
        } else {
            n
        }
    }
}

proof fn lemma_round_take_step<T>(sources: Seq<Seq<T>>, index: int, r: int)
    requires
        0 <= index < sources.len(),
    ensures
        spec_round(sources.take(index + 1), r) == if 0 <= r < sources[index].len() {
            spec_round(sources.take(index), r).push(sources[index][r])
        } else {
            spec_round(sources.take(index), r)
        },
{
    assert(sources.take(index + 1).drop_last() =~= sources.take(index));
}

proof fn lemma_round_len<T>(sources: Seq<Seq<T>>, r: int)
    ensures
        spec_round(sources, r).len() == count_longer(sources, r),
        spec_round(sources, r).len() == 0 <==> forall|k: int|
            0 <= k < sources.len() ==> !(0 <= r < #[trigger] sources[k].len()),
    decreases sources.len(),
{
    if sources.len() > 0 {
        let s = sources.drop_last();
        lemma_round_len(s, r);
        if spec_round(sources, r).len() == 0 {
            assert forall|k: int| 0 <= k < sources.len() implies !(0 <= r
                < #[trigger] sources[k].len()) by {
                if k < sources.len() - 1 {
                    assert(sources[k] == s[k]);
                }
            }
        } else {
            if spec_round(s, r).len() > 0 {
                let k = choose|k: int| 0 <= k < s.len() && 0 <= r < #[trigger] s[k].len();
                assert(sources[k] == s[k]);
            } else {
                assert(0 <= r < sources[sources.len() - 1].len());
            }
        }
    }
}

proof fn lemma_longest_bounds<T>(sources: Seq<Seq<T>>)
    ensures
        forall|k: int| 0 <= k < sources.len() ==> #[trigger] sources[k].len() <= longest(sources),
        sources.len() > 0 ==> exists|k: int|
            0 <= k < sources.len() && #[trigger] sources[k].len() == longest(sources),
    decreases sources.len(),
{
    if sources.len() > 0 {
        let s = sources.drop_last();
        lemma_longest_bounds(s);
        assert forall|k: int| 0 <= k < sources.len() implies #[trigger] sources[k].len()
            <= longest(sources) by {
            if k < sources.len() - 1 {
                assert(sources[k] == s[k]);
            }
        }
        if sources.last().len() > longest(s) {
            assert(sources[sources.len() - 1].len() == longest(sources));
        } else if s.len() > 0 {
            let k = choose|k: int| 0 <= k < s.len() && #[trigger] s[k].len() == longest(s);
            assert(sources[k] == s[k]);
        } else {
            assert(sources[0].len() == longest(sources));
        }
    }
}

proof fn lemma_capped_step<T>(sources: Seq<Seq<T>>, n: nat)
    ensures
        capped_total(sources, n + 1) == capped_total(sources, n) + count_longer(sources, n as int),
    decreases sources.len(),
{
    if sources.len() > 0 {
        lemma_capped_step(sources.drop_last(), n);
    }
}

proof fn lemma_capped_full<T>(sources: Seq<Seq<T>>, m: nat)
    requires
        forall|k: int| 0 <= k < sources.len() ==> #[trigger] sources[k].len() <= m,
    ensures
        capped_total(sources, m) == total_items(sources),
    decreases sources.len(),
{
    if sources.len() > 0 {
        let s = sources.drop_last();
        assert forall|k: int| 0 <= k < s.len() implies #[trigger] s[k].len() <= m by {
            assert(s[k] == sources[k]);
        }
        lemma_capped_full(s, m);
        assert(sources[sources.len() - 1].len() <= m);
    }
}

proof fn lemma_rounds_len<T>(sources: Seq<Seq<T>>, n: nat)
    ensures
        spec_rounds(sources, n).len() == capped_total(sources, n),
    decreases n,
{
    if n == 0 {
        lemma_capped_zero(sources);
    } else {
        lemma_rounds_len(sources, (n - 1) as nat);
        lemma_round_len(sources, n - 1);
        lemma_capped_step(sources, (n - 1) as nat);
    }
}

proof fn lemma_capped_zero<T>(sources: Seq<Seq<T>>)
    ensures
        capped_total(sources, 0) == 0,
    decreases sources.len(),
{
    if sources.len() > 0 {
        lemma_capped_zero(sources.drop_last());
    }
}

/// Fair interleaving neither drops nor repeats items: the merged page holds
/// exactly as many wallpapers as all provider pages together.
pub proof fn fair_interleave_keeps_every_item<T>(sources: Seq<Seq<T>>)
    ensures
        spec_fair_interleave(sources).len() == total_items(sources),
{
    lemma_rounds_len(sources, longest(sources));
    lemma_longest_bounds(sources);
    lemma_capped_full(sources, longest(sources));
}

/// Every source's items, first-to-last, held so that `pop` yields the next one.
pub open spec fn stacked_from<T>(stack: Seq<T>, page: Seq<T>, position: int) -> bool {
    &&& 0 <= position <= page.len()
    &&& stack.len() == page.len() - position
    &&& forall|j: int| 0 <= j < stack.len() ==> #[trigger] stack[j] == page[page.len() - 1 - j]
}

/// Interleaves one result at a time from each source so a large provider cannot own page one.
pub fn fair_interleave<T>(sources: Vec<Vec<T>>) -> (merged: Vec<T>)
    ensures
        merged@ == spec_fair_interleave(page_views(sources@)),
{
    let ghost src = page_views(sources@);
    let mut pending = sources;
    let mut stacks: Vec<Vec<T>> = Vec::new();
    while pending.len() > 0
        invariant
            stacks.len() + pending.len() == src.len(),
            page_views(pending@) == src.subrange(stacks.len() as int, src.len() as int),
            forall|k: int|
                0 <= k < stacks.len() ==> stacked_from(#[trigger] stacks@[k]@, src[k], 0),
        decreases pending.len(),
    {
        let ghost before = pending@;
        let mut page = pending.remove(0);
        let ghost p = src[stacks.len() as int];
        assert(page@ == p) by {
            assert(page_views(before)[0] == page_views(pending@.insert(0, page))[0]);
        }
        let mut stack: Vec<T> = Vec::new();
        while page.len() > 0
            invariant
                page@ == p.subrange(0, page.len() as int),
                stack.len() + page.len() == p.len(),
                forall|j: int| 0 <= j < stack.len() ==> #[trigger] stack@[j] == p[p.len() - 1 - j],
            decreases page.len(),
        {
            let item = page.pop().unwrap();
            stack.push(item);
        }
        let ghost k0 = stacks.len() as int;
        stacks.push(stack);
        assert(page_views(pending@) =~= src.subrange(stacks.len() as int, src.len() as int)) by {
            assert(page_views(before).subrange(1, before.len() as int) =~= page_views(pending@));
        }
        assert(stacked_from(stacks@[k0]@, src[k0], 0));
    }
    let mut merged: Vec<T> = Vec::new();
    let ghost mut r: int = 0;
    proof {
        lemma_longest_bounds(src);
    }
    loop
        invariant
            stacks.len() == src.len(),
            0 <= r <= longest(src),
            forall|k: int| 0 <= k < src.len() ==> #[trigger] src[k].len() <= longest(src),
            forall|k: int|
                0 <= k < stacks.len() ==> stacked_from(
                    #[trigger] stacks@[k]@,
                    src[k],
                    if r < src[k].len() {
                        r
                    } else {
                        src[k].len() as int
                    },
                ),
            merged@ == spec_rounds(src, r as nat),
        ensures
            merged@ == spec_fair_interleave(src),
        decreases longest(src) - r,
    {
        let mut added = false;
        let mut index: usize = 0;
        while index < stacks.len()
            invariant
                index <= stacks.len() == src.len(),
                0 <= r,
                forall|k: int|
                    0 <= k < index ==> stacked_from(
                        #[trigger] stacks@[k]@,
                        src[k],
                        if r + 1 < src[k].len() {
                            r + 1
                        } else {
                            src[k].len() as int
                        },
                    ),
                forall|k: int|
                    index <= k < stacks.len() ==> stacked_from(
                        #[trigger] stacks@[k]@,
                        src[k],
                        if r < src[k].len() {
                            r
                        } else {
                            src[k].len() as int
                        },
                    ),
                merged@ == spec_rounds(src, r as nat) + spec_round(src.take(index as int), r),
                added == (spec_round(src.take(index as int), r).len() > 0),
            decreases stacks.len() - index,
        {
            proof {
                lemma_round_take_step(src, index as int, r);
            }
            let ghost i = index as int;
            let mut stack = stacks.remove(index);
            if stack.len() > 0 {
                let item = stack.pop().unwrap();
                assert(item == src[i][r]);
                merged.push(item);
                added = true;
            }
            stacks.insert(index, stack);
            index += 1;
            assert forall|k: int| 0 <= k < index implies stacked_from(
                #[trigger] stacks@[k]@,
                src[k],
                if r + 1 < src[k].len() {
                    r + 1
                } else {
                    src[k].len() as int
                },
            ) by {
                if k < i {
                }
            }
        }
        proof {
            assert(src.take(src.len() as int) =~= src);
            lemma_round_len(src, r);
        }
        if !added {
            proof {
                assert forall|k: int| 0 <= k < src.len() implies #[trigger] src[k].len() <= r by {
                }
                if r < longest(src) {
                    lemma_longest_bounds(src);
                    let k = choose|k: int| 0 <= k < src.len() && #[trigger] src[k].len() == longest(src);
                    assert(src[k].len() <= r);
                }
            }
            break;
        }
        proof {
            let k = choose|k: int| 0 <= k < src.len() && 0 <= r < #[trigger] src[k].len();
            assert(src[k].len() <= longest(src));
            r = r + 1;
        }
    }
    merged
}

// ---------------------------------------------------------------------------
// Provider selection and partial failure
// ---------------------------------------------------------------------------

/// Partial-success result used to keep one provider failure isolated from other sources.
pub struct AggregatedProviderResult {
    pub wallpapers: Vec<RemoteWallpaper>,
    pub failures: Vec<(String, String)>,
}

/// Whether `name` occurs among `names`.
pub open spec fn names_contain(names: Seq<Seq<char>>, name: Seq<char>) -> bool {
    exists|i: int| 0 <= i < names.len() && names[i] == name
}

/// The optional requested scope, by character views.
pub open spec fn scope_views(requested: Option<Vec<String>>) -> Option<Seq<Seq<char>>> {
    match requested {
        Some(v) => Some(string_views(v@)),
        None => None,
    }
}

/// A provider takes part when it is enabled and, if the caller scoped the search,
/// named in the scope (compared ASCII-case-insensitively).
pub open spec fn in_scope(
    p: ProviderName,
    enabled: Seq<Seq<char>>,
    requested: Option<Seq<Seq<char>>>,
) -> bool {
    &&& names_contain(enabled, spec_provider_name(p))
    &&& match requested {
        None => true,
        Some(r) => exists|i: int|
            0 <= i < r.len() && spec_ascii_lowercase(#[trigger] r[i]) == spec_provider_name(p),
    }
}

/// The providers of `ps` that take part, in order.
pub open spec fn spec_select(
    ps: Seq<ProviderName>,
    enabled: Seq<Seq<char>>,
    requested: Option<Seq<Seq<char>>>,
) -> Seq<ProviderName>
    decreases ps.len(),
{
    if ps.len() == 0 {
        Seq::empty()
    } else {
        let rest = spec_select(ps.drop_last(), enabled, requested);
        if in_scope(ps.last(), enabled, requested) {
            rest.push(ps.last())
        } else {
            rest
        }
    }
}

/// Whether `name` occurs in `names`.
fn contains_name(names: &Vec<String>, name: &str) -> (b: bool)
    ensures
        b == names_contain(string_views(names@), name@),
{
    let ghost v = string_views(names@);
    let mut i: usize = 0;
    while i < names.len()
        invariant
            i <= names.len(),
            v == string_views(names@),
            forall|k: int| 0 <= k < i ==> v[k] != name@,
        decreases names.len() - i,
    {
        if str_eq(names[i].as_str(), name) {
            assert(v[i as int] == name@);
            return true;
        }
        i += 1;
    }
    false
}

/// Whether some requested name, ASCII-lowercased, equals `name`.
fn scope_contains(requested: &Vec<String>, name: &str) -> (b: bool)
    ensures
        b == exists|i: int|
            0 <= i < requested@.len() && spec_ascii_lowercase(
                #[trigger] string_views(requested@)[i],
            ) == name@,
{
    let ghost v = string_views(requested@);
    let mut i: usize = 0;
    while i < requested.len()
        invariant
            i <= requested.len(),
            v == string_views(requested@),
            forall|k: int| 0 <= k < i ==> spec_ascii_lowercase(#[trigger] v[k]) != name@,
        decreases requested.len() - i,
    {
        let lowered = ascii_lowercase_str(requested[i].as_str());
        if str_eq(lowered.as_str(), name) {
            assert(spec_ascii_lowercase(v[i as int]) == name@);
            return true;
        }
        i += 1;
    }
    false
}

/// The enabled online providers inside the caller's optional scope, in visiting order.
pub fn select_providers(enabled: &Vec<String>, requested: &Option<Vec<String>>) -> (r: Vec<
    ProviderName,
>)
    ensures
        r@ == spec_select(spec_online_providers(), string_views(enabled@), scope_views(*requested)),
{
    let online = online_providers();
    let ghost e = string_views(enabled@);
    let ghost q = scope_views(*requested);
    let mut r: Vec<ProviderName> = Vec::new();
    let mut i: usize = 0;
    while i < online.len()
        invariant
            i <= online.len(),
            online@ == spec_online_providers(),
            e == string_views(enabled@),
            q == scope_views(*requested),
            r@ == spec_select(online@.take(i as int), e, q),
        decreases online.len() - i,
    {
        let p = online[i];
        let name = p.as_str();
        let wanted = contains_name(enabled, name) && match requested {
            Some(scope) => scope_contains(scope, name),
            None => true,
        };
        proof {
            assert(online@.take(i + 1).drop_last() =~= online@.take(i as int));
        }
        if wanted {
            r.push(p);
        }
        i += 1;
    }
    assert(online@.take(online.len() as int) =~= online@);
    r
}

/// `provider: error` entries joined by `; `.
pub open spec fn failure_text(failures: Seq<(Seq<char>, Seq<char>)>) -> Seq<char>
    decreases failures.len(),
{
    if failures.len() == 0 {
        Seq::empty()
    } else if failures.len() == 1 {
        failures[0].0 + ": "@ + failures[0].1
    } else {
        failure_text(failures.drop_last()) + "; "@ + failures.last().0 + ": "@ + failures.last().1
    }
}

/// Refuses a search only when every selected provider failed; otherwise the
/// successful pages are returned together with the isolated failures.
pub fn aggregate_outcome(successful_pages: usize, failures: &Vec<(String, String)>) -> (r: AppResult<
    (),
>)
    ensures
        successful_pages == 0 && failures@.len() > 0 ==> (r matches Err(AppError::Provider(m))
            && m@ == "all enabled providers failed: "@ + failure_text(pair_views(failures@))),
        !(successful_pages == 0 && failures@.len() > 0) ==> r is Ok,
{
    if successful_pages > 0 || failures.len() == 0 {
        return Ok(());
    }
    let ghost fv = pair_views(failures@);
    let mut text = String::from_str("all enabled providers failed: ");
    let mut i: usize = 0;
    while i < failures.len()
        invariant
            i <= failures.len(),
            fv == pair_views(failures@),
            text@ == "all enabled providers failed: "@ + failure_text(fv.take(i as int)),
        decreases failures.len() - i,
    {
        if i > 0 {
            text.append("; ");
        }
        text.append(failures[i].0.as_str());
        text.append(": ");
        text.append(failures[i].1.as_str());
        proof {
            assert(fv.take(i + 1).drop_last() =~= fv.take(i as int));
            if i == 0 {
                assert(failure_text(fv.take(0)) =~= Seq::<char>::empty());
            }
        }
        i += 1;
    }
    assert(fv.take(failures.len() as int) =~= fv);
    Err(AppError::Provider(text))
}

/// The wallpapers of `s` that carry a cached thumbnail, in order.
pub open spec fn with_thumbnail(s: Seq<RemoteWallpaper>) -> Seq<RemoteWallpaper>
    decreases s.len(),
{
    if s.len() == 0 {
        Seq::empty()
    } else if s.last().thumbnail_local_path is Some {
        with_thumbnail(s.drop_last()).push(s.last())
    } else {
        with_thumbnail(s.drop_last())
    }
}

/// Drops new cards whose thumbnail could not be cached; later refreshes can restore them.
pub fn retain_with_thumbnail(wallpapers: Vec<RemoteWallpaper>) -> (r: Vec<RemoteWallpaper>)
    ensures
        r@ == with_thumbnail(wallpapers@),
{
    let ghost all = wallpapers@;
    let mut pending = wallpapers;
    let mut r: Vec<RemoteWallpaper> = Vec::new();
    while pending.len() > 0
        invariant
            pending.len() <= all.len(),
            pending@ == all.subrange(all.len() - pending.len(), all.len() as int),
            r@ == with_thumbnail(all.take(all.len() - pending.len())),
        decreases pending.len(),
    {
        let ghost n = all.len() - pending.len();
        let w = pending.remove(0);
        assert(w == all[n]);
        assert(all.take(n + 1).drop_last() =~= all.take(n));
        if w.thumbnail_local_path.is_some() {
            r.push(w);
        }
        assert(pending@ =~= all.subrange(all.len() - pending.len(), all.len() as int));
    }
    assert(all.take(all.len() as int) =~= all);
    r
}

// ---------------------------------------------------------------------------
// Thumbnail cache rules
// ---------------------------------------------------------------------------

/// Largest thumbnail body accepted from a provider: 8 MiB.
pub const MAX_THUMBNAIL_BYTES: u64 = 8388608;

/// The verdict on a thumbnail URL given its parsed scheme.
pub open spec fn spec_thumbnail_url_verdict(scheme: Option<Seq<char>>) -> Option<Seq<char>> {
    match scheme {
        None => Some("invalid thumbnail URL"@),
        Some(s) => if s == "https"@ {
            None
        } else {
            Some("thumbnail URLs must use HTTPS"@)
        },
    }
}

/// Accepts a thumbnail URL only when it parsed and uses HTTPS.
pub fn thumbnail_url_verdict(scheme: Option<&str>) -> (r: AppResult<()>)
    ensures
        match spec_thumbnail_url_verdict(
            match scheme {
                Some(s) => Some(s@),
                None => None,
            },
        ) {
            Some(message) => r matches Err(AppError::Provider(m)) && m@ == message,
            None => r is Ok,
        },
{
    match scheme {
        None => Err(AppError::Provider("invalid thumbnail URL".to_string())),
        Some(s) => {
            if str_eq(s, "https") {
                Ok(())
            } else {
                Err(AppError::Provider("thumbnail URLs must use HTTPS".to_string()))
            }
        },
    }
}

/// Refuses thumbnail URLs that do not parse or do not use HTTPS.
pub fn check_thumbnail_url(url: &str) -> (r: AppResult<()>)
    ensures
        match spec_thumbnail_url_verdict(spec_url_scheme(url@)) {
            Some(message) => r matches Err(AppError::Provider(m)) && m@ == message,
            None => r is Ok,
        },
{
    match url_parts(url) {
        Some(parts) => thumbnail_url_verdict(Some(parts.scheme.as_str())),
        None => thumbnail_url_verdict(None),
    }
}

/// Adds the running byte count of a thumbnail body and refuses bodies over 8 MiB.
pub fn accept_thumbnail_bytes(received: u64, incoming: u64) -> (r: AppResult<u64>)
    ensures
        received + incoming > MAX_THUMBNAIL_BYTES ==> (r matches Err(AppError::Provider(m))
            && m@ == "provider thumbnail exceeds 8 MiB"@),
        received + incoming <= MAX_THUMBNAIL_BYTES ==> r == Ok::<u64, AppError>(
            (received + incoming) as u64,
        ),
{
    let total = received.saturating_add(incoming);
    if total > MAX_THUMBNAIL_BYTES {
        Err(AppError::Provider("provider thumbnail exceeds 8 MiB".to_string()))
    } else {
        Ok(total)
    }
}

/// A transport failure gets one retry; access-denied and decoding failures do not.
pub fn thumbnail_retry_allowed(error: &AppError) -> (b: bool)
    ensures
        b == (error is Network),
{
    match error {
        AppError::Network(_) => true,
        _ => false,
    }
}

/// Only provider and image failures quarantine a thumbnail.
pub fn thumbnail_failure_quarantines(error: &AppError) -> (b: bool)
    ensures
        b == (error is Provider || error is Image),
{
    match error {
        AppError::Provider(_) | AppError::Image(_) => true,
        _ => false,
    }
}

/// The cache extension of a thumbnail given the format detected from its bytes.
pub open spec fn spec_thumbnail_extension(format: Result<Seq<char>, Seq<char>>) -> Result<
    Seq<char>,
    Seq<char>,
> {
    match format {
        Err(text) => Err(text),
        Ok(name) => if name == "Jpeg"@ {
            Ok("jpg"@)
        } else if name == "Png"@ {
            Ok("png"@)
        } else if name == "WebP"@ {
            Ok("webp"@)
        } else {
            Err("unsupported provider thumbnail format"@)
        },
    }
}

/// Chooses the cache extension of validated thumbnail bytes.
pub fn thumbnail_extension(bytes: &[u8]) -> (r: AppResult<&'static str>)
    ensures
        match spec_thumbnail_extension(spec_guessed_format(bytes@)) {
            Ok(e) => r matches Ok(x) && x@ == e,
            Err(message) => r matches Err(AppError::Image(m)) && m@ == message,
        },
{
    match guess_image_format(bytes) {
        Err(text) => Err(AppError::Image(text)),
        Ok(name) => {
            if str_eq(name.as_str(), "Jpeg") {
                Ok("jpg")
            } else if str_eq(name.as_str(), "Png") {
                Ok("png")
            } else if str_eq(name.as_str(), "WebP") {
                Ok("webp")
            } else {
                Err(AppError::Image("unsupported provider thumbnail format".to_string()))
            }
        },
    }
}

/// The stable cache file name of a thumbnail: `online-`, the hex SHA-256 of the
/// URL's UTF-8 bytes, a dot and the extension.
pub fn thumbnail_cache_file_name(url: &str, extension: &str) -> (name: String)
    ensures
        name@ == "online-"@ + spec_hex(spec_sha256(url.spec_bytes())) + "."@ + extension@,
{
    let key = sha256_hex(url.as_bytes());
    let mut name = String::from_str("online-");
    name.append(key.as_str());
    name.append(".");
    name.append(extension);
    name
}

} // verus!
