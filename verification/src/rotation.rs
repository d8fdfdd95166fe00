//! Rotation configuration and selection rules: validated schedule settings, the
//! candidate pool, strategies, the shuffle round and the explanation shown to users.
use vstd::prelude::*;

use crate::error::{AppError, AppResult};
use crate::provider::wikimedia::spec_split;
use crate::text::{chars_of, concat2, is_ascii_digit, spec_decimal, str_eq};

verus! {

// ---------------------------------------------------------------------------
// Configuration
// ---------------------------------------------------------------------------

/// Why a rotation configuration is refused, if it is.
pub open spec fn spec_rotation_error(interval_seconds: u64, fit_mode: Seq<char>, selection_mode: Seq<
    char,
>) -> Option<Seq<char>> {
    if interval_seconds < 60 {
        Some("rotation interval must be at least 60 seconds"@)
    } else if !(fit_mode == "fill"@ || fit_mode == "fit"@ || fit_mode == "center"@ || fit_mode
        == "stretch"@) {
        Some("unsupported fit mode: "@ + fit_mode)
    } else if !(selection_mode == "round_robin"@ || selection_mode == "random"@) {
        Some("unsupported rotation selection mode: "@ + selection_mode)
    } else if interval_seconds > i64::MAX {
        Some("rotation interval is too large"@)
    } else {
        None
    }
}

/// Validates a per-monitor rotation configuration and returns the stored interval.
pub fn validate_rotation(interval_seconds: u64, fit_mode: &str, selection_mode: &str) -> (r:
    AppResult<i64>)
    ensures
        match spec_rotation_error(interval_seconds, fit_mode@, selection_mode@) {
            Some(message) => r matches Err(AppError::Configuration(m)) && m@ == message,
            None => r == Ok::<i64, AppError>(interval_seconds as i64),
        },
{
    if interval_seconds < 60 {
        return Err(
            AppError::Configuration("rotation interval must be at least 60 seconds".to_string()),
        );
    }
    if !(str_eq(fit_mode, "fill") || str_eq(fit_mode, "fit") || str_eq(fit_mode, "center")
        || str_eq(fit_mode, "stretch")) {
        return Err(AppError::Configuration(concat2("unsupported fit mode: ", fit_mode)));
    }
    if !(str_eq(selection_mode, "round_robin") || str_eq(selection_mode, "random")) {
        return Err(
            AppError::Configuration(concat2("unsupported rotation selection mode: ", selection_mode)),
        );
    }
    if interval_seconds > 0x7FFF_FFFF_FFFF_FFFF {
        return Err(AppError::Configuration("rotation interval is too large".to_string()));
    }
    Ok(interval_seconds as i64)
}

/// The strategy stored for a simple selection mode.
pub open spec fn spec_strategy_for(selection_mode: Seq<char>) -> Seq<char> {
    if selection_mode == "random"@ {
        "shuffle"@
    } else {
        "round_robin"@
    }
}

/// Random selection uses the shuffle queue; everything else is round robin.
pub fn strategy_for(selection_mode: &str) -> (s: &'static str)
    ensures
        s@ == spec_strategy_for(selection_mode@),
{
    if str_eq(selection_mode, "random") {
        "shuffle"
    } else {
        "round_robin"
    }
}

/// The strategies an advanced rotation policy may use.
pub open spec fn is_strategy(s: Seq<char>) -> bool {
    s == "round_robin"@ || s == "shuffle"@ || s == "least_recent"@ || s == "weighted_random"@
}

/// Refuses unknown rotation strategies.
pub fn check_strategy(strategy: &str) -> (r: AppResult<()>)
    ensures
        is_strategy(strategy@) ==> r is Ok,
        !is_strategy(strategy@) ==> (r matches Err(AppError::Configuration(m)) && m@
            == "unsupported rotation strategy: "@ + strategy@),
{
    if str_eq(strategy, "round_robin") || str_eq(strategy, "shuffle") || str_eq(
        strategy,
        "least_recent",
    ) || str_eq(strategy, "weighted_random") {
        Ok(())
    } else {
        Err(AppError::Configuration(concat2("unsupported rotation strategy: ", strategy)))
    }
}

// ---------------------------------------------------------------------------
// The candidate pool
// ---------------------------------------------------------------------------

/// Strictly increasing.
pub open spec fn strictly_sorted(s: Seq<i64>) -> bool {
    forall|i: int, j: int| 0 <= i < j < s.len() ==> s[i] < s[j]
}

/// Inserts `x` into a strictly increasing vector unless it is already there.
fn insert_unique(v: &mut Vec<i64>, x: i64)
    requires
        strictly_sorted(old(v)@),
    ensures
        strictly_sorted(final(v)@),
        forall|y: i64| final(v)@.contains(y) <==> (old(v)@.contains(y) || y == x),
{
    let ghost s = v@;
    let mut j: usize = 0;
    while j < v.len() && v[j] < x
        invariant
            j <= v.len(),
            v@ == s,
            forall|k: int| 0 <= k < j ==> s[k] < x,
        decreases v.len() - j,
    {
        j += 1;
    }
    if j < v.len() && v[j] == x {
        assert(s[j as int] == x);
        assert(s.contains(x));
        return;
    }
    v.insert(j, x);
    proof {
        assert(v@ =~= s.subrange(0, j as int).push(x) + s.subrange(j as int, s.len() as int));
        assert(j < s.len() ==> x < s[j as int]);
        assert forall|a: int, b: int| 0 <= a < b < v@.len() implies v@[a] < v@[b] by {
            if b < j {
                assert(v@[a] == s[a] && v@[b] == s[b]);
            } else if b == j {
                assert(v@[a] == s[a]);
            } else if a < j {
                assert(v@[a] == s[a] && v@[b] == s[b - 1]);
                assert(s[a] < x);
                assert(x <= s[j as int]);
                if j < b - 1 {
                    assert(s[j as int] < s[b - 1]);
                }
            } else if a == j {
                assert(v@[b] == s[b - 1]);
                if j < b - 1 {
                    assert(s[j as int] < s[b - 1]);
                }
            } else {
                assert(v@[a] == s[a - 1] && v@[b] == s[b - 1]);
            }
        }
        assert forall|y: i64| v@.contains(y) <==> (s.contains(y) || y == x) by {
            if v@.contains(y) {
                let k = choose|k: int| 0 <= k < v@.len() && #[trigger] v@[k] == y;
                if k < j {
                    assert(s[k] == y);
                } else if k > j {
                    assert(s[k - 1] == y);
                }
            }
            if s.contains(y) {
                let k = choose|k: int| 0 <= k < s.len() && #[trigger] s[k] == y;
                if k < j {
                    assert(v@[k] == y);
                } else {
                    assert(v@[k + 1] == y);
                }
            }
            if y == x {
                assert(v@[j as int] == x);
            }
        }
    }
}

/// The distinct ids of a selection, in increasing order.
pub fn unique_sorted_ids(ids: &Vec<i64>) -> (r: Vec<i64>)
    ensures
        strictly_sorted(r@),
        forall|y: i64| r@.contains(y) <==> ids@.contains(y),
{
    let mut r: Vec<i64> = Vec::new();
    let mut i: usize = 0;
    while i < ids.len()
        invariant
            i <= ids.len(),
            strictly_sorted(r@),
            forall|y: i64| r@.contains(y) <==> ids@.take(i as int).contains(y),
        decreases ids.len() - i,
    {
        let ghost before = r@;
        insert_unique(&mut r, ids[i]);
        proof {
            assert forall|y: i64| ids@.take(i + 1).contains(y) <==> (ids@.take(i as int).contains(
                y,
            ) || y == ids@[i as int]) by {
                if ids@.take(i + 1).contains(y) {
                    let k = choose|k: int| 0 <= k < i + 1 && #[trigger] ids@.take(i + 1)[k] == y;
                    if k < i {
                        assert(ids@.take(i as int)[k] == y);
                    }
                }
                if ids@.take(i as int).contains(y) {
                    let k = choose|k: int| 0 <= k < i && #[trigger] ids@.take(i as int)[k] == y;
                    assert(ids@.take(i + 1)[k] == y);
                }
                if y == ids@[i as int] {
                    assert(ids@.take(i + 1)[i as int] == y);
                }
            }
            assert forall|y: i64| r@.contains(y) <==> ids@.take(i + 1).contains(y) by {
                assert(r@.contains(y) <==> (before.contains(y) || y == ids@[i as int]));
                assert(before.contains(y) <==> ids@.take(i as int).contains(y));
            }
        }
        i += 1;
    }
    assert(ids@.take(ids.len() as int) =~= ids@);
    r
}

/// Every selected id must name an existing wallpaper that is not blacklisted.
pub fn check_pool(valid_count: i64, unique_count: usize) -> (r: AppResult<()>)
    ensures
        valid_count == unique_count ==> r is Ok,
        valid_count != unique_count ==> (r matches Err(AppError::Wallpaper(m)) && m@
            == "rotation contains missing or blacklisted wallpaper"@),
{
    if valid_count < 0 || valid_count as u64 != unique_count as u64 {
        Err(AppError::Wallpaper("rotation contains missing or blacklisted wallpaper".to_string()))
    } else {
        Ok(())
    }
}

// ---------------------------------------------------------------------------
// Selection
// ---------------------------------------------------------------------------

/// How the next wallpaper of a monitor is chosen.
#[derive(Debug)]
pub enum RotationPlan {
    /// Consume the persisted shuffle queue.
    Shuffle,
    /// Pick from the explicit pool in this SQL order, explaining the choice with `reason`.
    Pool { order: &'static str, reason: &'static str },
    /// No explicit pool: pick among the five most recent valid local files in this order.
    Recent { order: &'static str },
}

/// The pool order of weighted random selection: avoid the last wallpaper, favor favorites.
pub open spec fn weighted_order() -> Seq<char> {
    "CASE WHEN wallpaper.id = COALESCE((SELECT history.wallpaper_id FROM wallpaper_history AS history JOIN monitor ON monitor.id = history.monitor_id WHERE monitor.system_monitor_id = ?1 ORDER BY history.used_at DESC, history.id DESC LIMIT 1), -1) THEN 1 ELSE 0 END, ABS(RANDOM()) / CASE WHEN wallpaper.favorite = 1 THEN 2 ELSE 1 END"@
}

/// The pool order of round robin and least-recent selection: least recently used first.
pub open spec fn least_recent_order() -> Seq<char> {
    "COALESCE((SELECT MAX(history.used_at) FROM wallpaper_history AS history JOIN monitor ON monitor.id = history.monitor_id WHERE history.wallpaper_id = wallpaper.id AND monitor.system_monitor_id = ?1), '') ASC, rotation.selected_at ASC, wallpaper.id ASC"@
}

/// The plan for a strategy and pool size.
pub open spec fn spec_rotation_plan(strategy: Seq<char>, pool_size: i64, plan: RotationPlan) -> bool {
    if pool_size > 0 {
        if strategy == "shuffle"@ {
            plan is Shuffle
        } else {
            plan matches RotationPlan::Pool { order, reason } && order@ == (if strategy
                == "weighted_random"@ {
                weighted_order()
            } else {
                least_recent_order()
            }) && reason@ == (if strategy == "weighted_random"@ {
                "加权随机：优先收藏并避免刚使用的壁纸"@
            } else if strategy == "least_recent"@ {
                "最近未使用优先：选择该屏最久未使用项"@
            } else {
                "顺序轮询：按最近使用时间与集合顺序选择"@
            })
        }
    } else {
        plan matches RotationPlan::Recent { order } && order@ == (if strategy == "shuffle"@
            || strategy == "weighted_random"@ {
            "CASE WHEN recent.used_at = (SELECT MAX(used_at) FROM recent) THEN 1 ELSE 0 END, RANDOM()"@
        } else {
            "recent.used_at ASC, wallpaper.id ASC"@
        })
    }
}

/// Chooses how the next wallpaper is selected for a strategy and explicit pool size.
pub fn plan_next_rotation(strategy: &str, pool_size: i64) -> (plan: RotationPlan)
    ensures
        spec_rotation_plan(strategy@, pool_size, plan),
{
    let weighted = str_eq(strategy, "weighted_random");
    let shuffle = str_eq(strategy, "shuffle");
    if pool_size > 0 {
        if shuffle {
            return RotationPlan::Shuffle;
        }
        let order = if weighted {
            "CASE WHEN wallpaper.id = COALESCE((SELECT history.wallpaper_id FROM wallpaper_history AS history JOIN monitor ON monitor.id = history.monitor_id WHERE monitor.system_monitor_id = ?1 ORDER BY history.used_at DESC, history.id DESC LIMIT 1), -1) THEN 1 ELSE 0 END, ABS(RANDOM()) / CASE WHEN wallpaper.favorite = 1 THEN 2 ELSE 1 END"
        } else {
            "COALESCE((SELECT MAX(history.used_at) FROM wallpaper_history AS history JOIN monitor ON monitor.id = history.monitor_id WHERE history.wallpaper_id = wallpaper.id AND monitor.system_monitor_id = ?1), '') ASC, rotation.selected_at ASC, wallpaper.id ASC"
        };
        let reason = if weighted {
            "加权随机：优先收藏并避免刚使用的壁纸"
        } else if str_eq(strategy, "least_recent") {
            "最近未使用优先：选择该屏最久未使用项"
        } else {
            "顺序轮询：按最近使用时间与集合顺序选择"
        };
        RotationPlan::Pool { order, reason }
    } else {
        let order = if shuffle || weighted {
            "CASE WHEN recent.used_at = (SELECT MAX(used_at) FROM recent) THEN 1 ELSE 0 END, RANDOM()"
        } else {
            "recent.used_at ASC, wallpaper.id ASC"
        };
        RotationPlan::Recent { order }
    }
}

/// No duplicates.
pub open spec fn distinct(s: Seq<i64>) -> bool {
    forall|i: int, j: int| 0 <= i < j < s.len() ==> s[i] != s[j]
}

/// The order of a new shuffle round: the random candidate order, with its first
/// two swapped when the first is the wallpaper shown last.
pub open spec fn spec_shuffle_round(candidates: Seq<i64>, previous: Option<i64>) -> Seq<i64> {
    if candidates.len() > 1 && previous == Some(candidates[0]) {
        candidates.update(0, candidates[1]).update(1, candidates[0])
    } else {
        candidates
    }
}

/// Arranges a new non-repeating shuffle round so it does not start with the current wallpaper.
pub fn arrange_shuffle_round(candidates: Vec<i64>, previous: Option<i64>) -> (r: Vec<i64>)
    ensures
        r@ == spec_shuffle_round(candidates@, previous),
{
    let mut candidates = candidates;
    if candidates.len() > 1 {
        match previous {
            Some(p) => {
                if p == candidates[0] {
                    let first = candidates[0];
                    let second = candidates[1];
                    candidates.set(0, second);
                    candidates.set(1, first);
                }
            },
            None => {},
        }
    }
    candidates
}

/// A new shuffle round holds the same candidates, and when there is an
/// alternative it never starts with the wallpaper that was shown last.
pub proof fn shuffle_round_avoids_previous(candidates: Seq<i64>, previous: Option<i64>)
    requires
        distinct(candidates),
    ensures
        spec_shuffle_round(candidates, previous).to_multiset() == candidates.to_multiset(),
        candidates.len() > 1 && previous is Some ==> spec_shuffle_round(candidates, previous)[0]
            != previous->0,
{
    let r = spec_shuffle_round(candidates, previous);
    if candidates.len() > 1 && previous == Some(candidates[0]) {
        let a = candidates[0];
        let b = candidates[1];
        let rest = candidates.subrange(2, candidates.len() as int);
        assert(candidates =~= seq![a, b] + rest);
        assert(r =~= seq![b, a] + rest);
        vstd::seq_lib::lemma_multiset_commutative(seq![a, b], rest);
        vstd::seq_lib::lemma_multiset_commutative(seq![b, a], rest);
        assert(seq![a, b].to_multiset() =~= seq![b, a].to_multiset()) by {
            broadcast use vstd::seq_lib::group_to_multiset_ensures;
            assert(seq![a, b] =~= seq![a].push(b));
            assert(seq![b, a] =~= seq![b].push(a));
            assert(seq![a] =~= Seq::<i64>::empty().push(a));
            assert(seq![b] =~= Seq::<i64>::empty().push(b));
        }
    }
}

/// The next shuffle generation number, saturating at the largest value.
pub fn next_generation(current: i64) -> (n: i64)
    ensures
        current < i64::MAX ==> n == current + 1,
        current == i64::MAX ==> n == current,
{
    if current == i64::MAX {
        current
    } else {
        current + 1
    }
}

// ---------------------------------------------------------------------------
// Explanation
// ---------------------------------------------------------------------------

/// What `str::parse::<i64>` returns: an optional sign and at least one digit, in range.
pub open spec fn spec_parse_i64(s: Seq<char>) -> Option<int> {
    if s.len() > 0 && s[0] == '-' {
        let body = s.drop_first();
        if body.len() > 0 && crate::text::all_digits(body) && crate::text::digits_value(body)
            <= 0x8000_0000_0000_0000 {
            Some(-(crate::text::digits_value(body) as int))
        } else {
            None
        }
    } else {
        match crate::text::spec_parse_unsigned(s, 0x7FFF_FFFF_FFFF_FFFF) {
            Some(v) => Some(v as int),
            None => None,
        }
    }
}

fn parse_i64(s: &Vec<char>) -> (r: Option<i64>)
    ensures
        match spec_parse_i64(s@) {
            Some(v) => r matches Some(x) && x as int == v,
            None => r is None,
        },
{
    if s.len() > 0 && s[0] == '-' {
        let body = crate::text::slice_chars(s, 1, s.len());
        assert(body@ =~= s@.drop_first());
        if body.len() == 0 {
            return None;
        }
        match crate::text::parse_unsigned(&body, 0x8000_0000_0000_0000) {
            Some(v) => {
                proof {
                    assert(crate::text::unsigned_body(body@) == body@ || body@[0] == '+');
                }
                if body[0] == '+' {
                    proof {
                        assert(!crate::text::is_ascii_digit(body@[0]));
                    }
                    return None;
                }
                assert(crate::text::unsigned_body(body@) == body@);
                if v == 0x8000_0000_0000_0000 {
                    Some(i64::MIN)
                } else {
                    Some(-(v as i64))
                }
            },
            None => {
                proof {
                    if body@[0] != '+' {
                        assert(crate::text::unsigned_body(body@) == body@);
                    } else {
                        assert(!crate::text::is_ascii_digit(body@[0]));
                    }
                }
                None
            },
        }
    } else {
        match crate::text::parse_unsigned(s, 0x7FFF_FFFF_FFFF_FFFF) {
            Some(v) => Some(v as i64),
            None => None,
        }
    }
}

/// The ids of a comma-separated list; parts that are not integers are skipped.
pub open spec fn parsed_ids(parts: Seq<Seq<char>>) -> Seq<int>
    decreases parts.len(),
{
    if parts.len() == 0 {
        Seq::empty()
    } else {
        match spec_parse_i64(parts.last()) {
            Some(v) => parsed_ids(parts.drop_last()).push(v),
            None => parsed_ids(parts.drop_last()),
        }
    }
}

/// Parses the comma-separated collection ids of a rotation explanation.
pub fn parse_id_list(text: Option<&str>) -> (r: Vec<i64>)
    ensures
        r@.map_values(|x: i64| x as int) == parsed_ids(
            spec_split(
                match text {
                    Some(t) => t@,
                    None => Seq::empty(),
                },
                ',',
            ),
        ),
{
    let v = match text {
        Some(t) => chars_of(t),
        None => Vec::new(),
    };
    let ghost s = v@;
    let mut r: Vec<i64> = Vec::new();
    let mut current: Vec<char> = Vec::new();
    let mut i: usize = 0;
    proof {
        assert(s.take(0) =~= Seq::<char>::empty());
    }
    while i < v.len()
        invariant
            i <= v.len(),
            s == v@,
            spec_split(s.take(i as int), ',').len() >= 1,
            r@.map_values(|x: i64| x as int) == parsed_ids(
                spec_split(s.take(i as int), ',').drop_last(),
            ),
            current@ == spec_split(s.take(i as int), ',').last(),
        decreases v.len() - i,
    {
        let c = v[i];
        let ghost before = spec_split(s.take(i as int), ',');
        assert(s.take(i + 1).drop_last() =~= s.take(i as int));
        if c == ',' {
            let ghost old_r = r@;
            match parse_i64(&current) {
                Some(x) => {
                    r.push(x);
                },
                None => {},
            }
            current = Vec::new();
            proof {
                let after = spec_split(s.take(i + 1), ',');
                assert(after == before.push(Seq::empty()));
                assert(after.drop_last() =~= before);
                assert(before.drop_last().push(before.last()) =~= before);
                assert(r@.map_values(|x: i64| x as int) =~= parsed_ids(before));
                assert(current@ =~= after.last());
            }
        } else {
            current.push(c);
            proof {
                let after = spec_split(s.take(i + 1), ',');
                assert(after.drop_last() =~= before.drop_last());
                assert(current@ =~= after.last());
            }
        }
        i += 1;
        proof {
            crate::provider::wikimedia::lemma_split_nonempty(s.take(i as int), ',');
        }
    }
    assert(s.take(v.len() as int) =~= s);
    let ghost parts = spec_split(s, ',');
    match parse_i64(&current) {
        Some(x) => {
            r.push(x);
        },
        None => {},
    }
    assert(parts.drop_last().push(parts.last()) =~= parts);
    assert(r@.map_values(|x: i64| x as int) =~= parsed_ids(parts));
    r
}

/// Each strategy picks from an explicit pool in its own way. Weighted random
/// orders the pool by a random key that favorite wallpapers halve, after
/// putting the wallpaper the monitor showed last behind every other; round
/// robin and least recent walk the pool by when each wallpaper was last used
/// and when it joined the pool, so their order is a different one; shuffle
/// draws from the persisted shuffle queue instead of ordering the pool.
pub proof fn rotation_order_follows_strategy(
    pool_size: i64,
    weighted: RotationPlan,
    walk_strategy: Seq<char>,
    walk: RotationPlan,
    shuffled: RotationPlan,
)
    requires
        pool_size > 0,
        spec_rotation_plan("weighted_random"@, pool_size, weighted),
        walk_strategy == "least_recent"@ || walk_strategy == "round_robin"@,
        spec_rotation_plan(walk_strategy, pool_size, walk),
        spec_rotation_plan("shuffle"@, pool_size, shuffled),
    ensures
        shuffled is Shuffle,
        weighted matches RotationPlan::Pool { order, .. } && {
            &&& crate::text::spec_contains(order@, "ABS(RANDOM())"@)
            &&& crate::text::spec_contains(
                order@,
                "CASE WHEN wallpaper.favorite = 1 THEN 2 ELSE 1 END"@,
            )
            &&& crate::text::spec_contains(order@, "ORDER BY history.used_at DESC"@)
        },
        walk matches RotationPlan::Pool { order, .. } && crate::text::spec_contains(
            order@,
            "rotation.selected_at ASC"@,
        ),
        weighted matches RotationPlan::Pool { order: w, .. } && walk matches RotationPlan::Pool {
            order: l,
            ..
        } && w@ != l@,
{
    reveal_strlit("weighted_random");
    reveal_strlit("shuffle");
    reveal_strlit("least_recent");
    reveal_strlit("round_robin");
    reveal_strlit("CASE WHEN wallpaper.id = COALESCE((SELECT history.wallpaper_id FROM wallpaper_history AS history JOIN monitor ON monitor.id = history.monitor_id WHERE monitor.system_monitor_id = ?1 ORDER BY history.used_at DESC, history.id DESC LIMIT 1), -1) THEN 1 ELSE 0 END, ABS(RANDOM()) / CASE WHEN wallpaper.favorite = 1 THEN 2 ELSE 1 END");
    reveal_strlit("COALESCE((SELECT MAX(history.used_at) FROM wallpaper_history AS history JOIN monitor ON monitor.id = history.monitor_id WHERE history.wallpaper_id = wallpaper.id AND monitor.system_monitor_id = ?1), '') ASC, rotation.selected_at ASC, wallpaper.id ASC");
    reveal_strlit("ABS(RANDOM())");
    reveal_strlit("CASE WHEN wallpaper.favorite = 1 THEN 2 ELSE 1 END");
    reveal_strlit("ORDER BY history.used_at DESC");
    reveal_strlit("rotation.selected_at ASC");
    let w = weighted_order();
    let l = least_recent_order();
    assert(w.subrange(262, 275) =~= "ABS(RANDOM())"@);
    assert(crate::text::spec_contains_at(w, "ABS(RANDOM())"@, 262));
    assert(w.subrange(278, 328) =~= "CASE WHEN wallpaper.favorite = 1 THEN 2 ELSE 1 END"@);
    assert(crate::text::spec_contains_at(
        w,
        "CASE WHEN wallpaper.favorite = 1 THEN 2 ELSE 1 END"@,
        278,
    ));
    assert(w.subrange(182, 211) =~= "ORDER BY history.used_at DESC"@);
    assert(crate::text::spec_contains_at(w, "ORDER BY history.used_at DESC"@, 182));
    assert(l.subrange(208, 232) =~= "rotation.selected_at ASC"@);
    assert(crate::text::spec_contains_at(l, "rotation.selected_at ASC"@, 208));
    assert(w[1] != l[1]);
    assert("weighted_random"@.len() == 15 && "shuffle"@.len() == 7);
    assert("least_recent"@.len() == 12 && "round_robin"@.len() == 11);
    assert("weighted_random"@ != "shuffle"@);
    assert(walk_strategy != "shuffle"@ && walk_strategy != "weighted_random"@);
    assert(weighted is Pool);
    assert(weighted->Pool_order@ == w);
    assert(walk is Pool);
    assert(walk->Pool_order@ == l);
}

} // verus!

