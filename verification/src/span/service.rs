//! Decisions of applying and disabling a spanned wallpaper: the display count
//! requirement, the source file, and the texts reported when a display refuses
//! its slice and the previous assignments are restored.
use vstd::prelude::*;

use crate::error::{spec_message, AppError, AppResult};
use crate::models::WallpaperRecord;
use crate::span::MonitorLayout;

verus! {

/// One rendered slice and the display it belongs to.
#[derive(Clone, Debug)]
pub struct SpanningSliceImage {
    pub system_monitor_id: String,
    pub path: String,
}

/// Applied snapshot: geometry, generated files and the wallpaper they came from.
#[derive(Clone, Debug)]
pub struct SpanningApplyResult {
    pub layout: MonitorLayout,
    pub slices: Vec<SpanningSliceImage>,
    pub wallpaper: WallpaperRecord,
}

/// Spanning needs at least two active displays.
pub fn require_span_displays(count: usize) -> (r: AppResult<()>)
    ensures
        count >= 2 ==> r is Ok,
        count < 2 ==> (r matches Err(AppError::Monitor(m)) && m@
            == "spanning mode requires at least two active displays"@),
{
    if count < 2 {
        Err(AppError::Monitor("spanning mode requires at least two active displays".to_string()))
    } else {
        Ok(())
    }
}

/// The downloaded original a span is rendered from.
pub fn span_source(wallpaper: &WallpaperRecord) -> (r: AppResult<&String>)
    ensures
        match wallpaper.local_path {
            Some(p) => r matches Ok(x) && *x == p,
            None => r matches Err(AppError::Wallpaper(m)) && m@ == "spanning source is unavailable"@,
        },
{
    match &wallpaper.local_path {
        Some(p) => Ok(p),
        None => Err(AppError::Wallpaper("spanning source is unavailable".to_string())),
    }
}

/// `display: error` entries joined by ` | `.
pub open spec fn rollback_entries(failures: Seq<(String, AppError)>) -> Seq<char>
    decreases failures.len(),
{
    if failures.len() == 0 {
        Seq::empty()
    } else if failures.len() == 1 {
        failures[0].0@ + ": "@ + spec_message(failures[0].1)
    } else {
        rollback_entries(failures.drop_last()) + " | "@ + failures.last().0@ + ": "@
            + spec_message(failures.last().1)
    }
}

/// The rollback report: empty when every display was restored.
pub open spec fn spec_rollback_summary(failures: Seq<(String, AppError)>) -> Seq<char> {
    if failures.len() == 0 {
        Seq::empty()
    } else {
        "; rollback failures: "@ + rollback_entries(failures)
    }
}

/// Summarizes the displays whose previous wallpaper could not be restored.
pub fn rollback_summary(failures: &Vec<(String, AppError)>) -> (s: String)
    ensures
        s@ == spec_rollback_summary(failures@),
{
    if failures.len() == 0 {
        return String::new();
    }
    let mut s = String::from_str("; rollback failures: ");
    let ghost f = failures@;
    let mut i: usize = 0;
    while i < failures.len()
        invariant
            i <= failures.len(),
            f == failures@,
            s@ == "; rollback failures: "@ + rollback_entries(f.take(i as int)),
        decreases failures.len() - i,
    {
        if i > 0 {
            s.append(" | ");
        }
        s.append(failures[i].0.as_str());
        s.append(": ");
        s.append(failures[i].1.message().as_str());
        proof {
            assert(f.take(i + 1).drop_last() =~= f.take(i as int));
            if i == 0 {
                assert(rollback_entries(f.take(0)) =~= Seq::<char>::empty());
            }
        }
        i += 1;
    }
    assert(f.take(failures.len() as int) =~= f);
    s
}

/// The error reported when a display rejects its slice, after the rollback was attempted.
pub fn slice_rejection(monitor_id: &str, error: &AppError, rollback: &str) -> (e: AppError)
    ensures
        e matches AppError::Wallpaper(m) && m@ == "display "@ + monitor_id@
            + " rejected its span slice: "@ + spec_message(*error) + rollback@,
{
    let mut m = String::from_str("display ");
    m.append(monitor_id);
    m.append(" rejected its span slice: ");
    m.append(error.message().as_str());
    m.append(rollback);
    AppError::Wallpaper(m)
}

/// The outcome of disabling spanning after the previous assignments were restored:
/// the number restored, or the rollback report when any display failed.
pub fn disable_outcome(previous_count: usize, rollback: String) -> (r: AppResult<usize>)
    ensures
        rollback@.len() == 0 ==> r == Ok::<usize, AppError>(previous_count),
        rollback@.len() > 0 ==> (r matches Err(AppError::Wallpaper(m)) && m@ == rollback@),
{
    if rollback.as_str().is_empty() {
        Ok(previous_count)
    } else {
        Err(AppError::Wallpaper(rollback))
    }
}

// ---------------------------------------------------------------------------
// The sequence of a spanning run
// ---------------------------------------------------------------------------

/// What a spanning run does next.
#[derive(Clone, Copy, Debug, PartialEq, Eq)]
pub enum SpanStep {
    /// Read every display's current wallpaper so the span can be rolled back.
    CapturePrevious,
    /// Apply the slice at this index.
    ApplySlice(usize),
    /// Restore the captured wallpapers: the slice at this index was refused.
    RollBack(usize),
    /// Record the span as active.
    Commit,
}

/// The step that starts applying `slice_count` slices.
pub open spec fn spec_first_slice_step(slice_count: usize) -> SpanStep {
    if slice_count == 0 {
        SpanStep::Commit
    } else {
        SpanStep::ApplySlice(0)
    }
}

/// The step after the display of slice `index` accepted it or refused it.
pub open spec fn spec_step_after_slice(index: usize, slice_count: usize, accepted: bool) -> SpanStep {
    if !accepted {
        SpanStep::RollBack(index)
    } else if index + 1 < slice_count {
        SpanStep::ApplySlice((index + 1) as usize)
    } else {
        SpanStep::Commit
    }
}

/// The first step of a run: the previous assignments are captured only when no
/// span is active, so a span applied over another still rolls back to the
/// wallpapers from before the first one.
pub fn span_first_step(active_previous: usize, slice_count: usize) -> (s: SpanStep)
    ensures
        s == (if active_previous == 0 {
            SpanStep::CapturePrevious
        } else {
            spec_first_slice_step(slice_count)
        }),
{
    if active_previous == 0 {
        SpanStep::CapturePrevious
    } else {
        span_step_after_capture(slice_count)
    }
}

/// The step after the previous assignments were captured.
pub fn span_step_after_capture(slice_count: usize) -> (s: SpanStep)
    ensures
        s == spec_first_slice_step(slice_count),
{
    if slice_count == 0 {
        SpanStep::Commit
    } else {
        SpanStep::ApplySlice(0)
    }
}

/// The step after the display of slice `index` answered.
pub fn span_step_after_slice(index: usize, slice_count: usize, accepted: bool) -> (s: SpanStep)
    requires
        index < slice_count,
    ensures
        s == spec_step_after_slice(index, slice_count, accepted),
{
    if !accepted {
        SpanStep::RollBack(index)
    } else if index + 1 < slice_count {
        SpanStep::ApplySlice(index + 1)
    } else {
        SpanStep::Commit
    }
}

/// Where a run ends when, from slice `index` on, each display answers as
/// `accepted` says.
pub open spec fn span_run_from(index: usize, slice_count: usize, accepted: Seq<bool>) -> SpanStep
    decreases slice_count - index,
{
    if index >= slice_count {
        SpanStep::Commit
    } else {
        match spec_step_after_slice(index, slice_count, accepted[index as int]) {
            SpanStep::ApplySlice(next) => if next > index {
                span_run_from(next, slice_count, accepted)
            } else {
                SpanStep::Commit
            },
            other => other,
        }
    }
}

/// A span is recorded only when every display accepted its slice; otherwise the
/// run rolls back at the first refusal, and no later slice is applied.
pub proof fn span_commits_only_when_every_slice_is_accepted(
    index: usize,
    slice_count: usize,
    accepted: Seq<bool>,
)
    requires
        accepted.len() == slice_count,
        index <= slice_count,
    ensures
        span_run_from(index, slice_count, accepted) == SpanStep::Commit <==> forall|i: int|
            index <= i < slice_count ==> accepted[i],
        span_run_from(index, slice_count, accepted) is RollBack ==> ({
            let k = span_run_from(index, slice_count, accepted)->RollBack_0;
            &&& index <= k < slice_count
            &&& !accepted[k as int]
            &&& forall|i: int| index <= i < k ==> accepted[i]
        }),
        span_run_from(index, slice_count, accepted) is Commit || span_run_from(
            index,
            slice_count,
            accepted,
        ) is RollBack,
    decreases slice_count - index,
{
    if index < slice_count && accepted[index as int] && index + 1 < slice_count {
        span_commits_only_when_every_slice_is_accepted((index + 1) as usize, slice_count, accepted);
    }
}

} // verus!

