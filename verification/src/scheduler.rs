//! Decisions of one scheduled wallpaper change: whether the runtime environment
//! must be read, whether the run is deferred, and the bounded retry sequence.
//! The caller performs each step (reading rules, selecting, applying) and feeds
//! the outcome back.
use vstd::prelude::*;

use crate::error::{spec_message, AppError, AppResult};
use crate::image_processing::{spec_fit_mode_from_name, FitMode};
use crate::models::{spec_pause_reason, RotationRules};
use crate::platform::RuntimeEnvironment;
use crate::provider::string_views;
use crate::text::{chars_of, decimal, spec_decimal, str_eq, string_from_chars};

verus! {

/// Most wallpaper attempts made by one scheduled run.
pub const MAX_ATTEMPTS: u32 = 3;

/// Longest failure text persisted for a schedule.
pub const MAX_FAILURE_CHARS: usize = 500;

/// Whether the rules consult the runtime environment at all.
pub open spec fn spec_needs_environment(rules: RotationRules) -> bool {
    ||| rules.pause_on_battery
    ||| rules.pause_on_fullscreen
    ||| rules.start_time is Some
    ||| rules.end_time is Some
    ||| rules.day_group@ != "all"@
}

/// Whether the platform's runtime environment must be read before deciding.
pub fn needs_environment(rules: &RotationRules) -> (b: bool)
    ensures
        b == spec_needs_environment(*rules),
{
    rules.pause_on_battery || rules.pause_on_fullscreen || rules.start_time.is_some()
        || rules.end_time.is_some() || !str_eq(rules.day_group.as_str(), "all")
}

/// When the rules consult no environment signal, no environment can pause a run,
/// so skipping the platform query is safe.
pub proof fn environment_unused_when_not_needed(
    rules: RotationRules,
    first: RuntimeEnvironment,
    second: RuntimeEnvironment,
)
    requires
        !spec_needs_environment(rules),
    ensures
        spec_pause_reason(rules, first) is None,
        spec_pause_reason(rules, first) == spec_pause_reason(rules, second),
{
    reveal_strlit("all");
    reveal_strlit("weekdays");
    reveal_strlit("weekends");
    assert("all"@.len() != "weekdays"@.len());
    assert("all"@.len() != "weekends"@.len());
}

/// The first 500 characters of a failure text.
pub open spec fn spec_bounded(text: Seq<char>) -> Seq<char> {
    if text.len() > 500 {
        text.take(500)
    } else {
        text
    }
}

/// Bounds a failure text before it is persisted.
pub fn bounded_failure(text: &str) -> (r: String)
    ensures
        r@ == spec_bounded(text@),
{
    let v = chars_of(text);
    if v.len() > MAX_FAILURE_CHARS {
        let head = crate::text::slice_chars(&v, 0, MAX_FAILURE_CHARS);
        assert(head@ =~= text@.take(500));
        string_from_chars(&head)
    } else {
        string_from_chars(&v)
    }
}

/// What a due run does before any wallpaper is selected.
#[derive(Debug)]
pub enum Preflight {
    /// A rule pauses this run; the reason is recorded and the run deferred.
    Defer(String),
    /// The run proceeds with the persisted fit mode.
    Run(FitMode),
    /// The run fails with this (bounded) text.
    Fail(String),
}

/// The preflight decision for given rules, environment and persisted fit-mode name.
pub open spec fn preflight_is(
    rules: RotationRules,
    environment: RuntimeEnvironment,
    fit_mode: Seq<char>,
    p: Preflight,
) -> bool {
    match spec_pause_reason(rules, environment) {
        Some(reason) => p matches Preflight::Defer(r) && r@ == reason,
        None => match spec_fit_mode_from_name(fit_mode) {
            Some(mode) => p == Preflight::Run(mode),
            None => p matches Preflight::Fail(m) && m@ == spec_bounded(
                "configuration error: "@ + ("unsupported fit mode: "@ + fit_mode),
            ),
        },
    }
}

/// Decides whether a due run is deferred by a rule, fails on its configuration, or proceeds.
pub fn preflight(rules: &RotationRules, environment: &RuntimeEnvironment, fit_mode: &str) -> (p:
    Preflight)
    ensures
        preflight_is(*rules, *environment, fit_mode@, p),
{
    match rules.pause_reason(environment) {
        Some(reason) => Preflight::Defer(reason),
        None => match FitMode::from_name(fit_mode) {
            Ok(mode) => Preflight::Run(mode),
            Err(error) => {
                let text = error.message();
                Preflight::Fail(bounded_failure(text.as_str()))
            },
        },
    }
}

/// The persisted text of a failure that ends a run before any attempt.
pub fn failure_text(error: &AppError) -> (r: String)
    ensures
        r@ == spec_bounded(spec_message(*error)),
{
    let text = error.message();
    bounded_failure(text.as_str())
}

// ---------------------------------------------------------------------------
// Attempts
// ---------------------------------------------------------------------------

/// Outcome of one attempt, reported by the caller.
#[derive(Debug)]
pub enum AttemptOutcome {
    /// No wallpaper could be selected; the run ends.
    SelectionFailed(AppError),
    /// The selected wallpaper could not be applied.
    ApplyFailed(AppError),
    /// The wallpaper was applied but its retained catalog identity could not be loaded.
    IdentityFailed(AppError),
    /// The wallpaper was applied and recorded.
    Applied,
}

/// What the caller does next.
#[derive(Debug)]
pub enum RunStep {
    /// Select and apply another wallpaper.
    Retry,
    /// The run succeeded.
    Complete,
    /// The run failed; persist this (bounded) text and advance the schedule.
    Fail(String),
}

/// The state of one run: the current attempt number and the failures so far.
pub struct ScheduleRun {
    pub attempt: u32,
    pub failures: Vec<String>,
}

/// Failure texts joined by ` | `.
pub open spec fn join_failures(parts: Seq<Seq<char>>) -> Seq<char>
    decreases parts.len(),
{
    if parts.len() == 0 {
        Seq::empty()
    } else if parts.len() == 1 {
        parts[0]
    } else {
        join_failures(parts.drop_last()) + " | "@ + parts.last()
    }
}

/// The text recorded for a failed attempt: `attempt N: ` and the error's display text.
pub open spec fn attempt_text(attempt: u32, error: AppError) -> Seq<char> {
    "attempt "@ + spec_decimal(attempt as nat) + ": "@ + spec_message(error)
}

fn join_texts(parts: &Vec<String>) -> (s: String)
    ensures
        s@ == join_failures(string_views(parts@)),
{
    let ghost v = string_views(parts@);
    let mut s = String::new();
    let mut i: usize = 0;
    while i < parts.len()
        invariant
            i <= parts.len(),
            v == string_views(parts@),
            s@ == join_failures(v.take(i as int)),
        decreases parts.len() - i,
    {
        if i > 0 {
            s.append(" | ");
        }
        s.append(parts[i].as_str());
        proof {
            assert(v.take(i + 1).drop_last() =~= v.take(i as int));
            if i == 0 {
                assert(join_failures(v.take(0)) =~= Seq::<char>::empty());
                assert(s@ =~= v.take(1)[0]);
            }
        }
        i += 1;
    }
    assert(v.take(parts.len() as int) =~= v);
    s
}

impl ScheduleRun {
    /// A run before its first attempt.
    pub fn new() -> (run: ScheduleRun)
        ensures
            run.attempt == 1,
            run.failures@.len() == 0,
    {
        ScheduleRun { attempt: 1, failures: Vec::new() }
    }

    /// Records the outcome of the current attempt and says what to do next. A run
    /// makes at most three attempts; a selection failure ends it at once.
    pub fn record(&mut self, outcome: AttemptOutcome) -> (step: RunStep)
        requires
            1 <= old(self).attempt <= MAX_ATTEMPTS,
        ensures
            match outcome {
                AttemptOutcome::Applied => step is Complete && *final(self) == *old(self),
                AttemptOutcome::SelectionFailed(e) => {
                    &&& string_views(final(self).failures@) == string_views(
                        old(self).failures@,
                    ).push(spec_message(e))
                    &&& final(self).attempt == old(self).attempt
                    &&& step matches RunStep::Fail(m) && m@ == spec_bounded(
                        join_failures(string_views(final(self).failures@)),
                    )
                },
                AttemptOutcome::ApplyFailed(e) => {
                    &&& string_views(final(self).failures@) == string_views(
                        old(self).failures@,
                    ).push(attempt_text(old(self).attempt, e))
                    &&& final(self).attempt == old(self).attempt + 1
                    &&& final(self).attempt <= MAX_ATTEMPTS ==> step is Retry
                    &&& final(self).attempt > MAX_ATTEMPTS ==> (step matches RunStep::Fail(m) && m@
                        == spec_bounded(join_failures(string_views(final(self).failures@))))
                },
                AttemptOutcome::IdentityFailed(e) => {
                    &&& string_views(final(self).failures@) == string_views(
                        old(self).failures@,
                    ).push(spec_message(e))
                    &&& final(self).attempt == old(self).attempt + 1
                    &&& final(self).attempt <= MAX_ATTEMPTS ==> step is Retry
                    &&& final(self).attempt > MAX_ATTEMPTS ==> (step matches RunStep::Fail(m) && m@
                        == spec_bounded(join_failures(string_views(final(self).failures@))))
                },
            },
    {
        let ghost before = self.failures@;
        match outcome {
            AttemptOutcome::Applied => RunStep::Complete,
            AttemptOutcome::SelectionFailed(error) => {
                self.failures.push(error.message());
                assert(string_views(self.failures@) =~= string_views(before).push(
                    spec_message(error),
                ));
                let joined = join_texts(&self.failures);
                RunStep::Fail(bounded_failure(joined.as_str()))
            },
            AttemptOutcome::ApplyFailed(error) => {
                let mut text = String::from_str("attempt ");
                text.append(decimal(self.attempt as u64).as_str());
                text.append(": ");
                text.append(error.message().as_str());
                self.failures.push(text);
                assert(string_views(self.failures@) =~= string_views(before).push(
                    attempt_text(self.attempt, error),
                ));
                self.attempt = self.attempt + 1;
                if self.attempt <= MAX_ATTEMPTS {
                    RunStep::Retry
                } else {
                    let joined = join_texts(&self.failures);
                    RunStep::Fail(bounded_failure(joined.as_str()))
                }
            },
            AttemptOutcome::IdentityFailed(error) => {
                self.failures.push(error.message());
                assert(string_views(self.failures@) =~= string_views(before).push(
                    spec_message(error),
                ));
                self.attempt = self.attempt + 1;
                if self.attempt <= MAX_ATTEMPTS {
                    RunStep::Retry
                } else {
                    let joined = join_texts(&self.failures);
                    RunStep::Fail(bounded_failure(joined.as_str()))
                }
            },
        }
    }
}

} // verus!
