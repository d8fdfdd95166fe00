use wallpaper_desktop::error::AppError;
use wallpaper_desktop::image_processing::FitMode;
use wallpaper_desktop::models::{parse_minutes, RotationRules};
use wallpaper_desktop::platform::RuntimeEnvironment;
use wallpaper_desktop::rotation::{
    arrange_shuffle_round, check_pool, check_strategy, next_generation, parse_id_list,
    plan_next_rotation, strategy_for, unique_sorted_ids, validate_rotation, RotationPlan,
};
use wallpaper_desktop::scheduler::{
    bounded_failure, needs_environment, preflight, AttemptOutcome, Preflight, RunStep,
    ScheduleRun,
};

fn overnight_weekday_rules() -> RotationRules {
    RotationRules {
        version: 1,
        start_time: Some("22:00".into()),
        end_time: Some("06:00".into()),
        day_group: "weekdays".into(),
        pause_on_battery: true,
        pause_on_fullscreen: true,
    }
    .validated()
    .expect("valid rules")
}

#[test]
fn evaluates_weekdays_overnight_windows_and_runtime_pauses() {
    let rules = overnight_weekday_rules();
    let monday = RuntimeEnvironment { iso_weekday: 1, local_minutes: 23 * 60, ..RuntimeEnvironment::default() };
    assert!(rules.pause_reason(&monday).is_none());
    assert_eq!(
        rules.pause_reason(&RuntimeEnvironment { on_battery: true, ..monday }).as_deref(),
        Some("电池供电时暂停自动切换")
    );
    let saturday = RuntimeEnvironment { iso_weekday: 6, ..monday };
    assert!(rules.pause_reason(&saturday).is_some());
}

#[test]
fn rule_validation_rejects_unknown_schemas_and_times() {
    let mut rules = RotationRules::default();
    rules.day_group = "holidays".into();
    assert!(rules.validated().is_err());
    let mut late = RotationRules::default();
    late.start_time = Some("24:00".into());
    assert!(late.validated().is_err());
    assert_eq!(parse_minutes("06:30").expect("time"), 390);
    assert!(parse_minutes("6").is_err());
}

#[test]
fn environment_is_read_only_when_rules_need_it() {
    assert!(!needs_environment(&RotationRules::default()));
    assert!(needs_environment(&overnight_weekday_rules()));
}

#[test]
fn preflight_defers_paused_runs_and_rejects_unknown_fit_modes() {
    let rules = overnight_weekday_rules();
    let noon = RuntimeEnvironment { iso_weekday: 2, local_minutes: 12 * 60, ..RuntimeEnvironment::default() };
    assert!(matches!(preflight(&rules, &noon, "fill"), Preflight::Defer(_)));
    let night = RuntimeEnvironment { iso_weekday: 2, local_minutes: 23 * 60, ..RuntimeEnvironment::default() };
    assert!(matches!(preflight(&rules, &night, "fit"), Preflight::Run(FitMode::Fit)));
    match preflight(&rules, &night, "tile") {
        Preflight::Fail(m) => assert_eq!(m, "configuration error: unsupported fit mode: tile"),
        other => panic!("unexpected {other:?}"),
    }
}

#[test]
fn a_run_makes_at_most_three_attempts() {
    let mut run = ScheduleRun::new();
    assert!(matches!(run.record(AttemptOutcome::ApplyFailed(AppError::Network("a".into()))), RunStep::Retry));
    assert!(matches!(run.record(AttemptOutcome::IdentityFailed(AppError::Wallpaper("b".into()))), RunStep::Retry));
    match run.record(AttemptOutcome::ApplyFailed(AppError::Image("c".into()))) {
        RunStep::Fail(text) => assert_eq!(
            text,
            "attempt 1: network error: a | wallpaper error: b | attempt 3: image error: c"
        ),
        other => panic!("unexpected {other:?}"),
    }
}

#[test]
fn selection_failures_end_the_run_and_success_completes_it() {
    let mut run = ScheduleRun::new();
    match run.record(AttemptOutcome::SelectionFailed(AppError::Wallpaper("empty".into()))) {
        RunStep::Fail(text) => assert_eq!(text, "wallpaper error: empty"),
        other => panic!("unexpected {other:?}"),
    }
    let mut ok = ScheduleRun::new();
    assert!(matches!(ok.record(AttemptOutcome::Applied), RunStep::Complete));
}

#[test]
fn failure_texts_are_bounded_to_five_hundred_characters() {
    let long = "x".repeat(800);
    assert_eq!(bounded_failure(&long).chars().count(), 500);
    assert_eq!(bounded_failure("short"), "short");
}

#[test]
fn rotation_configuration_is_validated() {
    assert_eq!(validate_rotation(60, "fill", "random").expect("valid"), 60);
    match validate_rotation(59, "fill", "random") {
        Err(AppError::Configuration(m)) => assert_eq!(m, "rotation interval must be at least 60 seconds"),
        other => panic!("unexpected {other:?}"),
    }
    match validate_rotation(600, "tile", "random") {
        Err(AppError::Configuration(m)) => assert_eq!(m, "unsupported fit mode: tile"),
        other => panic!("unexpected {other:?}"),
    }
    assert!(validate_rotation(600, "fit", "sequential").is_err());
    assert!(validate_rotation(u64::MAX, "fit", "random").is_err());
    assert_eq!(strategy_for("random"), "shuffle");
    assert_eq!(strategy_for("round_robin"), "round_robin");
    assert!(check_strategy("weighted_random").is_ok());
    assert!(check_strategy("cron").is_err());
}

#[test]
fn rotation_pools_are_unique_and_sorted() {
    assert_eq!(unique_sorted_ids(&vec![5, 1, 5, 3, 1]), vec![1, 3, 5]);
    assert!(check_pool(3, 3).is_ok());
    assert!(check_pool(2, 3).is_err());
}

#[test]
fn random_selected_pool_avoids_the_current_wallpaper_when_an_alternative_exists() {
    assert_eq!(arrange_shuffle_round(vec![7, 8, 9], Some(7)), vec![8, 7, 9]);
    assert_eq!(arrange_shuffle_round(vec![7, 8, 9], Some(8)), vec![7, 8, 9]);
    assert_eq!(arrange_shuffle_round(vec![7], Some(7)), vec![7]);
    assert_eq!(next_generation(4), 5);
    assert_eq!(next_generation(i64::MAX), i64::MAX);
}

#[test]
fn rotation_plans_follow_the_strategy() {
    assert!(matches!(plan_next_rotation("shuffle", 3), RotationPlan::Shuffle));
    match plan_next_rotation("least_recent", 3) {
        RotationPlan::Pool { reason, .. } => assert_eq!(reason, "最近未使用优先：选择该屏最久未使用项"),
        other => panic!("unexpected {other:?}"),
    }
    match plan_next_rotation("round_robin", 0) {
        RotationPlan::Recent { order } => assert_eq!(order, "recent.used_at ASC, wallpaper.id ASC"),
        other => panic!("unexpected {other:?}"),
    }
}

#[test]
fn explanation_ids_skip_unparsable_parts() {
    assert_eq!(parse_id_list(Some("3,x,-4,,12")), vec![3, -4, 12]);
    assert!(parse_id_list(None).is_empty());
}
