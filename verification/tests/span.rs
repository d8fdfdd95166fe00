use wallpaper_desktop::error::AppError;
use wallpaper_desktop::models::MonitorInfo;
use wallpaper_desktop::span::calculate_monitor_layout;
use wallpaper_desktop::span::service::{
    disable_outcome, require_span_displays, rollback_summary, slice_rejection, span_first_step,
    span_step_after_capture, span_step_after_slice, SpanStep,
};

fn monitor(id: &str, width: u32, height: u32, x: i32, y: i32) -> MonitorInfo {
    MonitorInfo {
        system_monitor_id: id.into(),
        name: id.into(),
        width,
        height,
        position_x: x,
        position_y: y,
        primary: x == 0 && y == 0,
    }
}

#[test]
fn normalizes_negative_and_vertical_monitor_offsets() {
    let layout = calculate_monitor_layout(&[
        monitor("primary", 2560, 1600, 0, 0),
        monitor("upper-left", 1920, 1080, -1920, -1080),
    ])
    .expect("layout");
    assert_eq!((layout.origin_x, layout.origin_y), (-1920, -1080));
    assert_eq!((layout.width, layout.height), (4480, 2680));
    assert_eq!((layout.slices[0].canvas_x, layout.slices[0].canvas_y), (0, 0));
    assert_eq!((layout.slices[1].canvas_x, layout.slices[1].canvas_y), (1920, 1080));
}

#[test]
fn rejects_empty_or_zero_sized_layouts() {
    assert!(calculate_monitor_layout(&[]).is_err());
    assert!(calculate_monitor_layout(&[monitor("invalid", 0, 1080, 0, 0)]).is_err());
}

#[test]
fn layout_slices_cover_every_monitor_in_canvas_order() {
    let layout = calculate_monitor_layout(&[
        monitor("right", 1920, 1080, 1920, 0),
        monitor("left", 1920, 1080, 0, 0),
    ])
    .expect("layout");
    assert_eq!(layout.slices.len(), 2);
    assert_eq!(layout.slices[0].system_monitor_id, "left");
    assert_eq!(layout.slices[1].system_monitor_id, "right");
    assert_eq!((layout.width, layout.height), (3840, 1080));
    let again = calculate_monitor_layout(&[
        monitor("left", 1920, 1080, 0, 0),
        monitor("right", 1920, 1080, 1920, 0),
    ])
    .expect("layout");
    assert_eq!(layout.layout_hash, again.layout_hash);
}

#[test]
fn spanning_needs_two_displays() {
    match require_span_displays(1) {
        Err(AppError::Monitor(m)) => assert_eq!(m, "spanning mode requires at least two active displays"),
        other => panic!("unexpected {other:?}"),
    }
    assert!(require_span_displays(2).is_ok());
}

#[test]
fn rejected_slices_report_rollback_failures() {
    assert_eq!(rollback_summary(&Vec::new()), "");
    let failures = vec![
        ("A".to_string(), AppError::Platform("busy".to_string())),
        ("B".to_string(), AppError::Platform("gone".to_string())),
    ];
    let summary = rollback_summary(&failures);
    assert_eq!(summary, "; rollback failures: A: platform error: busy | B: platform error: gone");
    match slice_rejection("A", &AppError::Platform("denied".to_string()), &summary) {
        AppError::Wallpaper(m) => assert_eq!(
            m,
            "display A rejected its span slice: platform error: denied; rollback failures: A: platform error: busy | B: platform error: gone"
        ),
        other => panic!("unexpected {other:?}"),
    }
    assert_eq!(disable_outcome(3, String::new()).expect("restored"), 3);
    assert!(disable_outcome(3, "; rollback failures: x".to_string()).is_err());
}

#[test]
fn layout_is_the_same_whatever_order_monitors_are_reported_in() {
    let a = monitor("left", 1920, 1080, -1920, 0);
    let b = monitor("main", 2560, 1440, 0, 0);
    let c = monitor("top", 1920, 1080, 0, -1080);
    let first = calculate_monitor_layout(&[a.clone(), b.clone(), c.clone()]).expect("layout");
    let second = calculate_monitor_layout(&[c, a, b]).expect("layout");
    assert_eq!(first.layout_hash, second.layout_hash);
    assert_eq!(first.layout_hash.len(), 16);
    assert!(first.layout_hash.chars().all(|ch| ch.is_ascii_hexdigit() && !ch.is_ascii_uppercase()));
    assert_eq!((first.origin_x, first.origin_y), (second.origin_x, second.origin_y));
    assert_eq!((first.width, first.height), (second.width, second.height));
    let ids = |l: &wallpaper_desktop::span::MonitorLayout| {
        l.slices
            .iter()
            .map(|s| (s.system_monitor_id.clone(), s.canvas_x, s.canvas_y, s.width, s.height))
            .collect::<Vec<_>>()
    };
    assert_eq!(ids(&first), ids(&second));
    assert_eq!(first.slices[0].system_monitor_id, "top");
}

#[test]
fn a_span_captures_once_applies_in_order_and_rolls_back_at_the_first_refusal() {
    assert_eq!(span_first_step(0, 3), SpanStep::CapturePrevious);
    assert_eq!(span_first_step(2, 3), SpanStep::ApplySlice(0));
    assert_eq!(span_step_after_capture(3), SpanStep::ApplySlice(0));
    assert_eq!(span_step_after_capture(0), SpanStep::Commit);
    assert_eq!(span_step_after_slice(0, 3, true), SpanStep::ApplySlice(1));
    assert_eq!(span_step_after_slice(1, 3, false), SpanStep::RollBack(1));
    assert_eq!(span_step_after_slice(2, 3, true), SpanStep::Commit);
}
