use butter_scroll::detector::{classify_detection, WS_VSCROLL_STYLE};
use butter_scroll::threshold::ThresholdMode;

struct MockDetectionInput {
    class_name: Option<String>,
    style: Option<u32>,
    before_pos: Option<i32>,
    after_pos: Option<i32>,
}

/// The expected-distance inputs of the classification, as the engine
/// derives them from the floating-point expected delta.
fn expected_inputs(expected_delta: f64) -> (bool, u64) {
    let positive = !(expected_delta <= f64::EPSILON);
    let limit = (5.0 * expected_delta.abs()).floor();
    let limit = if limit.is_nan() { u64::MAX } else { limit as u64 };
    (positive, limit)
}

fn detect_with_mock(input: &MockDetectionInput, hwnd: isize, expected_delta: f64) -> ThresholdMode {
    let (positive, limit) = expected_inputs(expected_delta);
    classify_detection(
        hwnd,
        positive,
        limit,
        input.class_name.as_deref(),
        input.style,
        input.before_pos,
        input.after_pos,
    )
}

#[test]
fn wpf_class_detected() {
    let input = MockDetectionInput {
        class_name: Some("HwndWrapper[app]".to_string()),
        style: Some(0),
        before_pos: Some(100),
        after_pos: Some(100),
    };

    let mode = detect_with_mock(&input, 123, 1.0);
    assert_eq!(mode, ThresholdMode::Legacy120);
}

#[test]
fn modern_app_smooth_ok() {
    let input = MockDetectionInput {
        class_name: Some("Chrome_WidgetWin_1".to_string()),
        style: Some(0), // no WS_VSCROLL
        before_pos: None,
        after_pos: None,
    };

    let mode = detect_with_mock(&input, 456, 1.0);
    assert_eq!(mode, ThresholdMode::SmoothOk);
}

#[test]
fn all_failure_paths_return_unknown() {
    // bad hwnd
    let ok_input = MockDetectionInput {
        class_name: Some("AnyWindow".to_string()),
        style: Some(0),
        before_pos: None,
        after_pos: None,
    };
    assert_eq!(detect_with_mock(&ok_input, 0, 1.0), ThresholdMode::Unknown);

    // class name fetch failed
    let class_fail = MockDetectionInput {
        class_name: None,
        style: Some(0),
        before_pos: None,
        after_pos: None,
    };
    assert_eq!(detect_with_mock(&class_fail, 1, 1.0), ThresholdMode::Unknown);

    // scrollbar path but GetScrollInfo failed
    let scroll_fail = MockDetectionInput {
        class_name: Some("Win32Window".to_string()),
        style: Some(WS_VSCROLL_STYLE),
        before_pos: None,
        after_pos: None,
    };
    assert_eq!(detect_with_mock(&scroll_fail, 1, 1.0), ThresholdMode::Unknown);
}

#[test]
fn scrollbar_movement_decides_mode() {
    let moved = |before: i32, after: i32| MockDetectionInput {
        class_name: Some("Edit".to_string()),
        style: Some(WS_VSCROLL_STYLE),
        before_pos: Some(before),
        after_pos: Some(after),
    };
    // Expected 10 → legacy above 50.
    assert_eq!(detect_with_mock(&moved(0, 51), 1, 10.0), ThresholdMode::Legacy120);
    assert_eq!(detect_with_mock(&moved(0, 50), 1, 10.0), ThresholdMode::SmoothOk);
    assert_eq!(detect_with_mock(&moved(60, 0), 1, 10.0), ThresholdMode::Legacy120);
    assert_eq!(detect_with_mock(&moved(7, 7), 1, 10.0), ThresholdMode::Unknown);
    // Non-positive expected distance is inconclusive.
    assert_eq!(detect_with_mock(&moved(0, 51), 1, 0.0), ThresholdMode::Unknown);
    // Fractional expected distance: 5 * 2.5 = 12.5, so 13 is legacy, 12 smooth.
    assert_eq!(detect_with_mock(&moved(0, 13), 1, 2.5), ThresholdMode::Legacy120);
    assert_eq!(detect_with_mock(&moved(0, 12), 1, 2.5), ThresholdMode::SmoothOk);
}
