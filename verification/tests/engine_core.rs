use butter_scroll::engine::{
    decode_wheel_event, frame_sleep_nanos, passthrough_wheel, scales_with_step, AccelWindow, EngineCore, WheelEvent,
    WM_MOUSEHWHEEL_CODE, WM_MOUSEWHEEL_CODE,
};
use butter_scroll::resolve::{MockProcessResolver, ProcessResolver, WindowsProcessResolver};
use butter_scroll::threshold::{AppKey, AppThresholdCache, ThresholdMode};

fn key(path: &str) -> AppKey {
    AppKey { exe_path: path.to_string(), exe_mtime: None }
}

/// The resolution and detection steps the engine takes for a wheel event.
fn route(core: &mut EngineCore, cache: &mut AppThresholdCache, resolver: &dyn ProcessResolver, pid: u32, overrides: &[(&str, f64)]) -> Option<AppKey> {
    if core.needs_resolution(pid) {
        if let Some(k) = resolver.resolve_pid(pid) {
            let override_mode = overrides
                .iter()
                .find(|(p, _)| *p == k.exe_path)
                .map(|(_, v)| if *v >= 100.0 { ThresholdMode::Legacy120 } else { ThresholdMode::SmoothOk });
            core.record_resolution(pid, k, override_mode, cache);
        }
    }
    core.begin_scroll(pid, true, cache)
}

#[test]
fn resolution_records_process_and_requests_detection_once() {
    let app = AppKey { exe_path: "C:/apps/test.exe".to_string(), exe_mtime: Some(12345) };
    let resolver = MockProcessResolver { result: Some(app.clone()) };
    let mut core = EngineCore::new();
    let mut cache = AppThresholdCache::new();

    let first = route(&mut core, &mut cache, &resolver, 42, &[]);
    assert_eq!(first, Some(app.clone()));
    assert_eq!(core.pid_to_key.get(&42), Some(&app));
    assert_eq!(core.current_target_pid, 42);
    assert_eq!(cache.get_mode(&app), Some(&ThresholdMode::Detecting));

    // Already detecting: no second request.
    assert_eq!(route(&mut core, &mut cache, &resolver, 42, &[]), None);
    assert!(!core.needs_resolution(42));
    assert!(!core.needs_resolution(0));
}

#[test]
fn failed_resolution_leaves_global_threshold() {
    let resolver = MockProcessResolver { result: None };
    let mut core = EngineCore::new();
    let mut cache = AppThresholdCache::new();
    assert_eq!(route(&mut core, &mut cache, &resolver, 999, &[]), None);
    assert!(core.pid_to_key.get(&999).is_none());
    assert_eq!(core.current_target_pid, 999);
    assert_eq!(core.threshold_for_current_pid(&cache), None);
    let stub = WindowsProcessResolver::new();
    assert!(stub.resolve_pid(1).is_none());
}

#[test]
fn user_overrides_fix_the_mode() {
    let legacy = key("C:/legacy/notepad.exe");
    let mut core = EngineCore::new();
    let mut cache = AppThresholdCache::new();
    let resolver = MockProcessResolver { result: Some(legacy.clone()) };
    let req = route(&mut core, &mut cache, &resolver, 100, &[("C:/legacy/notepad.exe", 120.0)]);
    assert_eq!(req, None, "an override bypasses detection");
    assert_eq!(cache.get_mode(&legacy), Some(&ThresholdMode::Legacy120));
    assert_eq!(core.threshold_for_current_pid(&cache), Some(120));

    let smooth = key("C:/modern/app.exe");
    let resolver = MockProcessResolver { result: Some(smooth.clone()) };
    route(&mut core, &mut cache, &resolver, 200, &[("C:/modern/app.exe", 1.0)]);
    assert_eq!(cache.get_mode(&smooth), Some(&ThresholdMode::SmoothOk));
    assert_eq!(core.threshold_for_current_pid(&cache), Some(1));
}

#[test]
fn threshold_follows_current_target() {
    let legacy = key("C:/legacy/app.exe");
    let mut core = EngineCore::new();
    let mut cache = AppThresholdCache::new();
    cache.set_mode(legacy.clone(), ThresholdMode::Legacy120);
    core.record_resolution(1234, legacy, None, &mut cache);
    assert_eq!(core.threshold_for_current_pid(&cache), None, "no target yet");
    core.begin_scroll(1234, true, &mut cache);
    assert_eq!(core.threshold_for_current_pid(&cache), Some(120));
    core.begin_scroll(7777, true, &mut cache);
    assert_eq!(core.threshold_for_current_pid(&cache), None, "unresolved target");
}

#[test]
fn no_detection_when_auto_detect_is_off() {
    let app = key("C:/apps/plain.exe");
    let mut core = EngineCore::new();
    let mut cache = AppThresholdCache::new();
    core.record_resolution(7, app.clone(), None, &mut cache);
    assert_eq!(core.begin_scroll(7, false, &mut cache), None);
    assert_eq!(cache.get_mode(&app), None, "the application stays unmarked");
    assert_eq!(core.threshold_for_current_pid(&cache), Some(1));
    // Turning detection on afterwards requests it.
    assert_eq!(core.begin_scroll(7, true, &mut cache), Some(app.clone()));
    assert_eq!(cache.get_mode(&app), Some(&ThresholdMode::Detecting));
}

#[test]
fn direction_changes_reset_acceleration() {
    let mut core = EngineCore::new();
    assert!(core.direction_check(0, -1), "first motion sets a direction");
    assert_eq!(core.acceleration_window(100, 50), AccelWindow::Baseline);
    assert!(!core.direction_check(0, -1), "same direction");
    assert_eq!(core.last_scroll_time, 100);
    assert!(core.direction_check(0, 1), "reversal");
    assert_eq!(core.direction, (0, 1));
    assert_eq!(core.last_scroll_time, 0);
    assert!(!core.direction_check(0, 0), "no motion never changes direction");
}

#[test]
fn acceleration_windows() {
    let mut core = EngineCore::new();
    assert_eq!(core.acceleration_window(42, 50), AccelWindow::Baseline);
    assert_eq!(core.acceleration_window(42, 50), AccelWindow::Inside { elapsed_ms: 0 });
    assert_eq!(core.acceleration_window(72, 50), AccelWindow::Inside { elapsed_ms: 30 });
    assert_eq!(core.acceleration_window(272, 50), AccelWindow::Outside);
    // A clock going backwards counts as no time elapsed.
    assert_eq!(core.acceleration_window(100, 50), AccelWindow::Inside { elapsed_ms: 0 });
    core.reset_motion();
    assert_eq!(core.direction, (0, 0));
    assert_eq!(core.acceleration_window(500, 50), AccelWindow::Baseline);
}

#[test]
fn wheel_delta_rules() {
    assert_eq!(passthrough_wheel(-120, false), (0, -120));
    assert_eq!(passthrough_wheel(240, true), (240, 0));
    assert!(scales_with_step(-2));
    assert!(scales_with_step(120));
    assert!(!scales_with_step(-1));
    assert!(!scales_with_step(1));
    assert!(!scales_with_step(0));
}

#[test]
fn wheel_events_are_decoded_from_hook_data() {
    // One notch down: high word 0xFF88 (-120).
    assert_eq!(
        decode_wheel_event(0, WM_MOUSEWHEEL_CODE, 0xFF88_0000, 0),
        Some(WheelEvent { delta: -120, horizontal: false })
    );
    assert_eq!(
        decode_wheel_event(0, WM_MOUSEHWHEEL_CODE, 0x0078_1234, 0),
        Some(WheelEvent { delta: 120, horizontal: true })
    );
    assert_eq!(
        decode_wheel_event(0, WM_MOUSEWHEEL_CODE, 0x8000_0000, 0x10),
        Some(WheelEvent { delta: i16::MIN, horizontal: false })
    );
    // Injected events, other messages and other hook codes pass on.
    assert_eq!(decode_wheel_event(0, WM_MOUSEWHEEL_CODE, 0xFF88_0000, 0x01), None);
    assert_eq!(decode_wheel_event(0, 0x0200, 0xFF88_0000, 0), None);
    assert_eq!(decode_wheel_event(3, WM_MOUSEWHEEL_CODE, 0xFF88_0000, 0), None);
}

#[test]
fn frame_pacing_sleeps_for_the_rest_of_the_budget() {
    // 150 fps: 6666 µs per frame.
    assert_eq!(frame_sleep_nanos(150, 0), 6_666_000);
    assert_eq!(frame_sleep_nanos(150, 1_000_000), 5_666_000);
    assert_eq!(frame_sleep_nanos(150, 6_666_000), 0);
    assert_eq!(frame_sleep_nanos(150, 9_000_000), 0);
    // A rate of 0 counts as 1 frame per second.
    assert_eq!(frame_sleep_nanos(0, 0), 1_000_000_000);
    assert_eq!(frame_sleep_nanos(1000, 250), 999_750);
}
