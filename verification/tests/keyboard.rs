use butter_scroll::config::{KeyboardConfig, KeyboardMode};
use butter_scroll::keyboard_hook::{
    classify_key, decide_key_down, KeyDownDecision, KeyGroup, KeyScroll, KeyInterceptor, VK_DOWN_CODE,
    VK_NEXT_CODE, VK_PRIOR_CODE, VK_SPACE_CODE, VK_UP_CODE,
};

#[test]
fn key_classification() {
    let up = classify_key(VK_PRIOR_CODE, false).unwrap();
    assert_eq!((up.scroll, up.group), (KeyScroll::Raw { delta_y: 600 }, KeyGroup::PageUpDown));
    let down = classify_key(VK_NEXT_CODE, false).unwrap();
    assert_eq!(
        (down.scroll, down.group),
        (KeyScroll::Raw { delta_y: -600 }, KeyGroup::PageUpDown)
    );
    assert_eq!(classify_key(VK_UP_CODE, false).unwrap().scroll, KeyScroll::Wheel { delta: 120 });
    assert_eq!(classify_key(VK_DOWN_CODE, false).unwrap().scroll, KeyScroll::Wheel { delta: -120 });
    assert_eq!(classify_key(VK_SPACE_CODE, false).unwrap().scroll, KeyScroll::Raw { delta_y: -600 });
    assert_eq!(classify_key(VK_SPACE_CODE, true).unwrap().scroll, KeyScroll::Raw { delta_y: 600 });
    assert!(classify_key(0x41, false).is_none());
    // Only the low 16 bits of the code count.
    assert_eq!(classify_key(0x1_0021, false).unwrap().group, KeyGroup::PageUpDown);
}

#[test]
fn key_down_decisions_follow_config() {
    let cfg = KeyboardConfig::default();
    assert_eq!(
        decide_key_down(&cfg, false, false, VK_NEXT_CODE),
        KeyDownDecision::Intercept { scroll: KeyScroll::Raw { delta_y: -600 } }
    );
    // Arrows and space are off by default.
    assert_eq!(decide_key_down(&cfg, false, false, VK_UP_CODE), KeyDownDecision::PassThrough);
    assert_eq!(decide_key_down(&cfg, false, false, VK_SPACE_CODE), KeyDownDecision::PassThrough);
    // Ctrl/Alt/Win held or keyboard scrolling off: pass through.
    assert_eq!(decide_key_down(&cfg, true, false, VK_NEXT_CODE), KeyDownDecision::PassThrough);
    let off = KeyboardConfig { enabled: false, ..cfg };
    assert_eq!(decide_key_down(&off, false, false, VK_NEXT_CODE), KeyDownDecision::PassThrough);
    // Shift selects text with Page/arrow keys, but reverses Space.
    assert_eq!(decide_key_down(&cfg, false, true, VK_NEXT_CODE), KeyDownDecision::PassThrough);
    let mut space_on = cfg;
    space_on.space.mode = Some(KeyboardMode::Always);
    assert_eq!(
        decide_key_down(&space_on, false, true, VK_SPACE_CODE),
        KeyDownDecision::Intercept { scroll: KeyScroll::Raw { delta_y: 600 } }
    );
    let mut scrollbar = cfg;
    scrollbar.mode = KeyboardMode::Win32Scrollbar;
    assert_eq!(
        decide_key_down(&scrollbar, false, false, VK_PRIOR_CODE),
        KeyDownDecision::InterceptIfScrollbar { scroll: KeyScroll::Raw { delta_y: 600 } }
    );
}

#[test]
fn arrow_keys_scroll_like_a_wheel_notch() {
    let mut cfg = KeyboardConfig::default();
    cfg.arrow_keys.mode = Some(KeyboardMode::Always);
    assert_eq!(
        decide_key_down(&cfg, false, false, VK_DOWN_CODE),
        KeyDownDecision::Intercept { scroll: KeyScroll::Wheel { delta: -120 } }
    );
}

#[test]
fn swallowed_key_releases_are_swallowed_once() {
    let mut keys = KeyInterceptor::new();
    assert!(!keys.key_up(VK_NEXT_CODE), "press not swallowed: release passes");
    keys.record_swallowed(VK_NEXT_CODE);
    assert!(keys.is_held(VK_NEXT_CODE));
    assert!(keys.key_up(VK_NEXT_CODE), "paired release swallowed");
    assert!(!keys.key_up(VK_NEXT_CODE), "only once");
    assert!(!keys.is_held(VK_NEXT_CODE));
}
