use butter_scroll::config::{GeneralConfig, KeyGroupConfig, KeyboardConfig, KeyboardMode};
use butter_scroll::keyboard_hook::sync_keyboard_hook;

#[test]
fn keyboard_defaults() {
    let cfg = KeyboardConfig::default();
    assert!(cfg.enabled);
    assert_eq!(cfg.mode, KeyboardMode::Always);
    // page_up_down inherits parent.
    assert_eq!(cfg.page_up_down.mode, None);
    // arrow_keys and space default to off (safety).
    assert_eq!(cfg.arrow_keys.mode, Some(KeyboardMode::Off));
    assert_eq!(cfg.space.mode, Some(KeyboardMode::Off));
}

#[test]
fn keyboard_effective_mode_inherits() {
    let cfg = KeyboardConfig::default();
    // page_up_down.mode is None → inherits parent "always".
    assert_eq!(cfg.effective_mode(&cfg.page_up_down), KeyboardMode::Always);
    // arrow_keys has explicit "off" → overrides parent.
    assert_eq!(cfg.effective_mode(&cfg.arrow_keys), KeyboardMode::Off);
}

#[test]
fn keyboard_effective_mode_override() {
    let mut cfg = KeyboardConfig::default();
    cfg.mode = KeyboardMode::Win32Scrollbar;
    // page_up_down inherits new parent mode.
    assert_eq!(
        cfg.effective_mode(&cfg.page_up_down),
        KeyboardMode::Win32Scrollbar
    );
    // arrow_keys still has its own override.
    assert_eq!(cfg.effective_mode(&cfg.arrow_keys), KeyboardMode::Off);

    // Explicitly set arrow_keys to always.
    cfg.arrow_keys.mode = Some(KeyboardMode::Always);
    assert_eq!(cfg.effective_mode(&cfg.arrow_keys), KeyboardMode::Always);
}

#[test]
fn general_defaults() {
    let g = GeneralConfig::default();
    assert!(g.enabled);
    assert!(!g.autostart);
}

#[test]
fn group_mode_overrides_parent_for_every_mode() {
    let modes = [KeyboardMode::Off, KeyboardMode::Always, KeyboardMode::Win32Scrollbar];
    for &parent in &modes {
        let mut cfg = KeyboardConfig::default();
        cfg.mode = parent;
        assert_eq!(cfg.effective_mode(&KeyGroupConfig { mode: None }), parent);
        for &own in &modes {
            assert_eq!(cfg.effective_mode(&KeyGroupConfig { mode: Some(own) }), own);
        }
    }
}

#[test]
fn keyboard_hook_paused_when_globally_disabled() {
    let cfg = KeyboardConfig::default();
    let paused = sync_keyboard_hook(false, &cfg);
    assert!(!paused.enabled);
    assert_eq!(paused.mode, cfg.mode);
    assert_eq!(paused.arrow_keys, cfg.arrow_keys);
    let live = sync_keyboard_hook(true, &cfg);
    assert_eq!(live, cfg);
}
