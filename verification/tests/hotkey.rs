use std::sync::{
    atomic::{AtomicBool, AtomicUsize, Ordering},
    Arc,
};

use butter_scroll::config::HotkeyConfig;
use butter_scroll::hotkey::{
    finish_guarded_invoke, parse_combo, sync_hotkey_action, try_invoke_with_guard, HotkeySyncAction, MOD_ALT_VALUE,
    MOD_CONTROL_VALUE, MOD_NOREPEAT_VALUE, MOD_SHIFT_VALUE, VK_B_VALUE, VK_H_VALUE,
};

#[test]
fn parse_combo_ctrl_shift_b() {
    let parsed = parse_combo("ctrl+shift+b").unwrap();
    assert_eq!(parsed.vk, VK_B_VALUE);
    assert_eq!(
        parsed.modifiers,
        MOD_CONTROL_VALUE | MOD_SHIFT_VALUE | MOD_NOREPEAT_VALUE
    );
}

#[test]
fn parse_combo_ctrl_alt_b() {
    let parsed = parse_combo("ctrl+alt+b").unwrap();
    assert_eq!(parsed.vk, VK_B_VALUE);
    assert_eq!(
        parsed.modifiers,
        MOD_CONTROL_VALUE | MOD_ALT_VALUE | MOD_NOREPEAT_VALUE
    );
}

#[test]
fn parse_combo_invalid_returns_error() {
    assert!(parse_combo("invalid").is_err());
}

#[test]
fn parse_combo_normalizes_case_and_spaces() {
    let parsed = parse_combo("  Ctrl + ALT +  h ").unwrap();
    assert_eq!(parsed.vk, VK_H_VALUE);
    assert_eq!(parsed.modifiers, MOD_CONTROL_VALUE | MOD_ALT_VALUE | MOD_NOREPEAT_VALUE);
    // Empty pieces between separators are skipped.
    let parsed = parse_combo("shift++b").unwrap();
    assert_eq!(parsed.modifiers, MOD_SHIFT_VALUE | MOD_NOREPEAT_VALUE);
}

#[test]
fn parse_combo_error_messages() {
    assert_eq!(parse_combo("   ").unwrap_err(), "Hotkey combo cannot be empty");
    assert_eq!(
        parse_combo("ctrl+b+h").unwrap_err(),
        "Invalid hotkey combo 'ctrl+b+h': multiple keys"
    );
    assert_eq!(
        parse_combo("Ctrl+Q").unwrap_err(),
        "Unsupported hotkey token 'q' in 'Ctrl+Q'"
    );
    assert_eq!(
        parse_combo("ctrl+shift").unwrap_err(),
        "Invalid hotkey combo 'ctrl+shift': missing key"
    );
    assert_eq!(
        parse_combo("b").unwrap_err(),
        "Invalid hotkey combo 'b': at least one modifier is required"
    );
    // The first error met wins.
    assert_eq!(
        parse_combo("x+b+h").unwrap_err(),
        "Unsupported hotkey token 'x' in 'x+b+h'"
    );
}

#[test]
fn atomic_guard_prevents_reentrant_trigger() {
    let guard = AtomicBool::new(false);
    let callback_count = Arc::new(AtomicUsize::new(0));
    let callback_count_inner = Arc::clone(&callback_count);

    let invoked = try_invoke_with_guard(&guard, || {
        callback_count_inner.fetch_add(1, Ordering::SeqCst);
        let reentrant = try_invoke_with_guard(&guard, || {
            callback_count_inner.fetch_add(1, Ordering::SeqCst);
        });
        assert!(!reentrant, "re-entrant trigger must be skipped");
    });

    assert!(invoked);
    assert_eq!(callback_count.load(Ordering::SeqCst), 1);
    // The guard is released afterwards.
    assert!(try_invoke_with_guard(&guard, || {}));
}

#[test]
fn finish_guarded_invoke_runs_only_when_acquired() {
    let guard = AtomicBool::new(true);
    let count = AtomicUsize::new(0);

    let skipped = finish_guarded_invoke(&guard, Err(true), || {
        count.fetch_add(1, Ordering::SeqCst);
    });
    assert!(!skipped);
    assert_eq!(count.load(Ordering::SeqCst), 0);
    // A refused attempt leaves the guard held.
    assert!(guard.load(Ordering::SeqCst));

    let ran = finish_guarded_invoke(&guard, Ok(false), || {
        count.fetch_add(1, Ordering::SeqCst);
    });
    assert!(ran);
    assert_eq!(count.load(Ordering::SeqCst), 1);
    // A completed run releases the guard.
    assert!(!guard.load(Ordering::SeqCst));
}

fn hk(enabled: bool, combo: &str) -> HotkeyConfig {
    HotkeyConfig { enabled, combo: combo.to_string() }
}

#[test]
fn hotkey_sync_actions() {
    let on = hk(true, "ctrl+shift+b");
    let other = hk(true, "ctrl+alt+h");
    let off = hk(false, "ctrl+shift+b");
    assert_eq!(sync_hotkey_action(&on, &off, true), HotkeySyncAction::Clear);
    assert_eq!(sync_hotkey_action(&off, &on, false), HotkeySyncAction::Build);
    assert_eq!(sync_hotkey_action(&on, &other, true), HotkeySyncAction::UpdateCombo);
    assert_eq!(sync_hotkey_action(&on, &on, true), HotkeySyncAction::Keep);
    assert_eq!(sync_hotkey_action(&on, &on, false), HotkeySyncAction::Build);
}

#[test]
fn parse_combo_ignores_case_spaces_empty_pieces_and_order() {
    let base = parse_combo("ctrl+shift+b").unwrap();
    assert_eq!(parse_combo(" Shift + CTRL + b ").unwrap(), base);
    assert_eq!(parse_combo("b++shift+ +Ctrl+").unwrap(), base);
    assert_eq!(parse_combo("SHIFT+B+CTRL").unwrap(), base);
    // Refusals stay refusals under the same changes.
    assert!(parse_combo("ctrl+b+h").is_err());
    assert!(parse_combo(" H + ctrl + B ").is_err());
}
