use butter_scroll::app::{
    menu_command, AppCommand, Switches, MENU_EXIT, MENU_RELOAD_CONFIG, MENU_TOGGLE_AUTOSTART,
    MENU_TOGGLE_ENABLED,
};
use butter_scroll::config::{GeneralConfig, KeyboardConfig};
use butter_scroll::autostart::{quoted_command, AutoStartService, WindowsAutoStart};
use butter_scroll::config::sanitize_timing;
use butter_scroll::easing::EasingType;
use butter_scroll::text::eq_ignore_ascii_case;
use butter_scroll::traits::{MockTime, SystemClock, TimeSource};
use butter_scroll::util::{to_wide, to_wide_fixed};

#[test]
fn to_wide_is_null_terminated_utf16() {
    assert_eq!(to_wide("Ab"), vec![0x41, 0x62, 0]);
    assert_eq!(to_wide(""), vec![0]);
    assert_eq!(to_wide("啟"), vec![0x555F, 0]);
    // Outside the basic plane: a surrogate pair.
    assert_eq!(to_wide("😀"), vec![0xD83D, 0xDE00, 0]);
    let expected: Vec<u16> = "離開 😀".encode_utf16().chain(std::iter::once(0)).collect();
    assert_eq!(to_wide("離開 😀"), expected);
}

#[test]
fn to_wide_fixed_truncates_and_terminates() {
    let buf = to_wide_fixed::<4>("Smooth");
    assert_eq!(buf, [0x53, 0x6D, 0x6F, 0]);
    let buf = to_wide_fixed::<8>("ab");
    assert_eq!(buf, [0x61, 0x62, 0, 0, 0, 0, 0, 0]);
    let buf = to_wide_fixed::<0>("");
    assert_eq!(buf.len(), 0);
}

#[test]
fn autostart_command_is_quoted() {
    assert_eq!(
        quoted_command(r#"C:\Program Files\"App"\app.exe"#),
        r#""C:\Program Files\App\app.exe""#
    );
    assert_eq!(quoted_command(""), "\"\"");
    let stub = WindowsAutoStart::new("SmoothScroll".to_string()).unwrap();
    assert!(!stub.is_enabled());
    assert!(stub.set_enabled(true).is_ok());
}

#[test]
fn timing_is_clamped_to_documented_ranges() {
    assert_eq!(sanitize_timing(0, 0, 0), (30, 1, 1));
    assert_eq!(sanitize_timing(150, 400, 50), (150, 400, 50));
    assert_eq!(sanitize_timing(5000, 9000, 900), (1000, 5000, 500));
}

#[test]
fn easing_types() {
    assert!(EasingType::Pulse.is_pulse());
    assert!(!EasingType::OutBack.is_pulse());
    assert_eq!(EasingType::default(), EasingType::Pulse);
    let all = EasingType::all();
    assert_eq!(all.len(), 7);
    assert_eq!(all[0], EasingType::Pulse);
    assert_eq!(all[6], EasingType::Linear);
}

#[test]
fn ascii_case_comparison() {
    assert!(eq_ignore_ascii_case("C:\\Windows\\NOTEPAD.EXE", "c:\\windows\\notepad.exe"));
    assert!(!eq_ignore_ascii_case("a", "ab"));
    // Non-ASCII letters must match exactly.
    assert!(!eq_ignore_ascii_case("É", "é"));
    assert!(eq_ignore_ascii_case("記事本", "記事本"));
}

#[test]
fn mock_time_is_controllable() {
    let t = MockTime::new();
    assert_eq!(t.now_ms(), 0);
    t.set(40);
    t.advance(2);
    assert_eq!(t.now_ms(), 42);
    let clock = SystemClock::new();
    let a = clock.now_ms();
    let b = clock.now_ms();
    assert!(b >= a);
    let cmd = AppCommand::ReloadConfig;
    assert_eq!(cmd, AppCommand::ReloadConfig);
}

#[test]
fn switches_toggle_and_report() {
    let mut sw = Switches { general: GeneralConfig::default(), keyboard: KeyboardConfig::default() };
    let (enabled, hook) = sw.toggle_enabled();
    assert!(!enabled);
    assert!(!hook.enabled, "keyboard hook paused while disabled");
    assert!(sw.keyboard.enabled, "keyboard setting itself unchanged");
    let hook = sw.toggle_keyboard();
    assert!(!sw.keyboard.enabled);
    assert!(!hook.enabled);
    let (enabled, hook) = sw.toggle_enabled();
    assert!(enabled);
    assert!(!hook.enabled, "keyboard scrolling is off by its own switch");
    sw.toggle_keyboard();
    sw.record_autostart(true);
    let status = sw.status();
    assert!(status.enabled && status.keyboard_enabled && status.autostart_enabled);
}

#[test]
fn tray_menu_ids_map_to_commands() {
    assert_eq!(menu_command(MENU_TOGGLE_ENABLED), Some(AppCommand::ToggleEnabled));
    assert_eq!(menu_command(MENU_RELOAD_CONFIG), Some(AppCommand::ReloadConfig));
    assert_eq!(menu_command(MENU_TOGGLE_AUTOSTART), Some(AppCommand::ToggleAutostart));
    assert_eq!(menu_command(MENU_EXIT), Some(AppCommand::Exit));
    // Only the low word is the item id.
    assert_eq!(menu_command(0x1_0000 + MENU_EXIT), Some(AppCommand::Exit));
    assert_eq!(menu_command(42), None);
}
