use vstd::prelude::*;

use crate::app_filter::AppStatus;
use crate::config::{GeneralConfig, KeyboardConfig};
use crate::keyboard_hook::sync_keyboard_hook;

verus! {

/// Commands sent from the tray menu to the main loop.
#[derive(Debug, Clone, Copy, PartialEq, Eq, Structural)]
pub enum AppCommand {
    ToggleEnabled,
    ToggleKeyboard,
    ReloadConfig,
    ToggleAutostart,
    Exit,
}

/// Tray menu item: enable / disable smoothing.
pub const MENU_TOGGLE_ENABLED: usize = 1001;
/// Tray menu item: reload the configuration.
pub const MENU_RELOAD_CONFIG: usize = 1002;
/// Tray menu item: toggle start with Windows.
pub const MENU_TOGGLE_AUTOSTART: usize = 1003;
/// Tray menu item: exit.
pub const MENU_EXIT: usize = 1004;

/// The command of a tray menu click, from the `WM_COMMAND` parameter (the
/// item id is its low word); a click on anything else gives none.
pub open spec fn menu_command_spec(wparam: usize) -> Option<AppCommand> {
    let id = wparam % 0x10000;
    if id == MENU_TOGGLE_ENABLED {
        Some(AppCommand::ToggleEnabled)
    } else if id == MENU_RELOAD_CONFIG {
        Some(AppCommand::ReloadConfig)
    } else if id == MENU_TOGGLE_AUTOSTART {
        Some(AppCommand::ToggleAutostart)
    } else if id == MENU_EXIT {
        Some(AppCommand::Exit)
    } else {
        None
    }
}

/// The command of a tray menu click (see `menu_command_spec`).
pub fn menu_command(wparam: usize) -> (r: Option<AppCommand>)
    ensures
        r == menu_command_spec(wparam),
{
    let id = wparam % 0x10000;
    if id == MENU_TOGGLE_ENABLED {
        Some(AppCommand::ToggleEnabled)
    } else if id == MENU_RELOAD_CONFIG {
        Some(AppCommand::ReloadConfig)
    } else if id == MENU_TOGGLE_AUTOSTART {
        Some(AppCommand::ToggleAutostart)
    } else if id == MENU_EXIT {
        Some(AppCommand::Exit)
    } else {
        None
    }
}

/// The switches of the configuration that the tray and the settings window
/// flip: global smoothing, autostart and keyboard scrolling.
#[derive(Debug, Clone, Copy, PartialEq, Eq, Structural)]
pub struct Switches {
    pub general: GeneralConfig,
    pub keyboard: KeyboardConfig,
}

/// The switches after flipping global smoothing.
pub open spec fn enabled_toggled(s: Switches) -> Switches {
    Switches { general: GeneralConfig { enabled: !s.general.enabled, ..s.general }, ..s }
}

/// The switches after flipping keyboard scrolling.
pub open spec fn keyboard_toggled(s: Switches) -> Switches {
    Switches { keyboard: KeyboardConfig { enabled: !s.keyboard.enabled, ..s.keyboard }, ..s }
}

impl Switches {
    /// Flips global smoothing. Returns the new state (for the engine) and
    /// the keyboard configuration to hand to the keyboard hook, which is
    /// paused while smoothing is off.
    pub fn toggle_enabled(&mut self) -> (r: (bool, KeyboardConfig))
        ensures
            *final(self) == enabled_toggled(*old(self)),
            r.0 == final(self).general.enabled,
            r.1 == (if r.0 {
                old(self).keyboard
            } else {
                KeyboardConfig { enabled: false, ..old(self).keyboard }
            }),
    {
        self.general.enabled = !self.general.enabled;
        let hook = sync_keyboard_hook(self.general.enabled, &self.keyboard);
        (self.general.enabled, hook)
    }

    /// Flips keyboard scrolling. Returns the keyboard configuration to hand
    /// to the hook (still paused while global smoothing is off).
    pub fn toggle_keyboard(&mut self) -> (r: KeyboardConfig)
        ensures
            *final(self) == keyboard_toggled(*old(self)),
            r == (if final(self).general.enabled {
                final(self).keyboard
            } else {
                KeyboardConfig { enabled: false, ..final(self).keyboard }
            }),
    {
        self.keyboard.enabled = !self.keyboard.enabled;
        sync_keyboard_hook(self.general.enabled, &self.keyboard)
    }

    /// Records the start-on-login state once the system accepted it.
    pub fn record_autostart(&mut self, enabled: bool)
        ensures
            final(self).general.autostart == enabled,
            final(self).general.enabled == old(self).general.enabled,
            final(self).keyboard == old(self).keyboard,
    {
        self.general.autostart = enabled;
    }

    /// The status shown by the settings window.
    pub fn status(&self) -> (r: AppStatus)
        ensures
            r == (AppStatus {
                enabled: self.general.enabled,
                keyboard_enabled: self.keyboard.enabled,
                autostart_enabled: self.general.autostart,
            }),
    {
        AppStatus {
            enabled: self.general.enabled,
            keyboard_enabled: self.keyboard.enabled,
            autostart_enabled: self.general.autostart,
        }
    }
}

/// Toggling a switch twice leaves the switches as they were:
/// `toggle_enabled` twice, or `toggle_keyboard` twice.
pub proof fn lemma_toggle_twice_is_identity(s: Switches)
    ensures
        enabled_toggled(enabled_toggled(s)) == s,
        keyboard_toggled(keyboard_toggled(s)) == s,
{
}

} // verus!
