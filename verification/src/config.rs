use vstd::prelude::*;

verus! {

/// General application settings.
#[derive(Debug, Clone, Copy, PartialEq, Eq, Structural)]
pub struct GeneralConfig {
    /// Start with Windows.
    pub autostart: bool,
    /// Enable smooth scrolling globally.
    pub enabled: bool,
}

impl GeneralConfig {
    /// The documented defaults: no autostart, smoothing enabled.
    pub open spec fn spec_default() -> GeneralConfig {
        GeneralConfig { autostart: false, enabled: true }
    }
}

impl Default for GeneralConfig {
    fn default() -> (r: Self)
        ensures
            r == GeneralConfig::spec_default(),
    {
        GeneralConfig { autostart: false, enabled: true }
    }
}

/// Per-key-group activation mode.
#[derive(Debug, Clone, Copy, PartialEq, Eq, Structural)]
pub enum KeyboardMode {
    /// Never intercept this key group.
    Off,
    /// Always intercept and convert to smooth scroll.
    Always,
    /// Only intercept when the focused window has a standard Win32 scrollbar.
    Win32Scrollbar,
}

/// Configuration for a single key group; `mode == None` inherits the
/// parent keyboard mode.
#[derive(Debug, Clone, Copy, PartialEq, Eq, Structural)]
pub struct KeyGroupConfig {
    pub mode: Option<KeyboardMode>,
}

/// Keyboard smooth scrolling configuration.
#[derive(Debug, Clone, Copy, PartialEq, Eq, Structural)]
pub struct KeyboardConfig {
    /// Master switch for keyboard smooth scrolling.
    pub enabled: bool,
    /// Default mode for key groups that do not specify their own.
    pub mode: KeyboardMode,
    /// Page Up / Page Down.
    pub page_up_down: KeyGroupConfig,
    /// Arrow Up / Arrow Down.
    pub arrow_keys: KeyGroupConfig,
    /// Space / Shift+Space.
    pub space: KeyGroupConfig,
}

/// The mode a key group resolves to: its own when set, else the parent's.
pub open spec fn resolved_mode(parent: KeyboardMode, group: KeyGroupConfig) -> KeyboardMode {
    match group.mode {
        Some(m) => m,
        None => parent,
    }
}

impl KeyboardConfig {
    /// The documented defaults: enabled, `always`, Page Up/Down inheriting,
    /// arrows and space switched off.
    pub open spec fn spec_default() -> KeyboardConfig {
        KeyboardConfig {
            enabled: true,
            mode: KeyboardMode::Always,
            page_up_down: KeyGroupConfig { mode: None },
            arrow_keys: KeyGroupConfig { mode: Some(KeyboardMode::Off) },
            space: KeyGroupConfig { mode: Some(KeyboardMode::Off) },
        }
    }

    /// Resolve the effective mode for a key group, falling back to the
    /// parent default when the group does not specify its own.
    pub fn effective_mode(&self, group: &KeyGroupConfig) -> (r: KeyboardMode)
        ensures
            r == resolved_mode(self.mode, *group),
            group.mode is None ==> r == self.mode,
            group.mode matches Some(m) ==> r == m,
    {
        match group.mode {
            Some(m) => m,
            None => self.mode,
        }
    }
}

impl Default for KeyboardConfig {
    fn default() -> (r: Self)
        ensures
            r == KeyboardConfig::spec_default(),
    {
        KeyboardConfig {
            enabled: true,
            mode: KeyboardMode::Always,
            page_up_down: KeyGroupConfig { mode: None },
            arrow_keys: KeyGroupConfig { mode: Some(KeyboardMode::Off) },
            space: KeyGroupConfig { mode: Some(KeyboardMode::Off) },
        }
    }
}

/// Global hotkey that opens the app-filter confirmation for the
/// foreground application.
#[derive(Debug, Clone)]
pub struct HotkeyConfig {
    /// Whether the hotkey is registered at all.
    pub enabled: bool,
    /// Key combination, such as `"ctrl+shift+b"`.
    pub combo: String,
}

/// `v` limited to `lo..=hi`.
pub open spec fn clamped(v: u32, lo: u32, hi: u32) -> u32 {
    if v < lo {
        lo
    } else if v > hi {
        hi
    } else {
        v
    }
}

/// Limiting keeps a value already in range, and moves one outside it to the
/// nearer bound.
pub proof fn lemma_clamped_rules(v: u32, lo: u32, hi: u32)
    requires
        lo <= hi,
    ensures
        lo <= clamped(v, lo, hi) <= hi,
        lo <= v <= hi ==> clamped(v, lo, hi) == v,
        v < lo ==> clamped(v, lo, hi) == lo,
        v > hi ==> clamped(v, lo, hi) == hi,
{
}

/// The integer timing settings limited to their documented ranges: frame
/// rate 30–1000 Hz, animation time 1–5000 ms, acceleration window 1–500 ms.
pub fn sanitize_timing(frame_rate: u32, animation_time: u32, delta_ms: u32) -> (r: (u32, u32, u32))
    ensures
        r == (clamped(frame_rate, 30, 1000), clamped(animation_time, 1, 5000), clamped(
            delta_ms,
            1,
            500,
        )),
        30 <= r.0 <= 1000,
        1 <= r.1 <= 5000,
        1 <= r.2 <= 500,
{
    let f = if frame_rate < 30 {
        30
    } else if frame_rate > 1000 {
        1000
    } else {
        frame_rate
    };
    let a = if animation_time < 1 {
        1
    } else if animation_time > 5000 {
        5000
    } else {
        animation_time
    };
    let d = if delta_ms < 1 {
        1
    } else if delta_ms > 500 {
        500
    } else {
        delta_ms
    };
    (f, a, d)
}

} // verus!
