use vstd::prelude::*;

use std::collections::HashSet;

use crate::config::{resolved_mode, KeyboardConfig, KeyboardMode};

verus! {

broadcast use vstd::std_specs::hash::group_hash_axioms;

/// One wheel notch, in raw wheel units.
pub const WHEEL_DELTA: i16 = 120;
/// Notches scrolled by Page Up/Down and Space.
pub const NOTCHES_PAGE: i16 = 5;
/// Notches scrolled by an arrow key.
pub const NOTCHES_LINE: i16 = 1;

/// `VK_SPACE`.
pub const VK_SPACE_CODE: u32 = 0x20;
/// `VK_PRIOR` (Page Up).
pub const VK_PRIOR_CODE: u32 = 0x21;
/// `VK_NEXT` (Page Down).
pub const VK_NEXT_CODE: u32 = 0x22;
/// `VK_UP`.
pub const VK_UP_CODE: u32 = 0x26;
/// `VK_DOWN`.
pub const VK_DOWN_CODE: u32 = 0x28;

/// The key groups that can be configured separately.
#[derive(Debug, Clone, Copy, PartialEq, Eq, Structural)]
pub enum KeyGroup {
    PageUpDown,
    ArrowKeys,
    Space,
}

/// The scroll a key stands for.
#[derive(Debug, Clone, Copy, PartialEq, Eq, Structural)]
pub enum KeyScroll {
    /// A wheel delta, scaled by the configured step size like a wheel event
    /// (arrow keys).
    Wheel { delta: i16 },
    /// A distance already in output wheel units, sent pre-scaled so that it
    /// does not depend on the wheel step size (Page Up/Down and Space).
    Raw { delta_y: i16 },
}

/// What a scroll key does: the scroll it stands for, and its group.
#[derive(Debug, Clone, Copy, PartialEq, Eq, Structural)]
pub struct KeyAction {
    pub scroll: KeyScroll,
    pub group: KeyGroup,
}

/// The scroll action of a virtual key (only its low 16 bits count):
/// Page Up/Down scroll five notches, pre-scaled; arrows one wheel notch;
/// Space five notches down (up with Shift), pre-scaled; any other key has
/// none.
pub open spec fn key_action(vk: u32, shift_held: bool) -> Option<KeyAction> {
    let code = vk % 0x10000;
    if code == VK_PRIOR_CODE {
        Some(KeyAction { scroll: KeyScroll::Raw { delta_y: 600 }, group: KeyGroup::PageUpDown })
    } else if code == VK_NEXT_CODE {
        Some(
            KeyAction { scroll: KeyScroll::Raw { delta_y: -600i16 }, group: KeyGroup::PageUpDown },
        )
    } else if code == VK_UP_CODE {
        Some(KeyAction { scroll: KeyScroll::Wheel { delta: 120 }, group: KeyGroup::ArrowKeys })
    } else if code == VK_DOWN_CODE {
        Some(
            KeyAction { scroll: KeyScroll::Wheel { delta: -120i16 }, group: KeyGroup::ArrowKeys },
        )
    } else if code == VK_SPACE_CODE {
        Some(
            KeyAction {
                scroll: KeyScroll::Raw {
                    delta_y: if shift_held {
                        600i16
                    } else {
                        -600i16
                    },
                },
                group: KeyGroup::Space,
            },
        )
    } else {
        None
    }
}

/// Classifies a virtual key code into a scroll action.
pub fn classify_key(vk: u32, shift_held: bool) -> (r: Option<KeyAction>)
    ensures
        r == key_action(vk, shift_held),
{
    let code = vk % 0x10000;
    if code == VK_PRIOR_CODE {
        let delta_y = NOTCHES_PAGE * WHEEL_DELTA;
        Some(KeyAction { scroll: KeyScroll::Raw { delta_y }, group: KeyGroup::PageUpDown })
    } else if code == VK_NEXT_CODE {
        let delta_y = -(NOTCHES_PAGE * WHEEL_DELTA);
        Some(KeyAction { scroll: KeyScroll::Raw { delta_y }, group: KeyGroup::PageUpDown })
    } else if code == VK_UP_CODE {
        let delta = NOTCHES_LINE * WHEEL_DELTA;
        Some(KeyAction { scroll: KeyScroll::Wheel { delta }, group: KeyGroup::ArrowKeys })
    } else if code == VK_DOWN_CODE {
        let delta = -(NOTCHES_LINE * WHEEL_DELTA);
        Some(KeyAction { scroll: KeyScroll::Wheel { delta }, group: KeyGroup::ArrowKeys })
    } else if code == VK_SPACE_CODE {
        let delta_y = if shift_held {
            NOTCHES_PAGE * WHEEL_DELTA
        } else {
            -(NOTCHES_PAGE * WHEEL_DELTA)
        };
        Some(KeyAction { scroll: KeyScroll::Raw { delta_y }, group: KeyGroup::Space })
    } else {
        None
    }
}

/// The scroll keys, stated on the virtual-key code (its low 16 bits): only
/// Space (0x20), Page Up (0x21), Page Down (0x22), Up (0x26) and Down
/// (0x28) scroll, each by its documented amount (`scroll_fits_key`), in
/// the groups Space, Page Up/Down and arrows respectively.
pub proof fn lemma_key_action_rules(vk: u32, shift_held: bool)
    ensures
        ({
            let code = vk % 0x10000;
            let a = key_action(vk, shift_held);
            &&& (a is Some) == (code == 0x20 || code == 0x21 || code == 0x22 || code == 0x26 || code
                == 0x28)
            &&& a matches Some(act) ==> {
                &&& scroll_fits_key(code, shift_held, act.scroll)
                &&& (act.group == KeyGroup::Space) == (code == 0x20)
                &&& (act.group == KeyGroup::PageUpDown) == (code == 0x21 || code == 0x22)
                &&& (act.group == KeyGroup::ArrowKeys) == (code == 0x26 || code == 0x28)
            }
        }),
{
}

/// What to do with a physical key press.
#[derive(Debug, Clone, Copy, PartialEq, Eq, Structural)]
pub enum KeyDownDecision {
    /// Let the key reach the application unchanged.
    PassThrough,
    /// Swallow the key and perform `scroll` instead.
    Intercept { scroll: KeyScroll },
    /// Like `Intercept`, but only when the focused window (or an ancestor)
    /// has a standard Win32 vertical scrollbar; otherwise pass through.
    InterceptIfScrollbar { scroll: KeyScroll },
}

/// The mode configured for a key group.
pub open spec fn group_mode(config: KeyboardConfig, group: KeyGroup) -> KeyboardMode {
    match group {
        KeyGroup::PageUpDown => resolved_mode(config.mode, config.page_up_down),
        KeyGroup::ArrowKeys => resolved_mode(config.mode, config.arrow_keys),
        KeyGroup::Space => resolved_mode(config.mode, config.space),
    }
}

/// How a physical key press is handled: nothing is intercepted while
/// keyboard scrolling is off or Ctrl, Alt or Win is held; only scroll keys
/// are considered; with Shift held only Space is (Shift+Space scrolls up);
/// then the group's mode decides.
pub open spec fn key_down_spec(
    config: KeyboardConfig,
    ctrl_alt_win_held: bool,
    shift_held: bool,
    vk: u32,
) -> KeyDownDecision {
    if !config.enabled || ctrl_alt_win_held {
        KeyDownDecision::PassThrough
    } else {
        match key_action(vk, shift_held) {
            None => KeyDownDecision::PassThrough,
            Some(action) => if shift_held && action.group != KeyGroup::Space {
                KeyDownDecision::PassThrough
            } else {
                match group_mode(config, action.group) {
                    KeyboardMode::Off => KeyDownDecision::PassThrough,
                    KeyboardMode::Always => KeyDownDecision::Intercept { scroll: action.scroll },
                    KeyboardMode::Win32Scrollbar => KeyDownDecision::InterceptIfScrollbar {
                        scroll: action.scroll,
                    },
                }
            },
        }
    }
}

/// Whether `scroll` is the documented amount for the key `code`: Page Up
/// 600 and Page Down -600 pre-scaled, Up 120 and Down -120 as a wheel
/// notch, Space -600 pre-scaled (600 with Shift).
pub open spec fn scroll_fits_key(code: u32, shift_held: bool, scroll: KeyScroll) -> bool {
    &&& code == 0x21 ==> scroll == KeyScroll::Raw { delta_y: 600 }
    &&& code == 0x22 ==> scroll == KeyScroll::Raw { delta_y: -600i16 }
    &&& code == 0x26 ==> scroll == KeyScroll::Wheel { delta: 120 }
    &&& code == 0x28 ==> scroll == KeyScroll::Wheel { delta: -120i16 }
    &&& code == 0x20 ==> scroll == KeyScroll::Raw { delta_y: if shift_held { 600i16 } else { -600i16 } }
}

/// The key-press rules, stated on the virtual-key code (its low 16 bits):
/// everything passes through while keyboard scrolling is off or Ctrl, Alt
/// or Win is held; with Shift held every key but Space (0x20) passes
/// through, so Shift+Page and Shift+Arrow keep selecting text; keys other
/// than Space, Page Up (0x21), Page Down (0x22), Up (0x26) and Down (0x28)
/// always pass through; and a swallowed key scrolls by its own amount:
/// Page Up 600 and Page Down -600 pre-scaled, Up 120 and Down -120 as a
/// wheel, Space -600 pre-scaled (600 with Shift).
pub proof fn lemma_key_down_rules(
    config: KeyboardConfig,
    ctrl_alt_win_held: bool,
    shift_held: bool,
    vk: u32,
)
    ensures
        ({
            let r = key_down_spec(config, ctrl_alt_win_held, shift_held, vk);
            let code = vk % 0x10000;
            &&& (!config.enabled || ctrl_alt_win_held) ==> r == KeyDownDecision::PassThrough
            &&& shift_held && code != 0x20 ==> r == KeyDownDecision::PassThrough
            &&& (code != 0x20 && code != 0x21 && code != 0x22 && code != 0x26 && code != 0x28)
                ==> r == KeyDownDecision::PassThrough
            &&& r matches KeyDownDecision::Intercept { scroll } ==> scroll_fits_key(
                code,
                shift_held,
                scroll,
            )
            &&& r matches KeyDownDecision::InterceptIfScrollbar { scroll } ==> scroll_fits_key(
                code,
                shift_held,
                scroll,
            )
        }),
{
}

/// Decides what to do with a physical (not injected) key press.
pub fn decide_key_down(
    config: &KeyboardConfig,
    ctrl_alt_win_held: bool,
    shift_held: bool,
    vk: u32,
) -> (r: KeyDownDecision)
    ensures
        r == key_down_spec(*config, ctrl_alt_win_held, shift_held, vk),
{
    if !config.enabled || ctrl_alt_win_held {
        return KeyDownDecision::PassThrough;
    }
    match classify_key(vk, shift_held) {
        None => KeyDownDecision::PassThrough,
        Some(action) => {
            let mode = match action.group {
                KeyGroup::PageUpDown => config.effective_mode(&config.page_up_down),
                KeyGroup::ArrowKeys => config.effective_mode(&config.arrow_keys),
                KeyGroup::Space => config.effective_mode(&config.space),
            };
            if shift_held && action.group != KeyGroup::Space {
                return KeyDownDecision::PassThrough;
            }
            match mode {
                KeyboardMode::Off => KeyDownDecision::PassThrough,
                KeyboardMode::Always => KeyDownDecision::Intercept { scroll: action.scroll },
                KeyboardMode::Win32Scrollbar => KeyDownDecision::InterceptIfScrollbar {
                    scroll: action.scroll,
                },
            }
        },
    }
}

/// The keys whose press was swallowed and whose release has not been seen
/// yet: their release must be swallowed too, so that no application sees
/// an unpaired key-up.
pub struct KeyInterceptor {
    intercepted: HashSet<u32>,
}

impl View for KeyInterceptor {
    type V = Set<u32>;

    closed spec fn view(&self) -> Set<u32> {
        self.intercepted@
    }
}

impl KeyInterceptor {
    /// No key is held swallowed.
    pub fn new() -> (r: Self)
        ensures
            r@ == Set::<u32>::empty(),
    {
        KeyInterceptor { intercepted: HashSet::new() }
    }

    /// Whether the press of `vk` was swallowed and not yet released.
    pub fn is_held(&self, vk: u32) -> (r: bool)
        ensures
            r == self@.contains(vk),
    {
        self.intercepted.contains(&vk)
    }

    /// Records that the press of `vk` was swallowed.
    pub fn record_swallowed(&mut self, vk: u32)
        ensures
            final(self)@ == old(self)@.insert(vk),
    {
        self.intercepted.insert(vk);
    }

    /// Handles the release of `vk`: returns `true` (swallow it) exactly when
    /// its press was swallowed, and forgets the key either way.
    pub fn key_up(&mut self, vk: u32) -> (r: bool)
        ensures
            (r, final(self)@) == key_up_spec(old(self)@, vk),
    {
        self.intercepted.remove(&vk)
    }
}

/// What a release of `vk` does to the keys held swallowed `held`: whether
/// the release is swallowed (its press was), and the keys held afterwards.
pub open spec fn key_up_spec(held: Set<u32>, vk: u32) -> (bool, Set<u32>) {
    (held.contains(vk), held.remove(vk))
}

/// Pairing law: after `record_swallowed(vk)`, `key_up(vk)` swallows the
/// release and forgets the key, so a second release passes; a release whose
/// press was not swallowed passes and changes nothing.
pub proof fn lemma_key_up_pairs_with_key_down(held: Set<u32>, vk: u32)
    ensures
        key_up_spec(held.insert(vk), vk).0,
        key_up_spec(held.insert(vk), vk).1 == held.remove(vk),
        !key_up_spec(key_up_spec(held.insert(vk), vk).1, vk).0,
        !held.contains(vk) ==> key_up_spec(held, vk) == (false, held),
{
    if !held.contains(vk) {
        assert(held.remove(vk) =~= held);
    }
    assert(held.insert(vk).remove(vk) =~= held.remove(vk));
}

/// The keyboard configuration to hand to the hook: while smooth scrolling
/// is globally disabled, keyboard interception is paused too (keys keep
/// their native behaviour); otherwise the configuration is used as is.
pub fn sync_keyboard_hook(general_enabled: bool, keyboard: &KeyboardConfig) -> (r: KeyboardConfig)
    ensures
        general_enabled ==> r == *keyboard,
        !general_enabled ==> r == (KeyboardConfig { enabled: false, ..*keyboard }),
{
    if general_enabled {
        *keyboard
    } else {
        KeyboardConfig { enabled: false, ..*keyboard }
    }
}

} // verus!
