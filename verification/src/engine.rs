use vstd::prelude::*;

use std::collections::HashMap;

use crate::threshold::{AppKey, AppThresholdCache, ThresholdMode, mode_threshold};

verus! {

broadcast use vstd::std_specs::hash::group_hash_axioms;

/// Where a scroll event falls relative to the previous one, for the
/// frequency-based acceleration.
#[derive(Debug, Clone, Copy, PartialEq, Eq, Structural)]
pub enum AccelWindow {
    /// First event since the last reset: it only sets the baseline time.
    Baseline,
    /// The previous event is at least `delta_ms` old: no boost.
    Outside,
    /// The previous event is `elapsed_ms` old, within `delta_ms`: boost.
    Inside { elapsed_ms: u64 },
}

/// The integer state of the scroll engine: scroll direction, acceleration
/// timestamp and the application under the cursor. The animation itself
/// (floating point) is kept by the caller.
pub struct EngineCore {
    /// Sign of the last horizontal and vertical scroll (-1, 0 or 1).
    pub direction: (i8, i8),
    /// Time (ms) of the last scroll that counted for acceleration; 0 when
    /// none has since the last reset.
    pub last_scroll_time: u64,
    /// Process that received the last wheel event (0 when unknown).
    pub current_target_pid: u32,
    /// Processes already resolved to an application.
    pub pid_to_key: HashMap<u32, AppKey>,
}

/// Whether a scroll with signs `(dx, dy)` reverses (or starts) motion on an
/// axis that is moving.
pub open spec fn direction_changes(direction: (i8, i8), dx: i8, dy: i8) -> bool {
    (dx != 0 && direction.0 != dx) || (dy != 0 && direction.1 != dy)
}

/// When a scroll counts as a change of direction, axis by axis: a scroll
/// that moves on an axis (`dx` or `dy` non-zero) in a direction other than
/// the recorded one for that axis is a change, whether the axis is the
/// horizontal or the vertical one; a scroll whose every moving axis keeps
/// its recorded direction is not.
pub proof fn lemma_direction_change_rules(direction: (i8, i8), dx: i8, dy: i8)
    ensures
        dx != 0 && direction.0 != dx ==> direction_changes(direction, dx, dy),
        dy != 0 && direction.1 != dy ==> direction_changes(direction, dx, dy),
        (dx == 0 || direction.0 == dx) && (dy == 0 || direction.1 == dy) ==> !direction_changes(
            direction,
            dx,
            dy,
        ),
{
}

/// The raw wheel event passed on unchanged while smoothing is disabled:
/// the delta on the axis it came from.
pub fn passthrough_wheel(delta: i16, horizontal: bool) -> (r: (i32, i32))
    ensures
        horizontal ==> r == (delta as i32, 0i32),
        !horizontal ==> r == (0i32, delta as i32),
{
    if horizontal {
        (delta as i32, 0)
    } else {
        (0, delta as i32)
    }
}

/// `HC_ACTION`: the hook code of an event the hook is to process.
pub const HC_ACTION_CODE: i32 = 0;
/// `WM_MOUSEWHEEL`: vertical wheel message.
pub const WM_MOUSEWHEEL_CODE: u32 = 0x020A;
/// `WM_MOUSEHWHEEL`: horizontal wheel message.
pub const WM_MOUSEHWHEEL_CODE: u32 = 0x020E;

/// A wheel event taken from the low-level mouse hook.
#[derive(Debug, Clone, Copy, PartialEq, Eq, Structural)]
pub struct WheelEvent {
    /// Signed wheel delta (120 per notch).
    pub delta: i16,
    /// Whether it came from the horizontal wheel.
    pub horizontal: bool,
}

/// The signed high word of the hook's `mouseData`: the wheel delta.
pub open spec fn wheel_delta_spec(mouse_data: u32) -> int {
    let hi = mouse_data / 0x10000;
    if hi >= 0x8000 {
        hi - 0x10000
    } else {
        hi as int
    }
}

/// Whether bit 0 of the hook's `flags` (`LLMHF_INJECTED`) is set: the event
/// was injected by software rather than coming from the hardware.
pub open spec fn injected_spec(flags: u32) -> bool {
    flags % 2 == 1
}

/// The delta read from the hook is the high word of `mouseData` taken as a
/// signed 16-bit number: it lies in the `i16` range and agrees with the
/// high word modulo 65536; an injected event (bit 0 of `flags` set) is never
/// taken.
pub proof fn lemma_wheel_decoding_rules(mouse_data: u32, flags: u32)
    ensures
        -0x8000 <= wheel_delta_spec(mouse_data) < 0x8000,
        wheel_delta_spec(mouse_data) + (if wheel_delta_spec(mouse_data) < 0 {
            0x10000int
        } else {
            0int
        }) == mouse_data / 0x10000,
        flags % 2 == 1 ==> injected_spec(flags),
        flags % 2 == 0 ==> !injected_spec(flags),
{
}

/// Decodes a low-level mouse hook event into the wheel event to smooth:
/// only wheel messages (vertical or horizontal) delivered with
/// `HC_ACTION` and not injected are taken; everything else passes on.
pub fn decode_wheel_event(code: i32, msg: u32, mouse_data: u32, flags: u32) -> (r: Option<
    WheelEvent,
>)
    ensures
        r is Some <==> (code == HC_ACTION_CODE && (msg == WM_MOUSEWHEEL_CODE || msg
            == WM_MOUSEHWHEEL_CODE) && !injected_spec(flags)),
        r matches Some(e) ==> e.delta == wheel_delta_spec(mouse_data) && e.horizontal == (msg
            == WM_MOUSEHWHEEL_CODE),
{
    if code != HC_ACTION_CODE || (msg != WM_MOUSEWHEEL_CODE && msg != WM_MOUSEHWHEEL_CODE) {
        return None;
    }
    if flags % 2 == 1 {
        return None;
    }
    let hi: u32 = mouse_data / 0x10000;
    let delta: i16 = if hi >= 0x8000 {
        let v: i32 = (hi as i32) - 0x10000;
        v as i16
    } else {
        hi as i16
    };
    Some(WheelEvent { delta, horizontal: msg == WM_MOUSEHWHEEL_CODE })
}

/// Whole microseconds one animation frame may take at `frame_rate` frames
/// per second (a rate of 0 counts as 1).
pub open spec fn frame_budget_spec(frame_rate: u32) -> int {
    1_000_000int / (if frame_rate == 0 { 1int } else { frame_rate as int })
}

/// How long, in nanoseconds, the engine sleeps after a frame that took
/// `spent_nanos`: what is left of the frame budget, or nothing when the
/// frame took the whole budget or more.
pub fn frame_sleep_nanos(frame_rate: u32, spent_nanos: u64) -> (r: u64)
    ensures
        r == (if spent_nanos < frame_budget_spec(frame_rate) * 1000 {
            frame_budget_spec(frame_rate) * 1000 - spent_nanos
        } else {
            0
        }),
{
    let rate: u64 = if frame_rate == 0 {
        1
    } else {
        frame_rate as u64
    };
    let budget_micros: u64 = 1_000_000 / rate;
    assert(budget_micros <= 1_000_000) by (nonlinear_arith)
        requires
            rate >= 1,
            budget_micros == 1_000_000u64 / rate,
    ;
    let budget: u64 = budget_micros * 1000;
    if spent_nanos < budget {
        budget - spent_nanos
    } else {
        0
    }
}

/// Whether a wheel delta is scaled by the configured step size: only
/// deltas larger than 1.2 in magnitude are (smaller ones, from precision
/// touchpads, pass at face value); for whole deltas that means 2 or more.
pub fn scales_with_step(delta: i16) -> (r: bool)
    ensures
        r == (delta >= 2 || delta <= -2),
{
    delta >= 2 || delta <= -2
}

/// Scrolling on in the same direction never resets: once a direction is
/// recorded, repeating it is not a change; and a scroll without motion on
/// either axis changes nothing.
pub proof fn lemma_direction_is_stable(direction: (i8, i8), dx: i8, dy: i8)
    ensures
        !direction_changes((dx, dy), dx, dy),
        !direction_changes(direction, 0, 0),
{
}

impl EngineCore {
    /// Fresh state: no direction, no acceleration baseline, no target.
    pub fn new() -> (r: Self)
        ensures
            r.direction == (0i8, 0i8),
            r.last_scroll_time == 0,
            r.current_target_pid == 0,
            r.pid_to_key@ == Map::<u32, AppKey>::empty(),
    {
        EngineCore {
            direction: (0, 0),
            last_scroll_time: 0,
            current_target_pid: 0,
            pid_to_key: HashMap::new(),
        }
    }

    /// Notes the direction of a new scroll (`dx`, `dy` are the signs of its
    /// horizontal and vertical parts). When a moving axis changes
    /// direction, the new direction is recorded, the acceleration baseline
    /// is dropped and `true` is returned: the caller then discards queued
    /// animations and pending output.
    pub fn direction_check(&mut self, dx: i8, dy: i8) -> (changed: bool)
        ensures
            changed == direction_changes(old(self).direction, dx, dy),
            changed ==> final(self).direction == (dx, dy) && final(self).last_scroll_time == 0,
            !changed ==> final(self).direction == old(self).direction
                && final(self).last_scroll_time == old(self).last_scroll_time,
            final(self).current_target_pid == old(self).current_target_pid,
            final(self).pid_to_key@ == old(self).pid_to_key@,
    {
        let changed = (dx != 0 && self.direction.0 != dx) || (dy != 0 && self.direction.1 != dy);
        if changed {
            self.direction = (dx, dy);
            self.last_scroll_time = 0;
        }
        changed
    }

    /// Places a scroll at time `now` for acceleration (when acceleration is
    /// enabled): the first scroll after a reset sets the baseline; a later
    /// one is inside the window when it comes less than `delta_ms` after the
    /// previous one (a clock going backwards counts as no time elapsed).
    /// The scroll becomes the new baseline.
    pub fn acceleration_window(&mut self, now: u64, delta_ms: u32) -> (r: AccelWindow)
        ensures
            old(self).last_scroll_time == 0 ==> r == AccelWindow::Baseline,
            old(self).last_scroll_time != 0 ==> {
                let elapsed = if now >= old(self).last_scroll_time {
                    now - old(self).last_scroll_time
                } else {
                    0
                };
                if elapsed < delta_ms {
                    r == (AccelWindow::Inside { elapsed_ms: elapsed as u64 })
                } else {
                    r == AccelWindow::Outside
                }
            },
            final(self).last_scroll_time == now,
            final(self).direction == old(self).direction,
            final(self).current_target_pid == old(self).current_target_pid,
            final(self).pid_to_key@ == old(self).pid_to_key@,
    {
        if self.last_scroll_time == 0 {
            self.last_scroll_time = now;
            return AccelWindow::Baseline;
        }
        let elapsed = now.saturating_sub(self.last_scroll_time);
        self.last_scroll_time = now;
        if elapsed < delta_ms as u64 {
            AccelWindow::Inside { elapsed_ms: elapsed }
        } else {
            AccelWindow::Outside
        }
    }

    /// Forgets direction and acceleration baseline (on disable or reload).
    pub fn reset_motion(&mut self)
        ensures
            final(self).direction == (0i8, 0i8),
            final(self).last_scroll_time == 0,
            final(self).current_target_pid == old(self).current_target_pid,
            final(self).pid_to_key@ == old(self).pid_to_key@,
    {
        self.direction = (0, 0);
        self.last_scroll_time = 0;
    }

    /// Whether the process `pid` still has to be resolved to an application.
    pub fn needs_resolution(&self, pid: u32) -> (r: bool)
        ensures
            r == (pid != 0 && !self.pid_to_key@.contains_key(pid)),
    {
        pid != 0 && !self.pid_to_key.contains_key(&pid)
    }

    /// Records that `pid` runs the application `key`. A user override for
    /// that application, when there is one, fixes its mode in the cache
    /// (so that it is never detected).
    pub fn record_resolution(
        &mut self,
        pid: u32,
        key: AppKey,
        override_mode: Option<ThresholdMode>,
        cache: &mut AppThresholdCache,
    )
        ensures
            final(self).pid_to_key@ == old(self).pid_to_key@.insert(pid, key),
            final(self).direction == old(self).direction,
            final(self).last_scroll_time == old(self).last_scroll_time,
            final(self).current_target_pid == old(self).current_target_pid,
            match override_mode {
                Some(m) => final(cache)@ == old(cache)@.insert(key@, m),
                None => final(cache)@ == old(cache)@,
            },
    {
        match override_mode {
            Some(m) => cache.set_mode(key.clone(), m),
            None => {},
        }
        self.pid_to_key.insert(pid, key);
    }

    /// Makes `pid` the current target. With automatic detection on
    /// (`auto_detect`), when its application is known and still undetected
    /// (no mode, or `Unknown`), marks it `Detecting` and returns its key, for
    /// which detection is to be requested. Otherwise (detection off, or
    /// nothing to detect) returns `None` and leaves the cache unchanged: with
    /// detection off only the global threshold and the user overrides decide.
    pub fn begin_scroll(&mut self, pid: u32, auto_detect: bool, cache: &mut AppThresholdCache) -> (r:
        Option<AppKey>)
        ensures
            final(self).current_target_pid == pid,
            final(self).direction == old(self).direction,
            final(self).last_scroll_time == old(self).last_scroll_time,
            final(self).pid_to_key@ == old(self).pid_to_key@,
            !auto_detect ==> r is None && final(cache)@ == old(cache)@,
            auto_detect ==> match r {
                Some(k) => {
                    &&& old(self).pid_to_key@.contains_key(pid)
                    &&& k@ == old(self).pid_to_key@[pid]@
                    &&& (!old(cache)@.contains_key(k@) || old(cache)@[k@] == ThresholdMode::Unknown)
                    &&& final(cache)@ == old(cache)@.insert(k@, ThresholdMode::Detecting)
                },
                None => {
                    &&& final(cache)@ == old(cache)@
                    &&& old(self).pid_to_key@.contains_key(pid) ==> {
                        let k = old(self).pid_to_key@[pid]@;
                        old(cache)@.contains_key(k) && old(cache)@[k] != ThresholdMode::Unknown
                    }
                },
            },
    {
        self.current_target_pid = pid;
        if !auto_detect {
            return None;
        }
        match self.pid_to_key.get(&pid) {
            Some(key) => {
                let key = key.clone();
                let probe = key.clone();
                if cache.start_detecting(probe) {
                    Some(key)
                } else {
                    None
                }
            },
            None => None,
        }
    }

    /// The injection threshold for the current target, when it is known:
    /// `None` when there is no target process or it was not resolved (the
    /// configured global threshold applies then).
    pub fn threshold_for_current_pid(&self, cache: &AppThresholdCache) -> (r: Option<u32>)
        ensures
            (self.current_target_pid == 0 || !self.pid_to_key@.contains_key(
                self.current_target_pid,
            )) ==> r is None,
            (self.current_target_pid != 0 && self.pid_to_key@.contains_key(
                self.current_target_pid,
            )) ==> {
                let k = self.pid_to_key@[self.current_target_pid]@;
                r == Some(
                    if cache@.contains_key(k) {
                        mode_threshold(cache@[k])
                    } else {
                        1u32
                    },
                )
            },
    {
        if self.current_target_pid == 0 {
            return None;
        }
        match self.pid_to_key.get(&self.current_target_pid) {
            None => None,
            Some(key) => Some(cache.get_threshold(Some(key))),
        }
    }
}

} // verus!
