//! The long-press-Tab gesture that opens the desktop compass.
//!
//! A low-level keyboard hook reports Tab events and a controller polls about every
//! 12 ms; both drive one `CompassState`.  The functions here take the decisions
//! and return what the caller has to do (swallow or relay a key, show, move or
//! hide the overlay, report a selection).  Times are readings of a monotonic clock
//! in nanoseconds.

use vstd::prelude::*;
use crate::compass::{compass_direction, direction_spec};
use crate::geometry::WorkArea;

verus! {

/// Virtual-key code of Tab.
pub const VK_TAB: u32 = 0x09;

/// Hook flag: the event was injected by software.
pub const LLKHF_INJECTED: u32 = 0x10;

/// Hook flag: the key was released.
pub const LLKHF_UP: u32 = 0x80;

/// Delay between releasing Tab and hiding the overlay (170 ms), for the closing animation.
pub const HIDE_DELAY_NS: u64 = 170_000_000;

/// Time after activation during which an invisible overlay is tolerated (500 ms).
pub const ACTIVATION_GRACE_NS: u64 = 500_000_000;

/// Squared dead-zone radius at scale 1: 42 physical pixels.
pub const BASE_DEAD_ZONE_SQ: u64 = 1764;

/// Shortest and longest hold time that opens the compass, in milliseconds.
pub const MIN_HOLD_MS: u64 = 300;

pub const MAX_HOLD_MS: u64 = 3000;

/// The whole state of the gesture.
#[derive(Clone, Copy, Debug, PartialEq, Eq)]
pub struct CompassState {
    /// The gesture is switched on.
    pub enabled: bool,
    /// How long Tab has to be held, in milliseconds.
    pub hold_ms: u64,
    /// Swallow Tab presses and replay them on release.
    pub hijack: bool,
    /// When the current Tab press started.
    pub tab_down: Option<u64>,
    /// Tab is held down, as seen by the hook.
    pub tab_held: bool,
    /// The compass overlay is open.
    pub active: bool,
    /// When the overlay is due to be hidden.
    pub closing_at: Option<u64>,
    /// When the overlay was last opened.
    pub activated_at: Option<u64>,
    /// Centre of the monitor the compass is shown on.
    pub origin_x: i32,
    pub origin_y: i32,
    /// Squared dead-zone radius, rounded up, in physical pixels.
    pub dead_zone_sq: u64,
    /// Selected direction, -1 for none.
    pub current_dir: i8,
}

/// One event reported by the keyboard hook.
#[derive(Clone, Copy, Debug, PartialEq, Eq)]
pub struct KeyHookEvent {
    /// The hook code; negative codes must be passed on untouched.
    pub code: i32,
    /// Virtual-key code of the key.
    pub vk_code: u32,
    /// The hook flags (`LLKHF_UP`, `LLKHF_INJECTED`, ...).
    pub flags: u32,
    /// Alt or a Windows key is held, so Tab belongs to a system shortcut.
    pub system_tab_blocked: bool,
}

/// What the hook has to do with an event.
#[derive(Clone, Copy, Debug, PartialEq, Eq)]
pub struct HookDecision {
    /// Swallow the event instead of passing it on.
    pub swallow: bool,
    /// Send one complete Tab press (down and up) to the system.
    pub relay_tab: bool,
    /// The compass was released with this direction selected (-1 for none).
    pub released: Option<i8>,
}

/// What the controller has to do after one tick.
#[derive(Clone, Copy, Debug, PartialEq, Eq)]
pub enum TickAction {
    /// Nothing.
    Idle,
    /// Hide the overlay window.
    HideOverlay,
    /// Tab has been held long enough: open the compass (see `activate`).
    Activate,
    /// Tab was let go while the compass was open: report the selected direction.
    Released(i8),
    /// The overlay vanished: the gesture was reset without a selection.
    Reset,
    /// Follow the cursor (see `track_cursor`).
    TrackCursor,
}

/// Where the overlay window is placed when the compass opens.
#[derive(Clone, Copy, Debug, PartialEq, Eq)]
pub struct OverlayLayout {
    pub x: i32,
    pub y: i32,
    pub width: u32,
    pub height: u32,
}

impl CompassState {
    /// The state is consistent: the hold time is in range and the direction is valid.
    pub open spec fn wf(&self) -> bool {
        &&& MIN_HOLD_MS <= self.hold_ms <= MAX_HOLD_MS
        &&& -1 <= self.current_dir <= 7
    }

    /// The initial state: enabled, 1 s hold, no hijacking, nothing pressed.
    pub fn new() -> (s: CompassState)
        ensures
            s == initial_state(),
            s.wf(),
    {
        CompassState {
            enabled: true,
            hold_ms: 1000,
            hijack: false,
            tab_down: None,
            tab_held: false,
            active: false,
            closing_at: None,
            activated_at: None,
            origin_x: 0,
            origin_y: 0,
            dead_zone_sq: BASE_DEAD_ZONE_SQ,
            current_dir: -1,
        }
    }
}

pub open spec fn initial_state() -> CompassState {
    CompassState {
        enabled: true,
        hold_ms: 1000,
        hijack: false,
        tab_down: None,
        tab_held: false,
        active: false,
        closing_at: None,
        activated_at: None,
        origin_x: 0,
        origin_y: 0,
        dead_zone_sq: BASE_DEAD_ZONE_SQ,
        current_dir: -1i8,
    }
}

/// Hijacking applies to a real Tab press outside system shortcuts (Alt+Tab, Win+Tab).
pub open spec fn hijack_applies(hijack_enabled: bool, injected: bool, system_tab_blocked: bool) -> bool {
    hijack_enabled && !injected && !system_tab_blocked
}

/// Whether to hijack this Tab event: hijacking is on, the event was not injected
/// (which would loop on our own replay) and no system modifier is held.
pub fn should_hijack(hijack_enabled: bool, injected: bool, system_tab_blocked: bool) -> (r: bool)
    ensures
        r == hijack_applies(hijack_enabled, injected, system_tab_blocked),
{
    hijack_enabled && !injected && !system_tab_blocked
}

/// The hold time, clamped to `[300, 3000]` ms.
pub open spec fn clamp_hold(hold_ms: u64) -> u64 {
    if hold_ms < MIN_HOLD_MS {
        MIN_HOLD_MS
    } else if hold_ms > MAX_HOLD_MS {
        MAX_HOLD_MS
    } else {
        hold_ms
    }
}

/// Changes the settings of the gesture; the hold time is clamped to `[300, 3000]` ms.
pub fn set_config(state: &mut CompassState, enabled: bool, hold_ms: u64, hijack: bool)
    requires
        old(state).wf(),
    ensures
        *final(state) == (CompassState {
            enabled,
            hold_ms: clamp_hold(hold_ms),
            hijack,
            ..*old(state)
        }),
        final(state).wf(),
{
    state.enabled = enabled;
    state.hold_ms = if hold_ms < MIN_HOLD_MS {
        MIN_HOLD_MS
    } else if hold_ms > MAX_HOLD_MS {
        MAX_HOLD_MS
    } else {
        hold_ms
    };
    state.hijack = hijack;
}

/// Time since `at`, zero when `at` lies in the future.
pub open spec fn elapsed(at: u64, now: u64) -> int {
    if now >= at {
        now - at
    } else {
        0
    }
}

/// The latest clock reading that the gesture accepts: a release schedules the
/// hiding of the overlay 170 ms later, which must not overflow the clock.
pub open spec fn clock_limit() -> u64 {
    (u64::MAX - HIDE_DELAY_NS) as u64
}

/// The latest clock reading that the gesture accepts (see `clock_limit`).
pub fn clock_limit_value() -> (r: u64)
    ensures
        r == clock_limit(),
{
    u64::MAX - HIDE_DELAY_NS
}

/// The hook event ends an open compass (a Tab release while it is open).
pub open spec fn hook_releases(s: CompassState, ev: KeyHookEvent) -> bool {
    ev.code >= 0 && ev.vk_code == VK_TAB && s.active && key_released(ev)
}

/// The tick ends an open compass because Tab is no longer held.
pub open spec fn tick_releases(s: CompassState, now: u64) -> bool {
    &&& s.enabled
    &&& !(s.closing_at matches Some(at) && now >= at)
    &&& s.active
    &&& !s.tab_held
}

/// The state after the compass is released.
pub open spec fn release_state(s: CompassState, now: u64) -> CompassState {
    CompassState {
        active: false,
        current_dir: -1i8,
        tab_held: false,
        activated_at: None,
        tab_down: None,
        closing_at: Some((now + HIDE_DELAY_NS) as u64),
        ..s
    }
}

pub open spec fn key_released(ev: KeyHookEvent) -> bool {
    ev.flags & LLKHF_UP != 0
}

pub open spec fn key_injected(ev: KeyHookEvent) -> bool {
    ev.flags & LLKHF_INJECTED != 0
}

/// A press starts at `now` unless one is already under way.
pub open spec fn press_state(s: CompassState, now: u64) -> CompassState {
    CompassState {
        tab_held: true,
        tab_down: if s.tab_down is None { Some(now) } else { s.tab_down },
        ..s
    }
}

pub open spec fn lift_state(s: CompassState) -> CompassState {
    CompassState { tab_held: false, tab_down: None, ..s }
}

pub open spec fn decision(swallow: bool, relay_tab: bool, released: Option<i8>) -> HookDecision {
    HookDecision { swallow, relay_tab, released }
}

/// The effect of one keyboard-hook event.
pub open spec fn hook_spec(s: CompassState, ev: KeyHookEvent, now: u64) -> (CompassState, HookDecision) {
    let up = key_released(ev);
    let injected = key_injected(ev);
    if ev.code < 0 || ev.vk_code != VK_TAB {
        (s, decision(false, false, None))
    } else if s.active {
        if up {
            (release_state(s, now), decision(true, false, Some(s.current_dir)))
        } else {
            (s, decision(true, false, None))
        }
    } else if hijack_applies(s.hijack, injected, ev.system_tab_blocked) {
        if !up {
            (press_state(s, now), decision(true, false, None))
        } else {
            (lift_state(s), decision(true, s.tab_down is Some, None))
        }
    } else if !injected {
        if !up {
            (press_state(s, now), decision(false, false, None))
        } else {
            (lift_state(s), decision(false, false, None))
        }
    } else {
        (s, decision(false, false, None))
    }
}

/// The effect of one controller tick.
pub open spec fn tick_spec(s: CompassState, now: u64, overlay_visible: bool) -> (CompassState, TickAction) {
    if !s.enabled {
        (s, TickAction::Idle)
    } else if s.closing_at matches Some(at) && now >= at {
        (CompassState { closing_at: None, ..s }, TickAction::HideOverlay)
    } else if !s.active {
        match s.tab_down {
            Some(started) => if s.tab_held {
                if elapsed(started, now) >= s.hold_ms * 1_000_000 {
                    (s, TickAction::Activate)
                } else {
                    (s, TickAction::Idle)
                }
            } else {
                (CompassState { tab_down: None, ..s }, TickAction::Idle)
            },
            None => (s, TickAction::Idle),
        }
    } else if !s.tab_held {
        (release_state(s, now), TickAction::Released(s.current_dir))
    } else if !overlay_visible && (match s.activated_at {
        Some(at) => elapsed(at, now),
        None => 0,
    }) > ACTIVATION_GRACE_NS {
        (
            CompassState { active: false, current_dir: -1i8, activated_at: None, tab_down: None, ..s },
            TickAction::Reset,
        )
    } else {
        (s, TickAction::TrackCursor)
    }
}

/// Half of `v`, rounded towards zero (as integer division does).
pub open spec fn half_toward_zero(v: int) -> int {
    if v >= 0 {
        v / 2
    } else {
        -((-v) / 2)
    }
}

/// The monitor rectangle has a width, height and centre that fit in `i32`.
pub open spec fn monitor_in_range(m: WorkArea) -> bool {
    &&& i32::MIN <= m.right - m.left <= i32::MAX
    &&& i32::MIN <= m.bottom - m.top <= i32::MAX
    &&& i32::MIN <= m.left + m.right <= i32::MAX
    &&& i32::MIN <= m.top + m.bottom <= i32::MAX
}

/// At least 1.
pub open spec fn at_least_one(v: int) -> int {
    if v > 1 { v } else { 1 }
}

/// Where the overlay goes: over the whole monitor.
pub open spec fn overlay_spec(m: WorkArea) -> OverlayLayout {
    OverlayLayout {
        x: m.left,
        y: m.top,
        width: at_least_one(m.right - m.left) as u32,
        height: at_least_one(m.bottom - m.top) as u32,
    }
}

/// The state after the compass opens on monitor `m` at `now`.
pub open spec fn activate_state(s: CompassState, now: u64, m: WorkArea, dead_zone_sq: u64) -> CompassState {
    CompassState {
        active: true,
        current_dir: -1i8,
        activated_at: Some(now),
        origin_x: half_toward_zero(m.left + m.right) as i32,
        origin_y: half_toward_zero(m.top + m.bottom) as i32,
        dead_zone_sq,
        ..s
    }
}

/// The cursor position relative to the origin fits in `i32`.
pub open spec fn cursor_in_range(s: CompassState, x: i32, y: i32) -> bool {
    &&& i32::MIN <= x - s.origin_x <= i32::MAX
    &&& i32::MIN <= y - s.origin_y <= i32::MAX
}

/// The direction that follows from the cursor at `(x, y)`.
pub open spec fn next_dir(s: CompassState, x: i32, y: i32) -> int {
    direction_spec(x - s.origin_x, y - s.origin_y, s.current_dir as int, s.dead_zone_sq as int)
}

impl CompassState {
    /// Ends an open compass: nothing is selected any more, the press is forgotten
    /// and the overlay is hidden 170 ms later.  Returns the direction that was
    /// selected (-1 for none), which the caller reports.
    pub fn finalize_release(&mut self, now: u64) -> (dir: i8)
        requires
            old(self).wf(),
            now <= clock_limit(),
        ensures
            *final(self) == release_state(*old(self), now),
            dir == old(self).current_dir,
            final(self).wf(),
    {
        let dir = self.current_dir;
        self.active = false;
        self.current_dir = -1;
        self.tab_held = false;
        self.activated_at = None;
        self.tab_down = None;
        self.closing_at = Some(now + HIDE_DELAY_NS);
        dir
    }

    fn start_press(&mut self, now: u64)
        ensures
            *final(self) == press_state(*old(self), now),
    {
        self.tab_held = true;
        if self.tab_down.is_none() {
            self.tab_down = Some(now);
        }
    }

    /// Handles one event of the keyboard hook and says whether to swallow it.
    ///
    /// Events with a negative hook code or of other keys pass untouched.  While the
    /// compass is open every Tab event is swallowed, and releasing Tab ends it.
    /// With hijacking on, a real Tab press outside system shortcuts is swallowed and
    /// one complete press is replayed on release, but only if its press was seen.
    /// Otherwise real presses and releases are tracked and passed on.
    pub fn handle_tab_hook(&mut self, ev: KeyHookEvent, now: u64) -> (d: HookDecision)
        requires
            old(self).wf(),
            hook_releases(*old(self), ev) ==> now <= clock_limit(),
        ensures
            (*final(self), d) == hook_spec(*old(self), ev, now),
            final(self).wf(),
    {
        let pass = HookDecision { swallow: false, relay_tab: false, released: None };
        if ev.code < 0 || ev.vk_code != VK_TAB {
            return pass;
        }
        let is_up = ev.flags & LLKHF_UP != 0;
        if self.active {
            if is_up {
                let dir = self.finalize_release(now);
                return HookDecision { swallow: true, relay_tab: false, released: Some(dir) };
            }
            return HookDecision { swallow: true, relay_tab: false, released: None };
        }
        let injected = ev.flags & LLKHF_INJECTED != 0;
        if should_hijack(self.hijack, injected, ev.system_tab_blocked) {
            if !is_up {
                self.start_press(now);
                return HookDecision { swallow: true, relay_tab: false, released: None };
            }
            self.tab_held = false;
            let hijacked = self.tab_down.is_some();
            self.tab_down = None;
            return HookDecision { swallow: true, relay_tab: hijacked, released: None };
        }
        if !injected {
            if !is_up {
                self.start_press(now);
            } else {
                self.tab_held = false;
                self.tab_down = None;
            }
        }
        pass
    }

    /// One tick of the controller (about every 12 ms).
    ///
    /// Disabled: nothing.  A due hide is carried out first.  While closed, a press
    /// held for the hold time opens the compass, and a press whose release was
    /// missed is forgotten.  While open, a released Tab ends the compass; an overlay
    /// that has been invisible for more than 500 ms after opening resets the gesture;
    /// otherwise the cursor is followed.  `overlay_visible` tells whether the
    /// overlay window is currently shown.
    pub fn controller_tick(&mut self, now: u64, overlay_visible: bool) -> (a: TickAction)
        requires
            old(self).wf(),
            tick_releases(*old(self), now) ==> now <= clock_limit(),
        ensures
            (*final(self), a) == tick_spec(*old(self), now, overlay_visible),
            final(self).wf(),
            old(self).enabled && old(self).active && old(self).tab_held && overlay_visible && !(old(
                self,
            ).closing_at matches Some(at) && now >= at) ==> a == TickAction::TrackCursor && *final(self)
                == *old(self),
            a == TickAction::Reset ==> !overlay_visible && (old(self).activated_at matches Some(at) && now
                > at && now - at > 500_000_000),
    {
        if !self.enabled {
            return TickAction::Idle;
        }
        let closing_due = match self.closing_at {
            Some(at) => now >= at,
            None => false,
        };
        if closing_due {
            self.closing_at = None;
            return TickAction::HideOverlay;
        }
        if !self.active {
            if let Some(started) = self.tab_down {
                if self.tab_held {
                    let held_for = if now >= started { now - started } else { 0 };
                    if held_for >= self.hold_ms * 1_000_000 {
                        return TickAction::Activate;
                    }
                } else {
                    self.tab_down = None;
                }
            }
            return TickAction::Idle;
        }
        if !self.tab_held {
            let dir = self.finalize_release(now);
            return TickAction::Released(dir);
        }
        let activated_for: u64 = match self.activated_at {
            Some(at) => if now >= at { now - at } else { 0 },
            None => 0,
        };
        if !overlay_visible && activated_for > ACTIVATION_GRACE_NS {
            self.active = false;
            self.current_dir = -1;
            self.activated_at = None;
            self.tab_down = None;
            return TickAction::Reset;
        }
        TickAction::TrackCursor
    }

    /// Opens the compass over `monitor` (the monitor under the cursor).  The origin
    /// of the directions becomes the centre of the monitor, nothing is selected yet,
    /// and `dead_zone_sq` (the squared dead-zone radius at the monitor's scale,
    /// rounded up) is kept for `track_cursor`.  Returns where the overlay goes.
    pub fn activate(&mut self, now: u64, monitor: WorkArea, dead_zone_sq: u64) -> (l: OverlayLayout)
        requires
            old(self).wf(),
            monitor_in_range(monitor),
        ensures
            *final(self) == activate_state(*old(self), now, monitor, dead_zone_sq),
            l == overlay_spec(monitor),
            final(self).wf(),
            final(self).active && final(self).current_dir == -1 && final(self).activated_at == Some(now)
                && final(self).dead_zone_sq == dead_zone_sq,
            monitor.left + monitor.right >= 0 ==> 0 <= (monitor.left + monitor.right) - 2 * final(self).origin_x
                <= 1,
            monitor.left + monitor.right < 0 ==> 0 <= 2 * final(self).origin_x - (monitor.left + monitor.right)
                <= 1,
            monitor.top + monitor.bottom >= 0 ==> 0 <= (monitor.top + monitor.bottom) - 2 * final(self).origin_y
                <= 1,
            monitor.top + monitor.bottom < 0 ==> 0 <= 2 * final(self).origin_y - (monitor.top + monitor.bottom)
                <= 1,
            l.x == monitor.left && l.y == monitor.top,
            monitor.right - monitor.left >= 1 ==> l.width == monitor.right - monitor.left,
            monitor.right - monitor.left < 1 ==> l.width == 1,
            monitor.bottom - monitor.top >= 1 ==> l.height == monitor.bottom - monitor.top,
            monitor.bottom - monitor.top < 1 ==> l.height == 1,
    {
        let width = monitor.right - monitor.left;
        let height = monitor.bottom - monitor.top;
        let sum_x = monitor.left + monitor.right;
        let sum_y = monitor.top + monitor.bottom;
        let center_x = if sum_x >= 0 { sum_x / 2 } else { -((-(sum_x as i64)) / 2) as i32 };
        let center_y = if sum_y >= 0 { sum_y / 2 } else { -((-(sum_y as i64)) / 2) as i32 };
        self.active = true;
        self.current_dir = -1;
        self.activated_at = Some(now);
        self.origin_x = center_x;
        self.origin_y = center_y;
        self.dead_zone_sq = dead_zone_sq;
        OverlayLayout {
            x: monitor.left,
            y: monitor.top,
            width: if width > 1 { width as u32 } else { 1 },
            height: if height > 1 { height as u32 } else { 1 },
        }
    }

    /// Follows the cursor at `(x, y)`: selects the direction of its offset from the
    /// origin (see `compass_direction`) and returns it when it changed.
    pub fn track_cursor(&mut self, x: i32, y: i32) -> (changed: Option<i8>)
        requires
            old(self).wf(),
            cursor_in_range(*old(self), x, y),
        ensures
            final(self).wf(),
            *final(self) == (CompassState { current_dir: next_dir(*old(self), x, y) as i8, ..*old(self) }),
            changed == (if next_dir(*old(self), x, y) != old(self).current_dir {
                Some(next_dir(*old(self), x, y) as i8)
            } else {
                None::<i8>
            }),
            (final(self).current_dir == -1) == ((x - old(self).origin_x) * (x - old(self).origin_x) + (y
                - old(self).origin_y) * (y - old(self).origin_y) < old(self).dead_zone_sq),
    {
        let next = compass_direction(x - self.origin_x, y - self.origin_y, self.current_dir, self.dead_zone_sq);
        if next != self.current_dir {
            self.current_dir = next;
            Some(next)
        } else {
            None
        }
    }
}

} // verus!

verus! {

/// A real Tab event (not injected, hook code not negative, no system modifier).
pub open spec fn real_tab(ev: KeyHookEvent, up: bool) -> bool {
    &&& ev.code >= 0
    &&& ev.vk_code == VK_TAB
    &&& ev.flags & LLKHF_INJECTED == 0
    &&& (ev.flags & LLKHF_UP != 0) == up
    &&& !ev.system_tab_blocked
}

/// With hijacking on, a quick Tab tap is swallowed on the way down and replayed
/// exactly once, as one complete press, on the way up; afterwards no press is pending.
pub proof fn law_hijacked_tap_is_replayed_once(
    s: CompassState,
    down: KeyHookEvent,
    up: KeyHookEvent,
    t1: u64,
    t2: u64,
)
    requires
        s.wf(),
        !s.active,
        s.hijack,
        real_tab(down, false),
        real_tab(up, true),
    ensures
        ({
            let (s1, d1) = hook_spec(s, down, t1);
            let (s2, d2) = hook_spec(s1, up, t2);
            &&& d1.swallow && !d1.relay_tab
            &&& d2.swallow && d2.relay_tab
            &&& s2.tab_down is None && !s2.tab_held
        }),
{
}

/// A release whose press was not swallowed (no press pending) is never replayed,
/// so stray releases cannot produce extra Tabs.
pub proof fn law_no_replay_without_pending_press(s: CompassState, ev: KeyHookEvent, now: u64)
    requires
        s.tab_down is None,
    ensures
        !hook_spec(s, ev, now).1.relay_tab,
{
}

/// While the compass is open every Tab event is swallowed, and a release ends the
/// compass, reporting the selected direction and leaving nothing selected.
pub proof fn law_open_compass_owns_tab(s: CompassState, ev: KeyHookEvent, now: u64)
    requires
        s.active,
        ev.code >= 0,
        ev.vk_code == VK_TAB,
    ensures
        hook_spec(s, ev, now).1.swallow,
        key_released(ev) ==> hook_spec(s, ev, now).1.released == Some(s.current_dir)
            && !hook_spec(s, ev, now).0.active && hook_spec(s, ev, now).0.current_dir == -1,
        !key_released(ev) ==> hook_spec(s, ev, now).0 == s,
{
}

/// Injected key events (such as our own replayed Tab) are never swallowed while the
/// compass is closed and leave the state untouched, so a replay cannot loop.
pub proof fn law_injected_events_pass(s: CompassState, ev: KeyHookEvent, now: u64)
    requires
        !s.active,
        key_injected(ev),
    ensures
        !hook_spec(s, ev, now).1.swallow,
        hook_spec(s, ev, now).0 == s,
{
}

/// Events of other keys, and events with a negative hook code, are passed on untouched.
pub proof fn law_other_keys_pass(s: CompassState, ev: KeyHookEvent, now: u64)
    requires
        ev.code < 0 || ev.vk_code != VK_TAB,
    ensures
        hook_spec(s, ev, now) == (s, decision(false, false, None)),
{
}

/// The compass opens only while Tab is held and only once it has been held for the
/// configured time.
pub proof fn law_opens_only_after_hold(s: CompassState, now: u64, overlay_visible: bool)
    requires
        tick_spec(s, now, overlay_visible).1 == TickAction::Activate,
    ensures
        s.enabled,
        !s.active,
        s.tab_held,
        s.tab_down matches Some(t) && elapsed(t, now) >= s.hold_ms * 1_000_000,
{
}

/// A real Tab press on an idle gesture, held for the hold time, opens the compass;
/// a tick before that time does not.
pub proof fn law_long_press_opens(s: CompassState, down: KeyHookEvent, t0: u64, t1: u64, vis: bool)
    requires
        s.wf(),
        s.enabled,
        !s.active,
        s.closing_at is None,
        s.tab_down is None,
        real_tab(down, false),
        t1 >= t0,
    ensures
        ({
            let s1 = hook_spec(s, down, t0).0;
            &&& (t1 - t0 >= s.hold_ms * 1_000_000 ==> tick_spec(s1, t1, vis).1 == TickAction::Activate)
            &&& (t1 - t0 < s.hold_ms * 1_000_000 ==> tick_spec(s1, t1, vis).1 == TickAction::Idle)
        }),
{
}

/// Whenever the compass closes (a release or a reset), nothing stays selected and
/// no press stays pending; a release reports the direction selected just before.
pub proof fn law_closing_clears_selection(s: CompassState, now: u64, vis: bool)
    requires
        s.active,
        s.enabled,
        s.closing_at is None,
    ensures
        ({
            let (s1, a) = tick_spec(s, now, vis);
            &&& (a == TickAction::Released(s.current_dir) || a == TickAction::Reset) ==> (!s1.active
                && s1.current_dir == -1 && s1.tab_down is None)
            &&& !s.tab_held ==> a == TickAction::Released(s.current_dir)
        }),
{
}

/// The settings keep the hold time between 300 ms and 3 s, and a hold time in
/// that range is taken as it is.
pub proof fn law_hold_time_in_range(hold_ms: u64)
    ensures
        MIN_HOLD_MS == 300 && MAX_HOLD_MS == 3000,
        MIN_HOLD_MS <= clamp_hold(hold_ms) <= MAX_HOLD_MS,
        MIN_HOLD_MS <= hold_ms <= MAX_HOLD_MS ==> clamp_hold(hold_ms) == hold_ms,
{
}


/// Tab as part of a system shortcut (Alt+Tab, Win+Tab) is never swallowed while the
/// compass is closed, even with hijacking on.
pub proof fn law_system_shortcuts_pass(s: CompassState, ev: KeyHookEvent, now: u64)
    requires
        !s.active,
        ev.system_tab_blocked,
    ensures
        !hook_spec(s, ev, now).1.swallow,
        !hook_spec(s, ev, now).1.relay_tab,
{
}

/// Moving the cursor back into the dead zone around the centre and releasing Tab
/// cancels: the release reports no direction.
pub proof fn law_release_at_centre_cancels(s: CompassState, x: i32, y: i32, up: KeyHookEvent, now: u64)
    requires
        s.wf(),
        s.active,
        cursor_in_range(s, x, y),
        (x - s.origin_x) * (x - s.origin_x) + (y - s.origin_y) * (y - s.origin_y) < s.dead_zone_sq,
        real_tab(up, true),
    ensures
        ({
            let s1 = CompassState { current_dir: next_dir(s, x, y) as i8, ..s };
            hook_spec(s1, up, now).1.released == Some(-1i8)
        }),
{
}


/// While the compass is open, switched on, not due to be hidden and Tab is held, a
/// tick with the overlay shown keeps the compass open and follows the cursor, with
/// the state unchanged.  The gesture is reset only when the overlay is not shown and
/// more than 500 ms have passed since the compass opened.
pub proof fn law_visible_open_compass_follows_cursor(s: CompassState, now: u64, overlay_visible: bool)
    ensures
        s.enabled && s.active && s.tab_held && overlay_visible && !(s.closing_at matches Some(at) && now
            >= at) ==> tick_spec(s, now, overlay_visible) == (s, TickAction::TrackCursor),
        tick_spec(s, now, overlay_visible).1 == TickAction::Reset ==> !overlay_visible && (
        s.activated_at matches Some(at) && now > at && now - at > 500_000_000),
{
}


/// One controller tick, case by case.  Switched off, nothing happens.  A due hide is
/// carried out first.  While closed, a held press opens the compass once it has been
/// held for the hold time, and a press whose release was missed is forgotten.  While
/// open, a released Tab ends the compass with the selected direction and schedules
/// the hide 170 ms later; an overlay that has not been shown for more than 500 ms
/// after opening resets the gesture; otherwise the cursor is followed.
pub proof fn law_tick_cases(s: CompassState, now: u64, overlay_visible: bool)
    requires
        s.wf(),
        tick_releases(s, now) ==> now <= clock_limit(),
    ensures
        ({
            let (t, a) = tick_spec(s, now, overlay_visible);
            let due = s.closing_at matches Some(at) && now >= at;
            &&& !s.enabled ==> a == TickAction::Idle && t == s
            &&& s.enabled && due ==> a == TickAction::HideOverlay && t == (CompassState { closing_at: None, ..s })
            &&& s.enabled && !due && !s.active && s.tab_held && (s.tab_down matches Some(d) && now >= d && now - d
                >= s.hold_ms * 1_000_000) ==> a == TickAction::Activate && t == s
            &&& s.enabled && !due && !s.active && !(s.tab_down matches Some(d) && now >= d && now - d >= s.hold_ms
                * 1_000_000) ==> a == TickAction::Idle
            &&& s.enabled && !due && !s.active && s.tab_held ==> t == s
            &&& s.enabled && !due && !s.active && !s.tab_held ==> t == (CompassState { tab_down: None, ..s })
            &&& s.enabled && !due && s.active && !s.tab_held ==> a == TickAction::Released(s.current_dir)
                && !t.active && t.current_dir == -1 && t.tab_down is None && t.activated_at is None
                && t.closing_at == Some((now + 170_000_000) as u64)
            &&& s.enabled && !due && s.active && s.tab_held && !overlay_visible && (s.activated_at matches Some(
                at) && now >= at && now - at > 500_000_000) ==> a == TickAction::Reset && !t.active
                && t.current_dir == -1 && t.activated_at is None && t.tab_down is None && t.tab_held
            &&& s.enabled && !due && s.active && s.tab_held && !(!overlay_visible && (s.activated_at matches Some(
                at) && now >= at && now - at > 500_000_000)) ==> a == TickAction::TrackCursor && t == s
        }),
{
}


/// The hook reads the Windows event as the Win32 API defines it: Tab is virtual key
/// 9, bit 0x80 of the flags marks a release (`LLKHF_UP`) and bit 0x10 an event
/// injected by software (`LLKHF_INJECTED`).
pub proof fn law_hook_reads_windows_flags(ev: KeyHookEvent)
    ensures
        VK_TAB == 9,
        key_released(ev) == (ev.flags & 0x80 != 0),
        key_injected(ev) == (ev.flags & 0x10 != 0),
{
}

} // verus!
