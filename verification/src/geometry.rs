//! Placement of the floating ball and of the compass windows on a monitor.

use vstd::prelude::*;

verus! {

/// A rectangle in physical screen pixels; `right` and `bottom` are exclusive.
#[derive(Clone, Copy, Debug, PartialEq, Eq)]
pub struct WorkArea {
    pub left: i32,
    pub top: i32,
    pub right: i32,
    pub bottom: i32,
}

/// Where a window ends up, and whether it had to be moved back to the primary screen.
#[derive(Clone, Copy, Debug, PartialEq, Eq)]
pub struct RestoredWindowPosition {
    pub x: i32,
    pub y: i32,
    pub reset: bool,
}

/// `v` brought into `[lo, hi]` (`lo <= hi`).
pub open spec fn clamp_int(v: int, lo: int, hi: int) -> int {
    if v < lo { lo } else if v > hi { hi } else { v }
}

/// `v` saturated into the range of `i32`.
pub open spec fn saturate_i32(v: int) -> int {
    clamp_int(v, i32::MIN as int, i32::MAX as int)
}

/// The window `(x, y, width, height)` lies entirely inside `area`.
pub open spec fn window_fits(x: int, y: int, width: int, height: int, area: WorkArea) -> bool {
    &&& x >= area.left
    &&& y >= area.top
    &&& x + width <= area.right
    &&& y + height <= area.bottom
}

/// Leading coordinate of a span of `size` centred in `[lo, hi)`; a span that is
/// too large is aligned with `lo`.
pub open spec fn centered_start(lo: int, hi: int, size: int) -> int {
    let room = hi - lo - size;
    lo + (if room > 0 { room } else { 0 }) / 2
}

/// The position that `restore_target` chooses.
pub open spec fn restore_spec(
    x: int,
    y: int,
    width: int,
    height: int,
    candidate: Option<WorkArea>,
    primary: WorkArea,
) -> RestoredWindowPosition {
    if candidate matches Some(area) && window_fits(x, y, width, height, area) {
        RestoredWindowPosition { x: x as i32, y: y as i32, reset: false }
    } else {
        RestoredWindowPosition {
            x: saturate_i32(centered_start(primary.left as int, primary.right as int, width)) as i32,
            y: saturate_i32(centered_start(primary.top as int, primary.bottom as int, height)) as i32,
            reset: true,
        }
    }
}

/// Largest leading coordinate that keeps a span of `size` inside `[lo, hi)`,
/// or `lo` when the span does not fit.
pub open spec fn last_start(lo: int, hi: int, size: int) -> int {
    if hi - size > lo { hi - size } else { lo }
}

/// The position that `clamp_target` chooses.
pub open spec fn clamp_spec(x: int, y: int, width: int, height: int, area: WorkArea) -> RestoredWindowPosition {
    RestoredWindowPosition {
        x: clamp_int(x, area.left as int, last_start(area.left as int, area.right as int, width)) as i32,
        y: clamp_int(y, area.top as int, last_start(area.top as int, area.bottom as int, height)) as i32,
        reset: false,
    }
}

fn centered_start_exec(lo: i32, hi: i32, size: u32) -> (r: i32)
    ensures
        r == saturate_i32(centered_start(lo as int, hi as int, size as int)),
{
    let room: i64 = hi as i64 - lo as i64 - size as i64;
    let half: i64 = if room > 0 { room / 2 } else { 0 };
    let start: i64 = lo as i64 + half;
    if start < i32::MIN as i64 {
        i32::MIN
    } else if start > i32::MAX as i64 {
        i32::MAX
    } else {
        start as i32
    }
}

/// Position for the floating ball when it is restored at start-up.
///
/// The remembered position `(x, y)` is kept when the whole window lies inside the
/// work area of the monitor it was found on (`candidate`); otherwise the window
/// is centred in the primary work area and `reset` is set.
pub fn restore_target(
    x: i32,
    y: i32,
    width: u32,
    height: u32,
    candidate: Option<WorkArea>,
    primary: WorkArea,
) -> (r: RestoredWindowPosition)
    ensures
        r == restore_spec(x as int, y as int, width as int, height as int, candidate, primary),
        !r.reset == (candidate matches Some(a) && x >= a.left && y >= a.top && x + width <= a.right && y
            + height <= a.bottom),
        !r.reset ==> r.x == x && r.y == y,
        r.reset && primary.left + width <= primary.right ==> r.x - primary.left == (primary.right
            - primary.left - width) / 2,
        r.reset && primary.left + width > primary.right ==> r.x == primary.left,
        r.reset && primary.top + height <= primary.bottom ==> r.y - primary.top == (primary.bottom
            - primary.top - height) / 2,
        r.reset && primary.top + height > primary.bottom ==> r.y == primary.top,
{
    let fits = match candidate {
        Some(area) => {
            let right: i64 = x as i64 + width as i64;
            let bottom: i64 = y as i64 + height as i64;
            x as i64 >= area.left as i64 && y as i64 >= area.top as i64 && right <= area.right as i64
                && bottom <= area.bottom as i64
        },
        None => false,
    };
    if fits {
        return RestoredWindowPosition { x, y, reset: false };
    }
    RestoredWindowPosition {
        x: centered_start_exec(primary.left, primary.right, width),
        y: centered_start_exec(primary.top, primary.bottom, height),
        reset: true,
    }
}

fn clamp_axis(v: i32, lo: i32, hi: i32, size: u32) -> (r: i32)
    ensures
        r == clamp_int(v as int, lo as int, last_start(lo as int, hi as int, size as int)),
{
    let end: i64 = hi as i64 - size as i64;
    let max: i64 = if end > lo as i64 { end } else { lo as i64 };
    if (v as i64) < lo as i64 {
        lo
    } else if v as i64 > max {
        max as i32
    } else {
        v
    }
}

/// Position of a window dragged to `(x, y)`, kept inside `area`.
///
/// Each axis is clamped so that the window does not leave the area; a window larger
/// than the area is aligned with its left (top) edge.
pub fn clamp_target(x: i32, y: i32, width: u32, height: u32, area: WorkArea) -> (r: RestoredWindowPosition)
    ensures
        r == clamp_spec(x as int, y as int, width as int, height as int, area),
        !r.reset,
        x < area.left ==> r.x == area.left,
        area.left <= x && x + width <= area.right ==> r.x == x,
        x + width > area.right && area.left + width <= area.right ==> r.x == area.right - width,
        area.left + width > area.right ==> r.x == area.left,
        y < area.top ==> r.y == area.top,
        area.top <= y && y + height <= area.bottom ==> r.y == y,
        y + height > area.bottom && area.top + height <= area.bottom ==> r.y == area.bottom - height,
        area.top + height > area.bottom ==> r.y == area.top,
{
    RestoredWindowPosition {
        x: clamp_axis(x, area.left, area.right, width),
        y: clamp_axis(y, area.top, area.bottom, height),
        reset: false,
    }
}


/// A remembered position is kept only when the whole window lies inside the work
/// area it was found on, and then exactly; otherwise the window is centred in the
/// primary work area (aligned with its top-left corner when it is larger).
pub proof fn law_restore_keeps_only_fitting_positions(
    x: i32,
    y: i32,
    width: u32,
    height: u32,
    candidate: Option<WorkArea>,
    primary: WorkArea,
)
    ensures
        ({
            let r = restore_spec(x as int, y as int, width as int, height as int, candidate, primary);
            &&& !r.reset == (candidate matches Some(a) && x >= a.left && y >= a.top && x + width <= a.right
                && y + height <= a.bottom)
            &&& !r.reset ==> r.x == x && r.y == y
            &&& r.reset && primary.left + width <= primary.right ==> r.x - primary.left == (primary.right
                - primary.left - width) / 2
            &&& r.reset && primary.left + width > primary.right ==> r.x == primary.left
            &&& r.reset && primary.top + height <= primary.bottom ==> r.y - primary.top == (primary.bottom
                - primary.top - height) / 2
            &&& r.reset && primary.top + height > primary.bottom ==> r.y == primary.top
        }),
{
}

/// Clamping moves each coordinate as little as possible: one below the near edge
/// becomes the near edge, one that lets the window stick out past the far edge
/// becomes the far edge minus the size, one already inside is kept, and a window
/// larger than the area is aligned with the near edge.
pub proof fn law_clamp_moves_as_little_as_possible(x: i32, y: i32, width: u32, height: u32, area: WorkArea)
    ensures
        ({
            let r = clamp_spec(x as int, y as int, width as int, height as int, area);
            &&& !r.reset
            &&& x < area.left ==> r.x == area.left
            &&& area.left <= x && x + width <= area.right ==> r.x == x
            &&& x + width > area.right && area.left + width <= area.right ==> r.x == area.right - width
            &&& area.left + width > area.right ==> r.x == area.left
            &&& y < area.top ==> r.y == area.top
            &&& area.top <= y && y + height <= area.bottom ==> r.y == y
            &&& y + height > area.bottom && area.top + height <= area.bottom ==> r.y == area.bottom - height
            &&& area.top + height > area.bottom ==> r.y == area.top
        }),
{
}

/// `size` as an `i32`, capped at `i32::MAX`.
pub open spec fn size_as_i32(size: int) -> int {
    if size > i32::MAX { i32::MAX as int } else { size }
}

/// The screen rectangle covered by the window `(x, y, width, height)`; the far
/// edges saturate at `i32::MAX`.
pub open spec fn window_rect_spec(x: int, y: int, width: int, height: int) -> WorkArea {
    WorkArea {
        left: x as i32,
        top: y as i32,
        right: saturate_i32(x + size_as_i32(width)) as i32,
        bottom: saturate_i32(y + size_as_i32(height)) as i32,
    }
}

/// The screen rectangle covered by a window, used to find the monitor it is on.
pub fn window_rect(x: i32, y: i32, width: u32, height: u32) -> (r: WorkArea)
    ensures
        r == window_rect_spec(x as int, y as int, width as int, height as int),
{
    let w: i32 = if width > i32::MAX as u32 { i32::MAX } else { width as i32 };
    let h: i32 = if height > i32::MAX as u32 { i32::MAX } else { height as i32 };
    WorkArea {
        left: x,
        top: y,
        right: saturate_exec(x as i64 + w as i64),
        bottom: saturate_exec(y as i64 + h as i64),
    }
}

/// The centre of a window, saturated into `i32`: the point whose monitor a dragged
/// window is kept on.
pub fn window_center(x: i32, y: i32, width: u32, height: u32) -> (r: (i32, i32))
    ensures
        r.0 == saturate_i32(x + width / 2),
        r.1 == saturate_i32(y + height / 2),
{
    let cx: i64 = x as i64 + (width / 2) as i64;
    let cy: i64 = y as i64 + (height / 2) as i64;
    (saturate_exec(cx), saturate_exec(cy))
}

fn saturate_exec(v: i64) -> (r: i32)
    ensures
        r == saturate_i32(v as int),
{
    if v < i32::MIN as i64 {
        i32::MIN
    } else if v > i32::MAX as i64 {
        i32::MAX
    } else {
        v as i32
    }
}

/// `v / 2` rounded to the nearest integer, halves away from zero (as `f64::round`).
pub open spec fn round_half(v: int) -> int {
    if v >= 0 {
        (v + 1) / 2
    } else {
        -((-v + 1) / 2)
    }
}

fn round_half_exec(v: i64) -> (r: i64)
    requires
        -0x1000_0000_0000 <= v <= 0x1000_0000_0000,
    ensures
        r == round_half(v as int),
{
    if v >= 0 {
        (v + 1) / 2
    } else {
        -((-v + 1) / 2)
    }
}

/// Default window size of a mode: the compass, the settings page, or the ball.
pub open spec fn default_mode_size_spec(mode: Seq<char>) -> (u32, u32) {
    if mode == "compass"@ {
        (560, 630)
    } else if mode == "settings"@ {
        (1460, 760)
    } else {
        (88, 88)
    }
}

/// The default logical size of the main window in a mode.
pub fn default_mode_size(mode: &str) -> (r: (u32, u32))
    ensures
        r == default_mode_size_spec(mode@),
{
    if crate::text::str_eq(mode, "compass") {
        (560, 630)
    } else if crate::text::str_eq(mode, "settings") {
        (1460, 760)
    } else {
        (88, 88)
    }
}

/// Where the main window is centred when it changes mode, and what happens to the
/// remembered ball position.
#[derive(Clone, Copy, Debug, PartialEq, Eq)]
pub struct ModeTarget {
    /// The remembered ball position after this change starts.
    pub recorded_anchor: Option<(i32, i32)>,
    /// Forget the remembered ball position once the window is placed.
    pub clear_anchor_after: bool,
    /// Twice the coordinates of the centre the window is placed around.
    pub center2_x: i64,
    pub center2_y: i64,
    /// The point whose monitor the window goes on.
    pub probe_x: i32,
    pub probe_y: i32,
    /// The window must not take the focus (all modes but the settings page).
    pub no_activate: bool,
    /// The window takes the focus (the settings page).
    pub focus: bool,
}

/// The target of a mode change of a window at `(x, y)` of size `(w, h)`, with the
/// remembered ball position `anchor`.
pub open spec fn mode_target_spec(
    mode: Seq<char>,
    w: int,
    h: int,
    x: int,
    y: int,
    anchor: Option<(i32, i32)>,
) -> ModeTarget {
    let c2x = 2 * x + w;
    let c2y = 2 * y + h;
    let ball = mode == "ball"@;
    let recorded = if !ball && w <= 200 && h <= 200 {
        Some((saturate_i32(round_half(c2x)) as i32, saturate_i32(round_half(c2y)) as i32))
    } else {
        anchor
    };
    let (tx, ty) = match recorded {
        Some(a) => if ball {
            (2 * a.0, 2 * a.1)
        } else {
            (c2x, c2y)
        },
        None => (c2x, c2y),
    };
    ModeTarget {
        recorded_anchor: recorded,
        clear_anchor_after: ball,
        center2_x: tx as i64,
        center2_y: ty as i64,
        probe_x: saturate_i32(round_half(tx)) as i32,
        probe_y: saturate_i32(round_half(ty)) as i32,
        no_activate: mode != "settings"@,
        focus: mode == "settings"@,
    }
}

/// Prepares a mode change of the main window.  Leaving the small ball for a larger
/// mode remembers the ball's centre; returning to the ball centres it on the
/// remembered position (which is then forgotten); every other change keeps the
/// window's current centre.
pub fn mode_target(mode: &str, w: u32, h: u32, x: i32, y: i32, anchor: Option<(i32, i32)>) -> (r: ModeTarget)
    ensures
        r == mode_target_spec(mode@, w as int, h as int, x as int, y as int, anchor),
{
    let c2x: i64 = 2 * (x as i64) + w as i64;
    let c2y: i64 = 2 * (y as i64) + h as i64;
    let ball = crate::text::str_eq(mode, "ball");
    let settings = crate::text::str_eq(mode, "settings");
    let recorded = if !ball && w <= 200 && h <= 200 {
        Some((saturate_exec(round_half_exec(c2x)), saturate_exec(round_half_exec(c2y))))
    } else {
        anchor
    };
    let (tx, ty): (i64, i64) = match recorded {
        Some((ax, ay)) => if ball {
            (2 * (ax as i64), 2 * (ay as i64))
        } else {
            (c2x, c2y)
        },
        None => (c2x, c2y),
    };
    ModeTarget {
        recorded_anchor: recorded,
        clear_anchor_after: ball,
        center2_x: tx,
        center2_y: ty,
        probe_x: saturate_exec(round_half_exec(tx)),
        probe_y: saturate_exec(round_half_exec(ty)),
        no_activate: !settings,
        focus: settings,
    }
}

/// Position and physical size of the main window in its new mode.
#[derive(Clone, Copy, Debug, PartialEq, Eq)]
pub struct WindowLayout {
    pub x: i32,
    pub y: i32,
    pub width: u32,
    pub height: u32,
}

/// The size along one axis: the requested size, at most the span of the work area
/// (but that span counts as at least 44).
pub open spec fn fitted_size(requested: int, lo: int, hi: int) -> int {
    let span = if hi - lo > 44 { hi - lo } else { 44 };
    if requested < span { requested } else { span }
}

/// The leading coordinate along one axis: centred on the doubled centre `c2`, then
/// kept inside the work area.
pub open spec fn fitted_start(c2: int, size: int, lo: int, hi: int) -> int {
    clamp_int(saturate_i32(round_half(c2 - size)), lo, if hi - size > lo { hi - size } else { lo })
}

/// The arithmetic of the layout stays within `i32`.
pub open spec fn layout_in_range(requested_w: int, requested_h: int, work: WorkArea) -> bool {
    &&& i32::MIN <= work.right - work.left <= i32::MAX
    &&& i32::MIN <= work.bottom - work.top <= i32::MAX
    &&& i32::MIN <= work.right - fitted_size(requested_w, work.left as int, work.right as int) <= i32::MAX
    &&& i32::MIN <= work.bottom - fitted_size(requested_h, work.top as int, work.bottom as int) <= i32::MAX
}

pub open spec fn mode_layout_spec(requested_w: int, requested_h: int, c2x: int, c2y: int, work: WorkArea) -> WindowLayout {
    let pw = fitted_size(requested_w, work.left as int, work.right as int);
    let ph = fitted_size(requested_h, work.top as int, work.bottom as int);
    WindowLayout {
        x: fitted_start(c2x, pw, work.left as int, work.right as int) as i32,
        y: fitted_start(c2y, ph, work.top as int, work.bottom as int) as i32,
        width: (if pw > 44 { pw } else { 44 }) as u32,
        height: (if ph > 44 { ph } else { 44 }) as u32,
    }
}

fn fitted_axis(requested: i32, c2: i64, lo: i32, hi: i32) -> (r: (i32, i32))
    requires
        i32::MIN <= hi - lo <= i32::MAX,
        i32::MIN <= hi - fitted_size(requested as int, lo as int, hi as int) <= i32::MAX,
        -0x0800_0000_0000 <= c2 <= 0x0800_0000_0000,
    ensures
        r.0 == fitted_size(requested as int, lo as int, hi as int),
        r.1 == fitted_start(c2 as int, r.0 as int, lo as int, hi as int),
{
    let span = if hi - lo > 44 { hi - lo } else { 44 };
    let size = if requested < span { requested } else { span };
    let centered = saturate_exec(round_half_exec(c2 - size as i64));
    let end = hi - size;
    let max = if end > lo { end } else { lo };
    let start = if centered < lo {
        lo
    } else if centered > max {
        max
    } else {
        centered
    };
    (size, start)
}

/// Places the main window for its new mode: its physical size is the requested one
/// (`requested_w`, `requested_h`, already scaled and at least 44) limited to the work
/// area, it is centred on the doubled centre `(c2x, c2y)` (rounded half away from
/// zero) and then kept inside the work area.
pub fn mode_layout(requested_w: i32, requested_h: i32, c2x: i64, c2y: i64, work: WorkArea) -> (r: WindowLayout)
    requires
        layout_in_range(requested_w as int, requested_h as int, work),
        -0x0800_0000_0000 <= c2x <= 0x0800_0000_0000,
        -0x0800_0000_0000 <= c2y <= 0x0800_0000_0000,
    ensures
        r == mode_layout_spec(requested_w as int, requested_h as int, c2x as int, c2y as int, work),
{
    let (pw, x) = fitted_axis(requested_w, c2x, work.left, work.right);
    let (ph, y) = fitted_axis(requested_h, c2y, work.top, work.bottom);
    WindowLayout {
        x,
        y,
        width: if pw > 44 { pw as u32 } else { 44 },
        height: if ph > 44 { ph as u32 } else { 44 },
    }
}


/// A dragged window that fits in the work area ends up entirely inside it.
pub proof fn law_clamped_window_is_inside(x: i32, y: i32, width: u32, height: u32, area: WorkArea)
    requires
        width <= area.right - area.left,
        height <= area.bottom - area.top,
    ensures
        window_fits(
            clamp_spec(x as int, y as int, width as int, height as int, area).x as int,
            clamp_spec(x as int, y as int, width as int, height as int, area).y as int,
            width as int,
            height as int,
            area,
        ),
{
}

/// Clamping a clamped position changes nothing.
pub proof fn law_clamp_is_idempotent(x: i32, y: i32, width: u32, height: u32, area: WorkArea)
    ensures
        ({
            let p = clamp_spec(x as int, y as int, width as int, height as int, area);
            clamp_spec(p.x as int, p.y as int, width as int, height as int, area) == p
        }),
{
}

/// A window already inside the work area is not moved when dragged there.
pub proof fn law_clamp_keeps_valid_position(x: i32, y: i32, width: u32, height: u32, area: WorkArea)
    requires
        window_fits(x as int, y as int, width as int, height as int, area),
    ensures
        clamp_spec(x as int, y as int, width as int, height as int, area) == (RestoredWindowPosition {
            x,
            y,
            reset: false,
        }),
{
}

/// A remembered position whose window lies inside the work area of its monitor is
/// restored unchanged.
pub proof fn law_restore_keeps_valid_position(x: i32, y: i32, width: u32, height: u32, area: WorkArea, primary: WorkArea)
    requires
        window_fits(x as int, y as int, width as int, height as int, area),
    ensures
        restore_spec(x as int, y as int, width as int, height as int, Some(area), primary) == (
        RestoredWindowPosition { x, y, reset: false }),
{
}

/// When the window fits on the primary work area, a position that had to be reset
/// lies inside it, so restoring that position on the next start keeps it.
pub proof fn law_reset_position_is_stable(
    x: i32,
    y: i32,
    width: u32,
    height: u32,
    candidate: Option<WorkArea>,
    primary: WorkArea,
)
    requires
        width <= primary.right - primary.left,
        height <= primary.bottom - primary.top,
    ensures
        ({
            let p = restore_spec(x as int, y as int, width as int, height as int, candidate, primary);
            p.reset ==> {
                &&& window_fits(p.x as int, p.y as int, width as int, height as int, primary)
                &&& restore_spec(p.x as int, p.y as int, width as int, height as int, Some(primary), primary)
                    == (RestoredWindowPosition { x: p.x, y: p.y, reset: false })
            }
        }),
{
    let room_x = primary.right - primary.left - width;
    let room_y = primary.bottom - primary.top - height;
    assert(0 <= room_x / 2 <= room_x);
    assert(0 <= room_y / 2 <= room_y);
}

/// After a mode change the window lies inside the work area, whenever the work area
/// is at least 44 pixels wide and high and the requested size is at least 44.
pub proof fn law_mode_layout_is_inside(requested_w: i32, requested_h: i32, c2x: i64, c2y: i64, work: WorkArea)
    requires
        requested_w >= 44,
        requested_h >= 44,
        work.right - work.left >= 44,
        work.bottom - work.top >= 44,
    ensures
        ({
            let l = mode_layout_spec(requested_w as int, requested_h as int, c2x as int, c2y as int, work);
            window_fits(l.x as int, l.y as int, l.width as int, l.height as int, work)
        }),
{
}


/// After a mode change the window has the requested size whenever it fits in the
/// work area, and it is centred on the requested centre (to within half a pixel:
/// `c2x` is twice the centre) unless that would put it partly outside the work area.
/// A window wider or taller than the work area gets the work area's size and its
/// near edge.
pub proof fn law_mode_layout_is_centred(requested_w: i32, requested_h: i32, c2x: i64, c2y: i64, work: WorkArea)
    requires
        requested_w >= 44,
        requested_h >= 44,
        work.right - work.left >= 44,
        work.bottom - work.top >= 44,
        -0x0800_0000_0000 <= c2x <= 0x0800_0000_0000,
        -0x0800_0000_0000 <= c2y <= 0x0800_0000_0000,
    ensures
        ({
            let l = mode_layout_spec(requested_w as int, requested_h as int, c2x as int, c2y as int, work);
            &&& requested_w <= work.right - work.left ==> l.width == requested_w
            &&& requested_w > work.right - work.left ==> l.width == work.right - work.left && l.x == work.left
            &&& requested_h <= work.bottom - work.top ==> l.height == requested_h
            &&& requested_h > work.bottom - work.top ==> l.height == work.bottom - work.top && l.y == work.top
            &&& requested_w <= work.right - work.left && 2 * work.left + 1 <= c2x - requested_w && c2x
                - requested_w + 1 <= 2 * (work.right - requested_w) ==> -1 <= 2 * l.x + l.width - c2x <= 1
            &&& requested_h <= work.bottom - work.top && 2 * work.top + 1 <= c2y - requested_h && c2y
                - requested_h + 1 <= 2 * (work.bottom - requested_h) ==> -1 <= 2 * l.y + l.height - c2y <= 1
        }),
{
}

} // verus!
