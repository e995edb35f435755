//! Geometry of small frameless utility windows: the rounded shape, the
//! drag hit test and the placements (over the owner, above the taskbar,
//! above the tray icon, next to a caret), each kept inside the monitor's
//! work area. The operating system supplies the rectangles; what is done
//! with them is here.
use vstd::prelude::*;
use crate::geometry::{
    Point, Rect, clamp_to_work_area, clamp_to_work_area_spec, fits_i32, sat_add, saturate, tdiv,
    usable_spec, rect_is_usable,
};
/// Frameless windows read the mouse position of a hit-test message with it.
pub use crate::geometry::point_from_lparam;

verus! {

/// `HTCLIENT`: the point belongs to a control.
pub const HIT_CLIENT: isize = 1;

/// `HTCAPTION`: the point drags the window.
pub const HIT_CAPTION: isize = 2;

/// Size and corner radius of a frameless window.
#[derive(Clone, Copy, Debug, PartialEq, Eq, Structural)]
pub struct NativeWindowBase {
    pub width: i32,
    pub height: i32,
    pub radius: i32,
}

/// The start coordinate that centres `size` within `[lo, hi)`.
pub open spec fn centered_start_spec(lo: int, hi: int, size: int) -> int {
    lo + tdiv((hi - lo) - size, 2)
}

/// No step of `centered_start_spec` leaves the `i32` range.
pub open spec fn centering_fits(lo: int, hi: int, size: int) -> bool {
    fits_i32(hi - lo) && fits_i32((hi - lo) - size) && fits_i32(centered_start_spec(lo, hi, size))
}

fn centered_start(lo: i32, hi: i32, size: i32) -> (r: i32)
    requires
        centering_fits(lo as int, hi as int, size as int),
    ensures
        r == centered_start_spec(lo as int, hi as int, size as int),
{
    lo + ((hi - lo) - size) / 2
}

/// The unclamped position `centered_on_owner` starts from: centred on a
/// usable owner rectangle, else on the work area.
pub open spec fn centered_origin(base: NativeWindowBase, owner: Option<Rect>, work: Rect) -> (int, int) {
    match owner {
        Some(o) if usable_spec(o) => (
            centered_start_spec(o.left as int, o.right as int, base.width as int),
            centered_start_spec(o.top as int, o.bottom as int, base.height as int),
        ),
        _ => (
            centered_start_spec(work.left as int, work.right as int, base.width as int),
            centered_start_spec(work.top as int, work.bottom as int, base.height as int),
        ),
    }
}

/// The centring arithmetic of `centered_on_owner` stays in range.
pub open spec fn centered_fits(base: NativeWindowBase, owner: Option<Rect>, work: Rect) -> bool {
    match owner {
        Some(o) if usable_spec(o) => centering_fits(o.left as int, o.right as int, base.width as int)
            && centering_fits(o.top as int, o.bottom as int, base.height as int),
        _ => centering_fits(work.left as int, work.right as int, base.width as int)
            && centering_fits(work.top as int, work.bottom as int, base.height as int),
    }
}

/// The position of a point-anchored popup before clamping (`near_anchor`):
/// `gap` below the anchor, or above it when it would cross the bottom of the
/// work area.
pub open spec fn near_anchor_origin(base: NativeWindowBase, anchor: Point, work: Rect, gap: int) -> (
    int,
    int,
) {
    let below = anchor.y + gap;
    if below + base.height > work.bottom {
        (anchor.x as int, anchor.y - base.height - gap)
    } else {
        (anchor.x as int, below)
    }
}

/// The work area `near_anchor` uses when the monitor has none.
pub open spec fn anchor_fallback_work(base: NativeWindowBase, anchor: Point) -> Rect {
    Rect {
        left: 0,
        top: 0,
        right: (anchor.x + base.width) as i32,
        bottom: (anchor.y + base.height) as i32,
    }
}

impl NativeWindowBase {
    /// A window base of the given size and corner radius.
    pub fn new(width: i32, height: i32, radius: i32) -> (r: NativeWindowBase)
        ensures
            r == (NativeWindowBase { width, height, radius }),
    {
        NativeWindowBase { width, height, radius }
    }

    /// The far corner of the rounded window region, one pixel beyond the
    /// window (saturating).
    pub fn rounding_extent(self) -> (r: (i32, i32))
        ensures
            r.0 == saturate(self.width + 1),
            r.1 == saturate(self.height + 1),
    {
        (sat_add(self.width, 1), sat_add(self.height, 1))
    }

    /// The answer to `WM_NCHITTEST` for a client point: none outside the
    /// window (or when the point could not be converted), the client area
    /// for points `is_interactive` claims, the caption (drag) elsewhere.
    pub fn drag_hit_test<F: FnOnce(i32, i32) -> bool>(
        self,
        client: Option<Point>,
        is_interactive: F,
    ) -> (r: Option<isize>)
        requires
            forall|x: i32, y: i32| is_interactive.requires((x, y)),
        ensures
            match client {
                Some(p) if 0 <= p.x < self.width && 0 <= p.y < self.height => exists|b: bool|
                    is_interactive.ensures((p.x, p.y), b) && r == Some(
                        if b {
                            HIT_CLIENT
                        } else {
                            HIT_CAPTION
                        },
                    ),
                _ => r.is_none(),
            },
    {
        let p = match client {
            Some(p) => p,
            None => {
                return None;
            },
        };
        if !(0 <= p.x && p.x < self.width) || !(0 <= p.y && p.y < self.height) {
            return None;
        }
        let b = is_interactive(p.x, p.y);
        Some(
            if b {
                HIT_CLIENT
            } else {
                HIT_CAPTION
            },
        )
    }

    /// Centres the window over a usable owner rectangle (else over the work
    /// area) and keeps it `gap` pixels inside the work area.
    pub fn centered_on_owner(self, owner: Option<Rect>, work: Rect, gap: i32) -> (r: (i32, i32))
        requires
            centered_fits(self, owner, work),
        ensures
            (r.0 as int, r.1 as int) == clamp_to_work_area_spec(
                centered_origin(self, owner, work).0,
                centered_origin(self, owner, work).1,
                self.width as int,
                self.height as int,
                work,
                gap as int,
            ),
    {
        let (mut x, mut y) = match owner {
            Some(o) if rect_is_usable(o) => (
                centered_start(o.left, o.right, self.width),
                centered_start(o.top, o.bottom, self.height),
            ),
            _ => (
                centered_start(work.left, work.right, self.width),
                centered_start(work.top, work.bottom, self.height),
            ),
        };
        clamp_to_work_area(&mut x, &mut y, self.width, self.height, work, gap);
        (x, y)
    }

    /// Tray-click placement: centred horizontally on the cursor, resting
    /// `gap` pixels above the bottom of the work area, then clamped.
    pub fn above_taskbar_at_cursor(self, cursor: Point, work: Rect, gap: i32) -> (r: (i32, i32))
        requires
            fits_i32(cursor.x - tdiv(self.width as int, 2)),
            fits_i32(work.bottom - self.height),
            fits_i32(work.bottom - self.height - gap),
        ensures
            (r.0 as int, r.1 as int) == clamp_to_work_area_spec(
                cursor.x - tdiv(self.width as int, 2),
                work.bottom - self.height - gap,
                self.width as int,
                self.height as int,
                work,
                gap as int,
            ),
    {
        let mut x = cursor.x - self.width / 2;
        let mut y = work.bottom - self.height - gap;
        clamp_to_work_area(&mut x, &mut y, self.width, self.height, work, gap);
        (x, y)
    }

    /// The centre of a notification-icon rectangle.
    pub fn tray_icon_center(icon: Rect) -> (r: Point)
        requires
            fits_i32(icon.right - icon.left),
            fits_i32(icon.bottom - icon.top),
        ensures
            r.x == icon.left + tdiv(icon.right - icon.left, 2),
            r.y == icon.top + tdiv(icon.bottom - icon.top, 2),
    {
        let x = icon.left as i64 + ((icon.right - icon.left) / 2) as i64;
        let y = icon.top as i64 + ((icon.bottom - icon.top) / 2) as i64;
        assert(fits_i32(x as int) && fits_i32(y as int)) by {
            if icon.right >= icon.left {
            } else {
            }
        }
        Point { x: x as i32, y: y as i32 }
    }

    /// Hotkey fallback placement above the notification icon: none when
    /// the icon rectangle is unusable or its monitor has no work area;
    /// otherwise centred on the icon, `gap` above the bottom of the work
    /// area, clamped.
    pub fn above_tray_icon(self, icon: Rect, work: Option<Rect>, gap: i32) -> (r: Option<(i32, i32)>)
        requires
            fits_i32(icon.right - icon.left),
            fits_i32(icon.bottom - icon.top),
            fits_i32(icon.left + tdiv(icon.right - icon.left, 2) - tdiv(self.width as int, 2)),
            work matches Some(w) ==> fits_i32(w.bottom - self.height) && fits_i32(
                w.bottom - self.height - gap,
            ),
        ensures
            !usable_spec(icon) || work.is_none() ==> r.is_none(),
            usable_spec(icon) && work.is_some() ==> r.is_some() && ({
                let w = work.unwrap();
                let c = icon.left + tdiv(icon.right - icon.left, 2);
                (r.unwrap().0 as int, r.unwrap().1 as int) == clamp_to_work_area_spec(
                    c - tdiv(self.width as int, 2),
                    w.bottom - self.height - gap,
                    self.width as int,
                    self.height as int,
                    w,
                    gap as int,
                )
            }),
    {
        if !rect_is_usable(icon) {
            return None;
        }
        let center = Self::tray_icon_center(icon);
        let w = match work {
            Some(w) => w,
            None => {
                return None;
            },
        };
        let mut x = center.x - self.width / 2;
        let mut y = w.bottom - self.height - gap;
        clamp_to_work_area(&mut x, &mut y, self.width, self.height, w, gap);
        Some((x, y))
    }

    /// Places a popup next to an anchor such as a text caret: `gap` below
    /// it, or above it when it would cross the bottom of the work area, then
    /// clamped to the work area (or to the anchor-sized fallback area).
    pub fn near_anchor(self, anchor: Point, work: Option<Rect>, gap: i32) -> (r: (i32, i32))
        requires
            work.is_none() ==> fits_i32(anchor.x + self.width) && fits_i32(anchor.y + self.height),
            fits_i32(anchor.y + gap),
            fits_i32(anchor.y + gap + self.height),
            fits_i32(anchor.y - self.height),
            fits_i32(anchor.y - self.height - gap),
        ensures
            ({
                let w = match work {
                    Some(w) => w,
                    None => anchor_fallback_work(self, anchor),
                };
                let o = near_anchor_origin(self, anchor, w, gap as int);
                (r.0 as int, r.1 as int) == clamp_to_work_area_spec(
                    o.0,
                    o.1,
                    self.width as int,
                    self.height as int,
                    w,
                    0,
                )
            }),
    {
        let w = match work {
            Some(w) => w,
            None => Rect {
                left: 0,
                top: 0,
                right: anchor.x + self.width,
                bottom: anchor.y + self.height,
            },
        };
        let mut x = anchor.x;
        let mut y = anchor.y + gap;
        if y + self.height > w.bottom {
            y = anchor.y - self.height - gap;
        }
        clamp_to_work_area(&mut x, &mut y, self.width, self.height, w, 0);
        (x, y)
    }
}

} // verus!
