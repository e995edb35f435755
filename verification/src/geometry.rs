//! Screen and client coordinates: rectangles, points, clamping and the
//! decoding of packed mouse coordinates.
use vstd::prelude::*;

verus! {

/// A rectangle with exclusive right and bottom edges.
#[derive(Clone, Copy, Debug, PartialEq, Eq, Structural)]
pub struct Rect {
    pub left: i32,
    pub top: i32,
    pub right: i32,
    pub bottom: i32,
}

/// A point.
#[derive(Clone, Copy, Debug, PartialEq, Eq, Structural)]
pub struct Point {
    pub x: i32,
    pub y: i32,
}

/// Integer division rounding toward zero, as Rust's `/` does.
pub open spec fn tdiv(a: int, b: int) -> int {
    if a >= 0 {
        a / b
    } else {
        -((-a) / b)
    }
}

/// Whether a value fits an `i32`.
pub open spec fn fits_i32(v: int) -> bool {
    i32::MIN <= v <= i32::MAX
}

/// `v` limited to the `i32` range, as the saturating operations give it.
pub open spec fn saturate(v: int) -> int {
    if v > i32::MAX {
        i32::MAX as int
    } else if v < i32::MIN {
        i32::MIN as int
    } else {
        v
    }
}

/// `i32::saturating_add`.
pub fn sat_add(a: i32, b: i32) -> (r: i32)
    ensures
        r == saturate(a + b),
{
    let s = a as i64 + b as i64;
    if s > i32::MAX as i64 {
        i32::MAX
    } else if s < i32::MIN as i64 {
        i32::MIN
    } else {
        s as i32
    }
}

/// `i32::saturating_sub`.
pub fn sat_sub(a: i32, b: i32) -> (r: i32)
    ensures
        r == saturate(a - b),
{
    let s = a as i64 - b as i64;
    if s > i32::MAX as i64 {
        i32::MAX
    } else if s < i32::MIN as i64 {
        i32::MIN
    } else {
        s as i32
    }
}

/// `i32::max`.
pub open spec fn max_i(a: int, b: int) -> int {
    if a >= b {
        a
    } else {
        b
    }
}

/// `i32::min`.
pub open spec fn min_i(a: int, b: int) -> int {
    if a <= b {
        a
    } else {
        b
    }
}

/// `v.clamp(lo, hi)` for `lo <= hi`.
pub open spec fn clamp_spec(v: int, lo: int, hi: int) -> int {
    if v < lo {
        lo
    } else if v > hi {
        hi
    } else {
        v
    }
}

/// `i32::clamp` (the standard library panics when `lo > hi`).
pub fn clamp_i32(v: i32, lo: i32, hi: i32) -> (r: i32)
    requires
        lo <= hi,
    ensures
        r == clamp_spec(v as int, lo as int, hi as int),
        lo <= r <= hi,
{
    if v < lo {
        lo
    } else if v > hi {
        hi
    } else {
        v
    }
}

/// The point lies inside the rectangle.
pub open spec fn contains_spec(rect: Rect, x: int, y: int) -> bool {
    rect.left <= x < rect.right && rect.top <= y < rect.bottom
}

/// Whether the point lies inside the rectangle.
pub fn rect_contains(rect: Rect, x: i32, y: i32) -> (r: bool)
    ensures
        r == contains_spec(rect, x as int, y as int),
{
    x >= rect.left && x < rect.right && y >= rect.top && y < rect.bottom
}

/// A rectangle with positive width and height.
pub open spec fn usable_spec(rect: Rect) -> bool {
    rect.right > rect.left && rect.bottom > rect.top
}

/// Whether the rectangle has positive width and height.
pub fn rect_is_usable(rect: Rect) -> (r: bool)
    ensures
        r == usable_spec(rect),
{
    rect.right > rect.left && rect.bottom > rect.top
}

/// A 16-bit word read as a signed value.
pub open spec fn signed_word(w: int) -> int {
    if w >= 0x8000 {
        w - 0x10000
    } else {
        w
    }
}

/// The signed x (low word) and y (high word) packed in a mouse message's
/// `LPARAM`.
pub open spec fn lparam_point(lparam: isize) -> (int, int) {
    let bits = lparam as u32;
    (signed_word((bits % 0x10000) as int), signed_word((bits / 0x10000) as int))
}

fn signed_word_exec(w: u32) -> (r: i32)
    requires
        w < 0x10000,
    ensures
        r == signed_word(w as int),
{
    if w >= 0x8000 {
        w as i32 - 0x10000
    } else {
        w as i32
    }
}

/// Decodes the signed client or screen coordinates of a mouse message.
pub fn point_from_lparam(lparam: isize) -> (r: (i32, i32))
    ensures
        r.0 == lparam_point(lparam).0,
        r.1 == lparam_point(lparam).1,
{
    let bits = lparam as u32;
    let low = bits & 0xffff;
    let high = (bits >> 16) & 0xffff;
    assert(low == bits % 0x10000 && high == bits / 0x10000) by (bit_vector)
        requires
            low == bits & 0xffff,
            high == (bits >> 16) & 0xffff,
    ;
    (signed_word_exec(low), signed_word_exec(high))
}

/// The clamped position of a `width` x `height` window kept `gap` pixels
/// inside the work area: each coordinate is limited to
/// `[edge + gap, far edge - size - gap]`, the upper bound never below the
/// lower (all with saturating arithmetic).
pub open spec fn work_area_bounds(width: int, height: int, work: Rect, gap: int) -> (
    int,
    int,
    int,
    int,
) {
    let min_x = saturate(work.left + gap);
    let min_y = saturate(work.top + gap);
    let max_x = max_i(saturate(saturate(work.right - width) - gap), min_x);
    let max_y = max_i(saturate(saturate(work.bottom - height) - gap), min_y);
    (min_x, min_y, max_x, max_y)
}

/// `clamp_to_work_area`.
pub open spec fn clamp_to_work_area_spec(x: int, y: int, width: int, height: int, work: Rect, gap: int) -> (
    int,
    int,
) {
    let b = work_area_bounds(width, height, work, gap);
    (clamp_spec(x, b.0, b.2), clamp_spec(y, b.1, b.3))
}

/// Keeps a window position inside the monitor work area (see
/// `clamp_to_work_area_spec`).
pub fn clamp_to_work_area(x: &mut i32, y: &mut i32, width: i32, height: i32, work: Rect, gap: i32)
    ensures
        (*final(x) as int, *final(y) as int) == clamp_to_work_area_spec(
            *old(x) as int,
            *old(y) as int,
            width as int,
            height as int,
            work,
            gap as int,
        ),
{
    let min_x = sat_add(work.left, gap);
    let min_y = sat_add(work.top, gap);
    let mx = sat_sub(sat_sub(work.right, width), gap);
    let my = sat_sub(sat_sub(work.bottom, height), gap);
    let max_x = if mx >= min_x {
        mx
    } else {
        min_x
    };
    let max_y = if my >= min_y {
        my
    } else {
        min_y
    };
    *x = clamp_i32(*x, min_x, max_x);
    *y = clamp_i32(*y, min_y, max_y);
}


/// A window that fits in the work area (gap included on both sides) ends
/// up inside it after clamping, and a window already inside stays put.
pub proof fn lemma_clamp_inside(x: int, y: int, width: int, height: int, work: Rect, gap: int)
    requires
        0 <= gap,
        0 <= width,
        0 <= height,
        fits_i32(work.left + gap),
        fits_i32(work.top + gap),
        fits_i32(work.right - width),
        fits_i32(work.bottom - height),
        fits_i32(work.right - width - gap),
        fits_i32(work.bottom - height - gap),
        work.left + gap + width + gap <= work.right,
        work.top + gap + height + gap <= work.bottom,
    ensures
        ({
            let p = clamp_to_work_area_spec(x, y, width, height, work, gap);
            &&& work.left + gap <= p.0 && p.0 + width + gap <= work.right
            &&& work.top + gap <= p.1 && p.1 + height + gap <= work.bottom
            &&& (work.left + gap <= x && x + width + gap <= work.right) ==> p.0 == x
            &&& (work.top + gap <= y && y + height + gap <= work.bottom) ==> p.1 == y
        }),
{
}

} // verus!
