//! The large preview beside the picker: how its text is normalised, how
//! big the window and the font become, where the window goes and where
//! the text is drawn. Text measurement itself is done by GDI; the decisions
//! around each measurement are here.
use vstd::prelude::*;
use crate::geometry::{Rect, clamp_i32, clamp_spec, fits_i32, max_i, min_i, saturate, tdiv};
use crate::model::ItemKind;
use crate::text::{
    chars_eq, chars_of, collapse_crlf, collapse_crlf_chars, is_blank, is_blank_chars, replace_char,
    replace_char_spec, split_newlines, split_nl, string_from_chars,
};

verus! {

pub const RADIUS: i32 = 18;
pub const PAD: i32 = 18;
pub const MIN_W: i32 = 96;
pub const MIN_H: i32 = 72;
pub const WINDOW_GAP: i32 = 10;

/// The preview's size and font.
#[derive(Clone, Copy, Debug, PartialEq, Eq, Structural)]
pub struct PreviewLayout {
    pub width: i32,
    pub height: i32,
    pub font_px: i32,
}

/// Line endings unified to `'\n'` and tabs expanded to four spaces.
pub open spec fn normalize_spec(content: Seq<char>) -> Seq<char> {
    replace_char_spec(
        replace_char_spec(collapse_crlf(content), '\r', seq!['\n']),
        '\t',
        seq![' ', ' ', ' ', ' '],
    )
}

fn normalize_chars(content: &Vec<char>) -> (r: Vec<char>)
    ensures
        r@ == normalize_spec(content@),
{
    let unified = collapse_crlf_chars(content);
    let mut newline: Vec<char> = Vec::new();
    newline.push('\n');
    let mut spaces: Vec<char> = Vec::new();
    spaces.push(' ');
    spaces.push(' ');
    spaces.push(' ');
    spaces.push(' ');
    assert(newline@ =~= seq!['\n']);
    assert(spaces@ =~= seq![' ', ' ', ' ', ' ']);
    let lines = replace_char(&unified, '\r', &newline);
    replace_char(&lines, '\t', &spaces)
}

/// See `normalize_spec`.
pub fn normalize_content(content: &str) -> (r: String)
    ensures
        r@ == normalize_spec(content@),
{
    string_from_chars(&normalize_chars(&chars_of(content)))
}

/// The longest line of `lines`, in characters.
pub open spec fn longest_line(lines: Seq<Seq<char>>) -> int
    decreases lines.len(),
{
    if lines.len() == 0 {
        0
    } else {
        max_i(longest_line(lines.drop_last()), lines.last().len() as int)
    }
}

/// The size guessed when no device context is available: half the font
/// size per character of the longest line, font size plus five per line,
/// at least one pixel each way.
pub open spec fn approximate_spec(content: Seq<char>, font_px: int) -> (int, int) {
    let lines = split_nl(normalize_spec(content));
    let columns = longest_line(lines);
    (max_i(tdiv(columns * font_px, 2), 1), max_i(max_i(lines.len() as int, 1) * (font_px + 5), 1))
}

/// The arithmetic of `approximate_spec` stays in range.
pub open spec fn approximate_fits(content: Seq<char>, font_px: int) -> bool {
    let lines = split_nl(normalize_spec(content));
    &&& lines.len() <= i32::MAX
    &&& longest_line(lines) <= i32::MAX
    &&& fits_i32(longest_line(lines) * font_px)
    &&& fits_i32(font_px + 5)
    &&& fits_i32(max_i(lines.len() as int, 1) * (font_px + 5))
}

/// See `approximate_spec`.
pub fn approximate_measure(content: &str, font_px: i32) -> (r: (i32, i32))
    requires
        approximate_fits(content@, font_px as int),
    ensures
        (r.0 as int, r.1 as int) == approximate_spec(content@, font_px as int),
{
    let normalized = normalize_chars(&chars_of(content));
    let lines = split_newlines(&normalized);
    let ghost all = split_nl(normalized@);
    let mut columns: usize = 0;
    let mut i: usize = 0;
    while i < lines.len()
        invariant
            i <= lines@.len(),
            lines@.len() == all.len(),
            forall|k: int| 0 <= k < lines@.len() ==> #[trigger] lines@[k]@ == all[k],
            columns == longest_line(all.take(i as int)),
        decreases lines.len() - i,
    {
        proof {
            assert(all.take(i as int + 1).drop_last() =~= all.take(i as int));
        }
        let n = lines[i].len();
        if n > columns {
            columns = n;
        }
        i += 1;
    }
    proof {
        assert(all.take(all.len() as int) =~= all);
    }
    let columns = columns as i32;
    let count = if lines.len() >= 1 {
        lines.len() as i32
    } else {
        1
    };
    let w = columns * font_px / 2;
    let h = count * (font_px + 5);
    (
        if w >= 1 {
            w
        } else {
            1
        },
        if h >= 1 {
            h
        } else {
            1
        },
    )
}

/// How the preview is sized for a kind: emoji at a fixed size, symbols,
/// kaomoji and ASCII art measured on exact lines, text wrapped, each
/// shrinking the font from `start` down to `min` pixels until it fits.
#[derive(Clone, Copy, Debug, PartialEq, Eq, Structural)]
pub enum FitPlan {
    Fixed(PreviewLayout),
    Exact { start: i32, min: i32 },
    Wrapped { start: i32, min: i32 },
}

/// The largest preview size: the work area less 24 pixels, but never
/// below the minimum window size.
pub open spec fn max_size_spec(work: Rect) -> (int, int) {
    (max_i(work.right - work.left - 24, MIN_W as int), max_i(work.bottom - work.top - 24, MIN_H as int))
}

/// See `max_size_spec`.
pub fn max_preview_size(work: Rect) -> (r: (i32, i32))
    requires
        fits_i32(work.right - work.left),
        fits_i32(work.bottom - work.top),
        fits_i32(work.right - work.left - 24),
        fits_i32(work.bottom - work.top - 24),
    ensures
        (r.0 as int, r.1 as int) == max_size_spec(work),
{
    let w = work.right - work.left - 24;
    let h = work.bottom - work.top - 24;
    (
        if w >= MIN_W {
            w
        } else {
            MIN_W
        },
        if h >= MIN_H {
            h
        } else {
            MIN_H
        },
    )
}

/// The sizing plan of `measure_layout` for a kind.
pub open spec fn fit_plan_spec(kind: ItemKind, max_w: int, max_h: int) -> FitPlan {
    match kind {
        ItemKind::Emoji => FitPlan::Fixed(
            PreviewLayout { width: min_i(132, max_w) as i32, height: min_i(132, max_h) as i32, font_px: 72 },
        ),
        ItemKind::Symbol => FitPlan::Exact { start: 52, min: 22 },
        ItemKind::Kaomoji => FitPlan::Exact { start: 26, min: 12 },
        ItemKind::Ascii => FitPlan::Exact { start: 18, min: 7 },
        ItemKind::Snippet => FitPlan::Wrapped { start: 19, min: 11 },
    }
}

/// See `fit_plan_spec`.
pub fn fit_plan(kind: ItemKind, max_w: i32, max_h: i32) -> (r: FitPlan)
    ensures
        r == fit_plan_spec(kind, max_w as int, max_h as int),
{
    match kind {
        ItemKind::Emoji => FitPlan::Fixed(
            PreviewLayout {
                width: if max_w < 132 {
                    max_w
                } else {
                    132
                },
                height: if max_h < 132 {
                    max_h
                } else {
                    132
                },
                font_px: 72,
            },
        ),
        ItemKind::Symbol => FitPlan::Exact { start: 52, min: 22 },
        ItemKind::Kaomoji => FitPlan::Exact { start: 26, min: 12 },
        ItemKind::Ascii => FitPlan::Exact { start: 18, min: 7 },
        ItemKind::Snippet => FitPlan::Wrapped { start: 19, min: 11 },
    }
}

/// One step of the shrinking loop: the window the content needs at
/// `font_px` (content plus padding, at least the minimum size), accepted
/// when it fits or the font cannot shrink further, limited to the maximum
/// size. `None` means: try one pixel smaller.
pub open spec fn fit_step_spec(
    font_px: int,
    content_w: int,
    content_h: int,
    min_px: int,
    max_w: int,
    max_h: int,
) -> Option<PreviewLayout> {
    let wanted_w = max_i(content_w + PAD * 2, MIN_W as int);
    let wanted_h = max_i(content_h + PAD * 2, MIN_H as int);
    if (wanted_w <= max_w && wanted_h <= max_h) || font_px <= min_px {
        Some(
            PreviewLayout {
                width: min_i(wanted_w, max_w) as i32,
                height: min_i(wanted_h, max_h) as i32,
                font_px: font_px as i32,
            },
        )
    } else {
        None
    }
}

/// See `fit_step_spec`.
pub fn fit_step(
    font_px: i32,
    content_w: i32,
    content_h: i32,
    min_px: i32,
    max_w: i32,
    max_h: i32,
) -> (r: Option<PreviewLayout>)
    requires
        fits_i32(content_w + PAD * 2),
        fits_i32(content_h + PAD * 2),
    ensures
        r == fit_step_spec(
            font_px as int,
            content_w as int,
            content_h as int,
            min_px as int,
            max_w as int,
            max_h as int,
        ),
{
    let ww = content_w + PAD * 2;
    let wh = content_h + PAD * 2;
    let wanted_w = if ww >= MIN_W {
        ww
    } else {
        MIN_W
    };
    let wanted_h = if wh >= MIN_H {
        wh
    } else {
        MIN_H
    };
    if (wanted_w <= max_w && wanted_h <= max_h) || font_px <= min_px {
        Some(
            PreviewLayout {
                width: if wanted_w <= max_w {
                    wanted_w
                } else {
                    max_w
                },
                height: if wanted_h <= max_h {
                    wanted_h
                } else {
                    max_h
                },
                font_px,
            },
        )
    } else {
        None
    }
}

/// The shrinking search ends: every step at or below the smallest font
/// accepts. A step accepted above it takes the wanted size unchanged, which
/// fits the maximum size, at that font size.
pub proof fn lemma_fit_step_fits(
    font_px: int,
    content_w: int,
    content_h: int,
    min_px: int,
    max_w: int,
    max_h: int,
)
    requires
        fits_i32(font_px),
        fits_i32(content_w + PAD * 2),
        fits_i32(content_h + PAD * 2),
    ensures
        font_px <= min_px ==> fit_step_spec(font_px, content_w, content_h, min_px, max_w, max_h).is_some(),
        (font_px > min_px && fit_step_spec(font_px, content_w, content_h, min_px, max_w, max_h).is_some())
            ==> ({
            let l = fit_step_spec(font_px, content_w, content_h, min_px, max_w, max_h).unwrap();
            &&& l.width == max_i(content_w + PAD * 2, MIN_W as int) <= max_w
            &&& l.height == max_i(content_h + PAD * 2, MIN_H as int) <= max_h
            &&& l.font_px == font_px
        }),
{
}

/// The wrapping width for text: its natural width, at least 180 and at
/// most 640 pixels, and no wider than the maximum window allows (less
/// padding, at least 80).
pub open spec fn wrap_width_spec(natural_w: int, max_w: int) -> int {
    min_i(min_i(max_i(natural_w, 180), 640), max_i(max_w - PAD * 2, 80))
}

/// See `wrap_width_spec`.
pub fn wrap_width(natural_w: i32, max_w: i32) -> (r: i32)
    requires
        fits_i32(max_w - PAD * 2),
    ensures
        r == wrap_width_spec(natural_w as int, max_w as int),
{
    let a = if natural_w >= 180 {
        natural_w
    } else {
        180
    };
    let b = if a <= 640 {
        a
    } else {
        640
    };
    let m = max_w - PAD * 2;
    let c = if m >= 80 {
        m
    } else {
        80
    };
    if b <= c {
        b
    } else {
        c
    }
}

/// Clamps a window position so the window lies in the work area as far
/// as it can (`clamp_xy`).
pub open spec fn clamp_xy_spec(x: int, y: int, width: int, height: int, work: Rect) -> (int, int) {
    (
        clamp_spec(x, work.left as int, max_i(work.right - width, work.left as int)),
        clamp_spec(y, work.top as int, max_i(work.bottom - height, work.top as int)),
    )
}

/// See `clamp_xy_spec`.
pub fn clamp_xy(x: &mut i32, y: &mut i32, width: i32, height: i32, work: Rect)
    requires
        fits_i32(work.right - width),
        fits_i32(work.bottom - height),
    ensures
        (*final(x) as int, *final(y) as int) == clamp_xy_spec(
            *old(x) as int,
            *old(y) as int,
            width as int,
            height as int,
            work,
        ),
{
    let mx = work.right - width;
    let my = work.bottom - height;
    let max_x = if mx >= work.left {
        mx
    } else {
        work.left
    };
    let max_y = if my >= work.top {
        my
    } else {
        work.top
    };
    *x = clamp_i32(*x, work.left, max_x);
    *y = clamp_i32(*y, work.top, max_y);
}

/// The preview's position before clamping: right of the owner when it
/// fits there, else left of it, else centred on it; vertically centred on
/// the owner. Without an owner it is centred on the work area.
pub open spec fn next_to_owner_spec(owner: Option<Rect>, work: Rect, width: int, height: int) -> (int, int) {
    match owner {
        None => (
            work.left + max_i(tdiv(work.right - work.left - width, 2), 0),
            work.top + max_i(tdiv(work.bottom - work.top - height, 2), 0),
        ),
        Some(o) => {
            let right_x = o.right + WINDOW_GAP;
            let left_x = o.left - WINDOW_GAP - width;
            let x = if right_x + width <= work.right {
                right_x
            } else if left_x >= work.left {
                left_x
            } else {
                tdiv(o.left + o.right - width, 2)
            };
            let y = o.top + tdiv((o.bottom - o.top) - height, 2);
            clamp_xy_spec(x, y, width, height, work)
        },
    }
}

/// The preview sits beside the picker: on its right whenever it fits there
/// (whether or not the left side would also do), else on its left when it
/// fits there, `WINDOW_GAP` pixels away, so that it never covers the
/// picker; where the work area allows, its vertical centre is the
/// picker's, to the pixel. The picker is assumed to reach into the work
/// area.
pub proof fn lemma_preview_beside_owner(owner: Rect, work: Rect, width: int, height: int)
    requires
        0 <= width,
        owner.right + WINDOW_GAP >= work.left,
        owner.left - WINDOW_GAP <= work.right,
    ensures
        owner.right + WINDOW_GAP + width <= work.right ==> next_to_owner_spec(Some(owner), work, width, height).0
            == owner.right + WINDOW_GAP,
        owner.right + WINDOW_GAP + width > work.right && owner.left - WINDOW_GAP - width >= work.left
            ==> next_to_owner_spec(Some(owner), work, width, height).0 + width + WINDOW_GAP == owner.left,
        ({
            let y = next_to_owner_spec(Some(owner), work, width, height).1;
            let centred = owner.top + tdiv((owner.bottom - owner.top) - height, 2);
            (work.top <= centred && centred + height <= work.bottom) ==> {
                let gap = (2 * y + height) - (owner.top + owner.bottom);
                -1 <= gap <= 1
            }
        }),
{
}

/// The arithmetic of `next_to_owner_spec` stays in range.
pub open spec fn next_to_owner_fits(owner: Option<Rect>, work: Rect, width: int, height: int) -> bool {
    &&& fits_i32(work.right - work.left)
    &&& fits_i32(work.bottom - work.top)
    &&& fits_i32(work.right - work.left - width)
    &&& fits_i32(work.bottom - work.top - height)
    &&& fits_i32(work.right - width)
    &&& fits_i32(work.bottom - height)
    &&& fits_i32(work.left + max_i(tdiv(work.right - work.left - width, 2), 0))
    &&& fits_i32(work.top + max_i(tdiv(work.bottom - work.top - height, 2), 0))
    &&& owner matches Some(o) ==> {
        &&& fits_i32(o.right + WINDOW_GAP)
        &&& fits_i32(o.left - WINDOW_GAP)
        &&& fits_i32(o.right + WINDOW_GAP + width)
        &&& fits_i32(o.left - WINDOW_GAP - width)
        &&& fits_i32(o.left + o.right)
        &&& fits_i32(o.left + o.right - width)
        &&& fits_i32(o.bottom - o.top)
        &&& fits_i32((o.bottom - o.top) - height)
        &&& fits_i32(o.top + tdiv((o.bottom - o.top) - height, 2))
    }
}

/// Where a newly shown preview goes (`owner` is the owner's window
/// rectangle when it could be read).
pub fn position_next_to_owner(owner: Option<Rect>, work: Rect, width: i32, height: i32) -> (r: (i32, i32))
    requires
        next_to_owner_fits(owner, work, width as int, height as int),
    ensures
        (r.0 as int, r.1 as int) == next_to_owner_spec(owner, work, width as int, height as int),
{
    match owner {
        None => {
            let dx = (work.right - work.left - width) / 2;
            let dy = (work.bottom - work.top - height) / 2;
            (
                work.left + if dx >= 0 {
                    dx
                } else {
                    0
                },
                work.top + if dy >= 0 {
                    dy
                } else {
                    0
                },
            )
        },
        Some(o) => {
            let right_x = o.right + WINDOW_GAP;
            let left_x = o.left - WINDOW_GAP - width;
            let mut x = if right_x + width <= work.right {
                right_x
            } else if left_x >= work.left {
                left_x
            } else {
                (o.left + o.right - width) / 2
            };
            let mut y = o.top + ((o.bottom - o.top) - height) / 2;
            clamp_xy(&mut x, &mut y, width, height, work);
            (x, y)
        },
    }
}

/// The widest of the measured line widths, none counting as zero.
pub open spec fn widest_spec(widths: Seq<i32>) -> int
    decreases widths.len(),
{
    if widths.len() == 0 {
        0
    } else {
        max_i(widest_spec(widths.drop_last()), widths.last() as int)
    }
}

/// The size of a block of exact lines (`measure_exact`): the widest
/// non-empty line (at least one pixel) by the line height times the
/// number of lines (at least one), saturating at `i32::MAX`.
pub open spec fn exact_block_spec(widths: Seq<i32>, line_height: int, line_count: int) -> (int, int) {
    (max_i(widest_spec(widths), 1), saturate(line_height * max_i(line_count, 1)))
}

/// See `exact_block_spec`; `widths` are the measured widths of the
/// non-empty lines.
pub fn exact_block_size(widths: &Vec<i32>, line_height: i32, line_count: usize) -> (r: (i32, i32))
    requires
        line_count <= i32::MAX,
    ensures
        (r.0 as int, r.1 as int) == exact_block_spec(widths@, line_height as int, line_count as int),
{
    let mut widest: i32 = 0;
    let mut i: usize = 0;
    while i < widths.len()
        invariant
            i <= widths@.len(),
            widest == max_i(widest_spec(widths@.take(i as int)), 0),
        decreases widths.len() - i,
    {
        proof {
            assert(widths@.take(i as int + 1).drop_last() =~= widths@.take(i as int));
        }
        if widths[i] > widest {
            widest = widths[i];
        }
        i += 1;
    }
    proof {
        assert(widths@.take(widths@.len() as int) =~= widths@);
    }
    let lines: i32 = if line_count >= 1 {
        line_count as i32
    } else {
        1
    };
    assert(i32::MIN as int * i32::MAX as int <= (line_height as int) * (lines as int) <= i32::MAX as int
        * i32::MAX as int) by (nonlinear_arith)
        requires
            1 <= lines <= i32::MAX,
            i32::MIN <= line_height <= i32::MAX,
    ;
    let product = (line_height as i64) * (lines as i64);
    let height: i32 = if product > i32::MAX as i64 {
        i32::MAX
    } else if product < i32::MIN as i64 {
        i32::MIN
    } else {
        product as i32
    };
    (
        if widest >= 1 {
            widest
        } else {
            1
        },
        height,
    )
}

/// The height of wrapped text (`measure_wrapped`): the measured height,
/// at least the font size plus four pixels.
pub open spec fn wrapped_height_spec(measured: int, font_px: int) -> int {
    max_i(measured, font_px + 4)
}

/// See `wrapped_height_spec`.
pub fn wrapped_height(measured: i32, font_px: i32) -> (r: i32)
    requires
        fits_i32(font_px + 4),
    ensures
        r == wrapped_height_spec(measured as int, font_px as int),
{
    if measured >= font_px + 4 {
        measured
    } else {
        font_px + 4
    }
}

/// Where the exact lines of a block are drawn: the block centred (never
/// closer than the padding to the top-left edge), lines spaced evenly.
pub open spec fn exact_lines_origin_spec(
    block_w: int,
    block_h: int,
    line_count: int,
    width: int,
    height: int,
) -> (int, int, int) {
    let line_height = max_i(tdiv(block_h, max_i(line_count, 1)), 1);
    let x = max_i(tdiv(width - block_w, 2), PAD as int);
    let y = max_i(tdiv(height - block_h, 2), PAD as int);
    (x, y, line_height)
}

/// See `exact_lines_origin_spec`.
pub fn exact_lines_origin(block_w: i32, block_h: i32, line_count: usize, width: i32, height: i32) -> (r: (
    i32,
    i32,
    i32,
))
    requires
        line_count <= i32::MAX,
        fits_i32(width - block_w),
        fits_i32(height - block_h),
    ensures
        (r.0 as int, r.1 as int, r.2 as int) == exact_lines_origin_spec(
            block_w as int,
            block_h as int,
            line_count as int,
            width as int,
            height as int,
        ),
{
    let lines = if line_count >= 1 {
        line_count as i32
    } else {
        1
    };
    let lh = block_h / lines;
    let dx = (width - block_w) / 2;
    let dy = (height - block_h) / 2;
    (
        if dx >= PAD {
            dx
        } else {
            PAD
        },
        if dy >= PAD {
            dy
        } else {
            PAD
        },
        if lh >= 1 {
            lh
        } else {
            1
        },
    )
}

/// Wrapped text is centred vertically in its bounds when it is shorter.
pub open spec fn wrapped_target_spec(bounds: Rect, block_h: int) -> Rect {
    let block = max_i(block_h, 1);
    let available = max_i(bounds.bottom - bounds.top, 1);
    if block < available {
        let top = bounds.top + tdiv(available - block, 2);
        Rect { top: top as i32, bottom: (top + block) as i32, ..bounds }
    } else {
        bounds
    }
}

/// See `wrapped_target_spec`.
pub fn wrapped_target(bounds: Rect, block_h: i32) -> (r: Rect)
    requires
        fits_i32(bounds.bottom - bounds.top),
    ensures
        r == wrapped_target_spec(bounds, block_h as int),
{
    let block = if block_h >= 1 {
        block_h
    } else {
        1
    };
    let h = bounds.bottom - bounds.top;
    let available = if h >= 1 {
        h
    } else {
        1
    };
    let mut target = bounds;
    if block < available {
        target.top = bounds.top + (available - block) / 2;
        target.bottom = target.top + block;
    }
    target
}

/// The font family the preview uses for a kind.
pub open spec fn font_family_spec(kind: ItemKind) -> Seq<char> {
    match kind {
        ItemKind::Emoji => "Segoe UI Emoji"@,
        ItemKind::Symbol | ItemKind::Kaomoji => "Segoe UI Symbol"@,
        ItemKind::Ascii => "Consolas"@,
        ItemKind::Snippet => "Segoe UI"@,
    }
}

/// See `font_family_spec`.
pub fn preview_font_family(kind: ItemKind) -> (r: &'static str)
    ensures
        r@ == font_family_spec(kind),
{
    match kind {
        ItemKind::Emoji => "Segoe UI Emoji",
        ItemKind::Symbol | ItemKind::Kaomoji => "Segoe UI Symbol",
        ItemKind::Ascii => "Consolas",
        ItemKind::Snippet => "Segoe UI",
    }
}

/// The preview window's caption: the item title, or "Preview" when blank.
pub fn preview_window_title(title: &str) -> (r: String)
    ensures
        is_blank(title@) ==> r@ == "Preview"@,
        !is_blank(title@) ==> r@ == title@,
{
    if is_blank_chars(&chars_of(title)) {
        String::from_str("Preview")
    } else {
        String::from_str(title)
    }
}

/// A shown preview is redrawn for an item only while its window is visible
/// and when the item differs from the one shown (kind, title or content).
pub fn preview_needs_update(
    window_visible: bool,
    shown_kind: Option<ItemKind>,
    shown_title: &str,
    shown_content: &str,
    kind: ItemKind,
    title: &str,
    content: &str,
) -> (r: bool)
    ensures
        r == (window_visible && !(shown_kind == Some(kind) && shown_title@ == title@ && shown_content@
            == content@)),
{
    if !window_visible {
        return false;
    }
    let same_kind = match shown_kind {
        Some(k) => k == kind,
        None => false,
    };
    !(same_kind && chars_eq(&chars_of(shown_title), &chars_of(title)) && chars_eq(
        &chars_of(shown_content),
        &chars_of(content),
    ))
}

} // verus!
