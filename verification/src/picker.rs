//! The picker popup: its state, the category tabs, the search filter, the
//! card grid (layout, hit testing, scrolling), the choice of what to insert
//! and into which window, and the preview payloads.
use vstd::prelude::*;
use crate::custom::{CustomItem, CustomItemView, views};
use crate::geometry::{Point, Rect, clamp_spec, contains_spec, fits_i32, max_i, min_i, rect_contains, tdiv};
use crate::theme::Palette;
use crate::model::{CatalogRef, ItemKind, PickerItem, CATEGORY_COUNT, category_spec};
use crate::text::{
    chars_of, contains_chars, contains_seq, decode_utf16_lossy, first_line, first_line_chars,
    lowercase, replace_char, replace_char_spec, string_from_chars, to_lowercase, trim, trim_chars,
    utf16_decode_lossy, utf16_encode, utf16_of_char, encode_utf16,
};

verus! {

pub const POPUP_W: i32 = 620;
/// Popup height: search box, tabs, card grid, action buttons and the
/// branding line.
pub const POPUP_H: i32 = 440;
pub const PAD: i32 = 12;
pub const SEARCH_Y: i32 = 12;
pub const SEARCH_H: i32 = 44;
pub const TABS_Y: i32 = 64;
pub const TABS_H: i32 = 32;
pub const CONTENT_TOP: i32 = 108;
pub const FOOTER_Y: i32 = 408;
pub const FOOTER_H: i32 = 24;

/// The card grid of one category.
#[derive(Clone, Copy, Debug, PartialEq, Eq, Structural)]
pub struct GridLayout {
    pub cols: usize,
    pub rows: usize,
    pub gap: i32,
    pub card_h: i32,
    pub emoji_dense: bool,
}

/// Four columns of tall cards for text-like content.
pub open spec fn standard_layout() -> GridLayout {
    GridLayout { cols: 4, rows: 4, gap: 8, card_h: 56, emoji_dense: false }
}

/// A denser grid of small glyph cards for the emoji tab.
pub open spec fn emoji_layout() -> GridLayout {
    GridLayout { cols: 8, rows: 5, gap: 6, card_h: 46, emoji_dense: true }
}

/// The two grids the picker uses.
pub open spec fn valid_layout(layout: GridLayout) -> bool {
    layout == standard_layout() || layout == emoji_layout()
}

/// The picker's state between messages. `target` is the window that had
/// the focus when the picker opened (0 when none); `filtered` lists, in
/// display order, the entries matching the tab and the query.
pub struct PickerState {
    pub category_index: usize,
    pub query_utf16: Vec<u16>,
    pub selected: usize,
    pub scroll: usize,
    pub hovered: Option<usize>,
    pub filtered: Vec<CatalogRef>,
    pub target: usize,
}

impl PickerState {
    /// The state before the picker is first opened: "All" tab, empty query,
    /// nothing listed.
    pub fn new() -> (r: PickerState)
        ensures
            r.category_index == 0,
            r.query_utf16@.len() == 0,
            r.selected == 0,
            r.scroll == 0,
            r.hovered.is_none(),
            r.filtered@.len() == 0,
            r.target == 0,
    {
        PickerState {
            category_index: 0,
            query_utf16: Vec::new(),
            selected: 0,
            scroll: 0,
            hovered: None,
            filtered: Vec::new(),
            target: 0,
        }
    }

    /// The tab index names a category.
    pub open spec fn wf(&self) -> bool {
        self.category_index < CATEGORY_COUNT
    }
}

/// The grid used for a category: dense for the emoji tab.
pub open spec fn layout_for(category: Option<ItemKind>) -> GridLayout {
    if category == Some(ItemKind::Emoji) {
        emoji_layout()
    } else {
        standard_layout()
    }
}

/// The grid of the current tab.
pub fn grid_layout(state: &PickerState) -> (r: GridLayout)
    requires
        state.wf(),
    ensures
        r == layout_for(category_spec(state.category_index as int)),
        valid_layout(r),
{
    let emoji_dense = ItemKind::category(state.category_index) == Some(ItemKind::Emoji);
    if emoji_dense {
        GridLayout { cols: 8, rows: 5, gap: 6, card_h: 46, emoji_dense: true }
    } else {
        GridLayout { cols: 4, rows: 4, gap: 8, card_h: 56, emoji_dense: false }
    }
}

/// Card width: the popup width less padding and gaps, shared by the columns.
pub open spec fn card_width_spec(layout: GridLayout) -> int {
    tdiv(POPUP_W - PAD * 2 - layout.gap * (layout.cols - 1), layout.cols as int)
}

/// The width of one card.
pub fn card_width(layout: GridLayout) -> (r: i32)
    requires
        1 <= layout.cols <= i32::MAX,
        fits_i32(layout.gap * (layout.cols - 1)),
        fits_i32(POPUP_W - PAD * 2 - layout.gap * (layout.cols - 1)),
    ensures
        r == card_width_spec(layout),
{
    let cols = layout.cols as i32;
    let spread = layout.gap * (cols - 1);
    (POPUP_W - PAD * 2 - spread) / cols
}

/// The card widths of the two grids.
pub proof fn lemma_card_width(layout: GridLayout)
    requires
        valid_layout(layout),
    ensures
        layout == standard_layout() ==> card_width_spec(layout) == 143,
        layout == emoji_layout() ==> card_width_spec(layout) == 69,
        card_width_spec(layout) > 0,
{
    if layout == emoji_layout() {
        assert(layout.gap * (layout.cols - 1) == 42) by (nonlinear_arith)
            requires
                layout.gap == 6 && layout.cols == 8,
        ;
    } else {
        assert(layout.gap * (layout.cols - 1) == 24) by (nonlinear_arith)
            requires
                layout.gap == 8 && layout.cols == 4,
        ;
    }
}

/// The sizes of the two grids.
pub proof fn lemma_layout_bounds(layout: GridLayout)
    requires
        valid_layout(layout),
    ensures
        1 <= layout.cols <= 8,
        1 <= layout.rows <= 5,
        layout.cols * layout.rows <= 40,
        layout.cols * layout.rows >= 1,
{
    if layout == standard_layout() {
        assert(layout.cols * layout.rows == 16) by (nonlinear_arith)
            requires
                layout.cols == 4 && layout.rows == 4,
        ;
    } else {
        assert(layout.cols * layout.rows == 40) by (nonlinear_arith)
            requires
                layout.cols == 8 && layout.rows == 5,
        ;
    }
}

/// `ceil(count / cols)`.
pub open spec fn row_count(count: int, cols: int) -> int {
    (count + cols - 1) / cols
}

/// The largest scroll offset: the start of the last page of rows, in items.
pub open spec fn max_scroll_spec(count: int, layout: GridLayout) -> int {
    let rows = row_count(count, layout.cols as int);
    let hidden = if rows > layout.rows {
        rows - layout.rows
    } else {
        0
    };
    hidden * layout.cols
}

/// The largest scroll offset for `count` entries.
pub fn max_scroll(count: usize, layout: GridLayout) -> (r: usize)
    requires
        layout.cols >= 1,
        count + layout.cols - 1 <= usize::MAX,
    ensures
        r == max_scroll_spec(count as int, layout),
        layout.rows >= 1 ==> r <= count,
{
    let cols = layout.cols;
    let rows = (count + (cols - 1)) / cols;
    let hidden = rows.saturating_sub(layout.rows);
    assert(rows * cols <= count + cols - 1) by (nonlinear_arith)
        requires
            rows == (count + cols - 1) as int / cols as int,
            cols >= 1,
    ;
    assert(hidden * cols <= rows * cols) by (nonlinear_arith)
        requires
            0 <= hidden <= rows,
            cols >= 1,
    ;
    if layout.rows >= 1 {
        assert(hidden * cols <= count) by (nonlinear_arith)
            requires
                rows * cols <= count + cols - 1,
                hidden == 0 || hidden + 1 <= rows,
                cols >= 1,
        ;
    }
    hidden * cols
}

/// The entry under a client point, as `hit_test_item` finds it: inside the
/// content band, inside a card (not a gap) of the visible grid, and present.
pub open spec fn hit_item_spec(x: int, y: int, layout: GridLayout, scroll: int, count: int) -> Option<int> {
    let cell_w = card_width_spec(layout);
    let rel_x = x - PAD;
    let rel_y = y - CONTENT_TOP;
    let stride_x = cell_w + layout.gap;
    let stride_y = layout.card_h + layout.gap;
    if y < CONTENT_TOP || y >= FOOTER_Y - 8 || rel_x < 0 || rel_y < 0 {
        None
    } else {
        let col = rel_x / stride_x;
        let row = rel_y / stride_y;
        if col >= layout.cols || row >= layout.rows {
            None
        } else if rel_x % stride_x >= cell_w || rel_y % stride_y >= layout.card_h {
            None
        } else {
            let position = scroll + row * layout.cols + col;
            if position < count {
                Some(position)
            } else {
                None
            }
        }
    }
}

/// The position in `filtered` of the card under a client point.
pub fn hit_test_item(x: i32, y: i32, state: &PickerState) -> (r: Option<usize>)
    requires
        state.wf(),
        fits_i32(x - PAD),
        state.scroll + 64 * 64 <= usize::MAX,
    ensures
        r.is_some() == hit_item_spec(
            x as int,
            y as int,
            layout_for(category_spec(state.category_index as int)),
            state.scroll as int,
            state.filtered@.len() as int,
        ).is_some(),
        r matches Some(p) ==> Some(p as int) == hit_item_spec(
            x as int,
            y as int,
            layout_for(category_spec(state.category_index as int)),
            state.scroll as int,
            state.filtered@.len() as int,
        ),
{
    if y < CONTENT_TOP || y >= FOOTER_Y - 8 {
        return None;
    }
    let layout = grid_layout(state);
    let cell_w = card_width(layout);
    proof {
        lemma_card_width(layout);
    }
    let relative_x = x - PAD;
    let relative_y = y - CONTENT_TOP;
    if relative_x < 0 || relative_y < 0 {
        return None;
    }
    let stride_x = cell_w + layout.gap;
    let stride_y = layout.card_h + layout.gap;
    let col = (relative_x / stride_x) as usize;
    let row = (relative_y / stride_y) as usize;
    if col >= layout.cols || row >= layout.rows {
        return None;
    }
    if relative_x % stride_x >= cell_w || relative_y % stride_y >= layout.card_h {
        return None;
    }
    assert(row * layout.cols + col < 64 * 64) by (nonlinear_arith)
        requires
            row < layout.rows <= 8,
            col < layout.cols <= 8,
    ;
    let position = state.scroll + row * layout.cols + col;
    if position < state.filtered.len() {
        Some(position)
    } else {
        None
    }
}

/// The tab under a client point: the tab band is split into six equal
/// tabs between the paddings.
pub open spec fn category_at_spec(x: int, y: int) -> Option<int> {
    if !(TABS_Y <= y < TABS_Y + TABS_H) || x < PAD || x >= POPUP_W - PAD {
        None
    } else {
        let width = (POPUP_W - PAD * 2) / (CATEGORY_COUNT as int);
        let index = (x - PAD) / width;
        if index >= CATEGORY_COUNT {
            None
        } else {
            Some(index)
        }
    }
}

/// The index of the tab under a client point, if any.
pub fn category_at(x: i32, y: i32) -> (r: Option<usize>)
    ensures
        r.is_some() == category_at_spec(x as int, y as int).is_some(),
        r matches Some(i) ==> Some(i as int) == category_at_spec(x as int, y as int),
{
    if !(TABS_Y <= y && y < TABS_Y + TABS_H) {
        return None;
    }
    if x < PAD || x >= POPUP_W - PAD {
        return None;
    }
    let width = (POPUP_W - PAD * 2) / (CATEGORY_COUNT as i32);
    let index = ((x - PAD) / width) as usize;
    if index >= CATEGORY_COUNT {
        return None;
    }
    Some(index)
}


/// The search text: the query decoded, trimmed and lower-cased.
pub open spec fn search_query(units: Seq<u16>) -> Seq<char> {
    lowercase(trim(utf16_decode_lossy(units)))
}

/// An entry is listed when its kind belongs to the tab and the query is
/// empty or occurs in its lower-cased title, content or keywords.
pub open spec fn entry_matches(
    kind: ItemKind,
    title: Seq<char>,
    content: Seq<char>,
    keywords: Seq<char>,
    category: Option<ItemKind>,
    query: Seq<char>,
) -> bool {
    &&& match category {
        Some(k) => kind == k,
        None => true,
    }
    &&& (query.len() == 0 || contains_seq(lowercase(title), query) || contains_seq(
        lowercase(content),
        query,
    ) || contains_seq(lowercase(keywords), query))
}

/// The matching built-in items, in catalogue order.
pub open spec fn builtin_matches(
    catalog: Seq<PickerItem>,
    category: Option<ItemKind>,
    query: Seq<char>,
) -> Seq<CatalogRef>
    decreases catalog.len(),
{
    if catalog.len() == 0 {
        Seq::empty()
    } else {
        let rest = builtin_matches(catalog.drop_last(), category, query);
        let item = catalog.last();
        if entry_matches(item.kind, item.title@, item.content@, item.keywords@, category, query) {
            rest.push(CatalogRef::Builtin((catalog.len() - 1) as usize))
        } else {
            rest
        }
    }
}

/// The matching custom items, in their order.
pub open spec fn custom_matches(
    items: Seq<CustomItemView>,
    category: Option<ItemKind>,
    query: Seq<char>,
) -> Seq<CatalogRef>
    decreases items.len(),
{
    if items.len() == 0 {
        Seq::empty()
    } else {
        let rest = custom_matches(items.drop_last(), category, query);
        let item = items.last();
        if entry_matches(item.kind, item.title, item.content, item.keywords, category, query) {
            rest.push(CatalogRef::Custom((items.len() - 1) as usize))
        } else {
            rest
        }
    }
}

/// The result list: matching built-in items, then matching custom items.
pub open spec fn filter_spec(
    catalog: Seq<PickerItem>,
    custom: Seq<CustomItemView>,
    category: Option<ItemKind>,
    query: Seq<char>,
) -> Seq<CatalogRef> {
    builtin_matches(catalog, category, query) + custom_matches(custom, category, query)
}

fn lowered_chars(s: &str) -> (r: Vec<char>)
    ensures
        r@ == lowercase(s@),
{
    let lowered = to_lowercase(s);
    chars_of(lowered.as_str())
}

fn query_matches(
    title: &str,
    content: &str,
    keywords: &str,
    query: &Vec<char>,
) -> (r: bool)
    ensures
        r == (query@.len() == 0 || contains_seq(lowercase(title@), query@) || contains_seq(
            lowercase(content@),
            query@,
        ) || contains_seq(lowercase(keywords@), query@)),
{
    if query.len() == 0 {
        return true;
    }
    contains_chars(&lowered_chars(title), query) || contains_chars(&lowered_chars(content), query)
        || contains_chars(&lowered_chars(keywords), query)
}

fn kind_matches(kind: ItemKind, category: Option<ItemKind>) -> (r: bool)
    ensures
        r == match category {
            Some(k) => kind == k,
            None => true,
        },
{
    match category {
        Some(k) => kind == k,
        None => true,
    }
}

/// The search text of the current query.
pub fn query_text(state: &PickerState) -> (r: Vec<char>)
    ensures
        r@ == search_query(state.query_utf16@),
{
    let decoded = decode_utf16_lossy(state.query_utf16.as_slice());
    let trimmed = trim_chars(&chars_of(decoded.as_str()));
    let joined = string_from_chars(&trimmed);
    lowered_chars(joined.as_str())
}

/// Recomputes the result list for the current tab and query.
pub fn rebuild_filter(state: &mut PickerState, catalog: &[PickerItem], custom: &Vec<CustomItem>)
    requires
        old(state).wf(),
    ensures
        final(state).filtered@ == filter_spec(
            catalog@,
            views(custom@),
            category_spec(old(state).category_index as int),
            search_query(old(state).query_utf16@),
        ),
        final(state).category_index == old(state).category_index,
        final(state).query_utf16@ == old(state).query_utf16@,
        final(state).selected == old(state).selected,
        final(state).scroll == old(state).scroll,
        final(state).hovered == old(state).hovered,
        final(state).target == old(state).target,
{
    let query = query_text(state);
    let category = ItemKind::category(state.category_index);
    let ghost q = query@;
    let mut out: Vec<CatalogRef> = Vec::new();
    let mut i: usize = 0;
    while i < catalog.len()
        invariant
            i <= catalog@.len(),
            q == query@,
            out@ == builtin_matches(catalog@.take(i as int), category, q),
        decreases catalog.len() - i,
    {
        let item = catalog[i];
        proof {
            assert(catalog@.take(i as int + 1).drop_last() =~= catalog@.take(i as int));
        }
        if kind_matches(item.kind, category) && query_matches(
            item.title,
            item.content,
            item.keywords,
            &query,
        ) {
            out.push(CatalogRef::Builtin(i));
        }
        i += 1;
    }
    proof {
        assert(catalog@.take(catalog@.len() as int) =~= catalog@);
    }
    let ghost builtin = out@;
    let mut j: usize = 0;
    while j < custom.len()
        invariant
            j <= custom@.len(),
            q == query@,
            builtin == builtin_matches(catalog@, category, q),
            out@ == builtin + custom_matches(views(custom@).take(j as int), category, q),
        decreases custom.len() - j,
    {
        let item = &custom[j];
        proof {
            assert(views(custom@).take(j as int + 1).drop_last() =~= views(custom@).take(j as int));
            assert(views(custom@).take(j as int + 1).last() == custom@[j as int]@);
        }
        if kind_matches(item.kind, category) && query_matches(
            item.title.as_str(),
            item.content.as_str(),
            item.keywords.as_str(),
            &query,
        ) {
            out.push(CatalogRef::Custom(j));
            proof {
                assert(out@ =~= builtin + custom_matches(views(custom@).take(j as int + 1), category, q));
            }
        }
        j += 1;
    }
    proof {
        assert(views(custom@).take(custom@.len() as int) =~= views(custom@));
    }
    state.filtered = out;
}


/// The scroll offset `ensure_selected_visible` moves to before the
/// `max_scroll` limit: to the selected row when it lies above the visible
/// page, to the page ending with the selected row when it lies below.
pub open spec fn reveal_scroll(selected: int, scroll: int, layout: GridLayout) -> int {
    let cols = layout.cols as int;
    let visible = cols * layout.rows;
    if selected < scroll {
        (selected / cols) * cols
    } else if selected >= scroll + visible {
        let row = selected / cols;
        let first = if row > layout.rows - 1 {
            row - (layout.rows - 1)
        } else {
            0
        };
        first * cols
    } else {
        scroll
    }
}

/// The scroll offset after `ensure_selected_visible`.
pub open spec fn ensure_visible_spec(selected: int, scroll: int, count: int, layout: GridLayout) -> int {
    min_i(reveal_scroll(selected, scroll, layout), max_scroll_spec(count, layout))
}

proof fn lemma_reveal_scroll(selected: int, scroll: int, layout: GridLayout)
    requires
        valid_layout(layout),
        0 <= selected,
        0 <= scroll,
    ensures
        0 <= reveal_scroll(selected, scroll, layout) <= selected,
        selected < reveal_scroll(selected, scroll, layout) + layout.cols * layout.rows,
{
    let c = layout.cols as int;
    let r = layout.rows as int;
    assert(c * r >= c) by (nonlinear_arith)
        requires
            c >= 1,
            r >= 1,
    ;
    assert((selected / c) * c <= selected < (selected / c) * c + c) by (nonlinear_arith)
        requires
            c >= 1,
            selected >= 0,
    ;
    let row = selected / c;
    assert(0 <= row);
    if selected < scroll {
    } else if selected >= scroll + c * r {
        if row > r - 1 {
            assert((row - (r - 1)) * c + c * r == row * c + c) by (nonlinear_arith);
            assert((row - (r - 1)) * c <= row * c) by (nonlinear_arith)
                requires
                    row > r - 1,
                    r >= 1,
                    c >= 1,
            ;
            assert((row - (r - 1)) * c >= 0) by (nonlinear_arith)
                requires
                    row > r - 1,
                    c >= 1,
            ;
        } else {
            assert(row * c + c <= c * r) by (nonlinear_arith)
                requires
                    row <= r - 1,
                    c >= 1,
            ;
        }
    }
}

proof fn lemma_max_scroll_covers(count: int, selected: int, layout: GridLayout)
    requires
        valid_layout(layout),
        0 <= selected < count,
    ensures
        selected < max_scroll_spec(count, layout) + layout.cols * layout.rows,
        0 <= max_scroll_spec(count, layout),
{
    let c = layout.cols as int;
    let r = layout.rows as int;
    let rows = row_count(count, c);
    assert(count <= rows * c) by (nonlinear_arith)
        requires
            rows == (count + c - 1) / c,
            c >= 1,
            count >= 0,
    ;
    assert(rows >= 0) by (nonlinear_arith)
        requires
            rows == (count + c - 1) / c,
            c >= 1,
            count >= 0,
    ;
    if rows > r {
        assert((rows - r) * c + c * r == rows * c) by (nonlinear_arith);
        assert((rows - r) * c >= 0) by (nonlinear_arith)
            requires
                rows > r,
                c >= 1,
        ;
    } else {
        assert(rows * c <= c * r) by (nonlinear_arith)
            requires
                rows <= r,
                c >= 1,
        ;
    }
}

/// Scrolls just enough that the selected entry lies on the visible page,
/// never past the largest scroll offset.
pub fn ensure_selected_visible(state: &mut PickerState, count: usize)
    requires
        old(state).wf(),
        old(state).scroll + 64 <= usize::MAX,
        count + 64 <= usize::MAX,
    ensures
        final(state).scroll == ensure_visible_spec(
            old(state).selected as int,
            old(state).scroll as int,
            count as int,
            layout_for(category_spec(old(state).category_index as int)),
        ),
        final(state).scroll <= max_scroll_spec(
            count as int,
            layout_for(category_spec(old(state).category_index as int)),
        ),
        old(state).selected < count ==> final(state).scroll <= old(state).selected
            < final(state).scroll + layout_for(category_spec(old(state).category_index as int)).cols
            * layout_for(category_spec(old(state).category_index as int)).rows,
        final(state).category_index == old(state).category_index,
        final(state).query_utf16@ == old(state).query_utf16@,
        final(state).selected == old(state).selected,
        final(state).hovered == old(state).hovered,
        final(state).filtered@ == old(state).filtered@,
        final(state).target == old(state).target,
{
    let layout = grid_layout(state);
    let cols = layout.cols;
    let rows = layout.rows;
    proof {
        lemma_layout_bounds(layout);
    }
    let visible = cols * rows;
    let selected = state.selected;
    let scroll = state.scroll;
    proof {
        lemma_reveal_scroll(selected as int, scroll as int, layout);
    }
    let mut next = scroll;
    if selected < scroll {
        next = (selected / cols) * cols;
    } else if selected >= scroll + visible {
        let selected_row = selected / cols;
        let first = selected_row.saturating_sub(rows - 1);
        proof {
            assert(reveal_scroll(selected as int, scroll as int, layout) == first * cols);
        }
        next = first * cols;
    }
    let limit = max_scroll(count, layout);
    state.scroll = if next <= limit {
        next
    } else {
        limit
    };
    proof {
        if selected < count {
            lemma_max_scroll_covers(count as int, selected as int, layout);
        }
    }
}


/// The scroll offset after one mouse-wheel notch: a row further (up to the
/// largest offset) when turned toward the user, a row back (not below zero)
/// otherwise.
pub open spec fn wheel_scroll_spec(scroll: int, delta: int, count: int, layout: GridLayout) -> int {
    if delta < 0 {
        min_i(scroll + layout.cols, max_scroll_spec(count, layout))
    } else if scroll >= layout.cols {
        scroll - layout.cols
    } else {
        0
    }
}

/// Scrolls the grid by one row for a wheel notch.
pub fn wheel_scroll(state: &mut PickerState, delta: i16)
    requires
        old(state).wf(),
        old(state).scroll + 64 <= usize::MAX,
        old(state).filtered@.len() + 64 <= usize::MAX,
    ensures
        final(state).scroll == wheel_scroll_spec(
            old(state).scroll as int,
            delta as int,
            old(state).filtered@.len() as int,
            layout_for(category_spec(old(state).category_index as int)),
        ),
        final(state).category_index == old(state).category_index,
        final(state).query_utf16@ == old(state).query_utf16@,
        final(state).selected == old(state).selected,
        final(state).hovered == old(state).hovered,
        final(state).filtered@ == old(state).filtered@,
        final(state).target == old(state).target,
{
    let layout = grid_layout(state);
    let count = state.filtered.len();
    let limit = max_scroll(count, layout);
    if delta < 0 {
        let next = state.scroll + layout.cols;
        state.scroll = if next <= limit {
            next
        } else {
            limit
        };
    } else {
        state.scroll = state.scroll.saturating_sub(layout.cols);
    }
}

/// One mouse-wheel notch, as `wheel_scroll`, answering whether the scroll
/// offset changed: the grid is repainted only then.
pub fn wheel_notch(state: &mut PickerState, delta: i16) -> (r: bool)
    requires
        old(state).wf(),
        old(state).scroll + 64 <= usize::MAX,
        old(state).filtered@.len() + 64 <= usize::MAX,
    ensures
        final(state).scroll == wheel_scroll_spec(
            old(state).scroll as int,
            delta as int,
            old(state).filtered@.len() as int,
            layout_for(category_spec(old(state).category_index as int)),
        ),
        r == (final(state).scroll != old(state).scroll),
        final(state).category_index == old(state).category_index,
        final(state).query_utf16@ == old(state).query_utf16@,
        final(state).selected == old(state).selected,
        final(state).hovered == old(state).hovered,
        final(state).filtered@ == old(state).filtered@,
        final(state).target == old(state).target,
{
    let before = state.scroll;
    wheel_scroll(state, delta);
    state.scroll != before
}

/// Switches to tab `index`: selection, scroll and hover reset, and the
/// result list rebuilt.
pub fn select_category(
    state: &mut PickerState,
    index: usize,
    catalog: &[PickerItem],
    custom: &Vec<CustomItem>,
)
    requires
        index < CATEGORY_COUNT,
    ensures
        final(state).category_index == index,
        final(state).selected == 0,
        final(state).scroll == 0,
        final(state).hovered.is_none(),
        final(state).filtered@ == filter_spec(
            catalog@,
            views(custom@),
            category_spec(index as int),
            search_query(old(state).query_utf16@),
        ),
        final(state).query_utf16@ == old(state).query_utf16@,
        final(state).target == old(state).target,
{
    state.category_index = index;
    state.selected = 0;
    state.scroll = 0;
    state.hovered = None;
    rebuild_filter(state, catalog, custom);
}

/// Handles a click in the tab band: switches tab and answers true when the
/// point is on a tab, else changes nothing and answers false.
pub fn hit_test_category(
    state: &mut PickerState,
    x: i32,
    y: i32,
    catalog: &[PickerItem],
    custom: &Vec<CustomItem>,
) -> (r: bool)
    ensures
        r == category_at_spec(x as int, y as int).is_some(),
        !r ==> *final(state) == *old(state),
        r ==> final(state).category_index == category_at_spec(x as int, y as int).unwrap()
            && final(state).selected == 0 && final(state).scroll == 0
            && final(state).hovered.is_none() && final(state).filtered@ == filter_spec(
            catalog@,
            views(custom@),
            category_spec(final(state).category_index as int),
            search_query(old(state).query_utf16@),
        ),
{
    match category_at(x, y) {
        Some(index) => {
            select_category(state, index, catalog, custom);
            true
        },
        None => false,
    }
}

/// Prepares the picker for opening over the window `foreground` (0 when
/// there is none): that window becomes the insertion target unless it is
/// the picker itself (`own`); the query, selection, scroll and hover reset.
pub fn reset_for_open(state: &mut PickerState, foreground: usize, own: usize)
    ensures
        final(state).target == if foreground != 0 && foreground != own {
            foreground
        } else {
            old(state).target
        },
        final(state).query_utf16@.len() == 0,
        final(state).selected == 0,
        final(state).scroll == 0,
        final(state).hovered.is_none(),
        final(state).category_index == old(state).category_index,
        final(state).filtered@ == old(state).filtered@,
{
    if foreground != 0 && foreground != own {
        state.target = foreground;
    }
    state.query_utf16.clear();
    state.selected = 0;
    state.scroll = 0;
    state.hovered = None;
}

/// Tracks the card under the mouse; answers whether the hover changed.
pub fn hover_at(state: &mut PickerState, x: i32, y: i32) -> (r: bool)
    requires
        old(state).wf(),
        fits_i32(x - PAD),
        old(state).scroll + 64 * 64 <= usize::MAX,
    ensures
        ({
            let hit = hit_item_spec(
                x as int,
                y as int,
                layout_for(category_spec(old(state).category_index as int)),
                old(state).scroll as int,
                old(state).filtered@.len() as int,
            );
            &&& final(state).hovered.is_some() == hit.is_some()
            &&& final(state).hovered matches Some(p) ==> hit == Some(p as int)
            &&& r == (old(state).hovered != final(state).hovered)
        }),
        final(state).category_index == old(state).category_index,
        final(state).query_utf16@ == old(state).query_utf16@,
        final(state).selected == old(state).selected,
        final(state).scroll == old(state).scroll,
        final(state).filtered@ == old(state).filtered@,
        final(state).target == old(state).target,
{
    let hit = hit_test_item(x, y, state);
    if state.hovered != hit {
        state.hovered = hit;
        true
    } else {
        false
    }
}

/// A click on the grid selects the card under it; answers whether a card
/// was hit (the application then inserts the selection).
pub fn click_at(state: &mut PickerState, x: i32, y: i32) -> (r: bool)
    requires
        old(state).wf(),
        fits_i32(x - PAD),
        old(state).scroll + 64 * 64 <= usize::MAX,
    ensures
        ({
            let hit = hit_item_spec(
                x as int,
                y as int,
                layout_for(category_spec(old(state).category_index as int)),
                old(state).scroll as int,
                old(state).filtered@.len() as int,
            );
            &&& r == hit.is_some()
            &&& r ==> final(state).selected == hit.unwrap()
            &&& !r ==> final(state).selected == old(state).selected
        }),
        final(state).category_index == old(state).category_index,
        final(state).query_utf16@ == old(state).query_utf16@,
        final(state).scroll == old(state).scroll,
        final(state).hovered == old(state).hovered,
        final(state).filtered@ == old(state).filtered@,
        final(state).target == old(state).target,
{
    match hit_test_item(x, y, state) {
        Some(position) => {
            state.selected = position;
            true
        },
        None => false,
    }
}

/// The keys the picker handles besides typed characters.
#[derive(Clone, Copy, Debug, PartialEq, Eq, Structural)]
pub enum PickerKey {
    Left,
    Right,
    Up,
    Down,
    Enter,
    Escape,
    Tab,
    Backspace,
}

/// What the window does after a key.
#[derive(Clone, Copy, Debug, PartialEq, Eq, Structural)]
pub enum KeyAction {
    /// Repaint: the state may have changed.
    Redraw,
    /// Insert the selected entry.
    Insert,
    /// Hide the picker.
    Close,
}

/// The arrow keys.
pub open spec fn is_arrow(key: PickerKey) -> bool {
    key == PickerKey::Left || key == PickerKey::Right || key == PickerKey::Up || key
        == PickerKey::Down
}

/// The selection after an arrow key among `count > 0` entries laid out in
/// rows of `cols`: a step left or right, or a row up or down, staying on
/// the current entry where the step would leave the list. A selection past
/// the end counts as the last entry.
pub open spec fn arrow_target(key: PickerKey, selected: int, count: int, cols: int) -> int {
    let s = if selected < count {
        selected
    } else {
        count - 1
    };
    match key {
        PickerKey::Left => if s >= 1 {
            s - 1
        } else {
            0
        },
        PickerKey::Right => if s + 1 < count {
            s + 1
        } else {
            s
        },
        PickerKey::Up => if s >= cols {
            s - cols
        } else {
            s
        },
        PickerKey::Down => if s + cols < count {
            s + cols
        } else {
            s
        },
        _ => s,
    }
}

/// The tab after `index`, wrapping to "All" after the last.
pub open spec fn next_category(index: int) -> int {
    (index + 1) % (CATEGORY_COUNT as int)
}

/// The query after Backspace: its last UTF-16 unit removed, if any.
pub open spec fn query_after_backspace(units: Seq<u16>) -> Seq<u16> {
    if units.len() > 0 {
        units.drop_last()
    } else {
        units
    }
}

/// The state after the query changed to `query`: first entry selected,
/// grid at the top, no hover, results of the current tab for the query.
pub open spec fn requeried(
    before: PickerState,
    after: PickerState,
    query: Seq<u16>,
    catalog: Seq<PickerItem>,
    custom: Seq<CustomItemView>,
) -> bool {
    &&& after.query_utf16@ == query
    &&& after.category_index == before.category_index
    &&& after.selected == 0
    &&& after.scroll == 0
    &&& after.hovered.is_none()
    &&& after.target == before.target
    &&& after.filtered@ == filter_spec(
        catalog,
        custom,
        category_spec(before.category_index as int),
        search_query(query),
    )
}

fn requery(state: &mut PickerState, catalog: &[PickerItem], custom: &Vec<CustomItem>)
    requires
        old(state).wf(),
    ensures
        requeried(*old(state), *final(state), old(state).query_utf16@, catalog@, views(custom@)),
{
    state.selected = 0;
    state.scroll = 0;
    state.hovered = None;
    rebuild_filter(state, catalog, custom);
}

/// Handles a key: Escape closes, Enter inserts, Tab moves to the next tab,
/// Backspace shortens the query, and the arrows move the selection and
/// scroll it into view.
pub fn handle_key(
    state: &mut PickerState,
    key: PickerKey,
    catalog: &[PickerItem],
    custom: &Vec<CustomItem>,
) -> (r: KeyAction)
    requires
        old(state).wf(),
        old(state).scroll + 64 <= usize::MAX,
        old(state).filtered@.len() + 64 <= usize::MAX,
    ensures
        key == PickerKey::Escape ==> r == KeyAction::Close && *final(state) == *old(state),
        key == PickerKey::Enter ==> r == KeyAction::Insert && *final(state) == *old(state),
        key == PickerKey::Tab ==> {
            &&& r == KeyAction::Redraw
            &&& final(state).category_index == next_category(old(state).category_index as int)
            &&& final(state).selected == 0
            &&& final(state).scroll == 0
            &&& final(state).hovered.is_none()
            &&& final(state).query_utf16@ == old(state).query_utf16@
            &&& final(state).target == old(state).target
            &&& final(state).filtered@ == filter_spec(
                catalog@,
                views(custom@),
                category_spec(final(state).category_index as int),
                search_query(old(state).query_utf16@),
            )
        },
        key == PickerKey::Backspace ==> r == KeyAction::Redraw && requeried(
            *old(state),
            *final(state),
            query_after_backspace(old(state).query_utf16@),
            catalog@,
            views(custom@),
        ),
        is_arrow(key) ==> {
            let count = old(state).filtered@.len() as int;
            let layout = layout_for(category_spec(old(state).category_index as int));
            &&& r == KeyAction::Redraw
            &&& count == 0 ==> *final(state) == *old(state)
            &&& count > 0 ==> {
                &&& final(state).selected == arrow_target(
                    key,
                    old(state).selected as int,
                    count,
                    layout.cols as int,
                )
                &&& final(state).scroll == ensure_visible_spec(
                    final(state).selected as int,
                    old(state).scroll as int,
                    count,
                    layout,
                )
                &&& final(state).selected < count
                &&& final(state).scroll <= final(state).selected < final(state).scroll
                    + layout.cols * layout.rows
                &&& final(state).category_index == old(state).category_index
                &&& final(state).query_utf16@ == old(state).query_utf16@
                &&& final(state).hovered == old(state).hovered
                &&& final(state).filtered@ == old(state).filtered@
                &&& final(state).target == old(state).target
            }
        },
{
    match key {
        PickerKey::Escape => KeyAction::Close,
        PickerKey::Enter => KeyAction::Insert,
        PickerKey::Tab => {
            let next = (state.category_index + 1) % CATEGORY_COUNT;
            select_category(state, next, catalog, custom);
            KeyAction::Redraw
        },
        PickerKey::Backspace => {
            state.query_utf16.pop();
            requery(state, catalog, custom);
            KeyAction::Redraw
        },
        _ => {
            let count = state.filtered.len();
            if count == 0 {
                return KeyAction::Redraw;
            }
            let layout = grid_layout(state);
            proof {
                lemma_layout_bounds(layout);
            }
            let cols = layout.cols;
            let s = if state.selected < count {
                state.selected
            } else {
                count - 1
            };
            let next = match key {
                PickerKey::Left => if s >= 1 {
                    s - 1
                } else {
                    0
                },
                PickerKey::Right => if s + 1 < count {
                    s + 1
                } else {
                    s
                },
                PickerKey::Up => if s >= cols {
                    s - cols
                } else {
                    s
                },
                _ => if s + cols < count {
                    s + cols
                } else {
                    s
                },
            };
            state.selected = next;
            ensure_selected_visible(state, count);
            KeyAction::Redraw
        },
    }
}

/// Whether a typed UTF-16 unit extends the search; control characters
/// (handled as keys) do not.
pub open spec fn is_search_unit(unit: u16) -> bool {
    unit >= 0x20 && unit != 0x7f
}

/// Handles a typed character: a printable unit is appended to the query
/// and the results are recomputed; answers whether it was taken.
pub fn handle_char(
    state: &mut PickerState,
    unit: u16,
    catalog: &[PickerItem],
    custom: &Vec<CustomItem>,
) -> (r: bool)
    requires
        old(state).wf(),
    ensures
        r == is_search_unit(unit),
        !r ==> *final(state) == *old(state),
        r ==> requeried(
            *old(state),
            *final(state),
            old(state).query_utf16@.push(unit),
            catalog@,
            views(custom@),
        ),
{
    if unit < 0x20 || unit == 0x7f {
        return false;
    }
    state.query_utf16.push(unit);
    requery(state, catalog, custom);
    true
}

/// The entries on the visible page, in order.
pub fn visible_entries(state: &PickerState) -> (r: Vec<CatalogRef>)
    requires
        state.wf(),
    ensures
        ({
            let layout = layout_for(category_spec(state.category_index as int));
            let len = state.filtered@.len() as int;
            let start = min_i(state.scroll as int, len);
            let end = min_i(start + layout.cols * layout.rows, len);
            r@ == state.filtered@.subrange(start, end)
        }),
{
    let layout = grid_layout(state);
    proof {
        lemma_layout_bounds(layout);
    }
    let len = state.filtered.len();
    let start = if state.scroll <= len {
        state.scroll
    } else {
        len
    };
    let visible = layout.cols * layout.rows;
    let end = if len - start >= visible {
        start + visible
    } else {
        len
    };
    let mut out: Vec<CatalogRef> = Vec::new();
    let mut i = start;
    while i < end
        invariant
            start <= i <= end <= len,
            len == state.filtered@.len(),
            out@ == state.filtered@.subrange(start as int, i as int),
        decreases end - i,
    {
        out.push(state.filtered[i]);
        i += 1;
    }
    out
}

/// Top-left corner of the card in visible slot `slot`.
pub open spec fn card_origin_spec(slot: int, layout: GridLayout) -> (int, int) {
    let cols = layout.cols as int;
    let row = slot / cols;
    let col = slot % cols;
    (
        PAD + col * (card_width_spec(layout) + layout.gap),
        CONTENT_TOP + row * (layout.card_h + layout.gap),
    )
}

/// The rectangle of the card in visible slot `slot`.
pub fn card_rect(slot: usize, layout: GridLayout) -> (r: Rect)
    requires
        valid_layout(layout),
        slot < layout.cols * layout.rows,
    ensures
        r.left == card_origin_spec(slot as int, layout).0,
        r.top == card_origin_spec(slot as int, layout).1,
        r.right == r.left + card_width_spec(layout),
        r.bottom == r.top + layout.card_h,
{
    proof {
        lemma_layout_bounds(layout);
        lemma_card_width(layout);
    }
    let cell_w = card_width(layout);
    let row = slot / layout.cols;
    let col = slot % layout.cols;
    assert(row < 5 && col < 8) by (nonlinear_arith)
        requires
            slot < layout.cols * layout.rows,
            row == slot / layout.cols,
            col == slot % layout.cols,
            1 <= layout.cols <= 8,
            1 <= layout.rows <= 5,
    ;
    assert(0 <= col * (cell_w + layout.gap) <= 8 * 160) by (nonlinear_arith)
        requires
            col < 8,
            0 <= cell_w <= 150,
            0 <= layout.gap <= 8,
    ;
    assert(0 <= row * (layout.card_h + layout.gap) <= 5 * 80) by (nonlinear_arith)
        requires
            row < 5,
            0 <= layout.card_h <= 64,
            0 <= layout.gap <= 8,
    ;
    let x = PAD + col as i32 * (cell_w + layout.gap);
    let y = CONTENT_TOP + row as i32 * (layout.card_h + layout.gap);
    Rect { left: x, top: y, right: x + cell_w, bottom: y + layout.card_h }
}

/// The tab rectangle of category `index`; the last tab reaches the right
/// padding, the others leave a three-pixel gap.
pub fn tab_rect(index: usize) -> (r: Rect)
    requires
        index < CATEGORY_COUNT,
    ensures
        r.left == PAD + 99 * index,
        r.top == TABS_Y,
        r.bottom == TABS_Y + TABS_H,
        r.right == if index + 1 == CATEGORY_COUNT {
            POPUP_W - PAD
        } else {
            r.left + 99 - 3
        },
{
    let tab_width = (POPUP_W - PAD * 2) / (CATEGORY_COUNT as i32);
    assert(tab_width == 99);
    assert(0 <= tab_width * (index as i32) <= 99 * 5) by (nonlinear_arith)
        requires
            tab_width == 99,
            index < 6,
    ;
    let left = PAD + tab_width * index as i32;
    let right = if index + 1 == CATEGORY_COUNT {
        POPUP_W - PAD
    } else {
        left + tab_width - 3
    };
    Rect { left, top: TABS_Y, right, bottom: TABS_Y + TABS_H }
}


/// Top of the row of action buttons between the card grid and the
/// branding line.
pub const ACTION_Y: i32 = 368;
/// Height of the action buttons.
pub const ACTION_H: i32 = 28;

/// The popup's action buttons, left to right.
#[derive(Clone, Copy, Debug, PartialEq, Eq, Structural)]
pub enum FooterAction {
    /// Open the custom items manager.
    Manage,
    /// Open the About window.
    About,
    /// Check for, or download, an update.
    Update,
    /// Switch between the dark and the light theme.
    Theme,
}

/// The rectangle of an action button.
pub open spec fn footer_button_spec(action: FooterAction) -> Rect {
    let (left, right) = match action {
        FooterAction::Manage => (PAD, 104i32),
        FooterAction::About => (112i32, 190i32),
        FooterAction::Update => (198i32, 302i32),
        FooterAction::Theme => (310i32, (POPUP_W - PAD) as i32),
    };
    Rect { left, top: ACTION_Y, right, bottom: (ACTION_Y + ACTION_H) as i32 }
}

/// See `footer_button_spec`.
pub fn footer_button(action: FooterAction) -> (r: Rect)
    ensures
        r == footer_button_spec(action),
{
    let (left, right) = match action {
        FooterAction::Manage => (PAD, 104i32),
        FooterAction::About => (112i32, 190i32),
        FooterAction::Update => (198i32, 302i32),
        FooterAction::Theme => (310i32, POPUP_W - PAD),
    };
    Rect { left, top: ACTION_Y, right, bottom: ACTION_Y + ACTION_H }
}

/// The action button under a client point, if any.
pub fn footer_action_at(x: i32, y: i32) -> (r: Option<FooterAction>)
    ensures
        r matches Some(a) ==> contains_spec(footer_button_spec(a), x as int, y as int),
        r.is_none() ==> forall|a: FooterAction|
            !contains_spec(#[trigger] footer_button_spec(a), x as int, y as int),
{
    if rect_contains(footer_button(FooterAction::Manage), x, y) {
        Some(FooterAction::Manage)
    } else if rect_contains(footer_button(FooterAction::About), x, y) {
        Some(FooterAction::About)
    } else if rect_contains(footer_button(FooterAction::Update), x, y) {
        Some(FooterAction::Update)
    } else if rect_contains(footer_button(FooterAction::Theme), x, y) {
        Some(FooterAction::Theme)
    } else {
        proof {
            assert forall|a: FooterAction|
                !contains_spec(#[trigger] footer_button_spec(a), x as int, y as int) by {
                match a {
                    FooterAction::Manage => {},
                    FooterAction::About => {},
                    FooterAction::Update => {},
                    FooterAction::Theme => {},
                }
            }
        }
        None
    }
}

/// The action buttons do not overlap one another, a point on one selects no
/// card of either grid, and they end above the branding line.
pub proof fn lemma_footer_buttons_apart(
    a: FooterAction,
    b: FooterAction,
    x: int,
    y: int,
    layout: GridLayout,
    scroll: int,
    count: int,
)
    requires
        contains_spec(footer_button_spec(a), x, y),
        contains_spec(footer_button_spec(b), x, y),
        valid_layout(layout),
    ensures
        a == b,
        hit_item_spec(x, y, layout, scroll, count).is_none(),
        y < FOOTER_Y,
{
    lemma_card_width(layout);
    let rel_y = y - CONTENT_TOP;
    let stride = layout.card_h + layout.gap;
    assert(rel_y / stride >= layout.rows) by (nonlinear_arith)
        requires
            ACTION_Y - CONTENT_TOP <= rel_y < ACTION_Y + ACTION_H - CONTENT_TOP,
            (layout.rows == 4 && stride == 64) || (layout.rows == 5 && stride == 52),
    ;
}


/// The two halves of the branding line at the bottom of the popup: the
/// application's name and version on the left, the author on the right.
pub fn brand_rects() -> (r: (Rect, Rect))
    ensures
        r.0 == (Rect { left: PAD, top: FOOTER_Y, right: (POPUP_W / 2) as i32, bottom: (FOOTER_Y + FOOTER_H) as i32 }),
        r.1 == (Rect {
            left: (POPUP_W / 2) as i32,
            top: FOOTER_Y,
            right: (POPUP_W - PAD) as i32,
            bottom: (FOOTER_Y + FOOTER_H) as i32,
        }),
{
    let split = POPUP_W / 2;
    (
        Rect { left: PAD, top: FOOTER_Y, right: split, bottom: FOOTER_Y + FOOTER_H },
        Rect { left: split, top: FOOTER_Y, right: POPUP_W - PAD, bottom: FOOTER_Y + FOOTER_H },
    )
}

/// The left half of the branding line: the application's name and version.
pub open spec fn brand_name_spec(version: Seq<char>) -> Seq<char> {
    "Windows Emoji Picker v"@ + version
}

/// See `brand_name_spec`.
pub fn brand_name_line(version: &str) -> (r: String)
    ensures
        r@ == brand_name_spec(version@),
{
    let mut chars = chars_of("Windows Emoji Picker v");
    let mut rest = chars_of(version);
    chars.append(&mut rest);
    string_from_chars(&chars)
}

/// The right half of the branding line: the author and the web site.
pub fn brand_author_line() -> (r: &'static str)
    ensures
        r@ == "عماد قاسمی - emadghasemi.ir"@,
{
    "عماد قاسمی - emadghasemi.ir"
}

/// The fill of the card at `position`: the selection colour for the
/// selected card, the alternate surface under the mouse, else the surface.
pub open spec fn card_fill_spec(palette: Palette, position: int, selected: int, hovered: Option<usize>) -> u32 {
    if position == selected {
        palette.selected
    } else if hovered == Some(position as usize) {
        palette.surface_alt
    } else {
        palette.surface
    }
}

/// See `card_fill_spec`.
pub fn card_fill(palette: &Palette, position: usize, selected: usize, hovered: Option<usize>) -> (r: u32)
    ensures
        r == card_fill_spec(*palette, position as int, selected as int, hovered),
{
    if position == selected {
        palette.selected
    } else if hovered == Some(position) {
        palette.surface_alt
    } else {
        palette.surface
    }
}

/// Fill and label colour of a category tab: accent for the active tab,
/// surface and muted text for the others.
pub fn tab_colors(palette: &Palette, active: bool) -> (r: (u32, u32))
    ensures
        r == if active {
            (palette.accent, palette.accent_text)
        } else {
            (palette.surface, palette.muted)
        },
{
    if active {
        (palette.accent, palette.accent_text)
    } else {
        (palette.surface, palette.muted)
    }
}

/// Label colour of an action button: the update button in the event colour
/// while a release waits, the theme button in the accent colour, the
/// others in the text colour.
pub fn footer_label_color(palette: &Palette, action: FooterAction, update_waiting: bool) -> (r: u32)
    ensures
        r == match action {
            FooterAction::Update => if update_waiting {
                palette.event
            } else {
                palette.text
            },
            FooterAction::Theme => palette.accent,
            _ => palette.text,
        },
{
    match action {
        FooterAction::Update => if update_waiting {
            palette.event
        } else {
            palette.text
        },
        FooterAction::Theme => palette.accent,
        _ => palette.text,
    }
}

/// Kind, title and content of the entry a reference points to, if it
/// points to one.
pub open spec fn entry_payload(
    entry: CatalogRef,
    catalog: Seq<PickerItem>,
    custom: Seq<CustomItemView>,
) -> Option<(ItemKind, Seq<char>, Seq<char>)> {
    match entry {
        CatalogRef::Builtin(i) => if i < catalog.len() {
            Some((catalog[i as int].kind, catalog[i as int].title@, catalog[i as int].content@))
        } else {
            None
        },
        CatalogRef::Custom(j) => if j < custom.len() {
            Some((custom[j as int].kind, custom[j as int].title, custom[j as int].content))
        } else {
            None
        },
    }
}

/// The preview shown for an entry: its kind, title and content.
pub fn preview_payload_for_entry(
    entry: CatalogRef,
    catalog: &[PickerItem],
    custom: &Vec<CustomItem>,
) -> (r: Option<(ItemKind, String, String)>)
    ensures
        match r {
            Some(p) => entry_payload(entry, catalog@, views(custom@)) == Some((p.0, p.1@, p.2@)),
            None => entry_payload(entry, catalog@, views(custom@)).is_none(),
        },
{
    match entry {
        CatalogRef::Builtin(index) => {
            if index >= catalog.len() {
                return None;
            }
            let item = catalog[index];
            Some((item.kind, String::from_str(item.title), String::from_str(item.content)))
        },
        CatalogRef::Custom(index) => {
            if index >= custom.len() {
                return None;
            }
            let item = &custom[index];
            proof {
                assert(views(custom@)[index as int] == custom@[index as int]@);
            }
            Some((item.kind, item.title.clone(), item.content.clone()))
        },
    }
}

/// Selects the card under a client point and answers its preview; nothing
/// changes and nothing is answered when no card is there.
pub fn preview_select_at_client(
    state: &mut PickerState,
    x: i32,
    y: i32,
    catalog: &[PickerItem],
    custom: &Vec<CustomItem>,
) -> (r: Option<(ItemKind, String, String)>)
    requires
        old(state).wf(),
        fits_i32(x - PAD),
        old(state).scroll + 64 * 64 <= usize::MAX,
    ensures
        ({
            let hit = hit_item_spec(
                x as int,
                y as int,
                layout_for(category_spec(old(state).category_index as int)),
                old(state).scroll as int,
                old(state).filtered@.len() as int,
            );
            &&& hit.is_none() ==> *final(state) == *old(state) && r.is_none()
            &&& hit.is_some() ==> {
                let p = hit.unwrap();
                &&& final(state).selected == p
                &&& final(state).hovered == Some(p as usize)
                &&& match r {
                    Some(v) => entry_payload(old(state).filtered@[p], catalog@, views(custom@))
                        == Some((v.0, v.1@, v.2@)),
                    None => entry_payload(old(state).filtered@[p], catalog@, views(custom@)).is_none(),
                }
            }
        }),
        final(state).category_index == old(state).category_index,
        final(state).query_utf16@ == old(state).query_utf16@,
        final(state).scroll == old(state).scroll,
        final(state).filtered@ == old(state).filtered@,
        final(state).target == old(state).target,
{
    let position = match hit_test_item(x, y, state) {
        Some(p) => p,
        None => {
            return None;
        },
    };
    state.selected = position;
    state.hovered = Some(position);
    let entry = state.filtered[position];
    preview_payload_for_entry(entry, catalog, custom)
}

/// The preview of the hovered card, if any.
pub fn preview_hover_payload(
    state: &PickerState,
    catalog: &[PickerItem],
    custom: &Vec<CustomItem>,
) -> (r: Option<(ItemKind, String, String)>)
    ensures
        match state.hovered {
            Some(p) if p < state.filtered@.len() => match r {
                Some(v) => entry_payload(state.filtered@[p as int], catalog@, views(custom@)) == Some(
                    (v.0, v.1@, v.2@),
                ),
                None => entry_payload(state.filtered@[p as int], catalog@, views(custom@)).is_none(),
            },
            _ => r.is_none(),
        },
{
    let position = match state.hovered {
        Some(p) => p,
        None => {
            return None;
        },
    };
    if position >= state.filtered.len() {
        return None;
    }
    preview_payload_for_entry(state.filtered[position], catalog, custom)
}

/// The preview of the selected card, if any.
pub fn preview_selected_payload(
    state: &PickerState,
    catalog: &[PickerItem],
    custom: &Vec<CustomItem>,
) -> (r: Option<(ItemKind, String, String)>)
    ensures
        state.selected < state.filtered@.len() ==> match r {
            Some(v) => entry_payload(state.filtered@[state.selected as int], catalog@, views(custom@))
                == Some((v.0, v.1@, v.2@)),
            None => entry_payload(
                state.filtered@[state.selected as int],
                catalog@,
                views(custom@),
            ).is_none(),
        },
        state.selected >= state.filtered@.len() ==> r.is_none(),
{
    if state.selected >= state.filtered.len() {
        return None;
    }
    preview_payload_for_entry(state.filtered[state.selected], catalog, custom)
}

/// What to insert and where: the target window and the content of the
/// selected entry.
pub fn insert_selection(
    state: &PickerState,
    catalog: &[PickerItem],
    custom: &Vec<CustomItem>,
) -> (r: Option<(usize, String)>)
    ensures
        ({
            let payload = if state.selected < state.filtered@.len() {
                entry_payload(state.filtered@[state.selected as int], catalog@, views(custom@))
            } else {
                None
            };
            &&& r.is_some() == payload.is_some()
            &&& r matches Some(v) ==> v.0 == state.target && v.1@ == payload.unwrap().2
        }),
{
    match preview_selected_payload(state, catalog, custom) {
        Some(payload) => Some((state.target, payload.2)),
        None => None,
    }
}

/// The target may be brought forward only when one was captured and it
/// still is a window.
pub fn target_usable(target: usize, target_is_window: bool) -> (r: bool)
    ensures
        r == (target != 0 && target_is_window),
{
    target != 0 && target_is_window
}

/// Text is typed only when the captured target really became the
/// foreground window: never into an unexpected window.
pub fn injection_confirmed(target: usize, foreground: usize) -> (r: bool)
    ensures
        r == (target != 0 && foreground == target),
{
    target != 0 && foreground == target
}

/// The text to type once the target was brought forward: the selected
/// entry's content, and only when an entry is selected, a target was
/// captured, it still is a window (`target_is_window`) and it now is the
/// foreground window (`foreground`). In every other case nothing is typed,
/// so text never reaches a window other than the captured one.
pub fn confirmed_insertion(
    state: &PickerState,
    catalog: &[PickerItem],
    custom: &Vec<CustomItem>,
    target_is_window: bool,
    foreground: usize,
) -> (r: Option<String>)
    ensures
        ({
            let payload = if state.selected < state.filtered@.len() {
                entry_payload(state.filtered@[state.selected as int], catalog@, views(custom@))
            } else {
                None
            };
            &&& r.is_some() == (payload.is_some() && state.target != 0 && target_is_window && foreground
                == state.target)
            &&& r matches Some(text) ==> text@ == payload.unwrap().2
        }),
{
    if !target_usable(state.target, target_is_window) || !injection_confirmed(state.target, foreground) {
        return None;
    }
    match insert_selection(state, catalog, custom) {
        Some(selection) => Some(selection.1),
        None => None,
    }
}

/// One synthetic keyboard event carrying a UTF-16 unit.
#[derive(Clone, Copy, Debug, PartialEq, Eq, Structural)]
pub struct KeyEvent {
    pub unit: u16,
    pub key_up: bool,
}

/// The key events that type `text`: for each UTF-16 unit a key-down then a
/// key-up.
pub open spec fn key_events_spec(text: Seq<char>) -> Seq<KeyEvent> {
    let units = utf16_encode(text);
    Seq::new(
        units.len() * 2,
        |i: int| KeyEvent { unit: units[i / 2], key_up: i % 2 == 1 },
    )
}

/// The events `send_unicode_text` hands to `SendInput`.
pub fn unicode_key_events(text: &str) -> (r: Vec<KeyEvent>)
    ensures
        r@ == key_events_spec(text@),
{
    let units = encode_utf16(text);
    let mut out: Vec<KeyEvent> = Vec::new();
    let mut i: usize = 0;
    while i < units.len()
        invariant
            i <= units.len(),
            units@ == utf16_encode(text@),
            out@.len() == 2 * i,
            forall|k: int| 0 <= k < 2 * i ==> #[trigger] out@[k] == (KeyEvent {
                unit: units@[k / 2],
                key_up: k % 2 == 1,
            }),
        decreases units.len() - i,
    {
        out.push(KeyEvent { unit: units[i], key_up: false });
        out.push(KeyEvent { unit: units[i], key_up: true });
        i += 1;
    }
    assert(out@ =~= key_events_spec(text@));
    out
}

/// A zero-terminated UTF-16 string, as Win32 APIs take it.
pub fn wide(text: &str) -> (r: Vec<u16>)
    ensures
        r@ == utf16_encode(text@).push(0),
{
    let mut units = encode_utf16(text);
    units.push(0);
    units
}

/// `output` after `copy_wide_fixed`: the first `N - 1` UTF-16 units of the
/// text at most, zeros after them.
pub open spec fn wide_fixed_spec(text: Seq<char>, n: nat) -> Seq<u16> {
    let units = utf16_encode(text);
    let keep = min_i(if n > 0 {
        n - 1
    } else {
        0
    }, units.len() as int);
    Seq::new(n, |i: int| if i < keep { units[i] } else { 0u16 })
}

/// Copies a string into a fixed-size zero-terminated UTF-16 buffer,
/// truncating it to leave room for the terminator.
pub fn copy_wide_fixed<const N: usize>(text: &str, output: &mut [u16; N])
    ensures
        final(output)@ == wide_fixed_spec(text@, N as nat),
{
    let units = encode_utf16(text);
    let keep = if N == 0 {
        0
    } else if N - 1 < units.len() {
        N - 1
    } else {
        units.len()
    };
    let mut i: usize = 0;
    while i < N
        invariant
            i <= N,
            units@ == utf16_encode(text@),
            keep <= units@.len(),
            keep == min_i(if N > 0 { N - 1 } else { 0 }, units@.len() as int),
            output@.len() == N,
            forall|k: int| 0 <= k < i ==> #[trigger] output@[k] == if k < keep {
                units@[k]
            } else {
                0u16
            },
        decreases N - i,
    {
        let value = if i < keep {
            units[i]
        } else {
            0
        };
        output[i] = value;
        i += 1;
    }
    assert(output@ =~= wide_fixed_spec(text@, N as nat));
}

/// The single-line preview text of a card: the first line of ASCII art;
/// for other kinds the content with carriage returns dropped and each
/// newline shown as " ↵ ".
pub open spec fn preview_text_spec(kind: ItemKind, content: Seq<char>) -> Seq<char> {
    if kind == ItemKind::Ascii {
        match first_line(content) {
            Some(line) => line,
            None => content,
        }
    } else {
        replace_char_spec(
            replace_char_spec(content, '\r', Seq::empty()),
            '\n',
            seq![' ', '\u{21B5}', ' '],
        )
    }
}

/// See `preview_text_spec`.
pub fn preview_text(item: PickerItem) -> (r: String)
    ensures
        r@ == preview_text_spec(item.kind, item.content@),
{
    let content = chars_of(item.content);
    if item.kind == ItemKind::Ascii {
        match first_line_chars(&content) {
            Some(line) => string_from_chars(&line),
            None => String::from_str(item.content),
        }
    } else {
        let nothing: Vec<char> = Vec::new();
        let no_cr = replace_char(&content, '\r', &nothing);
        let mut arrow: Vec<char> = Vec::new();
        arrow.push(' ');
        arrow.push('\u{21B5}');
        arrow.push(' ');
        assert(arrow@ =~= seq![' ', '\u{21B5}', ' ']);
        assert(nothing@ =~= Seq::<char>::empty());
        string_from_chars(&replace_char(&no_cr, '\n', &arrow))
    }
}

/// Where the picker opens for a caret or cursor anchor: 10 pixels below
/// it, moved left to stay on the work area, above the anchor when it
/// would cross the bottom, never above the top. Without a monitor work
/// area the anchor-sized area is used.
pub open spec fn popup_position_spec(anchor: Point, work: Rect) -> (int, int) {
    let x0 = if anchor.x + POPUP_W > work.right {
        work.right - POPUP_W
    } else {
        anchor.x as int
    };
    let x = if x0 < work.left {
        work.left as int
    } else {
        x0
    };
    let y0 = if anchor.y + 10 + POPUP_H > work.bottom {
        anchor.y - POPUP_H - 10
    } else {
        anchor.y + 10
    };
    let y = if y0 < work.top {
        work.top as int
    } else {
        y0
    };
    (x, y)
}

/// See `popup_position_spec`.
pub fn popup_position(anchor: Point, work: Option<Rect>) -> (r: (i32, i32))
    requires
        fits_i32(anchor.x + POPUP_W),
        fits_i32(anchor.y + POPUP_H + 10),
        fits_i32(anchor.y - POPUP_H - 10),
        work matches Some(w) ==> fits_i32(w.right - POPUP_W),
    ensures
        ({
            let w = match work {
                Some(w) => w,
                None => Rect {
                    left: 0,
                    top: 0,
                    right: (anchor.x + POPUP_W) as i32,
                    bottom: (anchor.y + POPUP_H) as i32,
                },
            };
            (r.0 as int, r.1 as int) == popup_position_spec(anchor, w)
        }),
{
    let w = match work {
        Some(w) => w,
        None => Rect { left: 0, top: 0, right: anchor.x + POPUP_W, bottom: anchor.y + POPUP_H },
    };
    let mut x = anchor.x;
    let mut y = anchor.y + 10;
    if x + POPUP_W > w.right {
        x = w.right - POPUP_W;
    }
    if x < w.left {
        x = w.left;
    }
    if y + POPUP_H > w.bottom {
        y = anchor.y - POPUP_H - 10;
    }
    if y < w.top {
        y = w.top;
    }
    (x, y)
}


/// A card hit is always an existing entry on the visible page.
pub proof fn lemma_hit_is_visible(x: int, y: int, layout: GridLayout, scroll: int, count: int)
    requires
        valid_layout(layout),
        scroll >= 0,
        hit_item_spec(x, y, layout, scroll, count).is_some(),
    ensures
        ({
            let p = hit_item_spec(x, y, layout, scroll, count).unwrap();
            scroll <= p < scroll + layout.cols * layout.rows && p < count
        }),
{
    lemma_layout_bounds(layout);
    lemma_card_width(layout);
    let cell_w = card_width_spec(layout);
    let rel_x = x - PAD;
    let rel_y = y - CONTENT_TOP;
    let col = rel_x / (cell_w + layout.gap);
    let row = rel_y / (layout.card_h + layout.gap);
    assert(col >= 0 && row >= 0) by (nonlinear_arith)
        requires
            rel_x >= 0,
            rel_y >= 0,
            cell_w + layout.gap > 0,
            layout.card_h + layout.gap > 0,
            col == rel_x / (cell_w + layout.gap),
            row == rel_y / (layout.card_h + layout.gap),
    ;
    assert(row * layout.cols + col < layout.cols * layout.rows) by (nonlinear_arith)
        requires
            0 <= row < layout.rows,
            0 <= col < layout.cols,
    ;
}

/// Every point of a visible card selects that card's entry.
pub proof fn lemma_card_hit(layout: GridLayout, scroll: int, count: int, slot: int, dx: int, dy: int)
    requires
        valid_layout(layout),
        scroll >= 0,
        0 <= slot < layout.cols * layout.rows,
        scroll + slot < count,
        0 <= dx < card_width_spec(layout),
        0 <= dy < layout.card_h,
    ensures
        hit_item_spec(
            card_origin_spec(slot, layout).0 + dx,
            card_origin_spec(slot, layout).1 + dy,
            layout,
            scroll,
            count,
        ) == Some(scroll + slot),
{
    lemma_layout_bounds(layout);
    lemma_card_width(layout);
    let c = layout.cols as int;
    let cell_w = card_width_spec(layout);
    let sx = cell_w + layout.gap;
    let sy = layout.card_h + layout.gap;
    let row = slot / c;
    let col = slot % c;
    assert(slot == row * c + col && 0 <= col < c && 0 <= row) by (nonlinear_arith)
        requires
            row == slot / c,
            col == slot % c,
            c >= 1,
            slot >= 0,
    ;
    assert(row < layout.rows) by (nonlinear_arith)
        requires
            slot == row * c + col,
            0 <= col < c,
            slot < c * layout.rows,
            c >= 1,
    ;
    let rel_x = col * sx + dx;
    let rel_y = row * sy + dy;
    assert(rel_x / sx == col && rel_x % sx == dx) by (nonlinear_arith)
        requires
            rel_x == col * sx + dx,
            0 <= dx < sx,
            col >= 0,
    ;
    assert(rel_y / sy == row && rel_y % sy == dy) by (nonlinear_arith)
        requires
            rel_y == row * sy + dy,
            0 <= dy < sy,
            row >= 0,
    ;
    assert(rel_y < FOOTER_Y - 8 - CONTENT_TOP) by (nonlinear_arith)
        requires
            rel_y == row * sy + dy,
            0 <= row < layout.rows,
            0 <= dy < layout.card_h,
            sy == layout.card_h + layout.gap,
            (layout.rows == 4 && layout.card_h == 56 && layout.gap == 8) || (layout.rows == 5
                && layout.card_h == 46 && layout.gap == 6),
    ;
    assert(rel_x >= 0 && rel_y >= 0) by (nonlinear_arith)
        requires
            rel_x == col * sx + dx,
            rel_y == row * sy + dy,
            col >= 0,
            row >= 0,
            sx > 0,
            sy > 0,
            dx >= 0,
            dy >= 0,
    ;
}

/// A wheel notch never scrolls past the last page.
pub proof fn lemma_wheel_in_range(scroll: int, delta: int, count: int, layout: GridLayout)
    requires
        valid_layout(layout),
        0 <= scroll <= max_scroll_spec(count, layout),
    ensures
        0 <= wheel_scroll_spec(scroll, delta, count, layout) <= max_scroll_spec(count, layout),
{
}

/// Every listed entry exists and matches the tab and the query.
pub proof fn lemma_filter_sound(
    catalog: Seq<PickerItem>,
    custom: Seq<CustomItemView>,
    category: Option<ItemKind>,
    query: Seq<char>,
    k: int,
)
    requires
        0 <= k < filter_spec(catalog, custom, category, query).len(),
        catalog.len() <= usize::MAX,
        custom.len() <= usize::MAX,
    ensures
        ({
            let entry = filter_spec(catalog, custom, category, query)[k];
            let payload = entry_payload(entry, catalog, custom);
            &&& payload.is_some()
            &&& match entry {
                CatalogRef::Builtin(i) => entry_matches(
                    catalog[i as int].kind,
                    catalog[i as int].title@,
                    catalog[i as int].content@,
                    catalog[i as int].keywords@,
                    category,
                    query,
                ),
                CatalogRef::Custom(j) => entry_matches(
                    custom[j as int].kind,
                    custom[j as int].title,
                    custom[j as int].content,
                    custom[j as int].keywords,
                    category,
                    query,
                ),
            }
        }),
{
    let b = builtin_matches(catalog, category, query);
    if k < b.len() {
        lemma_builtin_sound(catalog, category, query, k);
        assert(filter_spec(catalog, custom, category, query)[k] == b[k]);
    } else {
        lemma_custom_sound(custom, category, query, k - b.len());
        assert(filter_spec(catalog, custom, category, query)[k] == custom_matches(
            custom,
            category,
            query,
        )[k - b.len()]);
    }
}

proof fn lemma_builtin_sound(catalog: Seq<PickerItem>, category: Option<ItemKind>, query: Seq<char>, k: int)
    requires
        0 <= k < builtin_matches(catalog, category, query).len(),
        catalog.len() <= usize::MAX,
    ensures
        builtin_matches(catalog, category, query)[k] matches CatalogRef::Builtin(i) && i
            < catalog.len() && entry_matches(
            catalog[i as int].kind,
            catalog[i as int].title@,
            catalog[i as int].content@,
            catalog[i as int].keywords@,
            category,
            query,
        ),
    decreases catalog.len(),
{
    assert(catalog.len() > 0);
    let rest = builtin_matches(catalog.drop_last(), category, query);
    let all = builtin_matches(catalog, category, query);
    if k < rest.len() {
        lemma_builtin_sound(catalog.drop_last(), category, query, k);
        assert(all[k] == rest[k]);
        let e = rest[k];
        if let CatalogRef::Builtin(i) = e {
            assert(catalog.drop_last()[i as int] == catalog[i as int]);
        }
    } else {
        assert(all == rest.push(CatalogRef::Builtin((catalog.len() - 1) as usize)));
        assert(catalog.last() == catalog[catalog.len() - 1]);
    }
}

proof fn lemma_custom_sound(items: Seq<CustomItemView>, category: Option<ItemKind>, query: Seq<char>, k: int)
    requires
        0 <= k < custom_matches(items, category, query).len(),
        items.len() <= usize::MAX,
    ensures
        custom_matches(items, category, query)[k] matches CatalogRef::Custom(j) && j < items.len()
            && entry_matches(
            items[j as int].kind,
            items[j as int].title,
            items[j as int].content,
            items[j as int].keywords,
            category,
            query,
        ),
    decreases items.len(),
{
    assert(items.len() > 0);
    let rest = custom_matches(items.drop_last(), category, query);
    let all = custom_matches(items, category, query);
    if k < rest.len() {
        lemma_custom_sound(items.drop_last(), category, query, k);
        assert(all[k] == rest[k]);
        let e = rest[k];
        if let CatalogRef::Custom(j) = e {
            assert(items.drop_last()[j as int] == items[j as int]);
        }
    } else {
        assert(all == rest.push(CatalogRef::Custom((items.len() - 1) as usize)));
        assert(items.last() == items[items.len() - 1]);
    }
}

/// Opened at an anchor within the work area's height, on a work area that
/// can hold it, the picker lies entirely on the work area.
pub proof fn lemma_popup_inside(anchor: Point, work: Rect)
    requires
        work.right - work.left >= POPUP_W,
        work.bottom - work.top >= POPUP_H,
        work.top <= anchor.y <= work.bottom,
    ensures
        ({
            let p = popup_position_spec(anchor, work);
            &&& work.left <= p.0 && p.0 + POPUP_W <= work.right
            &&& work.top <= p.1 && p.1 + POPUP_H <= work.bottom
        }),
{
}

/// Every existing entry that matches the tab and the query is listed.
pub proof fn lemma_filter_complete(
    catalog: Seq<PickerItem>,
    custom: Seq<CustomItemView>,
    category: Option<ItemKind>,
    query: Seq<char>,
    entry: CatalogRef,
)
    requires
        catalog.len() <= usize::MAX,
        custom.len() <= usize::MAX,
        match entry {
            CatalogRef::Builtin(i) => i < catalog.len() && entry_matches(
                catalog[i as int].kind,
                catalog[i as int].title@,
                catalog[i as int].content@,
                catalog[i as int].keywords@,
                category,
                query,
            ),
            CatalogRef::Custom(j) => j < custom.len() && entry_matches(
                custom[j as int].kind,
                custom[j as int].title,
                custom[j as int].content,
                custom[j as int].keywords,
                category,
                query,
            ),
        },
    ensures
        filter_spec(catalog, custom, category, query).contains(entry),
{
    let b = builtin_matches(catalog, category, query);
    let c = custom_matches(custom, category, query);
    let all = filter_spec(catalog, custom, category, query);
    assert(all == b + c);
    match entry {
        CatalogRef::Builtin(i) => {
            lemma_builtin_complete(catalog, category, query, i as int);
            let k = choose|k: int| 0 <= k < b.len() && b[k] == entry;
            assert(all[k] == entry);
        },
        CatalogRef::Custom(j) => {
            lemma_custom_complete(custom, category, query, j as int);
            let k = choose|k: int| 0 <= k < c.len() && c[k] == entry;
            assert(all[b.len() + k] == entry);
        },
    }
}

proof fn lemma_builtin_complete(catalog: Seq<PickerItem>, category: Option<ItemKind>, query: Seq<char>, i: int)
    requires
        0 <= i < catalog.len(),
        catalog.len() <= usize::MAX,
        entry_matches(
            catalog[i].kind,
            catalog[i].title@,
            catalog[i].content@,
            catalog[i].keywords@,
            category,
            query,
        ),
    ensures
        builtin_matches(catalog, category, query).contains(CatalogRef::Builtin(i as usize)),
    decreases catalog.len(),
{
    let rest = builtin_matches(catalog.drop_last(), category, query);
    let all = builtin_matches(catalog, category, query);
    let entry = CatalogRef::Builtin(i as usize);
    if i == catalog.len() - 1 {
        assert(catalog.last() == catalog[i]);
        assert(all == rest.push(entry));
        assert(all[rest.len() as int] == entry);
    } else {
        assert(catalog.drop_last()[i] == catalog[i]);
        lemma_builtin_complete(catalog.drop_last(), category, query, i);
        let k = choose|k: int| 0 <= k < rest.len() && rest[k] == entry;
        assert(all[k] == entry);
    }
}

proof fn lemma_custom_complete(items: Seq<CustomItemView>, category: Option<ItemKind>, query: Seq<char>, j: int)
    requires
        0 <= j < items.len(),
        items.len() <= usize::MAX,
        entry_matches(items[j].kind, items[j].title, items[j].content, items[j].keywords, category, query),
    ensures
        custom_matches(items, category, query).contains(CatalogRef::Custom(j as usize)),
    decreases items.len(),
{
    let rest = custom_matches(items.drop_last(), category, query);
    let all = custom_matches(items, category, query);
    let entry = CatalogRef::Custom(j as usize);
    if j == items.len() - 1 {
        assert(items.last() == items[j]);
        assert(all == rest.push(entry));
        assert(all[rest.len() as int] == entry);
    } else {
        assert(items.drop_last()[j] == items[j]);
        lemma_custom_complete(items.drop_last(), category, query, j);
        let k = choose|k: int| 0 <= k < rest.len() && rest[k] == entry;
        assert(all[k] == entry);
    }
}

/// Search finds a built-in item by any of its three texts on every tab
/// alike: an item whose kind belongs to the tab (every kind on "All") and
/// whose lower-cased title, content or keywords contain the query is
/// listed.
pub proof fn lemma_search_finds_builtin(
    catalog: Seq<PickerItem>,
    custom: Seq<CustomItemView>,
    category: Option<ItemKind>,
    query: Seq<char>,
    i: int,
)
    requires
        catalog.len() <= usize::MAX,
        custom.len() <= usize::MAX,
        0 <= i < catalog.len(),
        category.is_none() || category == Some(catalog[i].kind),
        contains_seq(lowercase(catalog[i].title@), query) || contains_seq(
            lowercase(catalog[i].content@),
            query,
        ) || contains_seq(lowercase(catalog[i].keywords@), query),
    ensures
        filter_spec(catalog, custom, category, query).contains(CatalogRef::Builtin(i as usize)),
{
    lemma_filter_complete(catalog, custom, category, query, CatalogRef::Builtin(i as usize));
}

/// Search finds a custom item by any of its three texts on every tab
/// alike, as it does the built-in items.
pub proof fn lemma_search_finds_custom(
    catalog: Seq<PickerItem>,
    custom: Seq<CustomItemView>,
    category: Option<ItemKind>,
    query: Seq<char>,
    j: int,
)
    requires
        catalog.len() <= usize::MAX,
        custom.len() <= usize::MAX,
        0 <= j < custom.len(),
        category.is_none() || category == Some(custom[j].kind),
        contains_seq(lowercase(custom[j].title), query) || contains_seq(lowercase(custom[j].content), query)
            || contains_seq(lowercase(custom[j].keywords), query),
    ensures
        filter_spec(catalog, custom, category, query).contains(CatalogRef::Custom(j as usize)),
{
    lemma_filter_complete(catalog, custom, category, query, CatalogRef::Custom(j as usize));
}

/// Keeping the selection in view moves the grid no further than needed: a
/// selected entry above the page becomes the top row, one below the page
/// becomes the bottom row, and a visible one leaves the grid where it is.
/// Rows start at multiples of the column count.
pub proof fn lemma_reveal_is_minimal(selected: int, scroll: int, count: int, layout: GridLayout)
    requires
        valid_layout(layout),
        0 <= selected < count,
        0 <= scroll <= max_scroll_spec(count, layout),
    ensures
        ({
            let s = ensure_visible_spec(selected, scroll, count, layout);
            let c = layout.cols as int;
            let v = c * layout.rows;
            &&& selected < scroll ==> s % c == 0 && s <= selected < s + c
            &&& selected >= scroll + v ==> s % c == 0 && s + (layout.rows - 1) * c <= selected < s + v
            &&& scroll <= selected < scroll + v ==> s == scroll
        }),
{
    lemma_layout_bounds(layout);
    let c = layout.cols as int;
    let r = layout.rows as int;
    let v = c * r;
    let row = selected / c;
    let total = row_count(count, c);
    let max = max_scroll_spec(count, layout);
    assert(row * c <= selected < row * c + c && (row * c) % c == 0 && row >= 0) by (nonlinear_arith)
        requires
            c >= 1,
            selected >= 0,
            row == selected / c,
    ;
    assert(row < total) by (nonlinear_arith)
        requires
            c >= 1,
            row * c <= selected < count,
            total == (count + c - 1) / c,
    ;
    if selected < scroll {
        assert(reveal_scroll(selected, scroll, layout) == row * c);
    } else if selected >= scroll + v {
        assert(v == r * c) by (nonlinear_arith)
            requires
                v == c * r,
        ;
        assert(row >= r) by (nonlinear_arith)
            requires
                c >= 1,
                selected >= v,
                v == r * c,
                selected < row * c + c,
        ;
        let first = row - (r - 1);
        assert(reveal_scroll(selected, scroll, layout) == first * c);
        assert(first * c + (r - 1) * c == row * c && first * c + v == row * c + c && (first * c) % c
            == 0) by (nonlinear_arith)
            requires
                first == row - (r - 1),
                v == r * c,
                c >= 1,
                first >= 0,
        ;
        assert(total > r);
        assert(max == (total - r) * c);
        assert(first * c <= (total - r) * c) by (nonlinear_arith)
            requires
                first <= total - r,
                c >= 1,
        ;
    } else {
        assert(reveal_scroll(selected, scroll, layout) == scroll);
    }
}

/// Whatever is typed into the search box without control characters,
/// spaces and characters beyond the basic plane included, goes into the
/// query: every UTF-16 unit of such text is taken by `handle_char`.
pub proof fn lemma_typed_text_is_searched(text: Seq<char>)
    requires
        forall|i: int| 0 <= i < text.len() ==> 0x20 <= #[trigger] (text[i] as u32) && text[i] as u32 != 0x7f,
    ensures
        forall|k: int| 0 <= k < utf16_encode(text).len() ==> is_search_unit(#[trigger] utf16_encode(text)[k]),
    decreases text.len(),
{
    if text.len() > 0 {
        let init = text.drop_last();
        assert forall|i: int| 0 <= i < init.len() implies 0x20 <= #[trigger] (init[i] as u32) && init[i] as u32
            != 0x7f by {
            assert(init[i] == text[i]);
        }
        lemma_typed_text_is_searched(init);
        let c = text.last();
        assert(0x20 <= (text[text.len() - 1] as u32));
        let tail = utf16_of_char(c);
        assert forall|k: int| 0 <= k < tail.len() implies is_search_unit(#[trigger] tail[k]) by {
            let v = c as u32;
            if v < 0x10000 {
                assert(tail == seq![v as u16]);
                assert(k == 0);
                assert((v as u16) as int == v as int);
            } else {
                vstd::utf8::char_is_scalar(c);
                assert(v <= 0x10FFFF);
                let w = v - 0x10000;
                assert(0 <= w / 0x400 < 0x400 && 0 <= w % 0x400 < 0x400) by (nonlinear_arith)
                    requires
                        0 <= w < 0x100000,
                ;
            }
        }
        let all = utf16_encode(text);
        let head = utf16_encode(init);
        assert(all == head + tail);
        assert forall|k: int| 0 <= k < all.len() implies is_search_unit(#[trigger] all[k]) by {
            if k < head.len() {
                assert(all[k] == head[k]);
            } else {
                assert(all[k] == tail[k - head.len()]);
            }
        }
    }
}


/// One emoji to draw in colour over the GDI frame.
pub struct EmojiDraw<'a> {
    pub text: &'a str,
    pub left: i32,
    pub top: i32,
    pub right: i32,
    pub bottom: i32,
}

/// The glyph box of an emoji card: the card inset by two pixels
/// horizontally and one vertically.
pub open spec fn glyph_rect_spec(card: Rect) -> Rect {
    Rect {
        left: (card.left + 2) as i32,
        top: (card.top + 1) as i32,
        right: (card.right - 2) as i32,
        bottom: (card.bottom - 1) as i32,
    }
}

/// The colour draw request for an emoji card.
pub fn emoji_draw<'a>(text: &'a str, card: Rect) -> (r: EmojiDraw<'a>)
    requires
        fits_i32(card.left + 2),
        fits_i32(card.top + 1),
        fits_i32(card.right - 2),
        fits_i32(card.bottom - 1),
    ensures
        r.text == text,
        r.left == glyph_rect_spec(card).left,
        r.top == glyph_rect_spec(card).top,
        r.right == glyph_rect_spec(card).right,
        r.bottom == glyph_rect_spec(card).bottom,
{
    EmojiDraw {
        text,
        left: card.left + 2,
        top: card.top + 1,
        right: card.right - 2,
        bottom: card.bottom - 1,
    }
}

} // verus!
