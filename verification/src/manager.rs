//! The custom-item manager window: its resizable layout, what a click
//! means, list scrolling, and saving / deleting the edited item.
use vstd::prelude::*;
use crate::custom::{
    CustomItem, CustomItemView, remove, remove_spec, stored_form, upsert, upsert_position,
    upsert_spec, views,
};
use crate::geometry::{Rect, contains_spec, max_i, rect_contains};
use crate::model::ItemKind;
use crate::text::{chars_of, is_blank, is_blank_chars};

verus! {

pub const DEFAULT_W: i32 = 720;
pub const DEFAULT_H: i32 = 620;
pub const MIN_W: i32 = 620;
pub const MIN_H: i32 = 520;
pub const PAD: i32 = 16;
pub const LIST_X: i32 = 16;
pub const LIST_Y: i32 = 54;
pub const LIST_W: i32 = 190;
pub const LIST_ROW_H: i32 = 30;
pub const EDIT_X: i32 = 222;

/// Where each part of the manager window goes.
#[derive(Clone, Copy, Debug)]
pub struct ManagerLayout {
    pub width: i32,
    pub height: i32,
    pub list: Rect,
    pub tabs: [Rect; 3],
    pub title_label: Rect,
    pub title_edit: Rect,
    pub content_label: Rect,
    pub content_edit: Rect,
    pub keywords_label: Rect,
    pub keywords_edit: Rect,
    pub buttons: [Rect; 4],
}

/// The rectangle with these edges.
pub open spec fn rect(left: int, top: int, right: int, bottom: int) -> Rect {
    Rect { left: left as i32, top: top as i32, right: right as i32, bottom: bottom as i32 }
}

/// The width used for layout (never below the minimum less the frame).
pub open spec fn layout_width(width: int) -> int {
    max_i(width, MIN_W - 20)
}

/// The height used for layout.
pub open spec fn layout_height(height: int) -> int {
    max_i(height, MIN_H - 20)
}

/// Right edge of the editing column.
pub open spec fn edit_right(width: int) -> int {
    max_i(layout_width(width) - PAD, EDIT_X + 260)
}

/// Width of one kind tab.
pub open spec fn tab_width(width: int) -> int {
    max_i((edit_right(width) - EDIT_X - 8 * 2) / 3, 80)
}

/// Width of one button.
pub open spec fn button_width(width: int) -> int {
    max_i((edit_right(width) - EDIT_X - 8 * 3) / 4, 70)
}

/// Top of the button row.
pub open spec fn buttons_top(height: int) -> int {
    layout_height(height) - 52
}

/// The layout for a client area: a list on the left; on the right three
/// kind tabs, the title, content and keywords fields, and four buttons
/// along the bottom. The content field absorbs the extra height.
pub open spec fn layout_spec(width: int, height: int) -> ManagerLayout {
    let w = layout_width(width);
    let h = layout_height(height);
    let right = edit_right(width);
    let tw = tab_width(width);
    let bw = button_width(width);
    let bt = buttons_top(height);
    let bb = h - 16;
    let kw_top = bt - 46;
    let kl_top = kw_top - 24;
    ManagerLayout {
        width: w as i32,
        height: h as i32,
        list: rect(LIST_X as int, LIST_Y as int, (LIST_X + LIST_W) as int, max_i(bt - 8, LIST_Y + LIST_ROW_H)),
        tabs: [
            rect(EDIT_X as int, 54, EDIT_X + tw, 86),
            rect(EDIT_X + tw + 8, 54, EDIT_X + tw * 2 + 8, 86),
            rect(EDIT_X + (tw + 8) * 2, 54, right, 86),
        ],
        title_label: rect(EDIT_X as int, 94, right, 114),
        title_edit: rect(EDIT_X as int, 116, right, 148),
        content_label: rect(EDIT_X as int, 158, right, 178),
        content_edit: rect(EDIT_X as int, 180, right, max_i(kl_top - 10, 300)),
        keywords_label: rect(EDIT_X as int, kl_top, right, kw_top - 4),
        keywords_edit: rect(EDIT_X as int, kw_top, right, bt - 14),
        buttons: [
            rect(EDIT_X as int, bt, EDIT_X + bw, bb),
            rect(EDIT_X + bw + 8, bt, EDIT_X + bw * 2 + 8, bb),
            rect(EDIT_X + (bw + 8) * 2, bt, EDIT_X + bw * 3 + 8 * 2, bb),
            rect(EDIT_X + (bw + 8) * 3, bt, right, bb),
        ],
    }
}

/// Rows of the list that fit, at least one.
pub open spec fn visible_rows_spec(layout: ManagerLayout) -> int {
    max_i((layout.list.bottom - layout.list.top) / LIST_ROW_H as int, 1)
}

impl ManagerLayout {
    /// The layout of a client area of the given size.
    pub fn from_client(width: i32, height: i32) -> (r: ManagerLayout)
        ensures
            r == layout_spec(width as int, height as int),
    {
        let width = if width >= MIN_W - 20 {
            width
        } else {
            MIN_W - 20
        };
        let height = if height >= MIN_H - 20 {
            height
        } else {
            MIN_H - 20
        };
        let right = if width - PAD >= EDIT_X + 260 {
            width - PAD
        } else {
            EDIT_X + 260
        };
        let tabs_top: i32 = 54;
        let tabs_h: i32 = 32;
        let tabs_gap: i32 = 8;
        let tabs_total_w = right - EDIT_X;
        let tw0 = (tabs_total_w - tabs_gap * 2) / 3;
        let tab_w = if tw0 >= 80 {
            tw0
        } else {
            80
        };
        let tabs = [
            Rect { left: EDIT_X, top: tabs_top, right: EDIT_X + tab_w, bottom: tabs_top + tabs_h },
            Rect {
                left: EDIT_X + tab_w + tabs_gap,
                top: tabs_top,
                right: EDIT_X + tab_w * 2 + tabs_gap,
                bottom: tabs_top + tabs_h,
            },
            Rect {
                left: EDIT_X + (tab_w + tabs_gap) * 2,
                top: tabs_top,
                right,
                bottom: tabs_top + tabs_h,
            },
        ];
        let title_label = Rect { left: EDIT_X, top: 94, right, bottom: 114 };
        let title_edit = Rect { left: EDIT_X, top: 116, right, bottom: 148 };
        let buttons_top = height - 52;
        let buttons_bottom = height - 16;
        let button_gap: i32 = 8;
        let bw0 = (right - EDIT_X - button_gap * 3) / 4;
        let button_w = if bw0 >= 70 {
            bw0
        } else {
            70
        };
        let buttons = [
            Rect { left: EDIT_X, top: buttons_top, right: EDIT_X + button_w, bottom: buttons_bottom },
            Rect {
                left: EDIT_X + button_w + button_gap,
                top: buttons_top,
                right: EDIT_X + button_w * 2 + button_gap,
                bottom: buttons_bottom,
            },
            Rect {
                left: EDIT_X + (button_w + button_gap) * 2,
                top: buttons_top,
                right: EDIT_X + button_w * 3 + button_gap * 2,
                bottom: buttons_bottom,
            },
            Rect {
                left: EDIT_X + (button_w + button_gap) * 3,
                top: buttons_top,
                right,
                bottom: buttons_bottom,
            },
        ];
        let keywords_edit = Rect {
            left: EDIT_X,
            top: buttons_top - 46,
            right,
            bottom: buttons_top - 14,
        };
        let keywords_label = Rect {
            left: EDIT_X,
            top: keywords_edit.top - 24,
            right,
            bottom: keywords_edit.top - 4,
        };
        let content_label = Rect { left: EDIT_X, top: 158, right, bottom: 178 };
        let cb = keywords_label.top - 10;
        let content_edit = Rect {
            left: EDIT_X,
            top: 180,
            right,
            bottom: if cb >= 300 {
                cb
            } else {
                300
            },
        };
        let lb = buttons_top - 8;
        let list = Rect {
            left: LIST_X,
            top: LIST_Y,
            right: LIST_X + LIST_W,
            bottom: if lb >= LIST_Y + LIST_ROW_H {
                lb
            } else {
                LIST_Y + LIST_ROW_H
            },
        };
        let r = ManagerLayout {
            width,
            height,
            list,
            tabs,
            title_label,
            title_edit,
            content_label,
            content_edit,
            keywords_label,
            keywords_edit,
            buttons,
        };
        assert(r.tabs@ =~= layout_spec(width as int, height as int).tabs@);
        assert(r.buttons@ =~= layout_spec(width as int, height as int).buttons@);
        r
    }

    /// How many list rows are visible.
    pub fn visible_rows(self) -> (r: usize)
        requires
            crate::geometry::fits_i32(self.list.bottom - self.list.top),
        ensures
            r == visible_rows_spec(self),
    {
        let rows = (self.list.bottom - self.list.top) / LIST_ROW_H;
        if rows >= 1 {
            rows as usize
        } else {
            1
        }
    }
}


/// The manager's state between messages.
#[derive(Clone, Copy, Debug, PartialEq, Eq, Structural)]
pub struct ManagerModel {
    pub selected: Option<usize>,
    pub list_scroll: usize,
    pub kind: ItemKind,
}

impl ManagerModel {
    /// A fresh manager: nothing selected, list at the top, kaomoji kind.
    pub fn new() -> (r: ManagerModel)
        ensures
            r.selected.is_none(),
            r.list_scroll == 0,
            r.kind == ItemKind::Kaomoji,
    {
        ManagerModel { selected: None, list_scroll: 0, kind: ItemKind::Kaomoji }
    }
}

/// The kind offered by kind tab `index`.
pub open spec fn tab_kind(index: int) -> ItemKind {
    if index == 0 {
        ItemKind::Kaomoji
    } else if index == 1 {
        ItemKind::Ascii
    } else {
        ItemKind::Snippet
    }
}

/// What a click in the manager means.
#[derive(Clone, Copy, Debug, PartialEq, Eq, Structural)]
pub enum ManagerClick {
    /// An item of the list: load it into the fields.
    SelectItem(usize),
    /// The list below its last item: handled, nothing to do.
    ListEmpty,
    /// A kind tab.
    Kind(ItemKind),
    /// Clear the fields for a new item.
    New,
    Save,
    Delete,
    Close,
    /// Not on a control: the caller lets the system handle it.
    Outside,
}

/// The meaning of a click, checking the list, the tabs and the buttons in
/// that order.
pub open spec fn click_spec(layout: ManagerLayout, list_scroll: int, count: int, x: int, y: int) -> ManagerClick {
    if contains_spec(layout.list, x, y) {
        let row = (y - layout.list.top) / LIST_ROW_H as int;
        let index = list_scroll + row;
        if index < count {
            ManagerClick::SelectItem(index as usize)
        } else {
            ManagerClick::ListEmpty
        }
    } else if contains_spec(layout.tabs[0], x, y) {
        ManagerClick::Kind(tab_kind(0))
    } else if contains_spec(layout.tabs[1], x, y) {
        ManagerClick::Kind(tab_kind(1))
    } else if contains_spec(layout.tabs[2], x, y) {
        ManagerClick::Kind(tab_kind(2))
    } else if contains_spec(layout.buttons[0], x, y) {
        ManagerClick::New
    } else if contains_spec(layout.buttons[1], x, y) {
        ManagerClick::Save
    } else if contains_spec(layout.buttons[2], x, y) {
        ManagerClick::Delete
    } else if contains_spec(layout.buttons[3], x, y) {
        ManagerClick::Close
    } else {
        ManagerClick::Outside
    }
}

/// The state after a click: an item click selects it and takes its kind,
/// a tab click sets the kind, "New" clears the selection and picks
/// kaomoji; other clicks leave the state alone.
pub open spec fn click_effect(
    model: ManagerModel,
    click: ManagerClick,
    items: Seq<CustomItemView>,
) -> ManagerModel {
    match click {
        ManagerClick::SelectItem(i) => ManagerModel {
            selected: Some(i),
            kind: items[i as int].kind,
            ..model
        },
        ManagerClick::Kind(k) => ManagerModel { kind: k, ..model },
        ManagerClick::New => ManagerModel { selected: None, kind: ItemKind::Kaomoji, ..model },
        _ => model,
    }
}

/// Handles a click: updates the selection and kind and answers what the
/// window must do next (load the item, clear the fields, save, delete,
/// close, or nothing).
pub fn handle_click(
    model: &mut ManagerModel,
    layout: &ManagerLayout,
    x: i32,
    y: i32,
    items: &Vec<CustomItem>,
) -> (r: ManagerClick)
    requires
        old(model).list_scroll + (layout.list.bottom - layout.list.top) <= usize::MAX,
        crate::geometry::fits_i32(layout.list.bottom - layout.list.top),
    ensures
        r == click_spec(*layout, old(model).list_scroll as int, items@.len() as int, x as int, y as int),
        *final(model) == click_effect(*old(model), r, views(items@)),
{
    if rect_contains(layout.list, x, y) {
        let row = ((y - layout.list.top) / LIST_ROW_H) as usize;
        let index = model.list_scroll + row;
        if index < items.len() {
            model.selected = Some(index);
            model.kind = items[index].kind;
            proof {
                assert(views(items@)[index as int] == items@[index as int]@);
            }
            return ManagerClick::SelectItem(index);
        }
        return ManagerClick::ListEmpty;
    }
    let mut i: usize = 0;
    while i < 3
        invariant
            0 <= i <= 3,
            *model == *old(model),
            !contains_spec(layout.list, x as int, y as int),
            forall|k: int| 0 <= k < i ==> !contains_spec(#[trigger] layout.tabs[k], x as int, y as int),
        decreases 3 - i,
    {
        if rect_contains(layout.tabs[i], x, y) {
            let kind = if i == 0 {
                ItemKind::Kaomoji
            } else if i == 1 {
                ItemKind::Ascii
            } else {
                ItemKind::Snippet
            };
            model.kind = kind;
            return ManagerClick::Kind(kind);
        }
        i += 1;
    }
    if rect_contains(layout.buttons[0], x, y) {
        model.selected = None;
        model.kind = ItemKind::Kaomoji;
        return ManagerClick::New;
    }
    if rect_contains(layout.buttons[1], x, y) {
        return ManagerClick::Save;
    }
    if rect_contains(layout.buttons[2], x, y) {
        return ManagerClick::Delete;
    }
    if rect_contains(layout.buttons[3], x, y) {
        return ManagerClick::Close;
    }
    ManagerClick::Outside
}

/// A click on a row of the list selects the item shown in that row: with
/// the list scrolled by `list_scroll`, row `r` (counted from the top of the
/// list, `LIST_ROW_H` pixels each) shows item `list_scroll + r`.
pub proof fn lemma_click_selects_shown_row(
    layout: ManagerLayout,
    list_scroll: int,
    count: int,
    x: int,
    y: int,
    r: int,
)
    requires
        contains_spec(layout.list, x, y),
        0 <= r,
        0 <= list_scroll,
        layout.list.top + r * LIST_ROW_H <= y < layout.list.top + (r + 1) * LIST_ROW_H,
        list_scroll + r < count,
    ensures
        click_spec(layout, list_scroll, count, x, y) == ManagerClick::SelectItem((list_scroll + r) as usize),
{
    let d = y - layout.list.top;
    assert(d / (LIST_ROW_H as int) == r) by (nonlinear_arith)
        requires
            r * 30 <= d < (r + 1) * 30,
            LIST_ROW_H == 30,
    ;
}

/// Whether a client point belongs to a control (list, tab, field or
/// button) rather than to the draggable background.
pub open spec fn interactive_spec(layout: ManagerLayout, x: int, y: int) -> bool {
    ||| contains_spec(layout.list, x, y)
    ||| exists|i: int| 0 <= i < 3 && contains_spec(#[trigger] layout.tabs[i], x, y)
    ||| contains_spec(layout.title_edit, x, y)
    ||| contains_spec(layout.content_edit, x, y)
    ||| contains_spec(layout.keywords_edit, x, y)
    ||| exists|i: int| 0 <= i < 4 && contains_spec(#[trigger] layout.buttons[i], x, y)
}

/// See `interactive_spec`.
pub fn manager_point_is_interactive(layout: &ManagerLayout, x: i32, y: i32) -> (r: bool)
    ensures
        r == interactive_spec(*layout, x as int, y as int),
{
    if rect_contains(layout.list, x, y) {
        return true;
    }
    let mut i: usize = 0;
    while i < 3
        invariant
            0 <= i <= 3,
            !contains_spec(layout.list, x as int, y as int),
            forall|k: int| 0 <= k < i ==> !contains_spec(#[trigger] layout.tabs[k], x as int, y as int),
        decreases 3 - i,
    {
        if rect_contains(layout.tabs[i], x, y) {
            return true;
        }
        i += 1;
    }
    if rect_contains(layout.title_edit, x, y) || rect_contains(layout.content_edit, x, y)
        || rect_contains(layout.keywords_edit, x, y) {
        return true;
    }
    let mut j: usize = 0;
    while j < 4
        invariant
            0 <= j <= 4,
            forall|k: int| 0 <= k < j ==> !contains_spec(#[trigger] layout.buttons[k], x as int, y as int),
        decreases 4 - j,
    {
        if rect_contains(layout.buttons[j], x, y) {
            return true;
        }
        j += 1;
    }
    false
}

/// The largest list scroll: the list ends with its last page.
pub open spec fn list_max_scroll(count: int, visible: int) -> int {
    if count > visible {
        count - visible
    } else {
        0
    }
}

/// Keeps the list scroll within the list.
pub fn clamp_scroll(model: &mut ManagerModel, visible: usize, count: usize)
    ensures
        final(model).list_scroll == if old(model).list_scroll <= list_max_scroll(
            count as int,
            visible as int,
        ) {
            old(model).list_scroll as int
        } else {
            list_max_scroll(count as int, visible as int)
        },
        final(model).selected == old(model).selected,
        final(model).kind == old(model).kind,
{
    let limit = count.saturating_sub(visible);
    if model.list_scroll > limit {
        model.list_scroll = limit;
    }
}

/// Scrolls the list one row per wheel notch (toward the user: down, up to
/// the last page); answers whether the scroll changed.
pub fn wheel_scroll(model: &mut ManagerModel, delta: i16, visible: usize, count: usize) -> (r: bool)
    requires
        old(model).list_scroll < usize::MAX,
    ensures
        final(model).list_scroll == if delta < 0 {
            if old(model).list_scroll + 1 <= list_max_scroll(count as int, visible as int) {
                old(model).list_scroll + 1
            } else {
                list_max_scroll(count as int, visible as int)
            }
        } else if old(model).list_scroll >= 1 {
            old(model).list_scroll - 1
        } else {
            0
        },
        r == (final(model).list_scroll != old(model).list_scroll),
        final(model).selected == old(model).selected,
        final(model).kind == old(model).kind,
{
    let before = model.list_scroll;
    let limit = count.saturating_sub(visible);
    if delta < 0 {
        let next = model.list_scroll + 1;
        model.list_scroll = if next <= limit {
            next
        } else {
            limit
        };
    } else {
        model.list_scroll = model.list_scroll.saturating_sub(1);
    }
    before != model.list_scroll
}

/// What "Save" did.
#[derive(Clone, Copy, Debug, PartialEq, Eq, Structural)]
pub enum SaveOutcome {
    /// The content is blank: nothing saved, the user is told.
    EmptyContent,
    /// Saved at this position, which is now selected.
    Saved(usize),
}

/// Saves the edited fields as the selected item (or a new one, when none
/// is selected or the selection is gone); refuses blank content.
pub fn save_current(
    model: &mut ManagerModel,
    items: &mut Vec<CustomItem>,
    title: String,
    content: String,
    keywords: String,
) -> (r: SaveOutcome)
    ensures
        is_blank(content@) ==> r == SaveOutcome::EmptyContent && *final(model) == *old(model)
            && final(items)@ == old(items)@,
        !is_blank(content@) ==> {
            let item = CustomItemView { kind: old(model).kind, title: title@, content: content@, keywords: keywords@ };
            let at = upsert_position(old(items)@.len(), old(model).selected);
            &&& r == SaveOutcome::Saved(at as usize)
            &&& views(final(items)@) == upsert_spec(views(old(items)@), old(model).selected, item)
            &&& *final(model) == (ManagerModel { selected: Some(at as usize), ..*old(model) })
        },
{
    if is_blank_chars(&chars_of(content.as_str())) {
        return SaveOutcome::EmptyContent;
    }
    let item = CustomItem { kind: model.kind, title, content, keywords };
    let index = upsert(items, model.selected, item);
    model.selected = Some(index);
    SaveOutcome::Saved(index)
}

/// Deletes the selected item (after the user confirmed); answers whether an
/// item was removed, in which case nothing is selected any more.
pub fn delete_current(model: &mut ManagerModel, items: &mut Vec<CustomItem>) -> (r: bool)
    ensures
        match old(model).selected {
            Some(i) => {
                &&& r == (i < old(items)@.len())
                &&& views(final(items)@) == remove_spec(views(old(items)@), i as int)
                &&& r ==> *final(model) == (ManagerModel { selected: None, ..*old(model) })
                &&& !r ==> *final(model) == *old(model)
            },
            None => !r && final(items)@ == old(items)@ && *final(model) == *old(model),
        },
{
    let index = match model.selected {
        Some(i) => i,
        None => {
            return false;
        },
    };
    if remove(items, index) {
        model.selected = None;
        true
    } else {
        false
    }
}


/// Two rectangles share no point.
pub open spec fn disjoint(a: Rect, b: Rect) -> bool {
    a.right <= b.left || b.right <= a.left || a.bottom <= b.top || b.bottom <= a.top
}

/// A rectangle with room in it that lies within `[0, w) x [0, h)`.
pub open spec fn placed_within(r: Rect, w: int, h: int) -> bool {
    0 <= r.left < r.right <= w && 0 <= r.top < r.bottom <= h
}

/// The controls of the manager, in the order a click tests them.
pub open spec fn controls(l: ManagerLayout) -> Seq<Rect> {
    seq![
        l.list,
        l.tabs[0],
        l.tabs[1],
        l.tabs[2],
        l.title_edit,
        l.content_edit,
        l.keywords_edit,
        l.buttons[0],
        l.buttons[1],
        l.buttons[2],
        l.buttons[3],
    ]
}

/// For any client size the controls are non-empty, inside the (minimum
/// enforced) client area and pairwise disjoint, so a click reaches at most
/// one control and the order of tests does not matter.
pub proof fn lemma_layout_controls_disjoint(width: i32, height: i32)
    ensures
        ({
            let l = layout_spec(width as int, height as int);
            let c = controls(l);
            &&& forall|i: int| 0 <= i < 11 ==> placed_within(#[trigger] c[i], l.width as int, l.height as int)
            &&& forall|i: int, j: int| 0 <= i < j < 11 ==> disjoint(#[trigger] c[i], #[trigger] c[j])
        }),
{
    let l = layout_spec(width as int, height as int);
    let w = layout_width(width as int);
    let h = layout_height(height as int);
    let right = edit_right(width as int);
    let tw = tab_width(width as int);
    let bw = button_width(width as int);
    assert(right == w - PAD);
    assert(tw * 3 + 16 <= right - EDIT_X);
    assert(bw * 4 + 24 <= right - EDIT_X);
    assert(tw >= 80 && bw >= 70);
    let c = controls(l);
    assert(c[0] == l.list);
    assert(c[1] == l.tabs[0]);
    assert(c[2] == l.tabs[1]);
    assert(c[3] == l.tabs[2]);
    assert(c[4] == l.title_edit);
    assert(c[5] == l.content_edit);
    assert(c[6] == l.keywords_edit);
    assert(c[7] == l.buttons[0]);
    assert(c[8] == l.buttons[1]);
    assert(c[9] == l.buttons[2]);
    assert(c[10] == l.buttons[3]);
}

} // verus!
