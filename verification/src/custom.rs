//! The user's custom items: a list that is read, edited in place, appended
//! to and shrunk by the item manager, and persisted by the application.
use vstd::prelude::*;
use crate::model::ItemKind;
use crate::text::{
    chars_of, copy_range, first_line, first_line_chars, is_blank_chars, string_from_chars, trim,
};

verus! {

/// A user-defined kaomoji, ASCII-art or text snippet.
#[derive(Clone, Debug)]
pub struct CustomItem {
    pub kind: ItemKind,
    pub title: String,
    pub content: String,
    pub keywords: String,
}

/// The characters of a custom item.
pub struct CustomItemView {
    pub kind: ItemKind,
    pub title: Seq<char>,
    pub content: Seq<char>,
    pub keywords: Seq<char>,
}

impl View for CustomItem {
    type V = CustomItemView;

    open spec fn view(&self) -> CustomItemView {
        CustomItemView {
            kind: self.kind,
            title: self.title@,
            content: self.content@,
            keywords: self.keywords@,
        }
    }
}

/// The views of a list of custom items.
pub open spec fn views(items: Seq<CustomItem>) -> Seq<CustomItemView> {
    items.map_values(|item: CustomItem| item@)
}

/// Only these kinds can be custom items.
pub open spec fn is_custom_kind(kind: ItemKind) -> bool {
    kind == ItemKind::Kaomoji || kind == ItemKind::Ascii || kind == ItemKind::Snippet
}

/// The title given to an item saved with a blank title: the first line of
/// its content cut to 32 characters, or "Custom" when that is blank too.
pub open spec fn default_title(content: Seq<char>) -> Seq<char> {
    let base = match first_line(content) {
        Some(line) => line,
        None => "Custom"@,
    };
    let cut = if base.len() <= 32 {
        base
    } else {
        base.take(32)
    };
    if trim(cut).len() == 0 {
        "Custom"@
    } else {
        cut
    }
}

/// The item as `upsert` stores it.
pub open spec fn stored_form(item: CustomItemView) -> CustomItemView {
    if trim(item.title).len() == 0 {
        CustomItemView { title: default_title(item.content), ..item }
    } else {
        item
    }
}

/// Where `upsert` puts an item: at `index` when it names an existing item,
/// otherwise at the end.
pub open spec fn upsert_position(len: nat, index: Option<usize>) -> nat {
    match index {
        Some(i) if i < len => i as nat,
        _ => len,
    }
}

/// The list after `upsert`.
pub open spec fn upsert_spec(
    items: Seq<CustomItemView>,
    index: Option<usize>,
    item: CustomItemView,
) -> Seq<CustomItemView> {
    let at = upsert_position(items.len(), index);
    if at < items.len() {
        items.update(at as int, stored_form(item))
    } else {
        items.push(stored_form(item))
    }
}

/// The list after `remove`.
pub open spec fn remove_spec(items: Seq<CustomItemView>, index: int) -> Seq<CustomItemView> {
    if 0 <= index < items.len() {
        items.remove(index)
    } else {
        items
    }
}

/// What `get` answers.
pub open spec fn get_spec(items: Seq<CustomItemView>, index: int) -> Option<CustomItemView> {
    if 0 <= index < items.len() {
        Some(items[index])
    } else {
        None
    }
}

/// The items whose kind may be a custom kind, in their order.
pub open spec fn keep_custom_kinds(items: Seq<CustomItemView>) -> Seq<CustomItemView>
    decreases items.len(),
{
    if items.len() == 0 {
        Seq::empty()
    } else {
        let rest = keep_custom_kinds(items.drop_last());
        if is_custom_kind(items.last().kind) {
            rest.push(items.last())
        } else {
            rest
        }
    }
}

impl CustomItem {
    /// A copy with the same kind and characters.
    pub fn duplicate(&self) -> (r: CustomItem)
        ensures
            r@ == self@,
    {
        CustomItem {
            kind: self.kind,
            title: self.title.clone(),
            content: self.content.clone(),
            keywords: self.keywords.clone(),
        }
    }
}

/// A copy of the whole list.
pub fn snapshot(items: &Vec<CustomItem>) -> (r: Vec<CustomItem>)
    ensures
        views(r@) == views(items@),
{
    let mut out: Vec<CustomItem> = Vec::new();
    let mut i: usize = 0;
    while i < items.len()
        invariant
            i <= items.len(),
            out@.len() == i,
            views(out@) == views(items@.take(i as int)),
        decreases items.len() - i,
    {
        let ghost before = out@;
        let copy = items[i].duplicate();
        out.push(copy);
        proof {
            assert forall|k: int| 0 <= k < i + 1 implies views(out@)[k] == views(items@.take(i as int + 1))[k] by {
                if k < i {
                    assert(out@[k] == before[k]);
                    assert(views(before)[k] == views(items@.take(i as int))[k]);
                }
            }
            assert(views(out@) =~= views(items@.take(i as int + 1)));
        }
        i += 1;
    }
    proof {
        assert(items@.take(items.len() as int) =~= items@);
    }
    out
}

/// Runs `callback` on the list and hands back its result.
pub fn with_items<R, F: FnOnce(&Vec<CustomItem>) -> R>(items: &Vec<CustomItem>, callback: F) -> (r: R)
    requires
        callback.requires((items,)),
    ensures
        callback.ensures((items,), r),
{
    callback(items)
}

/// A copy of item `index`, if there is one.
pub fn get(items: &Vec<CustomItem>, index: usize) -> (r: Option<CustomItem>)
    ensures
        match r {
            Some(item) => get_spec(views(items@), index as int) == Some(item@),
            None => get_spec(views(items@), index as int).is_none(),
        },
{
    if index < items.len() {
        Some(items[index].duplicate())
    } else {
        None
    }
}

/// The title that `upsert` gives an item whose title is blank.
pub fn default_title_of(content: &String) -> (r: String)
    ensures
        r@ == default_title(content@),
{
    let chars = chars_of(content.as_str());
    let base = match first_line_chars(&chars) {
        Some(line) => line,
        None => chars_of("Custom"),
    };
    let n = if base.len() <= 32 {
        base.len()
    } else {
        32
    };
    let cut = copy_range(&base, 0, n);
    proof {
        if base.len() <= 32 {
            assert(cut@ =~= base@);
        }
    }
    if is_blank_chars(&cut) {
        String::from_str("Custom")
    } else {
        string_from_chars(&cut)
    }
}

/// Saves `item`: replaces item `index` when that exists, otherwise appends.
/// A blank title is replaced by `default_title` of the content. Returns the
/// position at which the item now stands.
pub fn upsert(items: &mut Vec<CustomItem>, index: Option<usize>, item: CustomItem) -> (r: usize)
    ensures
        r == upsert_position(old(items)@.len(), index),
        views(final(items)@) == upsert_spec(views(old(items)@), index, item@),
{
    let ghost given = item@;
    let mut item = item;
    let title_chars = chars_of(item.title.as_str());
    if is_blank_chars(&title_chars) {
        item.title = default_title_of(&item.content);
    }
    let ghost stored = item@;
    assert(stored == stored_form(given));
    match index {
        Some(i) if i < items.len() => {
            items.set(i, item);
            assert(views(items@) =~= views(old(items)@).update(i as int, stored));
            i
        },
        _ => {
            items.push(item);
            assert(views(items@) =~= views(old(items)@).push(stored));
            items.len() - 1
        },
    }
}

/// Removes item `index`; false (and nothing changes) when there is none.
pub fn remove(items: &mut Vec<CustomItem>, index: usize) -> (r: bool)
    ensures
        r == (index < old(items)@.len()),
        views(final(items)@) == remove_spec(views(old(items)@), index as int),
{
    if index >= items.len() {
        return false;
    }
    items.remove(index);
    assert(views(items@) =~= views(old(items)@).remove(index as int));
    true
}

/// Keeps the items a custom list may hold (kaomoji, ASCII art and text),
/// in their order; the application applies it to what it loads from disk.
pub fn retain_custom_kinds(items: Vec<CustomItem>) -> (r: Vec<CustomItem>)
    ensures
        views(r@) == keep_custom_kinds(views(items@)),
{
    let mut out: Vec<CustomItem> = Vec::new();
    let mut i: usize = 0;
    while i < items.len()
        invariant
            i <= items.len(),
            views(out@) == keep_custom_kinds(views(items@.take(i as int))),
        decreases items.len() - i,
    {
        let kind = items[i].kind;
        proof {
            assert(views(items@.take(i as int + 1)).drop_last() =~= views(items@.take(i as int)));
        }
        if kind == ItemKind::Kaomoji || kind == ItemKind::Ascii || kind == ItemKind::Snippet {
            out.push(items[i].duplicate());
            assert(views(out@) =~= keep_custom_kinds(views(items@.take(i as int + 1))));
        }
        i += 1;
    }
    proof {
        assert(items@.take(items.len() as int) =~= items@);
    }
    out
}


/// Reading back the position `upsert` answered gives the item as it was
/// stored.
pub proof fn lemma_get_after_upsert(items: Seq<CustomItemView>, index: Option<usize>, item: CustomItemView)
    ensures
        get_spec(upsert_spec(items, index, item), upsert_position(items.len(), index) as int) == Some(
            stored_form(item),
        ),
{
}

/// `upsert` leaves every other item where it was, and grows the list only
/// when it appends.
pub proof fn lemma_upsert_keeps_others(
    items: Seq<CustomItemView>,
    index: Option<usize>,
    item: CustomItemView,
    k: int,
)
    requires
        0 <= k < items.len(),
        k != upsert_position(items.len(), index),
    ensures
        upsert_spec(items, index, item)[k] == items[k],
        upsert_spec(items, index, item).len() == if upsert_position(items.len(), index) < items.len() {
            items.len()
        } else {
            items.len() + 1
        },
{
}

/// Every item `upsert` stores has a title that is not blank.
pub proof fn lemma_stored_title_not_blank(item: CustomItemView)
    ensures
        trim(stored_form(item).title).len() > 0,
{
    reveal_strlit("Custom");
    let custom = "Custom"@;
    assert(!crate::text::is_ws(custom[0]));
    assert(!crate::text::is_ws(custom.last()));
    crate::text::lemma_trim_unchanged(custom);
}

/// Removing an existing item shortens the list by one and keeps the
/// others in order.
pub proof fn lemma_remove_shifts(items: Seq<CustomItemView>, index: int, k: int)
    requires
        0 <= index < items.len(),
        0 <= k < items.len() - 1,
    ensures
        remove_spec(items, index).len() == items.len() - 1,
        remove_spec(items, index)[k] == if k < index {
            items[k]
        } else {
            items[k + 1]
        },
{
}

} // verus!
