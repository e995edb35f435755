//! The picker's domain types: item kinds, catalogue items and references
//! into the built-in catalogue or the user's custom items.
use vstd::prelude::*;

verus! {

/// The five kinds of pickable content.
#[derive(Clone, Copy, Debug, PartialEq, Eq, Structural)]
pub enum ItemKind {
    Emoji,
    Kaomoji,
    Ascii,
    Snippet,
    Symbol,
}

/// Number of category tabs: "All" followed by one tab per kind.
pub const CATEGORY_COUNT: usize = 6;

/// The category shown by tab `index`: tab 0 is "All" (`None`), then Emoji,
/// Kaomoji, ASCII, Text and Symbols.
pub open spec fn category_spec(index: int) -> Option<ItemKind> {
    if index == 1 {
        Some(ItemKind::Emoji)
    } else if index == 2 {
        Some(ItemKind::Kaomoji)
    } else if index == 3 {
        Some(ItemKind::Ascii)
    } else if index == 4 {
        Some(ItemKind::Snippet)
    } else if index == 5 {
        Some(ItemKind::Symbol)
    } else {
        None
    }
}

/// The user-facing name of a kind.
pub open spec fn label_spec(kind: ItemKind) -> Seq<char> {
    match kind {
        ItemKind::Emoji => "Emoji"@,
        ItemKind::Kaomoji => "Kaomoji"@,
        ItemKind::Ascii => "ASCII"@,
        ItemKind::Snippet => "Text"@,
        ItemKind::Symbol => "Symbols"@,
    }
}

impl ItemKind {
    /// The category of tab `index` (see `category_spec`).
    pub fn category(index: usize) -> (r: Option<ItemKind>)
        requires
            index < CATEGORY_COUNT,
        ensures
            r == category_spec(index as int),
    {
        if index == 1 {
            Some(ItemKind::Emoji)
        } else if index == 2 {
            Some(ItemKind::Kaomoji)
        } else if index == 3 {
            Some(ItemKind::Ascii)
        } else if index == 4 {
            Some(ItemKind::Snippet)
        } else if index == 5 {
            Some(ItemKind::Symbol)
        } else {
            None
        }
    }

    /// The tab label of a kind.
    pub fn label(self) -> (r: &'static str)
        ensures
            r@ == label_spec(self),
    {
        match self {
            ItemKind::Emoji => "Emoji",
            ItemKind::Kaomoji => "Kaomoji",
            ItemKind::Ascii => "ASCII",
            ItemKind::Snippet => "Text",
            ItemKind::Symbol => "Symbols",
        }
    }
}

/// One entry of the built-in catalogue.
#[derive(Clone, Copy, Debug)]
pub struct PickerItem {
    pub kind: ItemKind,
    pub title: &'static str,
    pub content: &'static str,
    pub keywords: &'static str,
}

/// A position in the picker's result list points either into the built-in
/// catalogue or into the custom items.
#[derive(Clone, Copy, Debug, PartialEq, Eq, Structural)]
pub enum CatalogRef {
    Builtin(usize),
    Custom(usize),
}

} // verus!
