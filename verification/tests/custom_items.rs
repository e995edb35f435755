use emojipicker::custom::{
    default_title_of, get, remove, retain_custom_kinds, snapshot, upsert, with_items, CustomItem,
};
use emojipicker::model::ItemKind;

fn item(kind: ItemKind, title: &str, content: &str, keywords: &str) -> CustomItem {
    CustomItem {
        kind,
        title: title.to_string(),
        content: content.to_string(),
        keywords: keywords.to_string(),
    }
}

#[test]
fn upsert_appends_without_index() {
    let mut items = Vec::new();
    assert_eq!(upsert(&mut items, None, item(ItemKind::Kaomoji, "shrug", "¯\\_(ツ)_/¯", "meh")), 0);
    assert_eq!(upsert(&mut items, None, item(ItemKind::Ascii, "cat", "=^.^=", "")), 1);
    assert_eq!(items.len(), 2);
    assert_eq!(items[1].title, "cat");
}

#[test]
fn upsert_replaces_existing_index() {
    let mut items = vec![item(ItemKind::Kaomoji, "a", "x", ""), item(ItemKind::Snippet, "b", "y", "")];
    assert_eq!(upsert(&mut items, Some(1), item(ItemKind::Ascii, "c", "z", "k")), 1);
    assert_eq!(items.len(), 2);
    assert_eq!(items[1].title, "c");
    assert_eq!(items[1].kind, ItemKind::Ascii);
    assert_eq!(items[0].title, "a");
}

#[test]
fn upsert_out_of_range_index_appends() {
    let mut items = vec![item(ItemKind::Kaomoji, "a", "x", "")];
    assert_eq!(upsert(&mut items, Some(5), item(ItemKind::Snippet, "b", "y", "")), 1);
    assert_eq!(items.len(), 2);
}

#[test]
fn blank_title_takes_first_content_line() {
    let mut items = Vec::new();
    upsert(&mut items, None, item(ItemKind::Snippet, "   ", "hello\r\nworld", ""));
    assert_eq!(items[0].title, "hello");
}

#[test]
fn default_title_is_cut_to_32_characters() {
    let long = "abcdefghijklmnopqrstuvwxyz0123456789ABCD\nsecond";
    assert_eq!(default_title_of(&long.to_string()), "abcdefghijklmnopqrstuvwxyz012345");
    let wide = "ツツツツツツツツツツツツツツツツツツツツツツツツツツツツツツツツツツツ";
    assert_eq!(default_title_of(&wide.to_string()).chars().count(), 32);
}

#[test]
fn default_title_falls_back_to_custom() {
    assert_eq!(default_title_of(&String::new()), "Custom");
    assert_eq!(default_title_of(&"\nsecond line".to_string()), "Custom");
    assert_eq!(default_title_of(&"   \t\nx".to_string()), "Custom");
    assert_eq!(default_title_of(&"last\r".to_string()), "last\r");
}

#[test]
fn get_reads_existing_items_only() {
    let items = vec![item(ItemKind::Kaomoji, "a", "x", "k")];
    let got = get(&items, 0).unwrap();
    assert_eq!(got.title, "a");
    assert_eq!(got.keywords, "k");
    assert!(get(&items, 1).is_none());
}

#[test]
fn get_after_upsert_returns_stored_item() {
    let mut items = vec![item(ItemKind::Kaomoji, "a", "x", "")];
    let at = upsert(&mut items, None, item(ItemKind::Ascii, "", "line one\nline two", "kw"));
    let got = get(&items, at).unwrap();
    assert_eq!(got.title, "line one");
    assert_eq!(got.content, "line one\nline two");
    assert_eq!(got.kind, ItemKind::Ascii);
}

#[test]
fn remove_shifts_following_items() {
    let mut items = vec![
        item(ItemKind::Kaomoji, "a", "x", ""),
        item(ItemKind::Ascii, "b", "y", ""),
        item(ItemKind::Snippet, "c", "z", ""),
    ];
    assert!(!remove(&mut items, 3));
    assert_eq!(items.len(), 3);
    assert!(remove(&mut items, 1));
    assert_eq!(items.len(), 2);
    assert_eq!(items[0].title, "a");
    assert_eq!(items[1].title, "c");
}

#[test]
fn snapshot_copies_every_item() {
    let items = vec![item(ItemKind::Kaomoji, "a", "x", "1"), item(ItemKind::Ascii, "b", "y", "2")];
    let copy = snapshot(&items);
    assert_eq!(copy.len(), 2);
    assert_eq!(copy[1].content, "y");
    assert_eq!(copy[0].keywords, "1");
}

#[test]
fn with_items_hands_back_callback_result() {
    let items = vec![item(ItemKind::Kaomoji, "a", "x", ""), item(ItemKind::Ascii, "b", "y", "")];
    assert_eq!(with_items(&items, |list: &Vec<CustomItem>| list.len()), 2);
}

#[test]
fn loaded_items_keep_only_custom_kinds() {
    let items = vec![
        item(ItemKind::Emoji, "e", "😀", ""),
        item(ItemKind::Kaomoji, "k", "(^_^)", ""),
        item(ItemKind::Symbol, "s", "★", ""),
        item(ItemKind::Snippet, "t", "text", ""),
        item(ItemKind::Ascii, "a", "/\\", ""),
    ];
    let kept = retain_custom_kinds(items);
    let titles: Vec<&str> = kept.iter().map(|i| i.title.as_str()).collect();
    assert_eq!(titles, vec!["k", "t", "a"]);
}
