use emojipicker::custom::CustomItem;
use emojipicker::geometry::{point_from_lparam, Point, Rect};
use emojipicker::model::{CatalogRef, ItemKind, PickerItem};
use emojipicker::picker::{
    card_rect, card_width, category_at, click_at, copy_wide_fixed, emoji_draw, ensure_selected_visible,
    grid_layout, hit_test_category, hit_test_item, hover_at, injection_confirmed, insert_selection,
    max_scroll, popup_position, preview_hover_payload, preview_payload_for_entry,
    preview_select_at_client, preview_selected_payload, preview_text, query_text, rebuild_filter,
    reset_for_open, select_category, tab_rect, target_usable, unicode_key_events, visible_entries,
    wheel_scroll, wide, GridLayout, KeyEvent, PickerState,
};

const CATALOG: [PickerItem; 4] = [
    PickerItem { kind: ItemKind::Emoji, title: "grinning face", content: "😀", keywords: "smile happy" },
    PickerItem { kind: ItemKind::Kaomoji, title: "shrug", content: "¯\\_(ツ)_/¯", keywords: "whatever" },
    PickerItem { kind: ItemKind::Snippet, title: "Greeting", content: "Hello there", keywords: "hi" },
    PickerItem { kind: ItemKind::Ascii, title: "Cat", content: " /\\_/\\\n( o.o )", keywords: "kitty" },
];

fn custom_items() -> Vec<CustomItem> {
    vec![CustomItem {
        kind: ItemKind::Kaomoji,
        title: "Table flip".to_string(),
        content: "(╯°□°)╯︵ ┻━┻".to_string(),
        keywords: "angry SMILE".to_string(),
    }]
}

fn state_with(count: usize) -> PickerState {
    let mut state = PickerState::new();
    for i in 0..count {
        state.filtered.push(CatalogRef::Builtin(i));
    }
    state
}

fn standard() -> GridLayout {
    GridLayout { cols: 4, rows: 4, gap: 8, card_h: 56, emoji_dense: false }
}

fn dense() -> GridLayout {
    GridLayout { cols: 8, rows: 5, gap: 6, card_h: 46, emoji_dense: true }
}

#[test]
fn emoji_tab_uses_dense_grid() {
    let mut state = PickerState::new();
    assert_eq!(grid_layout(&state), standard());
    state.category_index = 1;
    assert_eq!(grid_layout(&state), dense());
    state.category_index = 4;
    assert_eq!(grid_layout(&state), standard());
}

#[test]
fn card_widths() {
    assert_eq!(card_width(standard()), 143);
    assert_eq!(card_width(dense()), 69);
}

#[test]
fn max_scroll_values() {
    assert_eq!(max_scroll(0, standard()), 0);
    assert_eq!(max_scroll(16, standard()), 0);
    assert_eq!(max_scroll(17, standard()), 4);
    assert_eq!(max_scroll(33, standard()), 20);
    assert_eq!(max_scroll(41, dense()), 8);
    assert_eq!(max_scroll(40, dense()), 0);
}

#[test]
fn hit_test_finds_cards_and_skips_gaps() {
    let mut state = state_with(20);
    assert_eq!(hit_test_item(12, 108, &state), Some(0));
    assert_eq!(hit_test_item(12 + 142, 108 + 55, &state), Some(0));
    assert_eq!(hit_test_item(12 + 143, 108, &state), None);
    assert_eq!(hit_test_item(12 + 151, 108, &state), Some(1));
    assert_eq!(hit_test_item(12, 108 + 64, &state), Some(4));
    assert_eq!(hit_test_item(12, 108 + 56, &state), None);
    assert_eq!(hit_test_item(12, 107, &state), None);
    assert_eq!(hit_test_item(12, 400, &state), None);
    assert_eq!(hit_test_item(11, 108, &state), None);
    state.scroll = 4;
    assert_eq!(hit_test_item(12, 108, &state), Some(4));
    let short = state_with(3);
    assert_eq!(hit_test_item(12 + 3 * 151, 108, &short), None);
}

#[test]
fn card_rect_hits_its_entry() {
    let mut state = state_with(40);
    state.scroll = 4;
    for slot in 0..16 {
        let r = card_rect(slot, standard());
        assert_eq!(hit_test_item(r.left, r.top, &state), Some(4 + slot));
        assert_eq!(hit_test_item(r.right - 1, r.bottom - 1, &state), Some(4 + slot));
    }
    state.category_index = 1;
    for slot in 0..40 {
        let r = card_rect(slot, dense());
        assert_eq!(hit_test_item(r.left + 3, r.top + 3, &state), if 4 + slot < 40 { Some(4 + slot) } else { None });
    }
}

#[test]
fn tab_band_maps_to_categories() {
    assert_eq!(category_at(12, 70), Some(0));
    assert_eq!(category_at(12 + 99, 64), Some(1));
    assert_eq!(category_at(557, 95), Some(5));
    assert_eq!(category_at(607, 70), None);
    assert_eq!(category_at(608, 70), None);
    assert_eq!(category_at(11, 70), None);
    assert_eq!(category_at(100, 63), None);
    assert_eq!(category_at(100, 96), None);
}

#[test]
fn tab_rects() {
    assert_eq!(tab_rect(0), Rect { left: 12, top: 64, right: 108, bottom: 96 });
    assert_eq!(tab_rect(5), Rect { left: 507, top: 64, right: 608, bottom: 96 });
}

#[test]
fn filter_by_query_and_tab() {
    let custom = custom_items();
    let mut state = PickerState::new();
    rebuild_filter(&mut state, &CATALOG, &custom);
    assert_eq!(
        state.filtered,
        vec![
            CatalogRef::Builtin(0),
            CatalogRef::Builtin(1),
            CatalogRef::Builtin(2),
            CatalogRef::Builtin(3),
            CatalogRef::Custom(0),
        ]
    );
    state.query_utf16 = "  SMILE ".encode_utf16().collect();
    rebuild_filter(&mut state, &CATALOG, &custom);
    assert_eq!(state.filtered, vec![CatalogRef::Builtin(0), CatalogRef::Custom(0)]);
    state.query_utf16 = "hello".encode_utf16().collect();
    rebuild_filter(&mut state, &CATALOG, &custom);
    assert_eq!(state.filtered, vec![CatalogRef::Builtin(2)]);
    state.query_utf16.clear();
    select_category(&mut state, 2, &CATALOG, &custom);
    assert_eq!(state.filtered, vec![CatalogRef::Builtin(1), CatalogRef::Custom(0)]);
    state.query_utf16 = "zzz".encode_utf16().collect();
    rebuild_filter(&mut state, &CATALOG, &custom);
    assert!(state.filtered.is_empty());
}

#[test]
fn query_is_decoded_trimmed_and_lowercased() {
    let mut state = PickerState::new();
    state.query_utf16 = vec![0x20, 0x41, 0xD83D, 0xDE00, 0xD800, 0x62, 0x20];
    let q: String = query_text(&state).into_iter().collect();
    assert_eq!(q, "a😀\u{FFFD}b");
}

#[test]
fn clicking_a_tab_switches_and_resets() {
    let custom = custom_items();
    let mut state = state_with(10);
    state.selected = 5;
    state.scroll = 4;
    state.hovered = Some(6);
    assert!(!hit_test_category(&mut state, 12, 50, &CATALOG, &custom));
    assert_eq!(state.selected, 5);
    assert!(hit_test_category(&mut state, 12 + 99, 70, &CATALOG, &custom));
    assert_eq!(state.category_index, 1);
    assert_eq!(state.selected, 0);
    assert_eq!(state.scroll, 0);
    assert_eq!(state.hovered, None);
    assert_eq!(state.filtered, vec![CatalogRef::Builtin(0)]);
}

#[test]
fn selection_is_scrolled_into_view() {
    let mut state = state_with(30);
    state.selected = 20;
    ensure_selected_visible(&mut state, 30);
    assert_eq!(state.scroll, 8);
    state.selected = 2;
    ensure_selected_visible(&mut state, 30);
    assert_eq!(state.scroll, 0);
    state.scroll = 28;
    state.selected = 29;
    ensure_selected_visible(&mut state, 30);
    assert_eq!(state.scroll, 16);
}

#[test]
fn wheel_moves_one_row() {
    let mut state = state_with(30);
    wheel_scroll(&mut state, -120);
    assert_eq!(state.scroll, 4);
    state.scroll = 16;
    wheel_scroll(&mut state, -120);
    assert_eq!(state.scroll, 16);
    state.scroll = 2;
    wheel_scroll(&mut state, 120);
    assert_eq!(state.scroll, 0);
    state.scroll = 12;
    wheel_scroll(&mut state, 120);
    assert_eq!(state.scroll, 8);
}

#[test]
fn opening_captures_foreign_target_only() {
    let mut state = state_with(3);
    state.query_utf16 = vec![0x61];
    state.selected = 2;
    reset_for_open(&mut state, 5, 7);
    assert_eq!(state.target, 5);
    assert!(state.query_utf16.is_empty());
    assert_eq!(state.selected, 0);
    reset_for_open(&mut state, 7, 7);
    assert_eq!(state.target, 5);
    reset_for_open(&mut state, 0, 7);
    assert_eq!(state.target, 5);
}

#[test]
fn hover_and_click() {
    let mut state = state_with(5);
    assert!(hover_at(&mut state, 12, 108));
    assert_eq!(state.hovered, Some(0));
    assert!(!hover_at(&mut state, 13, 109));
    assert!(hover_at(&mut state, 0, 0));
    assert_eq!(state.hovered, None);
    assert!(click_at(&mut state, 12 + 151, 108));
    assert_eq!(state.selected, 1);
    assert!(!click_at(&mut state, 12, 50));
    assert_eq!(state.selected, 1);
}

#[test]
fn visible_page() {
    let mut state = state_with(20);
    state.scroll = 12;
    let page = visible_entries(&state);
    assert_eq!(page.len(), 8);
    assert_eq!(page[0], CatalogRef::Builtin(12));
    state.scroll = 25;
    assert!(visible_entries(&state).is_empty());
}

#[test]
fn insertion_targets_captured_window() {
    let custom = custom_items();
    let mut state = PickerState::new();
    rebuild_filter(&mut state, &CATALOG, &custom);
    reset_for_open(&mut state, 42, 7);
    state.selected = 2;
    let (target, content) = insert_selection(&state, &CATALOG, &custom).unwrap();
    assert_eq!(target, 42);
    assert_eq!(content, "Hello there");
    state.selected = 4;
    assert_eq!(insert_selection(&state, &CATALOG, &custom).unwrap().1, "(╯°□°)╯︵ ┻━┻");
    state.selected = 9;
    assert!(insert_selection(&state, &CATALOG, &custom).is_none());
    assert!(target_usable(42, true));
    assert!(!target_usable(0, true));
    assert!(!target_usable(42, false));
    assert!(injection_confirmed(42, 42));
    assert!(!injection_confirmed(42, 43));
    assert!(!injection_confirmed(0, 0));
}

#[test]
fn previews_for_entries() {
    let custom = custom_items();
    let (kind, title, content) = preview_payload_for_entry(CatalogRef::Builtin(1), &CATALOG, &custom).unwrap();
    assert_eq!(kind, ItemKind::Kaomoji);
    assert_eq!(title, "shrug");
    assert_eq!(content, "¯\\_(ツ)_/¯");
    assert_eq!(preview_payload_for_entry(CatalogRef::Custom(0), &CATALOG, &custom).unwrap().1, "Table flip");
    assert!(preview_payload_for_entry(CatalogRef::Builtin(4), &CATALOG, &custom).is_none());
    assert!(preview_payload_for_entry(CatalogRef::Custom(1), &CATALOG, &custom).is_none());

    let mut state = PickerState::new();
    rebuild_filter(&mut state, &CATALOG, &custom);
    assert!(preview_hover_payload(&state, &CATALOG, &custom).is_none());
    let chosen = preview_select_at_client(&mut state, 12 + 151 * 3, 108, &CATALOG, &custom).unwrap();
    assert_eq!(chosen.1, "Cat");
    assert_eq!(state.selected, 3);
    assert_eq!(state.hovered, Some(3));
    assert_eq!(preview_hover_payload(&state, &CATALOG, &custom).unwrap().1, "Cat");
    assert_eq!(preview_selected_payload(&state, &CATALOG, &custom).unwrap().1, "Cat");
    assert!(preview_select_at_client(&mut state, 12, 20, &CATALOG, &custom).is_none());
    assert_eq!(state.selected, 3);
}

#[test]
fn key_events_press_and_release_each_unit() {
    let events = unicode_key_events("a😀");
    let expect = [0x61u16, 0xD83D, 0xDE00];
    assert_eq!(events.len(), 6);
    for (i, unit) in expect.iter().enumerate() {
        assert_eq!(events[2 * i], KeyEvent { unit: *unit, key_up: false });
        assert_eq!(events[2 * i + 1], KeyEvent { unit: *unit, key_up: true });
    }
    assert!(unicode_key_events("").is_empty());
}

#[test]
fn wide_strings_are_zero_terminated() {
    assert_eq!(wide("hi"), vec![104, 105, 0]);
    assert_eq!(wide("😀"), vec![0xD83D, 0xDE00, 0]);
    assert_eq!(wide(""), vec![0]);
}

#[test]
fn fixed_buffers_truncate_and_pad() {
    let mut four = [7u16; 4];
    copy_wide_fixed("hello", &mut four);
    assert_eq!(four, [104, 101, 108, 0]);
    let mut pad = [7u16; 4];
    copy_wide_fixed("a", &mut pad);
    assert_eq!(pad, [97, 0, 0, 0]);
    let mut one = [7u16; 1];
    copy_wide_fixed("abc", &mut one);
    assert_eq!(one, [0]);
}

#[test]
fn preview_text_variants() {
    assert_eq!(preview_text(CATALOG[3]), " /\\_/\\");
    let snippet = PickerItem { kind: ItemKind::Snippet, title: "t", content: "a\r\nb\nc", keywords: "" };
    assert_eq!(preview_text(snippet), "a ↵ b ↵ c");
    let empty = PickerItem { kind: ItemKind::Ascii, title: "t", content: "", keywords: "" };
    assert_eq!(preview_text(empty), "");
}

#[test]
fn popup_placement() {
    let work = Some(Rect { left: 0, top: 0, right: 1920, bottom: 1040 });
    assert_eq!(popup_position(Point { x: 100, y: 100 }, work), (100, 110));
    assert_eq!(popup_position(Point { x: 1800, y: 100 }, work), (1300, 110));
    assert_eq!(popup_position(Point { x: 100, y: 900 }, work), (100, 450));
    assert_eq!(popup_position(Point { x: 100, y: 100 }, None), (100, 0));
}

#[test]
fn emoji_glyph_box() {
    let draw = emoji_draw("😀", Rect { left: 10, top: 20, right: 80, bottom: 72 });
    assert_eq!((draw.left, draw.top, draw.right, draw.bottom), (12, 21, 78, 71));
    assert_eq!(draw.text, "😀");
}

#[test]
fn lparam_coordinates_are_signed_words() {
    assert_eq!(point_from_lparam(0x0014_000A), (10, 20));
    assert_eq!(point_from_lparam(0xFFFF_FFFE), (-2, -1));
    assert_eq!(point_from_lparam(0x8000_7FFF), (32767, -32768));
}
