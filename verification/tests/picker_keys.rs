use emojipicker::custom::CustomItem;
use emojipicker::model::{CatalogRef, ItemKind, PickerItem};
use emojipicker::geometry::{Point, Rect};
use emojipicker::settings::Theme;
use emojipicker::theme::Palette;
use emojipicker::picker::{
    brand_author_line, brand_name_line, brand_rects, card_fill, confirmed_insertion, card_width, footer_label_color, max_scroll, tab_colors, wheel_notch, GridLayout,
    footer_action_at, footer_button, hit_test_item, handle_char, handle_key, FooterAction, KeyAction, PickerKey, PickerState,
};

const CATALOG: [PickerItem; 3] = [
    PickerItem { kind: ItemKind::Emoji, title: "grinning face", content: "😀", keywords: "smile happy" },
    PickerItem { kind: ItemKind::Kaomoji, title: "shrug", content: "¯\\_(ツ)_/¯", keywords: "whatever" },
    PickerItem { kind: ItemKind::Snippet, title: "Greeting", content: "Hello there", keywords: "hi" },
];

fn listed(count: usize) -> PickerState {
    let mut state = PickerState::new();
    for i in 0..count {
        state.filtered.push(CatalogRef::Builtin(i));
    }
    state
}

#[test]
fn escape_and_enter_leave_state() {
    let custom: Vec<CustomItem> = Vec::new();
    let mut state = listed(3);
    state.selected = 2;
    assert_eq!(handle_key(&mut state, PickerKey::Escape, &CATALOG, &custom), KeyAction::Close);
    assert_eq!(handle_key(&mut state, PickerKey::Enter, &CATALOG, &custom), KeyAction::Insert);
    assert_eq!(state.selected, 2);
    assert_eq!(state.filtered.len(), 3);
}

#[test]
fn arrows_move_in_the_grid() {
    let custom: Vec<CustomItem> = Vec::new();
    let mut state = listed(10);
    assert_eq!(handle_key(&mut state, PickerKey::Right, &CATALOG, &custom), KeyAction::Redraw);
    assert_eq!(state.selected, 1);
    handle_key(&mut state, PickerKey::Down, &CATALOG, &custom);
    assert_eq!(state.selected, 5);
    handle_key(&mut state, PickerKey::Down, &CATALOG, &custom);
    assert_eq!(state.selected, 9);
    handle_key(&mut state, PickerKey::Down, &CATALOG, &custom);
    assert_eq!(state.selected, 9);
    handle_key(&mut state, PickerKey::Right, &CATALOG, &custom);
    assert_eq!(state.selected, 9);
    handle_key(&mut state, PickerKey::Up, &CATALOG, &custom);
    assert_eq!(state.selected, 5);
    handle_key(&mut state, PickerKey::Left, &CATALOG, &custom);
    assert_eq!(state.selected, 4);
    state.selected = 0;
    handle_key(&mut state, PickerKey::Left, &CATALOG, &custom);
    assert_eq!(state.selected, 0);
    handle_key(&mut state, PickerKey::Up, &CATALOG, &custom);
    assert_eq!(state.selected, 0);
}

#[test]
fn arrows_scroll_selection_into_view() {
    let custom: Vec<CustomItem> = Vec::new();
    let mut state = listed(40);
    state.selected = 15;
    handle_key(&mut state, PickerKey::Down, &CATALOG, &custom);
    assert_eq!(state.selected, 19);
    assert_eq!(state.scroll, 4);
    state.selected = 4;
    handle_key(&mut state, PickerKey::Up, &CATALOG, &custom);
    assert_eq!(state.selected, 0);
    assert_eq!(state.scroll, 0);
}

#[test]
fn arrows_on_empty_list_do_nothing() {
    let custom: Vec<CustomItem> = Vec::new();
    let mut state = PickerState::new();
    state.selected = 3;
    assert_eq!(handle_key(&mut state, PickerKey::Down, &CATALOG, &custom), KeyAction::Redraw);
    assert_eq!(state.selected, 3);
    assert_eq!(state.scroll, 0);
}

#[test]
fn stale_selection_counts_as_last() {
    let custom: Vec<CustomItem> = Vec::new();
    let mut state = listed(3);
    state.selected = 7;
    handle_key(&mut state, PickerKey::Left, &CATALOG, &custom);
    assert_eq!(state.selected, 1);
}

#[test]
fn tab_cycles_categories() {
    let custom: Vec<CustomItem> = Vec::new();
    let mut state = PickerState::new();
    state.category_index = 1;
    state.selected = 2;
    handle_key(&mut state, PickerKey::Tab, &CATALOG, &custom);
    assert_eq!(state.category_index, 2);
    assert_eq!(state.selected, 0);
    assert_eq!(state.filtered, vec![CatalogRef::Builtin(1)]);
    state.category_index = 5;
    handle_key(&mut state, PickerKey::Tab, &CATALOG, &custom);
    assert_eq!(state.category_index, 0);
    assert_eq!(state.filtered.len(), 3);
}

#[test]
fn typing_filters_and_backspace_widens() {
    let custom: Vec<CustomItem> = Vec::new();
    let mut state = PickerState::new();
    for unit in "SHR".encode_utf16() {
        assert!(handle_char(&mut state, unit, &CATALOG, &custom));
    }
    assert_eq!(state.query_utf16, "SHR".encode_utf16().collect::<Vec<u16>>());
    assert_eq!(state.filtered, vec![CatalogRef::Builtin(1)]);
    handle_key(&mut state, PickerKey::Backspace, &CATALOG, &custom);
    handle_key(&mut state, PickerKey::Backspace, &CATALOG, &custom);
    assert_eq!(state.query_utf16, vec![u16::from(b'S')]);
    assert_eq!(state.filtered, vec![CatalogRef::Builtin(0), CatalogRef::Builtin(1)]);
    handle_key(&mut state, PickerKey::Backspace, &CATALOG, &custom);
    handle_key(&mut state, PickerKey::Backspace, &CATALOG, &custom);
    assert!(state.query_utf16.is_empty());
    assert_eq!(state.filtered.len(), 3);
}

#[test]
fn control_characters_are_not_typed() {
    let custom: Vec<CustomItem> = Vec::new();
    let mut state = listed(2);
    state.selected = 1;
    assert!(!handle_char(&mut state, 0x08, &CATALOG, &custom));
    assert!(!handle_char(&mut state, 0x1b, &CATALOG, &custom));
    assert!(!handle_char(&mut state, 0x7f, &CATALOG, &custom));
    assert_eq!(state.selected, 1);
    assert!(state.query_utf16.is_empty());
}

#[test]
fn persian_query_matches_custom_keywords() {
    let custom = vec![CustomItem {
        kind: ItemKind::Snippet,
        title: "Thanks".to_string(),
        content: "Thank you".to_string(),
        keywords: "ممنون".to_string(),
    }];
    let mut state = PickerState::new();
    for unit in "ممنون".encode_utf16() {
        handle_char(&mut state, unit, &CATALOG, &custom);
    }
    assert_eq!(state.filtered, vec![CatalogRef::Custom(0)]);
}

#[test]
fn footer_buttons_hit() {
    assert_eq!(footer_button(FooterAction::Manage), Rect { left: 12, top: 368, right: 104, bottom: 396 });
    assert_eq!(footer_button(FooterAction::Theme), Rect { left: 310, top: 368, right: 608, bottom: 396 });
    assert_eq!(footer_action_at(12, 368), Some(FooterAction::Manage));
    assert_eq!(footer_action_at(150, 380), Some(FooterAction::About));
    assert_eq!(footer_action_at(301, 395), Some(FooterAction::Update));
    assert_eq!(footer_action_at(607, 370), Some(FooterAction::Theme));
    assert_eq!(footer_action_at(106, 380), None);
    assert_eq!(footer_action_at(150, 396), None);
    assert_eq!(footer_action_at(150, 367), None);
    assert_eq!(footer_action_at(150, 420), None);
}

#[test]
fn popup_stays_on_work_area_near_corner() {
    check_popup_position(Point { x: 1900, y: 1000 }, (1300, 550));
    check_popup_position(Point { x: 5, y: 5 }, (5, 15));
}

fn check_popup_position(anchor: Point, expected: (i32, i32)) {
    let work = Rect { left: 0, top: 0, right: 1920, bottom: 1040 };
    let (x, y) = emojipicker::picker::popup_position(anchor, Some(work));
    assert_eq!((x, y), expected);
    assert!(work.left <= x && x + 620 <= work.right);
    assert!(work.top <= y && y + 440 <= work.bottom);
}

#[test]
fn every_matching_entry_is_listed() {
    let custom = vec![CustomItem {
        kind: ItemKind::Snippet,
        title: "Reply".to_string(),
        content: "Happy to help".to_string(),
        keywords: String::new(),
    }];
    let mut state = PickerState::new();
    for unit in "HAPPY".encode_utf16() {
        handle_char(&mut state, unit, &CATALOG, &custom);
    }
    assert_eq!(state.filtered, vec![CatalogRef::Builtin(0), CatalogRef::Custom(0)]);
}

#[test]
fn wheel_notch_reports_change() {
    let mut state = listed(40);
    assert!(wheel_notch(&mut state, -120));
    assert_eq!(state.scroll, 4);
    assert!(wheel_notch(&mut state, 120));
    assert_eq!(state.scroll, 0);
    assert!(!wheel_notch(&mut state, 120));
    assert_eq!(state.scroll, 0);
    let mut short = listed(10);
    assert!(!wheel_notch(&mut short, -120));
    assert_eq!(short.scroll, 0);
}

#[test]
fn max_scroll_any_layout() {
    let four = GridLayout { cols: 4, rows: 4, gap: 8, card_h: 64, emoji_dense: false };
    assert_eq!(max_scroll(0, four), 0);
    assert_eq!(max_scroll(16, four), 0);
    assert_eq!(max_scroll(17, four), 4);
    let three = GridLayout { cols: 3, rows: 2, gap: 0, card_h: 10, emoji_dense: false };
    assert_eq!(max_scroll(7, three), 3);
    assert_eq!(max_scroll(9, three), 3);
    assert_eq!(max_scroll(10, three), 6);
}

#[test]
fn card_width_any_layout() {
    let two = GridLayout { cols: 2, rows: 1, gap: 10, card_h: 10, emoji_dense: false };
    assert_eq!(card_width(two), 293);
    let one = GridLayout { cols: 1, rows: 1, gap: 100, card_h: 10, emoji_dense: false };
    assert_eq!(card_width(one), 596);
}

#[test]
fn card_and_tab_colours() {
    check_palette(Palette::from_theme(Theme::Dark));
}

fn check_palette(p: Palette) {
    assert_eq!(card_fill(&p, 3, 3, Some(3)), p.selected);
    assert_eq!(card_fill(&p, 2, 3, Some(2)), p.surface_alt);
    assert_eq!(card_fill(&p, 1, 3, Some(2)), p.surface);
    assert_eq!(card_fill(&p, 1, 3, None), p.surface);
    assert_eq!(tab_colors(&p, true), (p.accent, p.accent_text));
    assert_eq!(tab_colors(&p, false), (p.surface, p.muted));
    assert_eq!(footer_label_color(&p, FooterAction::Update, true), p.event);
    assert_eq!(footer_label_color(&p, FooterAction::Update, false), p.text);
    assert_eq!(footer_label_color(&p, FooterAction::Theme, true), p.accent);
    assert_eq!(footer_label_color(&p, FooterAction::Manage, true), p.text);
}

#[test]
fn branding_line_halves() {
    assert_eq!(
        brand_rects(),
        (Rect { left: 12, top: 408, right: 310, bottom: 432 }, Rect { left: 310, top: 408, right: 608, bottom: 432 })
    );
}

#[test]
fn branding_lines() {
    assert_eq!(brand_name_line("0.3.8"), "Windows Emoji Picker v0.3.8");
    assert_eq!(brand_author_line(), "عماد قاسمی - emadghasemi.ir");
}

#[test]
fn footer_buttons_select_no_card() {
    let state = listed(40);
    assert_eq!(hit_test_item(20, 370, &state), None);
    let mut dense = listed(40);
    dense.category_index = 1;
    assert_eq!(hit_test_item(20, 370, &dense), None);
    assert_eq!(hit_test_item(20, 361, &dense), Some(32));
}

#[test]
fn insertion_only_into_confirmed_target() {
    let custom: Vec<CustomItem> = Vec::new();
    let mut state = listed(3);
    state.selected = 2;
    state.target = 77;
    assert_eq!(confirmed_insertion(&state, &CATALOG, &custom, true, 77), Some("Hello there".to_string()));
    assert_eq!(confirmed_insertion(&state, &CATALOG, &custom, true, 78), None);
    assert_eq!(confirmed_insertion(&state, &CATALOG, &custom, false, 77), None);
    state.selected = 3;
    assert_eq!(confirmed_insertion(&state, &CATALOG, &custom, true, 77), None);
    state.selected = 0;
    state.target = 0;
    assert_eq!(confirmed_insertion(&state, &CATALOG, &custom, true, 0), None);
}
