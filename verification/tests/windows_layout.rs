use emojipicker::about::{about_click, link_url, AboutAction};
use emojipicker::custom::CustomItem;
use emojipicker::geometry::{clamp_to_work_area, rect_contains, rect_is_usable, Point, Rect};
use emojipicker::manager::{
    clamp_scroll, delete_current, handle_click, manager_point_is_interactive, save_current,
    wheel_scroll, ManagerClick, ManagerLayout, ManagerModel, SaveOutcome,
};
use emojipicker::model::ItemKind;
use emojipicker::native_window::{NativeWindowBase, HIT_CAPTION, HIT_CLIENT};

fn r(left: i32, top: i32, right: i32, bottom: i32) -> Rect {
    Rect { left, top, right, bottom }
}

fn item(kind: ItemKind, title: &str) -> CustomItem {
    CustomItem { kind, title: title.to_string(), content: "c".to_string(), keywords: String::new() }
}

#[test]
fn manager_layout_default_size() {
    let l = ManagerLayout::from_client(720, 620);
    assert_eq!((l.width, l.height), (720, 620));
    assert_eq!(l.tabs, [r(222, 54, 377, 86), r(385, 54, 540, 86), r(548, 54, 704, 86)]);
    assert_eq!(l.title_label, r(222, 94, 704, 114));
    assert_eq!(l.title_edit, r(222, 116, 704, 148));
    assert_eq!(l.content_label, r(222, 158, 704, 178));
    assert_eq!(l.content_edit, r(222, 180, 704, 488));
    assert_eq!(l.keywords_label, r(222, 498, 704, 518));
    assert_eq!(l.keywords_edit, r(222, 522, 704, 554));
    assert_eq!(
        l.buttons,
        [r(222, 568, 336, 604), r(344, 568, 458, 604), r(466, 568, 580, 604), r(588, 568, 704, 604)]
    );
    assert_eq!(l.list, r(16, 54, 206, 560));
    assert_eq!(l.visible_rows(), 16);
}

#[test]
fn manager_layout_enforces_minimum() {
    let l = ManagerLayout::from_client(100, 100);
    assert_eq!((l.width, l.height), (600, 500));
    assert_eq!(l.tabs[0], r(222, 54, 337, 86));
    assert_eq!(l.list.bottom, 440);
    assert_eq!(l.content_edit.bottom, 368);
}

#[test]
fn manager_clicks() {
    let l = ManagerLayout::from_client(720, 620);
    let items = vec![item(ItemKind::Kaomoji, "a"), item(ItemKind::Ascii, "b"), item(ItemKind::Snippet, "c")];
    let mut m = ManagerModel::new();
    assert_eq!(handle_click(&mut m, &l, 20, 54 + 2 * 30 + 5, &items), ManagerClick::SelectItem(2));
    assert_eq!(m.selected, Some(2));
    assert_eq!(m.kind, ItemKind::Snippet);
    assert_eq!(handle_click(&mut m, &l, 20, 54 + 5 * 30, &items), ManagerClick::ListEmpty);
    assert_eq!(handle_click(&mut m, &l, 400, 60, &items), ManagerClick::Kind(ItemKind::Ascii));
    assert_eq!(m.kind, ItemKind::Ascii);
    assert_eq!(m.selected, Some(2));
    assert_eq!(handle_click(&mut m, &l, 600, 60, &items), ManagerClick::Kind(ItemKind::Snippet));
    assert_eq!(handle_click(&mut m, &l, 350, 580, &items), ManagerClick::Save);
    assert_eq!(handle_click(&mut m, &l, 470, 580, &items), ManagerClick::Delete);
    assert_eq!(handle_click(&mut m, &l, 600, 580, &items), ManagerClick::Close);
    assert_eq!(handle_click(&mut m, &l, 210, 300, &items), ManagerClick::Outside);
    assert_eq!(handle_click(&mut m, &l, 230, 580, &items), ManagerClick::New);
    assert_eq!(m, ManagerModel { selected: None, list_scroll: 0, kind: ItemKind::Kaomoji });
}

#[test]
fn manager_interactive_points() {
    let l = ManagerLayout::from_client(720, 620);
    assert!(manager_point_is_interactive(&l, 20, 60));
    assert!(manager_point_is_interactive(&l, 600, 60));
    assert!(manager_point_is_interactive(&l, 300, 300));
    assert!(manager_point_is_interactive(&l, 700, 600));
    assert!(!manager_point_is_interactive(&l, 300, 20));
    assert!(!manager_point_is_interactive(&l, 340, 580));
}

#[test]
fn manager_scrolling() {
    let mut m = ManagerModel::new();
    assert!(wheel_scroll(&mut m, -120, 16, 20));
    assert_eq!(m.list_scroll, 1);
    m.list_scroll = 4;
    assert!(!wheel_scroll(&mut m, -120, 16, 20));
    assert_eq!(m.list_scroll, 4);
    assert!(wheel_scroll(&mut m, 120, 16, 20));
    assert_eq!(m.list_scroll, 3);
    m.list_scroll = 0;
    assert!(!wheel_scroll(&mut m, 120, 16, 20));
    m.list_scroll = 9;
    clamp_scroll(&mut m, 16, 20);
    assert_eq!(m.list_scroll, 4);
    clamp_scroll(&mut m, 16, 3);
    assert_eq!(m.list_scroll, 0);
}

#[test]
fn manager_save_and_delete() {
    let mut items = Vec::new();
    let mut m = ManagerModel::new();
    let refused = save_current(&mut m, &mut items, "t".to_string(), " \n ".to_string(), String::new());
    assert_eq!(refused, SaveOutcome::EmptyContent);
    assert!(items.is_empty());
    assert_eq!(save_current(&mut m, &mut items, String::new(), "(^_^)".to_string(), "happy".to_string()), SaveOutcome::Saved(0));
    assert_eq!(m.selected, Some(0));
    assert_eq!(items[0].title, "(^_^)");
    m.kind = ItemKind::Ascii;
    assert_eq!(save_current(&mut m, &mut items, "face".to_string(), "(o_o)".to_string(), String::new()), SaveOutcome::Saved(0));
    assert_eq!(items.len(), 1);
    assert_eq!(items[0].kind, ItemKind::Ascii);
    assert!(delete_current(&mut m, &mut items));
    assert!(items.is_empty());
    assert_eq!(m.selected, None);
    assert!(!delete_current(&mut m, &mut items));
}

#[test]
fn clamp_keeps_windows_in_work_area() {
    let work = r(0, 0, 1000, 800);
    let (mut x, mut y) = (-50, 700);
    clamp_to_work_area(&mut x, &mut y, 300, 200, work, 8);
    assert_eq!((x, y), (8, 592));
    let (mut x, mut y) = (900, 100);
    clamp_to_work_area(&mut x, &mut y, 300, 200, work, 8);
    assert_eq!((x, y), (692, 100));
    let (mut x, mut y) = (100, 100);
    clamp_to_work_area(&mut x, &mut y, 2000, 2000, work, 0);
    assert_eq!((x, y), (0, 0));
}

#[test]
fn rect_helpers() {
    assert!(rect_contains(r(0, 0, 10, 10), 0, 9));
    assert!(!rect_contains(r(0, 0, 10, 10), 10, 5));
    assert!(rect_is_usable(r(0, 0, 1, 1)));
    assert!(!rect_is_usable(r(5, 0, 5, 1)));
}

#[test]
fn centered_placements() {
    let base = NativeWindowBase::new(200, 100, 18);
    let work = r(0, 0, 1000, 800);
    assert_eq!(base.centered_on_owner(Some(r(100, 100, 500, 400)), work, 8), (200, 200));
    assert_eq!(base.centered_on_owner(Some(r(100, 100, 100, 400)), work, 8), (400, 350));
    assert_eq!(base.centered_on_owner(None, work, 8), (400, 350));
    assert_eq!(base.centered_on_owner(Some(r(-300, -300, -100, -200)), work, 8), (8, 8));
}

#[test]
fn tray_placements() {
    let base = NativeWindowBase::new(400, 300, 18);
    let work = r(0, 0, 1000, 760);
    assert_eq!(base.above_taskbar_at_cursor(Point { x: 500, y: 790 }, work, 8), (300, 452));
    assert_eq!(base.above_tray_icon(r(900, 770, 916, 786), Some(work), 8), Some((592, 452)));
    assert_eq!(base.above_tray_icon(r(900, 770, 900, 786), Some(work), 8), None);
    assert_eq!(base.above_tray_icon(r(900, 770, 916, 786), None, 8), None);
    assert_eq!(NativeWindowBase::tray_icon_center(r(900, 770, 916, 786)), Point { x: 908, y: 778 });
}

#[test]
fn anchor_placements() {
    let base = NativeWindowBase::new(300, 200, 18);
    let work = Some(r(0, 0, 1000, 800));
    assert_eq!(base.near_anchor(Point { x: 100, y: 100 }, work, 10), (100, 110));
    assert_eq!(base.near_anchor(Point { x: 100, y: 700 }, work, 10), (100, 490));
    assert_eq!(base.near_anchor(Point { x: 900, y: 100 }, work, 10), (700, 110));
}

#[test]
fn drag_hit_testing() {
    let base = NativeWindowBase::new(300, 200, 18);
    assert_eq!(base.drag_hit_test(None, |_x: i32, _y: i32| true), None);
    assert_eq!(base.drag_hit_test(Some(Point { x: 300, y: 10 }), |_x: i32, _y: i32| true), None);
    assert_eq!(base.drag_hit_test(Some(Point { x: 10, y: 10 }), |x: i32, _y: i32| x < 50), Some(HIT_CLIENT));
    assert_eq!(base.drag_hit_test(Some(Point { x: 100, y: 10 }), |x: i32, _y: i32| x < 50), Some(HIT_CAPTION));
    assert_eq!(NativeWindowBase::new(i32::MAX, 4, 18).rounding_extent(), (i32::MAX, 5));
}

#[test]
fn about_window_regions() {
    assert_eq!(about_click(40, 60), AboutAction::OpenWebsite);
    assert_eq!(about_click(40, 100), AboutAction::OpenGithub);
    assert_eq!(about_click(100, 200), AboutAction::RequestUpdate);
    assert_eq!(about_click(150, 250), AboutAction::Close);
    assert_eq!(about_click(10, 10), AboutAction::Nothing);
    assert_eq!(link_url(AboutAction::OpenWebsite), Some("https://emadghasemi.ir"));
    assert_eq!(link_url(AboutAction::OpenGithub), Some("https://github.com/emadgh/windows-emojipicker"));
    assert_eq!(link_url(AboutAction::Close), None);
}
