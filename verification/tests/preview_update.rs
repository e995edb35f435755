use emojipicker::geometry::Rect;
use emojipicker::model::ItemKind;
use emojipicker::preview::{
    approximate_measure, clamp_xy, exact_block_size, exact_lines_origin, wrapped_height, fit_plan, fit_step, max_preview_size,
    normalize_content, position_next_to_owner, preview_font_family, preview_needs_update, preview_window_title,
    wrap_width, wrapped_target, FitPlan, PreviewLayout,
};
use emojipicker::update::{
    about_update_label, check_finished, download_failed, footer_update_label, start_check,
    start_download, update_needs_attention, CheckResult, UpdateStatus,
};

fn r(left: i32, top: i32, right: i32, bottom: i32) -> Rect {
    Rect { left, top, right, bottom }
}

#[test]
fn normalize_unifies_line_endings_and_tabs() {
    assert_eq!(normalize_content("a\r\nb\rc\td"), "a\nb\nc    d");
    assert_eq!(normalize_content("plain"), "plain");
    assert_eq!(normalize_content(""), "");
}

#[test]
fn approximate_measure_uses_longest_line() {
    assert_eq!(approximate_measure("ab\ncde", 20), (30, 50));
    assert_eq!(approximate_measure("", 20), (1, 25));
    assert_eq!(approximate_measure("x\ty", 10), (30, 15));
}

#[test]
fn max_preview_size_keeps_minimum() {
    assert_eq!(max_preview_size(r(0, 0, 1920, 1040)), (1896, 1016));
    assert_eq!(max_preview_size(r(0, 0, 50, 50)), (96, 72));
}

#[test]
fn fit_plan_per_kind() {
    assert_eq!(
        fit_plan(ItemKind::Emoji, 100, 200),
        FitPlan::Fixed(PreviewLayout { width: 100, height: 132, font_px: 72 })
    );
    assert_eq!(fit_plan(ItemKind::Symbol, 500, 500), FitPlan::Exact { start: 52, min: 22 });
    assert_eq!(fit_plan(ItemKind::Kaomoji, 500, 500), FitPlan::Exact { start: 26, min: 12 });
    assert_eq!(fit_plan(ItemKind::Ascii, 500, 500), FitPlan::Exact { start: 18, min: 7 });
    assert_eq!(fit_plan(ItemKind::Snippet, 500, 500), FitPlan::Wrapped { start: 19, min: 11 });
}

#[test]
fn fit_step_accepts_shrinks_and_gives_up() {
    assert_eq!(
        fit_step(20, 30, 40, 10, 500, 500),
        Some(PreviewLayout { width: 96, height: 76, font_px: 20 })
    );
    assert_eq!(fit_step(20, 600, 40, 10, 500, 500), None);
    assert_eq!(
        fit_step(10, 600, 40, 10, 500, 500),
        Some(PreviewLayout { width: 500, height: 76, font_px: 10 })
    );
}

#[test]
fn wrap_width_bounds() {
    assert_eq!(wrap_width(100, 1000), 180);
    assert_eq!(wrap_width(700, 1000), 640);
    assert_eq!(wrap_width(700, 300), 264);
    assert_eq!(wrap_width(700, 100), 80);
}

#[test]
fn clamp_xy_moves_into_work_area() {
    let mut x = -5;
    let mut y = 2000;
    clamp_xy(&mut x, &mut y, 100, 100, r(0, 0, 800, 600));
    assert_eq!((x, y), (0, 500));
}

#[test]
fn preview_goes_right_of_owner() {
    let p = position_next_to_owner(Some(r(100, 200, 620, 640)), r(0, 0, 1920, 1040), 300, 350);
    assert_eq!(p, (630, 245));
}

#[test]
fn preview_goes_left_of_owner_near_right_edge() {
    let p = position_next_to_owner(Some(r(1500, 200, 1900, 640)), r(0, 0, 1920, 1040), 300, 350);
    assert_eq!(p, (1190, 245));
}

#[test]
fn preview_centred_on_wide_owner() {
    let p = position_next_to_owner(Some(r(50, 100, 750, 500)), r(0, 0, 800, 600), 300, 200);
    assert_eq!(p, (250, 200));
}

#[test]
fn preview_centred_without_owner() {
    let p = position_next_to_owner(None, r(0, 0, 1920, 1040), 300, 350);
    assert_eq!(p, (810, 345));
}

#[test]
fn preview_clamped_to_bottom() {
    let p = position_next_to_owner(Some(r(100, 900, 620, 1100)), r(0, 0, 1920, 1040), 300, 350);
    assert_eq!(p, (630, 690));
}

#[test]
fn exact_lines_are_centred() {
    assert_eq!(exact_lines_origin(100, 60, 3, 300, 200), (100, 70, 20));
    assert_eq!(exact_lines_origin(400, 300, 0, 300, 200), (18, 18, 300));
}

#[test]
fn wrapped_text_centred_vertically() {
    let t = wrapped_target(r(18, 18, 282, 182), 40);
    assert_eq!(t, r(18, 80, 282, 120));
    let full = wrapped_target(r(18, 18, 282, 182), 400);
    assert_eq!(full, r(18, 18, 282, 182));
}

#[test]
fn font_family_per_kind() {
    assert_eq!(preview_font_family(ItemKind::Emoji), "Segoe UI Emoji");
    assert_eq!(preview_font_family(ItemKind::Symbol), "Segoe UI Symbol");
    assert_eq!(preview_font_family(ItemKind::Kaomoji), "Segoe UI Symbol");
    assert_eq!(preview_font_family(ItemKind::Ascii), "Consolas");
    assert_eq!(preview_font_family(ItemKind::Snippet), "Segoe UI");
}

#[test]
fn preview_title_falls_back() {
    assert_eq!(preview_window_title("  "), "Preview");
    assert_eq!(preview_window_title(""), "Preview");
    assert_eq!(preview_window_title("Smile"), "Smile");
}

#[test]
fn update_check_starts_once() {
    let mut s: UpdateStatus<u32> = UpdateStatus::Idle;
    assert!(start_check(&mut s));
    assert!(matches!(s, UpdateStatus::Checking));
    assert!(!start_check(&mut s));
    assert!(matches!(s, UpdateStatus::Checking));
    let mut d: UpdateStatus<u32> = UpdateStatus::Downloading;
    assert!(!start_check(&mut d));
    assert!(matches!(d, UpdateStatus::Downloading));
    let mut f: UpdateStatus<u32> = UpdateStatus::Failed(3);
    assert!(start_check(&mut f));
    assert!(matches!(f, UpdateStatus::Checking));
}

#[test]
fn update_check_results() {
    assert!(matches!(check_finished(CheckResult::Found(7u32)), UpdateStatus::Available(7)));
    assert!(matches!(check_finished::<u32>(CheckResult::NoUpdate), UpdateStatus::UpToDate));
    assert!(matches!(check_finished::<u32>(CheckResult::Error), UpdateStatus::Idle));
}

#[test]
fn update_download_hands_out_release() {
    let mut s: UpdateStatus<u32> = UpdateStatus::Available(9);
    assert_eq!(start_download(&mut s), Some(9));
    assert!(matches!(s, UpdateStatus::Downloading));
    assert_eq!(start_download(&mut s), None);
    assert!(matches!(s, UpdateStatus::Downloading));
    let mut f = download_failed(9u32);
    assert!(matches!(f, UpdateStatus::Failed(9)));
    assert_eq!(start_download(&mut f), Some(9));
    let mut idle: UpdateStatus<u32> = UpdateStatus::Idle;
    assert_eq!(start_download(&mut idle), None);
    assert!(matches!(idle, UpdateStatus::Idle));
}

#[test]
fn update_labels() {
    assert_eq!(footer_update_label::<u32>(&UpdateStatus::Checking), "Checking");
    assert_eq!(footer_update_label::<u32>(&UpdateStatus::Downloading), "Updating");
    assert_eq!(footer_update_label::<u32>(&UpdateStatus::UpToDate), "Up to date");
    assert_eq!(footer_update_label(&UpdateStatus::Available(1u32)), "Update");
    assert_eq!(footer_update_label(&UpdateStatus::Failed(1u32)), "Retry");
    assert_eq!(footer_update_label::<u32>(&UpdateStatus::Idle), "Update");
    assert_eq!(about_update_label::<u32>(&UpdateStatus::Idle), "بررسی بروزرسانی");
    assert_eq!(about_update_label::<u32>(&UpdateStatus::UpToDate), "برنامه بروز است");
    assert_eq!(about_update_label(&UpdateStatus::Available(1u32)), "دریافت نسخه جدید");
}

#[test]
fn update_attention_only_for_waiting_release() {
    assert!(update_needs_attention(&UpdateStatus::Available(1u32)));
    assert!(update_needs_attention(&UpdateStatus::Failed(1u32)));
    assert!(!update_needs_attention::<u32>(&UpdateStatus::Idle));
    assert!(!update_needs_attention::<u32>(&UpdateStatus::Checking));
}

#[test]
fn exact_block_from_measurements() {
    assert_eq!(exact_block_size(&vec![40, 120, 80], 20, 4), (120, 80));
    assert_eq!(exact_block_size(&vec![], 20, 0), (1, 20));
    assert_eq!(exact_block_size(&vec![-5], 17, 1), (1, 17));
    assert_eq!(exact_block_size(&vec![3], i32::MAX, 3), (3, i32::MAX));
}

#[test]
fn wrapped_height_has_floor() {
    assert_eq!(wrapped_height(10, 19), 23);
    assert_eq!(wrapped_height(200, 19), 200);
}

#[test]
fn preview_update_only_when_visible_and_changed() {
    assert!(!preview_needs_update(false, None, "", "", ItemKind::Emoji, "Smile", "😀"));
    assert!(preview_needs_update(true, None, "", "", ItemKind::Emoji, "Smile", "😀"));
    assert!(!preview_needs_update(true, Some(ItemKind::Emoji), "Smile", "😀", ItemKind::Emoji, "Smile", "😀"));
    assert!(preview_needs_update(true, Some(ItemKind::Symbol), "Smile", "😀", ItemKind::Emoji, "Smile", "😀"));
    assert!(preview_needs_update(true, Some(ItemKind::Emoji), "Grin", "😀", ItemKind::Emoji, "Smile", "😀"));
    assert!(preview_needs_update(true, Some(ItemKind::Emoji), "Smile", "😁", ItemKind::Emoji, "Smile", "😀"));
}
