use clipboardx::storage::models::{ClipRecord, Timestamp};
use clipboardx::ui::panel::{
    delete_question, favorite_filter_label, format_preview, list_line, over_controls, panel_origin,
    preview_body, preview_content, preview_origin, preview_title, row_colors, row_zone, star_glyph,
    truncate, RowZone, MAX_PREVIEW_CHARS,
};
use clipboardx::ui::settings_window::{
    apply_settings_form, max_records_from_trimmed, max_records_text, mode_index, parse_i64,
    parse_max_records,
};
use clipboardx::ui::theme::{PanelSizes, ThemeColors};
use clipboardx::utils::config::{Config, IgnoreRule, InteractionMode};
use clipboardx::win32::{POINT, RECT};

fn at(year: i32) -> Timestamp {
    Timestamp { year, month: 3, day: 5, hour: 9, minute: 7, second: 42 }
}

fn record(kind: &str, text: Option<&str>, year: i32) -> ClipRecord {
    ClipRecord {
        id: 5,
        content_hash: "h".to_string(),
        content_type: kind.to_string(),
        content_text: text.map(|t| t.to_string()),
        content_blob: None,
        source_app: Some("app".to_string()),
        source: "local_clipboard".to_string(),
        is_favorite: false,
        created_at: at(year),
        updated_at: at(year),
    }
}

#[test]
fn truncate_keeps_short_first_line() {
    assert_eq!(truncate("hello", 55), "hello");
    assert_eq!(truncate("line1\r\nline2", 55), "line1");
    assert_eq!(truncate("line1\nline2", 55), "line1");
    assert_eq!(truncate("abc\r", 55), "abc\r");
    assert_eq!(truncate("\nabc", 55), "");
    assert_eq!(truncate("", 55), "");
}

#[test]
fn truncate_cuts_on_char_boundary() {
    let long = "a".repeat(60);
    assert_eq!(truncate(&long, 55), format!("{}...", "a".repeat(55)));
    let cjk = "中".repeat(20); // 60 bytes
    assert_eq!(truncate(&cjk, 55), format!("{}...", "中".repeat(18)));
    assert_eq!(truncate("x", 0), "...");
    assert_eq!(truncate("中a", 2), "...");
    assert_eq!(truncate(&"b".repeat(55), 55), "b".repeat(55));
}

#[test]
fn preview_lines_show_label_and_minute() {
    assert_eq!(format_preview(&record("text", Some("hello\nworld"), 2024)), "hello  2024.03.05 09:07");
    assert_eq!(format_preview(&record("image", Some("x"), 2024)), "[图片]  2024.03.05 09:07");
    assert_eq!(format_preview(&record("file", None, 2024)), "[文件]  2024.03.05 09:07");
    assert_eq!(format_preview(&record("text", None, 2024)), "[空]  2024.03.05 09:07");
    assert_eq!(format_preview(&record("file", Some("C:\\a.txt"), 2024)), "C:\\a.txt  2024.03.05 09:07");
}

#[test]
fn preview_years_are_printed_like_chrono() {
    assert_eq!(format_preview(&record("text", Some("t"), 5)), "t  0005.03.05 09:07");
    assert_eq!(format_preview(&record("text", Some("t"), 12345)), "t  +12345.03.05 09:07");
    assert_eq!(format_preview(&record("text", Some("t"), -1)), "t  -0001.03.05 09:07");
}

#[test]
fn preview_window_text_and_title() {
    assert_eq!(preview_content(&record("image", Some("x"), 2024)), "[图片]");
    assert_eq!(preview_content(&record("text", None, 2024)), "[空]");
    assert_eq!(preview_content(&record("file", Some("line1\nline2"), 2024)), "line1\nline2");
    assert_eq!(preview_title(&at(2024)), "2024-03-05 09:07");
    assert_eq!(preview_body("short"), "short");
    let long = "字".repeat(MAX_PREVIEW_CHARS + 1);
    let expected = format!("{}\n\n...（内容过长，仅显示前 {} 字符）", "字".repeat(MAX_PREVIEW_CHARS), MAX_PREVIEW_CHARS);
    assert_eq!(preview_body(&long), expected);
    let exact = "x".repeat(MAX_PREVIEW_CHARS);
    assert_eq!(preview_body(&exact), exact);
}

#[test]
fn panel_placement_in_work_area() {
    let work = RECT { left: 0, top: 0, right: 1920, bottom: 1040 };
    let p = panel_origin(POINT { x: 1000, y: 500 }, work);
    assert_eq!((p.x, p.y), (770, 510));
    let p = panel_origin(POINT { x: 100, y: 900 }, work);
    assert_eq!((p.x, p.y), (4, 360));
    let p = panel_origin(POINT { x: 1900, y: 1030 }, work);
    assert_eq!((p.x, p.y), (1456, 490));
    let small = RECT { left: 0, top: 100, right: 1000, bottom: 500 };
    let p = panel_origin(POINT { x: 500, y: 200 }, small);
    assert_eq!((p.x, p.y), (270, 104));
}

#[test]
fn preview_placement_beside_panel() {
    let work = Some(RECT { left: 0, top: 0, right: 1920, bottom: 1040 });
    let p = preview_origin(RECT { left: 100, top: 50, right: 560, bottom: 580 }, work);
    assert_eq!((p.x, p.y), (562, 50));
    let p = preview_origin(RECT { left: 1400, top: 50, right: 1860, bottom: 580 }, work);
    assert_eq!((p.x, p.y), (798, 50));
    let p = preview_origin(RECT { left: 300, top: 50, right: 1860, bottom: 580 }, work);
    assert_eq!((p.x, p.y), (4, 50));
    let p = preview_origin(RECT { left: 1400, top: 50, right: 1860, bottom: 580 }, None);
    assert_eq!((p.x, p.y), (1862, 50));
}

#[test]
fn drag_regions_of_the_panel() {
    assert!(over_controls(POINT { x: 10, y: 10 }));
    assert!(!over_controls(POINT { x: 2, y: 10 }));
    assert!(over_controls(POINT { x: 200, y: 40 }));
    assert!(over_controls(POINT { x: 470, y: 470 }));
    assert!(!over_controls(POINT { x: 470, y: 33 }));
    assert!(!over_controls(POINT { x: 100, y: 490 }));
}

#[test]
fn row_click_zones() {
    assert_eq!(row_zone(360, 400), RowZone::Star);
    assert_eq!(row_zone(352, 400), RowZone::Star);
    assert_eq!(row_zone(380, 400), RowZone::Open);
    assert_eq!(row_zone(399, 400), RowZone::Open);
    assert_eq!(row_zone(400, 400), RowZone::Text);
    assert_eq!(row_zone(100, 400), RowZone::Text);
}

#[test]
fn row_colors_and_star() {
    let c = row_colors(true, false);
    assert_eq!((c.text, c.star, c.arrow), (0x00FFFFFF, 0x0000D7FF, 0x00AAAAAA));
    let c = row_colors(false, true);
    assert_eq!((c.text, c.star, c.arrow), (0, 0x0000D7FF, 0));
    let c = row_colors(false, false);
    assert_eq!(c.star, 0x00CCCCCC);
    assert_eq!(star_glyph(true), 0x2605);
    assert_eq!(star_glyph(false), 0x2606);
}

#[test]
fn list_lines_in_delete_mode() {
    let r = record("text", Some("hi"), 2024);
    assert_eq!(list_line(&r, false, true), "hi  2024.03.05 09:07");
    assert_eq!(list_line(&r, true, true), "☑ hi  2024.03.05 09:07");
    assert_eq!(list_line(&r, true, false), "☐ hi  2024.03.05 09:07");
    assert_eq!(favorite_filter_label(true), "★ 收藏");
    assert_eq!(favorite_filter_label(false), "☆ 收藏");
    assert_eq!(delete_question(3), "确定要删除 3 条记录吗？");
}

#[test]
fn theme_defaults() {
    let t = ThemeColors::default();
    assert_eq!(t.background, 0xF5F5F5);
    assert_eq!(t.selected_bg, 0x0078D4);
    assert_eq!(t.favorite, 0xFFC107);
    assert_eq!(t.icon_file, 0xFF8C00);
    let s = PanelSizes::default();
    assert_eq!((s.width, s.max_height, s.search_height, s.item_height), (420, 600, 36, 48));
}

#[test]
fn parse_i64_like_std() {
    for s in ["0", "-0", "+7", "-5", "42", "9223372036854775807", "-9223372036854775808", "", "-", "+", "1 2", " 1", "12a", "9223372036854775808", "-9223372036854775809", "٣"] {
        assert_eq!(parse_i64(s), s.parse::<i64>().ok(), "input {:?}", s);
    }
}

#[test]
fn records_limit_from_form_text() {
    assert_eq!(parse_max_records(" 100 "), 100);
    assert_eq!(parse_max_records("无限制"), -1);
    assert_eq!(parse_max_records(" 无限制 "), -1);
    assert_eq!(parse_max_records(""), -1);
    assert_eq!(parse_max_records("   "), -1);
    assert_eq!(parse_max_records("abc"), 5000);
    assert_eq!(parse_max_records("-5"), -5);
    assert_eq!(parse_max_records("99999999999999999999"), 5000);
    assert_eq!(max_records_from_trimmed("12"), 12);
}

#[test]
fn records_limit_ignores_unicode_white_space() {
    assert_eq!(parse_max_records("\t\n42\r"), 42);
    assert_eq!(parse_max_records("\u{3000}无限制\u{a0}"), -1);
    assert_eq!(parse_max_records("\u{2003}7\u{85}"), 7);
    assert_eq!(parse_max_records("4 2"), 5000);
}

#[test]
fn records_limit_text_round_trips() {
    assert_eq!(max_records_text(-1), "无限制");
    assert_eq!(max_records_text(5000), "5000");
    assert_eq!(max_records_text(-7), "-7");
    assert_eq!(max_records_text(i64::MIN), i64::MIN.to_string());
    for m in [-1i64, 0, 1, 5000, -7, i64::MAX, i64::MIN] {
        assert_eq!(parse_max_records(&max_records_text(m)), m);
    }
}

#[test]
fn settings_form_saves_fields() {
    let mut c = Config::default();
    c.ignore_list.push(IgnoreRule { rule_type: "full_path".to_string(), pattern: "x".to_string() });
    assert_eq!(mode_index(c.interaction_mode), 0);
    apply_settings_form(&mut c, 1, " 200 ", 1);
    assert_eq!(c.interaction_mode, InteractionMode::ConfirmThenPaste);
    assert_eq!(mode_index(c.interaction_mode), 1);
    assert_eq!(c.max_records, 200);
    assert!(c.image_storage_enabled);
    assert_eq!(c.hotkey_vk, 0x56);
    assert_eq!(c.ignore_list.len(), 1);
    apply_settings_form(&mut c, 0, "无限制", 0);
    assert_eq!(c.interaction_mode, InteractionMode::AutoPaste);
    assert_eq!(c.max_records, -1);
    assert!(!c.image_storage_enabled);
}
