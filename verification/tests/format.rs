use yaru::display::format::{
    format_date, format_optional_text, format_tags, truncate_text, TagInfo,
};
use yaru::domain::date::CalendarDate;

fn tag(id: i32, name: &str) -> TagInfo {
    TagInfo { id, name: name.to_string() }
}

#[test]
fn optional_text_shows_dash_when_absent_or_empty() {
    assert_eq!(format_optional_text(&None), "-");
    assert_eq!(format_optional_text(&Some(String::new())), "-");
    assert_eq!(format_optional_text(&Some(" ".to_string())), " ");
    assert_eq!(format_optional_text(&Some("説明".to_string())), "説明");
}

#[test]
fn tags_are_joined_by_name() {
    assert_eq!(format_tags(&[], ", "), "-");
    assert_eq!(format_tags(&[tag(1, "重要")], ", "), "重要");
    assert_eq!(format_tags(&[tag(1, "a"), tag(2, "b"), tag(3, "c")], ","), "a,b,c");
    assert_eq!(format_tags(&[tag(1, "a"), tag(2, "b")], ""), "ab");
}

#[test]
fn truncate_collapses_white_space() {
    assert_eq!(truncate_text("  a \t b\n\nc  ", 20), "a b c");
    assert_eq!(truncate_text("", 5), "");
    assert_eq!(truncate_text("   ", 5), "");
    assert_eq!(truncate_text("全角\u{3000}空白", 20), "全角 空白");
}

#[test]
fn truncate_cuts_by_characters() {
    assert_eq!(truncate_text("abcdef", 6), "abcdef");
    assert_eq!(truncate_text("abcdefg", 6), "abcdef...");
    assert_eq!(truncate_text("日本語のテキスト", 3), "日本語...");
    assert_eq!(truncate_text("a  b", 0), "...");
    let text = "one two  three   four";
    let expected: String = text.split_whitespace().collect::<Vec<_>>().join(" ");
    assert_eq!(truncate_text(text, 100), expected);
}

#[test]
fn dates_are_written_iso() {
    assert_eq!(format_date(&None), "-");
    let d = CalendarDate::from_ymd(2026, 3, 5).unwrap();
    assert_eq!(format_date(&Some(d)), "2026-03-05");
}
