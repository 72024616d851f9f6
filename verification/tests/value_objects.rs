use yaru::domain::tag::{TagDescription, TagId, TagName};
use yaru::domain::task::{
    DueDate, DueDateStatus, Priority, Status, TaskDescription, TaskId, TaskTitle,
};
use yaru::domain::date::CalendarDate;
use chrono::Datelike;

// ---- TagDescription

#[test]
fn test_tag_description_valid() {
    let desc = TagDescription::new("これはタグの説明です").unwrap();
    assert_eq!(desc.value(), "これはタグの説明です");
}

#[test]
fn test_tag_description_empty() {
    let desc = TagDescription::new("").unwrap();
    assert_eq!(desc.value(), "");
}

#[test]
fn test_tag_description_long_text() {
    let long_text = "a".repeat(1000);
    let desc = TagDescription::new(&long_text).unwrap();
    assert_eq!(desc.value(), long_text);
}

#[test]
fn test_tag_description_multiline() {
    let multiline = "行1\n行2\n行3";
    let desc = TagDescription::new(multiline).unwrap();
    assert_eq!(desc.value(), multiline);
}

#[test]
fn test_tag_description_whitespace() {
    let desc = TagDescription::new("   ").unwrap();
    assert_eq!(desc.value(), "   ");
}

#[test]
fn test_tag_description_equality() {
    let desc1 = TagDescription::new("同じ説明").unwrap();
    let desc2 = TagDescription::new("同じ説明").unwrap();
    assert_eq!(desc1, desc2);
}

#[test]
fn test_tag_description_clone() {
    let desc1 = TagDescription::new("説明").unwrap();
    let desc2 = desc1.clone();
    assert_eq!(desc1, desc2);
}

#[test]
fn test_tag_description_default() {
    let desc = TagDescription::default();
    assert_eq!(desc.value(), "");
}

// ---- TagId

#[test]
fn test_tag_id_valid() {
    let id = TagId::new(1).unwrap();
    assert_eq!(id.value(), 1);
}

#[test]
fn test_tag_id_zero() {
    let id = TagId::new(0).unwrap();
    assert_eq!(id.value(), 0);
}

#[test]
fn test_tag_id_large() {
    let id = TagId::new(999999).unwrap();
    assert_eq!(id.value(), 999999);
}

#[test]
fn test_tag_id_negative() {
    let result = TagId::new(-1);
    assert!(result.is_err());
}

#[test]
fn test_tag_id_equality() {
    let id1 = TagId::new(1).unwrap();
    let id2 = TagId::new(1).unwrap();
    assert_eq!(id1, id2);
}

#[test]
fn test_tag_id_inequality() {
    let id1 = TagId::new(1).unwrap();
    let id2 = TagId::new(2).unwrap();
    assert_ne!(id1, id2);
}

#[test]
fn test_tag_id_copy() {
    let id1 = TagId::new(1).unwrap();
    let id2 = id1;
    assert_eq!(id1, id2);
}

#[test]
fn test_tag_id_hash() {
    let mut map = std::collections::HashMap::new();
    let id = TagId::new(1).unwrap();
    map.insert(id, "test");
    assert_eq!(map.get(&id), Some(&"test"));
}

#[test]
fn tag_id_negative_message() {
    let err = TagId::new(-5).unwrap_err();
    assert_eq!(err.message(), "タグIDは0以上である必要があります");
}

// ---- TagName

#[test]
fn test_tag_name_valid() {
    let name = TagName::new("重要").unwrap();
    assert_eq!(name.value(), "重要");
}

#[test]
fn test_tag_name_single_char() {
    let name = TagName::new("A").unwrap();
    assert_eq!(name.value(), "A");
}

#[test]
fn test_tag_name_max_length() {
    let long_name = "a".repeat(50);
    let name = TagName::new(&long_name).unwrap();
    assert_eq!(name.value(), long_name);
}

#[test]
fn test_tag_name_empty() {
    let result = TagName::new("");
    assert!(result.is_err());
}

#[test]
fn test_tag_name_whitespace_only() {
    let result = TagName::new("   ");
    assert!(result.is_err());
}

#[test]
fn test_tag_name_too_long() {
    let result = TagName::new(&"a".repeat(51));
    assert!(result.is_err());
}

#[test]
fn test_tag_name_with_whitespace() {
    let name = TagName::new(" 重要 ").unwrap();
    assert_eq!(name.value(), " 重要 ");
}

#[test]
fn test_tag_name_equality() {
    let name1 = TagName::new("重要").unwrap();
    let name2 = TagName::new("重要").unwrap();
    assert_eq!(name1, name2);
}

#[test]
fn test_tag_name_clone() {
    let name1 = TagName::new("重要").unwrap();
    let name2 = name1.clone();
    assert_eq!(name1, name2);
}

#[test]
fn test_tag_name_hash() {
    let mut set = std::collections::HashSet::new();
    let name = TagName::new("重要").unwrap();
    set.insert(name.clone());
    assert!(set.contains(&name));
}

#[test]
fn tag_name_length_counts_characters() {
    // 50 three-byte characters are 150 bytes but 50 characters: accepted.
    assert!(TagName::new(&"重".repeat(20)).is_ok());
    assert_eq!(TagName::new(&"重".repeat(50)).unwrap().value(), "重".repeat(50));
    let err = TagName::new(&"重".repeat(51)).unwrap_err();
    assert_eq!(err.message(), "タグ名は50文字以内にしてください");
    assert_eq!(TagName::new("\t\n").unwrap_err().message(), "タグ名は空にできません");
}

// ---- DueDateStatus

#[test]
fn test_due_date_status_equality() {
    assert_eq!(DueDateStatus::Overdue, DueDateStatus::Overdue);
    assert_ne!(DueDateStatus::Overdue, DueDateStatus::DueToday);
}

#[test]
fn test_due_date_status_copy() {
    let status1 = DueDateStatus::Overdue;
    let status2 = status1;
    assert_eq!(status1, status2);
}

#[test]
fn test_due_date_status_display() {
    assert_eq!(DueDateStatus::Overdue.display_name(), "Overdue");
    assert_eq!(DueDateStatus::DueToday.display_name(), "Due Today");
    assert_eq!(DueDateStatus::DueThisWeek.display_name(), "Due This Week");
    assert_eq!(DueDateStatus::NoDueDate.display_name(), "No Due Date");
}

// ---- Priority

#[test]
fn test_priority_from_string_low() {
    let priority = Priority::from_str("Low").unwrap();
    assert_eq!(priority, Priority::Low);
}

#[test]
fn test_priority_from_string_medium() {
    let priority = Priority::from_str("Medium").unwrap();
    assert_eq!(priority, Priority::Medium);
}

#[test]
fn test_priority_from_string_high() {
    let priority = Priority::from_str("High").unwrap();
    assert_eq!(priority, Priority::High);
}

#[test]
fn test_priority_from_string_critical() {
    let priority = Priority::from_str("Critical").unwrap();
    assert_eq!(priority, Priority::Critical);
}

#[test]
fn test_priority_from_string_invalid() {
    let result = Priority::from_str("invalid");
    assert!(result.is_err());
}

#[test]
fn test_priority_to_string() {
    assert_eq!(Priority::Low.as_str(), "Low");
    assert_eq!(Priority::Medium.as_str(), "Medium");
    assert_eq!(Priority::High.as_str(), "High");
    assert_eq!(Priority::Critical.as_str(), "Critical");
}

#[test]
fn test_priority_display() {
    assert_eq!(Priority::Low.display_name(), "低");
    assert_eq!(Priority::Medium.display_name(), "中");
    assert_eq!(Priority::High.display_name(), "高");
    assert_eq!(Priority::Critical.display_name(), "重大");
}

#[test]
fn test_priority_copy() {
    let priority1 = Priority::Low;
    let priority2 = priority1;
    assert_eq!(priority1, priority2);
}

#[test]
fn test_priority_equality() {
    assert_eq!(Priority::Low, Priority::Low);
    assert_ne!(Priority::Low, Priority::High);
}

#[test]
fn test_priority_ordering() {
    assert!(Priority::Low < Priority::Medium);
    assert!(Priority::Medium < Priority::High);
    assert!(Priority::High < Priority::Critical);
}

#[test]
fn priority_name_round_trip_and_error() {
    for p in [Priority::Low, Priority::Medium, Priority::High, Priority::Critical] {
        assert_eq!(Priority::from_str(p.as_str()).unwrap(), p);
    }
    assert!(Priority::Low.rank() < Priority::Critical.rank());
    let err = Priority::from_str("urgent").unwrap_err();
    assert_eq!(err.message(), "無効な優先度: urgent");
}

// ---- Status

#[test]
fn test_status_from_string_pending() {
    let status = Status::from_str_anyhow("Pending").unwrap();
    assert_eq!(status, Status::Pending);
}

#[test]
fn test_status_from_string_in_progress() {
    let status = Status::from_str_anyhow("InProgress").unwrap();
    assert_eq!(status, Status::InProgress);
}

#[test]
fn test_status_from_string_completed() {
    let status = Status::from_str_anyhow("Completed").unwrap();
    assert_eq!(status, Status::Completed);
}

#[test]
fn test_status_from_filter_value_pending() {
    let status = Status::from_filter_value("pending").unwrap();
    assert_eq!(status, Status::Pending);
}

#[test]
fn test_status_from_filter_value_todo() {
    let status = Status::from_filter_value("todo").unwrap();
    assert_eq!(status, Status::Pending);
}

#[test]
fn test_status_from_filter_value_in_progress() {
    let status = Status::from_filter_value("in_progress").unwrap();
    assert_eq!(status, Status::InProgress);
}

#[test]
fn test_status_from_filter_value_progress() {
    let status = Status::from_filter_value("progress").unwrap();
    assert_eq!(status, Status::InProgress);
}

#[test]
fn test_status_from_filter_value_completed() {
    let status = Status::from_filter_value("completed").unwrap();
    assert_eq!(status, Status::Completed);
}

#[test]
fn test_status_from_filter_value_done() {
    let status = Status::from_filter_value("done").unwrap();
    assert_eq!(status, Status::Completed);
}

#[test]
fn test_status_from_filter_value_invalid() {
    let result = Status::from_filter_value("invalid");
    assert!(result.is_err());
}

#[test]
fn test_status_to_string() {
    assert_eq!(Status::Pending.as_str(), "Pending");
    assert_eq!(Status::InProgress.as_str(), "InProgress");
    assert_eq!(Status::Completed.as_str(), "Completed");
}

#[test]
fn test_status_display() {
    assert_eq!(Status::Pending.display_name(), "保留中");
    assert_eq!(Status::InProgress.display_name(), "進行中");
    assert_eq!(Status::Completed.display_name(), "完了");
}

#[test]
fn test_status_copy() {
    let status1 = Status::Pending;
    let status2 = status1;
    assert_eq!(status1, status2);
}

#[test]
fn test_status_equality() {
    assert_eq!(Status::Pending, Status::Pending);
    assert_ne!(Status::Pending, Status::InProgress);
}

#[test]
fn status_filter_value_ignores_case_and_reports_input() {
    assert_eq!(Status::from_filter_value("DONE").unwrap(), Status::Completed);
    assert_eq!(Status::from_filter_value("In_Progress").unwrap(), Status::InProgress);
    let err = Status::from_filter_value("Later").unwrap_err();
    assert_eq!(err.message(), "無効なフィルタ値: Later");
    assert_eq!(Status::from_str_anyhow("in_progress").unwrap(), Status::InProgress);
    assert!(Status::from_str_anyhow("paused").is_err());
}

// ---- TaskDescription

#[test]
fn test_task_description_valid() {
    let desc = TaskDescription::new("これはタスクの説明です").unwrap();
    assert_eq!(desc.value(), "これはタスクの説明です");
}

#[test]
fn test_task_description_empty() {
    let desc = TaskDescription::new("").unwrap();
    assert_eq!(desc.value(), "");
}

#[test]
fn test_task_description_long_text() {
    let long_text = "a".repeat(1000);
    let desc = TaskDescription::new(&long_text).unwrap();
    assert_eq!(desc.value(), long_text);
}

#[test]
fn test_task_description_multiline() {
    let multiline = "行1\n行2\n行3";
    let desc = TaskDescription::new(multiline).unwrap();
    assert_eq!(desc.value(), multiline);
}

#[test]
fn test_task_description_whitespace() {
    let desc = TaskDescription::new("   ").unwrap();
    assert_eq!(desc.value(), "   ");
}

#[test]
fn test_task_description_equality() {
    let desc1 = TaskDescription::new("同じ説明").unwrap();
    let desc2 = TaskDescription::new("同じ説明").unwrap();
    assert_eq!(desc1, desc2);
}

#[test]
fn test_task_description_clone() {
    let desc1 = TaskDescription::new("説明").unwrap();
    let desc2 = desc1.clone();
    assert_eq!(desc1, desc2);
}

#[test]
fn test_task_description_default() {
    let desc = TaskDescription::default();
    assert_eq!(desc.value(), "");
}

// ---- TaskId

#[test]
fn test_task_id_valid() {
    let id = TaskId::new(1).unwrap();
    assert_eq!(id.value(), 1);
}

#[test]
fn test_task_id_zero() {
    let id = TaskId::new(0).unwrap();
    assert_eq!(id.value(), 0);
}

#[test]
fn test_task_id_negative() {
    let result = TaskId::new(-1);
    assert!(result.is_err());
    assert!(result.unwrap_err().message().contains("タスクIDは0以上"));
}

#[test]
fn test_task_id_equality() {
    let id1 = TaskId::new(5).unwrap();
    let id2 = TaskId::new(5).unwrap();
    assert_eq!(id1, id2);
}

#[test]
fn test_task_id_copy() {
    let id1 = TaskId::new(10).unwrap();
    let id2 = id1;
    assert_eq!(id1, id2);
}

// ---- TaskTitle

#[test]
fn test_task_title_valid() {
    let title = TaskTitle::new("有効なタイトル").unwrap();
    assert_eq!(title.value(), "有効なタイトル");
}

#[test]
fn test_task_title_single_char() {
    let title = TaskTitle::new("a").unwrap();
    assert_eq!(title.value(), "a");
}

#[test]
fn test_task_title_max_length() {
    let long_title = "a".repeat(100);
    let title = TaskTitle::new(&long_title).unwrap();
    assert_eq!(title.value(), long_title);
}

#[test]
fn test_task_title_empty() {
    let result = TaskTitle::new("");
    assert!(result.is_err());
    assert!(result.unwrap_err().message().contains("空"));
}

#[test]
fn test_task_title_whitespace_only() {
    let result = TaskTitle::new("   ");
    assert!(result.is_err());
    assert!(result.unwrap_err().message().contains("空"));
}

#[test]
fn test_task_title_too_long() {
    let too_long = "a".repeat(101);
    let result = TaskTitle::new(&too_long);
    assert!(result.is_err());
    assert!(result.unwrap_err().message().contains("100文字"));
}

#[test]
fn test_task_title_trim() {
    let title = TaskTitle::new("  タイトル  ").unwrap();
    assert_eq!(title.value(), "  タイトル  ");
}

#[test]
fn test_task_title_equality() {
    let title1 = TaskTitle::new("同じタイトル").unwrap();
    let title2 = TaskTitle::new("同じタイトル").unwrap();
    assert_eq!(title1, title2);
}

#[test]
fn test_task_title_clone() {
    let title1 = TaskTitle::new("タイトル").unwrap();
    let title2 = title1.clone();
    assert_eq!(title1, title2);
}

#[test]
fn task_title_length_counts_characters() {
    // 100 three-byte characters are 300 bytes but 100 characters: accepted.
    assert!(TaskTitle::new(&"あ".repeat(40)).is_ok());
    assert!(TaskTitle::new(&"あ".repeat(100)).is_ok());
    assert!(TaskTitle::new(&"あ".repeat(101)).is_err());
    assert!(TaskTitle::new("\u{3000}").is_err());
}

// ---- DueDate

fn local_day(offset: i64) -> CalendarDate {
    cal(chrono::Local::now().date_naive() + chrono::Duration::days(offset))
}

fn cal(d: chrono::NaiveDate) -> CalendarDate {
    CalendarDate::from_ymd(d.year(), d.month(), d.day()).unwrap()
}


#[test]
fn test_due_date_valid() {
    let date = CalendarDate::from_ymd(2026, 12, 31).unwrap();
    let due_date = DueDate::new(date).unwrap();
    assert_eq!(due_date.value(), date);
}

#[test]
fn test_due_date_past() {
    let date = CalendarDate::from_ymd(2020, 1, 1).unwrap();
    let due_date = DueDate::new(date).unwrap();
    assert_eq!(due_date.value(), date);
}

#[test]
fn test_due_date_today() {
    let today = local_day(0);
    let due_date = DueDate::new(today).unwrap();
    assert_eq!(due_date.value(), today);
}

#[test]
fn test_due_date_is_before() {
    let today = local_day(0);
    let yesterday = local_day(-1);
    let due_date = DueDate::new(yesterday).unwrap();
    assert!(due_date.is_before(today));
    assert!(!due_date.is_before(yesterday));
}

#[test]
fn test_due_date_is_after() {
    let today = local_day(0);
    let tomorrow = local_day(1);
    let due_date = DueDate::new(tomorrow).unwrap();
    assert!(due_date.is_after(today));
    assert!(!due_date.is_after(tomorrow));
}

#[test]
fn test_due_date_equality() {
    let date = CalendarDate::from_ymd(2026, 6, 15).unwrap();
    let due_date1 = DueDate::new(date).unwrap();
    let due_date2 = DueDate::new(date).unwrap();
    assert_eq!(due_date1, due_date2);
}

#[test]
fn test_due_date_ordering() {
    let date1 = CalendarDate::from_ymd(2026, 1, 1).unwrap();
    let date2 = CalendarDate::from_ymd(2026, 12, 31).unwrap();
    let due_date1 = DueDate::new(date1).unwrap();
    let due_date2 = DueDate::new(date2).unwrap();
    assert!(due_date1 < due_date2);
}

#[test]
fn test_due_date_copy() {
    let date = CalendarDate::from_ymd(2026, 5, 1).unwrap();
    let due_date1 = DueDate::new(date).unwrap();
    let due_date2 = due_date1;
    assert_eq!(due_date1, due_date2);
}

#[test]
fn due_date_day_numbers() {
    let d1 = DueDate::new(CalendarDate::from_ymd(1, 1, 1).unwrap()).unwrap();
    assert_eq!(d1.day(), 1);
    let d2 = DueDate::new(CalendarDate::from_ymd(2026, 3, 1).unwrap()).unwrap();
    let d3 = DueDate::new(CalendarDate::from_ymd(2026, 2, 28).unwrap()).unwrap();
    assert_eq!(d2.day() - d3.day(), 1);
    assert!(d3.is_before_day(d2.day()));
    assert!(d2.is_after_day(d3.day()));
    assert!(!d2.is_after_day(d2.day()));
}
