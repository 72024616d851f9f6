use std::str::FromStr;

use yaru::cli::args::{
    date_parse_message, parse_date, parse_i32, parse_non_empty_string, parse_positive_id, Filter,
    FilterKey, Order, SortKey,
};
use yaru::cli::task_handler::{AddTaskParams, EditTaskParams};
use yaru::domain::task::{Priority, Status};
use yaru::domain::date::CalendarDate;

// ---- Filter

#[test]
fn test_filter_parse_status() {
    let filter = Filter::from_str("status:pending");
    assert!(filter.is_ok());
    let filter = filter.unwrap();
    assert_eq!(filter.key, FilterKey::Status);
    assert_eq!(filter.value, "pending");
}

#[test]
fn test_filter_parse_priority() {
    let filter = Filter::from_str("priority:high");
    assert!(filter.is_ok());
    let filter = filter.unwrap();
    assert_eq!(filter.key, FilterKey::Priority);
    assert_eq!(filter.value, "high");
}

#[test]
fn test_filter_parse_tag() {
    let filter = Filter::from_str("tag:仕事");
    assert!(filter.is_ok());
    let filter = filter.unwrap();
    assert_eq!(filter.key, FilterKey::Tag);
    assert_eq!(filter.value, "仕事");
}

#[test]
fn test_filter_parse_invalid_format() {
    let filter = Filter::from_str("invalid");
    assert!(filter.is_err());
    assert!(filter.unwrap_err().contains("Invalid filter format"));
}

#[test]
fn test_filter_parse_unknown_key() {
    let filter = Filter::from_str("unknown:value");
    assert!(filter.is_err());
    assert!(filter.unwrap_err().contains("Unknown filter key"));
}

#[test]
fn test_filter_parse_case_insensitive() {
    let filter = Filter::from_str("STATUS:pending");
    assert!(filter.is_ok());
    let filter = filter.unwrap();
    assert_eq!(filter.key, FilterKey::Status);
}

#[test]
fn filter_splits_at_the_first_colon_only() {
    let filter = Filter::parse("tag:a:b").unwrap();
    assert_eq!(filter.key, FilterKey::Tag);
    assert_eq!(filter.value, "a:b");
    let filter = Filter::parse("Priority:").unwrap();
    assert_eq!(filter.key, FilterKey::Priority);
    assert_eq!(filter.value, "");
    assert_eq!(
        Filter::parse("nothing").unwrap_err(),
        "Invalid filter format: 'nothing'. Expected 'key:value'"
    );
    assert_eq!(Filter::parse("Color:red").unwrap_err(), "Unknown filter key: 'Color'");
    assert_eq!(Filter::parse(":x").unwrap_err(), "Unknown filter key: ''");
}

// ---- SortKey

#[test]
fn test_sort_key_parse_priority() {
    let sort_key = SortKey::from_str("priority");
    assert!(sort_key.is_ok());
    assert_eq!(sort_key.unwrap(), SortKey::Priority);
}

#[test]
fn test_sort_key_parse_due_date() {
    let sort_key = SortKey::from_str("due_date");
    assert!(sort_key.is_ok());
    assert_eq!(sort_key.unwrap(), SortKey::DueDate);
}

#[test]
fn test_sort_key_parse_created_at() {
    let sort_key = SortKey::from_str("created_at");
    assert!(sort_key.is_ok());
    assert_eq!(sort_key.unwrap(), SortKey::CreatedAt);
}

#[test]
fn test_sort_key_parse_case_insensitive() {
    let sort_key = SortKey::from_str("PRIORITY");
    assert!(sort_key.is_ok());
    assert_eq!(sort_key.unwrap(), SortKey::Priority);
}

#[test]
fn test_sort_key_parse_invalid() {
    let sort_key = SortKey::from_str("invalid");
    assert!(sort_key.is_err());
}

#[test]
fn sort_key_error_names_the_input() {
    assert_eq!(SortKey::parse("Due-Date").unwrap_err(), "Unknown sort key: 'Due-Date'");
    assert_eq!(SortKey::parse("Created_At").unwrap(), SortKey::CreatedAt);
}

// ---- Order

#[test]
fn test_order_parse_asc() {
    let order = Order::from_str("asc");
    assert!(order.is_ok());
    assert_eq!(order.unwrap(), Order::Asc);
}

#[test]
fn test_order_parse_desc() {
    let order = Order::from_str("desc");
    assert!(order.is_ok());
    assert_eq!(order.unwrap(), Order::Desc);
}

#[test]
fn test_order_parse_case_insensitive() {
    let order = Order::from_str("DESC");
    assert!(order.is_ok());
    assert_eq!(order.unwrap(), Order::Desc);
}

#[test]
fn test_order_parse_invalid() {
    let order = Order::from_str("invalid");
    assert!(order.is_err());
}

#[test]
fn order_error_names_the_input() {
    assert_eq!(Order::parse("up").unwrap_err(), "Unknown order: 'up'");
}

// ---- integers and IDs

#[test]
fn parse_i32_reads_as_str_parse_does() {
    for s in ["0", "7", "+7", "-7", "007", "2147483647", "-2147483648", "", "+", "-", " 1", "1 ", "1_0", "2147483648", "-2147483649", "99999999999999999999", "１"] {
        assert_eq!(parse_i32(s), s.parse::<i32>().ok(), "input {s:?}");
    }
}

#[test]
fn parse_positive_id_accepts_one_and_above() {
    assert_eq!(parse_positive_id("1"), Ok(1));
    assert_eq!(parse_positive_id("+42"), Ok(42));
    assert_eq!(parse_positive_id("abc"), Err("ID must be an integer: abc".to_string()));
    assert_eq!(parse_positive_id("3000000000"), Err("ID must be an integer: 3000000000".to_string()));
    assert_eq!(parse_positive_id("0"), Err("ID must be a positive integer (>= 1): 0".to_string()));
    assert_eq!(parse_positive_id("-5"), Err("ID must be a positive integer (>= 1): -5".to_string()));
}

#[test]
fn parse_non_empty_string_keeps_text_untrimmed() {
    assert_eq!(parse_non_empty_string(" a "), Ok(" a ".to_string()));
    assert_eq!(parse_non_empty_string(""), Err("Empty string is not allowed".to_string()));
    assert_eq!(parse_non_empty_string(" \t\u{3000}"), Err("Empty string is not allowed".to_string()));
}

#[test]
fn parse_date_accepts_iso_dates() {
    let d = parse_date("2026-12-31").unwrap();
    assert_eq!(d, CalendarDate::from_ymd(2026, 12, 31).unwrap());
    let err = parse_date("2026-13-01").unwrap_err();
    assert!(err.starts_with("Failed to parse date: "));
    assert!(err.ends_with(". Please use YYYY-MM-DD format"));
    assert!(parse_date("tomorrow").is_err());
    assert_eq!(date_parse_message("bad"), "Failed to parse date: bad. Please use YYYY-MM-DD format");
}

// ---- interactivity of the task commands

#[test]
fn add_is_interactive_without_title() {
    let params = AddTaskParams {
        title: None,
        description: Some("d".to_string()),
        status: None,
        priority: None,
        tags: None,
        due_date: None,
    };
    assert!(params.is_interactive());
    let params = AddTaskParams { title: Some("t".to_string()), ..params };
    assert!(!params.is_interactive());
}

#[test]
fn edit_is_interactive_only_without_any_change() {
    let none = EditTaskParams {
        title: None,
        description: None,
        status: None,
        priority: None,
        tags: None,
        due_date: None,
        clear_due_date: false,
    };
    assert!(none.is_interactive());
    let date = CalendarDate::from_ymd(2026, 1, 2).unwrap();
    let with_date = EditTaskParams { due_date: Some(date), ..none };
    assert!(!with_date.is_interactive());
    assert_eq!(with_date.final_due_date(), Some(date));
    let cleared = EditTaskParams { clear_due_date: true, ..with_date };
    assert!(!cleared.is_interactive());
    assert_eq!(cleared.final_due_date(), None);
}

#[test]
fn add_builds_the_task_with_defaults() {
    let params = AddTaskParams {
        title: None,
        description: None,
        status: None,
        priority: None,
        tags: None,
        due_date: None,
    };
    let task = params.build_task("買い物").unwrap();
    assert_eq!(task.title().value(), "買い物");
    assert_eq!(task.description().value(), "");
    assert_eq!(task.status(), &Status::Pending);
    assert_eq!(task.priority(), &Priority::Medium);
    assert!(task.tags().is_empty());
    assert_eq!(task.id().value(), 0);
    let params = AddTaskParams { tags: Some(vec![2, -1]), status: Some(Status::Completed), ..params };
    assert_eq!(params.build_task("   ").unwrap_err().message(), "タグIDは0以上である必要があります");
    let params = AddTaskParams { tags: Some(vec![2]), ..params };
    assert_eq!(params.build_task("   ").unwrap_err().message(), "タイトルは空にできません");
    let task = params.build_task("x").unwrap();
    assert_eq!(task.status(), &Status::Completed);
    assert_eq!(task.tags()[0].value(), 2);
}

#[test]
fn edit_applies_given_fields_only() {
    let base = AddTaskParams {
        title: None,
        description: Some("説明".to_string()),
        status: Some(Status::Completed),
        priority: Some(Priority::Low),
        tags: Some(vec![1]),
        due_date: CalendarDate::from_ymd(2026, 1, 1),
    };
    let mut task = base.build_task("元").unwrap();
    let edit = EditTaskParams {
        title: Some("新".to_string()),
        description: None,
        status: Some(Status::InProgress),
        priority: None,
        tags: Some(vec![3, 4]),
        due_date: None,
        clear_due_date: true,
    };
    edit.apply(&mut task).unwrap();
    assert_eq!(task.title().value(), "新");
    assert_eq!(task.description().value(), "説明");
    assert_eq!(task.status(), &Status::InProgress);
    assert_eq!(task.completed_at(), &None);
    assert_eq!(task.priority(), &Priority::Low);
    assert_eq!(task.tags().len(), 2);
    assert_eq!(task.due_date(), &None);
    let bad = EditTaskParams { title: Some(String::new()), tags: None, ..edit };
    let before_title = task.title().value().to_string();
    assert!(bad.apply(&mut task).is_err());
    assert_eq!(task.title().value(), before_title);
}

#[test]
fn ascii_filter_keys_ignore_case_and_keep_the_value() {
    let f = Filter::from_str("TAG:a:b").unwrap();
    assert_eq!(f.key, FilterKey::Tag);
    assert_eq!(f.value, "a:b");
    let f = Filter::from_str("Status:").unwrap();
    assert_eq!(f.key, FilterKey::Status);
    assert_eq!(f.value, "");
}
