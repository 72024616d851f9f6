use yaru::display::stats_dto::{CountMap, StatsDTO};
use yaru::display::stats_table::{
    compose_stats_display, create_due_date_summary, create_priority_status_matrix_table,
    create_progress_bar, create_rich_stats_display, create_status_detail_table, create_title,
    create_top_tags_table, has_priority_status_data, matrix_rows,
    sorted_by_count, status_rows, top_tag_rows, StatusPercents,
};
use yaru::display::table::CellAlign;

fn map(entries: &[(&str, usize)]) -> CountMap {
    let mut m = CountMap::new();
    for (k, v) in entries {
        m.insert(k.to_string(), *v);
    }
    m
}

fn stats(total: usize) -> StatsDTO {
    StatsDTO {
        total_count: total,
        status_stats: CountMap::new(),
        priority_stats: CountMap::new(),
        due_date_stats: CountMap::new(),
        tag_stats: CountMap::new(),
        priority_status_matrix: CountMap::new(),
    }
}

/// The status shares as the program writes them: the share of each status
/// in the total as a floating-point percentage, with one decimal.
fn percents(s: &StatsDTO) -> StatusPercents {
    let pct = |key: &str| {
        let count = s.status_stats.get(key).unwrap_or(0);
        let p = if s.total_count > 0 { (count as f64 / s.total_count as f64) * 100.0 } else { 0.0 };
        format!("{:.1}%", p)
    };
    StatusPercents { pending: pct("pending"), in_progress: pct("in_progress"), completed: pct("completed") }
}

// ---- progress bar and percentage (from counts: 0%, 50%, 100%, 35.7%)

#[test]
fn test_create_progress_bar_0_percent() {
    let bar = create_progress_bar(0, 10);
    assert_eq!(bar, "░░░░░░░░░░");
}

#[test]
fn test_create_progress_bar_50_percent() {
    let bar = create_progress_bar(5, 10);
    assert_eq!(bar, "█████░░░░░");
}

#[test]
fn test_create_progress_bar_100_percent() {
    let bar = create_progress_bar(10, 10);
    assert_eq!(bar, "██████████");
}

#[test]
fn test_create_progress_bar_rounding() {
    let bar = create_progress_bar(15, 42);
    assert_eq!(bar, "████░░░░░░");
}

#[test]
fn progress_bar_edges() {
    assert_eq!(create_progress_bar(3, 0), "░░░░░░░░░░");
    assert_eq!(create_progress_bar(1, 4), "███░░░░░░░");
    assert_eq!(create_progress_bar(30, 10), "██████████");
}

#[test]
fn status_rows_show_the_shares_given() {
    let mut s = stats(80);
    s.status_stats = map(&[("pending", 23)]);
    let given = StatusPercents {
        pending: "28.7%".to_string(),
        in_progress: "x".to_string(),
        completed: "y".to_string(),
    };
    let rows = status_rows(&s, &given);
    assert_eq!(rows.len(), 1);
    assert_eq!(rows[0][2].text, "28.7%");
    assert_eq!(percents(&s).pending, "28.7%");
    let mut t = stats(16);
    t.status_stats = map(&[("completed", 1)]);
    assert_eq!(percents(&t).completed, "6.2%");
}

// ---- title and due-date line

#[test]
fn title_is_centred_between_rules() {
    let t = create_title("Task Statistics Summary");
    let rule = "━".repeat(50);
    assert_eq!(t, format!("{}\n{:^50}\n{}", rule, "Task Statistics Summary", rule));
    let long = "x".repeat(60);
    assert_eq!(create_title(&long), format!("{}\n{}\n{}", rule, long, rule));
}

#[test]
fn test_create_due_date_summary() {
    let mut s = stats(42);
    s.due_date_stats = map(&[("overdue", 5), ("due_today", 2), ("due_this_week", 8)]);
    let summary = create_due_date_summary(&s);
    assert_eq!(summary, "Overdue: 5 tasks, Due today: 2 tasks, Due this week: 8 tasks");
}

#[test]
fn test_create_due_date_summary_empty() {
    let s = stats(42);
    let summary = create_due_date_summary(&s);
    assert_eq!(summary, "Overdue: 0 tasks, Due today: 0 tasks, Due this week: 0 tasks");
}

#[test]
fn test_has_priority_status_data_true() {
    let mut s = stats(5);
    s.priority_status_matrix = map(&[("high:pending", 5)]);
    assert!(has_priority_status_data(&s));
}

#[test]
fn test_has_priority_status_data_false() {
    let s = stats(0);
    assert!(!has_priority_status_data(&s));
}

// ---- tables

#[test]
fn test_create_status_detail_table() {
    let mut s = stats(42);
    s.status_stats = map(&[("pending", 15), ("in_progress", 12), ("completed", 15)]);

    let output = create_status_detail_table(&s, &percents(&s)).to_string();

    assert!(output.contains("Status"));
    assert!(output.contains("Count"));
    assert!(output.contains("Percentage"));
    assert!(output.contains("Progress"));
    assert!(output.contains("15"));
    assert!(output.contains("12"));
    assert!(output.contains("35.7%"));
    assert!(output.contains("28.6%"));
    assert!(output.contains("█"));
    assert!(output.contains("░"));
}

#[test]
fn test_create_status_detail_table_empty() {
    let s = stats(0);
    let output = create_status_detail_table(&s, &percents(&s)).to_string();
    assert!(output.contains("Status"));
}

#[test]
fn status_rows_follow_the_fixed_order_and_skip_missing() {
    let mut s = stats(4);
    s.status_stats = map(&[("completed", 1), ("pending", 3)]);
    let rows = status_rows(&s, &percents(&s));
    assert_eq!(rows.len(), 2);
    let texts: Vec<Vec<String>> =
        rows.iter().map(|r| r.iter().map(|c| c.text.clone()).collect()).collect();
    assert_eq!(texts[0], vec!["Pending", "3", "75.0%", "████████░░"]);
    assert_eq!(texts[1], vec!["Completed", "1", "25.0%", "███░░░░░░░"]);
    assert_eq!(rows[0][1].align, CellAlign::Right);
    assert!(!rows[0][0].bold);
}

#[test]
fn test_create_priority_status_matrix_table() {
    let mut s = stats(18);
    s.priority_status_matrix = map(&[
        ("critical:pending", 3),
        ("critical:in_progress", 2),
        ("critical:completed", 1),
        ("high:pending", 5),
        ("high:in_progress", 4),
        ("high:completed", 3),
    ]);

    let output = create_priority_status_matrix_table(&s).to_string();

    assert!(output.contains("Pending"));
    assert!(output.contains("In Progress"));
    assert!(output.contains("Completed"));
    assert!(output.contains("Total"));
    assert!(output.contains("Critical"));
    assert!(output.contains("High"));
    assert!(output.contains("3"));
    assert!(output.contains("2"));
    assert!(output.contains("1"));
    assert!(output.contains("5"));
    assert!(output.contains("4"));
}

#[test]
fn test_create_priority_status_matrix_table_partial_data() {
    let mut s = stats(5);
    s.priority_status_matrix = map(&[("high:pending", 5)]);
    let output = create_priority_status_matrix_table(&s).to_string();
    assert!(output.contains("Pending"));
    assert!(output.contains("Total"));
}

#[test]
fn matrix_rows_sum_rows_and_columns() {
    let mut s = stats(99);
    s.priority_status_matrix = map(&[
        ("critical:pending", 3),
        ("critical:completed", 1),
        ("high:in_progress", 4),
        ("low:completed", 2),
    ]);
    let rows = matrix_rows(&s);
    let texts: Vec<Vec<String>> =
        rows.iter().map(|r| r.iter().map(|c| c.text.clone()).collect()).collect();
    assert_eq!(texts[0], vec!["Critical", "3", "0", "1", "4"]);
    assert_eq!(texts[1], vec!["High", "0", "4", "0", "4"]);
    assert_eq!(texts[2], vec!["Medium", "0", "0", "0", "0"]);
    assert_eq!(texts[3], vec!["Low", "0", "0", "2", "2"]);
    // The last cell is the total task count as given, not the sum.
    assert_eq!(texts[4], vec!["Total", "3", "4", "3", "99"]);
}

#[test]
fn test_create_top_tags_table_with_limit() {
    let mut s = stats(53);
    s.tag_stats = map(&[
        ("重要", 15),
        ("バグ", 12),
        ("機能追加", 10),
        ("ドキュメント", 8),
        ("リファクタリング", 5),
        ("その他", 3),
    ]);

    let output = create_top_tags_table(&s, 3).to_string();

    assert!(output.contains("重要"));
    assert!(output.contains("バグ"));
    assert!(output.contains("機能追加"));
    assert!(!output.contains("その他"));
}

#[test]
fn test_create_top_tags_table_fewer_than_limit() {
    let mut s = stats(27);
    s.tag_stats = map(&[("重要", 15), ("バグ", 12)]);
    let output = create_top_tags_table(&s, 5).to_string();
    assert!(output.contains("重要"));
    assert!(output.contains("バグ"));
}

#[test]
fn top_tags_are_sorted_largest_first_ties_in_order() {
    let m = map(&[("a", 2), ("b", 5), ("c", 2), ("d", 7), ("e", 5)]);
    let sorted = sorted_by_count(&m);
    let keys: Vec<&str> = sorted.iter().map(|e| e.0.as_str()).collect();
    assert_eq!(keys, vec!["d", "b", "e", "a", "c"]);
    let mut s = stats(0);
    s.tag_stats = m;
    let rows = top_tag_rows(&s, 2);
    assert_eq!(rows.len(), 2);
    assert_eq!(rows[0][0].text, "d");
    assert_eq!(rows[0][1].text, "7");
    assert_eq!(rows[1][0].text, "b");
}

// ---- the whole summary

#[test]
fn test_create_rich_stats_display_full_data() {
    let mut s = stats(42);
    s.status_stats = map(&[("pending", 15), ("in_progress", 12), ("completed", 15)]);
    s.priority_status_matrix =
        map(&[("critical:pending", 3), ("critical:in_progress", 2), ("critical:completed", 1)]);
    s.due_date_stats = map(&[("overdue", 5), ("due_today", 2), ("due_this_week", 8)]);
    s.tag_stats = map(&[("重要", 15), ("バグ", 12)]);

    let display = create_rich_stats_display(&s, &percents(&s));

    assert!(display.contains("Task Statistics Summary"));
    assert!(display.contains("Total tasks: 42"));
    assert!(display.contains("[By Status]"));
    assert!(display.contains("[Priority × Status Matrix]"));
    assert!(display.contains("[Due Dates]"));
    assert!(display.contains("[Top Tags (Top 5)]"));
    assert!(display.contains("█"));
    assert!(display.contains("░"));
}

#[test]
fn test_create_rich_stats_display_minimal_data() {
    let s = stats(0);
    let display = create_rich_stats_display(&s, &percents(&s));
    assert!(display.contains("Task Statistics Summary"));
    assert!(display.contains("Total tasks: 0"));
}

#[test]
fn composed_display_puts_sections_in_order() {
    let mut s = stats(3);
    s.status_stats = map(&[("pending", 3)]);
    s.tag_stats = map(&[("x", 1)]);
    let out = compose_stats_display(&s, "<status>", "<matrix>", "<tags>");
    let expected = format!(
        "{}\n\nTotal tasks: 3\n\n[By Status]\n<status>\n\n[Top Tags (Top 5)]\n<tags>\n",
        create_title("Task Statistics Summary")
    );
    assert_eq!(out, expected);
    let minimal = compose_stats_display(&stats(0), "a", "b", "c");
    assert_eq!(minimal, format!("{}\n\nTotal tasks: 0\n\n", create_title("Task Statistics Summary")));
}

// ---- the count map

#[test]
fn count_map_replaces_in_place() {
    let mut m = CountMap::new();
    assert!(m.is_empty());
    m.insert("a".to_string(), 1);
    m.insert("b".to_string(), 2);
    m.insert("a".to_string(), 9);
    assert_eq!(m.len(), 2);
    assert_eq!(m.get("a"), Some(9));
    assert_eq!(m.get("c"), None);
    assert_eq!(m.entry(0), ("a".to_string(), 9));
    let c = m.clone();
    assert_eq!(c.entry(1), ("b".to_string(), 2));
}

#[test]
fn stats_tables_hold_their_rows() {
    let mut s = stats(42);
    s.status_stats = map(&[("pending", 15), ("in_progress", 12), ("completed", 15)]);
    s.priority_status_matrix = map(&[("high:pending", 5)]);
    s.tag_stats = map(&[("a", 1), ("b", 2), ("c", 3)]);
    let status = create_status_detail_table(&s, &percents(&s));
    assert_eq!(status.row_count(), 3);
    assert_eq!(status.header().unwrap().cell_count(), 4);
    let matrix = create_priority_status_matrix_table(&s);
    assert_eq!(matrix.row_count(), 5);
    let first: Vec<String> = matrix.row(1).unwrap().cell_iter().map(|c| c.content()).collect();
    assert_eq!(first, vec!["High", "5", "0", "0", "5"]);
    let tags = create_top_tags_table(&s, 2);
    assert_eq!(tags.row_count(), 2);
    let top: Vec<String> = tags.row(0).unwrap().cell_iter().map(|c| c.content()).collect();
    assert_eq!(top, vec!["c", "3"]);
}

#[test]
fn section_headers_show_only_for_sections_with_counts_in_order() {
    let headers = ["[By Status]", "[Priority × Status Matrix]", "[Due Dates]", "[Top Tags (Top 5)]"];
    let empty = stats(0);
    let text = create_rich_stats_display(&empty, &percents(&empty));
    for h in headers {
        assert!(!text.contains(h));
    }
    let mut s = stats(5);
    s.status_stats = map(&[("pending", 5)]);
    s.due_date_stats = map(&[("overdue", 1)]);
    s.tag_stats = map(&[("重要", 2)]);
    let text = create_rich_stats_display(&s, &percents(&s));
    let at: Vec<Option<usize>> = headers.iter().map(|h| text.find(h)).collect();
    assert!(at[0].is_some() && at[2].is_some() && at[3].is_some());
    assert!(at[1].is_none());
    assert!(at[0].unwrap() < at[2].unwrap() && at[2].unwrap() < at[3].unwrap());
}
