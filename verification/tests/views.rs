use yaru::display::format::TagInfo;
use yaru::display::stats_dto::StatsDTO;
use yaru::display::stats_table::{create_rich_stats_display, StatusPercents};
use yaru::display::task_table::{
    create_tag_detail_table, create_tag_row, create_tag_table, create_task_detail_table,
    create_task_row, create_task_table, format_optional_datetime, TagDTO, TaskDTO,
};
use yaru::domain::aggregate::TaskAggregate;
use yaru::domain::clock::Timestamp;
use yaru::domain::repository::InMemoryTaskRepository;
use yaru::domain::statistics::TaskStatisticsService;
use yaru::domain::tag::{TagAggregate, TagDescription, TagId, TagName};
use yaru::domain::tag_repository::InMemoryTagRepository;
use yaru::domain::task::{DueDate, Priority, Status, TaskDescription, TaskId, TaskTitle};
use yaru::domain::date::CalendarDate;

fn dto() -> TaskDTO {
    TaskDTO {
        id: 12,
        title: "とても長いタイトルのタスクです、二十文字を超えます".to_string(),
        description: Some("説明\n 改行あり".to_string()),
        status: "pending".to_string(),
        priority: "High".to_string(),
        tags: vec![TagInfo { id: 1, name: "a".to_string() }, TagInfo { id: 2, name: "b".to_string() }],
        due_date: None,
        completed_at: None,
        created_at: Timestamp(0),
        updated_at: Timestamp(0),
    }
}

#[test]
fn task_row_cells() {
    let row = create_task_row(&dto());
    assert_eq!(row.len(), 10);
    assert_eq!(row[0], "12");
    assert_eq!(row[1], "とても長いタイトルのタスクです、二十文字...");
    assert_eq!(row[2], "説明 改行あり");
    assert_eq!(row[3], "pending");
    assert_eq!(row[4], "High");
    assert_eq!(row[5], "a,b");
    assert_eq!(row[6], "-");
    assert_eq!(row[7], "-");
}

#[test]
fn task_tables_show_the_fields() {
    let table = create_task_table(&[dto()]).to_string();
    assert!(table.contains("タイトル"));
    assert!(table.contains("a,b"));
    let detail = create_task_detail_table(&dto()).to_string();
    assert!(detail.contains("完了日時"));
    assert!(detail.contains("a, b"));
    assert_eq!(format_optional_datetime(&None), "-");
}

#[test]
fn tag_views() {
    let tag = TagAggregate::new(TagName::new("重要").unwrap(), TagDescription::new("").unwrap())
        .with_id(TagId::new(4).unwrap());
    let d = TagDTO::from_tag(&tag);
    assert_eq!(d.id, 4);
    assert_eq!(d.name, "重要");
    let row = create_tag_row(&d);
    assert_eq!(row[0], "4");
    assert_eq!(row[1], "重要");
    assert_eq!(row[2], "-");
    assert!(create_tag_table(&[d.clone()]).to_string().contains("名前"));
    assert!(create_tag_detail_table(&d).to_string().contains("重要"));
}

#[test]
fn task_view_names_known_tags() {
    let mut tags = InMemoryTagRepository::new();
    tags.save(TagAggregate::new(TagName::new("仕事").unwrap(), TagDescription::default())).unwrap();
    let task = TaskAggregate::new(
        TaskTitle::new("報告").unwrap(),
        TaskDescription::new("").unwrap(),
        Status::InProgress,
        Priority::Critical,
        vec![TagId::new(1).unwrap(), TagId::new(9).unwrap()],
        Some(DueDate::new(CalendarDate::from_ymd(2026, 2, 3).unwrap()).unwrap()),
    )
    .with_id(TaskId::new(5).unwrap());
    let d = TaskDTO::from_task(&task, &tags);
    assert_eq!(d.id, 5);
    assert_eq!(d.status, "in_progress");
    assert_eq!(d.priority, "Critical");
    assert_eq!(d.tags.len(), 1);
    assert_eq!(d.tags[0].name, "仕事");
    assert_eq!(d.due_date, CalendarDate::from_ymd(2026, 2, 3));
    assert_eq!(create_task_row(&d)[6], "2026-02-03");
}

#[test]
fn stats_summary_from_task_statistics() {
    let mk = |s: Status, p: Priority, tags: Vec<TagId>| {
        TaskAggregate::new(TaskTitle::new("t").unwrap(), TaskDescription::new("").unwrap(), s, p, tags, None)
    };
    let t1 = TagId::new(1).unwrap();
    let tasks = vec![
        mk(Status::Pending, Priority::High, vec![t1]),
        mk(Status::Pending, Priority::High, vec![]),
        mk(Status::Completed, Priority::Low, vec![t1]),
    ];
    let stats = TaskStatisticsService::calculate_stats_on(&tasks, 100);
    let dto = StatsDTO::from_stats(&stats);
    assert_eq!(dto.total_count, 3);
    assert_eq!(dto.status_stats.get("pending"), Some(2));
    assert_eq!(dto.status_stats.get("completed"), Some(1));
    assert_eq!(dto.status_stats.get("in_progress"), None);
    assert_eq!(dto.priority_stats.get("high"), Some(2));
    assert_eq!(dto.priority_stats.get("medium"), None);
    assert_eq!(dto.due_date_stats.get("no_due_date"), Some(2));
    assert_eq!(dto.priority_status_matrix.get("high:pending"), Some(2));
    assert_eq!(dto.priority_status_matrix.get("low:completed"), Some(1));
    assert_eq!(dto.priority_status_matrix.len(), 2);
    assert_eq!(dto.tag_stats.get("Tag ID: 1"), Some(2));
    assert_eq!(dto.tag_stats.get("(タグなし)"), Some(1));
    let shares = StatusPercents {
        pending: "33.3%".to_string(),
        in_progress: "0.0%".to_string(),
        completed: "33.3%".to_string(),
    };
    let text = create_rich_stats_display(&dto, &shares);
    assert!(text.contains("33.3%"));
    assert!(text.contains("Total tasks: 3"));
    assert!(text.contains("[By Status]"));
    assert!(text.contains("Tag ID: 1"));
    assert!(text.contains("Overdue: 0 tasks"));
}

#[test]
fn restored_repositories_continue_numbering() {
    let mk = |id: i32, title: &str| {
        TaskAggregate::new(TaskTitle::new(title).unwrap(), TaskDescription::new("").unwrap(), Status::Pending, Priority::Low, vec![], None)
            .with_id(TaskId::new(id).unwrap())
    };
    let mut repo = InMemoryTaskRepository::restore(vec![mk(3, "c"), mk(7, "g"), mk(3, "c2")]).unwrap();
    let all = repo.find_all();
    assert_eq!(all.len(), 2);
    assert_eq!(all[0].title().value(), "c2");
    let fresh = TaskAggregate::new(TaskTitle::new("n").unwrap(), TaskDescription::new("").unwrap(), Status::Pending, Priority::Low, vec![], None);
    assert_eq!(repo.save(fresh).unwrap().id().value(), 8);
    assert!(InMemoryTaskRepository::restore(vec![mk(i32::MAX, "m")]).is_none());
    let empty = InMemoryTagRepository::restore(vec![]).unwrap();
    assert_eq!(empty.find_all().len(), 0);
    let tag = TagAggregate::new(TagName::new("x").unwrap(), TagDescription::default()).with_id(TagId::new(4).unwrap());
    let mut tags = InMemoryTagRepository::restore(vec![tag]).unwrap();
    let next = tags.save(TagAggregate::new(TagName::new("y").unwrap(), TagDescription::default())).unwrap();
    assert_eq!(next.id().value(), 5);
}

fn cell_texts(row: &comfy_table::Row) -> Vec<String> {
    row.cell_iter().map(|c| c.content()).collect()
}

#[test]
fn task_table_holds_header_and_one_row_per_task() {
    let table = create_task_table(&[dto(), dto()]);
    let header = cell_texts(table.header().unwrap());
    assert_eq!(
        header,
        vec!["ID", "タイトル", "説明", "ステータス", "優先度", "タグ", "期限", "完了日時", "作成日", "更新日"]
    );
    assert_eq!(table.row_count(), 2);
    let row = cell_texts(table.row(0).unwrap());
    assert_eq!(row[5], "a,b");
    assert_eq!(row[6], "-");
}

#[test]
fn detail_tables_hold_label_value_rows() {
    let detail = create_task_detail_table(&dto());
    assert!(detail.header().is_none());
    assert_eq!(detail.row_count(), 10);
    assert_eq!(cell_texts(detail.row(5).unwrap()), vec!["タグ", "a, b"]);
    assert_eq!(cell_texts(detail.row(6).unwrap()), vec!["期限", "-"]);
    let tag = TagAggregate::new(TagName::new("重要").unwrap(), TagDescription::new("").unwrap())
        .with_id(TagId::new(4).unwrap());
    let d = TagDTO::from_tag(&tag);
    let t = create_tag_detail_table(&d);
    assert_eq!(t.row_count(), 5);
    assert_eq!(cell_texts(t.row(0).unwrap()), vec!["ID", "4"]);
    assert_eq!(cell_texts(t.row(2).unwrap()), vec!["説明", "-"]);
    let list = create_tag_table(&[d.clone(), d]);
    assert_eq!(cell_texts(list.header().unwrap()), vec!["ID", "名前", "説明", "作成日", "更新日"]);
    assert_eq!(list.row_count(), 2);
}

#[test]
fn local_times_are_written_to_the_minute() {
    let t = yaru::display::task_table::format_local_time(&Timestamp(1_700_000_000_000_000));
    let c: Vec<char> = t.chars().collect();
    assert_eq!(c.len(), 16);
    assert_eq!((c[4], c[7], c[10], c[13]), ('-', '-', ' ', ':'));
    assert!(t.starts_with("2023-11-1"));
    assert_eq!(format_optional_datetime(&Some(Timestamp(1_700_000_000_000_000))), t);
    // Outside the calendar's days chrono has no time: the text is empty.
    assert_eq!(yaru::display::task_table::format_local_time(&Timestamp(i64::MAX)), "");
    assert_eq!(yaru::display::task_table::format_local_time(&Timestamp(i64::MIN)), "");
    // The last day chrono holds, at noon UTC, is still written.
    let last_noon = (95745399i64 - 719163) * 86_400_000_000 + 43_200_000_000;
    assert!(yaru::display::task_table::format_local_time(&Timestamp(last_noon)).starts_with("+262142-"));
    assert_eq!(
        yaru::display::task_table::format_local_time(&Timestamp(last_noon + 86_400_000_000)),
        ""
    );
}
