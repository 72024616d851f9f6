use yaru::domain::completion::{completed_at_on_create, completed_at_on_update};
use yaru::domain::clock::Timestamp;
use yaru::domain::tag::{TagAggregate, TagDescription, TagName};
use yaru::domain::task::{Priority, Status};
use yaru::persistence::mapper::{TagMapper, TagRow, TaskMapper, TaskRow};
use yaru::domain::date::CalendarDate;

fn row() -> TaskRow {
    TaskRow {
        id: 1,
        title: "テストタスク".to_string(),
        description: "説明".to_string(),
        status: "Pending".to_string(),
        priority: "High".to_string(),
        created_at: Timestamp(100),
        updated_at: Timestamp(200),
        due_date: Some(CalendarDate::from_ymd(2026, 12, 31).unwrap()),
        completed_at: None,
    }
}

#[test]
fn test_task_mapper_to_domain() {
    let tag_ids = vec![1, 2];
    let result = TaskMapper::to_domain(row(), tag_ids);
    assert!(result.is_ok());
    let aggregate = result.unwrap();
    assert_eq!(aggregate.id().value(), 1);
    assert_eq!(aggregate.title().value(), "テストタスク");
    assert_eq!(aggregate.tags().len(), 2);
}

#[test]
fn test_tag_mapper_to_domain() {
    let tag_model = TagRow {
        id: 1,
        name: "重要".to_string(),
        description: "重要なタスク".to_string(),
        created_at: Timestamp(1),
        updated_at: Timestamp(2),
    };
    let result = TagMapper::to_domain(tag_model);
    assert!(result.is_ok());
    let aggregate = result.unwrap();
    assert_eq!(aggregate.id().value(), 1);
    assert_eq!(aggregate.name().value(), "重要");
}

#[test]
fn task_rows_are_checked_in_order() {
    let bad_status = TaskRow { status: "Done".to_string(), priority: "Huge".to_string(), ..row() };
    assert_eq!(TaskMapper::to_domain(bad_status, vec![]).unwrap_err().message(), "不明なステータス: Done");
    let bad_priority = TaskRow { priority: "Huge".to_string(), ..row() };
    assert_eq!(TaskMapper::to_domain(bad_priority, vec![-1]).unwrap_err().message(), "不明な優先度: Huge");
    // The task ID and the title come before the tag IDs.
    let bad_id_and_tag = TaskRow { id: -3, ..row() };
    assert_eq!(
        TaskMapper::to_domain(bad_id_and_tag, vec![1, -1]).unwrap_err().message(),
        "タスクIDは0以上である必要があります"
    );
    let blank_and_bad_tag = TaskRow { title: " ".to_string(), ..row() };
    assert_eq!(
        TaskMapper::to_domain(blank_and_bad_tag, vec![-1]).unwrap_err().message(),
        "タイトルは空にできません"
    );
    assert_eq!(
        TaskMapper::to_domain(row(), vec![1, -1]).unwrap_err().message(),
        "タグIDは0以上である必要があります"
    );
    let bad_id = TaskRow { id: -3, title: String::new(), ..row() };
    assert_eq!(
        TaskMapper::to_domain(bad_id, vec![]).unwrap_err().message(),
        "タスクIDは0以上である必要があります"
    );
    let blank = TaskRow { title: "  ".to_string(), ..row() };
    assert_eq!(TaskMapper::to_domain(blank, vec![]).unwrap_err().message(), "タイトルは空にできません");
    // Lower-case names are not stored names.
    let lower = TaskRow { status: "pending".to_string(), ..row() };
    assert!(TaskMapper::to_domain(lower, vec![]).is_err());
}

#[test]
fn task_row_round_trip() {
    let task = TaskMapper::to_domain(row(), vec![4]).unwrap();
    assert_eq!(task.status(), &Status::Pending);
    assert_eq!(task.priority(), &Priority::High);
    assert_eq!(task.created_at(), &Timestamp(100));
    assert_eq!(task.domain_events().len(), 0);
    let back = TaskMapper::to_active_model_for_insert(&task);
    assert_eq!(back.id, 1);
    assert_eq!(back.title, "テストタスク");
    assert_eq!(back.description, "説明");
    assert_eq!(back.status, "Pending");
    assert_eq!(back.priority, "High");
    assert_eq!(back.created_at, Timestamp(100));
    assert_eq!(back.updated_at, Timestamp(200));
    assert_eq!(back.due_date, row().due_date);
    assert_eq!(back.completed_at, None);
    let upd = TaskMapper::to_active_model_for_update(&task);
    assert_eq!(upd.created_at, Timestamp(100));
    assert_ne!(upd.updated_at, Timestamp(200));
}

#[test]
fn tag_rows_check_id_then_name() {
    let r = TagRow {
        id: -1,
        name: String::new(),
        description: String::new(),
        created_at: Timestamp(0),
        updated_at: Timestamp(0),
    };
    assert_eq!(TagMapper::to_domain(r.clone()).unwrap_err().message(), "タグIDは0以上である必要があります");
    let r = TagRow { id: 2, ..r };
    assert_eq!(TagMapper::to_domain(r).unwrap_err().message(), "タグ名は空にできません");
    let tag = TagAggregate::new(TagName::new("n").unwrap(), TagDescription::new("d").unwrap());
    let row = TagMapper::to_active_model_for_insert(&tag);
    assert_eq!(row.id, 0);
    assert_eq!(row.name, "n");
    assert_eq!(row.description, "d");
    let upd = TagMapper::to_active_model_for_update(&tag);
    assert_eq!(upd.created_at, *tag.created_at());
}

#[test]
fn stored_tag_ids_follow_the_task() {
    let t = TaskMapper::to_domain(row(), vec![3, 1]).unwrap();
    assert_eq!(TaskMapper::tag_ids(&t), vec![3, 1]);
    let back = TaskMapper::to_domain(TaskMapper::to_active_model_for_insert(&t), TaskMapper::tag_ids(&t)).unwrap();
    assert_eq!(back.tags(), t.tags());
    assert_eq!(back.title().value(), t.title().value());
}

#[test]
fn completion_times_follow_the_status() {
    let now = Timestamp(100);
    let given = Some(Timestamp(7));
    assert_eq!(completed_at_on_create(Status::Completed, given, now), given);
    assert_eq!(completed_at_on_create(Status::Completed, None, now), Some(now));
    assert_eq!(completed_at_on_create(Status::Pending, given, now), None);
    assert_eq!(completed_at_on_update(Status::Pending, Status::Completed, None, now), Some(now));
    assert_eq!(completed_at_on_update(Status::Completed, Status::InProgress, given, now), None);
    assert_eq!(completed_at_on_update(Status::Completed, Status::Completed, given, now), given);
    assert_eq!(completed_at_on_update(Status::Pending, Status::InProgress, None, now), None);
}
