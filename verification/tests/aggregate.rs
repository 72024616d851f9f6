use yaru::domain::aggregate::{TaskAggregate, TaskReconstructParams};
use yaru::domain::clock::Timestamp;
use yaru::domain::events::{
    TaskCompleted, TaskCreated, TaskEvent, TaskTagAdded, TaskTagRemoved, TaskTitleChanged,
};
use yaru::domain::specification::{
    AndSpecification, OrSpecification, TaskById, TaskByPriority, TaskByStatus, TaskByTag,
    TaskOverdue, TaskSpecification,
};
use yaru::domain::tag::{TagAggregate, TagDescription, TagId, TagName};
use yaru::domain::task::{DueDate, Priority, Status, TaskDescription, TaskId, TaskTitle};
use yaru::domain::date::CalendarDate;
use chrono::Datelike;

fn plain_task(title: &str, status: Status, priority: Priority, tags: Vec<TagId>) -> TaskAggregate {
    TaskAggregate::new(
        TaskTitle::new(title).unwrap(),
        TaskDescription::new("").unwrap(),
        status,
        priority,
        tags,
        None,
    )
}

fn utc_day(offset: i64) -> CalendarDate {
    cal(chrono::Utc::now().naive_utc().date() + chrono::Duration::days(offset))
}

fn cal(d: chrono::NaiveDate) -> CalendarDate {
    CalendarDate::from_ymd(d.year(), d.month(), d.day()).unwrap()
}

// ---- TaskAggregate

#[test]
fn test_new_task() {
    let title = TaskTitle::new("新しいタスク").unwrap();
    let description = TaskDescription::new("説明文").unwrap();
    let status = Status::Pending;
    let priority = Priority::Medium;
    let tags: Vec<TagId> = vec![];
    let due_date: Option<DueDate> = None;

    let task = TaskAggregate::new(
        title.clone(),
        description.clone(),
        status,
        priority,
        tags.clone(),
        due_date,
    );

    assert_eq!(task.title(), &title);
    assert_eq!(task.description(), &description);
    assert_eq!(task.status(), &status);
    assert_eq!(task.priority(), &priority);
    assert_eq!(task.tags(), &tags);
    assert_eq!(task.due_date(), &due_date);
    assert_eq!(task.completed_at(), &None);
}

#[test]
fn test_complete_task() {
    let mut task = plain_task("完了するタスク", Status::InProgress, Priority::High, vec![]);
    let result = task.complete();
    assert!(result.is_ok());
    assert_eq!(task.status(), &Status::Completed);
    assert!(task.completed_at().is_some());
}

#[test]
fn test_complete_already_completed_task() {
    let mut task = plain_task("既に完了したタスク", Status::Pending, Priority::Low, vec![]);
    task.complete().unwrap();
    let first_completed_at = *task.completed_at();

    let result = task.complete();

    assert!(result.is_ok());
    assert_eq!(task.status(), &Status::Completed);
    assert_eq!(task.completed_at(), &first_completed_at);
}

#[test]
fn test_is_overdue_with_no_due_date() {
    let task = plain_task("期限なしタスク", Status::Pending, Priority::Medium, vec![]);
    assert!(!task.is_overdue());
}

#[test]
fn test_is_overdue_with_past_due_date() {
    let past_date = utc_day(-1);
    let due_date = Some(DueDate::new(past_date).unwrap());
    let task = TaskAggregate::new(
        TaskTitle::new("期限切れタスク").unwrap(),
        TaskDescription::new("").unwrap(),
        Status::Pending,
        Priority::High,
        vec![],
        due_date,
    );
    assert!(task.is_overdue());
}

#[test]
fn test_is_overdue_with_future_due_date() {
    let future_date = utc_day(1);
    let due_date = Some(DueDate::new(future_date).unwrap());
    let task = TaskAggregate::new(
        TaskTitle::new("未来の期限").unwrap(),
        TaskDescription::new("").unwrap(),
        Status::Pending,
        Priority::Medium,
        vec![],
        due_date,
    );
    assert!(!task.is_overdue());
}

#[test]
fn test_is_overdue_completed_task() {
    let past_date = utc_day(-1);
    let due_date = Some(DueDate::new(past_date).unwrap());
    let mut task = TaskAggregate::new(
        TaskTitle::new("完了した期限切れタスク").unwrap(),
        TaskDescription::new("").unwrap(),
        Status::Pending,
        Priority::High,
        vec![],
        due_date,
    );
    task.complete().unwrap();
    assert!(!task.is_overdue());
}

#[test]
fn test_change_title() {
    let mut task = plain_task("元のタイトル", Status::Pending, Priority::Medium, vec![]);
    let new_title = TaskTitle::new("新しいタイトル").unwrap();
    let result = task.change_title(new_title.clone());
    assert!(result.is_ok());
    assert_eq!(task.title(), &new_title);
}

#[test]
fn test_add_tag() {
    let mut task = plain_task("タグ追加テスト", Status::Pending, Priority::Medium, vec![]);
    let tag_id = TagId::new(1).unwrap();
    let result = task.add_tag(tag_id);
    assert!(result.is_ok());
    assert_eq!(task.tags().len(), 1);
    assert_eq!(task.tags()[0], tag_id);
}

#[test]
fn test_add_duplicate_tag() {
    let tag_id = TagId::new(1).unwrap();
    let mut task = plain_task("重複タグテスト", Status::Pending, Priority::Medium, vec![tag_id]);
    let result = task.add_tag(tag_id);
    assert!(result.is_err());
    assert_eq!(task.tags().len(), 1);
}

#[test]
fn test_remove_tag() {
    let tag_id = TagId::new(1).unwrap();
    let mut task = plain_task("タグ削除テスト", Status::Pending, Priority::Medium, vec![tag_id]);
    let result = task.remove_tag(&tag_id);
    assert!(result.is_ok());
    assert_eq!(task.tags().len(), 0);
}

#[test]
fn test_remove_nonexistent_tag() {
    let mut task = plain_task("存在しないタグ削除テスト", Status::Pending, Priority::Medium, vec![]);
    let tag_id = TagId::new(1).unwrap();
    let result = task.remove_tag(&tag_id);
    assert!(result.is_err());
    assert_eq!(task.tags().len(), 0);
}

#[test]
fn test_complete_emits_event() {
    let mut task = plain_task("イベント発行テスト", Status::Pending, Priority::Medium, vec![]);
    task.complete().unwrap();
    assert_eq!(task.domain_events().len(), 1);
    assert!(matches!(task.domain_events()[0], TaskEvent::Completed(_)));
}

#[test]
fn test_change_title_emits_event() {
    let mut task = plain_task("元のタイトル", Status::Pending, Priority::Medium, vec![]);
    let new_title = TaskTitle::new("新しいタイトル").unwrap();
    task.change_title(new_title).unwrap();
    assert_eq!(task.domain_events().len(), 1);
    assert!(matches!(task.domain_events()[0], TaskEvent::TitleChanged(_)));
}

#[test]
fn test_add_tag_emits_event() {
    let mut task = plain_task("タグ追加イベントテスト", Status::Pending, Priority::Medium, vec![]);
    let tag_id = TagId::new(1).unwrap();
    task.add_tag(tag_id).unwrap();
    assert_eq!(task.domain_events().len(), 1);
    assert!(matches!(task.domain_events()[0], TaskEvent::TagAdded(_)));
}

#[test]
fn test_remove_tag_emits_event() {
    let tag_id = TagId::new(1).unwrap();
    let mut task =
        plain_task("タグ削除イベントテスト", Status::Pending, Priority::Medium, vec![tag_id]);
    task.remove_tag(&tag_id).unwrap();
    assert_eq!(task.domain_events().len(), 1);
    assert!(matches!(task.domain_events()[0], TaskEvent::TagRemoved(_)));
}

#[test]
fn test_clear_events() {
    let mut task = plain_task("イベントクリアテスト", Status::Pending, Priority::Medium, vec![]);
    task.complete().unwrap();
    assert_eq!(task.domain_events().len(), 1);
    task.clear_events();
    assert_eq!(task.domain_events().len(), 0);
}

#[test]
fn test_change_status_to_completed_sets_completed_at() {
    let mut task = plain_task("タスク", Status::Pending, Priority::Medium, vec![]);
    let result = task.change_status(Status::Completed);
    assert!(result.is_ok());
    assert_eq!(task.status(), &Status::Completed);
    assert!(task.completed_at().is_some());
}

#[test]
fn test_change_status_to_completed_emits_event() {
    let mut task = plain_task("タスク", Status::InProgress, Priority::Medium, vec![]);
    task.change_status(Status::Completed).unwrap();
    assert_eq!(task.domain_events().len(), 1);
    assert!(matches!(task.domain_events()[0], TaskEvent::Completed(_)));
}

#[test]
fn test_change_status_from_completed_clears_completed_at() {
    let mut task = plain_task("タスク", Status::Pending, Priority::Medium, vec![]);
    task.complete().unwrap();
    assert!(task.completed_at().is_some());
    let result = task.change_status(Status::InProgress);
    assert!(result.is_ok());
    assert_eq!(task.status(), &Status::InProgress);
    assert!(task.completed_at().is_none());
}

#[test]
fn test_change_status_to_non_completed_does_not_emit_event() {
    let mut task = plain_task("タスク", Status::Pending, Priority::Medium, vec![]);
    task.change_status(Status::InProgress).unwrap();
    assert_eq!(task.domain_events().len(), 0);
}

#[test]
fn test_change_status_already_completed_does_not_change_completed_at() {
    let mut task = plain_task("タスク", Status::Pending, Priority::Medium, vec![]);
    task.complete().unwrap();
    let first_completed_at = *task.completed_at();
    task.change_status(Status::Completed).unwrap();
    assert_eq!(task.completed_at(), &first_completed_at);
}

#[test]
fn add_then_remove_tag_restores_tags() {
    let t1 = TagId::new(1).unwrap();
    let t2 = TagId::new(2).unwrap();
    let mut task = plain_task("タグ", Status::Pending, Priority::Medium, vec![t1]);
    task.add_tag(t2).unwrap();
    assert_eq!(task.tags(), &vec![t1, t2]);
    task.remove_tag(&t2).unwrap();
    assert_eq!(task.tags(), &vec![t1]);
    let err = task.add_tag(t1).unwrap_err();
    assert_eq!(err.message(), "タグID 1 は既に追加されています");
    let err = task.remove_tag(&t2).unwrap_err();
    assert_eq!(err.message(), "タグID 2 は存在しません");
}

#[test]
fn reconstruct_keeps_fields_and_with_id_sets_id() {
    let params = TaskReconstructParams {
        id: TaskId::new(7).unwrap(),
        title: TaskTitle::new("保存済み").unwrap(),
        description: TaskDescription::new("説明").unwrap(),
        status: Status::Completed,
        priority: Priority::Critical,
        tags: vec![TagId::new(3).unwrap()],
        created_at: Timestamp(10),
        updated_at: Timestamp(20),
        due_date: None,
        completed_at: Some(Timestamp(15)),
    };
    let task = TaskAggregate::reconstruct(params);
    assert_eq!(task.id().value(), 7);
    assert_eq!(task.created_at(), &Timestamp(10));
    assert_eq!(task.updated_at(), &Timestamp(20));
    assert_eq!(task.completed_at(), &Some(Timestamp(15)));
    assert_eq!(task.domain_events().len(), 0);
    let renumbered = task.with_id(TaskId::new(9).unwrap());
    assert_eq!(renumbered.id().value(), 9);
    assert_eq!(renumbered.title().value(), "保存済み");
}

#[test]
fn overdue_on_a_given_day() {
    let due = DueDate::new(CalendarDate::from_ymd(2026, 5, 10).unwrap()).unwrap();
    let day = due.day();
    let task = TaskAggregate::new(
        TaskTitle::new("期限").unwrap(),
        TaskDescription::new("").unwrap(),
        Status::InProgress,
        Priority::Low,
        vec![],
        Some(due),
    );
    assert!(!task.is_overdue_on(day));
    assert!(task.is_overdue_on(day + 1));
    assert!(!task.is_overdue_on(day - 1));
}

#[test]
fn other_changes_keep_the_events() {
    let mut task = plain_task("変更", Status::Pending, Priority::Low, vec![]);
    task.change_priority(Priority::High).unwrap();
    task.change_description(TaskDescription::new("新しい説明").unwrap()).unwrap();
    task.replace_tags(vec![TagId::new(4).unwrap()]).unwrap();
    let due = DueDate::new(CalendarDate::from_ymd(2030, 1, 1).unwrap()).unwrap();
    task.change_due_date(Some(due)).unwrap();
    assert_eq!(task.priority(), &Priority::High);
    assert_eq!(task.description().value(), "新しい説明");
    assert_eq!(task.tags().len(), 1);
    assert_eq!(task.due_date(), &Some(due));
    assert_eq!(task.domain_events().len(), 0);
}

// ---- TagAggregate

#[test]
fn test_new_tag() {
    let name = TagName::new("重要").unwrap();
    let description = TagDescription::new("重要なタスク").unwrap();
    let tag = TagAggregate::new(name.clone(), description.clone());
    assert_eq!(tag.name(), &name);
    assert_eq!(tag.description(), &description);
}

#[test]
fn test_change_name() {
    let name = TagName::new("元の名前").unwrap();
    let description = TagDescription::new("説明").unwrap();
    let mut tag = TagAggregate::new(name, description);
    let new_name = TagName::new("新しい名前").unwrap();
    let result = tag.change_name(new_name.clone());
    assert!(result.is_ok());
    assert_eq!(tag.name(), &new_name);
}

#[test]
fn test_change_description() {
    let name = TagName::new("タグ").unwrap();
    let description = TagDescription::new("元の説明").unwrap();
    let mut tag = TagAggregate::new(name, description);
    let new_description = TagDescription::new("新しい説明").unwrap();
    let result = tag.change_description(new_description.clone());
    assert!(result.is_ok());
    assert_eq!(tag.description(), &new_description);
}

#[test]
fn new_tag_has_id_zero_and_one_time() {
    let tag = TagAggregate::new(TagName::new("a").unwrap(), TagDescription::default());
    assert_eq!(tag.id().value(), 0);
    assert_eq!(tag.created_at(), tag.updated_at());
    let tag = tag.with_id(TagId::new(5).unwrap());
    assert_eq!(tag.id().value(), 5);
}

// ---- events

#[test]
fn test_task_created_event() {
    let task_id = TaskId::new(1).unwrap();
    let title = TaskTitle::new("新しいタスク").unwrap();
    let event = TaskCreated::new(task_id, title.clone());
    assert_eq!(event.task_id, task_id);
    assert_eq!(event.title, title);
    assert_eq!(event.event_name(), "TaskCreated");
}

#[test]
fn test_task_completed_event() {
    let task_id = TaskId::new(1).unwrap();
    let completed_at = Timestamp(1_700_000_000_000_000);
    let event = TaskCompleted::new(task_id, completed_at);
    assert_eq!(event.task_id, task_id);
    assert_eq!(event.completed_at, completed_at);
    assert_eq!(event.event_name(), "TaskCompleted");
}

#[test]
fn test_task_title_changed_event() {
    let task_id = TaskId::new(1).unwrap();
    let old_title = TaskTitle::new("古いタイトル").unwrap();
    let new_title = TaskTitle::new("新しいタイトル").unwrap();
    let event = TaskTitleChanged::new(task_id, old_title.clone(), new_title.clone());
    assert_eq!(event.task_id, task_id);
    assert_eq!(event.old_title, old_title);
    assert_eq!(event.new_title, new_title);
    assert_eq!(event.event_name(), "TaskTitleChanged");
}

#[test]
fn test_task_tag_added_event() {
    let task_id = TaskId::new(1).unwrap();
    let tag_id = TagId::new(1).unwrap();
    let event = TaskTagAdded::new(task_id, tag_id);
    assert_eq!(event.task_id, task_id);
    assert_eq!(event.tag_id, tag_id);
    assert_eq!(event.event_name(), "TaskTagAdded");
}

#[test]
fn test_task_tag_removed_event() {
    let task_id = TaskId::new(1).unwrap();
    let tag_id = TagId::new(1).unwrap();
    let event = TaskTagRemoved::new(task_id, tag_id);
    assert_eq!(event.task_id, task_id);
    assert_eq!(event.tag_id, tag_id);
    assert_eq!(event.event_name(), "TaskTagRemoved");
}

#[test]
fn event_enum_names_and_times() {
    let task_id = TaskId::new(2).unwrap();
    let event = TaskEvent::Completed(TaskCompleted::new(task_id, Timestamp(5)));
    assert_eq!(event.event_name(), "TaskCompleted");
    let inner = TaskTagAdded::new(task_id, TagId::new(3).unwrap());
    let stamp = inner.occurred_at;
    assert_eq!(TaskEvent::TagAdded(inner).occurred_at(), stamp);
}

// ---- specifications

#[test]
fn test_task_by_status() {
    let task = plain_task("テスト", Status::Pending, Priority::Medium, vec![]);
    let spec = TaskByStatus::new(Status::Pending);
    assert!(spec.is_satisfied_by(&task));
    let spec_completed = TaskByStatus::new(Status::Completed);
    assert!(!spec_completed.is_satisfied_by(&task));
}

#[test]
fn test_task_by_priority() {
    let task = plain_task("テスト", Status::Pending, Priority::High, vec![]);
    let spec = TaskByPriority::new(Priority::High);
    assert!(spec.is_satisfied_by(&task));
    let spec_low = TaskByPriority::new(Priority::Low);
    assert!(!spec_low.is_satisfied_by(&task));
}

#[test]
fn test_task_by_tag() {
    let tag_id = TagId::new(1).unwrap();
    let task = plain_task("テスト", Status::Pending, Priority::Medium, vec![tag_id]);
    let spec = TaskByTag::new(tag_id);
    assert!(spec.is_satisfied_by(&task));
    let other_tag_id = TagId::new(2).unwrap();
    let spec_other = TaskByTag::new(other_tag_id);
    assert!(!spec_other.is_satisfied_by(&task));
}

#[test]
fn test_task_overdue() {
    let past_date = utc_day(-1);
    let due_date = Some(DueDate::new(past_date).unwrap());
    let task = TaskAggregate::new(
        TaskTitle::new("テスト").unwrap(),
        TaskDescription::new("").unwrap(),
        Status::Pending,
        Priority::High,
        vec![],
        due_date,
    );
    let spec = TaskOverdue::new();
    assert!(spec.is_satisfied_by(&task));
}

#[test]
fn test_task_by_id() {
    let task = plain_task("テスト", Status::Pending, Priority::Medium, vec![]);
    let spec = TaskById::new(TaskId::new(0).unwrap());
    assert!(spec.is_satisfied_by(&task));
    let spec_other = TaskById::new(TaskId::new(999).unwrap());
    assert!(!spec_other.is_satisfied_by(&task));
}

#[test]
fn test_and_specification() {
    let task = plain_task("テスト", Status::Pending, Priority::High, vec![]);
    let spec_status = TaskSpecification::ByStatus(TaskByStatus::new(Status::Pending));
    let spec_priority = TaskSpecification::ByPriority(TaskByPriority::new(Priority::High));
    let and_spec = spec_status.and(spec_priority);
    assert!(and_spec.is_satisfied_by(&task));
}

#[test]
fn test_or_specification() {
    let task = plain_task("テスト", Status::Pending, Priority::High, vec![]);
    let spec_status = TaskSpecification::ByStatus(TaskByStatus::new(Status::Completed));
    let spec_priority = TaskSpecification::ByPriority(TaskByPriority::new(Priority::High));
    let or_spec = spec_status.or(spec_priority);
    assert!(or_spec.is_satisfied_by(&task));
}

#[test]
fn test_complex_specification() {
    let tag_id = TagId::new(1).unwrap();
    let task = plain_task("テスト", Status::Pending, Priority::High, vec![tag_id]);

    let spec_status = TaskSpecification::ByStatus(TaskByStatus::new(Status::Pending));
    let spec_priority = TaskSpecification::ByPriority(TaskByPriority::new(Priority::High));
    let spec_tag = TaskSpecification::ByTag(TaskByTag::new(tag_id));

    let and_spec = AndSpecification { left: Box::new(spec_status), right: Box::new(spec_priority) };
    let complex_spec = OrSpecification {
        left: Box::new(TaskSpecification::And(and_spec)),
        right: Box::new(spec_tag),
    };

    assert!(TaskSpecification::Or(complex_spec).is_satisfied_by(&task));
}

#[test]
fn and_needs_both_or_needs_one() {
    let task = plain_task("テスト", Status::InProgress, Priority::Low, vec![]);
    let both = TaskSpecification::ByStatus(TaskByStatus::new(Status::InProgress))
        .and(TaskSpecification::ByPriority(TaskByPriority::new(Priority::High)));
    assert!(!both.is_satisfied_by(&task));
    let either = TaskSpecification::ByStatus(TaskByStatus::new(Status::Completed))
        .or(TaskSpecification::ByPriority(TaskByPriority::new(Priority::High)));
    assert!(!either.is_satisfied_by(&task));
    let overdue = TaskSpecification::Overdue(TaskOverdue::new());
    assert!(!overdue.is_satisfied_on(&task, 1));
}

#[test]
fn equality_ignores_pending_events() {
    let mut task = plain_task("比較", Status::Pending, Priority::Low, vec![TagId::new(1).unwrap()]);
    task.change_title(TaskTitle::new("比較2").unwrap()).unwrap();
    let copy = task.clone();
    assert_eq!(copy.domain_events().len(), 0);
    assert_eq!(task.domain_events().len(), 1);
    assert!(task == copy);
    assert!(task.same_fields(&copy));
    let other = copy.with_id(TaskId::new(3).unwrap());
    assert!(task != other);
}
