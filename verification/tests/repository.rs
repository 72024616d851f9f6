use yaru::cli::task_handler::validate_tag_ids;
use yaru::domain::aggregate::TaskAggregate;
use yaru::domain::repository::InMemoryTaskRepository;
use yaru::domain::specification::{TaskByPriority, TaskByStatus, TaskSpecification};
use yaru::domain::tag::{TagAggregate, TagDescription, TagId, TagName};
use yaru::domain::tag_repository::{delete_unused_tag, InMemoryTagRepository};
use yaru::domain::task::{Priority, Status, TaskDescription, TaskId, TaskTitle};

fn task(title: &str, status: Status, priority: Priority) -> TaskAggregate {
    TaskAggregate::new(
        TaskTitle::new(title).unwrap(),
        TaskDescription::new("").unwrap(),
        status,
        priority,
        vec![],
        None,
    )
}

fn tag(name: &str, description: &str) -> TagAggregate {
    TagAggregate::new(TagName::new(name).unwrap(), TagDescription::new(description).unwrap())
}

// ---- tasks

#[test]
fn test_in_memory_repository_new() {
    let repo = InMemoryTaskRepository::new();
    let tasks = repo.find_all();
    assert_eq!(tasks.len(), 0);
}

#[test]
fn test_find_all_empty() {
    let repo = InMemoryTaskRepository::new();
    assert!(repo.find_all().is_empty());
}

#[test]
fn test_find_by_id_not_found() {
    let repo = InMemoryTaskRepository::new();
    let id = TaskId::new(1).unwrap();
    assert!(repo.find_by_id(&id).is_none());
}

#[test]
fn test_save_new_task() {
    let mut repo = InMemoryTaskRepository::new();
    let saved = repo.save(task("新しいタスク", Status::Pending, Priority::High)).unwrap();
    assert_ne!(saved.id().value(), 0);
    assert_eq!(saved.title().value(), "新しいタスク");
    let found = repo.find_by_id(saved.id());
    assert!(found.is_some());
    assert_eq!(found.unwrap().id(), saved.id());
}

#[test]
fn test_save_multiple_tasks() {
    let mut repo = InMemoryTaskRepository::new();
    let saved1 = repo.save(task("タスク1", Status::Pending, Priority::Low)).unwrap();
    let saved2 = repo.save(task("タスク2", Status::InProgress, Priority::Medium)).unwrap();
    assert_ne!(saved1.id(), saved2.id());
    assert_eq!(repo.find_all().len(), 2);
}

#[test]
fn test_update_task() {
    let mut repo = InMemoryTaskRepository::new();
    let saved = repo.save(task("元のタイトル", Status::Pending, Priority::Low)).unwrap();
    let mut updated_task = saved.clone();
    updated_task.change_title(TaskTitle::new("更新後のタイトル").unwrap()).unwrap();

    let result = repo.update(updated_task.clone()).unwrap();
    assert_eq!(result.title().value(), "更新後のタイトル");

    let found = repo.find_by_id(saved.id()).unwrap();
    assert_eq!(found.title().value(), "更新後のタイトル");
}

#[test]
fn test_delete_task() {
    let mut repo = InMemoryTaskRepository::new();
    let saved = repo.save(task("削除するタスク", Status::Pending, Priority::Medium)).unwrap();
    assert!(repo.delete(saved.id()));
    assert!(repo.find_by_id(saved.id()).is_none());
}

#[test]
fn test_delete_nonexistent_task() {
    let mut repo = InMemoryTaskRepository::new();
    let id = TaskId::new(999).unwrap();
    assert!(!repo.delete(&id));
}

#[test]
fn saved_ids_count_up_and_update_of_missing_task_is_refused() {
    let mut repo = InMemoryTaskRepository::new();
    let a = repo.save(task("a", Status::Pending, Priority::Low)).unwrap();
    let b = repo.save(task("b", Status::Pending, Priority::Low)).unwrap();
    assert_eq!(a.id().value(), 1);
    assert_eq!(b.id().value(), 2);
    repo.delete(a.id());
    let c = repo.save(task("c", Status::Pending, Priority::Low)).unwrap();
    assert_eq!(c.id().value(), 3);
    let ghost = task("x", Status::Pending, Priority::Low).with_id(TaskId::new(42).unwrap());
    let err = repo.update(ghost).unwrap_err();
    assert_eq!(err.message(), "タスクが見つかりません: 42");
    // Saving with a known ID replaces in place.
    let mut b2 = b.clone();
    b2.change_priority(Priority::Critical).unwrap();
    repo.save(b2).unwrap();
    let all = repo.find_all();
    assert_eq!(all.len(), 2);
    assert_eq!(all[0].id().value(), 2);
    assert_eq!(all[0].priority(), &Priority::Critical);
}

#[test]
fn find_by_specification_filters_in_order() {
    let mut repo = InMemoryTaskRepository::new();
    repo.save(task("a", Status::Pending, Priority::High)).unwrap();
    repo.save(task("b", Status::Completed, Priority::High)).unwrap();
    repo.save(task("c", Status::Pending, Priority::Low)).unwrap();
    let spec = TaskSpecification::ByStatus(TaskByStatus::new(Status::Pending));
    let found = repo.find_by_specification_on(&spec, 0);
    let titles: Vec<&str> = found.iter().map(|t| t.title().value()).collect();
    assert_eq!(titles, vec!["a", "c"]);
    let spec = TaskSpecification::ByPriority(TaskByPriority::new(Priority::High));
    assert_eq!(repo.find_by_specification(&spec).len(), 2);
}

// ---- tags

#[test]
fn test_find_by_ids_multiple_tags_found() {
    let mut repo = InMemoryTagRepository::new();
    let saved_tag1 = repo.save(tag("タグ1", "説明1")).unwrap();
    let saved_tag2 = repo.save(tag("タグ2", "説明2")).unwrap();
    let ids = vec![*saved_tag1.id(), *saved_tag2.id()];

    let result = repo.find_by_ids(&ids);

    assert_eq!(result.len(), 2);
    assert!(result.iter().any(|t| t.id() == saved_tag1.id()));
    assert!(result.iter().any(|t| t.id() == saved_tag2.id()));
}

#[test]
fn test_find_by_ids_some_ids_not_found() {
    let mut repo = InMemoryTagRepository::new();
    let saved_tag = repo.save(tag("タグ", "説明")).unwrap();
    let non_existent_id = TagId::new(9999).unwrap();
    let ids = vec![*saved_tag.id(), non_existent_id];

    let result = repo.find_by_ids(&ids);

    assert_eq!(result.len(), 1);
    assert_eq!(result[0].id(), saved_tag.id());
}

#[test]
fn test_find_by_ids_empty_array() {
    let repo = InMemoryTagRepository::new();
    let ids: Vec<TagId> = vec![];
    assert_eq!(repo.find_by_ids(&ids).len(), 0);
}

#[test]
fn test_find_by_ids_duplicate_ids() {
    let mut repo = InMemoryTagRepository::new();
    let saved_tag = repo.save(tag("タグ", "説明")).unwrap();
    let ids = vec![*saved_tag.id(), *saved_tag.id()];
    assert_eq!(repo.find_by_ids(&ids).len(), 1);
}

#[test]
fn tag_lookup_by_name_update_and_delete() {
    let mut repo = InMemoryTagRepository::new();
    let a = repo.save(tag("重要", "")).unwrap();
    repo.save(tag("緊急", "")).unwrap();
    assert_eq!(repo.find_by_name("緊急").unwrap().id().value(), 2);
    assert!(repo.find_by_name("なし").is_none());
    let mut renamed = a.clone();
    renamed.change_name(TagName::new("最重要").unwrap()).unwrap();
    repo.update(renamed).unwrap();
    assert_eq!(repo.find_by_id(a.id()).unwrap().name().value(), "最重要");
    assert!(repo.delete(a.id()));
    assert!(!repo.delete(a.id()));
    assert_eq!(repo.find_all().len(), 1);
    let missing = tag("x", "").with_id(TagId::new(77).unwrap());
    assert_eq!(repo.update(missing).unwrap_err().message(), "タグが見つかりません: 77");
}

// ---- tag ID validation for the task commands

#[test]
fn validate_tag_ids_reports_negative_then_unknown() {
    let mut repo = InMemoryTagRepository::new();
    repo.save(tag("a", "")).unwrap();
    repo.save(tag("b", "")).unwrap();
    assert!(validate_tag_ids(&repo, &[]).is_ok());
    assert!(validate_tag_ids(&repo, &[1, 2, 1]).is_ok());
    let err = validate_tag_ids(&repo, &[1, 5, 7]).unwrap_err();
    assert_eq!(err.message(), "Tag ID does not exist: 5");
    let err = validate_tag_ids(&repo, &[9, -1]).unwrap_err();
    assert_eq!(err.message(), "タグIDは0以上である必要があります");
}

#[test]
fn a_tag_in_use_is_not_deleted() {
    let mut tags = InMemoryTagRepository::new();
    let used = tags.save(tag("仕事", "")).unwrap();
    let free = tags.save(tag("趣味", "")).unwrap();
    let mut tasks = InMemoryTaskRepository::new();
    for title in ["a", "b"] {
        let t = TaskAggregate::new(
            TaskTitle::new(title).unwrap(),
            TaskDescription::new("").unwrap(),
            Status::Pending,
            Priority::Low,
            vec![*used.id()],
            None,
        );
        tasks.save(t).unwrap();
    }
    assert_eq!(tasks.count_with_tag(used.id()), 2);
    assert_eq!(tasks.count_with_tag(free.id()), 0);
    let err = delete_unused_tag(&mut tags, &tasks, used.id()).unwrap_err();
    assert_eq!(
        err.message(),
        format!("タグID {}は2個のタスクで使用されているため削除できません", used.id().value())
    );
    assert!(tags.find_by_id(used.id()).is_some());
    assert_eq!(delete_unused_tag(&mut tags, &tasks, free.id()), Ok(true));
    assert!(tags.find_by_id(free.id()).is_none());
    assert_eq!(delete_unused_tag(&mut tags, &tasks, free.id()), Ok(false));
}
