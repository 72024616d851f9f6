use yaru::repository::{next_id, JsonTagRepository, JsonTodoRepository};
use yaru::tag::Tag;
use yaru::todo::{Status, Todo};

#[test]
fn test_find_next_id_empty_list() {
    let repo = JsonTagRepository::new("tags.json");
    let tags: Vec<Tag> = vec![];
    assert_eq!(repo.find_next_id(&tags), 1);
}

#[test]
fn test_find_next_id_with_existing_tags() {
    let repo = JsonTagRepository::new("tags.json");
    let tags = vec![Tag::new(1, "タグ1", "説明1"), Tag::new(3, "タグ3", "説明3"), Tag::new(2, "タグ2", "説明2")];
    assert_eq!(repo.find_next_id(&tags), 4);
}

#[test]
fn test_find_next_id_with_single_tag() {
    let repo = JsonTagRepository::new("tags.json");
    let tags = vec![Tag::new(5, "タグ", "説明")];
    assert_eq!(repo.find_next_id(&tags), 6);
}

#[test]
fn test_find_next_id_with_existing_todos() {
    let repo = JsonTodoRepository::new("todo.json");
    let todos = vec![
        Todo::new(1, "タスク1", Status::Pending),
        Todo::new(3, "タスク3", Status::Completed),
        Todo::new(2, "タスク2", Status::InProgress),
    ];
    assert_eq!(repo.find_next_id(&todos), 4);
}

#[test]
fn test_find_next_id_with_single_todo() {
    let repo = JsonTodoRepository::new("todo.json");
    let todos = vec![Todo::new(5, "タスク", Status::Pending)];
    assert_eq!(repo.find_next_id(&todos), 6);
}

#[test]
fn next_id_of_plain_ids() {
    assert_eq!(next_id(&vec![]), 1);
    assert_eq!(next_id(&vec![0]), 1);
    assert_eq!(next_id(&vec![7, 2, 9, 3]), 10);
}

#[test]
fn repositories_keep_their_path() {
    assert_eq!(JsonTagRepository::new("/tmp/a/tags.json").file_path(), "/tmp/a/tags.json");
    assert_eq!(JsonTodoRepository::new("todo.json").file_path(), "todo.json");
}

#[test]
fn todo_and_tag_fields() {
    let todo = Todo::new(3, "買い物", Status::InProgress);
    assert_eq!(todo.id, 3);
    assert_eq!(todo.title, "買い物");
    assert_eq!(todo.status, Status::InProgress);
    assert!(chrono::DateTime::parse_from_rfc3339(&todo.created_at).is_ok());
    let tag = Tag::new(2, "重要", "説明");
    assert_eq!(tag.id(), 2);
    assert_eq!(tag.display_text(), "重要");
    assert!(chrono::DateTime::parse_from_rfc3339(&tag.updated_at).is_ok());
}

#[test]
fn todo_status_filter_words() {
    assert_eq!(Status::from_filter_value("TODO").unwrap(), Status::Pending);
    assert_eq!(Status::from_filter_value("done").unwrap(), Status::Completed);
    assert_eq!(Status::from_filter_value("InProgress").unwrap(), Status::InProgress);
    assert_eq!(Status::from_filter_value("progress").unwrap(), Status::InProgress);
    assert_eq!(Status::from_filter_value("later").unwrap_err(), "Invalid status value: 'later'");
    assert_eq!(Status::Pending.display_name(), "保留中");
    assert_eq!(Status::Completed.display_name(), "完了");
    assert_eq!(Status::InProgress.display_name(), "進行中");
}
