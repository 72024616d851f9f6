use yaru::cli::args::SearchFieldArg;
use yaru::cli::search::{search_tasks, split_words, task_matches_keywords, text_contains, SearchField};
use yaru::domain::aggregate::TaskAggregate;
use yaru::domain::task::{Priority, Status, TaskDescription, TaskTitle};

fn task(title: &str, description: &str) -> TaskAggregate {
    TaskAggregate::new(
        TaskTitle::new(title).unwrap(),
        TaskDescription::new(description).unwrap(),
        Status::Pending,
        Priority::Medium,
        vec![],
        None,
    )
}

#[test]
fn words_split_like_split_whitespace() {
    for s in ["", "  ", "a", " a  b\tc\n", "レポート 作成", "x\u{3000}y"] {
        let expected: Vec<String> = s.split_whitespace().map(|w| w.to_string()).collect();
        assert_eq!(split_words(s), expected, "{s:?}");
    }
}

#[test]
fn substring_search() {
    assert!(text_contains("買い物に行く", "物に"));
    assert!(text_contains("abc", ""));
    assert!(text_contains("", ""));
    assert!(!text_contains("", "a"));
    assert!(!text_contains("abc", "abcd"));
    assert!(text_contains("abcabd", "abd"));
    assert!(!text_contains("Abc", "abc"));
}

#[test]
fn keywords_must_all_match_in_the_field() {
    let t = task("レポート作成", "月末までに提出");
    assert!(task_matches_keywords(&t, "レポート 作成", SearchField::Title));
    assert!(!task_matches_keywords(&t, "レポート 提出", SearchField::Title));
    assert!(task_matches_keywords(&t, "レポート 提出", SearchField::All));
    assert!(task_matches_keywords(&t, "提出", SearchField::Description));
    assert!(!task_matches_keywords(&t, "作成", SearchField::Description));
    assert!(task_matches_keywords(&t, "   ", SearchField::Title));
}

#[test]
fn search_returns_matching_positions_in_order() {
    let tasks = vec![task("買い物", ""), task("掃除", "買い物の後"), task("洗濯", "")];
    assert_eq!(search_tasks(&tasks, "買い物", SearchField::All), vec![0, 1]);
    assert_eq!(search_tasks(&tasks, "買い物", SearchField::Title), vec![0]);
    assert_eq!(search_tasks(&tasks, "料理", SearchField::All), Vec::<usize>::new());
}

#[test]
fn search_field_from_argument() {
    assert_eq!(SearchField::from(SearchFieldArg::Title), SearchField::Title);
    assert_eq!(SearchField::from(SearchFieldArg::Description), SearchField::Description);
    assert_eq!(SearchField::from(SearchFieldArg::All), SearchField::All);
}
