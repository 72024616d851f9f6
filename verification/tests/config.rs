use yaru::config::{config_path, join_path, yaru_dir_path, Config, StorageConfig};
use yaru::presentation::CliPresenter;

#[test]
fn default_database_url_under_home() {
    let c = Config::default_for(Some("/home/alice"));
    assert_eq!(c.storage.database_url, "sqlite:///home/alice/.config/yaru/yaru.db?mode=rwc");
    let s = StorageConfig::default_for(None);
    assert_eq!(s.database_url, "sqlite://yaru.db?mode=rwc");
}

#[test]
fn paths_join_like_pathbuf() {
    for (base, part) in [("/home/a", "x"), ("/home/a/", "x"), ("", "x"), ("rel", "y"), ("/", "z")] {
        let expected = std::path::PathBuf::from(base).join(part).display().to_string();
        assert_eq!(join_path(base, part), expected, "{base:?} + {part:?}");
    }
    assert_eq!(yaru_dir_path("/h"), "/h/.config/yaru");
    assert_eq!(config_path("/h/"), "/h/.config/yaru/config.toml");
}

#[test]
fn presenter_is_a_unit() {
    let p = CliPresenter::new();
    let q = CliPresenter::default();
    assert_eq!(format!("{:?}", p), format!("{:?}", q));
}
