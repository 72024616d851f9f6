//! The application's settings and where they live by default.

use vstd::prelude::*;

use crate::text::{concat2, concat3};

verus! {

/// The application's settings.
#[derive(Debug, Clone)]
pub struct Config {
    pub storage: StorageConfig,
}

/// Where the data is stored.
#[derive(Debug, Clone)]
pub struct StorageConfig {
    pub database_url: String,
}

/// `base` with the relative path `part` appended, as `PathBuf::push` does on
/// Unix: a '/' goes between them unless `base` is empty or already ends in
/// one.
pub open spec fn path_join(base: Seq<char>, part: Seq<char>) -> Seq<char> {
    if base.len() == 0 {
        part
    } else if base.last() == '/' {
        base + part
    } else {
        base + "/"@ + part
    }
}

/// Appends the relative path `part` to `base`.
pub fn join_path(base: &str, part: &str) -> (r: String)
    ensures
        r@ == path_join(base@, part@),
{
    let n = base.unicode_len();
    if n == 0 {
        part.to_string()
    } else if base.get_char(n - 1) == '/' {
        concat2(base, part)
    } else {
        concat3(base, "/", part)
    }
}

/// The directory of the application's files under the home directory
/// `home`: `home/.config/yaru`.
pub open spec fn yaru_dir(home: Seq<char>) -> Seq<char> {
    path_join(path_join(home, ".config"@), "yaru"@)
}

/// Builds the application's directory under `home`.
pub fn yaru_dir_path(home: &str) -> (r: String)
    ensures
        r@ == yaru_dir(home@),
{
    let config = join_path(home, ".config");
    join_path(config.as_str(), "yaru")
}

/// The settings file under `home`: `home/.config/yaru/config.toml`.
pub fn config_path(home: &str) -> (r: String)
    ensures
        r@ == path_join(yaru_dir(home@), "config.toml"@),
{
    let dir = yaru_dir_path(home);
    join_path(dir.as_str(), "config.toml")
}

/// The default database address: the SQLite file `yaru.db` in the
/// application's directory when the home directory is known, else
/// `yaru.db` in the working directory; opened read-write and created when
/// missing.
pub open spec fn default_database_url(home: Option<Seq<char>>) -> Seq<char> {
    match home {
        Some(h) => "sqlite://"@ + path_join(yaru_dir(h), "yaru.db"@) + "?mode=rwc"@,
        None => "sqlite://yaru.db?mode=rwc"@,
    }
}

impl StorageConfig {
    /// The default storage for the home directory `home` (`None` when it is
    /// not known).
    pub fn default_for(home: Option<&str>) -> (r: StorageConfig)
        ensures
            r.database_url@ == default_database_url(
                match home {
                    Some(h) => Some(h@),
                    None => None,
                },
            ),
    {
        match home {
            Some(h) => {
                let dir = yaru_dir_path(h);
                let db = join_path(dir.as_str(), "yaru.db");
                StorageConfig { database_url: concat3("sqlite://", db.as_str(), "?mode=rwc") }
            },
            None => StorageConfig { database_url: "sqlite://yaru.db?mode=rwc".to_string() },
        }
    }
}

impl Config {
    /// The default settings for the home directory `home`.
    pub fn default_for(home: Option<&str>) -> (r: Config)
        ensures
            r.storage.database_url@ == default_database_url(
                match home {
                    Some(h) => Some(h@),
                    None => None,
                },
            ),
    {
        Config { storage: StorageConfig::default_for(home) }
    }
}

} // verus!
