//! Where delve keeps its cache, sessions and configuration.

use vstd::prelude::*;

use crate::text::owned;

verus! {

#[verifier::external_type_specification]
#[verifier::external_body]
pub struct ExBaseDirs(directories::BaseDirs);

/// `directories::BaseDirs::new`: the user's base directories, `None` when
/// no home directory is known. Nothing is stated of the result: it comes
/// from the environment.
#[verifier::external_body]
fn base_dirs_new() -> Option<directories::BaseDirs> {
    directories::BaseDirs::new()
}

/// `BaseDirs::cache_dir`, as text (lossy where the path is not UTF-8).
/// Nothing is stated of it: it comes from the environment.
#[verifier::external_body]
fn base_cache_dir(dirs: &directories::BaseDirs) -> String {
    dirs.cache_dir().to_string_lossy().into_owned()
}

/// `BaseDirs::data_dir`, as text. Nothing is stated of it.
#[verifier::external_body]
fn base_data_dir(dirs: &directories::BaseDirs) -> String {
    dirs.data_dir().to_string_lossy().into_owned()
}

/// `BaseDirs::config_dir`, as text. Nothing is stated of it.
#[verifier::external_body]
fn base_config_dir(dirs: &directories::BaseDirs) -> String {
    dirs.config_dir().to_string_lossy().into_owned()
}

/// `part` under `base`: a `/` between them unless `base` is empty or
/// already ends with one.
pub open spec fn join_path(base: Seq<char>, part: Seq<char>) -> Seq<char> {
    if base.len() == 0 {
        part
    } else if base.last() == '/' {
        base + part
    } else {
        base + seq!['/'] + part
    }
}

/// Joins a relative part to a directory.
pub fn join(base: &str, part: &str) -> (s: String)
    ensures
        s@ == join_path(base@, part@),
{
    let n = base.unicode_len();
    let mut s = String::from_str(base);
    if n > 0 && base.get_char(n - 1) != '/' {
        s.append("/");
        proof {
            reveal_strlit("/");
        }
    }
    s.append(part);
    s
}

/// The files and directories delve uses.
#[derive(Debug, Clone, PartialEq, Eq)]
pub struct DelvePaths {
    pub cache_dir: String,
    pub data_dir: String,
    pub sessions_dir: String,
    pub cache_db: String,
    pub sessions_db: String,
    pub config_file: String,
}

/// The layout under the three base locations: sessions under the data
/// directory, the response cache database under the cache directory.
pub open spec fn layout_of(
    p: DelvePaths,
    cache_dir: Seq<char>,
    data_dir: Seq<char>,
    config_file: Seq<char>,
) -> bool {
    &&& p.cache_dir@ == cache_dir
    &&& p.data_dir@ == data_dir
    &&& p.config_file@ == config_file
    &&& p.sessions_dir@ == join_path(data_dir, "sessions"@)
    &&& p.cache_db@ == join_path(cache_dir, "cache.sqlite"@)
    &&& p.sessions_db@ == join_path(data_dir, "sessions.sqlite"@)
}

impl DelvePaths {
    /// The layout for the given cache and data directories and config file.
    pub fn from_dirs(cache_dir: String, data_dir: String, config_file: String) -> (p: Self)
        ensures
            layout_of(p, cache_dir@, data_dir@, config_file@),
    {
        let sessions_dir = join(data_dir.as_str(), "sessions");
        let cache_db = join(cache_dir.as_str(), "cache.sqlite");
        let sessions_db = join(data_dir.as_str(), "sessions.sqlite");
        DelvePaths { cache_dir, data_dir, sessions_dir, cache_db, sessions_db, config_file }
    }

    /// Everything under one root: `cache/`, `data/` and `config/delve.yaml`.
    pub fn from_root(root: &str) -> (p: Self)
        ensures
            layout_of(
                p,
                join_path(root@, "cache"@),
                join_path(root@, "data"@),
                join_path(root@, "config/delve.yaml"@),
            ),
    {
        Self::from_dirs(join(root, "cache"), join(root, "data"), join(root, "config/delve.yaml"))
    }

    /// The layout under the user's base directories (cache, data, config):
    /// `cdt/delve` under the cache and data directories and
    /// `cdt/delve.yaml` under the config directory; with no base
    /// directories, `.cdt/cache/delve`, `.cdt/data/delve` and
    /// `.cdt/config/delve.yaml` in the working directory.
    pub fn platform_layout(base: Option<(String, String, String)>) -> (p: Self)
        ensures
            match base {
                Some((c, d, f)) => layout_of(
                    p,
                    join_path(c@, "cdt/delve"@),
                    join_path(d@, "cdt/delve"@),
                    join_path(f@, "cdt/delve.yaml"@),
                ),
                None => layout_of(p, ".cdt/cache/delve"@, ".cdt/data/delve"@, ".cdt/config/delve.yaml"@),
            },
    {
        let (cache_dir, data_dir, config_file) = match base {
            Some((c, d, f)) => (
                join(c.as_str(), "cdt/delve"),
                join(d.as_str(), "cdt/delve"),
                join(f.as_str(), "cdt/delve.yaml"),
            ),
            None => (
                owned(".cdt/cache/delve"),
                owned(".cdt/data/delve"),
                owned(".cdt/config/delve.yaml"),
            ),
        };
        Self::from_dirs(cache_dir, data_dir, config_file)
    }

    /// The user's platform directories (see `platform_layout`); which base
    /// directories they are comes from the environment.
    pub fn platform() -> (p: Self)
        ensures
            (exists|cache: Seq<char>, data: Seq<char>, config: Seq<char>|
                #[trigger] layout_of(
                    p,
                    join_path(cache, "cdt/delve"@),
                    join_path(data, "cdt/delve"@),
                    join_path(config, "cdt/delve.yaml"@),
                )) || layout_of(p, ".cdt/cache/delve"@, ".cdt/data/delve"@, ".cdt/config/delve.yaml"@),
    {
        let base = match base_dirs_new() {
            Some(dirs) => Some((base_cache_dir(&dirs), base_data_dir(&dirs), base_config_dir(&dirs))),
            None => None,
        };
        let ghost b = base;
        let p = Self::platform_layout(base);
        proof {
            match b {
                Some((c, d, f)) => {
                    assert(layout_of(
                        p,
                        join_path(c@, "cdt/delve"@),
                        join_path(d@, "cdt/delve"@),
                        join_path(f@, "cdt/delve.yaml"@),
                    ));
                },
                None => {},
            }
        }
        p
    }

    /// The configuration file.
    pub fn config_file(&self) -> (s: &str)
        ensures
            s@ == self.config_file@,
    {
        self.config_file.as_str()
    }
}

} // verus!
