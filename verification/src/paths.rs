//! Where the application keeps its files: directories under the platform's
//! local data directory.
use vstd::prelude::*;

verus! {

/// The application's directory under the local data directory.
pub const APP_DIR_NAME: &'static str = "own-repos-curator";

/// The directory of `repos.json`, under the application's directory.
pub const DATA_DIR_NAME: &'static str = "data";

/// The directory of the managed backup clones.
pub const MANAGED_REPO_DIR_NAME: &'static str = "managed-repos";

/// The configuration file.
pub const CONFIG_FILE_NAME: &'static str = "config.toml";

/// The file that remembers display settings between runs.
pub const HISTORY_FILE_NAME: &'static str = "history.json";

/// The directory of the companion tool that keeps the URL cache.
pub const HATENA_SYNC_APP_DIR_NAME: &'static str = "own-repos-curator-to-hatena";

/// The companion tool's cache directory.
pub const CACHE_DIR_NAME: &'static str = "cache";

/// The URL cache file.
pub const URL_CACHE_FILE_NAME: &'static str = "url.json";

#[verifier::external_type_specification]
#[verifier::external_body]
pub struct ExPathBuf(std::path::PathBuf);

/// A path: a base directory followed by components.
pub struct AppPath {
    pub base: std::path::PathBuf,
    pub parts: Vec<String>,
}

/// Why a path could not be formed.
#[derive(Debug, Clone, Copy, PartialEq, Eq, Structural)]
pub enum PathError {
    /// The platform has no local data directory.
    NoLocalDataDir,
}

impl PathError {
    /// The text of the failure.
    pub fn message(&self) -> (r: &'static str)
        ensures
            r@ == "failed to locate LocalAppData directory"@,
    {
        "failed to locate LocalAppData directory"
    }
}

/// `dirs::data_local_dir`: the platform's local data directory, if it has
/// one. Nothing is stated of it: it comes from the environment.
#[verifier::external_body]
fn local_data_dir() -> (r: Option<std::path::PathBuf>) {
    dirs::data_local_dir()
}

/// `r` is `parts` placed under the local data directory `local_data`: the
/// path from that directory through `parts`, or, when there is no such
/// directory, the error that says so.
pub open spec fn placed_under(
    local_data: Option<std::path::PathBuf>,
    parts: Seq<Seq<char>>,
    r: Result<AppPath, PathError>,
) -> bool {
    match local_data {
        None => r == Err::<AppPath, PathError>(PathError::NoLocalDataDir),
        Some(base) => r matches Ok(p) && p.base == base && p.parts.deep_view() == parts,
    }
}

/// `r` is `parts` placed under some local data directory, or the error
/// that there is none.
pub open spec fn placed_somewhere(parts: Seq<Seq<char>>, r: Result<AppPath, PathError>) -> bool {
    exists|d: Option<std::path::PathBuf>| #[trigger] placed_under(d, parts, r)
}

/// `parts` placed under the local data directory `local_data`.
fn under_local_data(local_data: Option<std::path::PathBuf>, parts: Vec<String>) -> (r: Result<AppPath, PathError>)
    ensures
        placed_under(local_data, parts.deep_view(), r),
{
    match local_data {
        Some(base) => Ok(AppPath { base, parts }),
        None => Err(PathError::NoLocalDataDir),
    }
}

/// The components `a/b`.
fn two(a: &str, b: &str) -> (r: Vec<String>)
    ensures
        r.deep_view() == seq![a@, b@],
{
    let mut v: Vec<String> = Vec::new();
    v.push(a.to_owned());
    v.push(b.to_owned());
    assert(v.deep_view() =~= seq![a@, b@]);
    v
}

/// The components `a/b/c`.
fn three(a: &str, b: &str, c: &str) -> (r: Vec<String>)
    ensures
        r.deep_view() == seq![a@, b@, c@],
{
    let mut v = two(a, b);
    let ghost before = v.deep_view();
    v.push(c.to_owned());
    assert(v.deep_view() =~= before.push(c@));
    assert(v.deep_view() =~= seq![a@, b@, c@]);
    v
}

/// The application's directory, `own-repos-curator`, under the local data directory `local_data`; no path
/// when there is none.
pub fn app_local_dir_path_in(local_data: Option<std::path::PathBuf>) -> (r: Result<AppPath, PathError>)
    ensures
        placed_under(local_data, seq![APP_DIR_NAME@], r),
{
    let mut v: Vec<String> = Vec::new();
    v.push(APP_DIR_NAME.to_owned());
    assert(v.deep_view() =~= seq![APP_DIR_NAME@]);
    under_local_data(local_data, v)
}

/// The application's directory, `own-repos-curator`, under the platform's local data directory; no path when the
/// platform has none.
pub fn app_local_dir_path() -> (r: Result<AppPath, PathError>)
    ensures
        placed_somewhere(seq![APP_DIR_NAME@], r),
        r matches Ok(p) ==> p.parts.deep_view() == seq![APP_DIR_NAME@],
        r is Err ==> r == Err::<AppPath, PathError>(PathError::NoLocalDataDir),
{
    let local_data = local_data_dir();
    let ghost d = local_data;
    let r = app_local_dir_path_in(local_data);
    assert(placed_under(d, seq![APP_DIR_NAME@], r));
    r
}

/// The directory of `repos.json`, `own-repos-curator/data`, under the local data directory `local_data`; no path
/// when there is none.
pub fn data_dir_path_in(local_data: Option<std::path::PathBuf>) -> (r: Result<AppPath, PathError>)
    ensures
        placed_under(local_data, seq![APP_DIR_NAME@, DATA_DIR_NAME@], r),
{
    under_local_data(local_data, two(APP_DIR_NAME, DATA_DIR_NAME))
}

/// The directory of `repos.json`, `own-repos-curator/data`, under the platform's local data directory; no path when the
/// platform has none.
pub fn data_dir_path() -> (r: Result<AppPath, PathError>)
    ensures
        placed_somewhere(seq![APP_DIR_NAME@, DATA_DIR_NAME@], r),
        r matches Ok(p) ==> p.parts.deep_view() == seq![APP_DIR_NAME@, DATA_DIR_NAME@],
        r is Err ==> r == Err::<AppPath, PathError>(PathError::NoLocalDataDir),
{
    let local_data = local_data_dir();
    let ghost d = local_data;
    let r = data_dir_path_in(local_data);
    assert(placed_under(d, seq![APP_DIR_NAME@, DATA_DIR_NAME@], r));
    r
}

/// The directory of the managed backup clones, `own-repos-curator/managed-repos`, under the local data directory `local_data`; no path
/// when there is none.
pub fn managed_repo_dir_path_in(local_data: Option<std::path::PathBuf>) -> (r: Result<AppPath, PathError>)
    ensures
        placed_under(local_data, seq![APP_DIR_NAME@, MANAGED_REPO_DIR_NAME@], r),
{
    under_local_data(local_data, two(APP_DIR_NAME, MANAGED_REPO_DIR_NAME))
}

/// The directory of the managed backup clones, `own-repos-curator/managed-repos`, under the platform's local data directory; no path when the
/// platform has none.
pub fn managed_repo_dir_path() -> (r: Result<AppPath, PathError>)
    ensures
        placed_somewhere(seq![APP_DIR_NAME@, MANAGED_REPO_DIR_NAME@], r),
        r matches Ok(p) ==> p.parts.deep_view() == seq![APP_DIR_NAME@, MANAGED_REPO_DIR_NAME@],
        r is Err ==> r == Err::<AppPath, PathError>(PathError::NoLocalDataDir),
{
    let local_data = local_data_dir();
    let ghost d = local_data;
    let r = managed_repo_dir_path_in(local_data);
    assert(placed_under(d, seq![APP_DIR_NAME@, MANAGED_REPO_DIR_NAME@], r));
    r
}

/// The directory of the configuration, the application's directory, under the local data directory `local_data`; no path
/// when there is none.
pub fn config_dir_path_in(local_data: Option<std::path::PathBuf>) -> (r: Result<AppPath, PathError>)
    ensures
        placed_under(local_data, seq![APP_DIR_NAME@], r),
{
    app_local_dir_path_in(local_data)
}

/// The directory of the configuration, the application's directory, under the platform's local data directory; no path when the
/// platform has none.
pub fn config_dir_path() -> (r: Result<AppPath, PathError>)
    ensures
        placed_somewhere(seq![APP_DIR_NAME@], r),
        r matches Ok(p) ==> p.parts.deep_view() == seq![APP_DIR_NAME@],
        r is Err ==> r == Err::<AppPath, PathError>(PathError::NoLocalDataDir),
{
    let local_data = local_data_dir();
    let ghost d = local_data;
    let r = config_dir_path_in(local_data);
    assert(placed_under(d, seq![APP_DIR_NAME@], r));
    r
}

/// The configuration file, `own-repos-curator/config.toml`, under the local data directory `local_data`; no path
/// when there is none.
pub fn config_file_path_in(local_data: Option<std::path::PathBuf>) -> (r: Result<AppPath, PathError>)
    ensures
        placed_under(local_data, seq![APP_DIR_NAME@, CONFIG_FILE_NAME@], r),
{
    under_local_data(local_data, two(APP_DIR_NAME, CONFIG_FILE_NAME))
}

/// The configuration file, `own-repos-curator/config.toml`, under the platform's local data directory; no path when the
/// platform has none.
pub fn config_file_path() -> (r: Result<AppPath, PathError>)
    ensures
        placed_somewhere(seq![APP_DIR_NAME@, CONFIG_FILE_NAME@], r),
        r matches Ok(p) ==> p.parts.deep_view() == seq![APP_DIR_NAME@, CONFIG_FILE_NAME@],
        r is Err ==> r == Err::<AppPath, PathError>(PathError::NoLocalDataDir),
{
    let local_data = local_data_dir();
    let ghost d = local_data;
    let r = config_file_path_in(local_data);
    assert(placed_under(d, seq![APP_DIR_NAME@, CONFIG_FILE_NAME@], r));
    r
}

/// The history file, `own-repos-curator/history.json`, under the local data directory `local_data`; no path
/// when there is none.
pub fn history_file_path_in(local_data: Option<std::path::PathBuf>) -> (r: Result<AppPath, PathError>)
    ensures
        placed_under(local_data, seq![APP_DIR_NAME@, HISTORY_FILE_NAME@], r),
{
    under_local_data(local_data, two(APP_DIR_NAME, HISTORY_FILE_NAME))
}

/// The history file, `own-repos-curator/history.json`, under the platform's local data directory; no path when the
/// platform has none.
pub fn history_file_path() -> (r: Result<AppPath, PathError>)
    ensures
        placed_somewhere(seq![APP_DIR_NAME@, HISTORY_FILE_NAME@], r),
        r matches Ok(p) ==> p.parts.deep_view() == seq![APP_DIR_NAME@, HISTORY_FILE_NAME@],
        r is Err ==> r == Err::<AppPath, PathError>(PathError::NoLocalDataDir),
{
    let local_data = local_data_dir();
    let ghost d = local_data;
    let r = history_file_path_in(local_data);
    assert(placed_under(d, seq![APP_DIR_NAME@, HISTORY_FILE_NAME@], r));
    r
}

/// The companion tool's URL cache file, `own-repos-curator-to-hatena/cache/url.json`, under the local data directory `local_data`; no path
/// when there is none.
pub fn hatena_url_cache_file_path_in(local_data: Option<std::path::PathBuf>) -> (r: Result<AppPath, PathError>)
    ensures
        placed_under(local_data, seq![HATENA_SYNC_APP_DIR_NAME@, CACHE_DIR_NAME@, URL_CACHE_FILE_NAME@], r),
{
    under_local_data(local_data, three(HATENA_SYNC_APP_DIR_NAME, CACHE_DIR_NAME, URL_CACHE_FILE_NAME))
}

/// The companion tool's URL cache file, `own-repos-curator-to-hatena/cache/url.json`, under the platform's local data directory; no path when the
/// platform has none.
pub fn hatena_url_cache_file_path() -> (r: Result<AppPath, PathError>)
    ensures
        placed_somewhere(seq![HATENA_SYNC_APP_DIR_NAME@, CACHE_DIR_NAME@, URL_CACHE_FILE_NAME@], r),
        r matches Ok(p) ==> p.parts.deep_view() == seq![HATENA_SYNC_APP_DIR_NAME@, CACHE_DIR_NAME@, URL_CACHE_FILE_NAME@],
        r is Err ==> r == Err::<AppPath, PathError>(PathError::NoLocalDataDir),
{
    let local_data = local_data_dir();
    let ghost d = local_data;
    let r = hatena_url_cache_file_path_in(local_data);
    assert(placed_under(d, seq![HATENA_SYNC_APP_DIR_NAME@, CACHE_DIR_NAME@, URL_CACHE_FILE_NAME@], r));
    r
}

/// The data file, under its directory.
pub const DATA_FILE_NAME: &'static str = "repos.json";

/// The directory of a local checkout of the data repository, beside the
/// workspace.
pub const LOCAL_DATA_REPO_DIR_NAME: &'static str = "own-repos-curator-data";

impl crate::model::RepoData {
    /// The data file, `own-repos-curator/data/repos.json`, under the local data directory `local_data`; no path
    /// when there is none.
    pub fn data_file_path_in(local_data: Option<std::path::PathBuf>) -> (r: Result<AppPath, PathError>)
        ensures
            placed_under(local_data, seq![APP_DIR_NAME@, DATA_DIR_NAME@, DATA_FILE_NAME@], r),
    {
        under_local_data(local_data, three(APP_DIR_NAME, DATA_DIR_NAME, DATA_FILE_NAME))
    }

    /// The data file, `own-repos-curator/data/repos.json`, under the platform's local data directory; no path when the
    /// platform has none.
    pub fn data_file_path() -> (r: Result<AppPath, PathError>)
        ensures
            placed_somewhere(seq![APP_DIR_NAME@, DATA_DIR_NAME@, DATA_FILE_NAME@], r),
            r matches Ok(p) ==> p.parts.deep_view() == seq![APP_DIR_NAME@, DATA_DIR_NAME@, DATA_FILE_NAME@],
            r is Err ==> r == Err::<AppPath, PathError>(PathError::NoLocalDataDir),
    {
        let local_data = local_data_dir();
        let ghost d = local_data;
        let r = Self::data_file_path_in(local_data);
        assert(placed_under(d, seq![APP_DIR_NAME@, DATA_DIR_NAME@, DATA_FILE_NAME@], r));
        r
    }
}

/// Where a copy of data just written goes: `repos.json` in the data
/// repository checkout beside the workspace, when the data went to the
/// primary data file, the workspace has a parent directory and the
/// checkout exists there; otherwise nowhere.
pub fn maybe_copy_json_to_local_data_repo(
    wrote_primary_data_file: bool,
    workspace_parent: Option<std::path::PathBuf>,
    data_repo_dir_exists: bool,
) -> (r: Option<AppPath>)
    ensures
        wrote_primary_data_file && workspace_parent is Some && data_repo_dir_exists ==> (r matches Some(p)
            && p.base == workspace_parent.unwrap() && p.parts.deep_view() == seq![
            LOCAL_DATA_REPO_DIR_NAME@,
            DATA_FILE_NAME@,
        ]),
        !(wrote_primary_data_file && workspace_parent is Some && data_repo_dir_exists) ==> r is None,
{
    if !wrote_primary_data_file {
        return None;
    }
    let base = match workspace_parent {
        Some(b) => b,
        None => return None,
    };
    if !data_repo_dir_exists {
        return None;
    }
    Some(AppPath { base, parts: two(LOCAL_DATA_REPO_DIR_NAME, DATA_FILE_NAME) })
}

} // verus!
