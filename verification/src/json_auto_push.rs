//! The daily backup of `repos.json` to a GitHub repository: whether a push is
//! due, and the checks made on the managed clone's git output before one.
use crate::config::{lines_of, repo_ref_spec, split_lines, AppConfig, GitHubRepoRef};
use crate::model::{repo_views, RepoData};
use crate::strings::{
    append_str, chars_ends_with, chars_of, chars_starts_with, ends_with, starts_with, str_eq,
    string_from_chars, sub_chars, trim, trim_str,
};
use vstd::prelude::*;

verus! {

/// The name of the snapshot file in the backup repository.
pub const SNAPSHOT_FILE_NAME: &'static str = "repos.json";

/// What a push attempt came to.
#[derive(Debug, Clone, PartialEq, Eq)]
pub enum AutoPushOutcome {
    /// No backup repository is configured.
    Disabled,
    /// A snapshot was already pushed on this date.
    SkippedToday { date: String },
    /// The repository already holds this snapshot.
    UpToDate { repo: String, date: String },
    /// A new snapshot was committed and pushed.
    Pushed { repo: String, date: String, commit_id: String },
}

/// `s` without its trailing `/` characters.
pub open spec fn trim_end_slashes(s: Seq<char>) -> Seq<char>
    decreases s.len(),
{
    if s.len() > 0 && s.last() == '/' {
        trim_end_slashes(s.drop_last())
    } else {
        s
    }
}

/// `s` without one `.git` at its end, if it has one.
pub open spec fn strip_git_suffix(s: Seq<char>) -> Seq<char> {
    if ends_with(s, ".git"@) {
        s.take(s.len() - ".git"@.len())
    } else {
        s
    }
}

/// The `owner/repo` that a remote URL designates: after trimming, dropping
/// trailing slashes and one `.git`, the rest of a GitHub HTTPS, HTTP, SCP-like
/// or SSH URL, or the text itself when it is a valid `owner/repo`.
pub open spec fn normalize_origin_spec(value: Seq<char>) -> Option<Seq<char>> {
    let w = strip_git_suffix(trim_end_slashes(trim(value)));
    if starts_with(w, "https://github.com/"@) {
        Some(w.skip("https://github.com/"@.len() as int))
    } else if starts_with(w, "http://github.com/"@) {
        Some(w.skip("http://github.com/"@.len() as int))
    } else if starts_with(w, "git@github.com:"@) {
        Some(w.skip("git@github.com:"@.len() as int))
    } else if starts_with(w, "ssh://git@github.com/"@) {
        Some(w.skip("ssh://git@github.com/"@.len() as int))
    } else {
        match repo_ref_spec(w) {
            Ok(r) => Some(r),
            Err(_) => None,
        }
    }
}

/// The rest of `w` after `prefix`, when `w` begins with it.
fn strip_prefix_chars(w: &Vec<char>, prefix: &str) -> (r: Option<String>)
    ensures
        r matches Some(s) ==> starts_with(w@, prefix@) && s@ == w@.skip(prefix@.len() as int),
        r is None ==> !starts_with(w@, prefix@),
{
    let p = chars_of(prefix);
    if chars_starts_with(w, &p) {
        let rest = sub_chars(w, p.len(), w.len());
        assert(rest@ =~= w@.skip(prefix@.len() as int));
        Some(string_from_chars(&rest))
    } else {
        None
    }
}

/// The `owner/repo` that a git remote URL designates (see
/// `normalize_origin_spec`).
pub fn normalize_origin_url(value: &str) -> (r: Option<String>)
    ensures
        r matches Some(s) ==> normalize_origin_spec(value@) == Some(s@),
        r is None ==> normalize_origin_spec(value@) is None,
{
    let mut w = chars_of(trim_str(value).as_str());
    while w.len() > 0 && w[w.len() - 1] == '/'
        invariant
            trim_end_slashes(w@) == trim_end_slashes(trim(value@)),
        decreases w.len(),
    {
        assert(w@.drop_last() == w@.take(w@.len() - 1));
        w.pop();
    }
    let git = chars_of(".git");
    if chars_ends_with(&w, &git) {
        w = sub_chars(&w, 0, w.len() - git.len());
    }
    assert(w@ =~= strip_git_suffix(trim_end_slashes(trim(value@))));
    if let Some(rest) = strip_prefix_chars(&w, "https://github.com/") {
        return Some(rest);
    }
    if let Some(rest) = strip_prefix_chars(&w, "http://github.com/") {
        return Some(rest);
    }
    if let Some(rest) = strip_prefix_chars(&w, "git@github.com:") {
        return Some(rest);
    }
    if let Some(rest) = strip_prefix_chars(&w, "ssh://git@github.com/") {
        return Some(rest);
    }
    let text = string_from_chars(&w);
    match GitHubRepoRef::parse(text.as_str()) {
        Ok(repo) => Some(repo.as_str().to_owned()),
        Err(_) => None,
    }
}

/// Why the managed clone is not fit for an automatic push.
#[derive(Debug, Clone, PartialEq, Eq)]
pub enum PushCheckError {
    /// The clone's `origin` URL is not one of a GitHub repository.
    UnsupportedOrigin { origin: String },
    /// The clone's `origin` is another repository.
    OriginMismatch { expected: String, found: String },
    /// The work tree has uncommitted changes.
    LocalChanges,
    /// Files other than the snapshot are staged.
    UnexpectedStaged { files: Vec<String> },
}

/// The names joined with `", "` between them.
pub open spec fn join_comma(names: Seq<Seq<char>>) -> Seq<char>
    decreases names.len(),
{
    if names.len() == 0 {
        Seq::empty()
    } else if names.len() == 1 {
        names[0]
    } else {
        join_comma(names.drop_last()) + ", "@ + names.last()
    }
}

/// The text of a refusal.
pub open spec fn push_check_message(e: PushCheckError) -> Seq<char> {
    match e {
        PushCheckError::UnsupportedOrigin { origin } => "unsupported origin URL format: "@ + origin@,
        PushCheckError::OriginMismatch { expected, found } => "managed backup repo origin mismatch: expected "@
            + expected@ + " but found "@ + found@,
        PushCheckError::LocalChanges => "managed backup repo has local changes; refusing automatic push"@,
        PushCheckError::UnexpectedStaged { files } => "unexpected staged files in managed backup repo: "@
            + join_comma(files.deep_view()),
    }
}

impl PushCheckError {
    /// The text of the refusal.
    pub fn message(&self) -> (r: String)
        ensures
            r@ == push_check_message(*self),
    {
        match self {
            PushCheckError::UnsupportedOrigin { origin } => {
                let mut s = "unsupported origin URL format: ".to_owned();
                append_str(&mut s, origin.as_str());
                s
            },
            PushCheckError::OriginMismatch { expected, found } => {
                let mut s = "managed backup repo origin mismatch: expected ".to_owned();
                append_str(&mut s, expected.as_str());
                append_str(&mut s, " but found ");
                append_str(&mut s, found.as_str());
                s
            },
            PushCheckError::LocalChanges => "managed backup repo has local changes; refusing automatic push".to_owned(),
            PushCheckError::UnexpectedStaged { files } => {
                let mut s = "unexpected staged files in managed backup repo: ".to_owned();
                let ghost prefix = s@;
                let ghost names = files.deep_view();
                let mut i: usize = 0;
                assert(names.take(0) =~= Seq::<Seq<char>>::empty());
                while i < files.len()
                    invariant
                        i <= files.len(),
                        names == files.deep_view(),
                        s@ == prefix + join_comma(names.take(i as int)),
                    decreases files.len() - i,
                {
                    assert(names.take(i + 1).drop_last() =~= names.take(i as int));
                    assert(names[i as int] == files[i as int]@);
                    if i > 0 {
                        append_str(&mut s, ", ");
                    } else {
                        assert(names.take(i + 1) =~= seq![names[0]]);
                    }
                    append_str(&mut s, files[i].as_str());
                    i = i + 1;
                }
                assert(names.take(i as int) =~= names);
                s
            },
        }
    }
}

/// Checks the clone's `origin` URL (as `git config --get remote.origin.url`
/// prints it, trimmed) against the configured backup repository.
pub fn ensure_remote_origin_matches(origin: &str, repo: &GitHubRepoRef) -> (r: Result<(), PushCheckError>)
    ensures
        match normalize_origin_spec(origin@) {
            None => (r matches Err(PushCheckError::UnsupportedOrigin { origin: o }) && o@ == origin@),
            Some(n) => if n == repo@ {
                r is Ok
            } else {
                (r matches Err(PushCheckError::OriginMismatch { expected: e, found: f }) && e@ == repo@ && f@
                    == origin@)
            },
        },
{
    match normalize_origin_url(origin) {
        None => Err(PushCheckError::UnsupportedOrigin { origin: origin.to_owned() }),
        Some(n) => {
            if str_eq(n.as_str(), repo.as_str()) {
                Ok(())
            } else {
                Err(PushCheckError::OriginMismatch { expected: repo.as_str().to_owned(), found: origin.to_owned() })
            }
        },
    }
}

/// Checks that `git status --porcelain` reported nothing: the work tree is
/// clean.
pub fn ensure_clean_worktree(status: &str) -> (r: Result<(), PushCheckError>)
    ensures
        trim(status@).len() == 0 ==> r is Ok,
        trim(status@).len() > 0 ==> r == Err::<(), PushCheckError>(PushCheckError::LocalChanges),
{
    if trim_str(status).as_str().is_empty() {
        Ok(())
    } else {
        Err(PushCheckError::LocalChanges)
    }
}

/// Whether `git status --porcelain -- <snapshot>` reported a change.
pub fn path_has_changes(status: &str) -> (r: bool)
    ensures
        r == (trim(status@).len() > 0),
{
    !trim_str(status).as_str().is_empty()
}

/// The non-blank lines, trimmed.
pub open spec fn nonblank_trimmed(lines: Seq<Seq<char>>) -> Seq<Seq<char>>
    decreases lines.len(),
{
    if lines.len() == 0 {
        Seq::empty()
    } else if trim(lines.last()).len() > 0 {
        nonblank_trimmed(lines.drop_last()).push(trim(lines.last()))
    } else {
        nonblank_trimmed(lines.drop_last())
    }
}

/// The staged files that `git diff --cached --name-only` lists.
pub open spec fn staged_files(output: Seq<char>) -> Seq<Seq<char>> {
    nonblank_trimmed(lines_of(output))
}

/// Checks that the snapshot file is the only staged file.
pub fn ensure_only_snapshot_is_staged(staged: &str, snapshot_file: &str) -> (r: Result<(), PushCheckError>)
    ensures
        staged_files(staged@) == seq![snapshot_file@] ==> r is Ok,
        staged_files(staged@) != seq![snapshot_file@] ==> (r matches Err(
            PushCheckError::UnexpectedStaged { files },
        ) && files.deep_view() == staged_files(staged@)),
{
    let lines = split_lines(&chars_of(staged));
    let mut files: Vec<String> = Vec::new();
    let mut i: usize = 0;
    let ghost ls = lines.deep_view();
    assert(ls.take(0) =~= Seq::<Seq<char>>::empty());
    while i < lines.len()
        invariant
            i <= lines.len(),
            ls == lines.deep_view(),
            files.deep_view() == nonblank_trimmed(ls.take(i as int)),
        decreases lines.len() - i,
    {
        assert(ls.take(i + 1).drop_last() =~= ls.take(i as int));
        let line = string_from_chars(&lines[i]);
        assert(line@ == ls[i as int]);
        let t = trim_str(line.as_str());
        if !t.as_str().is_empty() {
            let ghost before = files.deep_view();
            files.push(t);
            assert(files.deep_view() =~= before.push(trim(ls[i as int])));
        }
        i = i + 1;
    }
    assert(ls.take(i as int) =~= ls);
    if files.len() == 1 && str_eq(files[0].as_str(), snapshot_file) {
        assert(files.deep_view() =~= seq![snapshot_file@]);
        Ok(())
    } else {
        assert(files.len() == 1 ==> files.deep_view()[0] == files[0]@);
        Err(PushCheckError::UnexpectedStaged { files })
    }
}

/// The message of a snapshot commit.
pub open spec fn commit_message_spec(today: Seq<char>) -> Seq<char> {
    "chore: update "@ + SNAPSHOT_FILE_NAME@ + " ("@ + today + ")"@
}

/// The message of a snapshot commit: `chore: update repos.json (<date>)`.
pub fn commit_message(today: &str) -> (r: String)
    ensures
        r@ == commit_message_spec(today@),
{
    let mut s = "chore: update ".to_owned();
    append_str(&mut s, SNAPSHOT_FILE_NAME);
    append_str(&mut s, " (");
    append_str(&mut s, today);
    append_str(&mut s, ")");
    s
}

/// What the daily push is to do.
#[derive(Debug, Clone, PartialEq, Eq)]
pub enum PushPlan {
    /// No backup repository is configured.
    Disabled,
    /// A snapshot was already pushed today.
    SkippedToday { date: String },
    /// Push a snapshot dated `date` to `repo`.
    Push { repo: GitHubRepoRef, date: String },
}

/// The daily push decided for `data` under `config` on `today`: nothing
/// without a configured repository, nothing again on a date that already
/// saw a push, else a push dated `today`.
pub open spec fn json_push_planned(data: RepoData, config: AppConfig, today: Seq<char>, r: PushPlan) -> bool {
    match config.json_auto_push.repo {
        None => r == PushPlan::Disabled,
        Some(repo) => if data.meta.last_json_commit_push_date@ == today {
            r matches PushPlan::SkippedToday { date } && date@ == today
        } else {
            r matches PushPlan::Push { repo: p, date } && p@ == repo@ && date@ == today
        },
    }
}

/// Decides the daily push (see `json_push_planned`).
pub fn plan_json_push(data: &RepoData, config: &AppConfig, today: String) -> (r: PushPlan)
    ensures
        json_push_planned(*data, *config, today@, r),
        config.json_auto_push.repo is None ==> r == PushPlan::Disabled,
        config.json_auto_push.repo matches Some(repo) ==> if data.meta.last_json_commit_push_date@ == today@ {
            (r matches PushPlan::SkippedToday { date } && date@ == today@)
        } else {
            (r matches PushPlan::Push { repo: p, date } && p@ == repo@ && date@ == today@)
        },
{
    match &config.json_auto_push.repo {
        None => PushPlan::Disabled,
        Some(repo) => {
            if str_eq(data.meta.last_json_commit_push_date.as_str(), today.as_str()) {
                PushPlan::SkippedToday { date: today }
            } else {
                PushPlan::Push { repo: repo.duplicate(), date: today }
            }
        },
    }
}

/// Decides a push asked for by hand: nothing without a configured
/// repository, else a push dated `today`, whether or not one was already
/// made that day.
pub fn plan_manual_json_push(config: &AppConfig, today: String) -> (r: PushPlan)
    ensures
        config.json_auto_push.repo is None ==> r == PushPlan::Disabled,
        config.json_auto_push.repo matches Some(repo) ==> (r matches PushPlan::Push { repo: p, date } && p@ == repo@
            && date@ == today@),
{
    match &config.json_auto_push.repo {
        None => PushPlan::Disabled,
        Some(repo) => PushPlan::Push { repo: repo.duplicate(), date: today },
    }
}

/// The data as it is pushed: a copy that records `today` as the date of the
/// last push.
pub fn snapshot_for_push(data: &RepoData, today: &str) -> (r: RepoData)
    ensures
        r.meta.last_json_commit_push_date@ == today@,
        r.meta.github_desc_updated_at@ == data.meta.github_desc_updated_at@,
        r.meta.owner@ == data.meta.owner@,
        r.registered_tags.deep_view() == data.registered_tags.deep_view(),
        r.registered_groups.deep_view() == data.registered_groups.deep_view(),
        repo_views(r.repos@) == repo_views(data.repos@),
{
    let mut snapshot = data.duplicate();
    snapshot.meta.last_json_commit_push_date = today.to_owned();
    snapshot
}

/// The daily backup happens at most once a day: the snapshot that a push
/// sends records the push's date, so deciding again on it that day skips.
pub proof fn law_push_once_a_day(
    data: RepoData,
    config: AppConfig,
    today: Seq<char>,
    first: PushPlan,
    snapshot: RepoData,
    second: PushPlan,
)
    requires
        json_push_planned(data, config, today, first),
        first is Push,
        snapshot.meta.last_json_commit_push_date@ == today,
        json_push_planned(snapshot, config, today, second),
    ensures
        second matches PushPlan::SkippedToday { date } && date@ == today,
{
}

} // verus!
