//! The background jobs' bookkeeping: which job runs, how it is labelled, and
//! the status lines their results produce.
use crate::json_auto_push::AutoPushOutcome;
use crate::strings::append_str;
use vstd::prelude::*;

verus! {

/// A background job, by what started it.
#[derive(Debug, Clone, Copy, PartialEq, Eq, Structural)]
pub enum SyncProgressKind {
    StartupGithub,
    ManualGithub,
    StartupAutoJsonPush,
    ManualJsonPush,
}

impl SyncProgressKind {
    /// The title of the progress window.
    pub fn title(self) -> (r: &'static str)
        ensures
            r@ == match self {
                SyncProgressKind::StartupGithub => "起動時GitHub同期"@,
                SyncProgressKind::ManualGithub => "GitHub同期"@,
                SyncProgressKind::StartupAutoJsonPush => "起動時JSON自動push"@,
                SyncProgressKind::ManualJsonPush => "JSON手動push"@,
            },
    {
        match self {
            SyncProgressKind::StartupGithub => "起動時GitHub同期",
            SyncProgressKind::ManualGithub => "GitHub同期",
            SyncProgressKind::StartupAutoJsonPush => "起動時JSON自動push",
            SyncProgressKind::ManualJsonPush => "JSON手動push",
        }
    }

    /// The status line while the job runs.
    pub fn activity_label(self) -> (r: &'static str)
        ensures
            r@ == match self {
                SyncProgressKind::StartupGithub => "起動時GitHub同期をバックグラウンド実行中"@,
                SyncProgressKind::ManualGithub => "GitHub同期をバックグラウンド実行中"@,
                SyncProgressKind::StartupAutoJsonPush => "起動時JSON自動pushをバックグラウンド実行中"@,
                SyncProgressKind::ManualJsonPush => "JSON手動pushをバックグラウンド実行中"@,
            },
    {
        match self {
            SyncProgressKind::StartupGithub => "起動時GitHub同期をバックグラウンド実行中",
            SyncProgressKind::ManualGithub => "GitHub同期をバックグラウンド実行中",
            SyncProgressKind::StartupAutoJsonPush => "起動時JSON自動pushをバックグラウンド実行中",
            SyncProgressKind::ManualJsonPush => "JSON手動pushをバックグラウンド実行中",
        }
    }
}

#[verifier::external_type_specification]
#[verifier::external_body]
pub struct ExInstant(std::time::Instant);

/// `Instant::now`: the current instant. Nothing is stated of it.
#[verifier::external_body]
fn instant_now() -> (r: std::time::Instant) {
    std::time::Instant::now()
}

/// `Instant::elapsed` in whole seconds (`Duration::as_secs`). Nothing is
/// stated of it: it depends on the clock.
#[verifier::external_body]
fn elapsed_secs(start: &std::time::Instant) -> (r: u64) {
    start.elapsed().as_secs()
}

/// What the progress window shows.
#[derive(Debug, Clone, PartialEq, Eq)]
pub struct SyncProgressState {
    pub title: String,
    pub phase: String,
    pub elapsed_secs: u64,
}

/// A running job: what it is, what it reports doing, and when it started.
pub struct SyncProgressTracker {
    pub kind: SyncProgressKind,
    pub phase: String,
    pub started_at: std::time::Instant,
}

/// The progress window for a job of kind `kind` in phase `phase` that has
/// run `elapsed_secs` whole seconds: none in its first second.
pub open spec fn progress_state_spec(kind: SyncProgressKind, phase: Seq<char>, elapsed_secs: u64, r: Option<
    SyncProgressState,
>) -> bool {
    if elapsed_secs < 1 {
        r is None
    } else {
        r matches Some(s) && s.title@ == match kind {
            SyncProgressKind::StartupGithub => "起動時GitHub同期"@,
            SyncProgressKind::ManualGithub => "GitHub同期"@,
            SyncProgressKind::StartupAutoJsonPush => "起動時JSON自動push"@,
            SyncProgressKind::ManualJsonPush => "JSON手動push"@,
        } && s.phase@ == phase && s.elapsed_secs == elapsed_secs
    }
}

impl SyncProgressTracker {
    /// A job of kind `kind` starting now in phase `phase`.
    pub fn new(kind: SyncProgressKind, phase: String) -> (r: SyncProgressTracker)
        ensures
            r.kind == kind,
            r.phase@ == phase@,
    {
        SyncProgressTracker { kind, phase, started_at: instant_now() }
    }

    /// The kind of job.
    pub fn kind(&self) -> (r: SyncProgressKind)
        ensures
            r == self.kind,
    {
        self.kind
    }

    /// Records what the job reports doing.
    pub fn update_phase(&mut self, phase: String)
        ensures
            final(self).phase@ == phase@,
            final(self).kind == old(self).kind,
    {
        self.phase = phase;
    }

    /// The status line: the spinner frame in brackets, then the job's label.
    pub fn activity_label(&self, spinner: &str) -> (r: String)
        ensures
            r@ == "["@ + spinner@ + "] "@ + self.kind.activity_label_spec(),
    {
        let mut s = "[".to_owned();
        append_str(&mut s, spinner);
        append_str(&mut s, "] ");
        append_str(&mut s, self.kind.activity_label());
        s
    }

    /// The progress window after `elapsed_secs` whole seconds of running
    /// (see `progress_state_spec`).
    pub fn state_at(&self, elapsed_secs: u64) -> (r: Option<SyncProgressState>)
        ensures
            progress_state_spec(self.kind, self.phase@, elapsed_secs, r),
    {
        if elapsed_secs < 1 {
            return None;
        }
        Some(SyncProgressState {
            title: self.kind.title().to_owned(),
            phase: self.phase.clone(),
            elapsed_secs,
        })
    }

    /// The progress window now: none in the job's first second.
    pub fn state(&self) -> (r: Option<SyncProgressState>)
        ensures
            exists|e: u64| progress_state_spec(self.kind, self.phase@, e, r),
    {
        let e = elapsed_secs(&self.started_at);
        self.state_at(e)
    }
}

impl SyncProgressKind {
    /// The status line while the job runs.
    pub open spec fn activity_label_spec(self) -> Seq<char> {
        match self {
            SyncProgressKind::StartupGithub => "起動時GitHub同期をバックグラウンド実行中"@,
            SyncProgressKind::ManualGithub => "GitHub同期をバックグラウンド実行中"@,
            SyncProgressKind::StartupAutoJsonPush => "起動時JSON自動pushをバックグラウンド実行中"@,
            SyncProgressKind::ManualJsonPush => "JSON手動pushをバックグラウンド実行中"@,
        }
    }
}

/// Which JSON push runs: the daily one at start-up or one asked for.
#[derive(Debug, Clone, Copy, PartialEq, Eq, Structural)]
pub enum JsonPushKind {
    StartupAuto,
    Manual,
}

/// The progress kind of a JSON push.
pub fn json_push_progress_kind(kind: JsonPushKind) -> (r: SyncProgressKind)
    ensures
        r == match kind {
            JsonPushKind::StartupAuto => SyncProgressKind::StartupAutoJsonPush,
            JsonPushKind::Manual => SyncProgressKind::ManualJsonPush,
        },
{
    match kind {
        JsonPushKind::StartupAuto => SyncProgressKind::StartupAutoJsonPush,
        JsonPushKind::Manual => SyncProgressKind::ManualJsonPush,
    }
}

/// The value, or nothing when it is empty.
pub fn non_empty_string(value: String) -> (r: Option<String>)
    ensures
        value@.len() == 0 ==> r is None,
        value@.len() > 0 ==> (r matches Some(s) && s@ == value@),
{
    if value.as_str().is_empty() {
        None
    } else {
        Some(value)
    }
}

/// The name of a GitHub sync in status lines.
pub open spec fn github_sync_status_label_spec(kind: SyncProgressKind) -> Seq<char> {
    match kind {
        SyncProgressKind::StartupGithub => "起動時GitHub同期"@,
        _ => "GitHub同期"@,
    }
}

/// The name of a GitHub sync in status lines.
pub fn github_sync_status_label(kind: SyncProgressKind) -> (r: &'static str)
    ensures
        r@ == github_sync_status_label_spec(kind),
{
    match kind {
        SyncProgressKind::StartupGithub => "起動時GitHub同期",
        SyncProgressKind::ManualGithub => "GitHub同期",
        SyncProgressKind::StartupAutoJsonPush | SyncProgressKind::ManualJsonPush => "GitHub同期",
    }
}

/// The name of a GitHub sync in the debug log.
pub fn github_sync_debug_label(kind: SyncProgressKind) -> (r: &'static str)
    ensures
        r@ == match kind {
            SyncProgressKind::StartupGithub => "startup github sync"@,
            SyncProgressKind::ManualGithub => "manual github sync"@,
            _ => "github sync"@,
        },
{
    match kind {
        SyncProgressKind::StartupGithub => "startup github sync",
        SyncProgressKind::ManualGithub => "manual github sync",
        SyncProgressKind::StartupAutoJsonPush | SyncProgressKind::ManualJsonPush => "github sync",
    }
}

/// The name of a JSON push in status lines.
pub open spec fn json_push_status_label_spec(kind: JsonPushKind) -> Seq<char> {
    match kind {
        JsonPushKind::StartupAuto => "JSON自動push"@,
        JsonPushKind::Manual => "JSON手動push"@,
    }
}

/// The name of a JSON push in status lines.
pub fn json_push_status_label(kind: JsonPushKind) -> (r: &'static str)
    ensures
        r@ == json_push_status_label_spec(kind),
{
    match kind {
        JsonPushKind::StartupAuto => "JSON自動push",
        JsonPushKind::Manual => "JSON手動push",
    }
}

/// The name of a JSON push in the debug log.
pub open spec fn json_push_debug_label_spec(kind: JsonPushKind) -> Seq<char> {
    match kind {
        JsonPushKind::StartupAuto => "startup json auto push"@,
        JsonPushKind::Manual => "manual json push"@,
    }
}

/// The name of a JSON push in the debug log.
pub fn json_push_debug_label(kind: JsonPushKind) -> (r: &'static str)
    ensures
        r@ == json_push_debug_label_spec(kind),
{
    match kind {
        JsonPushKind::StartupAuto => "startup json auto push",
        JsonPushKind::Manual => "manual json push",
    }
}

/// The status line for a finished JSON push.
pub open spec fn json_push_status_spec(kind: JsonPushKind, outcome: AutoPushOutcome) -> Seq<char> {
    let label = json_push_status_label_spec(kind);
    match outcome {
        AutoPushOutcome::Disabled => label + ": repo未設定"@,
        AutoPushOutcome::SkippedToday { .. } => label + ": 本日は実行済み"@,
        AutoPushOutcome::UpToDate { .. } => label + ": 変更なし"@,
        AutoPushOutcome::Pushed { .. } => label + "完了"@,
    }
}

/// The status line for a finished JSON push.
pub fn json_push_status(kind: JsonPushKind, outcome: &AutoPushOutcome) -> (r: String)
    ensures
        r@ == json_push_status_spec(kind, *outcome),
{
    let mut s = json_push_status_label(kind).to_owned();
    match outcome {
        AutoPushOutcome::Disabled => append_str(&mut s, ": repo未設定"),
        AutoPushOutcome::SkippedToday { .. } => append_str(&mut s, ": 本日は実行済み"),
        AutoPushOutcome::UpToDate { .. } => append_str(&mut s, ": 変更なし"),
        AutoPushOutcome::Pushed { .. } => append_str(&mut s, "完了"),
    }
    s
}

/// The debug log line for a finished JSON push.
pub open spec fn json_push_debug_log_spec(kind: JsonPushKind, outcome: AutoPushOutcome) -> Seq<char> {
    let label = json_push_debug_label_spec(kind);
    match outcome {
        AutoPushOutcome::Disabled => label + " skipped: repo not configured"@,
        AutoPushOutcome::SkippedToday { date } => label + " skipped: already pushed on "@ + date@,
        AutoPushOutcome::UpToDate { repo, date } => label + " matched remote snapshot: repo="@ + repo@ + " date="@
            + date@,
        AutoPushOutcome::Pushed { repo, date, commit_id } => label + " succeeded: repo="@ + repo@ + " date="@
            + date@ + " commit="@ + commit_id@,
    }
}

/// The debug log line for a finished JSON push.
pub fn json_push_debug_log(kind: JsonPushKind, outcome: &AutoPushOutcome) -> (r: String)
    ensures
        r@ == json_push_debug_log_spec(kind, *outcome),
{
    let mut s = json_push_debug_label(kind).to_owned();
    match outcome {
        AutoPushOutcome::Disabled => append_str(&mut s, " skipped: repo not configured"),
        AutoPushOutcome::SkippedToday { date } => {
            append_str(&mut s, " skipped: already pushed on ");
            append_str(&mut s, date.as_str());
        },
        AutoPushOutcome::UpToDate { repo, date } => {
            append_str(&mut s, " matched remote snapshot: repo=");
            append_str(&mut s, repo.as_str());
            append_str(&mut s, " date=");
            append_str(&mut s, date.as_str());
        },
        AutoPushOutcome::Pushed { repo, date, commit_id } => {
            append_str(&mut s, " succeeded: repo=");
            append_str(&mut s, repo.as_str());
            append_str(&mut s, " date=");
            append_str(&mut s, date.as_str());
            append_str(&mut s, " commit=");
            append_str(&mut s, commit_id.as_str());
        },
    }
    s
}

} // verus!
