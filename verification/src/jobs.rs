//! The background jobs of the curator as a state machine: a GitHub sync and
//! a JSON push, each either idle or running with its progress. The caller
//! runs the workers and hands their events in.
use crate::background::{json_push_progress_kind, JsonPushKind, SyncProgressKind, SyncProgressState, SyncProgressTracker};
use crate::github::FetchedRepo;
use crate::json_auto_push::AutoPushOutcome;
use vstd::prelude::*;

verus! {

/// The frames of the activity spinner, in turn.
pub const SPINNER_FRAMES: [&'static str; 4] = ["-", "\\", "|", "/"];

/// The spinner frame `i`.
pub open spec fn spinner_frame_spec(i: int) -> Seq<char> {
    if i == 0 {
        "-"@
    } else if i == 1 {
        "\\"@
    } else if i == 2 {
        "|"@
    } else {
        "/"@
    }
}

/// What a worker reports: progress, its result, or that it went away.
pub enum WorkerEvent<T> {
    Progress(String),
    Finished(Result<T, String>),
    Disconnected,
}

/// What a JSON push worker hands back: which push it was, what came of it,
/// and the push date the data holds afterwards, when it holds one.
pub struct JsonPushWorkerResult {
    pub kind: JsonPushKind,
    pub outcome: AutoPushOutcome,
    pub last_json_commit_push_date: Option<String>,
}

/// The background jobs: a GitHub sync runs while it has a progress tracker,
/// a JSON push likewise; the kind of the last JSON push is kept until it is
/// cleared.
pub struct StartupJobs {
    pub github_progress: Option<SyncProgressTracker>,
    pub json_push_kind: Option<JsonPushKind>,
    pub json_push_progress: Option<SyncProgressTracker>,
    pub spinner_frame: usize,
}

/// The status line of a running job: the spinner frame in brackets, then
/// the job's label.
pub open spec fn job_label(t: SyncProgressTracker, frame: int) -> Seq<char> {
    "["@ + spinner_frame_spec(frame) + "] "@ + t.kind.activity_label_spec()
}

impl StartupJobs {
    /// The spinner is on one of its frames.
    pub open spec fn wf(&self) -> bool {
        self.spinner_frame < 4
    }

    /// Whether a job runs.
    pub open spec fn busy(&self) -> bool {
        self.github_progress is Some || self.json_push_progress is Some
    }

    /// No job runs.
    pub fn idle() -> (r: StartupJobs)
        ensures
            r.github_progress is None,
            r.json_push_kind is None,
            r.json_push_progress is None,
            r.spinner_frame == 0,
    {
        StartupJobs { github_progress: None, json_push_kind: None, json_push_progress: None, spinner_frame: 0 }
    }

    /// The jobs at start-up: the start-up GitHub sync runs.
    pub fn start() -> (r: StartupJobs)
        ensures
            r.github_progress matches Some(t) && t.kind == SyncProgressKind::StartupGithub && t.phase@
                == "GitHub同期を準備中"@,
            r.json_push_kind is None,
            r.json_push_progress is None,
            r.spinner_frame == 0,
    {
        let mut jobs = StartupJobs::idle();
        jobs.spawn_github_sync(SyncProgressKind::StartupGithub);
        jobs
    }

    /// The status line while a job runs (the GitHub sync first), none when
    /// idle.
    pub fn activity_label(&self) -> (r: Option<String>)
        requires
            self.wf(),
        ensures
            match self.github_progress {
                Some(t) => r matches Some(s) && s@ == job_label(t, self.spinner_frame as int),
                None => match self.json_push_progress {
                    Some(t) => r matches Some(s) && s@ == job_label(t, self.spinner_frame as int),
                    None => r is None,
                },
            },
    {
        let frame = SPINNER_FRAMES[self.spinner_frame];
        proof {
            reveal_strlit("-");
            reveal_strlit("\\");
            reveal_strlit("|");
            reveal_strlit("/");
        }
        assert(frame@ == spinner_frame_spec(self.spinner_frame as int));
        match &self.github_progress {
            Some(t) => Some(t.activity_label(frame)),
            None => match &self.json_push_progress {
                Some(t) => Some(t.activity_label(frame)),
                None => None,
            },
        }
    }

    /// The status line: the running job's label (see `activity_label`)
    /// before the status message, or the status message alone when idle.
    pub fn status_line(&self, status: &str) -> (r: String)
        requires
            self.wf(),
        ensures
            match self.github_progress {
                Some(t) => r@ == job_label(t, self.spinner_frame as int) + " "@ + status@,
                None => match self.json_push_progress {
                    Some(t) => r@ == job_label(t, self.spinner_frame as int) + " "@ + status@,
                    None => r@ == status@,
                },
            },
    {
        match self.activity_label() {
            Some(label) => crate::strings::cat3(label.as_str(), " ", status),
            None => status.to_owned(),
        }
    }

    /// The progress window of the running job (the GitHub sync first):
    /// none when idle or in the job's first second.
    pub fn sync_progress_state(&self) -> (r: Option<SyncProgressState>)
        ensures
            match self.github_progress {
                Some(t) => exists|e: u64| crate::background::progress_state_spec(t.kind, t.phase@, e, r),
                None => match self.json_push_progress {
                    Some(t) => exists|e: u64| crate::background::progress_state_spec(t.kind, t.phase@, e, r),
                    None => r is None,
                },
            },
    {
        match &self.github_progress {
            Some(t) => t.state(),
            None => match &self.json_push_progress {
                Some(t) => t.state(),
                None => None,
            },
        }
    }

    /// Turns the spinner while a job runs; back to its first frame when
    /// idle.
    pub fn advance_spinner(&mut self)
        requires
            old(self).wf(),
        ensures
            final(self).wf(),
            final(self).spinner_frame == if old(self).busy() {
                (old(self).spinner_frame + 1) % 4
            } else {
                0
            },
            *final(self) == (StartupJobs { spinner_frame: final(self).spinner_frame, ..*old(self) }),
    {
        if self.github_progress.is_none() && self.json_push_progress.is_none() {
            self.spinner_frame = 0;
            return;
        }
        self.spinner_frame = (self.spinner_frame + 1) % 4;
    }

    /// Marks a GitHub sync of kind `kind` as running.
    fn spawn_github_sync(&mut self, kind: SyncProgressKind)
        ensures
            final(self).github_progress matches Some(t) && t.kind == kind && t.phase@ == "GitHub同期を準備中"@,
            final(self).json_push_kind == old(self).json_push_kind,
            final(self).json_push_progress == old(self).json_push_progress,
            final(self).spinner_frame == old(self).spinner_frame,
    {
        self.github_progress = Some(SyncProgressTracker::new(kind, "GitHub同期を準備中".to_owned()));
    }

    /// Marks a JSON push of kind `kind` as running.
    pub fn start_json_push(&mut self, kind: JsonPushKind)
        ensures
            final(self).json_push_kind == Some(kind),
            final(self).json_push_progress matches Some(t) && t.kind == match kind {
                JsonPushKind::StartupAuto => SyncProgressKind::StartupAutoJsonPush,
                JsonPushKind::Manual => SyncProgressKind::ManualJsonPush,
            } && t.phase@ == "JSON pushを準備中"@,
            final(self).github_progress == old(self).github_progress,
            final(self).spinner_frame == old(self).spinner_frame,
    {
        self.json_push_kind = Some(kind);
        self.json_push_progress = Some(
            SyncProgressTracker::new(json_push_progress_kind(kind), "JSON pushを準備中".to_owned()),
        );
    }

    /// Marks the daily JSON push after the start-up sync as running.
    pub fn start_startup_json_auto_push(&mut self)
        ensures
            final(self).json_push_kind == Some(JsonPushKind::StartupAuto),
            final(self).json_push_progress matches Some(t) && t.kind == SyncProgressKind::StartupAutoJsonPush
                && t.phase@ == "JSON pushを準備中"@,
            final(self).github_progress == old(self).github_progress,
            final(self).spinner_frame == old(self).spinner_frame,
    {
        self.start_json_push(JsonPushKind::StartupAuto);
    }

    /// Starts a GitHub sync asked for by hand, unless a job runs.
    pub fn try_start_manual_github_sync(&mut self) -> (r: Result<(), &'static str>)
        ensures
            old(self).busy() ==> (r matches Err(m) && m@ == "起動時バックグラウンド処理の完了後に再実行してください"@),
            old(self).busy() ==> *final(self) == *old(self),
            !old(self).busy() ==> r is Ok,
            !old(self).busy() ==> (final(self).github_progress matches Some(t) && t.kind
                == SyncProgressKind::ManualGithub && t.phase@ == "GitHub同期を準備中"@),
            !old(self).busy() ==> final(self).json_push_kind == old(self).json_push_kind
                && final(self).json_push_progress == old(self).json_push_progress && final(self).spinner_frame
                == old(self).spinner_frame,
    {
        if self.github_progress.is_some() || self.json_push_progress.is_some() {
            return Err("起動時バックグラウンド処理の完了後に再実行してください");
        }
        self.spawn_github_sync(SyncProgressKind::ManualGithub);
        Ok(())
    }

    /// Starts a JSON push asked for by hand, unless the GitHub sync or a
    /// JSON push runs.
    pub fn try_start_manual_json_push(&mut self) -> (r: Result<(), &'static str>)
        ensures
            old(self).github_progress is Some ==> (r matches Err(m) && m@
                == "起動時バックグラウンド処理の完了後に再実行してください"@),
            old(self).github_progress is None && old(self).json_push_progress is Some ==> (r matches Err(m) && m@
                == "JSON pushはすでに実行中です"@),
            old(self).busy() ==> *final(self) == *old(self),
            !old(self).busy() ==> r is Ok && final(self).json_push_kind == Some(JsonPushKind::Manual),
            !old(self).busy() ==> (final(self).json_push_progress matches Some(t) && t.kind
                == SyncProgressKind::ManualJsonPush && t.phase@ == "JSON pushを準備中"@),
            !old(self).busy() ==> final(self).github_progress == old(self).github_progress
                && final(self).spinner_frame == old(self).spinner_frame,
    {
        if self.github_progress.is_some() {
            return Err("起動時バックグラウンド処理の完了後に再実行してください");
        }
        if self.json_push_progress.is_some() {
            return Err("JSON pushはすでに実行中です");
        }
        self.start_json_push(JsonPushKind::Manual);
        Ok(())
    }

    /// The kind of the running GitHub sync, the start-up one when none is
    /// known.
    pub fn github_progress_kind(&self) -> (r: SyncProgressKind)
        ensures
            r == match self.github_progress {
                Some(t) => t.kind,
                None => SyncProgressKind::StartupGithub,
            },
    {
        match &self.github_progress {
            Some(t) => t.kind(),
            None => SyncProgressKind::StartupGithub,
        }
    }

    /// Marks the GitHub sync as done.
    pub fn clear_github_sync(&mut self)
        ensures
            *final(self) == (StartupJobs { github_progress: None, ..*old(self) }),
    {
        self.github_progress = None;
    }

    /// Marks the JSON push as done, keeping its kind.
    pub fn clear_json_push_receiver(&mut self)
        ensures
            *final(self) == (StartupJobs { json_push_progress: None, ..*old(self) }),
    {
        self.json_push_progress = None;
    }

    /// The kind of the last JSON push, the daily one when none is known.
    pub fn json_push_kind_or_startup_auto(&self) -> (r: JsonPushKind)
        ensures
            r == match self.json_push_kind {
                Some(k) => k,
                None => JsonPushKind::StartupAuto,
            },
    {
        match self.json_push_kind {
            Some(k) => k,
            None => JsonPushKind::StartupAuto,
        }
    }

    /// Forgets the kind of the last JSON push.
    pub fn clear_json_push_kind(&mut self)
        ensures
            *final(self) == (StartupJobs { json_push_kind: None, ..*old(self) }),
    {
        self.json_push_kind = None;
    }

    /// Takes in an event of the GitHub sync worker. Progress updates the
    /// phase and gives nothing; the result, or the worker's going away, ends
    /// the sync and is given back with the sync's kind. Nothing happens when
    /// no sync runs.
    pub fn on_github_sync_event(&mut self, event: WorkerEvent<Vec<FetchedRepo>>) -> (r: Option<
        (SyncProgressKind, Result<Vec<FetchedRepo>, String>),
    >)
        ensures
            match old(self).github_progress {
                None => r is None && *final(self) == *old(self),
                Some(t) => match event {
                    WorkerEvent::Progress(m) => {
                        &&& r is None
                        &&& final(self).github_progress matches Some(u) && u.kind == t.kind && u.phase@ == m@
                        &&& *final(self) == (StartupJobs { github_progress: final(self).github_progress, ..*old(self) })
                    },
                    WorkerEvent::Finished(res) => r == Some((t.kind, res)) && *final(self) == (StartupJobs {
                        github_progress: None,
                        ..*old(self)
                    }),
                    WorkerEvent::Disconnected => r matches Some((k, Err(e))) && k == t.kind && e@
                        == "github sync worker disconnected"@ && *final(self) == (StartupJobs {
                        github_progress: None,
                        ..*old(self)
                    }),
                },
            },
    {
        if self.github_progress.is_none() {
            return None;
        }
        match event {
            WorkerEvent::Progress(m) => {
                let mut t = self.github_progress.take().unwrap();
                t.update_phase(m);
                self.github_progress = Some(t);
                None
            },
            WorkerEvent::Finished(res) => {
                let kind = self.github_progress_kind();
                self.clear_github_sync();
                Some((kind, res))
            },
            WorkerEvent::Disconnected => {
                let kind = self.github_progress_kind();
                self.clear_github_sync();
                Some((kind, Err("github sync worker disconnected".to_owned())))
            },
        }
    }

    /// Takes in an event of the JSON push worker, as
    /// `on_github_sync_event` does for the sync; the push's kind is kept.
    pub fn on_json_push_event(&mut self, event: WorkerEvent<JsonPushWorkerResult>) -> (r: Option<
        Result<JsonPushWorkerResult, String>,
    >)
        ensures
            match old(self).json_push_progress {
                None => r is None && *final(self) == *old(self),
                Some(t) => match event {
                    WorkerEvent::Progress(m) => {
                        &&& r is None
                        &&& final(self).json_push_progress matches Some(u) && u.kind == t.kind && u.phase@ == m@
                        &&& *final(self) == (StartupJobs {
                            json_push_progress: final(self).json_push_progress,
                            ..*old(self)
                        })
                    },
                    WorkerEvent::Finished(res) => r == Some(res) && *final(self) == (StartupJobs {
                        json_push_progress: None,
                        ..*old(self)
                    }),
                    WorkerEvent::Disconnected => r matches Some(Err(e)) && e@ == "json push worker disconnected"@
                        && *final(self) == (StartupJobs { json_push_progress: None, ..*old(self) }),
                },
            },
    {
        if self.json_push_progress.is_none() {
            return None;
        }
        match event {
            WorkerEvent::Progress(m) => {
                let mut t = self.json_push_progress.take().unwrap();
                t.update_phase(m);
                self.json_push_progress = Some(t);
                None
            },
            WorkerEvent::Finished(res) => {
                self.clear_json_push_receiver();
                Some(res)
            },
            WorkerEvent::Disconnected => {
                self.clear_json_push_receiver();
                Some(Err("json push worker disconnected".to_owned()))
            },
        }
    }
}

} // verus!
