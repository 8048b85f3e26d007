//! What the curator does with the results of the work it hands out: a
//! GitHub sync, a JSON push, a refresh asked for with `r`.
use crate::background::{
    github_sync_debug_label, github_sync_status_label, github_sync_status_label_spec, json_push_debug_label,
    json_push_debug_label_spec, json_push_debug_log, json_push_debug_log_spec, json_push_status,
    json_push_status_label, json_push_status_label_spec, json_push_status_spec, JsonPushKind, SyncProgressKind,
};
use crate::curator::{log_push, log_pushes, AfterPersist, App, Effect};
use crate::curator_nav::{lemma_restored_frame, opt_name, restored, selected_name};
use crate::github::{apply_fetched_repos, apply_fetched_spec, fetched_views, groups_after_sync, FetchedRepo};
use crate::jobs::{JsonPushWorkerResult, StartupJobs};
use crate::model::{repo_views, stable_sort_newest_first};
use crate::strings::{cat2, cat3, cat4};
use vstd::prelude::*;

verus! {

/// `b`'s data is `a`'s after merging `fetched` on `today` (see
/// `apply_fetched_spec`): `today` recorded as the date of the sync, the
/// repositories merged and sorted newest first, the default group
/// registered when one was added, the tags and the other dates kept.
pub open spec fn data_synced(a: App, b: App, fetched: Seq<FetchedRepo>, today: Seq<char>) -> bool {
    let res = apply_fetched_spec(repo_views(a.data.repos@), fetched_views(fetched));
    &&& b.data.meta.github_desc_updated_at@ == today
    &&& stable_sort_newest_first(repo_views(b.data.repos@), res.0)
    &&& groups_after_sync(a.data.registered_groups.deep_view(), res.1, b.data.registered_groups.deep_view())
    &&& b.data.registered_tags == a.data.registered_tags
    &&& b.data.meta.last_json_commit_push_date == a.data.meta.last_json_commit_push_date
    &&& b.data.meta.owner == a.data.meta.owner
}

/// The debug label of a GitHub sync.
pub open spec fn github_sync_debug_label_spec(kind: SyncProgressKind) -> Seq<char> {
    match kind {
        SyncProgressKind::StartupGithub => "startup github sync"@,
        SyncProgressKind::ManualGithub => "manual github sync"@,
        _ => "github sync"@,
    }
}

/// The effect of `finish_github_sync(kind, result, today)`. On success the data
/// is merged, the selection stays on the same repository and the data is
/// to be written (the rest follows in `persist_finished`). On failure the
/// status line tells the error; after the start-up sync the daily JSON
/// push starts either way.
pub open spec fn github_sync_finished(
    a: App,
    b: App,
    kind: SyncProgressKind,
    result: Result<Seq<FetchedRepo>, Seq<char>>,
    today: Seq<char>,
    r: Effect,
) -> bool {
    match result {
        Ok(fetched) => {
            let res = apply_fetched_spec(repo_views(a.data.repos@), fetched_views(fetched));
            &&& r == Effect::Persist
            &&& data_synced(a, b, fetched, today)
            &&& b.pending matches Some(AfterPersist::GithubSynced { kind: k, added, updated }) && k == kind && added
                == res.1 && updated == res.2
            &&& b == App { pending: b.pending, ..restored(App { data: b.data, ..a }, selected_name(a)) }
        },
        Err(e) => {
            let failed = github_sync_debug_label_spec(kind) + " failed: "@ + e;
            &&& b.status_message@ == github_sync_status_label_spec(kind) + "失敗: "@ + e + " (r で再試行)"@
            &&& if kind == SyncProgressKind::StartupGithub {
                &&& r == Effect::StartStartupJsonPush
                &&& b.debug_log.view_log() == log_pushes(
                    a.debug_log.view_log(),
                    seq![failed, "startup json auto push scheduled in background"@],
                )
            } else {
                &&& r == Effect::Nothing
                &&& b.debug_log.view_log() == log_push(a.debug_log.view_log(), failed)
            }
            &&& b == App { status_message: b.status_message, debug_log: b.debug_log, ..a }
        },
    }
}

/// The kind of the JSON push that `result` comes from: the worker's, or
/// else the one the jobs remember.
pub open spec fn pushed_kind(result: Result<JsonPushWorkerResult, String>, jobs: StartupJobs) -> JsonPushKind {
    match result {
        Ok(w) => w.kind,
        Err(_) => match jobs.json_push_kind {
            Some(k) => k,
            None => JsonPushKind::StartupAuto,
        },
    }
}

/// The effect of `finish_json_push(result, jobs)` on the curator. A push
/// that records a new date sets it in the data, which is to be written
/// (the rest follows in `persist_finished`); otherwise the status line and
/// the log tell the outcome or the error.
pub open spec fn json_push_finished(
    a: App,
    b: App,
    kind: JsonPushKind,
    result: Result<JsonPushWorkerResult, String>,
    r: Effect,
) -> bool {
    match result {
        Ok(w) => match w.last_json_commit_push_date {
            Some(date) => {
                &&& r == Effect::Persist
                &&& b.data.meta.last_json_commit_push_date@ == date@
                &&& b.pending matches Some(AfterPersist::JsonPushRecorded { kind: k, outcome: o }) && k == kind && o
                    == w.outcome
                &&& b == App {
                    data: crate::model::RepoData {
                        meta: crate::model::Meta {
                            last_json_commit_push_date: b.data.meta.last_json_commit_push_date,
                            ..a.data.meta
                        },
                        ..a.data
                    },
                    pending: b.pending,
                    ..a
                }
            },
            None => {
                &&& r == Effect::Nothing
                &&& b.status_message@ == json_push_status_spec(kind, w.outcome)
                &&& b.debug_log.view_log() == log_push(a.debug_log.view_log(), json_push_debug_log_spec(kind, w.outcome))
                &&& b == App { status_message: b.status_message, debug_log: b.debug_log, ..a }
            },
        },
        Err(e) => {
            &&& r == Effect::Nothing
            &&& b.status_message@ == json_push_status_label_spec(kind) + "失敗: "@ + e@
            &&& b.debug_log.view_log() == log_push(
                a.debug_log.view_log(),
                json_push_debug_label_spec(kind) + " failed: "@ + e@,
            )
            &&& b == App { status_message: b.status_message, debug_log: b.debug_log, ..a }
        },
    }
}

/// The effect of `finish_refresh(result, today)`: on success the data is merged
/// and is to be written, with the selected repository kept for later; on
/// failure the status line tells the error.
pub open spec fn refresh_finished(
    a: App,
    b: App,
    result: Result<Seq<FetchedRepo>, Seq<char>>,
    today: Seq<char>,
    r: Effect,
) -> bool {
    match result {
        Ok(fetched) => {
            let res = apply_fetched_spec(repo_views(a.data.repos@), fetched_views(fetched));
            &&& r == Effect::Persist
            &&& data_synced(a, b, fetched, today)
            &&& b.pending matches Some(AfterPersist::Refreshed { repo_name: n, added, updated }) && opt_name(n)
                == selected_name(a) && added == res.1 && updated == res.2
            &&& b == App { data: b.data, pending: b.pending, ..a }
        },
        Err(e) => {
            &&& r == Effect::Nothing
            &&& b.status_message@ == "GitHub同期失敗: "@ + e
            &&& b == App { status_message: b.status_message, ..a }
        },
    }
}

/// The view of a result whose success is a list of repositories.
pub open spec fn fetch_result_view(r: Result<Vec<FetchedRepo>, String>) -> Result<Seq<FetchedRepo>, Seq<char>> {
    match r {
        Ok(v) => Ok(v@),
        Err(e) => Err(e@),
    }
}

impl App {
    /// Takes in the result of a GitHub sync that finished on `today`, the
    /// current UTC date (see `github_sync_finished`).
    pub fn finish_github_sync(
        &mut self,
        kind: SyncProgressKind,
        result: Result<Vec<FetchedRepo>, String>,
        today: String,
    ) -> (r:
        Effect)
        requires
            old(self).wf(),
        ensures
            final(self).wf(),
            github_sync_finished(*old(self), *final(self), kind, fetch_result_view(result), today@, r),
    {
        match result {
            Ok(fetched) => {
                let ghost f = fetched@;
                let name = self.selected_repo_name();
                let ghost a = *self;
                let summary = apply_fetched_repos(&mut self.data, fetched, today);
                let ghost with_data = *self;
                assert(with_data == App { data: with_data.data, ..a });
                match &name {
                    Some(n) => {
                        assert(Some(n@) == selected_name(a));
                        self.restore_selection(Some(n.as_str()));
                    },
                    None => self.restore_selection(None),
                }
                proof {
                    lemma_restored_frame(with_data, selected_name(a));
                }
                self.pending = Some(AfterPersist::GithubSynced { kind, added: summary.added, updated: summary.updated });
                Effect::Persist
            },
            Err(e) => {
                let ghost l0 = self.debug_log.view_log();
                self.status_message = cat4(github_sync_status_label(kind), "失敗: ", e.as_str(), " (r で再試行)");
                let failed = cat3(github_sync_debug_label(kind), " failed: ", e.as_str());
                self.push_debug_log(failed.as_str());
                match kind {
                    SyncProgressKind::StartupGithub => {
                        self.push_debug_log("startup json auto push scheduled in background");
                        proof {
                            reveal_with_fuel(log_pushes, 3);
                        }
                        Effect::StartStartupJsonPush
                    },
                    _ => Effect::Nothing,
                }
            },
        }
    }

    /// Takes in the result of a JSON push (see `json_push_finished`); the
    /// jobs forget the push's kind.
    pub fn finish_json_push(&mut self, result: Result<JsonPushWorkerResult, String>, jobs: &mut StartupJobs) -> (r:
        Effect)
        requires
            old(self).wf(),
        ensures
            final(self).wf(),
            json_push_finished(*old(self), *final(self), pushed_kind(result, *old(jobs)), result, r),
            *final(jobs) == (StartupJobs { json_push_kind: None, ..*old(jobs) }),
    {
        let kind = match &result {
            Ok(w) => w.kind,
            Err(_) => jobs.json_push_kind_or_startup_auto(),
        };
        jobs.clear_json_push_kind();
        match result {
            Ok(w) => match w.last_json_commit_push_date {
                Some(date) => {
                    self.data.meta.last_json_commit_push_date = date;
                    self.pending = Some(AfterPersist::JsonPushRecorded { kind, outcome: w.outcome });
                    Effect::Persist
                },
                None => {
                    self.status_message = json_push_status(kind, &w.outcome);
                    let log = json_push_debug_log(kind, &w.outcome);
                    self.push_debug_log(log.as_str());
                    Effect::Nothing
                },
            },
            Err(e) => {
                self.status_message = cat3(json_push_status_label(kind), "失敗: ", e.as_str());
                let log = cat3(json_push_debug_label(kind), " failed: ", e.as_str());
                self.push_debug_log(log.as_str());
                Effect::Nothing
            },
        }
    }

    /// Starts the start-up GitHub sync in the jobs.
    pub fn start_background_startup(&mut self, jobs: &mut StartupJobs)
        ensures
            old(self).wf() ==> final(self).wf(),
            final(jobs).github_progress matches Some(t) && t.kind == SyncProgressKind::StartupGithub,
            final(jobs).json_push_kind is None && final(jobs).json_push_progress is None,
            final(jobs).spinner_frame == 0,
            final(self).debug_log.view_log() == log_push(
                old(self).debug_log.view_log(),
                "startup github sync scheduled in background"@,
            ),
            *final(self) == (App { debug_log: final(self).debug_log, ..*old(self) }),
    {
        *jobs = StartupJobs::start();
        self.push_debug_log("startup github sync scheduled in background");
    }

    /// Starts a GitHub sync asked for by hand, unless a job runs; says
    /// whether it started.
    pub fn start_manual_github_sync(&mut self, jobs: &mut StartupJobs) -> (r: bool)
        ensures
            r == !old(jobs).busy(),
            r ==> final(self).status_message@ == "GitHub同期を開始"@ && final(self).debug_log.view_log() == log_push(
                old(self).debug_log.view_log(),
                "manual github sync scheduled in background"@,
            ) && (final(jobs).github_progress matches Some(t) && t.kind == SyncProgressKind::ManualGithub),
            !r ==> final(self).status_message@ == "起動時バックグラウンド処理の完了後に再実行してください"@
                && final(self).debug_log.view_log() == log_push(
                old(self).debug_log.view_log(),
                "manual github sync skipped: "@ + "起動時バックグラウンド処理の完了後に再実行してください"@,
            ) && *final(jobs) == *old(jobs),
            *final(self) == (App { status_message: final(self).status_message, debug_log: final(self).debug_log, ..*old(self) }),
    {
        match jobs.try_start_manual_github_sync() {
            Ok(()) => {
                self.status_message = "GitHub同期を開始".to_owned();
                self.push_debug_log("manual github sync scheduled in background");
                true
            },
            Err(message) => {
                self.status_message = message.to_owned();
                let log = cat2("manual github sync skipped: ", message);
                self.push_debug_log(log.as_str());
                false
            },
        }
    }

    /// Starts a JSON push asked for by hand, unless the GitHub sync or a
    /// JSON push runs; says whether it started.
    pub fn start_manual_json_push(&mut self, jobs: &mut StartupJobs) -> (r: bool)
        ensures
            old(self).wf() ==> final(self).wf(),
            r == !old(jobs).busy(),
            r ==> final(self).status_message@ == "JSON手動pushを開始"@ && final(self).debug_log.view_log() == log_push(
                old(self).debug_log.view_log(),
                "manual json push scheduled in background"@,
            ) && final(jobs).json_push_kind == Some(JsonPushKind::Manual),
            !r ==> {
                let m = if old(jobs).github_progress is Some {
                    "起動時バックグラウンド処理の完了後に再実行してください"@
                } else {
                    "JSON pushはすでに実行中です"@
                };
                &&& final(self).status_message@ == m
                &&& final(self).debug_log.view_log() == log_push(
                    old(self).debug_log.view_log(),
                    "manual json push skipped: "@ + m,
                )
                &&& *final(jobs) == *old(jobs)
            },
            *final(self) == (App { status_message: final(self).status_message, debug_log: final(self).debug_log, ..*old(self) }),
    {
        match jobs.try_start_manual_json_push() {
            Ok(()) => {
                self.status_message = "JSON手動pushを開始".to_owned();
                self.push_debug_log("manual json push scheduled in background");
                true
            },
            Err(message) => {
                self.status_message = message.to_owned();
                let log = cat2("manual json push skipped: ", message);
                self.push_debug_log(log.as_str());
                false
            },
        }
    }

    /// Takes in the repositories that a refresh fetched on `today`, the
    /// current UTC date, or its error (see `refresh_finished`).
    pub fn finish_refresh(&mut self, result: Result<Vec<FetchedRepo>, String>, today: String) -> (r: Effect)
        requires
            old(self).wf(),
        ensures
            final(self).wf(),
            refresh_finished(*old(self), *final(self), fetch_result_view(result), today@, r),
    {
        match result {
            Ok(fetched) => {
                let name = self.selected_repo_name();
                let summary = apply_fetched_repos(&mut self.data, fetched, today);
                self.pending = Some(AfterPersist::Refreshed { repo_name: name, added: summary.added, updated: summary.updated });
                Effect::Persist
            },
            Err(e) => {
                self.status_message = cat2("GitHub同期失敗: ", e.as_str());
                Effect::Nothing
            },
        }
    }
}

} // verus!
