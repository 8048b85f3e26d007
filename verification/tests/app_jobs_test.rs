use own_repos_curator::background::{JsonPushKind, SyncProgressKind};
use own_repos_curator::curator::{App, Effect};
use own_repos_curator::github::FetchedRepo;
use own_repos_curator::jobs::{JsonPushWorkerResult, StartupJobs, WorkerEvent};
use own_repos_curator::json_auto_push::AutoPushOutcome;
use own_repos_curator::keys::{Key, KeyCode};
use own_repos_curator::model::{Meta, Repo, RepoData, Timestamp, DEFAULT_GROUP_NAME};
use own_repos_curator::modes::DescDisplayMode;

fn ts(value: &str) -> Timestamp {
    let parsed = chrono::DateTime::parse_from_rfc3339(value).expect("valid datetime");
    Timestamp { secs: parsed.timestamp(), nanos: parsed.timestamp_subsec_nanos() }
}

fn repo(name: &str, created_at: &str, updated_at: Option<&str>) -> Repo {
    Repo {
        name: name.to_string(),
        url: String::new(),
        created_at: ts(created_at),
        updated_at: updated_at.map(ts),
        github_desc: String::new(),
        desc_short: String::new(),
        desc_long: String::new(),
        group: DEFAULT_GROUP_NAME.to_string(),
        tags: Vec::new(),
    }
}

fn registered_tags_from_repos(repos: &[Repo]) -> Vec<String> {
    repos
        .iter()
        .flat_map(|repo| repo.tags.iter().cloned())
        .collect::<std::collections::BTreeSet<_>>()
        .into_iter()
        .collect()
}

fn app_with_registered_tags_and_groups(repos: Vec<Repo>, registered_tags: Vec<String>, registered_groups: Vec<String>) -> App {
    let data = RepoData {
        meta: Meta {
            github_desc_updated_at: String::new(),
            last_json_commit_push_date: String::new(),
            owner: String::new(),
        },
        registered_tags,
        registered_groups,
        repos,
    };
    App::new(data, DescDisplayMode::RightPane)
}

fn app_with_registered_tags(repos: Vec<Repo>, registered_tags: Vec<String>) -> App {
    app_with_registered_tags_and_groups(repos, registered_tags, vec![DEFAULT_GROUP_NAME.to_string()])
}

fn app_with_repos(repos: Vec<Repo>) -> App {
    let registered_tags = registered_tags_from_repos(&repos);
    app_with_registered_tags(repos, registered_tags)
}

fn key(code: KeyCode) -> Key {
    Key { code, ctrl: false, alt: false, shift: false }
}

fn ctrl_key(ch: char) -> Key {
    Key { code: KeyCode::Char(ch), ctrl: true, alt: false, shift: false }
}

fn shift_key(ch: char) -> Key {
    Key { code: KeyCode::Char(ch.to_ascii_uppercase()), ctrl: false, alt: false, shift: true }
}

/// Hands a key to the curator and does what it asks, as the application
/// does: writes succeed.
fn press(app: &mut App, key: Key) -> Effect {
    let effect = app.handle_key(key);
    follow(app, effect, key)
}

fn follow(app: &mut App, effect: Effect, key: Key) -> Effect {
    match effect {
        Effect::Persist => {
            let next = app.persist_finished(Ok(()));
            follow(app, next, key)
        }
        other => other,
    }
}

fn is_quit(effect: &Effect) -> bool {
    matches!(effect, Effect::Quit)
}

fn selected_repo_name(app: &App) -> Option<String> {
    app.selected_repo_name()
}

/// Runs one round of the background jobs as the application's tick does:
/// hands each worker event to the jobs, then what they give back to the
/// curator, doing what it asks.
fn tick(app: &mut App, jobs: &mut StartupJobs, github: Vec<WorkerEvent<Vec<FetchedRepo>>>, push: Vec<WorkerEvent<JsonPushWorkerResult>>) {
    jobs.advance_spinner();
    for event in github {
        if let Some((kind, result)) = jobs.on_github_sync_event(event) {
            let effect = app.finish_github_sync(kind, result, "2026-04-05".to_string());
            settle(app, jobs, effect);
            break;
        }
    }
    for event in push {
        if let Some(result) = jobs.on_json_push_event(event) {
            let effect = app.finish_json_push(result, jobs);
            settle(app, jobs, effect);
            break;
        }
    }
}

fn settle(app: &mut App, jobs: &mut StartupJobs, effect: Effect) {
    match effect {
        Effect::Persist => {
            let next = app.persist_finished(Ok(()));
            settle(app, jobs, next);
        }
        Effect::StartStartupJsonPush => jobs.start_startup_json_auto_push(),
        _ => {}
    }
}

fn fetched(name: &str, created_at: &str, updated_at: &str, github_desc: &str) -> FetchedRepo {
    FetchedRepo {
        name: name.to_string(),
        created_at: ts(created_at),
        updated_at: ts(updated_at),
        github_desc: github_desc.to_string(),
    }
}

#[test]
fn tick_applies_background_startup_sync_without_overwriting_local_metadata() {
    let mut selected = repo("selected", "2026-03-01T00:00:00Z", Some("2026-03-02T00:00:00Z"));
    selected.desc_short = "keep local desc".to_string();
    selected.group = "tools".to_string();
    selected.tags = vec!["rust".to_string()];
    let mut app = app_with_repos(vec![selected]);
    let mut jobs = StartupJobs::start();
    tick(
        &mut app,
        &mut jobs,
        vec![WorkerEvent::Finished(Ok(vec![
            fetched("selected", "2026-03-01T00:00:00Z", "2026-04-01T00:00:00Z", "synced from github"),
            fetched("new-repo", "2026-04-02T00:00:00Z", "2026-04-03T00:00:00Z", "brand new"),
        ]))],
        Vec::new(),
    );
    assert_eq!(app.data.repos.len(), 2);
    assert_eq!(app.data.repos[1].name, "selected");
    assert_eq!(app.data.repos[1].desc_short, "keep local desc");
    assert_eq!(app.data.repos[1].group, "tools");
    assert_eq!(app.data.repos[1].tags, vec!["rust".to_string()]);
    assert_eq!(app.data.repos[1].github_desc, "synced from github");
    assert_eq!(app.data.repos[0].name, "new-repo");
    assert_eq!(app.data.repos[0].group, DEFAULT_GROUP_NAME);
    assert_eq!(app.status_message, "起動時GitHub同期完了: 1件追加 / 1件更新");
    assert_eq!(jobs.json_push_kind, Some(JsonPushKind::StartupAuto));
}

#[test]
fn tick_applies_background_auto_push_result_to_meta() {
    let mut app = app_with_repos(vec![repo("solo", "2026-03-01T00:00:00Z", None)]);
    let mut jobs = StartupJobs::idle();
    jobs.start_json_push(JsonPushKind::StartupAuto);
    tick(
        &mut app,
        &mut jobs,
        Vec::new(),
        vec![WorkerEvent::Finished(Ok(JsonPushWorkerResult {
            kind: JsonPushKind::StartupAuto,
            outcome: AutoPushOutcome::UpToDate { repo: "cat2151/backups".to_string(), date: "2026-04-05".to_string() },
            last_json_commit_push_date: Some("2026-04-05".to_string()),
        }))],
    );
    assert_eq!(app.data.meta.last_json_commit_push_date, "2026-04-05");
    assert_eq!(app.status_message, "JSON自動push: 変更なし");
}

#[test]
fn pressing_shift_p_on_main_screen_starts_manual_json_push_in_background() {
    let mut app = app_with_repos(vec![repo("solo", "2026-03-01T00:00:00Z", None)]);
    let mut jobs = StartupJobs::idle();
    let effect = app.handle_key(shift_key('p'));
    assert!(matches!(effect, Effect::StartManualJsonPush));
    assert!(app.start_manual_json_push(&mut jobs));
    assert_eq!(app.status_message, "JSON手動pushを開始");
    assert_eq!(jobs.activity_label(), Some("[-] JSON手動pushをバックグラウンド実行中".to_string()));
}

#[test]
fn pressing_shift_p_while_startup_jobs_are_running_shows_busy_message() {
    let mut app = app_with_repos(vec![repo("solo", "2026-03-01T00:00:00Z", None)]);
    let mut jobs = StartupJobs::start();
    let effect = app.handle_key(shift_key('p'));
    assert!(matches!(effect, Effect::StartManualJsonPush));
    assert!(!app.start_manual_json_push(&mut jobs));
    assert_eq!(app.status_message, "起動時バックグラウンド処理の完了後に再実行してください");
}

#[test]
fn tick_applies_background_manual_push_result_to_meta() {
    let mut app = app_with_repos(vec![repo("solo", "2026-03-01T00:00:00Z", None)]);
    let mut jobs = StartupJobs::idle();
    jobs.start_json_push(JsonPushKind::Manual);
    tick(
        &mut app,
        &mut jobs,
        Vec::new(),
        vec![WorkerEvent::Finished(Ok(JsonPushWorkerResult {
            kind: JsonPushKind::Manual,
            outcome: AutoPushOutcome::UpToDate { repo: "cat2151/backups".to_string(), date: "2026-04-05".to_string() },
            last_json_commit_push_date: Some("2026-04-05".to_string()),
        }))],
    );
    assert_eq!(app.data.meta.last_json_commit_push_date, "2026-04-05");
    assert_eq!(app.status_message, "JSON手動push: 変更なし");
}

#[test]
fn github_sync_failure_asks_to_retry_and_still_starts_the_daily_push() {
    let mut app = app_with_repos(vec![repo("solo", "2026-03-01T00:00:00Z", None)]);
    let mut jobs = StartupJobs::start();
    tick(&mut app, &mut jobs, vec![WorkerEvent::Finished(Err("gh missing".to_string()))], Vec::new());
    assert_eq!(app.status_message, "起動時GitHub同期失敗: gh missing (r で再試行)");
    assert!(jobs.github_progress.is_none());
    assert_eq!(jobs.json_push_kind, Some(JsonPushKind::StartupAuto));
}

#[test]
fn worker_progress_updates_the_phase_and_disconnect_ends_the_job() {
    let mut app = app_with_repos(vec![repo("solo", "2026-03-01T00:00:00Z", None)]);
    let mut jobs = StartupJobs::idle();
    assert!(app.start_manual_github_sync(&mut jobs));
    assert_eq!(app.status_message, "GitHub同期を開始");
    assert!(jobs.on_github_sync_event(WorkerEvent::Progress("fetching".to_string())).is_none());
    assert_eq!(jobs.github_progress.as_ref().map(|t| t.phase.clone()), Some("fetching".to_string()));
    jobs.advance_spinner();
    assert_eq!(jobs.activity_label(), Some("[\\] GitHub同期をバックグラウンド実行中".to_string()));
    let taken = jobs.on_github_sync_event(WorkerEvent::Disconnected);
    match taken {
        Some((kind, Err(error))) => {
            assert_eq!(kind, SyncProgressKind::ManualGithub);
            assert_eq!(error, "github sync worker disconnected");
        }
        _ => panic!("the sync should end with an error"),
    }
    assert!(jobs.github_progress.is_none());
    jobs.advance_spinner();
    assert_eq!(jobs.spinner_frame, 0);
    assert_eq!(jobs.activity_label(), None);
}

#[test]
fn manual_json_push_refused_while_one_runs() {
    let mut app = app_with_repos(vec![repo("solo", "2026-03-01T00:00:00Z", None)]);
    let mut jobs = StartupJobs::idle();
    jobs.start_json_push(JsonPushKind::Manual);
    assert!(!app.start_manual_json_push(&mut jobs));
    assert_eq!(app.status_message, "JSON pushはすでに実行中です");
}

#[test]
fn json_push_error_uses_the_remembered_kind() {
    let mut app = app_with_repos(vec![repo("solo", "2026-03-01T00:00:00Z", None)]);
    let mut jobs = StartupJobs::idle();
    jobs.start_json_push(JsonPushKind::Manual);
    tick(&mut app, &mut jobs, Vec::new(), vec![WorkerEvent::Disconnected]);
    assert_eq!(app.status_message, "JSON手動push失敗: json push worker disconnected");
    assert_eq!(jobs.json_push_kind, None);
}

#[test]
fn refresh_failure_reports_the_error() {
    let mut app = app_with_repos(vec![repo("solo", "2026-03-01T00:00:00Z", None)]);
    let effect = app.handle_key(key(KeyCode::Char('r')));
    assert!(matches!(effect, Effect::RefreshFromGithub));
    let effect = app.finish_refresh(Err("offline".to_string()), "2026-04-05".to_string());
    assert!(matches!(effect, Effect::Nothing));
    assert_eq!(app.status_message, "GitHub同期失敗: offline");
}

#[test]
fn refresh_merges_and_keeps_the_selection() {
    let mut app = app_with_repos(vec![
        repo("a", "2026-03-02T00:00:00Z", None),
        repo("b", "2026-03-01T00:00:00Z", None),
    ]);
    press(&mut app, key(KeyCode::Char('j')));
    assert_eq!(app.selected_repo_name(), Some("b".to_string()));
    let effect = app.finish_refresh(
        Ok(vec![fetched("c", "2026-03-03T00:00:00Z", "2026-03-03T00:00:00Z", "new")]),
        "2026-04-05".to_string(),
    );
    assert_eq!(app.data.meta.github_desc_updated_at, "2026-04-05");
    assert!(matches!(effect, Effect::Persist));
    let effect = app.persist_finished(Ok(()));
    assert!(matches!(effect, Effect::Nothing));
    assert_eq!(app.status_message, "GitHub同期完了: 1件追加 / 0件更新");
    assert_eq!(app.selected_repo_name(), Some("b".to_string()));
}

#[test]
fn status_line_puts_the_running_job_before_the_status() {
    let jobs = StartupJobs::idle();
    assert_eq!(jobs.status_line("ローカルデータを表示しました"), "ローカルデータを表示しました");
    let mut running = StartupJobs::start();
    assert_eq!(running.status_line("ok"), format!("{} ok", running.activity_label().unwrap()));
    assert!(running.status_line("ok").starts_with("[-] "));
    running.advance_spinner();
    assert!(running.status_line("ok").starts_with("[\\] "));
}

#[test]
fn new_app_keeps_the_given_data() {
    let repos = vec![
        repo("older", "2024-01-01T00:00:00Z", None),
        repo("newer", "2025-01-01T00:00:00Z", None),
    ];
    let tags = registered_tags_from_repos(&repos);
    let app = app_with_registered_tags_and_groups(repos, tags, vec![DEFAULT_GROUP_NAME.to_string()]);
    assert_eq!(app.data.repos.len(), 2);
    assert_eq!(app.data.repos[0].name, "older");
    assert_eq!(app.data.repos[1].name, "newer");
    assert_eq!(app.data.registered_groups, vec![DEFAULT_GROUP_NAME.to_string()]);
    assert!(!app.debug_log_expanded);
    assert_eq!(app.registered_tag_page, 0);
    assert_eq!(app.selected, Some(0));
}

#[test]
fn debug_log_keeps_at_most_its_limit_of_entries() {
    let mut log = own_repos_curator::curator::DebugLog::new();
    for i in 0..250 {
        log.push(&format!("m{}", i));
    }
    assert_eq!(log.entries.len(), own_repos_curator::curator::DEBUG_LOG_LIMIT);
    assert_eq!(log.entries[0], "#0050 m50");
    assert_eq!(log.entries[199], "#0249 m249");
    assert_eq!(log.seq, 250);
}

#[test]
fn new_app_uses_the_given_desc_display_mode() {
    let app = App::new(RepoData::empty(), DescDisplayMode::LeftShortAndLong);
    assert_eq!(app.desc_display_mode, DescDisplayMode::LeftShortAndLong);
    assert!(app.data.repos.is_empty());
}
