use own_repos_curator::curator::{App, Effect};
use own_repos_curator::keys::{Key, KeyCode};
use own_repos_curator::listing::sort_repo_indices;
use own_repos_curator::model::{Meta, Repo, RepoData, Timestamp, DEFAULT_GROUP_NAME};
use own_repos_curator::modes::{DescDisplayMode, SortMode};

fn ts(value: &str) -> Timestamp {
    let parsed = chrono::DateTime::parse_from_rfc3339(value).expect("valid datetime");
    Timestamp { secs: parsed.timestamp(), nanos: parsed.timestamp_subsec_nanos() }
}

fn repo(name: &str, created_at: &str, updated_at: Option<&str>) -> Repo {
    Repo {
        name: name.to_string(),
        url: String::new(),
        created_at: ts(created_at),
        updated_at: updated_at.map(ts),
        github_desc: String::new(),
        desc_short: String::new(),
        desc_long: String::new(),
        group: DEFAULT_GROUP_NAME.to_string(),
        tags: Vec::new(),
    }
}

fn registered_tags_from_repos(repos: &[Repo]) -> Vec<String> {
    repos
        .iter()
        .flat_map(|repo| repo.tags.iter().cloned())
        .collect::<std::collections::BTreeSet<_>>()
        .into_iter()
        .collect()
}

fn app_with_registered_tags_and_groups(repos: Vec<Repo>, registered_tags: Vec<String>, registered_groups: Vec<String>) -> App {
    let data = RepoData {
        meta: Meta {
            github_desc_updated_at: String::new(),
            last_json_commit_push_date: String::new(),
            owner: String::new(),
        },
        registered_tags,
        registered_groups,
        repos,
    };
    App::new(data, DescDisplayMode::RightPane)
}

fn app_with_registered_tags(repos: Vec<Repo>, registered_tags: Vec<String>) -> App {
    app_with_registered_tags_and_groups(repos, registered_tags, vec![DEFAULT_GROUP_NAME.to_string()])
}

fn app_with_repos(repos: Vec<Repo>) -> App {
    let registered_tags = registered_tags_from_repos(&repos);
    app_with_registered_tags(repos, registered_tags)
}

fn key(code: KeyCode) -> Key {
    Key { code, ctrl: false, alt: false, shift: false }
}

fn ctrl_key(ch: char) -> Key {
    Key { code: KeyCode::Char(ch), ctrl: true, alt: false, shift: false }
}

fn shift_key(ch: char) -> Key {
    Key { code: KeyCode::Char(ch.to_ascii_uppercase()), ctrl: false, alt: false, shift: true }
}

/// Hands a key to the curator and does what it asks, as the application
/// does: writes succeed.
fn press(app: &mut App, key: Key) -> Effect {
    let effect = app.handle_key(key);
    follow(app, effect, key)
}

fn follow(app: &mut App, effect: Effect, key: Key) -> Effect {
    match effect {
        Effect::Persist => {
            let next = app.persist_finished(Ok(()));
            follow(app, next, key)
        }
        other => other,
    }
}

fn is_quit(effect: &Effect) -> bool {
    matches!(effect, Effect::Quit)
}

fn selected_repo_name(app: &App) -> Option<String> {
    app.selected_repo_name()
}

#[test]
fn move_down_stops_at_last_repo() {
    let mut app = app_with_repos(vec![
        repo("first", "2026-03-01T00:00:00Z", None),
        repo("second", "2026-03-02T00:00:00Z", None),
    ]);
    press(&mut app, key(KeyCode::Char('j')));
    assert_eq!(app.selected_index(), Some(1));
    press(&mut app, key(KeyCode::Char('j')));
    assert_eq!(app.selected_index(), Some(1));
}

#[test]
fn move_up_stops_at_first_repo() {
    let mut app = app_with_repos(vec![
        repo("first", "2026-03-01T00:00:00Z", None),
        repo("second", "2026-03-02T00:00:00Z", None),
    ]);
    press(&mut app, key(KeyCode::Char('j')));
    assert_eq!(app.selected_index(), Some(1));
    press(&mut app, key(KeyCode::Char('k')));
    assert_eq!(app.selected_index(), Some(0));
    press(&mut app, key(KeyCode::Char('k')));
    assert_eq!(app.selected_index(), Some(0));
}

#[test]
fn page_down_moves_selection_by_page_step_and_stops_at_last_repo() {
    let repos = (0..15).map(|index| repo(&format!("repo-{index}"), "2026-03-01T00:00:00Z", None)).collect();
    let mut app = app_with_repos(repos);
    press(&mut app, key(KeyCode::PageDown));
    assert_eq!(app.selected_index(), Some(10));
    press(&mut app, key(KeyCode::PageDown));
    assert_eq!(app.selected_index(), Some(14));
}

#[test]
fn page_up_moves_selection_by_page_step_and_stops_at_first_repo() {
    let repos = (0..15).map(|index| repo(&format!("repo-{index}"), "2026-03-01T00:00:00Z", None)).collect();
    let mut app = app_with_repos(repos);
    press(&mut app, key(KeyCode::PageDown));
    press(&mut app, key(KeyCode::PageDown));
    assert_eq!(app.selected_index(), Some(14));
    press(&mut app, key(KeyCode::PageUp));
    assert_eq!(app.selected_index(), Some(4));
    press(&mut app, key(KeyCode::PageUp));
    assert_eq!(app.selected_index(), Some(0));
}

#[test]
fn tag_manager_move_down_stops_at_last_tag() {
    let mut app = app_with_registered_tags(vec![repo("solo", "2026-03-01T00:00:00Z", None)], vec!["rust".to_string(), "tui".to_string()]);
    app.open_tag_manager();
    press(&mut app, key(KeyCode::Char('j')));
    assert_eq!(app.tag_manager.as_ref().map(|manager| manager.selected), Some(1));
    press(&mut app, key(KeyCode::Char('j')));
    assert_eq!(app.tag_manager.as_ref().map(|manager| manager.selected), Some(1));
}

#[test]
fn tag_manager_move_up_stops_at_first_tag() {
    let mut app = app_with_registered_tags(vec![repo("solo", "2026-03-01T00:00:00Z", None)], vec!["rust".to_string(), "tui".to_string()]);
    app.open_tag_manager();
    press(&mut app, key(KeyCode::Char('j')));
    assert_eq!(app.tag_manager.as_ref().map(|manager| manager.selected), Some(1));
    press(&mut app, key(KeyCode::Char('k')));
    assert_eq!(app.tag_manager.as_ref().map(|manager| manager.selected), Some(0));
    press(&mut app, key(KeyCode::Char('k')));
    assert_eq!(app.tag_manager.as_ref().map(|manager| manager.selected), Some(0));
}

#[test]
fn empty_tag_input_stays_open() {
    let mut app = app_with_repos(vec![repo("solo", "2026-03-01T00:00:00Z", None)]);
    app.open_tag_manager();
    press(&mut app, key(KeyCode::Char('n')));
    press(&mut app, key(KeyCode::Enter));
    assert!(app.tag_input.is_some());
    assert_eq!(app.status_message, "tagは空にできません");
}

#[test]
fn sort_repo_indices_by_created_desc() {
    let repos = vec![
        repo("older", "2026-01-01T00:00:00Z", Some("2026-04-01T00:00:00Z")),
        repo("newer", "2026-03-01T00:00:00Z", Some("2026-03-05T00:00:00Z")),
        repo("middle", "2026-02-01T00:00:00Z", None),
    ];
    let mut indices = vec![0, 1, 2];
    sort_repo_indices(&mut indices, &repos, SortMode::Created);
    assert_eq!(indices, vec![1, 2, 0]);
}

#[test]
fn sort_repo_indices_by_updated_desc_with_created_fallback() {
    let repos = vec![
        repo("fallback", "2026-03-10T00:00:00Z", None),
        repo("stale", "2026-01-01T00:00:00Z", Some("2026-01-02T00:00:00Z")),
        repo("fresh", "2025-12-01T00:00:00Z", Some("2026-04-01T00:00:00Z")),
    ];
    let mut indices = vec![0, 1, 2];
    sort_repo_indices(&mut indices, &repos, SortMode::Modified);
    assert_eq!(indices, vec![2, 0, 1]);
}

#[test]
fn sort_repo_indices_keeps_ties_in_place() {
    let repos = vec![
        repo("same", "2026-03-01T00:00:00Z", None),
        repo("same", "2026-03-01T00:00:00Z", None),
        repo("newest", "2026-03-02T00:00:00Z", None),
    ];
    let mut indices = vec![1, 0, 2];
    sort_repo_indices(&mut indices, &repos, SortMode::Created);
    assert_eq!(indices, vec![2, 1, 0]);
}

#[test]
fn visible_list_sorts_by_creation_then_by_update() {
    let app = app_with_repos(vec![
        repo("older", "2026-01-01T00:00:00Z", Some("2026-04-01T00:00:00Z")),
        repo("newer", "2026-03-01T00:00:00Z", None),
    ]);
    assert_eq!(app.visible_repo_indices(), vec![1, 0]);
    assert_eq!(selected_repo_name(&app), Some("newer".to_string()));
}

#[test]
fn toggling_sort_keeps_the_selected_repository() {
    let mut app = app_with_repos(vec![
        repo("older", "2026-01-01T00:00:00Z", Some("2026-04-01T00:00:00Z")),
        repo("newer", "2026-03-01T00:00:00Z", None),
    ]);
    assert_eq!(selected_repo_name(&app), Some("newer".to_string()));
    press(&mut app, key(KeyCode::Char('s')));
    assert_eq!(app.visible_repo_indices(), vec![0, 1]);
    assert_eq!(app.selected_index(), Some(1));
    assert_eq!(selected_repo_name(&app), Some("newer".to_string()));
}

#[test]
fn registered_tag_pages_move_with_arrows_and_report_the_page() {
    let tags = (0..30).map(|i| format!("tag{i:02}")).collect::<Vec<_>>();
    let mut app = app_with_registered_tags(vec![repo("solo", "2026-03-01T00:00:00Z", None)], tags);
    press(&mut app, key(KeyCode::Left));
    assert_eq!(app.registered_tag_page, 0);
    press(&mut app, key(KeyCode::Right));
    assert_eq!(app.registered_tag_page, 1);
    assert_eq!(app.status_message, "registered tag page: 2/2");
    let before = app.status_message.clone();
    press(&mut app, key(KeyCode::Right));
    assert_eq!(app.registered_tag_page, 1);
    assert_eq!(app.status_message, before);
    press(&mut app, key(KeyCode::Left));
    assert_eq!(app.status_message, "registered tag page: 1/2");
}

#[test]
fn debug_log_numbers_entries_and_keeps_the_latest() {
    let mut app = app_with_repos(vec![repo("solo", "2026-03-01T00:00:00Z", None)]);
    assert_eq!(app.debug_log.entries, vec!["#0000 app loaded".to_string()]);
    for _ in 0..250 {
        press(&mut app, key(KeyCode::Char('x')));
    }
    assert_eq!(app.debug_log.entries.len(), 200);
    assert!(app.debug_log.entries[199].starts_with("#0250 handle_key: code=Char('x')"));
}
