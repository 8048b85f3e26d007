use own_repos_curator::curator::{App, Effect, FilterModeFocus};
use own_repos_curator::keys::{Key, KeyCode};
use own_repos_curator::model::{Meta, Repo, RepoData, Timestamp, DEFAULT_GROUP_NAME};
use own_repos_curator::modes::DescDisplayMode;

fn ts(value: &str) -> Timestamp {
    let parsed = chrono::DateTime::parse_from_rfc3339(value).expect("valid datetime");
    Timestamp { secs: parsed.timestamp(), nanos: parsed.timestamp_subsec_nanos() }
}

fn repo(name: &str, created_at: &str, updated_at: Option<&str>) -> Repo {
    Repo {
        name: name.to_string(),
        url: String::new(),
        created_at: ts(created_at),
        updated_at: updated_at.map(ts),
        github_desc: String::new(),
        desc_short: String::new(),
        desc_long: String::new(),
        group: DEFAULT_GROUP_NAME.to_string(),
        tags: Vec::new(),
    }
}

fn registered_tags_from_repos(repos: &[Repo]) -> Vec<String> {
    repos
        .iter()
        .flat_map(|repo| repo.tags.iter().cloned())
        .collect::<std::collections::BTreeSet<_>>()
        .into_iter()
        .collect()
}

fn app_with_registered_tags_and_groups(repos: Vec<Repo>, registered_tags: Vec<String>, registered_groups: Vec<String>) -> App {
    let data = RepoData {
        meta: Meta {
            github_desc_updated_at: String::new(),
            last_json_commit_push_date: String::new(),
            owner: String::new(),
        },
        registered_tags,
        registered_groups,
        repos,
    };
    App::new(data, DescDisplayMode::RightPane)
}

fn app_with_registered_tags(repos: Vec<Repo>, registered_tags: Vec<String>) -> App {
    app_with_registered_tags_and_groups(repos, registered_tags, vec![DEFAULT_GROUP_NAME.to_string()])
}

fn app_with_repos(repos: Vec<Repo>) -> App {
    let registered_tags = registered_tags_from_repos(&repos);
    app_with_registered_tags(repos, registered_tags)
}

fn key(code: KeyCode) -> Key {
    Key { code, ctrl: false, alt: false, shift: false }
}

fn ctrl_key(ch: char) -> Key {
    Key { code: KeyCode::Char(ch), ctrl: true, alt: false, shift: false }
}

fn shift_key(ch: char) -> Key {
    Key { code: KeyCode::Char(ch.to_ascii_uppercase()), ctrl: false, alt: false, shift: true }
}

/// Hands a key to the curator and does what it asks, as the application
/// does: writes succeed.
fn press(app: &mut App, key: Key) -> Effect {
    let effect = app.handle_key(key);
    follow(app, effect, key)
}

fn follow(app: &mut App, effect: Effect, key: Key) -> Effect {
    match effect {
        Effect::Persist => {
            let next = app.persist_finished(Ok(()));
            follow(app, next, key)
        }
        other => other,
    }
}

fn is_quit(effect: &Effect) -> bool {
    matches!(effect, Effect::Quit)
}

fn selected_repo_name(app: &App) -> Option<String> {
    app.selected_repo_name()
}

#[test]
fn filter_starts_disabled_and_shows_all_repos() {
    let mut rust_repo = repo("rust-repo", "2026-03-02T00:00:00Z", None);
    rust_repo.tags = vec!["rust".to_string()];
    let mut go_repo = repo("go-repo", "2026-03-01T00:00:00Z", None);
    go_repo.tags = vec!["go".to_string()];
    let app = app_with_registered_tags(vec![rust_repo, go_repo], vec!["rust".to_string(), "go".to_string()]);
    assert_eq!(app.visible_repo_indices().len(), 2);
    assert_eq!(app.active_group_filter(), None);
    assert_eq!(app.active_tag_filter_count(), 0);
    assert_eq!(app.tag_filter_title_label(), "filter:off");
}

#[test]
fn pressing_slash_enters_group_filter_mode() {
    let mut tools_repo = repo("tools-repo", "2026-03-01T00:00:00Z", None);
    tools_repo.group = "tools".to_string();
    let mut app = app_with_registered_tags_and_groups(
        vec![tools_repo],
        vec!["rust".to_string()],
        vec!["tools".to_string(), "web".to_string()],
    );
    press(&mut app, key(KeyCode::Char('/')));
    assert!(app.filter_mode.is_some());
    assert_eq!(app.filter_mode.as_ref().map(|mode| mode.focus), Some(FilterModeFocus::Group));
    assert_eq!(app.status_message, "group絞り込みモード: a-z 選択 / A-Z 解除 / Ctrl+Tでtag / Enter確定 / Esc取消");
    assert_eq!(app.bottom_hint(), "a-z:group A-Z:clear Ctrl+T:tag ←→:page Enter:apply Esc:cancel");
}

#[test]
fn q_does_not_quit_in_group_filter_mode_and_can_select_q_slot() {
    let mut quick_repo = repo("quick-repo", "2026-03-02T00:00:00Z", None);
    quick_repo.group = "quick".to_string();
    let mut other_repo = repo("other-repo", "2026-03-01T00:00:00Z", None);
    other_repo.group = "misc".to_string();
    let mut app = app_with_registered_tags_and_groups(
        vec![quick_repo, other_repo],
        Vec::new(),
        vec!["quick".to_string(), "misc".to_string()],
    );
    press(&mut app, key(KeyCode::Char('/')));
    let event = press(&mut app, key(KeyCode::Char('q')));
    assert!(!is_quit(&event));
    assert!(app.filter_mode.is_some());
    assert_eq!(app.active_group_filter(), Some("quick".to_string()));
    assert_eq!(app.visible_repo_indices().len(), 1);
    assert_eq!(selected_repo_name(&app), Some("quick-repo".to_string()));
    press(&mut app, shift_key('q'));
    assert_eq!(app.active_group_filter(), None);
    assert_eq!(app.visible_repo_indices().len(), 2);
}

#[test]
fn ctrl_t_switches_to_tag_filter_mode_and_ctrl_g_returns_to_group_mode() {
    let mut selected = repo("selected", "2026-03-03T00:00:00Z", None);
    selected.group = "tools".to_string();
    let mut app = app_with_registered_tags_and_groups(
        vec![selected],
        vec!["rust".to_string()],
        vec!["tools".to_string(), "web".to_string()],
    );
    press(&mut app, key(KeyCode::Char('/')));
    press(&mut app, ctrl_key('t'));
    assert_eq!(app.filter_mode.as_ref().map(|mode| mode.focus), Some(FilterModeFocus::Tag));
    assert_eq!(app.status_message, "tag絞り込みモード: a-z ON / A-Z OFF / Ctrl+Gでgroup / Enter確定 / Esc取消");
    assert_eq!(app.bottom_hint(), "a-z:on A-Z:off Ctrl+G:group ←→:page Enter:apply Esc:cancel");
    press(&mut app, ctrl_key('g'));
    assert_eq!(app.filter_mode.as_ref().map(|mode| mode.focus), Some(FilterModeFocus::Group));
}

#[test]
fn enter_confirms_group_and_tag_filters_together() {
    let mut rust_web = repo("rust-web", "2026-03-03T00:00:00Z", None);
    rust_web.group = "web".to_string();
    rust_web.tags = vec!["rust".to_string()];
    let mut rust_tools = repo("rust-tools", "2026-03-02T00:00:00Z", None);
    rust_tools.group = "tools".to_string();
    rust_tools.tags = vec!["rust".to_string()];
    let mut go_web = repo("go-web", "2026-03-01T00:00:00Z", None);
    go_web.group = "web".to_string();
    go_web.tags = vec!["go".to_string()];
    let mut app = app_with_registered_tags_and_groups(
        vec![rust_web, rust_tools, go_web],
        vec!["rust".to_string(), "go".to_string()],
        vec!["tools".to_string(), "web".to_string()],
    );
    press(&mut app, key(KeyCode::Char('/')));
    press(&mut app, key(KeyCode::Char('w')));
    press(&mut app, ctrl_key('t'));
    press(&mut app, key(KeyCode::Char('r')));
    assert_eq!(app.visible_repo_indices().len(), 1);
    assert_eq!(selected_repo_name(&app), Some("rust-web".to_string()));
    press(&mut app, key(KeyCode::Enter));
    assert!(app.filter_mode.is_none());
    assert_eq!(app.active_group_filter(), Some("web".to_string()));
    assert_eq!(app.active_tag_filter_tags(), vec!["rust".to_string()]);
    assert_eq!(app.visible_repo_indices().len(), 1);
    assert_eq!(app.status_message, "絞り込み更新: group=web / tags=rust");
}

#[test]
fn uppercase_group_shortcut_clears_pending_group_filter_regardless_of_key() {
    let mut tools_repo = repo("tools", "2026-03-02T00:00:00Z", None);
    tools_repo.group = "tools".to_string();
    let mut web_repo = repo("web", "2026-03-01T00:00:00Z", None);
    web_repo.group = "web".to_string();
    let mut app = app_with_registered_tags_and_groups(
        vec![tools_repo, web_repo],
        Vec::new(),
        vec!["tools".to_string(), "web".to_string()],
    );
    press(&mut app, key(KeyCode::Char('/')));
    press(&mut app, key(KeyCode::Char('w')));
    assert_eq!(app.active_group_filter(), Some("web".to_string()));
    press(&mut app, key(KeyCode::Char('X')));
    assert_eq!(app.active_group_filter(), None);
    assert_eq!(app.visible_repo_indices().len(), 2);
    assert_eq!(app.status_message, "group絞り込み候補 解除");
}

#[test]
fn escape_cancels_pending_filter_and_restores_previous_selection() {
    let mut tools_repo = repo("tools", "2026-03-02T00:00:00Z", None);
    tools_repo.group = "tools".to_string();
    let mut web_repo = repo("web", "2026-03-01T00:00:00Z", None);
    web_repo.group = "web".to_string();
    let mut app = app_with_registered_tags_and_groups(
        vec![tools_repo, web_repo],
        Vec::new(),
        vec!["tools".to_string(), "web".to_string()],
    );
    press(&mut app, key(KeyCode::Char('j')));
    assert_eq!(selected_repo_name(&app), Some("web".to_string()));
    press(&mut app, key(KeyCode::Char('/')));
    press(&mut app, key(KeyCode::Char('t')));
    assert_eq!(app.visible_repo_indices().len(), 1);
    assert_eq!(selected_repo_name(&app), Some("tools".to_string()));
    press(&mut app, key(KeyCode::Esc));
    assert!(app.filter_mode.is_none());
    assert_eq!(app.active_group_filter(), None);
    assert_eq!(app.visible_repo_indices().len(), 2);
    assert_eq!(selected_repo_name(&app), Some("web".to_string()));
    assert_eq!(app.status_message, "絞り込みをキャンセル");
}

#[test]
fn tag_catalog_state_marks_active_pending_filters_after_switching_to_tag_mode() {
    let mut rust_repo = repo("rust", "2026-03-01T00:00:00Z", None);
    rust_repo.tags = vec!["rust".to_string()];
    let mut app = app_with_registered_tags(vec![rust_repo], vec!["rust".to_string(), "go".to_string()]);
    press(&mut app, key(KeyCode::Char('/')));
    press(&mut app, ctrl_key('t'));
    press(&mut app, key(KeyCode::Char('r')));
    let state = app.tag_catalog_state();
    assert!(state.filter_mode_active);
    assert_eq!(state.active_filter_count, 1);
    assert!(state.entries.iter().any(|entry| entry.tag == "rust" && entry.filter_active));
    assert!(state.entries.iter().any(|entry| entry.tag == "go" && !entry.filter_active));
}
