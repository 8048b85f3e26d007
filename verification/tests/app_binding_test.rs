use own_repos_curator::curator::{App, Effect, GroupInputMode, HelpScreen, TagInputMode};
use own_repos_curator::keys::{Key, KeyCode};
use own_repos_curator::model::{Meta, Repo, RepoData, Timestamp, DEFAULT_GROUP_NAME};
use own_repos_curator::modes::DescDisplayMode;

fn ts(value: &str) -> Timestamp {
    let parsed = chrono::DateTime::parse_from_rfc3339(value).expect("valid datetime");
    Timestamp { secs: parsed.timestamp(), nanos: parsed.timestamp_subsec_nanos() }
}

fn repo(name: &str, created_at: &str, updated_at: Option<&str>) -> Repo {
    Repo {
        name: name.to_string(),
        url: String::new(),
        created_at: ts(created_at),
        updated_at: updated_at.map(ts),
        github_desc: String::new(),
        desc_short: String::new(),
        desc_long: String::new(),
        group: DEFAULT_GROUP_NAME.to_string(),
        tags: Vec::new(),
    }
}

fn registered_tags_from_repos(repos: &[Repo]) -> Vec<String> {
    repos
        .iter()
        .flat_map(|repo| repo.tags.iter().cloned())
        .collect::<std::collections::BTreeSet<_>>()
        .into_iter()
        .collect()
}

fn app_with_registered_tags_and_groups(repos: Vec<Repo>, registered_tags: Vec<String>, registered_groups: Vec<String>) -> App {
    let data = RepoData {
        meta: Meta {
            github_desc_updated_at: String::new(),
            last_json_commit_push_date: String::new(),
            owner: String::new(),
        },
        registered_tags,
        registered_groups,
        repos,
    };
    App::new(data, DescDisplayMode::RightPane)
}

fn app_with_registered_tags(repos: Vec<Repo>, registered_tags: Vec<String>) -> App {
    app_with_registered_tags_and_groups(repos, registered_tags, vec![DEFAULT_GROUP_NAME.to_string()])
}

fn app_with_repos(repos: Vec<Repo>) -> App {
    let registered_tags = registered_tags_from_repos(&repos);
    app_with_registered_tags(repos, registered_tags)
}

fn key(code: KeyCode) -> Key {
    Key { code, ctrl: false, alt: false, shift: false }
}

fn ctrl_key(ch: char) -> Key {
    Key { code: KeyCode::Char(ch), ctrl: true, alt: false, shift: false }
}

fn shift_key(ch: char) -> Key {
    Key { code: KeyCode::Char(ch.to_ascii_uppercase()), ctrl: false, alt: false, shift: true }
}

/// Hands a key to the curator and does what it asks, as the application
/// does: writes succeed.
fn press(app: &mut App, key: Key) -> Effect {
    let effect = app.handle_key(key);
    follow(app, effect, key)
}

fn follow(app: &mut App, effect: Effect, key: Key) -> Effect {
    match effect {
        Effect::Persist => {
            let next = app.persist_finished(Ok(()));
            follow(app, next, key)
        }
        other => other,
    }
}

fn is_quit(effect: &Effect) -> bool {
    matches!(effect, Effect::Quit)
}

fn selected_repo_name(app: &App) -> Option<String> {
    app.selected_repo_name()
}

#[test]
fn pressing_n_in_empty_tag_manager_opens_tag_input_overlay() {
    let mut app = app_with_registered_tags(vec![repo("solo", "2026-03-01T00:00:00Z", None)], Vec::new());
    app.open_tag_manager();
    press(&mut app, key(KeyCode::Char('n')));
    assert!(matches!(app.tag_input.as_ref().map(|input| &input.mode), Some(TagInputMode::CreateRegisteredOnly)));
    assert_eq!(app.status_message, "新規tag: Enterで保存 / Escでキャンセル");
}

#[test]
fn entering_new_tag_adds_it_to_tag_manager_list() {
    let mut app = app_with_registered_tags(vec![repo("solo", "2026-03-01T00:00:00Z", None)], Vec::new());
    app.open_tag_manager();
    press(&mut app, key(KeyCode::Char('n')));
    for ch in ['r', 'u', 's', 't'] {
        press(&mut app, key(KeyCode::Char(ch)));
    }
    press(&mut app, key(KeyCode::Enter));
    assert!(app.tag_input.is_none());
    assert!(app.data.repos[0].tags.is_empty());
    assert_eq!(app.data.registered_tags, vec!["rust".to_string()]);
    let state = app.tag_manager_state().expect("tag manager state");
    assert_eq!(state.entries.len(), 1);
    assert_eq!(state.entries[0].tag, "rust");
    assert_eq!(app.status_message, "tag追加(global): rust");
}

#[test]
fn tag_manager_state_lists_registered_tags() {
    let mut app = app_with_registered_tags(vec![repo("solo", "2026-03-01T00:00:00Z", None)], vec!["rust".to_string()]);
    app.open_tag_manager();
    let state = app.tag_manager_state().expect("tag manager state");
    assert_eq!(state.entries.len(), 1);
    assert_eq!(state.entries[0].tag, "rust");
}

#[test]
fn space_in_tag_manager_no_longer_toggles_selected_repo_tag() {
    let mut selected = repo("solo", "2026-03-01T00:00:00Z", None);
    selected.tags = vec!["rust".to_string()];
    let mut app = app_with_registered_tags(vec![selected], vec!["rust".to_string()]);
    app.open_tag_manager();
    press(&mut app, key(KeyCode::Char(' ')));
    assert_eq!(app.data.repos[0].tags, vec!["rust".to_string()]);
    assert_eq!(app.status_message, "tag manager: j/k移動 n新規 r改名 Escで閉じる");
}

#[test]
fn pressing_d_in_tag_manager_no_longer_deletes_registered_tags() {
    let mut selected = repo("solo", "2026-03-01T00:00:00Z", None);
    selected.tags = vec!["rust".to_string()];
    let mut app = app_with_registered_tags(vec![selected], vec!["rust".to_string()]);
    app.open_tag_manager();
    press(&mut app, key(KeyCode::Char('d')));
    assert_eq!(app.data.registered_tags, vec!["rust".to_string()]);
    assert_eq!(app.data.repos[0].tags, vec!["rust".to_string()]);
    assert_eq!(app.status_message, "tag manager: j/k移動 n新規 r改名 Escで閉じる");
}

#[test]
fn pressing_t_enters_tag_binding_mode() {
    let selected = repo("selected", "2026-03-02T00:00:00Z", None);
    let mut app = app_with_registered_tags(vec![selected], vec!["rust".to_string()]);
    press(&mut app, key(KeyCode::Char('t')));
    assert!(app.tag_binding_mode.is_some());
    assert_eq!(app.status_message, "tag紐付けモード開始: ? で専用help");
}

#[test]
fn pressing_question_mark_on_main_screen_opens_main_help() {
    let mut app = app_with_registered_tags(vec![repo("solo", "2026-03-01T00:00:00Z", None)], vec!["rust".to_string()]);
    press(&mut app, key(KeyCode::Char('?')));
    assert_eq!(app.help_screen, Some(HelpScreen::Main));
    assert!(app.tag_binding_mode.is_none());
}

#[test]
fn pressing_question_mark_in_tag_binding_mode_opens_tag_binding_help() {
    let selected = repo("selected", "2026-03-02T00:00:00Z", None);
    let mut app = app_with_registered_tags(vec![selected], vec!["rust".to_string()]);
    press(&mut app, key(KeyCode::Char('t')));
    press(&mut app, key(KeyCode::Char('?')));
    assert_eq!(app.help_screen, Some(HelpScreen::TagBinding));
    assert!(app.tag_binding_mode.is_some());
}

#[test]
fn escape_closes_tag_binding_help_before_leaving_mode() {
    let selected = repo("selected", "2026-03-02T00:00:00Z", None);
    let mut app = app_with_registered_tags(vec![selected], vec!["rust".to_string()]);
    press(&mut app, key(KeyCode::Char('t')));
    press(&mut app, key(KeyCode::Char('?')));
    press(&mut app, key(KeyCode::Esc));
    assert_eq!(app.help_screen, None);
    assert!(app.tag_binding_mode.is_some());
}

#[test]
fn tag_binding_mode_bottom_hint_points_to_save_cancel_and_help() {
    let selected = repo("selected", "2026-03-02T00:00:00Z", None);
    let mut app = app_with_registered_tags(vec![selected], vec!["rust".to_string()]);
    press(&mut app, key(KeyCode::Char('t')));
    assert_eq!(app.bottom_hint(), "Enter:save Esc:cancel ?:help");
}

#[test]
fn lowercase_tag_shortcut_requires_tag_binding_mode() {
    let selected = repo("selected", "2026-03-02T00:00:00Z", None);
    let mut app = app_with_registered_tags(vec![selected], vec!["rust".to_string()]);
    press(&mut app, key(KeyCode::Char('a')));
    assert!(app.data.repos[0].tags.is_empty());
    assert!(!app.status_message.contains("tag追加"));
}

#[test]
fn lowercase_tag_shortcut_assigns_registered_tag_after_confirm() {
    let selected = repo("selected", "2026-03-02T00:00:00Z", None);
    let mut app = app_with_registered_tags(vec![selected], vec!["rust".to_string()]);
    press(&mut app, key(KeyCode::Char('t')));
    press(&mut app, key(KeyCode::Char('r')));
    assert!(app.data.repos[0].tags.is_empty());
    press(&mut app, key(KeyCode::Enter));
    assert_eq!(app.data.repos[0].tags, vec!["rust".to_string()]);
    assert_eq!(app.status_message, "tag更新: selected");
}

#[test]
fn uppercase_tag_shortcut_removes_registered_tag_from_selected_repo_only_after_confirm() {
    let mut selected = repo("selected", "2026-03-02T00:00:00Z", None);
    selected.tags = vec!["rust".to_string()];
    let mut app = app_with_registered_tags(vec![selected], vec!["rust".to_string()]);
    press(&mut app, key(KeyCode::Char('t')));
    press(&mut app, key(KeyCode::Char('R')));
    assert_eq!(app.data.repos[0].tags, vec!["rust".to_string()]);
    press(&mut app, key(KeyCode::Enter));
    assert!(app.data.repos[0].tags.is_empty());
    assert_eq!(app.data.registered_tags, vec!["rust".to_string()]);
    assert_eq!(app.status_message, "tag更新: selected");
}

#[test]
fn escape_in_tag_binding_mode_discards_pending_changes() {
    let selected = repo("selected", "2026-03-02T00:00:00Z", None);
    let mut app = app_with_registered_tags(vec![selected], vec!["rust".to_string()]);
    press(&mut app, key(KeyCode::Char('t')));
    press(&mut app, key(KeyCode::Char('r')));
    press(&mut app, key(KeyCode::Esc));
    assert!(app.tag_binding_mode.is_none());
    assert!(app.data.repos[0].tags.is_empty());
    assert_eq!(app.status_message, "tag紐付けをキャンセル");
}

#[test]
fn q_does_not_quit_inside_tag_binding_mode_and_can_bind_q_slot() {
    let selected = repo("selected", "2026-03-02T00:00:00Z", None);
    let mut app = app_with_registered_tags(vec![selected], vec!["quick".to_string()]);
    press(&mut app, key(KeyCode::Char('t')));
    let event = press(&mut app, key(KeyCode::Char('q')));
    assert!(!is_quit(&event));
    assert!(app.tag_binding_mode.is_some());
    press(&mut app, key(KeyCode::Enter));
    assert_eq!(app.data.repos[0].tags, vec!["quick".to_string()]);
    assert_eq!(app.status_message, "tag更新: selected");
}

#[test]
fn pressing_n_in_group_manager_opens_group_input_overlay() {
    let mut selected = repo("solo", "2026-03-01T00:00:00Z", None);
    selected.group = "tools".to_string();
    let mut app = app_with_registered_tags_and_groups(vec![selected], Vec::new(), vec!["tools".to_string()]);
    app.open_group_manager();
    press(&mut app, key(KeyCode::Char('n')));
    assert!(matches!(app.group_input.as_ref().map(|input| &input.mode), Some(GroupInputMode::CreateRegisteredOnly)));
    assert_eq!(app.status_message, "新規group: Enterで保存 / Escでキャンセル");
}

#[test]
fn entering_new_group_adds_it_to_group_manager_list() {
    let mut selected = repo("solo", "2026-03-01T00:00:00Z", None);
    selected.group = "tools".to_string();
    let mut app = app_with_registered_tags_and_groups(vec![selected], Vec::new(), vec!["tools".to_string()]);
    app.open_group_manager();
    press(&mut app, key(KeyCode::Char('n')));
    for ch in "web".chars() {
        press(&mut app, key(KeyCode::Char(ch)));
    }
    press(&mut app, key(KeyCode::Enter));
    assert!(app.group_input.is_none());
    assert_eq!(app.data.repos[0].group, "tools");
    assert_eq!(app.data.registered_groups, vec!["tools".to_string(), "web".to_string()]);
    let state = app.group_manager_state().expect("group manager state");
    assert_eq!(state.entries[1].group, "web");
    assert_eq!(state.selected, 1);
    assert_eq!(app.status_message, "group追加(global): web");
}

#[test]
fn pressing_g_enters_group_binding_mode() {
    let mut selected = repo("selected", "2026-03-01T00:00:00Z", None);
    selected.group = "tools".to_string();
    let mut app = app_with_registered_tags_and_groups(vec![selected], Vec::new(), vec!["tools".to_string(), "web".to_string()]);
    press(&mut app, key(KeyCode::Char('g')));
    assert!(app.group_binding_mode.is_some());
    assert_eq!(app.status_message, "group割り当てモード開始: ? で専用help");
}

#[test]
fn pressing_question_mark_in_group_binding_mode_opens_group_binding_help() {
    let mut selected = repo("selected", "2026-03-01T00:00:00Z", None);
    selected.group = "tools".to_string();
    let mut app = app_with_registered_tags_and_groups(vec![selected], Vec::new(), vec!["tools".to_string(), "web".to_string()]);
    press(&mut app, key(KeyCode::Char('g')));
    press(&mut app, key(KeyCode::Char('?')));
    assert!(app.group_binding_mode.is_some());
    assert_eq!(app.help_screen, Some(HelpScreen::GroupBinding));
}

#[test]
fn group_binding_mode_bottom_hint_points_to_assign_cancel_and_help() {
    let mut selected = repo("selected", "2026-03-01T00:00:00Z", None);
    selected.group = "tools".to_string();
    let mut app = app_with_registered_tags_and_groups(vec![selected], Vec::new(), vec!["tools".to_string(), "web".to_string()]);
    press(&mut app, key(KeyCode::Char('g')));
    assert_eq!(app.bottom_hint(), "a-z:assign Esc:cancel ?:help");
}

#[test]
fn enter_in_group_binding_mode_no_longer_confirms_anything() {
    let mut selected = repo("selected", "2026-03-01T00:00:00Z", None);
    selected.group = "tools".to_string();
    let mut app = app_with_registered_tags_and_groups(vec![selected], Vec::new(), vec!["tools".to_string(), "web".to_string()]);
    press(&mut app, key(KeyCode::Char('g')));
    press(&mut app, key(KeyCode::Enter));
    assert!(app.group_binding_mode.is_some());
    assert_eq!(app.data.repos[0].group, "tools");
    assert_eq!(app.status_message, "group割り当てモード開始: ? で専用help");
}

#[test]
fn lowercase_group_shortcut_assigns_registered_group_immediately() {
    let mut selected = repo("selected", "2026-03-01T00:00:00Z", None);
    selected.group = "tools".to_string();
    let mut app = app_with_registered_tags_and_groups(vec![selected], Vec::new(), vec!["tools".to_string(), "web".to_string()]);
    press(&mut app, key(KeyCode::Char('g')));
    press(&mut app, key(KeyCode::Char('w')));
    assert_eq!(app.data.repos[0].group, "web");
    assert!(app.group_binding_mode.is_none());
    assert_eq!(app.status_message, "group更新: selected");
}

#[test]
fn escape_in_group_binding_mode_cancels_without_changing_group() {
    let mut selected = repo("selected", "2026-03-01T00:00:00Z", None);
    selected.group = "tools".to_string();
    let mut app = app_with_registered_tags_and_groups(vec![selected], Vec::new(), vec!["tools".to_string(), "web".to_string()]);
    press(&mut app, key(KeyCode::Char('g')));
    press(&mut app, key(KeyCode::Esc));
    assert!(app.group_binding_mode.is_none());
    assert_eq!(app.data.repos[0].group, "tools");
    assert_eq!(app.status_message, "group割り当てをキャンセル");
}

#[test]
fn ctrl_g_can_create_and_assign_new_group_to_selected_repo() {
    let mut app = app_with_repos(vec![repo("selected", "2026-03-01T00:00:00Z", None)]);
    press(&mut app, ctrl_key('g'));
    for ch in "web".chars() {
        press(&mut app, key(KeyCode::Char(ch)));
    }
    press(&mut app, key(KeyCode::Enter));
    assert_eq!(app.data.repos[0].group, "web");
    assert!(app.data.registered_groups.iter().any(|group| group == "web"));
    assert_eq!(app.status_message, "group更新: selected");
}

#[test]
fn q_does_not_quit_inside_group_binding_mode_and_can_bind_q_slot() {
    let mut selected = repo("selected", "2026-03-01T00:00:00Z", None);
    selected.group = "tools".to_string();
    let mut app = app_with_registered_tags_and_groups(vec![selected], Vec::new(), vec!["quick".to_string(), "tools".to_string()]);
    press(&mut app, key(KeyCode::Char('g')));
    let event = press(&mut app, key(KeyCode::Char('q')));
    assert!(!is_quit(&event));
    assert_eq!(app.data.repos[0].group, "quick");
    assert!(app.group_binding_mode.is_none());
    assert_eq!(app.status_message, "group更新: selected");
}

#[test]
fn failed_tag_binding_save_puts_tags_back() {
    let selected = repo("selected", "2026-03-02T00:00:00Z", None);
    let mut app = app_with_registered_tags(vec![selected], vec!["rust".to_string()]);
    press(&mut app, key(KeyCode::Char('t')));
    press(&mut app, key(KeyCode::Char('r')));
    let effect = app.handle_key(key(KeyCode::Enter));
    assert_eq!(effect, Effect::Persist);
    assert_eq!(app.data.repos[0].tags, vec!["rust".to_string()]);
    let next = app.persist_finished(Err("disk full".to_string()));
    assert_eq!(next, Effect::Nothing);
    assert!(app.data.repos[0].tags.is_empty());
    assert_eq!(app.status_message, "保存失敗: disk full");
}

#[test]
fn failed_group_binding_save_puts_group_back() {
    let selected = repo("selected", "2026-03-02T00:00:00Z", None);
    let mut app = app_with_registered_tags_and_groups(
        vec![selected],
        Vec::new(),
        vec!["tools".to_string(), DEFAULT_GROUP_NAME.to_string()],
    );
    press(&mut app, key(KeyCode::Char('g')));
    let effect = app.handle_key(key(KeyCode::Char('t')));
    assert_eq!(effect, Effect::Persist);
    assert_eq!(app.data.repos[0].group, "tools");
    let next = app.persist_finished(Err("read-only".to_string()));
    assert_eq!(next, Effect::Nothing);
    assert_eq!(app.data.repos[0].group, DEFAULT_GROUP_NAME);
    assert_eq!(app.status_message, "保存失敗: read-only");
}

#[test]
fn failed_editor_save_puts_description_back() {
    let mut selected = repo("selected", "2026-03-02T00:00:00Z", None);
    selected.desc_short = "old".to_string();
    let mut app = app_with_repos(vec![selected]);
    press(&mut app, key(KeyCode::Char('e')));
    for _ in 0..3 {
        press(&mut app, key(KeyCode::Backspace));
    }
    for ch in "new".chars() {
        press(&mut app, key(KeyCode::Char(ch)));
    }
    let effect = app.handle_key(key(KeyCode::Enter));
    assert_eq!(effect, Effect::Persist);
    assert_eq!(app.data.repos[0].desc_short, "new");
    let next = app.persist_finished(Err("no space".to_string()));
    assert_eq!(next, Effect::Nothing);
    assert_eq!(app.data.repos[0].desc_short, "old");
    assert!(app.editor.is_none());
    assert_eq!(app.status_message, "保存失敗: no space");
}

#[test]
fn adding_then_removing_a_tag_in_binding_mode_leaves_nothing_to_save() {
    let selected = repo("selected", "2026-03-02T00:00:00Z", None);
    let mut app = app_with_registered_tags(vec![selected], vec!["rust".to_string()]);
    press(&mut app, key(KeyCode::Char('t')));
    press(&mut app, key(KeyCode::Char('r')));
    assert_eq!(app.tag_binding_mode.as_ref().unwrap().pending_tags, vec!["rust".to_string()]);
    press(&mut app, key(KeyCode::Char('R')));
    assert!(app.tag_binding_mode.as_ref().unwrap().pending_tags.is_empty());
    let effect = press(&mut app, key(KeyCode::Enter));
    assert_eq!(effect, Effect::Nothing);
    assert_eq!(app.status_message, "tag変更なし");
    assert!(app.data.repos[0].tags.is_empty());
}

#[test]
fn tag_input_delete_removes_character_at_cursor_position() {
    let mut app = app_with_registered_tags(vec![repo("solo", "2026-03-01T00:00:00Z", None)], Vec::new());

    press(&mut app, key(KeyCode::Char('n')));
    for ch in "abcd".chars() {
        press(&mut app, key(KeyCode::Char(ch)));
    }
    press(&mut app, key(KeyCode::Left));
    press(&mut app, key(KeyCode::Left));
    press(&mut app, key(KeyCode::Delete));
    press(&mut app, key(KeyCode::Enter));

    assert_eq!(app.data.repos[0].tags, vec!["abd".to_string()]);
    assert_eq!(app.data.registered_tags, vec!["abd".to_string()]);
}

#[test]
fn group_input_inserts_text_at_cursor_position() {
    let mut app = app_with_repos(vec![repo("selected", "2026-03-01T00:00:00Z", None)]);

    press(&mut app, ctrl_key('g'));
    for ch in "abcd".chars() {
        press(&mut app, key(KeyCode::Char(ch)));
    }
    press(&mut app, key(KeyCode::Left));
    press(&mut app, key(KeyCode::Left));
    press(&mut app, key(KeyCode::Char('X')));
    press(&mut app, key(KeyCode::Enter));

    assert_eq!(app.data.repos[0].group, "abXcd");
    assert!(app.data.registered_groups.iter().any(|group| group == "abXcd"));
}

#[test]
fn tag_input_keeps_one_line_and_logs_its_text() {
    let mut app = app_with_registered_tags(vec![repo("solo", "2026-03-01T00:00:00Z", None)], Vec::new());

    press(&mut app, key(KeyCode::Char('n')));
    press(&mut app, key(KeyCode::Char('a')));
    press(&mut app, Key { code: KeyCode::Char('m'), ctrl: true, alt: false, shift: false });
    press(&mut app, key(KeyCode::Char('b')));
    let input = app.tag_input.as_ref().expect("tag input open");
    assert_eq!(input.value(), "a b");
    assert_eq!(input.textarea.area.lines().len(), 1);
    let lines = app.debug_log_lines();
    assert!(lines.last().unwrap().ends_with("tag_input edited: \"a b\""));
}

#[test]
fn renaming_a_group_opens_the_input_on_its_name() {
    let mut app = app_with_registered_tags_and_groups(
        vec![repo("selected", "2026-03-01T00:00:00Z", None)],
        Vec::new(),
        vec!["tools".to_string()],
    );
    app.open_group_manager();
    press(&mut app, key(KeyCode::Char('r')));
    assert_eq!(app.group_input.as_ref().map(|input| input.value()), Some("tools".to_string()));
    press(&mut app, key(KeyCode::Home));
    press(&mut app, key(KeyCode::Char('x')));
    assert_eq!(app.group_input.as_ref().map(|input| input.value()), Some("xtools".to_string()));
}
