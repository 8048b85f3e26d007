use own_repos_curator::curator::{App, EditorField, Effect, GroupInputMode, TagInputMode};
use own_repos_curator::keys::{Key, KeyCode};
use own_repos_curator::model::{Meta, Repo, RepoData, Timestamp, DEFAULT_GROUP_NAME};
use own_repos_curator::modes::{DescDisplayMode, SortMode};
use own_repos_curator::tags::TAG_KEYS;

fn ts(value: &str) -> Timestamp {
    let parsed = chrono::DateTime::parse_from_rfc3339(value).expect("valid datetime");
    Timestamp { secs: parsed.timestamp(), nanos: parsed.timestamp_subsec_nanos() }
}

fn repo(name: &str, created_at: &str, updated_at: Option<&str>) -> Repo {
    Repo {
        name: name.to_string(),
        url: String::new(),
        created_at: ts(created_at),
        updated_at: updated_at.map(ts),
        github_desc: String::new(),
        desc_short: String::new(),
        desc_long: String::new(),
        group: DEFAULT_GROUP_NAME.to_string(),
        tags: Vec::new(),
    }
}

fn registered_tags_from_repos(repos: &[Repo]) -> Vec<String> {
    repos
        .iter()
        .flat_map(|repo| repo.tags.iter().cloned())
        .collect::<std::collections::BTreeSet<_>>()
        .into_iter()
        .collect()
}

fn app_with_registered_tags_and_groups(repos: Vec<Repo>, registered_tags: Vec<String>, registered_groups: Vec<String>) -> App {
    let data = RepoData {
        meta: Meta {
            github_desc_updated_at: String::new(),
            last_json_commit_push_date: String::new(),
            owner: String::new(),
        },
        registered_tags,
        registered_groups,
        repos,
    };
    App::new(data, DescDisplayMode::RightPane)
}

fn app_with_registered_tags(repos: Vec<Repo>, registered_tags: Vec<String>) -> App {
    app_with_registered_tags_and_groups(repos, registered_tags, vec![DEFAULT_GROUP_NAME.to_string()])
}

fn app_with_repos(repos: Vec<Repo>) -> App {
    let registered_tags = registered_tags_from_repos(&repos);
    app_with_registered_tags(repos, registered_tags)
}

fn key(code: KeyCode) -> Key {
    Key { code, ctrl: false, alt: false, shift: false }
}

fn ctrl_key(ch: char) -> Key {
    Key { code: KeyCode::Char(ch), ctrl: true, alt: false, shift: false }
}

fn shift_key(ch: char) -> Key {
    Key { code: KeyCode::Char(ch.to_ascii_uppercase()), ctrl: false, alt: false, shift: true }
}

/// Hands a key to the curator and does what it asks, as the application
/// does: writes succeed.
fn press(app: &mut App, key: Key) -> Effect {
    let effect = app.handle_key(key);
    follow(app, effect, key)
}

fn follow(app: &mut App, effect: Effect, key: Key) -> Effect {
    match effect {
        Effect::Persist => {
            let next = app.persist_finished(Ok(()));
            follow(app, next, key)
        }
        other => other,
    }
}

fn is_quit(effect: &Effect) -> bool {
    matches!(effect, Effect::Quit)
}

fn selected_repo_name(app: &App) -> Option<String> {
    app.selected_repo_name()
}

fn check_tag_manager_state_is_none_until_opened() {
    let mut app = app_with_repos(vec![repo("solo", "2026-03-01T00:00:00Z", None)]);
    assert!(app.tag_manager_state().is_none());
    app.open_tag_manager();
    assert!(app.tag_manager_state().is_some());
}

fn check_pressing_n_opens_tag_input_when_no_registered_tags_exist() {
    let mut app = app_with_repos(vec![repo("solo", "2026-03-01T00:00:00Z", None)]);
    press(&mut app, key(KeyCode::Char('n')));
    assert!(app.tag_manager.is_none());
    assert!(matches!(
        app.tag_input.as_ref().map(|input| &input.mode),
        Some(TagInputMode::CreateAndAssignToSelectedRepo)
    ));
    assert_eq!(app.status_message, "新規tag: Enterで保存 / Escでキャンセル");
}

fn check_pressing_n_opens_tag_input_even_when_registered_tags_exist() {
    let mut app = app_with_registered_tags(vec![repo("solo", "2026-03-01T00:00:00Z", None)], vec!["rust".to_string()]);
    press(&mut app, key(KeyCode::Char('n')));
    assert!(matches!(
        app.tag_input.as_ref().map(|input| &input.mode),
        Some(TagInputMode::CreateAndAssignToSelectedRepo)
    ));
    assert_eq!(app.status_message, "新規tag: Enterで保存 / Escでキャンセル");
}

fn check_pressing_q_on_main_screen_quits() {
    let mut app = app_with_registered_tags(vec![repo("solo", "2026-03-01T00:00:00Z", None)], vec!["rust".to_string()]);
    let event = press(&mut app, key(KeyCode::Char('q')));
    assert!(is_quit(&event));
}

fn check_pressing_q_in_tag_manager_quits() {
    let mut app = app_with_registered_tags(vec![repo("solo", "2026-03-01T00:00:00Z", None)], vec!["rust".to_string()]);
    app.open_tag_manager();
    let event = press(&mut app, key(KeyCode::Char('q')));
    assert!(is_quit(&event));
}

fn check_pressing_q_while_typing_tag_input_keeps_input_open() {
    let mut app = app_with_repos(vec![repo("solo", "2026-03-01T00:00:00Z", None)]);
    press(&mut app, key(KeyCode::Char('n')));
    let event = press(&mut app, key(KeyCode::Char('q')));
    assert!(!is_quit(&event));
    assert_eq!(app.tag_input.as_ref().map(|input| input.value()), Some("q".to_string()));
}

fn check_pressing_ctrl_n_opens_tag_input() {
    let mut app = app_with_repos(vec![repo("solo", "2026-03-01T00:00:00Z", None)]);
    press(&mut app, ctrl_key('n'));
    assert!(matches!(
        app.tag_input.as_ref().map(|input| &input.mode),
        Some(TagInputMode::CreateAndAssignToSelectedRepo)
    ));
    assert_eq!(app.status_message, "新規tag: Enterで保存 / Escでキャンセル");
}

fn check_pressing_ctrl_g_opens_group_input() {
    let mut app = app_with_repos(vec![repo("solo", "2026-03-01T00:00:00Z", None)]);
    press(&mut app, ctrl_key('g'));
    assert!(matches!(
        app.group_input.as_ref().map(|input| &input.mode),
        Some(GroupInputMode::CreateAndAssignToSelectedRepo)
    ));
    assert_eq!(app.status_message, "新規group: Enterで保存 / Escでキャンセル");
}

fn check_pressing_shift_t_opens_tag_manager() {
    let mut app = app_with_registered_tags(vec![repo("solo", "2026-03-01T00:00:00Z", None)], vec!["rust".to_string()]);
    press(&mut app, shift_key('t'));
    assert!(app.tag_manager.is_some());
    assert_eq!(app.status_message, "tag manager: j/k移動 n新規 r改名 Escで閉じる");
}

fn check_pressing_shift_g_opens_group_manager() {
    let mut app = app_with_registered_tags(vec![repo("solo", "2026-03-01T00:00:00Z", None)], vec!["rust".to_string()]);
    press(&mut app, shift_key('g'));
    assert!(app.group_manager.is_some());
    assert_eq!(app.status_message, "group manager: j/k移動 n新規 r改名 Escで閉じる");
}

fn check_pressing_tab_no_longer_opens_tag_manager() {
    let mut app = app_with_registered_tags(vec![repo("solo", "2026-03-01T00:00:00Z", None)], vec!["rust".to_string()]);
    press(&mut app, key(KeyCode::Tab));
    assert!(app.tag_manager.is_none());
}

fn check_pressing_e_starts_short_desc_editor() {
    let mut app = app_with_registered_tags(vec![repo("solo", "2026-03-01T00:00:00Z", None)], vec!["rust".to_string()]);
    press(&mut app, key(KeyCode::Char('e')));
    assert!(matches!(app.editor.as_ref().map(|editor| editor.field), Some(EditorField::ShortDesc)));
    assert_eq!(app.status_message, "1行説明を編集中: Enterで保存 / Escでキャンセル");
}

fn check_pressing_shift_e_starts_short_desc_editor() {
    let mut app = app_with_registered_tags(vec![repo("solo", "2026-03-01T00:00:00Z", None)], vec!["rust".to_string()]);
    press(&mut app, shift_key('e'));
    assert!(matches!(app.editor.as_ref().map(|editor| editor.field), Some(EditorField::ShortDesc)));
}

fn check_pressing_l_starts_long_desc_editor() {
    let mut app = app_with_registered_tags(vec![repo("solo", "2026-03-01T00:00:00Z", None)], vec!["rust".to_string()]);
    press(&mut app, key(KeyCode::Char('l')));
    assert!(matches!(app.editor.as_ref().map(|editor| editor.field), Some(EditorField::LongDesc)));
    assert_eq!(app.status_message, "3行説明を編集中: Ctrl+Sで保存 / Enterで改行 / Escでキャンセル");
}

fn check_pressing_s_toggles_sort_mode() {
    let mut app = app_with_registered_tags(vec![repo("solo", "2026-03-01T00:00:00Z", None)], vec!["rust".to_string()]);
    assert_eq!(app.sort_mode, SortMode::Created);
    press(&mut app, key(KeyCode::Char('s')));
    assert_eq!(app.sort_mode, SortMode::Modified);
    assert_eq!(app.status_message, "sort: modify");
}

fn check_bottom_hint_points_to_quit_and_help() {
    let app = app_with_registered_tags(vec![repo("solo", "2026-03-01T00:00:00Z", None)], vec!["rust".to_string()]);
    assert_eq!(app.bottom_hint(), "q:quit ?:help");
}

fn check_shift_d_cycles_desc_display_modes() {
    let mut app = app_with_registered_tags(vec![repo("solo", "2026-03-01T00:00:00Z", None)], vec!["rust".to_string()]);
    assert_eq!(app.desc_display_mode, DescDisplayMode::RightPane);
    press(&mut app, shift_key('d'));
    assert_eq!(app.desc_display_mode, DescDisplayMode::LeftShort);
    assert_eq!(app.status_message, "desc表示: 左paneに1行説明");
    press(&mut app, shift_key('d'));
    assert_eq!(app.desc_display_mode, DescDisplayMode::LeftShortAndLong);
    assert_eq!(app.status_message, "desc表示: 左paneに1行説明+3行説明");
    press(&mut app, shift_key('d'));
    assert_eq!(app.desc_display_mode, DescDisplayMode::RightPane);
    assert_eq!(app.status_message, "desc表示: 右下paneに1行/3行説明");
}

fn check_shift_l_toggles_debug_log_pane() {
    let mut app = app_with_registered_tags(vec![repo("solo", "2026-03-01T00:00:00Z", None)], vec!["rust".to_string()]);
    assert!(!app.debug_log_expanded);
    press(&mut app, shift_key('l'));
    assert!(app.debug_log_expanded);
    assert_eq!(app.status_message, "debug log: 画面下部50%");
    press(&mut app, shift_key('l'));
    assert!(!app.debug_log_expanded);
    assert_eq!(app.status_message, "debug log: 1行");
}

fn check_selected_repo_tag_detail_state_shows_on_off_key_hints() {
    let mut selected = repo("solo", "2026-03-01T00:00:00Z", None);
    selected.tags = vec!["a-page-0".to_string(), "rust".to_string()];
    let mut registered_tags = TAG_KEYS.iter().map(|key| format!("{key}-page-0")).collect::<Vec<_>>();
    registered_tags.push("rust".to_string());
    let app = app_with_registered_tags(vec![selected], registered_tags);
    let state = app.selected_repo_tag_detail_state().expect("selected repo tag detail state");
    assert_eq!(state.repo_name, "solo");
    assert_eq!(state.tag_count, 2);
    assert_eq!(state.entries[0].key_hint, "a/A (1/2)");
    assert_eq!(state.entries[0].tag, "a-page-0");
    assert_eq!(state.entries[1].key_hint, "r/R (2/2)");
    assert_eq!(state.entries[1].tag, "rust");
}

fn check_selected_repo_desc_state_contains_descriptions() {
    let mut selected = repo("solo", "2026-03-01T00:00:00Z", None);
    selected.github_desc = "repo from GitHub".to_string();
    selected.desc_short = "short".to_string();
    selected.desc_long = "line 1\nline 2\nline 3".to_string();
    let app = app_with_registered_tags(vec![selected], vec!["rust".to_string()]);
    let state = app.selected_repo_desc_state().expect("selected repo desc state");
    assert_eq!(state.repo_name, "solo");
    assert_eq!(state.github_desc, "repo from GitHub");
    assert_eq!(state.desc_short, "short");
    assert_eq!(state.desc_long, "line 1\nline 2\nline 3");
    assert_eq!(state.group, "ungrouped");
    assert_eq!(state.group_key_hint, "u");
}

#[test]
fn key_handling_tag_manager_state_is_none_until_opened() {
    check_tag_manager_state_is_none_until_opened();
}

#[test]
fn key_handling_pressing_n_on_main_screen_opens_tag_input_when_no_registered_tags_exist() {
    check_pressing_n_opens_tag_input_when_no_registered_tags_exist();
}

#[test]
fn key_handling_pressing_n_on_main_screen_opens_tag_input_even_when_registered_tags_exist() {
    check_pressing_n_opens_tag_input_even_when_registered_tags_exist();
}

#[test]
fn key_handling_pressing_q_on_main_screen_quits() {
    check_pressing_q_on_main_screen_quits();
}

#[test]
fn key_handling_pressing_q_in_tag_manager_quits() {
    check_pressing_q_in_tag_manager_quits();
}

#[test]
fn key_handling_pressing_q_while_typing_tag_input_keeps_input_open() {
    check_pressing_q_while_typing_tag_input_keeps_input_open();
}

#[test]
fn key_handling_pressing_ctrl_n_on_main_screen_opens_tag_input() {
    check_pressing_ctrl_n_opens_tag_input();
}

#[test]
fn key_handling_pressing_ctrl_g_on_main_screen_opens_group_input() {
    check_pressing_ctrl_g_opens_group_input();
}

#[test]
fn key_handling_pressing_shift_t_on_main_screen_opens_tag_manager() {
    check_pressing_shift_t_opens_tag_manager();
}

#[test]
fn key_handling_pressing_shift_g_on_main_screen_opens_group_manager() {
    check_pressing_shift_g_opens_group_manager();
}

#[test]
fn key_handling_pressing_tab_on_main_screen_no_longer_opens_tag_manager() {
    check_pressing_tab_no_longer_opens_tag_manager();
}

#[test]
fn display_pressing_s_on_main_screen_toggles_sort_mode() {
    check_pressing_s_toggles_sort_mode();
}

#[test]
fn display_bottom_hint_on_main_screen_points_to_quit_and_help() {
    check_bottom_hint_points_to_quit_and_help();
}

#[test]
fn display_shift_d_cycles_desc_display_modes() {
    check_shift_d_cycles_desc_display_modes();
}

#[test]
fn display_shift_l_toggles_debug_log_pane_between_compact_and_expanded() {
    check_shift_l_toggles_debug_log_pane();
}

#[test]
fn display_selected_repo_tag_detail_state_shows_on_off_key_hints() {
    check_selected_repo_tag_detail_state_shows_on_off_key_hints();
}

#[test]
fn display_selected_repo_desc_state_contains_github_short_and_long_descriptions() {
    check_selected_repo_desc_state_contains_descriptions();
}

#[test]
fn editing_pressing_e_on_main_screen_starts_short_desc_editor() {
    check_pressing_e_starts_short_desc_editor();
}

#[test]
fn editing_pressing_shift_e_on_main_screen_starts_short_desc_editor() {
    check_pressing_shift_e_starts_short_desc_editor();
}

#[test]
fn editing_pressing_l_on_main_screen_starts_long_desc_editor() {
    check_pressing_l_starts_long_desc_editor();
}

#[test]
fn mod_tag_manager_state_is_none_until_opened() {
    check_tag_manager_state_is_none_until_opened();
}

#[test]
fn mod_pressing_n_on_main_screen_opens_tag_input_when_no_registered_tags_exist() {
    check_pressing_n_opens_tag_input_when_no_registered_tags_exist();
}

#[test]
fn mod_pressing_n_on_main_screen_opens_tag_input_even_when_registered_tags_exist() {
    check_pressing_n_opens_tag_input_even_when_registered_tags_exist();
}

#[test]
fn mod_pressing_q_on_main_screen_quits() {
    check_pressing_q_on_main_screen_quits();
}

#[test]
fn mod_pressing_q_in_tag_manager_quits() {
    check_pressing_q_in_tag_manager_quits();
}

#[test]
fn mod_pressing_q_while_typing_tag_input_keeps_input_open() {
    check_pressing_q_while_typing_tag_input_keeps_input_open();
}

#[test]
fn mod_pressing_ctrl_n_on_main_screen_opens_tag_input() {
    check_pressing_ctrl_n_opens_tag_input();
}

#[test]
fn mod_pressing_ctrl_g_on_main_screen_opens_group_input() {
    check_pressing_ctrl_g_opens_group_input();
}

#[test]
fn mod_pressing_shift_t_on_main_screen_opens_tag_manager() {
    check_pressing_shift_t_opens_tag_manager();
}

#[test]
fn mod_pressing_shift_g_on_main_screen_opens_group_manager() {
    check_pressing_shift_g_opens_group_manager();
}

#[test]
fn mod_pressing_tab_on_main_screen_no_longer_opens_tag_manager() {
    check_pressing_tab_no_longer_opens_tag_manager();
}

#[test]
fn mod_pressing_e_on_main_screen_starts_short_desc_editor() {
    check_pressing_e_starts_short_desc_editor();
}

#[test]
fn mod_pressing_shift_e_on_main_screen_starts_short_desc_editor() {
    check_pressing_shift_e_starts_short_desc_editor();
}

#[test]
fn mod_pressing_l_on_main_screen_starts_long_desc_editor() {
    check_pressing_l_starts_long_desc_editor();
}

#[test]
fn mod_pressing_s_on_main_screen_toggles_sort_mode() {
    check_pressing_s_toggles_sort_mode();
}

#[test]
fn mod_bottom_hint_on_main_screen_points_to_quit_and_help() {
    check_bottom_hint_points_to_quit_and_help();
}

#[test]
fn mod_shift_d_cycles_desc_display_modes() {
    check_shift_d_cycles_desc_display_modes();
}

#[test]
fn mod_shift_l_toggles_debug_log_pane_between_compact_and_expanded() {
    check_shift_l_toggles_debug_log_pane();
}

#[test]
fn mod_selected_repo_tag_detail_state_shows_on_off_key_hints() {
    check_selected_repo_tag_detail_state_shows_on_off_key_hints();
}

#[test]
fn mod_selected_repo_desc_state_contains_github_short_and_long_descriptions() {
    check_selected_repo_desc_state_contains_descriptions();
}

#[test]
fn editing_short_desc_editor_backspace_respects_cursor_position() {
    let mut selected = repo("solo", "2026-03-01T00:00:00Z", None);
    selected.desc_short = "abcd".to_string();
    let mut app = app_with_registered_tags(vec![selected], vec!["rust".to_string()]);

    press(&mut app, key(KeyCode::Char('e')));
    press(&mut app, key(KeyCode::Left));
    press(&mut app, key(KeyCode::Left));
    press(&mut app, key(KeyCode::Backspace));
    press(&mut app, key(KeyCode::Enter));

    assert_eq!(app.data.repos[0].desc_short, "acd");
}

#[test]
fn editing_long_desc_editor_inserts_text_at_cursor_position() {
    let mut selected = repo("solo", "2026-03-01T00:00:00Z", None);
    selected.desc_long = "ab".to_string();
    let mut app = app_with_registered_tags(vec![selected], vec!["rust".to_string()]);

    press(&mut app, key(KeyCode::Char('l')));
    press(&mut app, key(KeyCode::Left));
    press(&mut app, key(KeyCode::Char('X')));
    press(&mut app, ctrl_key('s'));

    assert_eq!(app.data.repos[0].desc_long, "aXb");
}

#[test]
fn mod_short_desc_editor_backspace_respects_cursor_position() {
    let mut selected = repo("solo", "2026-03-01T00:00:00Z", None);
    selected.desc_short = "abcd".to_string();
    let mut app = app_with_registered_tags(vec![selected], vec!["rust".to_string()]);

    press(&mut app, key(KeyCode::Char('e')));
    press(&mut app, key(KeyCode::Left));
    press(&mut app, key(KeyCode::Left));
    press(&mut app, key(KeyCode::Backspace));
    press(&mut app, key(KeyCode::Enter));

    assert_eq!(app.data.repos[0].desc_short, "acd");
}

#[test]
fn mod_long_desc_editor_inserts_text_at_cursor_position() {
    let mut selected = repo("solo", "2026-03-01T00:00:00Z", None);
    selected.desc_long = "ab".to_string();
    let mut app = app_with_registered_tags(vec![selected], vec!["rust".to_string()]);

    press(&mut app, key(KeyCode::Char('l')));
    press(&mut app, key(KeyCode::Left));
    press(&mut app, key(KeyCode::Char('X')));
    press(&mut app, ctrl_key('s'));

    assert_eq!(app.data.repos[0].desc_long, "aXb");
}

#[test]
fn long_desc_editor_enter_starts_a_new_line() {
    let mut selected = repo("solo", "2026-03-01T00:00:00Z", None);
    selected.desc_long = "one".to_string();
    let mut app = app_with_registered_tags(vec![selected], vec!["rust".to_string()]);

    press(&mut app, key(KeyCode::Char('l')));
    press(&mut app, key(KeyCode::Enter));
    press(&mut app, key(KeyCode::Char('t')));
    press(&mut app, ctrl_key('s'));

    assert_eq!(app.data.repos[0].desc_long, "one\nt");
}
