use own_repos_curator::text_box::{new_single_line_text_box, new_text_box, press_key, text_box_key, text_box_value, text_key, TextKey};
use own_repos_curator::keys::Key;
use own_repos_curator::right_pane::{group_summary_empty_message, group_summary_empty_title, tag_catalog_empty_message};
use own_repos_curator::github::{apply_fetched_repos, FetchedRepo};
use own_repos_curator::keys::{describe_key_code, KeyCode};
use own_repos_curator::curator::shortcut_on_page;
use own_repos_curator::tags::tag_shortcut_for_tag;
use own_repos_curator::colors::{group_color, tag_color};
use own_repos_curator::config::{AppConfig, GitHubRepoRef, JsonAutoPushConfig};
use own_repos_curator::json_auto_push::{plan_json_push, plan_manual_json_push, PushPlan};
use own_repos_curator::model::{Meta, Repo, RepoData, Timestamp, DEFAULT_GROUP_NAME};
use own_repos_curator::paths::{
    app_local_dir_path, config_dir_path, config_file_path, data_dir_path, history_file_path,
    maybe_copy_json_to_local_data_repo,
};
use own_repos_curator::repo_url_cache::RepoUrlCache;
use own_repos_curator::right_pane::{
    layout_right_pane, selected_repo_tag_detail_lines, Area, GroupSummaryEntry, SelectedRepoTagDetailEntry,
    SelectedRepoTagDetailState, TagCatalogState,
};

fn ts(value: &str) -> Timestamp {
    let parsed = chrono::DateTime::parse_from_rfc3339(value).expect("valid datetime");
    Timestamp { secs: parsed.timestamp(), nanos: parsed.timestamp_subsec_nanos() }
}

fn empty_meta() -> Meta {
    Meta {
        github_desc_updated_at: String::new(),
        last_json_commit_push_date: String::new(),
        owner: String::new(),
    }
}

#[test]
fn prepared_for_serialization_adds_repo_url_from_cache() {
    let cache = RepoUrlCache::from_entries(&[(
        "cat2151/own-repos-curator",
        "https://github.com/cat2151/own-repos-curator/blob/HEAD/README.ja.md",
    )]);
    let data = RepoData {
        meta: empty_meta(),
        registered_tags: Vec::new(),
        registered_groups: vec![DEFAULT_GROUP_NAME.to_string()],
        repos: vec![Repo {
            name: "own-repos-curator".to_string(),
            url: String::new(),
            created_at: ts("2026-04-01T00:00:00Z"),
            updated_at: Some(ts("2026-04-02T00:00:00Z")),
            github_desc: String::new(),
            desc_short: String::new(),
            desc_long: String::new(),
            group: DEFAULT_GROUP_NAME.to_string(),
            tags: Vec::new(),
        }],
    };
    let normalized = data.prepared_for_serialization(&cache);
    assert_eq!(normalized.meta.owner, "cat2151");
    assert_eq!(
        normalized.repos[0].url,
        "https://github.com/cat2151/own-repos-curator/blob/HEAD/README.ja.md"
    );
}

#[test]
fn config_paths_use_local_app_dir() {
    let local_dir = app_local_dir_path().expect("local app dir should resolve");
    let config_dir = config_dir_path().expect("config dir should resolve");
    assert_eq!(config_dir.base, local_dir.base);
    assert_eq!(config_dir.parts, local_dir.parts);
    let config_file = config_file_path().expect("config file should resolve");
    let mut expected = local_dir.parts.clone();
    expected.push("config.toml".to_string());
    assert_eq!(config_file.base, local_dir.base);
    assert_eq!(config_file.parts, expected);
    let history_file = history_file_path().expect("history file should resolve");
    let mut expected = local_dir.parts.clone();
    expected.push("history.json".to_string());
    assert_eq!(history_file.base, local_dir.base);
    assert_eq!(history_file.parts, expected);
}

#[test]
fn data_file_sits_in_the_data_directory() {
    let dir = data_dir_path().expect("data dir should resolve");
    let file = RepoData::data_file_path().expect("data file should resolve");
    let mut expected = dir.parts.clone();
    expected.push("repos.json".to_string());
    assert_eq!(file.base, dir.base);
    assert_eq!(file.parts, expected);
}

#[test]
fn skips_when_today_was_already_pushed() {
    let today = chrono::Utc::now().date_naive().to_string();
    let mut meta = empty_meta();
    meta.last_json_commit_push_date = today.clone();
    let data = RepoData {
        meta,
        registered_tags: Vec::new(),
        registered_groups: vec!["ungrouped".to_string()],
        repos: Vec::new(),
    };
    let config = AppConfig {
        json_auto_push: JsonAutoPushConfig {
            repo: Some(GitHubRepoRef::parse("cat2151/backups").expect("valid repo")),
        },
    };
    let plan = plan_json_push(&data, &config, today.clone());
    match plan {
        PushPlan::SkippedToday { date } => assert_eq!(date, today),
        _ => panic!("the push should be skipped"),
    }
}

#[test]
fn plan_pushes_once_a_day_and_only_when_configured() {
    let data = RepoData::empty();
    let disabled = AppConfig { json_auto_push: JsonAutoPushConfig { repo: None } };
    assert!(matches!(plan_json_push(&data, &disabled, "2026-04-05".to_string()), PushPlan::Disabled));
    let config = AppConfig {
        json_auto_push: JsonAutoPushConfig { repo: Some(GitHubRepoRef::parse("cat2151/backups").expect("valid repo")) },
    };
    match plan_json_push(&data, &config, "2026-04-05".to_string()) {
        PushPlan::Push { repo, date } => {
            assert_eq!(repo.as_str(), "cat2151/backups");
            assert_eq!(date, "2026-04-05");
        }
        _ => panic!("a push was due"),
    }
}

#[test]
fn layout_right_pane_places_group_summary_above_tag_catalog() {
    let catalog = TagCatalogState {
        entries: vec![],
        page: 0,
        page_count: 0,
        total_tags: 0,
        active_filter_count: 0,
        filter_mode_active: false,
    };
    let detail = SelectedRepoTagDetailState { repo_name: "repo".to_string(), tag_count: 0, entries: vec![] };
    let area = Area { x: 40, y: 2, width: 30, height: 20 };
    let layout = layout_right_pane(
        area,
        &[GroupSummaryEntry { group: "tools".to_string(), count: 2 }],
        false,
        &catalog,
        Some(&detail),
        None,
        false,
    );
    assert_eq!(layout.group_summary.y, 2);
    assert!(layout.tag_catalog.y >= layout.group_summary.y + layout.group_summary.height);
    assert!(layout.tag_detail.y >= layout.tag_catalog.y + layout.tag_catalog.height);
    assert!(layout.desc.is_none());
    assert_eq!(layout.group_summary.height, 3);
    assert_eq!(
        layout.group_summary.height + layout.tag_catalog.height + layout.tag_detail.height,
        area.height
    );
}

#[test]
fn tag_detail_lines_pad_the_key_hints() {
    let state = SelectedRepoTagDetailState {
        repo_name: "repo".to_string(),
        tag_count: 1,
        entries: vec![SelectedRepoTagDetailEntry { key_hint: "r/R".to_string(), tag: "rust".to_string() }],
    };
    let lines = selected_repo_tag_detail_lines(&state);
    assert_eq!(lines[0], vec!["repo".to_string()]);
    assert_eq!(lines[1], vec!["tag数: 1".to_string()]);
    assert_eq!(lines[2], vec!["r/R        ".to_string(), " ".to_string(), "rust".to_string()]);
    let empty = SelectedRepoTagDetailState { repo_name: "repo".to_string(), tag_count: 0, entries: vec![] };
    assert_eq!(selected_repo_tag_detail_lines(&empty)[2], vec!["(tagなし)".to_string()]);
}

#[test]
fn default_group_uses_light_gray() {
    let groups = vec!["apps".to_string(), DEFAULT_GROUP_NAME.to_string(), "tools".to_string()];
    assert_eq!(group_color(&groups, DEFAULT_GROUP_NAME), None);
}

#[test]
fn non_default_groups_use_monokai_colors_in_registered_order() {
    let groups = vec![
        "apps".to_string(),
        DEFAULT_GROUP_NAME.to_string(),
        "tools".to_string(),
        "web".to_string(),
    ];
    assert_eq!(group_color(&groups, "apps"), Some(0));
    assert_eq!(group_color(&groups, "tools"), Some(1));
    assert_eq!(group_color(&groups, "web"), Some(2));
    assert_eq!(group_color(&groups, "unknown"), None);
}

#[test]
fn style_for_tag_uses_registered_order() {
    let tags = vec!["rust".to_string(), "zig".to_string(), "go".to_string()];
    assert_eq!(tag_color(&tags, "zig"), Some(1));
}

#[test]
fn unregistered_tags_fall_back_to_soft_style() {
    let tags = vec!["rust".to_string()];
    assert_eq!(tag_color(&tags, "unknown"), None);
}

#[test]
fn tag_colors_go_round_the_palette() {
    let tags = (0..8).map(|i| format!("t{i}")).collect::<Vec<_>>();
    assert_eq!(tag_color(&tags, "t6"), Some(0));
    assert_eq!(tag_color(&tags, "t7"), Some(1));
}

#[test]
fn copies_json_when_source_is_primary_data_path_and_sibling_repo_exists() {
    let parent = std::path::PathBuf::from("/work");
    let target = maybe_copy_json_to_local_data_repo(true, Some(parent.clone()), true).expect("copy target");
    assert_eq!(target.base, parent);
    assert_eq!(target.parts, vec!["own-repos-curator-data".to_string(), "repos.json".to_string()]);
}

#[test]
fn skips_copy_when_sibling_repo_does_not_exist() {
    assert!(maybe_copy_json_to_local_data_repo(true, Some(std::path::PathBuf::from("/work")), false).is_none());
}

#[test]
fn skips_copy_for_non_primary_data_path() {
    assert!(maybe_copy_json_to_local_data_repo(false, Some(std::path::PathBuf::from("/work")), true).is_none());
    assert!(maybe_copy_json_to_local_data_repo(true, None, true).is_none());
}

fn messy_repo(name: &str, created_at: &str, group: &str, tags: &[&str]) -> Repo {
    Repo {
        name: name.to_string(),
        url: "  https://example.com/x  ".to_string(),
        created_at: ts(created_at),
        updated_at: None,
        github_desc: String::new(),
        desc_short: String::new(),
        desc_long: String::new(),
        group: group.to_string(),
        tags: tags.iter().map(|t| t.to_string()).collect(),
    }
}

#[test]
fn normalizing_twice_is_normalizing_once() {
    let mut data = RepoData {
        meta: Meta {
            github_desc_updated_at: String::new(),
            last_json_commit_push_date: String::new(),
            owner: "  cat2151 ".to_string(),
        },
        registered_tags: vec![" rust".to_string(), "go".to_string(), "rust ".to_string(), "  ".to_string()],
        registered_groups: vec![" tools ".to_string()],
        repos: vec![
            messy_repo("old", "2026-01-01T00:00:00Z", "  ", &["zig", " zig", "c"]),
            messy_repo("new", "2026-03-01T00:00:00Z", " apps", &[]),
            messy_repo("same-a", "2026-02-01T00:00:00Z", "tools", &[]),
            messy_repo("same-b", "2026-02-01T00:00:00Z", "tools", &[]),
        ],
    };
    data.normalize();
    assert_eq!(data.registered_tags, vec!["go".to_string(), "rust".to_string()]);
    assert_eq!(
        data.registered_groups,
        vec!["apps".to_string(), "tools".to_string(), DEFAULT_GROUP_NAME.to_string()]
    );
    assert_eq!(data.meta.owner, "cat2151");
    let names: Vec<&str> = data.repos.iter().map(|r| r.name.as_str()).collect();
    assert_eq!(names, vec!["new", "same-a", "same-b", "old"]);
    assert_eq!(data.repos[3].tags, vec!["c".to_string(), "zig".to_string()]);
    assert_eq!(data.repos[3].group, DEFAULT_GROUP_NAME);
    assert_eq!(data.repos[0].url, "https://example.com/x");

    let once = data.clone();
    data.normalize();
    assert_eq!(data.registered_tags, once.registered_tags);
    assert_eq!(data.registered_groups, once.registered_groups);
    assert_eq!(data.meta.owner, once.meta.owner);
    let again: Vec<(String, String, Vec<String>)> =
        data.repos.iter().map(|r| (r.name.clone(), r.group.clone(), r.tags.clone())).collect();
    let first: Vec<(String, String, Vec<String>)> =
        once.repos.iter().map(|r| (r.name.clone(), r.group.clone(), r.tags.clone())).collect();
    assert_eq!(again, first);
}

#[test]
fn shown_shortcut_key_selects_its_tag() {
    let mut tags: Vec<String> = vec!["rust".to_string(), "ruby".to_string(), "go".to_string()];
    for i in 0..30 {
        tags.push(format!("t{i:02}"));
    }
    for tag in &tags {
        let (page, key) = tag_shortcut_for_tag(&tags, tag).expect("registered tag has a shortcut");
        assert_eq!(shortcut_on_page(&tags, page, key), Some(tag.clone()));
        assert_eq!(shortcut_on_page(&tags, page, key.to_ascii_uppercase()), Some(tag.clone()));
    }
    assert_eq!(tag_shortcut_for_tag(&tags, "rust"), Some((0, 'r')));
    assert_eq!(tag_shortcut_for_tag(&tags, "ruby"), Some((0, 'u')));
    assert_eq!(tag_shortcut_for_tag(&tags, "missing"), None);
}

#[test]
fn describe_key_code_names_keys_as_the_terminal_library_does() {
    assert_eq!(describe_key_code(&KeyCode::Char('a')), "Char('a')");
    assert_eq!(describe_key_code(&KeyCode::Enter), "Enter");
    assert_eq!(describe_key_code(&KeyCode::F(5)), "F(5)");
    assert_eq!(describe_key_code(&KeyCode::CapsLock), "CapsLock");
    assert_eq!(describe_key_code(&KeyCode::KeypadBegin), "KeypadBegin");
    assert_eq!(describe_key_code(&KeyCode::PageDown), "PageDown");
}

#[test]
fn manual_plan_pushes_even_after_todays_push() {
    let disabled = AppConfig { json_auto_push: JsonAutoPushConfig { repo: None } };
    assert_eq!(plan_manual_json_push(&disabled, "2026-04-05".to_string()), PushPlan::Disabled);
    let config = AppConfig {
        json_auto_push: JsonAutoPushConfig { repo: Some(GitHubRepoRef::parse("cat2151/backups").expect("valid repo")) },
    };
    match plan_manual_json_push(&config, "2026-04-05".to_string()) {
        PushPlan::Push { repo, date } => {
            assert_eq!(repo.as_str(), "cat2151/backups");
            assert_eq!(date, "2026-04-05");
        }
        other => panic!("unexpected plan: {other:?}"),
    }
}

fn fetched(name: &str, created_at: &str, updated_at: &str, desc: &str) -> FetchedRepo {
    FetchedRepo {
        name: name.to_string(),
        created_at: ts(created_at),
        updated_at: ts(updated_at),
        github_desc: desc.to_string(),
    }
}

#[test]
fn sync_updates_known_repos_appends_new_ones_and_keeps_curated_fields() {
    let mut known = messy_repo("known", "2026-01-01T00:00:00Z", "tools", &["rust"]);
    known.url = "https://example.com/known".to_string();
    known.desc_short = "mine".to_string();
    known.github_desc = "old".to_string();
    let mut data = RepoData {
        meta: Meta {
            github_desc_updated_at: String::new(),
            last_json_commit_push_date: String::new(),
            owner: String::new(),
        },
        registered_tags: vec!["rust".to_string()],
        registered_groups: vec!["tools".to_string()],
        repos: vec![known],
    };
    let summary = apply_fetched_repos(
        &mut data,
        vec![
            fetched("known", "2026-01-01T00:00:00Z", "2026-04-01T00:00:00Z", "new"),
            fetched("fresh", "2026-03-01T00:00:00Z", "2026-03-02T00:00:00Z", "brand new"),
        ],
        "2026-04-05".to_string(),
    );
    assert_eq!(summary.added, 1);
    assert_eq!(summary.updated, 1);
    assert_eq!(data.meta.github_desc_updated_at, "2026-04-05");
    let names: Vec<&str> = data.repos.iter().map(|r| r.name.as_str()).collect();
    assert_eq!(names, vec!["fresh", "known"]);
    let known = &data.repos[1];
    assert_eq!(known.github_desc, "new");
    assert_eq!(known.desc_short, "mine");
    assert_eq!(known.url, "https://example.com/known");
    assert_eq!(known.tags, vec!["rust".to_string()]);
    assert_eq!(known.group, "tools");
    let fresh = &data.repos[0];
    assert_eq!(fresh.github_desc, "brand new");
    assert_eq!(fresh.group, DEFAULT_GROUP_NAME);
    assert!(fresh.tags.is_empty() && fresh.desc_short.is_empty() && fresh.url.is_empty());
    assert_eq!(data.registered_groups, vec!["tools".to_string(), DEFAULT_GROUP_NAME.to_string()]);

    let again = apply_fetched_repos(
        &mut data,
        vec![fetched("known", "2026-01-01T00:00:00Z", "2026-04-01T00:00:00Z", "new")],
        "2026-04-06".to_string(),
    );
    assert_eq!(again.added, 0);
    assert_eq!(again.updated, 0);
}

#[test]
fn sync_records_the_given_date() {
    let mut data = RepoData::empty();
    let summary = apply_fetched_repos(
        &mut data,
        vec![fetched("a", "2026-01-01T00:00:00Z", "2026-01-02T00:00:00Z", "")],
        "2026-04-07".to_string(),
    );
    assert_eq!(summary.added, 1);
    assert_eq!(data.meta.github_desc_updated_at, "2026-04-07");
    assert_eq!(data.repos[0].name, "a");
}

#[test]
fn paths_are_placed_under_the_given_local_data_directory() {
    let base = std::path::PathBuf::from("/tmp/local-data");
    let app = own_repos_curator::paths::app_local_dir_path_in(Some(base.clone())).expect("app dir");
    assert_eq!(app.base, base);
    assert_eq!(app.parts, vec!["own-repos-curator".to_string()]);
    let config_dir = own_repos_curator::paths::config_dir_path_in(Some(base.clone())).expect("config dir");
    assert_eq!(config_dir.base, app.base);
    assert_eq!(config_dir.parts, app.parts);
    let config = own_repos_curator::paths::config_file_path_in(Some(base.clone())).expect("config file");
    assert_eq!(config.parts, vec!["own-repos-curator".to_string(), "config.toml".to_string()]);
    let history = own_repos_curator::paths::history_file_path_in(Some(base.clone())).expect("history file");
    assert_eq!(history.parts, vec!["own-repos-curator".to_string(), "history.json".to_string()]);
    let data = RepoData::data_file_path_in(Some(base.clone())).expect("data file");
    assert_eq!(data.base, base);
    assert_eq!(data.parts, vec!["own-repos-curator".to_string(), "data".to_string(), "repos.json".to_string()]);
    let cache = own_repos_curator::paths::hatena_url_cache_file_path_in(Some(base.clone())).expect("cache file");
    assert_eq!(
        cache.parts,
        vec!["own-repos-curator-to-hatena".to_string(), "cache".to_string(), "url.json".to_string()]
    );
    let managed = own_repos_curator::paths::managed_repo_dir_path_in(Some(base.clone())).expect("managed dir");
    assert_eq!(managed.parts, vec!["own-repos-curator".to_string(), "managed-repos".to_string()]);
    let dir = own_repos_curator::paths::data_dir_path_in(Some(base)).expect("data dir");
    assert_eq!(dir.parts, vec!["own-repos-curator".to_string(), "data".to_string()]);
}

#[test]
fn paths_fail_without_a_local_data_directory() {
    assert!(matches!(own_repos_curator::paths::config_dir_path_in(None), Err(own_repos_curator::paths::PathError::NoLocalDataDir)));
    assert!(matches!(own_repos_curator::paths::config_file_path_in(None), Err(own_repos_curator::paths::PathError::NoLocalDataDir)));
    assert!(matches!(own_repos_curator::paths::history_file_path_in(None), Err(own_repos_curator::paths::PathError::NoLocalDataDir)));
    assert!(matches!(RepoData::data_file_path_in(None), Err(own_repos_curator::paths::PathError::NoLocalDataDir)));
}

#[test]
fn decimal_strings_match_std_formatting() {
    for n in [0usize, 7, 10, 99, 1234, usize::MAX] {
        assert_eq!(own_repos_curator::strings::usize_to_string(n), n.to_string());
    }
    assert_eq!(own_repos_curator::strings::u128_to_string(u128::MAX), u128::MAX.to_string());
}

#[test]
fn str_eq_compares_characters() {
    assert!(own_repos_curator::strings::str_eq("", ""));
    assert!(own_repos_curator::strings::str_eq("タグ", "タグ"));
    assert!(!own_repos_curator::strings::str_eq("abc", "abd"));
    assert!(!own_repos_curator::strings::str_eq("ab", "abc"));
}

#[test]
fn media_and_modifier_keys_are_described_by_name() {
    assert_eq!(
        describe_key_code(&KeyCode::Media(own_repos_curator::keys::MediaKey::Play)),
        "Media(Play)"
    );
    assert_eq!(
        describe_key_code(&KeyCode::Modifier(own_repos_curator::keys::ModifierKey::IsoLevel3Shift)),
        "Modifier(IsoLevel3Shift)"
    );
}

#[test]
fn text_areas_get_the_keys_they_tell_apart() {
    assert_eq!(text_key(KeyCode::Char('x')), TextKey::Char('x'));
    assert_eq!(text_key(KeyCode::Delete), TextKey::Delete);
    assert_eq!(text_key(KeyCode::Home), TextKey::Home);
    assert_eq!(text_key(KeyCode::Esc), TextKey::Null);
    assert_eq!(text_key(KeyCode::F(2)), TextKey::Null);
    assert_eq!(text_key(KeyCode::BackTab), TextKey::Null);
}

#[test]
fn single_line_text_boxes_join_lines_with_spaces() {
    let multi = new_text_box("one\r\ntwo\nthree");
    assert_eq!(multi.area.lines(), ["one", "two", "three"]);
    assert_eq!(text_box_value(&multi, "\n"), "one\ntwo\nthree");
    let single = new_single_line_text_box("one\ntwo");
    assert_eq!(single.area.lines(), ["one two"]);
    assert_eq!(single.area.cursor(), (0, 7));
}

fn plain(code: KeyCode) -> Key {
    Key { code, ctrl: false, alt: false, shift: false }
}

#[test]
fn text_box_keys_edit_at_the_cursor() {
    let mut b = new_text_box("ab\ncd");
    assert_eq!(b.area.cursor(), (1, 2));
    text_box_key(&mut b, plain(KeyCode::Home));
    text_box_key(&mut b, plain(KeyCode::Backspace));
    assert_eq!(b.area.lines(), ["abcd"]);
    assert_eq!(b.area.cursor(), (0, 2));
    text_box_key(&mut b, plain(KeyCode::Char('X')));
    assert_eq!(b.area.lines(), ["abXcd"]);
    assert_eq!(b.area.cursor(), (0, 3));
    text_box_key(&mut b, plain(KeyCode::Delete));
    assert_eq!(b.area.lines(), ["abXd"]);
    text_box_key(&mut b, plain(KeyCode::End));
    text_box_key(&mut b, plain(KeyCode::Delete));
    assert_eq!(b.area.lines(), ["abXd"]);
    text_box_key(&mut b, plain(KeyCode::Left));
    text_box_key(&mut b, plain(KeyCode::Enter));
    assert_eq!(b.area.lines(), ["abX", "d"]);
    assert_eq!(b.area.cursor(), (1, 0));
    text_box_key(&mut b, plain(KeyCode::Left));
    assert_eq!(b.area.cursor(), (0, 3));
    text_box_key(&mut b, plain(KeyCode::Delete));
    assert_eq!(b.area.lines(), ["abXd"]);
    assert_eq!(b.area.cursor(), (0, 3));
}

#[test]
fn one_line_text_boxes_join_a_split_line() {
    let mut b = new_single_line_text_box("ab");
    text_box_key(&mut b, plain(KeyCode::Left));
    press_key(&mut b, plain(KeyCode::Enter), true);
    assert_eq!(b.area.lines(), ["a b"]);
    assert_eq!(b.area.cursor(), (0, 3));
}

#[test]
fn empty_panels_say_why_they_are_empty() {
    assert_eq!(tag_catalog_empty_message(0), "登録済みtag がまだありません。n で最初のtagを作成できます。");
    assert_eq!(
        tag_catalog_empty_message(3),
        "この page に表示する登録済みtag がありません。← / → で page を切り替えてください。"
    );
    assert_eq!(group_summary_empty_message(true), "表示中repoに一致する group 集計はありません。");
    assert_eq!(group_summary_empty_title(false), " 全repo group集計 ");
}

#[test]
fn trimming_matches_std_trim() {
    for s in ["", "   ", " a b ", "\t\nx\r\n", "\u{3000}全角\u{3000}", "\u{a0}nbsp\u{85}", "\u{200b}zero width\u{200b}", "plain"] {
        assert_eq!(own_repos_curator::strings::trim_str(s), s.trim());
    }
    let mut built = String::from("ab");
    own_repos_curator::strings::append_str(&mut built, "cd");
    assert_eq!(built, "abcd");
}
