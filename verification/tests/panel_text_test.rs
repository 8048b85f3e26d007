use own_repos_curator::curator::FilterModeFocus;
use own_repos_curator::curator_view::{
    FilterModeState, GroupBindingModeState, GroupCatalogEntry, GroupCatalogState, TagBindingModeState,
};
use own_repos_curator::panel_text::{
    filter_mode_lines, group_binding_help_lines, group_binding_mode_lines, group_summary_lines,
    group_summary_title, log_pane_lines, main_help_lines, tag_binding_help_lines, tag_binding_mode_lines,
    tag_catalog_lines, tag_catalog_title, tag_filter_label, StyledSpan, Tone,
};
use own_repos_curator::right_pane::{GroupSummaryEntry, TagCatalogEntry, TagCatalogState};

fn texts(lines: &[Vec<StyledSpan>]) -> Vec<String> {
    lines.iter().map(|line| line.iter().map(|span| span.text.as_str()).collect::<String>()).collect()
}

fn catalog(entries: Vec<TagCatalogEntry>) -> TagCatalogState {
    TagCatalogState {
        total_tags: entries.len(),
        entries,
        page: 0,
        page_count: 1,
        active_filter_count: 1,
        filter_mode_active: false,
    }
}

fn tag_entry(key: char, tag: &str, active: bool) -> TagCatalogEntry {
    TagCatalogEntry { key, filter_active: active, tag: tag.to_string() }
}

fn group_catalog() -> GroupCatalogState {
    GroupCatalogState {
        entries: vec![
            GroupCatalogEntry { key: 't', selected: true, group: "tools".to_string() },
            GroupCatalogEntry { key: 'u', selected: false, group: "ungrouped".to_string() },
        ],
        page: 0,
        page_count: 1,
        total_groups: 2,
    }
}

#[test]
fn filter_label_counts_active_filters_or_says_off() {
    assert_eq!(tag_filter_label(0, false), "filter:off");
    assert_eq!(tag_filter_label(3, false), "filter:3");
    assert_eq!(tag_filter_label(0, true), "filter*:off");
    assert_eq!(tag_filter_label(12, true), "filter*:12");
}

#[test]
fn tag_catalog_title_shows_page_total_and_filter() {
    let state = catalog(vec![tag_entry('r', "rust", true)]);
    assert_eq!(tag_catalog_title(&state), " 登録済みtag一覧 1/1  total:1  filter:1 ");
    let mut empty = catalog(Vec::new());
    empty.page_count = 0;
    empty.active_filter_count = 0;
    assert_eq!(tag_catalog_title(&empty), " 登録済みtag一覧 filter:off ");
}

#[test]
fn tag_catalog_lines_mark_active_filters_and_keys() {
    let state = catalog(vec![tag_entry('r', "rust", true), tag_entry('g', "go", false)]);
    let lines = tag_catalog_lines(&state);
    assert_eq!(texts(&lines), vec!["[x] r / R rust".to_string(), "[ ] g / G go".to_string()]);
    assert_eq!(lines[0][0].tone, Tone::Warning);
    assert_eq!(lines[1][0].tone, Tone::Muted);
    assert_eq!(lines[0][3].tone, Tone::TagName);
}

#[test]
fn group_summary_lines_right_align_counts() {
    let entries = vec![
        GroupSummaryEntry { group: "tools".to_string(), count: 3 },
        GroupSummaryEntry { group: "apps".to_string(), count: 1234 },
    ];
    assert_eq!(texts(&group_summary_lines(&entries)), vec!["  3 tools".to_string(), "1234 apps".to_string()]);
    assert_eq!(group_summary_title(2, true), " 表示repo group集計 unique:2 ");
    assert_eq!(group_summary_title(5, false), " 全repo group集計 unique:5 ");
}

#[test]
fn collapsed_log_pane_shows_status_and_latest_entry() {
    let log = vec!["#0000 first".to_string(), "#0001 latest log entry".to_string()];
    assert_eq!(
        texts(&log_pane_lines("保存完了", &log, false, 3)),
        vec!["status: 保存完了 | log: #0001 latest log entry".to_string()]
    );
    assert_eq!(
        texts(&log_pane_lines("ok", &Vec::new(), false, 3)),
        vec!["status: ok | log: debug log is empty".to_string()]
    );
}

#[test]
fn expanded_log_pane_shows_as_many_last_entries_as_fit() {
    let log: Vec<String> = (0..5).map(|i| format!("entry {i}")).collect();
    assert_eq!(
        texts(&log_pane_lines("ok", &log, true, 5)),
        vec!["status: ok".to_string(), "entry 3".to_string(), "entry 4".to_string()]
    );
    assert_eq!(texts(&log_pane_lines("ok", &log, true, 2)), vec!["status: ok".to_string()]);
    assert_eq!(
        texts(&log_pane_lines("ok", &Vec::new(), true, 10)),
        vec!["status: ok".to_string(), "debug log is empty".to_string()]
    );
}

#[test]
fn tag_binding_mode_lines_list_planned_changes() {
    let state = TagBindingModeState {
        repo_name: "repo".to_string(),
        pending_count: 2,
        added_tags: vec!["go".to_string(), "rust".to_string()],
        removed_tags: vec!["zig".to_string()],
    };
    let lines = texts(&tag_binding_mode_lines(&state));
    assert_eq!(lines[0], "通常画面のtag紐付けモード");
    assert!(lines.contains(&"現在のtag数: 2".to_string()));
    assert!(lines.contains(&"追加予定: go, rust".to_string()));
    assert!(lines.contains(&"削除予定: zig".to_string()));
    assert!(!lines.contains(&"未確定の変更はありません。".to_string()));

    let unchanged = TagBindingModeState {
        repo_name: "repo".to_string(),
        pending_count: 0,
        added_tags: Vec::new(),
        removed_tags: Vec::new(),
    };
    let lines = texts(&tag_binding_mode_lines(&unchanged));
    assert_eq!(lines.last().unwrap(), "未確定の変更はありません。");
}

#[test]
fn group_binding_mode_lines_show_choice_and_page_shortcuts() {
    let state = GroupBindingModeState {
        repo_name: "repo".to_string(),
        original_group: "ungrouped".to_string(),
        pending_group: "tools".to_string(),
    };
    let lines = texts(&group_binding_mode_lines(&state, &group_catalog()));
    assert!(lines.contains(&"現在: ungrouped".to_string()));
    assert!(lines.contains(&"選択候補: tools".to_string()));
    assert!(lines.contains(&"group page: 1/1 (total:2)".to_string()));
    assert_eq!(lines[lines.len() - 2], "t [x] tools");
    assert_eq!(lines[lines.len() - 1], "u [ ] ungrouped");
}

#[test]
fn filter_mode_lines_follow_the_focus() {
    let state = FilterModeState {
        focus: FilterModeFocus::Tag,
        active_group: None,
        active_tags: vec!["go".to_string(), "rust".to_string()],
        visible_repo_count: 3,
        total_repo_count: 10,
    };
    let tags = catalog(vec![tag_entry('g', "go", true), tag_entry('r', "rust", false)]);
    let lines = filter_mode_lines(&state, &tags, &group_catalog());
    let text = texts(&lines);
    assert_eq!(text[0], "絞り込みモード (tag)");
    assert_eq!(text[3], "表示予定repo: 3/10");
    assert_eq!(text[6], "group: (なし)");
    assert_eq!(text[8], "  go, rust");
    assert_eq!(lines[8][1].tone, Tone::Strong);
    assert_eq!(lines[8][2].tone, Tone::Soft);
    assert_eq!(text[11], "tag page: 1/1 (total:2)");
    assert_eq!(text[12], "g/G [ON ] go");
    assert_eq!(text[13], "r/R [OFF] rust");

    let group_focus = FilterModeState {
        focus: FilterModeFocus::Group,
        active_group: Some("tools".to_string()),
        active_tags: Vec::new(),
        visible_repo_count: 1,
        total_repo_count: 2,
    };
    let text = texts(&filter_mode_lines(&group_focus, &tags, &group_catalog()));
    assert_eq!(text[0], "絞り込みモード (group)");
    assert_eq!(text[6], "group: tools");
    assert_eq!(text[8], "  (なし)");
    assert_eq!(text[11], "group page: 1/1 (total:2)");
    assert_eq!(text[12], "t [x] tools");
}

#[test]
fn binding_helps_describe_the_open_mode() {
    let closed = texts(&tag_binding_help_lines(None));
    assert_eq!(closed[1], "tag紐付けモード help");
    assert!(closed.iter().any(|l| l.contains("Esc") && l.contains("このhelp")));
    let open = TagBindingModeState {
        repo_name: "repo".to_string(),
        pending_count: 1,
        added_tags: vec!["rust".to_string()],
        removed_tags: Vec::new(),
    };
    let lines = texts(&tag_binding_help_lines(Some(&open)));
    assert!(lines.contains(&" repo   : repo".to_string()));
    assert!(lines.contains(&" tag数  : 1".to_string()));
    assert!(lines.contains(&" 追加予定: rust".to_string()));
    assert_eq!(lines.len(), closed.len() + 4);

    let group = GroupBindingModeState {
        repo_name: "repo".to_string(),
        original_group: "ungrouped".to_string(),
        pending_group: "tools".to_string(),
    };
    let lines = texts(&group_binding_help_lines(Some(&group)));
    assert_eq!(lines[1], "group割り当てモード help");
    assert!(lines.contains(&" 選択候補: tools".to_string()));
}

#[test]
fn main_help_lists_every_command() {
    let lines = main_help_lines();
    assert_eq!(lines.len(), 22);
    assert_eq!(lines[0], " t      : tag紐付けモードに入る");
    assert_eq!(lines[21], " q      : 終了");
}
