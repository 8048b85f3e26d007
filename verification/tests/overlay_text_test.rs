use own_repos_curator::background::SyncProgressState;
use own_repos_curator::curator::FilterModeFocus;
use own_repos_curator::curator_view::{FilterModeState, GroupBindingModeState, GroupCatalogEntry, GroupCatalogState};
use own_repos_curator::overlay_text::{
    filter_mode_title, group_binding_mode_title, manager_empty_message, manager_footer, manager_header_lines,
    manager_popup_height, manager_title, sync_popup_size, tag_binding_mode_title, ManagerKind,
};
use own_repos_curator::panel_text::{
    filter_help_lines, filter_mode_lines, group_binding_mode_lines, sync_progress_lines, StyledSpan, Tone,
};
use own_repos_curator::right_pane::{TagCatalogEntry, TagCatalogState};

fn texts(lines: &[Vec<StyledSpan>]) -> Vec<String> {
    lines.iter().map(|line| line.iter().map(|span| span.text.as_str()).collect::<String>()).collect()
}

/// The text of a manager overlay over `names`, top to bottom.
fn manager_text(kind: ManagerKind, names: &[&str]) -> String {
    let mut parts = vec![manager_title(kind)];
    parts.extend(manager_header_lines(kind));
    if names.is_empty() {
        parts.push(manager_empty_message(kind));
    } else {
        parts.extend(names.iter().map(|n| n.to_string()));
    }
    parts.push(manager_footer(kind, names.len()));
    parts.join("\n")
}

fn catalog_tools_web(web_selected: bool) -> GroupCatalogState {
    GroupCatalogState {
        entries: vec![
            GroupCatalogEntry { key: 't', selected: !web_selected, group: "tools".to_string() },
            GroupCatalogEntry { key: 'w', selected: web_selected, group: "web".to_string() },
        ],
        page: 0,
        page_count: 1,
        total_groups: 2,
    }
}

#[test]
fn tag_manager_overlay_text_lists_entries_and_count() {
    let text = manager_text(ManagerKind::Tags, &["rust", "go"]);
    assert!(text.contains("Tag Manager"));
    assert!(text.contains("rust"));
    assert!(text.contains("go"));
    assert!(text.contains("2 tags"));
    assert_eq!(manager_popup_height(2), 12);
}

#[test]
fn group_manager_overlay_text_shows_empty_state_message() {
    let text = manager_text(ManagerKind::Groups, &[]);
    assert!(text.contains("Group Manager"));
    assert!(text.contains("n: new group"));
    assert!(text.contains("0 groups"));
    assert!(text.contains("group がありません。n で新規作成してください。"));
}

#[test]
fn manager_popup_height_is_entries_plus_nine_within_bounds() {
    assert_eq!(manager_popup_height(0), 12);
    assert_eq!(manager_popup_height(3), 12);
    assert_eq!(manager_popup_height(10), 19);
    assert_eq!(manager_popup_height(17), 26);
    assert_eq!(manager_popup_height(500), 26);
    assert_eq!(
        manager_header_lines(ManagerKind::Tags),
        vec!["j/k: move    n: new tag", "Enter: new when empty    r: rename global", "Esc: close"]
    );
}

#[test]
fn tag_filter_overlay_text_shows_summary_and_shortcuts() {
    let state = FilterModeState {
        focus: FilterModeFocus::Tag,
        active_group: Some("tools".to_string()),
        active_tags: vec!["rust".to_string()],
        visible_repo_count: 3,
        total_repo_count: 7,
    };
    let catalog = TagCatalogState {
        entries: vec![
            TagCatalogEntry { key: 'r', filter_active: true, tag: "rust".to_string() },
            TagCatalogEntry { key: 'g', filter_active: false, tag: "go".to_string() },
        ],
        page: 0,
        page_count: 1,
        total_tags: 2,
        active_filter_count: 1,
        filter_mode_active: true,
    };
    let text = filter_mode_title(state.focus) + &texts(&filter_mode_lines(&state, &catalog, &catalog_tools_web(false))).join("\n");
    assert!(text.contains("Filter: tag"));
    assert!(text.contains("3/7"));
    assert!(text.contains("tools"));
    assert!(text.contains("rust"));
    assert!(text.contains("r/R"));
    assert!(text.contains("[ON ]"));
}

#[test]
fn group_filter_overlay_text_shows_summary_and_shortcuts() {
    let state = FilterModeState {
        focus: FilterModeFocus::Group,
        active_group: Some("web".to_string()),
        active_tags: vec!["rust".to_string()],
        visible_repo_count: 2,
        total_repo_count: 7,
    };
    let catalog = TagCatalogState {
        entries: vec![],
        page: 0,
        page_count: 0,
        total_tags: 0,
        active_filter_count: 1,
        filter_mode_active: true,
    };
    let text = filter_mode_title(state.focus) + &texts(&filter_mode_lines(&state, &catalog, &catalog_tools_web(true))).join("\n");
    assert!(text.contains("Filter: group"));
    assert!(text.contains("2/7"));
    assert!(text.contains("Ctrl+T"));
    assert!(text.contains("web"));
    assert!(text.contains("[x]"));
}

#[test]
fn group_binding_overlay_text_shows_summary_and_shortcuts() {
    let state = GroupBindingModeState {
        repo_name: "selected".to_string(),
        original_group: "tools".to_string(),
        pending_group: "web".to_string(),
    };
    let title = group_binding_mode_title(&state.repo_name);
    assert_eq!(title, " Group Bind Mode: selected ");
    let text = title + &texts(&group_binding_mode_lines(&state, &catalog_tools_web(true))).join("\n");
    assert!(text.contains("Group Bind Mode"));
    assert!(text.contains("selected"));
    assert!(text.contains("tools"));
    assert!(text.contains("web"));
    assert!(text.contains("[x]"));
    assert_eq!(tag_binding_mode_title("repo"), " Tag Bind Mode: repo ");
}

#[test]
fn filter_help_lists_keys_and_the_listed_count() {
    let without = texts(&filter_help_lines(None));
    assert_eq!(without[1], "絞り込みモード help");
    assert_eq!(without[3], " group focus: a-z でgroup選択 / A-Z でgroup解除");
    assert_eq!(without.len(), 10);
    let state = FilterModeState {
        focus: FilterModeFocus::Tag,
        active_group: None,
        active_tags: Vec::new(),
        visible_repo_count: 4,
        total_repo_count: 9,
    };
    let with = texts(&filter_help_lines(Some(&state)));
    assert_eq!(with.len(), 12);
    assert_eq!(with[10], "");
    assert_eq!(with[11], " 表示予定repo: 4/9");
}

#[test]
fn sync_progress_text_shows_phase_and_elapsed_seconds() {
    let state = SyncProgressState {
        title: "GitHub sync".to_string(),
        phase: "fetching public repos".to_string(),
        elapsed_secs: 12,
    };
    let lines = sync_progress_lines(&state);
    let text = texts(&lines);
    assert_eq!(text, vec!["GitHub sync", "状態: fetching public repos", "経過: 12秒"]);
    assert_eq!(lines[2][1].tone, Tone::Warning);
    assert_eq!(sync_popup_size(80, 20), (64, 7));
    assert_eq!(sync_popup_size(10, 3), (6, 3));
    assert_eq!(sync_popup_size(2, 0), (1, 1));
}
