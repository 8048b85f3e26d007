use own_repos_curator::right_pane::{selected_repo_desc_lines, SelectedRepoDescState};
use own_repos_curator::colors::{group_color, tag_color};
use own_repos_curator::help_text::{
    group_binding_help_keybind_lines, group_binding_mode_keybind_lines, tag_binding_help_keybind_lines,
    tag_binding_mode_keybind_lines,
};
use own_repos_curator::list_view::{list_title, repo_item_lines, repo_item_styled_lines, repo_line};
use own_repos_curator::panel_text::{repo_panel_styled_lines, RepoPanel, Tone};
use own_repos_curator::model::DEFAULT_GROUP_NAME;
use own_repos_curator::modes::{DescDisplayMode, SortMode};

#[test]
fn repo_line_colors_tags_by_registered_order() {
    let registered_tags = vec!["rust".to_string(), "zig".to_string(), "go".to_string()];
    let display_tags = vec!["go".to_string(), "rust".to_string()];
    let line = repo_line("repo", "tools", &display_tags);
    assert_eq!(line[5], "go");
    assert_eq!(tag_color(&registered_tags, &line[5]), Some(2));
    assert_eq!(line[7], "rust");
    assert_eq!(tag_color(&registered_tags, &line[7]), Some(0));
}

#[test]
fn repo_line_uses_shared_tag_color_helper() {
    let registered_tags = vec!["rust".to_string(), "zig".to_string()];
    let line = repo_line("repo", "tools", &vec!["zig".to_string()]);
    assert_eq!(
        line,
        vec!["repo", " <", "tools", ">", " [", "zig", "]"].into_iter().map(String::from).collect::<Vec<_>>()
    );
    assert_eq!(tag_color(&registered_tags, &line[5]), Some(1));
}

#[test]
fn repo_line_colors_groups_by_registered_order() {
    let registered_groups = vec!["apps".to_string(), DEFAULT_GROUP_NAME.to_string(), "tools".to_string()];
    let line = repo_line("repo", "tools", &Vec::new());
    assert_eq!(line[2], "tools");
    assert_eq!(group_color(&registered_groups, &line[2]), Some(1));
}

#[test]
fn repo_line_renders_default_group_in_light_gray() {
    let registered_groups = vec![DEFAULT_GROUP_NAME.to_string(), "tools".to_string()];
    let line = repo_line("repo", DEFAULT_GROUP_NAME, &Vec::new());
    assert_eq!(line.len(), 4);
    assert_eq!(group_color(&registered_groups, &line[2]), None);
}

#[test]
fn repo_item_lines_include_indented_short_desc_when_inline_mode_is_enabled() {
    let lines = repo_item_lines("repo", "tools", "short desc", "", &Vec::new(), DescDisplayMode::LeftShort);
    assert_eq!(lines.len(), 2);
    assert_eq!(lines[1][0], "  ");
    assert_eq!(lines[1][1], "short desc");
}

#[test]
fn repo_item_lines_omit_short_desc_when_inline_mode_is_disabled() {
    let lines = repo_item_lines("repo", "tools", "short desc", "", &Vec::new(), DescDisplayMode::RightPane);
    assert_eq!(lines.len(), 1);
}

#[test]
fn repo_item_lines_include_long_desc_when_left_short_and_long_mode_is_enabled() {
    let lines = repo_item_lines(
        "repo",
        "tools",
        "short desc",
        "line 1\nline 2",
        &Vec::new(),
        DescDisplayMode::LeftShortAndLong,
    );
    assert_eq!(lines.len(), 4);
    assert_eq!(lines[2][0], "    ");
    assert_eq!(lines[2][1], "line 1");
    assert_eq!(lines[3][1], "line 2");
}

#[test]
fn repo_item_lines_skip_blank_descriptions_and_trim_them() {
    let lines = repo_item_lines("repo", "tools", "   ", "  one\r\ntwo  \n", &Vec::new(), DescDisplayMode::LeftShortAndLong);
    assert_eq!(lines.len(), 3);
    assert_eq!(lines[1][1], "one");
    assert_eq!(lines[2][1], "two");
}

#[test]
fn tag_binding_mode_keybinds_include_cancel_and_help_actions() {
    let lines = tag_binding_mode_keybind_lines();
    assert!(lines.iter().any(|line| line.contains("小文字キー")));
    assert!(lines.iter().any(|line| line.contains("大文字キー")));
    assert!(lines.iter().any(|line| line.contains("先頭文字優先")));
    assert!(lines.iter().any(|line| line.contains("Esc") && line.contains("変更を破棄")));
    assert!(lines.iter().any(|line| line.contains("?") && line.contains("専用help")));
}

#[test]
fn tag_binding_help_keybinds_describe_closing_help() {
    let lines = tag_binding_help_keybind_lines();
    assert!(lines.iter().any(|line| line.contains("衝突時は別英字")));
    assert!(lines.iter().any(|line| line.contains("Enter") && line.contains("変更を確定")));
    assert!(lines.iter().any(|line| line.contains("Esc") && line.contains("このhelp")));
    assert!(lines.iter().any(|line| line.contains("?") && line.contains("このhelp")));
}

#[test]
fn group_binding_mode_keybinds_include_assign_and_help_actions() {
    let lines = group_binding_mode_keybind_lines();
    assert!(lines.iter().any(|line| line.contains("即時割り当て")));
    assert!(lines.iter().any(|line| line.contains("先頭文字優先")));
    assert!(!lines.iter().any(|line| line.contains("Enter")));
    assert!(lines.iter().any(|line| line.contains("Esc") && line.contains("変更を破棄")));
    assert!(lines.iter().any(|line| line.contains("?") && line.contains("専用help")));
}

#[test]
fn group_binding_help_keybinds_describe_immediate_assign_and_close_actions() {
    let lines = group_binding_help_keybind_lines();
    assert!(lines.iter().any(|line| line.contains("衝突時は別英字")));
    assert!(lines.iter().any(|line| line.contains("押した時点で確定して閉じる")));
    assert!(lines.iter().all(|line| !line.contains("Enter")));
    assert!(lines.iter().any(|line| line.contains("Esc") && line.contains("このhelp")));
}

#[test]
fn selected_repo_desc_pane_includes_github_description() {
    let state = SelectedRepoDescState {
        repo_name: "own-repos-curator".to_string(),
        github_desc: "GitHub managed description".to_string(),
        desc_short: "short desc".to_string(),
        desc_long: "line 1\nline 2".to_string(),
        group: "tools".to_string(),
        group_key_hint: "t".to_string(),
    };

    let lines = selected_repo_desc_lines(&state);

    assert_eq!(lines[1][0], "group: ");
    assert_eq!(lines[1][1], "tools");
    assert_eq!(lines[2][0], "GitHub:");
    assert_eq!(lines[3][1], "GitHub managed description");
    assert_eq!(lines[4][0], "1行: ");
    assert_eq!(lines[4][1], "short desc");
    assert_eq!(lines[5][0], "3行:");
    assert_eq!(lines[6][1], "line 1");
    assert_eq!(lines[7][1], "line 2");
}

#[test]
fn selected_repo_desc_pane_shows_github_desc_as_unset_when_empty() {
    let state = SelectedRepoDescState {
        repo_name: "own-repos-curator".to_string(),
        github_desc: String::new(),
        desc_short: String::new(),
        desc_long: String::new(),
        group: "tools".to_string(),
        group_key_hint: "t".to_string(),
    };

    let lines = selected_repo_desc_lines(&state);

    assert_eq!(lines[1][0], "group: ");
    assert_eq!(lines[2][0], "GitHub:");
    assert_eq!(lines[3][1], "(未設定)");
    assert_eq!(lines[4][1], "(未設定)");
    assert_eq!(lines[6][1], "(未設定)");
}

#[test]
fn list_title_counts_sort_and_filter() {
    assert_eq!(
        list_title(1, 2, SortMode::Created, "filter:off"),
        " own-repos-curator 1/2 | sort:create | filter:off "
    );
    assert_eq!(
        list_title(0, 10, SortMode::Modified, "tags:rust"),
        " own-repos-curator 0/10 | sort:modify | tags:rust "
    );
}

#[test]
fn repo_item_styled_lines_give_each_span_its_tone() {
    let tags = vec!["go".to_string(), "rust".to_string()];
    let lines = repo_item_styled_lines("repo", "tools", " short ", "", &tags, DescDisplayMode::LeftShort);
    let first: Vec<(String, Tone)> = lines[0].iter().map(|s| (s.text.clone(), s.tone)).collect();
    let want: Vec<(String, Tone)> = vec![
        ("repo", Tone::Accent),
        (" <", Tone::Soft),
        ("tools", Tone::GroupName),
        (">", Tone::Soft),
        (" [", Tone::Soft),
        ("go", Tone::TagName),
        (", ", Tone::Soft),
        ("rust", Tone::TagName),
        ("]", Tone::Soft),
    ]
    .into_iter()
    .map(|(t, tone)| (t.to_string(), tone))
    .collect();
    assert_eq!(first, want);
    assert_eq!(lines.len(), 2);
    assert_eq!((lines[1][0].text.as_str(), lines[1][0].tone), ("  ", Tone::Muted));
    assert_eq!((lines[1][1].text.as_str(), lines[1][1].tone), ("short", Tone::Soft));
}

#[test]
fn repo_panels_tone_their_spans_by_place() {
    let lines = vec![
        vec!["repo".to_string()],
        vec!["group: ".to_string(), "tools".to_string(), " (t)".to_string()],
        vec!["GitHub:".to_string()],
        vec!["  ".to_string(), "text".to_string()],
    ];
    let desc = repo_panel_styled_lines(RepoPanel::Desc, lines);
    let tones: Vec<Vec<Tone>> = desc.iter().map(|l| l.iter().map(|s| s.tone).collect()).collect();
    assert_eq!(
        tones,
        vec![
            vec![Tone::Heading],
            vec![Tone::Muted, Tone::Warning, Tone::Soft],
            vec![Tone::Muted],
            vec![Tone::Muted, Tone::Soft],
        ]
    );
    let tags = vec![
        vec!["repo".to_string()],
        vec!["tag数: 1".to_string()],
        vec!["r".to_string(), " ".to_string(), "rust".to_string()],
    ];
    let detail = repo_panel_styled_lines(RepoPanel::TagDetail, tags);
    let tones: Vec<Vec<Tone>> = detail.iter().map(|l| l.iter().map(|s| s.tone).collect()).collect();
    assert_eq!(tones, vec![vec![Tone::Heading], vec![Tone::Body], vec![Tone::Muted, Tone::Plain, Tone::TagName]]);
    assert_eq!(detail[2][2].text, "rust");
}
