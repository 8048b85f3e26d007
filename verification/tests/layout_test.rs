use own_repos_curator::layout::{left_pane_width, log_pane_height};
use own_repos_curator::right_pane::{
    group_summary_desired_height, packed_heights, selected_repo_desc_desired_height,
    tag_catalog_desired_height, GroupSummaryEntry, SelectedRepoDescState, TagCatalogState,
};

#[test]
fn log_pane_height_is_three_lines_when_collapsed() {
    assert_eq!(log_pane_height(30, false), 3);
    assert_eq!(log_pane_height(4, false), 3);
    assert_eq!(log_pane_height(3, false), 2);
    assert_eq!(log_pane_height(1, false), 0);
}

#[test]
fn log_pane_height_uses_bottom_half_when_expanded() {
    assert_eq!(log_pane_height(20, true), 10);
    assert_eq!(log_pane_height(3, true), 1);
}

#[test]
fn left_pane_width_is_clamped_between_twenty_five_and_seventy_five_percent() {
    assert_eq!(left_pane_width(100, 10), 25);
    assert_eq!(left_pane_width(100, 50), 50);
    assert_eq!(left_pane_width(100, 90), 75);
}

#[test]
fn group_summary_height_shows_all_groups_without_extra_blank_lines() {
    let height = group_summary_desired_height(
        30,
        &[
            GroupSummaryEntry {
                group: "apps".to_string(),
                count: 4,
            },
            GroupSummaryEntry {
                group: "tools".to_string(),
                count: 2,
            },
            GroupSummaryEntry {
                group: "web".to_string(),
                count: 1,
            },
        ],
        false,
    );

    assert_eq!(height, 5);
}

#[test]
fn tag_catalog_height_uses_message_height_for_empty_state() {
    let height = tag_catalog_desired_height(
        30,
        &TagCatalogState {
            entries: vec![],
            page: 0,
            page_count: 0,
            total_tags: 0,
            active_filter_count: 0,
            filter_mode_active: false,
        },
    );

    assert!(height >= 3);
}

#[test]
fn selected_repo_desc_height_counts_wrapped_lines() {
    let height = selected_repo_desc_desired_height(
        12,
        Some(&SelectedRepoDescState {
            repo_name: "repo-name".to_string(),
            github_desc: "very long github description".to_string(),
            desc_short: "short".to_string(),
            desc_long: "one two three four five".to_string(),
            group: "tools".to_string(),
            group_key_hint: "a".to_string(),
        }),
    );

    assert!(height > 10);
}

#[test]
fn packed_heights_give_remainder_to_last_section() {
    assert_eq!(packed_heights(20, &[5, 4, 3, 2]), vec![5, 4, 3, 8]);
}

#[test]
fn packed_heights_prioritize_upper_sections_when_space_is_tight() {
    assert_eq!(packed_heights(10, &[6, 5, 4]), vec![6, 4, 0]);
}

#[test]
fn list_desired_width_takes_widest_line_or_title() {
    let lines = vec![
        vec!["abc".to_string(), "de".to_string()],
        vec!["a".to_string()],
    ];
    assert_eq!(own_repos_curator::right_pane::list_desired_width(&lines, "xy"), 9);
    assert_eq!(own_repos_curator::right_pane::list_desired_width(&lines, "twenty characters!!!"), 22);
    assert_eq!(own_repos_curator::right_pane::list_desired_width(&Vec::new(), ""), 4);
    assert_eq!(own_repos_curator::right_pane::list_desired_width(&vec![vec!["日本".to_string()]], ""), 8);
}
