use own_repos_curator::json_auto_push::normalize_origin_url;

#[test]
fn normalizes_https_and_ssh_origins() {
    assert_eq!(
        normalize_origin_url("https://github.com/cat2151/backups.git"),
        Some("cat2151/backups".to_string())
    );
    assert_eq!(
        normalize_origin_url("git@github.com:cat2151/backups.git"),
        Some("cat2151/backups".to_string())
    );
    assert_eq!(
        normalize_origin_url("ssh://git@github.com/cat2151/backups.git"),
        Some("cat2151/backups".to_string())
    );
}

#[test]
fn normalize_origin_url_rejects_non_repo_values() {
    assert_eq!(normalize_origin_url("github"), None);
}
