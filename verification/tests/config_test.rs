use own_repos_curator::config::AppConfig;

#[test]
fn parses_json_auto_push_repo() {
    let config = AppConfig::parse(
        r#"
                [json_auto_push]
                repo = "cat2151/backup-repo"
            "#,
    )
    .expect("config should parse");

    assert_eq!(
        config.json_auto_push.repo.as_ref().map(|repo| repo.as_str()),
        Some("cat2151/backup-repo")
    );
}

#[test]
fn empty_repo_disables_json_auto_push() {
    let config = AppConfig::parse(
        r#"
                [json_auto_push]
                repo = ""
            "#,
    )
    .expect("config should parse");

    assert!(config.json_auto_push.repo.is_none());
}

#[test]
fn invalid_repo_is_rejected() {
    let error = AppConfig::parse(
        r#"
                [json_auto_push]
                repo = "../danger"
            "#,
    )
    .expect_err("config should reject invalid repo");

    assert!(error.message().contains("GitHub repo"));
}
