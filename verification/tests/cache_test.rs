use own_repos_curator::repo_url_cache::RepoUrlCache;

#[test]
fn infers_owner_from_highest_match_count() {
    let cache = RepoUrlCache::from_entries(&[
        ("cat2151/own-repos-curator", "https://example.com/a"),
        ("cat2151/cat-self-update", "https://example.com/b"),
        ("other/own-repos-curator", "https://example.com/c"),
    ]);

    assert_eq!(
        cache.infer_owner(&["own-repos-curator", "cat-self-update"]),
        Some("cat2151".to_string())
    );
}
