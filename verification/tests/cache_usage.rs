use zfirot::cache_usage::{cache_file_name, cached_repo_name, usage_report, BoardCacheUsage, CachedProjectUsage};
use zfirot::repo::RepoRef;

#[test]
fn a_snapshot_file_is_named_after_the_repository() {
    assert_eq!(cache_file_name(&RepoRef::new("funkode-io", "zfirot")), "zfirot.json");
}

#[test]
fn only_json_files_name_a_cached_repository() {
    assert_eq!(cached_repo_name("zfirot.json").as_deref(), Some("zfirot"));
    assert_eq!(cached_repo_name("a.b.json").as_deref(), Some("a.b"));
    assert_eq!(cached_repo_name("..json").as_deref(), Some("."));
    assert_eq!(cached_repo_name(".json"), None);
    assert_eq!(cached_repo_name("notes.txt"), None);
    assert_eq!(cached_repo_name("README"), None);
    assert_eq!(cached_repo_name("x.JSON"), None);
}

#[test]
fn usage_is_ordered_by_repository_and_totalled() {
    let entries = vec![
        CachedProjectUsage { repo: RepoRef::new("zeta", "a"), bytes: 5 },
        CachedProjectUsage { repo: RepoRef::new("alpha", "b"), bytes: 7 },
        CachedProjectUsage { repo: RepoRef::new("alpha", "a"), bytes: 1 },
    ];
    let usage = usage_report(entries);
    let order: Vec<String> = usage.projects.iter().map(|p| p.repo.full_name()).collect();
    assert_eq!(order, vec!["alpha/a", "alpha/b", "zeta/a"]);
    assert_eq!(usage.total_bytes, 13);
    assert_eq!(usage_report(vec![]), BoardCacheUsage::default());
}
