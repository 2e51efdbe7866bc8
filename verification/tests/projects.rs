use zfirot::fixtures::sample_projects;
use zfirot::projects::{projects_refresh, sort_by_recency, track_repo_in, untrack_repo_in, ProjectsRefresh};
use zfirot::repo::{Project, RepoRef};
use zfirot::stores::FakeProjectStore;

fn project(owner: &str, name: &str, pushed: &str) -> Project {
    Project::new(RepoRef::new(owner, name), pushed)
}

#[test]
fn recent_projects_are_sorted_by_last_push_descending() {
    let mut projects = sample_projects();
    projects.reverse();
    let sorted = sort_by_recency(&projects);
    let names: Vec<String> = sorted.iter().map(|p| p.repo.full_name()).collect();
    assert_eq!(names, vec!["funkode-io/zfirot", "funkode-io/replay", "carlos-verdes/dotfiles"]);
}

#[test]
fn recency_sort_keeps_ties_in_input_order_and_puts_unpushed_last() {
    let projects = vec![
        project("a", "never", ""),
        project("a", "first", "2024-01-01T00:00:00Z"),
        project("a", "second", "2024-01-01T00:00:00Z"),
        project("a", "newest", "2025-06-01T00:00:00Z"),
    ];
    let names: Vec<String> = sort_by_recency(&projects).iter().map(|p| p.repo.name.clone()).collect();
    assert_eq!(names, vec!["newest", "first", "second", "never"]);
}

/// The live list in a deliberately unsorted order: oldest first, newest in the middle.
fn unsorted_live() -> Vec<Project> {
    vec![
        project("acme", "old", "2023-01-01T00:00:00Z"),
        project("acme", "new", "2025-01-01T00:00:00Z"),
        project("acme", "mid", "2024-01-01T00:00:00Z"),
    ]
}

fn sorted_live() -> Vec<Project> {
    vec![
        project("acme", "new", "2025-01-01T00:00:00Z"),
        project("acme", "mid", "2024-01-01T00:00:00Z"),
        project("acme", "old", "2023-01-01T00:00:00Z"),
    ]
}

/// One stale-while-revalidate refresh against a store: sort the live list,
/// decide against the cache, and write the cache only on a change. Returns
/// the outcome and how many writes it made.
fn refresh_against(store: &mut FakeProjectStore) -> (ProjectsRefresh, usize) {
    let live = sort_by_recency(&unsorted_live());
    match projects_refresh(store.cached_projects(), live) {
        ProjectsRefresh::Changed(list) => {
            store.cache_projects(&list);
            (ProjectsRefresh::Changed(list), 1)
        }
        ProjectsRefresh::Unchanged => (ProjectsRefresh::Unchanged, 0),
    }
}

#[test]
fn refresh_seeds_a_cold_cache_and_reports_changed() {
    let mut store = FakeProjectStore::empty();
    assert_eq!(store.cached_projects(), None, "nothing cached on a cold start");
    let (outcome, _) = refresh_against(&mut store);
    assert_eq!(outcome, ProjectsRefresh::Changed(sorted_live()), "a cold cache always reports the live list as a change");
    assert_eq!(store.cached_projects(), Some(sorted_live()), "the live list is now cached for an instant next launch");
}

#[test]
fn refresh_reports_unchanged_when_the_cache_already_matches() {
    let mut store = FakeProjectStore::empty();
    store.cache_projects(&sorted_live());
    let (outcome, writes) = refresh_against(&mut store);
    assert_eq!(outcome, ProjectsRefresh::Unchanged, "a live list equal to the cache is a no-op");
    assert_eq!(writes, 0, "an unchanged refresh must not rewrite the cache");
}

#[test]
fn refresh_rewrites_a_stale_cache_and_reports_changed() {
    let mut store = FakeProjectStore::empty();
    store.cache_projects(&[project("acme", "gone", "2020-01-01T00:00:00Z")]);
    let (outcome, writes) = refresh_against(&mut store);
    assert_eq!(outcome, ProjectsRefresh::Changed(sorted_live()), "a cache that differs from the live list is a change");
    assert_eq!(store.cached_projects(), Some(sorted_live()), "the stale cache was overwritten with the fresh list");
    assert_eq!(writes, 1, "a changed refresh rewrites the cache exactly once");
}

#[test]
fn projects_refresh_compares_with_the_cache() {
    let live = sample_projects();
    assert_eq!(projects_refresh(None, live.clone()), ProjectsRefresh::Changed(live.clone()));
    assert_eq!(projects_refresh(Some(sample_projects()), live.clone()), ProjectsRefresh::Unchanged);
    let stale = vec![project("funkode-io", "zfirot", "2020-01-01T00:00:00Z")];
    assert_eq!(projects_refresh(Some(stale), live.clone()), ProjectsRefresh::Changed(live));
}

#[test]
fn tracking_is_idempotent_and_newest_first() {
    let mut repos = vec![RepoRef::new("a", "one")];
    track_repo_in(&mut repos, &RepoRef::new("b", "two"));
    track_repo_in(&mut repos, &RepoRef::new("b", "two"));
    assert_eq!(repos, vec![RepoRef::new("b", "two"), RepoRef::new("a", "one")]);
}

#[test]
fn untracking_removes_every_copy() {
    let mut repos = vec![RepoRef::new("a", "one"), RepoRef::new("b", "two"), RepoRef::new("a", "one")];
    untrack_repo_in(&mut repos, &RepoRef::new("a", "one"));
    assert_eq!(repos, vec![RepoRef::new("b", "two")]);
    untrack_repo_in(&mut repos, &RepoRef::new("z", "absent"));
    assert_eq!(repos, vec![RepoRef::new("b", "two")]);
}
