use zfirot::home_filter::{filter_home, HomeFilter};
use zfirot::repo::{Project, RepoRef};

fn project(owner: &str, name: &str) -> Project {
    Project::new(RepoRef::new(owner, name), "2026-01-01T00:00:00Z")
}

fn projects() -> Vec<Project> {
    vec![
        project("funkode-io", "zfirot"),
        project("funkode-io", "retail-browser"),
        project("octocat", "hello-world"),
    ]
}

fn matched(outcome: &HomeFilter) -> Vec<String> {
    match outcome {
        HomeFilter::Filtered(ps) => ps.iter().map(|p| p.repo.full_name()).collect(),
        other => panic!("expected Filtered, got {other:?}"),
    }
}

#[test]
fn empty_query_matches_every_project() {
    let ps = projects();
    assert_eq!(
        matched(&filter_home("", &ps)),
        vec!["funkode-io/zfirot", "funkode-io/retail-browser", "octocat/hello-world"],
    );
}

#[test]
fn whitespace_query_matches_every_project() {
    let ps = projects();
    assert_eq!(matched(&filter_home("   ", &ps)).len(), 3);
}

#[test]
fn substring_on_owner_filters_to_matches() {
    let ps = projects();
    assert_eq!(
        matched(&filter_home("funkode", &ps)),
        vec!["funkode-io/zfirot", "funkode-io/retail-browser"],
    );
}

#[test]
fn substring_on_name_filters_to_matches() {
    let ps = projects();
    assert_eq!(matched(&filter_home("retail", &ps)), vec!["funkode-io/retail-browser"]);
}

#[test]
fn substring_spanning_owner_and_name_matches() {
    let ps = projects();
    assert_eq!(matched(&filter_home("io/z", &ps)), vec!["funkode-io/zfirot"]);
}

#[test]
fn matching_is_case_insensitive() {
    let ps = projects();
    assert_eq!(matched(&filter_home("OCTOCAT", &ps)), vec!["octocat/hello-world"]);
}

#[test]
fn zero_matches_with_valid_repo_path_offers_goto() {
    let ps = projects();
    assert_eq!(
        filter_home("someone/elsewhere", &ps),
        HomeFilter::GoTo(RepoRef::new("someone", "elsewhere")),
    );
}

#[test]
fn goto_preserves_owner_repo_case() {
    let ps = projects();
    assert_eq!(
        filter_home("SomeOne/Elsewhere", &ps),
        HomeFilter::GoTo(RepoRef::new("SomeOne", "Elsewhere")),
    );
}

#[test]
fn zero_matches_with_invalid_repo_path_shows_hint() {
    let ps = projects();
    assert_eq!(filter_home("nonsense", &ps), HomeFilter::Hint);
}

#[test]
fn a_discovered_repo_typed_in_full_stays_filtered_not_goto() {
    let ps = projects();
    assert_eq!(matched(&filter_home("funkode-io/zfirot", &ps)), vec!["funkode-io/zfirot"]);
}

#[test]
fn no_projects_and_empty_query_is_a_hint() {
    assert_eq!(filter_home("", &[]), HomeFilter::Hint);
}

#[test]
fn a_padded_query_is_trimmed_before_matching() {
    let ps = projects();
    assert_eq!(matched(&filter_home("  hello  ", &ps)), vec!["octocat/hello-world"]);
    assert_eq!(
        filter_home("  someone/elsewhere  ", &ps),
        HomeFilter::GoTo(RepoRef::new("someone", "elsewhere")),
    );
}

fn many(n: usize) -> Vec<Project> {
    (0..n).map(|i| project("acme", &format!("repo-{i}"))).collect()
}

#[test]
fn home_layout_shows_six_until_asked_for_more() {
    let all = many(8);
    let layout = zfirot::home_filter::home_layout("", &all, &[], false);
    assert_eq!(layout.visible, 6);
    assert!(layout.show_more);
    let expanded = zfirot::home_filter::home_layout("", &all, &[], true);
    assert_eq!(expanded.visible, 8);
    assert!(!expanded.show_more);
    let few = zfirot::home_filter::home_layout("", &many(3), &[], false);
    assert_eq!(few.visible, 3);
    assert!(!few.show_more);
}

#[test]
fn home_layout_lists_only_undiscovered_summoned_repos_under_a_blank_query() {
    let discovered = vec![project("funkode-io", "zfirot")];
    let summoned = vec![RepoRef::new("funkode-io", "zfirot"), RepoRef::new("octocat", "hello-world")];
    let blank = zfirot::home_filter::home_layout("  ", &discovered, &summoned, false);
    assert_eq!(blank.summoned, vec![RepoRef::new("octocat", "hello-world")]);
    let typed = zfirot::home_filter::home_layout("zfi", &discovered, &summoned, false);
    assert!(typed.summoned.is_empty());
    assert!(matches!(typed.outcome, HomeFilter::Filtered(_)));
}

#[test]
fn home_layout_shows_the_placeholder_only_with_nothing_discovered_and_nothing_typed() {
    let empty = zfirot::home_filter::home_layout("", &[], &[RepoRef::new("a", "b")], false);
    assert_eq!(empty.outcome, HomeFilter::Hint);
    assert!(empty.no_projects_yet);
    assert!(empty.summoned.is_empty());
    assert_eq!(empty.visible, 0);
    let typed = zfirot::home_filter::home_layout("nothing here", &[], &[], false);
    assert!(!typed.no_projects_yet);
    let goto = zfirot::home_filter::home_layout("octocat/hello-world", &[], &[], false);
    assert_eq!(goto.outcome, HomeFilter::GoTo(RepoRef::new("octocat", "hello-world")));
    assert!(!goto.no_projects_yet);
}
