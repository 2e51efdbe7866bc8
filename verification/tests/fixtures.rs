use zfirot::fixtures::{sample_projects, sample_raw_issues};

#[test]
fn the_sample_projects_have_distinct_push_times() {
    let projects = sample_projects();
    let names: Vec<String> = projects.iter().map(|p| p.repo.full_name()).collect();
    assert_eq!(names, vec!["funkode-io/zfirot", "funkode-io/replay", "carlos-verdes/dotfiles"]);
    assert_eq!(projects[0].pushed_at, "2024-05-01T12:00:00Z");
}

#[test]
fn the_sample_issues_cover_every_tier() {
    let issues = sample_raw_issues();
    let numbers: Vec<u64> = issues.iter().map(|i| i.number).collect();
    assert_eq!(numbers, vec![1, 3, 5, 8, 9, 10, 2]);
    assert!(issues[6].closed);
    assert_eq!(issues[1].linked_prs[0].number, 12);
    assert_eq!(
        issues[0].body.as_deref(),
        Some("## Problem Statement\n\nAgents need a dashboard.\n\n## User Stories\n\n- As an agent…")
    );
}
