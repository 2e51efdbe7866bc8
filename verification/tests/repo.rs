use zfirot::error::AppErrorKind;
use zfirot::repo::{Project, RepoRef};

#[test]
fn parse_table() {
    let cases: &[(&str, Option<(&str, &str)>)] = &[
        ("octocat/hello-world", Some(("octocat", "hello-world"))),
        ("  funkode-io/zfirot  ", Some(("funkode-io", "zfirot"))),
        ("owner/repo_name.ext", Some(("owner", "repo_name.ext"))),
        ("", None),
        ("   ", None),
        ("ownerrepo", None),
        ("owner/repo/extra", None),
        ("/repo", None),
        ("owner/", None),
        ("owner name/repo", None),
        ("-owner/repo", None),
        ("owner-/repo", None),
        ("owner/repo name", None),
        ("owner/repo@1", None),
    ];

    for (input, ok) in cases {
        match (RepoRef::parse(input), ok) {
            (Ok(repo), Some((owner, name))) => {
                assert_eq!(repo.owner, *owner, "input={:?}", input);
                assert_eq!(repo.name, *name, "input={:?}", input);
            }
            (Ok(repo), None) => {
                panic!("expected parse({:?}) to fail, but got {repo:?}", input);
            }
            (Err(err), None) => {
                assert_eq!(err.kind(), AppErrorKind::InvalidInput, "input={:?}", input);
            }
            (Err(err), Some(_)) => {
                panic!("expected parse({:?}) to succeed, but got {}", input, err.diagnostic());
            }
        }
    }
}

#[test]
fn parse_errors_name_the_rule_that_was_broken() {
    let message = |input: &str| RepoRef::parse(input).unwrap_err().display_message();
    assert_eq!(message(" "), "Enter a repository as owner/repo.");
    assert_eq!(message("ownerrepo"), "Enter a repository as owner/repo (e.g. \"octocat/hello-world\").");
    assert_eq!(message("a/b/c"), "Enter a repository as owner/repo — only one slash is allowed.");
    assert_eq!(message("/repo"), "Owner must not be empty.");
    assert_eq!(message("owner/"), "Repository name must not be empty.");
    assert_eq!(
        message("-owner/repo"),
        "Owner must contain only letters, digits, and hyphens, and may not start or end with a hyphen."
    );
    assert_eq!(
        message("owner/repo@1"),
        "Repository name must contain only letters, digits, hyphens, underscores, and dots."
    );
    assert_eq!(
        RepoRef::parse("x").unwrap_err().diagnostic(),
        "InvalidInput: Enter a repository as owner/repo (e.g. \"octocat/hello-world\"). [operation=RepoRef::parse]"
    );
}

#[test]
fn a_repo_displays_as_owner_slash_name() {
    assert_eq!(RepoRef::new("funkode-io", "zfirot").full_name(), "funkode-io/zfirot");
    let project = Project::new(RepoRef::new("a", "b"), "2024-01-01T00:00:00Z");
    assert_eq!(project.pushed_at, "2024-01-01T00:00:00Z");
    assert_eq!(project.repo, RepoRef::new("a", "b"));
}

#[test]
fn display_round_trips_through_parse() {
    for (owner, name) in [("octocat", "hello-world"), ("funkode-io", "zfirot"), ("a1", "my_repo.rs")] {
        let repo = RepoRef::new(owner, name);
        let parsed = RepoRef::parse(&repo.full_name()).expect("a valid repository parses back");
        assert_eq!(parsed, repo);
    }
}
