use zfirot::error::AppErrorKind;
use zfirot::graphql::{
    assign_error, assign_ids_from, assign_mutation_result, issues_page_from, label_error,
    label_ids_from, label_mutation_result, malformed_response, map_issue_raw, node_into_project,
    projects_page_from, review_decision, status_error, AssignIdsData, AssignIdsResponse,
    AssignRepository, AuthorNode, BlockerConnection, BlockerNode, CommitConnection, CommitNode,
    GraphQlError, IssuesData, IssuesRepositoryData, IssuesResponse, LabelIdsData, LabelIdsResponse,
    LabelRepository, LinkedPrConnection, LinkedPrNode, Login, LoginConnection, MutationResponse,
    NameConnection, NameNode, NodeId, PageInfo, ParentIssueNode, ParentRepositoryNode,
    ProjectsData, ProjectsResponse, PullRequestCommitNode, RawIssueConnection, RawIssueNode,
    RepositoryConnection, RepositoryNode, RepositoryOwner, ReviewThreadConnection,
    ReviewThreadNode, StatusCheckRollup, Viewer,
};
use zfirot::pr::{PrStatus, ReviewDecision};

fn error(message: &str, error_type: Option<&str>) -> GraphQlError {
    GraphQlError { message: message.to_string(), error_type: error_type.map(str::to_string) }
}

fn node_id(id: &str) -> NodeId {
    NodeId { id: id.to_string() }
}

fn names(labels: &[&str]) -> NameConnection {
    NameConnection { nodes: labels.iter().map(|l| NameNode { name: l.to_string() }).collect() }
}

fn issue_node(number: u64, state: &str, body: &str) -> RawIssueNode {
    RawIssueNode {
        number,
        title: format!("Issue {number}"),
        url: format!("https://github.com/funkode-io/zfirot/issues/{number}"),
        body: body.to_string(),
        state: state.to_string(),
        labels: names(&[]),
        assignees: LoginConnection { nodes: vec![] },
        parent: None,
        blocked_by: BlockerConnection { nodes: vec![] },
        closed_by_pull_requests_references: LinkedPrConnection { nodes: vec![] },
    }
}

fn pr_node(number: u64, draft: bool, decision: Option<&str>, mergeable: &str, rollup: Option<&str>, threads: &[bool]) -> LinkedPrNode {
    LinkedPrNode {
        number,
        url: format!("https://github.com/funkode-io/zfirot/pull/{number}"),
        title: format!("PR {number}"),
        author: Some(AuthorNode { login: "carlos-verdes".to_string() }),
        is_draft: draft,
        review_decision: decision.map(str::to_string),
        mergeable: Some(mergeable.to_string()),
        commits: CommitConnection {
            nodes: vec![PullRequestCommitNode {
                commit: CommitNode { status_check_rollup: rollup.map(|s| StatusCheckRollup { state: s.to_string() }) },
            }],
        },
        review_threads: ReviewThreadConnection {
            nodes: threads.iter().map(|&r| ReviewThreadNode { is_resolved: r }).collect(),
        },
    }
}

#[test]
fn parse_assign_ids_extracts_viewer_and_issue_ids() {
    let response = AssignIdsResponse {
        data: Some(AssignIdsData {
            viewer: node_id("VIEWER_1"),
            repository: Some(AssignRepository { issue: Some(node_id("ISSUE_42")) }),
        }),
        errors: None,
    };
    let ids = assign_ids_from(response, 42).expect("ids should parse");
    assert_eq!(ids.assignee_id, "VIEWER_1");
    assert_eq!(ids.assignable_id, "ISSUE_42");
}

#[test]
fn parse_assign_ids_missing_issue_is_not_found_with_context() {
    let response = AssignIdsResponse {
        data: Some(AssignIdsData { viewer: node_id("VIEWER_1"), repository: Some(AssignRepository { issue: None }) }),
        errors: None,
    };
    let error = assign_ids_from(response, 7).expect_err("a missing issue should fail");
    assert_eq!(error.kind(), AppErrorKind::NotFound);
    assert!(error.diagnostic().contains("issue=7"), "the issue number should be attached as context");
}

#[test]
fn parse_assign_mutation_succeeds_when_no_errors() {
    assign_mutation_result(MutationResponse { errors: None }).expect("a clean mutation response should be Ok");
    assign_mutation_result(MutationResponse { errors: Some(vec![]) }).expect("an empty errors array is clean");
}

#[test]
fn assign_error_forbidden_is_actionable_and_hides_github_text() {
    let response = MutationResponse {
        errors: Some(vec![error("Resource not accessible by personal access token", Some("FORBIDDEN"))]),
    };
    let error = assign_mutation_result(response).expect_err("a FORBIDDEN response should fail");
    assert_eq!(error.kind(), AppErrorKind::Forbidden);
    let display = error.display_message();
    assert!(display.contains("Read and write"), "the message should name the permission to grant: {display}");
    assert!(!display.contains("personal access token"), "GitHub's raw text must not reach the message: {display}");
    assert!(error.diagnostic().contains("personal access token"));
}

#[test]
fn assign_error_maps_rate_limit_and_resolution_failures() {
    let rate_limited = MutationResponse { errors: Some(vec![error("API rate limit exceeded", None)]) };
    assert_eq!(assign_mutation_result(rate_limited).unwrap_err().kind(), AppErrorKind::RateLimited);
    let unresolved = MutationResponse {
        errors: Some(vec![error("Could not resolve to a node with the global id", None)]),
    };
    assert_eq!(assign_mutation_result(unresolved).unwrap_err().kind(), AppErrorKind::NotFound);
}

#[test]
fn parse_label_ids_extracts_issue_and_label_ids() {
    let response = LabelIdsResponse {
        data: Some(LabelIdsData {
            repository: Some(LabelRepository { issue: Some(node_id("ISSUE_42")), label: Some(node_id("LABEL_SLICE")) }),
        }),
        errors: None,
    };
    let ids = label_ids_from(response, 42, "slice").expect("ids should parse");
    assert_eq!(ids.labelable_id, "ISSUE_42");
    assert_eq!(ids.label_id, "LABEL_SLICE");
}

#[test]
fn parse_label_ids_missing_issue_is_not_found_with_context() {
    let response = LabelIdsResponse {
        data: Some(LabelIdsData { repository: Some(LabelRepository { issue: None, label: Some(node_id("LABEL_PRD")) }) }),
        errors: None,
    };
    let error = label_ids_from(response, 7, "prd").expect_err("a missing issue should fail");
    assert_eq!(error.kind(), AppErrorKind::NotFound);
    assert!(error.diagnostic().contains("issue=7"));
}

#[test]
fn parse_label_ids_missing_label_names_the_label_to_create() {
    let response = LabelIdsResponse {
        data: Some(LabelIdsData { repository: Some(LabelRepository { issue: Some(node_id("ISSUE_5")), label: None }) }),
        errors: None,
    };
    let error = label_ids_from(response, 5, "prd").expect_err("a missing label should fail");
    assert_eq!(error.kind(), AppErrorKind::NotFound);
    let display = error.display_message();
    assert!(display.contains("\"prd\" label does not exist"), "the message should name the missing label: {display}");
    assert!(error.diagnostic().contains("label=prd"));
}

#[test]
fn parse_add_label_mutation_succeeds_when_no_errors() {
    label_mutation_result(MutationResponse { errors: None }).expect("a clean mutation response should be Ok");
}

#[test]
fn label_error_forbidden_is_actionable_and_hides_github_text() {
    let response = MutationResponse {
        errors: Some(vec![error("Resource not accessible by personal access token", Some("FORBIDDEN"))]),
    };
    let error = label_mutation_result(response).expect_err("a FORBIDDEN response should fail");
    assert_eq!(error.kind(), AppErrorKind::Forbidden);
    let display = error.display_message();
    assert!(display.contains("Read and write"));
    assert!(!display.contains("personal access token"));
    assert!(error.diagnostic().contains("personal access token"));
}

#[test]
fn write_errors_join_every_message_as_context() {
    let e = assign_error(vec![error("first", None), error("second", None)], "op");
    assert_eq!(e.kind(), AppErrorKind::Internal);
    assert_eq!(e.diagnostic(), "Internal: GitHub reported a query error [operation=op] [errors=first; second]");
    let e = label_error(vec![error("You must have push access", None)], "op");
    assert_eq!(e.kind(), AppErrorKind::Forbidden);
    let e = label_error(vec![error("NOT_FOUND somewhere", None)], "op");
    assert_eq!(e.kind(), AppErrorKind::NotFound);
    assert_eq!(e.display_message(), "Issue or label not found, or not visible to the token");
}

#[test]
fn reports_a_query_error_as_a_failure() {
    let response = IssuesResponse { data: None, errors: Some(vec![error("Something went wrong", None)]) };
    let result = issues_page_from(response);
    assert!(result.is_err(), "GraphQL errors must surface as an AppError");
    assert_eq!(result.unwrap_err().kind(), AppErrorKind::Internal);
}

#[test]
fn reports_a_missing_repository_as_not_found() {
    let response = IssuesResponse { data: Some(IssuesData { repository: None }), errors: None };
    let error = issues_page_from(response).expect_err("a null repository must be an error");
    assert_eq!(error.kind(), AppErrorKind::NotFound);
}

#[test]
fn reports_a_repository_not_found_graphql_error_as_not_found() {
    let response = IssuesResponse {
        data: None,
        errors: Some(vec![error(
            "Could not resolve to a Repository with the name 'funkode-io/missing'.",
            Some("NOT_FOUND"),
        )]),
    };
    let error = issues_page_from(response).expect_err("a NOT_FOUND GraphQL error must map to NotFound");
    assert_eq!(error.kind(), AppErrorKind::NotFound);
}

#[test]
fn maps_labels_state_and_native_links_into_raw_issues() {
    let mut prd = issue_node(1, "OPEN", "## Problem Statement\n\nAgents need a dashboard.");
    prd.title = "Zfirot desktop dashboard".to_string();
    prd.labels = names(&["prd"]);

    let mut child = issue_node(3, "OPEN", "");
    child.parent = Some(ParentIssueNode { number: 1, labels: names(&["prd"]) });
    child.blocked_by = BlockerConnection { nodes: vec![BlockerNode { number: 2 }] };
    child.assignees = LoginConnection {
        nodes: vec![Login {
            login: "carlos-verdes".to_string(),
            avatar_url: "https://avatars.githubusercontent.com/u/1?v=4".to_string(),
        }],
    };
    let mut first = pr_node(12, false, Some("APPROVED"), "MERGEABLE", Some("SUCCESS"), &[true, false]);
    first.title = "Implement SliceState derivation".to_string();
    let mut second = pr_node(13, true, Some("APPROVED"), "CONFLICTING", Some("FAILURE"), &[]);
    second.author = None;
    child.closed_by_pull_requests_references = LinkedPrConnection { nodes: vec![first, second] };

    let mut slice = issue_node(5, "OPEN", "## Parent\n\n#1");
    slice.labels = names(&["slice"]);
    slice.blocked_by = BlockerConnection { nodes: vec![BlockerNode { number: 3 }, BlockerNode { number: 2 }] };

    let unlabeled = issue_node(9, "OPEN", "## What to build\n\nSomething.");

    let mut closed = issue_node(2, "CLOSED", "x");
    closed.labels = names(&["slice"]);
    closed.parent = Some(ParentIssueNode { number: 1, labels: names(&["prd"]) });

    let response = IssuesResponse {
        data: Some(IssuesData {
            repository: Some(IssuesRepositoryData {
                issues: RawIssueConnection {
                    page_info: PageInfo { has_next_page: false, end_cursor: Some("END".to_string()) },
                    nodes: vec![prd, closed, child, slice, unlabeled],
                },
            }),
        }),
        errors: None,
    };
    let (issues, next) = issues_page_from(response).expect("page should map");
    assert_eq!(next, None, "the page is a single, final page");
    assert_eq!(issues.len(), 5);
    let issue_by_number = |number: u64| {
        issues
            .iter()
            .find(|issue| issue.number == number)
            .unwrap_or_else(|| panic!("no issue #{number} in the mapped page"))
    };

    // The PRD: `prd` label, open, no parent, body carried through.
    let prd = issue_by_number(1);
    assert_eq!(prd.labels, vec!["prd".to_string()]);
    assert!(!prd.closed);
    assert_eq!(prd.native_parent, None);
    assert!(!prd.is_native_child_of_prd);
    assert!(prd.body.is_some());

    // A native child of the PRD with two open linked PRs.
    let child = issue_by_number(3);
    assert_eq!(child.native_parent, Some(1));
    assert!(child.is_native_child_of_prd);
    assert_eq!(child.body, None);
    assert_eq!(child.native_blockers, vec![2]);
    assert_eq!(child.linked_prs.len(), 2);
    assert_eq!(child.linked_prs[0].number, 12);
    assert_eq!(child.linked_prs[0].author.as_deref(), Some("carlos-verdes"));
    assert_eq!(child.linked_prs[0].title, "Implement SliceState derivation");
    assert_eq!(child.linked_prs[0].url, "https://github.com/funkode-io/zfirot/pull/12");
    assert_eq!(child.linked_prs[0].pr_status, PrStatus::Approved);
    assert!(!child.linked_prs[0].conflicts);
    assert!(!child.linked_prs[0].ci_failing);
    assert_eq!(child.linked_prs[0].unresolved_comment_count, 1);
    assert_eq!(child.linked_prs[1].number, 13);
    assert_eq!(child.linked_prs[1].author, None);
    assert_eq!(child.linked_prs[1].pr_status, PrStatus::Draft);
    assert!(child.linked_prs[1].conflicts);
    assert!(child.linked_prs[1].ci_failing);
    assert_eq!(child.linked_prs[1].unresolved_comment_count, 0);
    assert_eq!(child.assignee.as_deref(), Some("carlos-verdes"));
    assert_eq!(child.assignee_avatar_url.as_deref(), Some("https://avatars.githubusercontent.com/u/1?v=4"));

    // A `slice`-labelled issue keeps both open and closed native blockers.
    let slice = issue_by_number(5);
    assert_eq!(slice.labels, vec!["slice".to_string()]);
    assert_eq!(slice.native_blockers, vec![3, 2]);
    assert_eq!(slice.native_parent, None);
    assert!(slice.linked_prs.is_empty());

    // An unlabeled issue stays label-free for the heuristic tier.
    let unlabeled = issue_by_number(9);
    assert!(unlabeled.labels.is_empty());

    // Closed issues are mapped too; the classifier omits them.
    let closed = issue_by_number(2);
    assert!(closed.closed);
    assert!(closed.is_native_child_of_prd);
}

#[test]
fn a_page_with_more_results_reports_its_cursor() {
    let response = IssuesResponse {
        data: Some(IssuesData {
            repository: Some(IssuesRepositoryData {
                issues: RawIssueConnection {
                    page_info: PageInfo { has_next_page: true, end_cursor: Some("CURSOR".to_string()) },
                    nodes: vec![],
                },
            }),
        }),
        errors: None,
    };
    let (issues, next) = issues_page_from(response).unwrap();
    assert!(issues.is_empty());
    assert_eq!(next.as_deref(), Some("CURSOR"));
}

fn repo_node(owner: &str, name: &str, pushed: Option<&str>, fork_of: Option<(&str, &str, Option<&str>)>) -> RepositoryNode {
    RepositoryNode {
        name: name.to_string(),
        pushed_at: pushed.map(str::to_string),
        is_fork: fork_of.is_some(),
        owner: RepositoryOwner { login: owner.to_string() },
        parent: fork_of.map(|(o, n, p)| ParentRepositoryNode {
            name: n.to_string(),
            pushed_at: p.map(str::to_string),
            owner: RepositoryOwner { login: o.to_string() },
        }),
    }
}

#[test]
fn parses_repositories_into_projects() {
    let response = ProjectsResponse {
        data: Some(ProjectsData {
            viewer: Viewer {
                repositories: RepositoryConnection {
                    page_info: PageInfo { has_next_page: false, end_cursor: None },
                    nodes: vec![
                        repo_node("funkode-io", "replay", Some("2024-04-15T09:30:00Z"), None),
                        repo_node("funkode-io", "zfirot", Some("2024-04-01T00:00:00Z"), None),
                        repo_node(
                            "carlos-verdes",
                            "zfirot",
                            Some("2024-03-01T00:00:00Z"),
                            Some(("funkode-io", "zfirot", Some("2024-05-01T12:00:00Z"))),
                        ),
                        repo_node("carlos-verdes", "dotfiles", None, None),
                    ],
                },
            },
        }),
        errors: None,
    };
    let (projects, next) = projects_page_from(response).expect("page should map");
    assert_eq!(next, None);
    assert_eq!(projects.len(), 3);
    assert_eq!(projects[0].repo.full_name(), "funkode-io/replay");
    assert_eq!(projects[0].pushed_at, "2024-04-15T09:30:00Z");
    let zfirot: Vec<_> = projects.iter().filter(|p| p.repo.name == "zfirot").collect();
    assert_eq!(zfirot.len(), 1, "the fork and upstream collapse to one project");
    assert_eq!(zfirot[0].repo.full_name(), "funkode-io/zfirot");
    assert_eq!(zfirot[0].pushed_at, "2024-05-01T12:00:00Z");
    let dotfiles = projects.iter().find(|p| p.repo.name == "dotfiles").expect("dotfiles repo present");
    assert_eq!(dotfiles.pushed_at, "");
}

#[test]
fn projects_errors_map_to_rate_limited_or_internal() {
    let limited = ProjectsResponse { data: None, errors: Some(vec![error("API rate limit exceeded for user", None)]) };
    assert_eq!(projects_page_from(limited).unwrap_err().kind(), AppErrorKind::RateLimited);
    let missing = ProjectsResponse { data: None, errors: None };
    let e = projects_page_from(missing).unwrap_err();
    assert_eq!(e.kind(), AppErrorKind::Internal);
    assert_eq!(e.diagnostic(), "Internal: GitHub returned no viewer data [operation=parse_projects_response]");
}

#[test]
fn a_fork_stands_in_for_its_upstream() {
    let p = node_into_project(repo_node("me", "fork", Some("2024-01-01"), Some(("up", "stream", None))));
    assert_eq!(p.repo.full_name(), "up/stream");
    assert_eq!(p.pushed_at, "");
    let own = node_into_project(repo_node("me", "mine", Some("2024-01-01"), None));
    assert_eq!(own.repo.full_name(), "me/mine");
    assert_eq!(own.pushed_at, "2024-01-01");
}

#[test]
fn review_decisions_map_known_values_only() {
    assert_eq!(review_decision(Some("APPROVED")), Some(ReviewDecision::Approved));
    assert_eq!(review_decision(Some("CHANGES_REQUESTED")), Some(ReviewDecision::ChangesRequested));
    assert_eq!(review_decision(Some("REVIEW_REQUIRED")), Some(ReviewDecision::ReviewRequired));
    assert_eq!(review_decision(Some("approved")), None);
    assert_eq!(review_decision(None), None);
}

#[test]
fn statuses_map_to_actionable_errors() {
    assert_eq!(status_error(401, "401 Unauthorized", None, "op").kind(), AppErrorKind::Unauthorized);
    assert_eq!(status_error(403, "403 Forbidden", Some(" 0 "), "op").kind(), AppErrorKind::RateLimited);
    assert_eq!(status_error(403, "403 Forbidden", Some("12"), "op").kind(), AppErrorKind::Forbidden);
    let e = status_error(502, "502 Bad Gateway", None, "op");
    assert_eq!(e.kind(), AppErrorKind::Unavailable);
    assert_eq!(e.diagnostic(), "Unavailable: GitHub is temporarily unavailable [operation=op] [status=502 Bad Gateway]");
    assert_eq!(status_error(404, "404 Not Found", None, "op").kind(), AppErrorKind::Internal);
    let m = malformed_response("parse_issues_response", "expected value at line 1");
    assert_eq!(m.kind(), AppErrorKind::Internal);
    assert!(m.diagnostic().ends_with("caused by: expected value at line 1"));
}

#[test]
fn a_single_issue_node_maps_on_its_own() {
    let raw = map_issue_raw(issue_node(9, "OPEN", "body"));
    assert_eq!(raw.number, 9);
    assert!(!raw.closed);
    assert!(raw.labels.is_empty());
    assert_eq!(raw.assignee, None);
    assert!(!raw.is_native_child_of_prd);
}
