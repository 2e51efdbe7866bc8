//! Canned data for the offline GitHub backend: recent projects with varied
//! push times, and a raw issue set covering every classification tier.

use vstd::prelude::*;

use crate::classification::{issue_views, RawIssue, RawIssueView};
use crate::pr::PrStatus;
use crate::projects::projects_facts;
use crate::refresh::{issue_facts, IssueFacts, PrFacts};
use crate::repo::{Project, RepoRef};
use crate::slice::LinkedPrRef;

verus! {

/// An offline GitHub backend returning canned data, so the board can render
/// end-to-end without GitHub access.
#[derive(Clone, Copy, Debug, Default)]
pub struct FakeGitHubPort;

/// The facts of the canned recent projects.
pub open spec fn sample_project_facts() -> Seq<(Seq<char>, Seq<char>, Seq<char>)> {
    seq![
        ("funkode-io"@, "zfirot"@, "2024-05-01T12:00:00Z"@),
        ("funkode-io"@, "replay"@, "2024-04-15T09:30:00Z"@),
        ("carlos-verdes"@, "dotfiles"@, "2024-03-20T18:45:00Z"@),
    ]
}

/// Canned recent projects, with varied `pushed_at` timestamps so callers can
/// exercise the most-recently-pushed-first ordering.
pub fn sample_projects() -> (r: Vec<Project>)
    ensures
        projects_facts(r@) == sample_project_facts(),
{
    let mut r: Vec<Project> = Vec::new();
    r.push(Project::new(RepoRef::new("funkode-io", "zfirot"), "2024-05-01T12:00:00Z"));
    r.push(Project::new(RepoRef::new("funkode-io", "replay"), "2024-04-15T09:30:00Z"));
    r.push(Project::new(RepoRef::new("carlos-verdes", "dotfiles"), "2024-03-20T18:45:00Z"));
    assert(projects_facts(r@) =~= sample_project_facts());
    r
}

/// The facts of the canned raw issues.
pub open spec fn sample_issue_facts() -> Seq<IssueFacts> {
    seq![
        IssueFacts {
            number: 1,
            title: "Zfirot desktop dashboard"@,
            url: "https://github.com/funkode-io/zfirot/issues/1"@,
            body: Some("## Problem Statement\n\nAgents need a dashboard.\n\n## User Stories\n\n- As an agent…"@),
            labels: seq!["prd"@],
            closed: false,
            native_parent: None,
            native_blockers: seq![],
            assignee: None,
            assignee_avatar_url: None,
            linked_prs: seq![],
            is_native_child_of_prd: false,
        },
        IssueFacts {
            number: 3,
            title: "Derive SliceState as a pure domain function"@,
            url: "https://github.com/funkode-io/zfirot/issues/3"@,
            body: Some("## What to build\n\nDerive state.\n\n## Parent\n\nfunkode-io/zfirot#1\n\n## Blocked by\n\n- #2"@),
            labels: seq!["ready-for-agent"@],
            closed: false,
            native_parent: Some(1),
            native_blockers: seq![2],
            assignee: Some("carlos-verdes"@),
            assignee_avatar_url: Some("https://avatars.githubusercontent.com/u/1?v=4"@),
            linked_prs: seq![PrFacts { number: 12, author: Some("carlos-verdes"@), title: "Derive SliceState as a pure domain function"@, url: "https://github.com/funkode-io/zfirot/pull/12"@, pr_status: PrStatus::AwaitingReview, conflicts: false, ci_failing: false, unresolved_comment_count: 0 }],
            is_native_child_of_prd: true,
        },
        IssueFacts {
            number: 5,
            title: "Two-tier issue classification"@,
            url: "https://github.com/funkode-io/zfirot/issues/5"@,
            body: Some("## What to build\n\nClassify issues.\n\n## Acceptance criteria\n\n- [ ] Labels work\n\n## Parent\n\nfunkode-io/zfirot#1\n\n## Blocked by\n\n- funkode-io/zfirot#3"@),
            labels: seq!["slice"@],
            closed: false,
            native_parent: None,
            native_blockers: seq![3, 2],
            assignee: None,
            assignee_avatar_url: None,
            linked_prs: seq![],
            is_native_child_of_prd: false,
        },
        IssueFacts {
            number: 8,
            title: "Multi-repo support"@,
            url: "https://github.com/funkode-io/zfirot/issues/8"@,
            body: Some("## Problem Statement\n\nUsers need to track multiple repos.\n\n## User Stories\n\n- As a user, I want to add repos…"@),
            labels: seq![],
            closed: false,
            native_parent: None,
            native_blockers: seq![],
            assignee: None,
            assignee_avatar_url: None,
            linked_prs: seq![],
            is_native_child_of_prd: false,
        },
        IssueFacts {
            number: 9,
            title: "Add dark-mode toggle"@,
            url: "https://github.com/funkode-io/zfirot/issues/9"@,
            body: Some("## What to build\n\nA dark-mode toggle button.\n\n## Acceptance criteria\n\n- [ ] Toggle persists across restarts"@),
            labels: seq![],
            closed: false,
            native_parent: None,
            native_blockers: seq![],
            assignee: None,
            assignee_avatar_url: None,
            linked_prs: seq![],
            is_native_child_of_prd: false,
        },
        IssueFacts {
            number: 10,
            title: "Investigate Tauri migration"@,
            url: "https://github.com/funkode-io/zfirot/issues/10"@,
            body: Some("Spike: evaluate Tauri vs Dioxus desktop."@),
            labels: seq![],
            closed: false,
            native_parent: None,
            native_blockers: seq![],
            assignee: None,
            assignee_avatar_url: None,
            linked_prs: seq![],
            is_native_child_of_prd: false,
        },
        IssueFacts {
            number: 2,
            title: "Walking skeleton"@,
            url: "https://github.com/funkode-io/zfirot/issues/2"@,
            body: None,
            labels: seq!["slice"@],
            closed: true,
            native_parent: Some(1),
            native_blockers: seq![],
            assignee: Some("carlos-verdes"@),
            assignee_avatar_url: Some("https://avatars.githubusercontent.com/u/1?v=4"@),
            linked_prs: seq![],
            is_native_child_of_prd: true,
        },
    ]
}

/// Canned raw issues covering every classification tier: a tier-1 PRD,
/// tier-1 Slices (by label, by native parent, with a prose parent fallback),
/// a suggested PRD and a suggested Slice (template headings only), an
/// unclassified issue, and a closed Slice the board omits.
pub fn sample_raw_issues() -> (r: Vec<RawIssue>)
    ensures
        issue_views(r@).map_values(|v: RawIssueView| issue_facts(v)) == sample_issue_facts(),
{
    let mut issues: Vec<RawIssue> = Vec::new();
    let mut labels0: Vec<String> = Vec::new();
    labels0.push("prd".to_string());
    let mut blockers0: Vec<u64> = Vec::new();
    let mut prs0: Vec<LinkedPrRef> = Vec::new();
    issues.push(
        RawIssue {
            number: 1,
            title: "Zfirot desktop dashboard".to_string(),
            url: "https://github.com/funkode-io/zfirot/issues/1".to_string(),
            body: Some("## Problem Statement\n\nAgents need a dashboard.\n\n## User Stories\n\n- As an agent…".to_string()),
            labels: labels0,
            closed: false,
            native_parent: None,
            native_blockers: blockers0,
            assignee: None,
            assignee_avatar_url: None,
            linked_prs: prs0,
            is_native_child_of_prd: false,
        },
    );
    let mut labels1: Vec<String> = Vec::new();
    labels1.push("ready-for-agent".to_string());
    let mut blockers1: Vec<u64> = Vec::new();
    blockers1.push(2);
    let mut prs1: Vec<LinkedPrRef> = Vec::new();
    prs1.push(
        LinkedPrRef {
            number: 12,
            author: Some("carlos-verdes".to_string()),
            title: "Derive SliceState as a pure domain function".to_string(),
            url: "https://github.com/funkode-io/zfirot/pull/12".to_string(),
            pr_status: PrStatus::AwaitingReview,
            conflicts: false,
            ci_failing: false,
            unresolved_comment_count: 0,
        },
    );
    issues.push(
        RawIssue {
            number: 3,
            title: "Derive SliceState as a pure domain function".to_string(),
            url: "https://github.com/funkode-io/zfirot/issues/3".to_string(),
            body: Some("## What to build\n\nDerive state.\n\n## Parent\n\nfunkode-io/zfirot#1\n\n## Blocked by\n\n- #2".to_string()),
            labels: labels1,
            closed: false,
            native_parent: Some(1),
            native_blockers: blockers1,
            assignee: Some("carlos-verdes".to_string()),
            assignee_avatar_url: Some("https://avatars.githubusercontent.com/u/1?v=4".to_string()),
            linked_prs: prs1,
            is_native_child_of_prd: true,
        },
    );
    let mut labels2: Vec<String> = Vec::new();
    labels2.push("slice".to_string());
    let mut blockers2: Vec<u64> = Vec::new();
    blockers2.push(3);
    blockers2.push(2);
    let mut prs2: Vec<LinkedPrRef> = Vec::new();
    issues.push(
        RawIssue {
            number: 5,
            title: "Two-tier issue classification".to_string(),
            url: "https://github.com/funkode-io/zfirot/issues/5".to_string(),
            body: Some("## What to build\n\nClassify issues.\n\n## Acceptance criteria\n\n- [ ] Labels work\n\n## Parent\n\nfunkode-io/zfirot#1\n\n## Blocked by\n\n- funkode-io/zfirot#3".to_string()),
            labels: labels2,
            closed: false,
            native_parent: None,
            native_blockers: blockers2,
            assignee: None,
            assignee_avatar_url: None,
            linked_prs: prs2,
            is_native_child_of_prd: false,
        },
    );
    let mut labels3: Vec<String> = Vec::new();
    let mut blockers3: Vec<u64> = Vec::new();
    let mut prs3: Vec<LinkedPrRef> = Vec::new();
    issues.push(
        RawIssue {
            number: 8,
            title: "Multi-repo support".to_string(),
            url: "https://github.com/funkode-io/zfirot/issues/8".to_string(),
            body: Some("## Problem Statement\n\nUsers need to track multiple repos.\n\n## User Stories\n\n- As a user, I want to add repos…".to_string()),
            labels: labels3,
            closed: false,
            native_parent: None,
            native_blockers: blockers3,
            assignee: None,
            assignee_avatar_url: None,
            linked_prs: prs3,
            is_native_child_of_prd: false,
        },
    );
    let mut labels4: Vec<String> = Vec::new();
    let mut blockers4: Vec<u64> = Vec::new();
    let mut prs4: Vec<LinkedPrRef> = Vec::new();
    issues.push(
        RawIssue {
            number: 9,
            title: "Add dark-mode toggle".to_string(),
            url: "https://github.com/funkode-io/zfirot/issues/9".to_string(),
            body: Some("## What to build\n\nA dark-mode toggle button.\n\n## Acceptance criteria\n\n- [ ] Toggle persists across restarts".to_string()),
            labels: labels4,
            closed: false,
            native_parent: None,
            native_blockers: blockers4,
            assignee: None,
            assignee_avatar_url: None,
            linked_prs: prs4,
            is_native_child_of_prd: false,
        },
    );
    let mut labels5: Vec<String> = Vec::new();
    let mut blockers5: Vec<u64> = Vec::new();
    let mut prs5: Vec<LinkedPrRef> = Vec::new();
    issues.push(
        RawIssue {
            number: 10,
            title: "Investigate Tauri migration".to_string(),
            url: "https://github.com/funkode-io/zfirot/issues/10".to_string(),
            body: Some("Spike: evaluate Tauri vs Dioxus desktop.".to_string()),
            labels: labels5,
            closed: false,
            native_parent: None,
            native_blockers: blockers5,
            assignee: None,
            assignee_avatar_url: None,
            linked_prs: prs5,
            is_native_child_of_prd: false,
        },
    );
    let mut labels6: Vec<String> = Vec::new();
    labels6.push("slice".to_string());
    let mut blockers6: Vec<u64> = Vec::new();
    let mut prs6: Vec<LinkedPrRef> = Vec::new();
    issues.push(
        RawIssue {
            number: 2,
            title: "Walking skeleton".to_string(),
            url: "https://github.com/funkode-io/zfirot/issues/2".to_string(),
            body: None,
            labels: labels6,
            closed: true,
            native_parent: Some(1),
            native_blockers: blockers6,
            assignee: Some("carlos-verdes".to_string()),
            assignee_avatar_url: Some("https://avatars.githubusercontent.com/u/1?v=4".to_string()),
            linked_prs: prs6,
            is_native_child_of_prd: true,
        },
    );
    proof {
        let facts = issue_views(issues@).map_values(|v: RawIssueView| issue_facts(v));
        let want = sample_issue_facts();
        assert forall|k: int| 0 <= k < want.len() implies facts[k] == want[k] by {
            assert(facts[k].labels =~= want[k].labels);
            assert(facts[k].native_blockers =~= want[k].native_blockers);
            assert(facts[k].linked_prs =~= want[k].linked_prs);
        }
        assert(facts =~= want);
    }
    issues
}

} // verus!
