//! GitHub GraphQL responses, once decoded: projecting issue and repository
//! nodes into the board's raw facts, and mapping GraphQL and HTTP failures
//! to application errors the caller can act on.

use vstd::prelude::*;

use crate::classification::RawIssue;
use crate::error::{AppError, AppErrorKind, AppErrorView};
use crate::order::{text_lt, text_lt_exec};
use crate::pr::{derive_status, PrStatus, ReviewDecision};
use crate::projects::same_repo;
use crate::repo::{Project, RepoRef};
use crate::slice::LinkedPrRef;
use crate::text::{chars_of, contains, dec_str, decimal, find_exec, str_eq, trim, trim_vec};

verus! {

/// One entry of a GraphQL `errors` array.
pub struct GraphQlError {
    pub message: String,
    /// The error's `type` (such as `NOT_FOUND` or `FORBIDDEN`), when given.
    pub error_type: Option<String>,
}

/// A connection's paging state.
pub struct PageInfo {
    pub has_next_page: bool,
    pub end_cursor: Option<String>,
}

/// An assignee.
pub struct Login {
    pub login: String,
    pub avatar_url: String,
}

/// The assignees of an issue.
pub struct LoginConnection {
    pub nodes: Vec<Login>,
}

/// The author of a Pull Request.
pub struct AuthorNode {
    pub login: String,
}

/// The aggregated CI check state of a commit.
pub struct StatusCheckRollup {
    pub state: String,
}

/// A commit and its CI check rollup.
pub struct CommitNode {
    pub status_check_rollup: Option<StatusCheckRollup>,
}

/// A Pull Request's commit entry.
pub struct PullRequestCommitNode {
    pub commit: CommitNode,
}

/// A Pull Request's last commit (the query asks for one).
pub struct CommitConnection {
    pub nodes: Vec<PullRequestCommitNode>,
}

/// A review thread of a Pull Request.
pub struct ReviewThreadNode {
    pub is_resolved: bool,
}

/// The review threads of a Pull Request.
pub struct ReviewThreadConnection {
    pub nodes: Vec<ReviewThreadNode>,
}

/// An open Pull Request linked to an issue by its closing reference.
pub struct LinkedPrNode {
    pub number: u64,
    pub url: String,
    pub title: String,
    pub author: Option<AuthorNode>,
    pub is_draft: bool,
    pub review_decision: Option<String>,
    pub mergeable: Option<String>,
    pub commits: CommitConnection,
    pub review_threads: ReviewThreadConnection,
}

/// The open Pull Requests linked to an issue.
pub struct LinkedPrConnection {
    pub nodes: Vec<LinkedPrNode>,
}

/// A label.
pub struct NameNode {
    pub name: String,
}

/// The labels of an issue.
pub struct NameConnection {
    pub nodes: Vec<NameNode>,
}

/// The native sub-issue parent, with its labels.
pub struct ParentIssueNode {
    pub number: u64,
    pub labels: NameConnection,
}

/// A native "blocked by" dependency.
pub struct BlockerNode {
    pub number: u64,
}

/// The native "blocked by" dependencies of an issue.
pub struct BlockerConnection {
    pub nodes: Vec<BlockerNode>,
}

/// One issue of the issues query.
pub struct RawIssueNode {
    pub number: u64,
    pub title: String,
    pub url: String,
    pub body: String,
    pub state: String,
    pub labels: NameConnection,
    pub assignees: LoginConnection,
    pub parent: Option<ParentIssueNode>,
    pub blocked_by: BlockerConnection,
    pub closed_by_pull_requests_references: LinkedPrConnection,
}

/// A page of issues.
pub struct RawIssueConnection {
    pub page_info: PageInfo,
    pub nodes: Vec<RawIssueNode>,
}

/// The repository of the issues query.
pub struct IssuesRepositoryData {
    pub issues: RawIssueConnection,
}

/// The data of the issues query.
pub struct IssuesData {
    pub repository: Option<IssuesRepositoryData>,
}

/// A decoded issues response.
pub struct IssuesResponse {
    pub data: Option<IssuesData>,
    pub errors: Option<Vec<GraphQlError>>,
}

/// A repository owner.
pub struct RepositoryOwner {
    pub login: String,
}

/// A fork's upstream repository.
pub struct ParentRepositoryNode {
    pub name: String,
    pub pushed_at: Option<String>,
    pub owner: RepositoryOwner,
}

/// One repository of the viewer's repositories query.
pub struct RepositoryNode {
    pub name: String,
    pub pushed_at: Option<String>,
    pub is_fork: bool,
    pub owner: RepositoryOwner,
    pub parent: Option<ParentRepositoryNode>,
}

/// A page of repositories.
pub struct RepositoryConnection {
    pub page_info: PageInfo,
    pub nodes: Vec<RepositoryNode>,
}

/// The viewer of the repositories query.
pub struct Viewer {
    pub repositories: RepositoryConnection,
}

/// The data of the repositories query.
pub struct ProjectsData {
    pub viewer: Viewer,
}

/// A decoded repositories response.
pub struct ProjectsResponse {
    pub data: Option<ProjectsData>,
    pub errors: Option<Vec<GraphQlError>>,
}

/// A node ID.
pub struct NodeId {
    pub id: String,
}

/// The repository of the assign-ids query.
pub struct AssignRepository {
    pub issue: Option<NodeId>,
}

/// The data of the assign-ids query.
pub struct AssignIdsData {
    pub viewer: NodeId,
    pub repository: Option<AssignRepository>,
}

/// A decoded assign-ids response.
pub struct AssignIdsResponse {
    pub data: Option<AssignIdsData>,
    pub errors: Option<Vec<GraphQlError>>,
}

/// The repository of the label-ids query.
pub struct LabelRepository {
    pub issue: Option<NodeId>,
    pub label: Option<NodeId>,
}

/// The data of the label-ids query.
pub struct LabelIdsData {
    pub repository: Option<LabelRepository>,
}

/// A decoded label-ids response.
pub struct LabelIdsResponse {
    pub data: Option<LabelIdsData>,
    pub errors: Option<Vec<GraphQlError>>,
}

/// A decoded mutation response: only its errors matter.
pub struct MutationResponse {
    pub errors: Option<Vec<GraphQlError>>,
}

/// The node IDs the assign-self mutation needs.
#[derive(Debug)]
pub struct AssignIds {
    pub assignable_id: String,
    pub assignee_id: String,
}

/// The node IDs the add-label mutation needs.
#[derive(Debug)]
pub struct LabelIds {
    pub labelable_id: String,
    pub label_id: String,
}

/// The Unicode lower-case form of a text, as `str::to_lowercase` gives it.
pub uninterp spec fn unicode_lower(s: Seq<char>) -> Seq<char>;

/// Calls `str::to_lowercase`, whose result is a function of the text alone.
#[verifier::external_body]
fn to_lowercase(s: &str) -> (r: String)
    ensures
        r@ == unicode_lower(s@),
{
    s.to_lowercase()
}

/// The text of an optional string.
pub open spec fn opt_text(o: Option<String>) -> Option<Seq<char>> {
    match o {
        Some(s) => Some(s@),
        None => None,
    }
}

/// GitHub's review decision, or `None` for a null or unrecognised value.
pub open spec fn review_decision_of(raw: Option<Seq<char>>) -> Option<ReviewDecision> {
    match raw {
        Some(s) => if s == "APPROVED"@ {
            Some(ReviewDecision::Approved)
        } else if s == "CHANGES_REQUESTED"@ {
            Some(ReviewDecision::ChangesRequested)
        } else if s == "REVIEW_REQUIRED"@ {
            Some(ReviewDecision::ReviewRequired)
        } else {
            None
        },
        None => None,
    }
}

/// Map GitHub's `reviewDecision` string to the domain decision. A null or
/// unrecognised value maps to `None`, which reads as "awaiting review".
pub fn review_decision(raw: Option<&str>) -> (r: Option<ReviewDecision>)
    ensures
        r == review_decision_of(
            match raw {
                Some(s) => Some(s@),
                None => None,
            },
        ),
{
    match raw {
        Some(s) => {
            if str_eq(s, "APPROVED") {
                Some(ReviewDecision::Approved)
            } else if str_eq(s, "CHANGES_REQUESTED") {
                Some(ReviewDecision::ChangesRequested)
            } else if str_eq(s, "REVIEW_REQUIRED") {
                Some(ReviewDecision::ReviewRequired)
            } else {
                None
            }
        },
        None => None,
    }
}

/// The last commit's CI rollup failed or errored.
pub open spec fn ci_failing_of(c: CommitConnection) -> bool {
    c.nodes@.len() > 0 && match c.nodes@[0].commit.status_check_rollup {
        Some(r) => r.state@ == "FAILURE"@ || r.state@ == "ERROR"@,
        None => false,
    }
}

/// How many review threads are unresolved.
pub open spec fn unresolved_count(ts: Seq<ReviewThreadNode>) -> nat
    decreases ts.len(),
{
    if ts.len() == 0 {
        0
    } else {
        unresolved_count(ts.drop_last()) + if ts.last().is_resolved {
            0nat
        } else {
            1nat
        }
    }
}

/// The unresolved review thread count, capped at `u32::MAX`.
pub open spec fn unresolved_capped(ts: Seq<ReviewThreadNode>) -> u32 {
    if unresolved_count(ts) > u32::MAX {
        u32::MAX
    } else {
        unresolved_count(ts) as u32
    }
}

/// The linked Pull Request a PR node projects to.
pub open spec fn linked_pr_of(pr: LinkedPrNode) -> LinkedPrRef {
    LinkedPrRef {
        number: pr.number,
        author: match pr.author {
            Some(a) => Some(a.login),
            None => None,
        },
        title: pr.title,
        url: pr.url,
        pr_status: derive_status(pr.is_draft, review_decision_of(opt_text(pr.review_decision))),
        conflicts: opt_text(pr.mergeable) == Some("CONFLICTING"@),
        ci_failing: ci_failing_of(pr.commits),
        unresolved_comment_count: unresolved_capped(pr.review_threads.nodes@),
    }
}

/// The issue's native parent carries the `prd` label.
pub open spec fn parent_is_prd(parent: Option<ParentIssueNode>) -> bool {
    match parent {
        Some(p) => exists|i: int| 0 <= i < p.labels.nodes@.len() && (#[trigger] p.labels.nodes@[i]).name@ == "prd"@,
        None => false,
    }
}

/// The raw issue an issue node projects to: open/closed, labels, native
/// parent (and whether it is a `prd`), native blockers (open and closed),
/// the first assignee, and the linked Pull Requests. An empty body reads as
/// no body.
pub open spec fn raw_issue_of(node: RawIssueNode) -> crate::classification::RawIssueView {
    crate::classification::RawIssueView {
        number: node.number,
        title: node.title,
        url: node.url,
        body: if node.body@.len() == 0 {
            None
        } else {
            Some(node.body)
        },
        labels: node.labels.nodes@.map_values(|l: NameNode| l.name),
        closed: node.state@ != "OPEN"@,
        native_parent: match node.parent {
            Some(p) => Some(p.number),
            None => None,
        },
        native_blockers: node.blocked_by.nodes@.map_values(|b: BlockerNode| b.number),
        assignee: if node.assignees.nodes@.len() > 0 {
            Some(node.assignees.nodes@[0].login)
        } else {
            None
        },
        assignee_avatar_url: if node.assignees.nodes@.len() > 0 {
            Some(node.assignees.nodes@[0].avatar_url)
        } else {
            None
        },
        linked_prs: node.closed_by_pull_requests_references.nodes@.map_values(
            |p: LinkedPrNode| linked_pr_of(p),
        ),
        is_native_child_of_prd: parent_is_prd(node.parent),
    }
}

/// The linked Pull Request a PR node projects to.
fn map_linked_pr(pr: &LinkedPrNode) -> (r: LinkedPrRef)
    ensures
        r == linked_pr_of(*pr),
{
    let author = match &pr.author {
        Some(a) => Some(a.login.clone()),
        None => None,
    };
    let decision = match &pr.review_decision {
        Some(s) => review_decision(Some(s.as_str())),
        None => review_decision(None),
    };
    let conflicts = match &pr.mergeable {
        Some(m) => str_eq(m.as_str(), "CONFLICTING"),
        None => false,
    };
    proof {
        reveal_strlit("CONFLICTING");
    }
    let ci_failing = if pr.commits.nodes.len() > 0 {
        match &pr.commits.nodes[0].commit.status_check_rollup {
            Some(r) => str_eq(r.state.as_str(), "FAILURE") || str_eq(r.state.as_str(), "ERROR"),
            None => false,
        }
    } else {
        false
    };
    let mut unresolved: u32 = 0;
    let mut i: usize = 0;
    let ghost ts = pr.review_threads.nodes@;
    while i < pr.review_threads.nodes.len()
        invariant
            i <= ts.len(),
            ts == pr.review_threads.nodes@,
            unresolved == unresolved_capped(ts.take(i as int)),
        decreases ts.len() - i,
    {
        assert(ts.take(i + 1).drop_last() =~= ts.take(i as int));
        if !pr.review_threads.nodes[i].is_resolved {
            unresolved = unresolved.saturating_add(1);
        }
        i += 1;
    }
    assert(ts.take(ts.len() as int) =~= ts);
    LinkedPrRef {
        number: pr.number,
        author,
        title: pr.title.clone(),
        url: pr.url.clone(),
        pr_status: PrStatus::derive(pr.is_draft, decision),
        conflicts,
        ci_failing,
        unresolved_comment_count: unresolved,
    }
}

/// Project one GraphQL issue node into a raw issue for the two-tier
/// classifier. The cross-issue open-set filtering and prose resolution are
/// left to the classifier.
pub fn map_issue_raw(node: RawIssueNode) -> (r: RawIssue)
    ensures
        r@ == raw_issue_of(node),
{
    let mut prs: Vec<LinkedPrRef> = Vec::new();
    let ghost pn = node.closed_by_pull_requests_references.nodes@;
    let mut i: usize = 0;
    while i < node.closed_by_pull_requests_references.nodes.len()
        invariant
            i <= pn.len(),
            pn == node.closed_by_pull_requests_references.nodes@,
            prs@ == pn.take(i as int).map_values(|p: LinkedPrNode| linked_pr_of(p)),
        decreases pn.len() - i,
    {
        let pr = map_linked_pr(&node.closed_by_pull_requests_references.nodes[i]);
        prs.push(pr);
        assert(pn.take(i + 1).map_values(|p: LinkedPrNode| linked_pr_of(p)) =~= pn.take(
            i as int,
        ).map_values(|p: LinkedPrNode| linked_pr_of(p)).push(linked_pr_of(pn[i as int])));
        i += 1;
    }
    assert(pn.take(pn.len() as int) =~= pn);
    let (native_parent, is_child) = match &node.parent {
        Some(p) => {
            let mut found = false;
            let mut k: usize = 0;
            while k < p.labels.nodes.len()
                invariant
                    k <= p.labels.nodes.len(),
                    found == exists|j: int| 0 <= j < k && (#[trigger] p.labels.nodes@[j]).name@ == "prd"@,
                decreases p.labels.nodes.len() - k,
            {
                if str_eq(p.labels.nodes[k].name.as_str(), "prd") {
                    found = true;
                }
                k += 1;
            }
            (Some(p.number), found)
        },
        None => (None, false),
    };
    let mut blockers: Vec<u64> = Vec::new();
    let ghost bn = node.blocked_by.nodes@;
    let mut i: usize = 0;
    while i < node.blocked_by.nodes.len()
        invariant
            i <= bn.len(),
            bn == node.blocked_by.nodes@,
            blockers@ == bn.take(i as int).map_values(|b: BlockerNode| b.number),
        decreases bn.len() - i,
    {
        blockers.push(node.blocked_by.nodes[i].number);
        assert(bn.take(i + 1).map_values(|b: BlockerNode| b.number) =~= bn.take(i as int).map_values(
            |b: BlockerNode| b.number,
        ).push(bn[i as int].number));
        i += 1;
    }
    assert(bn.take(bn.len() as int) =~= bn);
    let mut labels: Vec<String> = Vec::new();
    let ghost ln = node.labels.nodes@;
    let mut i: usize = 0;
    while i < node.labels.nodes.len()
        invariant
            i <= ln.len(),
            ln == node.labels.nodes@,
            labels@ == ln.take(i as int).map_values(|l: NameNode| l.name),
        decreases ln.len() - i,
    {
        labels.push(node.labels.nodes[i].name.clone());
        assert(ln.take(i + 1).map_values(|l: NameNode| l.name) =~= ln.take(i as int).map_values(
            |l: NameNode| l.name,
        ).push(ln[i as int].name));
        i += 1;
    }
    assert(ln.take(ln.len() as int) =~= ln);
    let body = if node.body.as_str().is_empty() {
        None
    } else {
        Some(node.body.clone())
    };
    let closed = !str_eq(node.state.as_str(), "OPEN");
    let (assignee, avatar) = if node.assignees.nodes.len() > 0 {
        (
            Some(node.assignees.nodes[0].login.clone()),
            Some(node.assignees.nodes[0].avatar_url.clone()),
        )
    } else {
        (None, None)
    };
    RawIssue {
        number: node.number,
        title: node.title.clone(),
        url: node.url.clone(),
        body,
        labels,
        closed,
        native_parent,
        native_blockers: blockers,
        assignee,
        assignee_avatar_url: avatar,
        linked_prs: prs,
        is_native_child_of_prd: is_child,
    }
}

/// The project a repository node stands for: a fork whose upstream is
/// visible stands in for that upstream (its owner, name and push time);
/// otherwise the node's own identity. A missing push time is empty text,
/// which sorts last.
pub open spec fn project_of(node: RepositoryNode) -> (Seq<char>, Seq<char>, Seq<char>) {
    match node.parent {
        Some(p) => if node.is_fork {
            (p.owner.login@, p.name@, match opt_text(p.pushed_at) { Some(t) => t, None => Seq::empty() })
        } else {
            (node.owner.login@, node.name@, match opt_text(node.pushed_at) { Some(t) => t, None => Seq::empty() })
        },
        None => (node.owner.login@, node.name@, match opt_text(node.pushed_at) { Some(t) => t, None => Seq::empty() }),
    }
}

/// The facts of a project: owner, name and push time.
pub open spec fn facts_of(p: Project) -> (Seq<char>, Seq<char>, Seq<char>) {
    (p.repo.owner@, p.repo.name@, p.pushed_at@)
}

/// Map a repository node to the project the app tracks.
pub fn node_into_project(node: RepositoryNode) -> (p: Project)
    ensures
        facts_of(p) == project_of(node),
{
    match &node.parent {
        Some(parent) => {
            if node.is_fork {
                let pushed = match &parent.pushed_at {
                    Some(t) => t.clone(),
                    None => String::new(),
                };
                return Project {
                    repo: RepoRef { owner: parent.owner.login.clone(), name: parent.name.clone() },
                    pushed_at: pushed,
                };
            }
        },
        None => {},
    }
    let pushed = match &node.pushed_at {
        Some(t) => t.clone(),
        None => String::new(),
    };
    Project {
        repo: RepoRef { owner: node.owner.login.clone(), name: node.name.clone() },
        pushed_at: pushed,
    }
}

/// The messages of a GraphQL `errors` array joined with `"; "`.
pub open spec fn joined_messages(errors: Seq<GraphQlError>) -> Seq<char>
    decreases errors.len(),
{
    if errors.len() == 0 {
        Seq::empty()
    } else if errors.len() == 1 {
        errors[0].message@
    } else {
        joined_messages(errors.drop_last()) + "; "@ + errors.last().message@
    }
}

/// Join the messages of a GraphQL `errors` array with `"; "`.
fn join_messages(errors: &Vec<GraphQlError>) -> (s: String)
    ensures
        s@ == joined_messages(errors@),
{
    let mut s = String::new();
    let mut i: usize = 0;
    while i < errors.len()
        invariant
            i <= errors.len(),
            s@ == joined_messages(errors@.take(i as int)),
        decreases errors.len() - i,
    {
        assert(errors@.take(i + 1).drop_last() =~= errors@.take(i as int));
        if i > 0 {
            s.append("; ");
        }
        s.append(errors[i].message.as_str());
        proof {
            if i == 0 {
                assert(s@ =~= errors@[0].message@);
            }
        }
        i += 1;
    }
    assert(errors@.take(errors.len() as int) =~= errors@);
    s
}

/// A GraphQL error that says the token may not write: a `FORBIDDEN` type, or
/// a message naming a missing permission.
pub open spec fn denies_write(e: GraphQlError) -> bool {
    ||| opt_text(e.error_type) == Some("FORBIDDEN"@)
    ||| contains(unicode_lower(e.message@), "must have"@)
    ||| contains(unicode_lower(e.message@), "not accessible by personal access token"@)
}

/// Some error of the array denies the write.
pub open spec fn any_denies_write(errors: Seq<GraphQlError>) -> bool {
    exists|i: int| 0 <= i < errors.len() && denies_write(#[trigger] errors[i])
}

/// `pat` occurs in `s`.
fn contains_text(s: &str, pat: &str) -> (r: bool)
    ensures
        r == contains(s@, pat@),
{
    find_exec(&chars_of(s), &chars_of(pat), 0).is_some()
}

/// Some error of the array denies the write, executable.
fn any_denies_write_exec(errors: &Vec<GraphQlError>) -> (r: bool)
    ensures
        r == any_denies_write(errors@),
{
    let mut i: usize = 0;
    while i < errors.len()
        invariant
            i <= errors.len(),
            forall|j: int| 0 <= j < i ==> !denies_write(#[trigger] errors@[j]),
        decreases errors.len() - i,
    {
        let e = &errors[i];
        let typed = match &e.error_type {
            Some(t) => str_eq(t.as_str(), "FORBIDDEN"),
            None => false,
        };
        let lowered = to_lowercase(e.message.as_str());
        if typed || contains_text(lowered.as_str(), "must have") || contains_text(
            lowered.as_str(),
            "not accessible by personal access token",
        ) {
            return true;
        }
        i += 1;
    }
    false
}

/// How a write round trip's GraphQL errors are reported: the kind and the
/// user-facing message (GitHub's own text stays out of it).
pub open spec fn write_error_base(errors: Seq<GraphQlError>, denied: Seq<char>, missing: Seq<char>) -> AppErrorView {
    let lowered = unicode_lower(joined_messages(errors));
    if any_denies_write(errors) {
        AppError::fresh(AppErrorKind::Forbidden, denied)
    } else if contains(lowered, "rate limit"@) {
        AppError::fresh(AppErrorKind::RateLimited, "GitHub rate limit exceeded"@)
    } else if contains(lowered, "could not resolve"@) || contains(lowered, "not_found"@) {
        AppError::fresh(AppErrorKind::NotFound, missing)
    } else {
        AppError::fresh(AppErrorKind::Internal, "GitHub reported a query error"@)
    }
}

/// The error a write round trip's GraphQL errors map to: its base, the
/// operation, and GitHub's joined messages as diagnostic `errors` context.
pub open spec fn write_error(
    errors: Seq<GraphQlError>,
    operation: Seq<char>,
    denied: Seq<char>,
    missing: Seq<char>,
) -> AppErrorView {
    AppErrorView {
        operation: Some(operation),
        context: seq![("errors"@, joined_messages(errors))],
        ..write_error_base(errors, denied, missing)
    }
}

/// The user-facing message for an assignment the token may not make.
pub open spec fn assign_denied_message() -> Seq<char> {
    "GitHub denied the assignment. Your fine-grained token needs the repository \"Issues\" permission set to \"Read and write\" (or \"Pull requests: Read and write\" if the Slice is a pull request)."@
}

/// The user-facing message for a label the token may not add.
pub open spec fn label_denied_message() -> Seq<char> {
    "GitHub denied adding the label. Your fine-grained token needs the repository \"Issues\" permission set to \"Read and write\"."@
}

/// Map a write round trip's errors: shared by the assign and label paths.
fn write_error_exec(errors: &Vec<GraphQlError>, operation: &str, denied: &str, missing: &str) -> (e: AppError)
    ensures
        e@ == write_error(errors@, operation@, denied@, missing@),
{
    let forbidden = any_denies_write_exec(errors);
    let message = join_messages(errors);
    let lowered = to_lowercase(message.as_str());
    let base = if forbidden {
        AppError::forbidden(denied)
    } else if contains_text(lowered.as_str(), "rate limit") {
        AppError::rate_limited("GitHub rate limit exceeded")
    } else if contains_text(lowered.as_str(), "could not resolve") || contains_text(
        lowered.as_str(),
        "not_found",
    ) {
        AppError::not_found(missing)
    } else {
        AppError::internal("GitHub reported a query error")
    };
    let e = base.with_operation(operation).with_context("errors", message.as_str());
    assert(e@.context =~= seq![("errors"@, joined_messages(errors@))]);
    e
}

/// Map a GraphQL `errors` array from an assign round trip to an error the
/// caller can act on: `FORBIDDEN` names the permission to grant, GitHub's
/// own text is kept as diagnostic `errors` context only.
pub fn assign_error(errors: Vec<GraphQlError>, operation: &str) -> (e: AppError)
    ensures
        e@ == write_error(
            errors@,
            operation@,
            assign_denied_message(),
            "Issue not found or not visible to the token"@,
        ),
{
    write_error_exec(
        &errors,
        operation,
        "GitHub denied the assignment. Your fine-grained token needs the repository \"Issues\" permission set to \"Read and write\" (or \"Pull requests: Read and write\" if the Slice is a pull request).",
        "Issue not found or not visible to the token",
    )
}

/// Map a GraphQL `errors` array from an add-label round trip to an error the
/// caller can act on.
pub fn label_error(errors: Vec<GraphQlError>, operation: &str) -> (e: AppError)
    ensures
        e@ == write_error(
            errors@,
            operation@,
            label_denied_message(),
            "Issue or label not found, or not visible to the token"@,
        ),
{
    write_error_exec(
        &errors,
        operation,
        "GitHub denied adding the label. Your fine-grained token needs the repository \"Issues\" permission set to \"Read and write\".",
        "Issue or label not found, or not visible to the token",
    )
}

/// The errors of a response, when there is at least one.
pub open spec fn reported(errors: Option<Vec<GraphQlError>>) -> bool {
    errors matches Some(v) && v@.len() > 0
}

/// The errors of a response, as a sequence (empty when absent).
pub open spec fn error_list(errors: Option<Vec<GraphQlError>>) -> Seq<GraphQlError> {
    match errors {
        Some(v) => v@,
        None => Seq::empty(),
    }
}

/// The outcome of an assign mutation response: success is the absence of errors.
pub fn assign_mutation_result(response: MutationResponse) -> (r: Result<(), AppError>)
    ensures
        match r {
            Ok(_) => !reported(response.errors),
            Err(e) => reported(response.errors) && e@ == write_error(
                error_list(response.errors),
                "parse_assign_mutation"@,
                assign_denied_message(),
                "Issue not found or not visible to the token"@,
            ),
        },
{
    match response.errors {
        Some(errors) => {
            if errors.len() > 0 {
                Err(assign_error(errors, "parse_assign_mutation"))
            } else {
                Ok(())
            }
        },
        None => Ok(()),
    }
}

/// The outcome of an add-label mutation response: success is the absence of errors.
pub fn label_mutation_result(response: MutationResponse) -> (r: Result<(), AppError>)
    ensures
        match r {
            Ok(_) => !reported(response.errors),
            Err(e) => reported(response.errors) && e@ == write_error(
                error_list(response.errors),
                "parse_add_label_mutation"@,
                label_denied_message(),
                "Issue or label not found, or not visible to the token"@,
            ),
        },
{
    match response.errors {
        Some(errors) => {
            if errors.len() > 0 {
                Err(label_error(errors, "parse_add_label_mutation"))
            } else {
                Ok(())
            }
        },
        None => Ok(()),
    }
}

/// The error for a missing issue: `NotFound` with the issue number as context.
pub open spec fn missing_issue(operation: Seq<char>, issue_number: u64) -> AppErrorView {
    AppErrorView {
        operation: Some(operation),
        context: seq![("issue"@, dec_str(issue_number as nat))],
        ..AppError::fresh(AppErrorKind::NotFound, "Issue not found or not visible to the token"@)
    }
}

/// The node IDs of an assign-ids response: GraphQL errors map as for any
/// assign round trip, missing data is `Internal`, and a missing issue is
/// `NotFound` naming the issue.
pub fn assign_ids_from(response: AssignIdsResponse, issue_number: u64) -> (r: Result<AssignIds, AppError>)
    ensures
        match r {
            Ok(ids) => {
                &&& !reported(response.errors)
                &&& response.data matches Some(d) && d.repository matches Some(repo)
                    && repo.issue matches Some(issue) && ids.assignable_id@ == issue.id@
                    && ids.assignee_id@ == d.viewer.id@
            },
            Err(e) => if reported(response.errors) {
                e@ == write_error(
                    error_list(response.errors),
                    "parse_assign_ids"@,
                    assign_denied_message(),
                    "Issue not found or not visible to the token"@,
                )
            } else if response.data is None {
                e@ == (AppErrorView {
                    operation: Some("parse_assign_ids"@),
                    ..AppError::fresh(AppErrorKind::Internal, "GitHub returned no assign data"@)
                })
            } else {
                e@ == missing_issue("parse_assign_ids"@, issue_number)
            },
        },
{
    match response.errors {
        Some(errors) => {
            if errors.len() > 0 {
                return Err(assign_error(errors, "parse_assign_ids"));
            }
        },
        None => {},
    }
    let data = match response.data {
        Some(d) => d,
        None => {
            return Err(
                AppError::internal("GitHub returned no assign data").with_operation(
                    "parse_assign_ids",
                ),
            );
        },
    };
    let issue = match data.repository {
        Some(repo) => repo.issue,
        None => None,
    };
    match issue {
        Some(issue) => Ok(AssignIds { assignable_id: issue.id, assignee_id: data.viewer.id }),
        None => {
            let n = decimal(issue_number);
            let e = AppError::not_found("Issue not found or not visible to the token").with_operation(
                "parse_assign_ids",
            ).with_context("issue", n.as_str());
            assert(e@.context =~= seq![("issue"@, dec_str(issue_number as nat))]);
            Err(e)
        },
    }
}

/// The message naming a label the repository does not define.
pub open spec fn missing_label_message(label: Seq<char>) -> Seq<char> {
    "The \""@ + label + "\" label does not exist in this repository. Create it on GitHub, then confirm the classification again."@
}

/// The node IDs of a label-ids response: GraphQL errors map as for any
/// label round trip, a missing repository or issue is `NotFound`, and a label
/// the repository does not define is `NotFound` naming it, so the user knows
/// what to create.
pub fn label_ids_from(response: LabelIdsResponse, issue_number: u64, label: &str) -> (r: Result<
    LabelIds,
    AppError,
>)
    ensures
        match r {
            Ok(ids) => {
                &&& !reported(response.errors)
                &&& response.data matches Some(d) && d.repository matches Some(repo)
                    && repo.issue matches Some(issue) && repo.label matches Some(l)
                    && ids.labelable_id@ == issue.id@ && ids.label_id@ == l.id@
            },
            Err(e) => if reported(response.errors) {
                e@ == write_error(
                    error_list(response.errors),
                    "parse_label_ids"@,
                    label_denied_message(),
                    "Issue or label not found, or not visible to the token"@,
                )
            } else if !(response.data matches Some(d) && d.repository is Some) {
                e@ == (AppErrorView {
                    operation: Some("parse_label_ids"@),
                    ..AppError::fresh(
                        AppErrorKind::NotFound,
                        "Repository not found or not visible to the token"@,
                    )
                })
            } else if response.data matches Some(d) && d.repository matches Some(repo)
                && repo.issue is None {
                e@ == missing_issue("parse_label_ids"@, issue_number)
            } else {
                e@ == (AppErrorView {
                    operation: Some("parse_label_ids"@),
                    context: seq![("label"@, label@)],
                    ..AppError::fresh(AppErrorKind::NotFound, missing_label_message(label@))
                })
            },
        },
{
    match response.errors {
        Some(errors) => {
            if errors.len() > 0 {
                return Err(label_error(errors, "parse_label_ids"));
            }
        },
        None => {},
    }
    let repository = match response.data {
        Some(d) => match d.repository {
            Some(repo) => repo,
            None => {
                return Err(
                    AppError::not_found(
                        "Repository not found or not visible to the token",
                    ).with_operation("parse_label_ids"),
                );
            },
        },
        None => {
            return Err(
                AppError::not_found("Repository not found or not visible to the token").with_operation(
                    "parse_label_ids",
                ),
            );
        },
    };
    let labelable_id = match repository.issue {
        Some(issue) => issue.id,
        None => {
            let n = decimal(issue_number);
            let e = AppError::not_found("Issue not found or not visible to the token").with_operation(
                "parse_label_ids",
            ).with_context("issue", n.as_str());
            assert(e@.context =~= seq![("issue"@, dec_str(issue_number as nat))]);
            return Err(e);
        },
    };
    match repository.label {
        Some(node) => Ok(LabelIds { labelable_id, label_id: node.id }),
        None => {
            let mut message = "The \"".to_string();
            message.append(label);
            message.append(
                "\" label does not exist in this repository. Create it on GitHub, then confirm the classification again.",
            );
            let e = AppError::not_found(message.as_str()).with_operation("parse_label_ids").with_context(
                "label",
                label,
            );
            assert(e@.context =~= seq![("label"@, label@)]);
            Err(e)
        },
    }
}

/// A GraphQL error that says the repository is missing.
pub open spec fn says_not_found(e: GraphQlError) -> bool {
    opt_text(e.error_type) == Some("NOT_FOUND"@) || contains(
        unicode_lower(e.message@),
        "could not resolve to a repository"@,
    )
}

/// How a read query's GraphQL errors are reported (the issues query also
/// recognises a missing repository).
pub open spec fn query_error(errors: Seq<GraphQlError>, operation: Seq<char>, detect_missing: bool) -> AppErrorView {
    let base = if detect_missing && exists|i: int| 0 <= i < errors.len() && says_not_found(#[trigger] errors[i]) {
        AppError::fresh(AppErrorKind::NotFound, "Repository not found or not visible to the token"@)
    } else if contains(unicode_lower(joined_messages(errors)), "rate limit"@) {
        AppError::fresh(AppErrorKind::RateLimited, "GitHub rate limit exceeded"@)
    } else {
        AppError::fresh(AppErrorKind::Internal, "GitHub reported a query error"@)
    };
    AppErrorView {
        operation: Some(operation),
        context: seq![("errors"@, joined_messages(errors))],
        ..base
    }
}

/// Map a read query's GraphQL errors.
fn query_error_exec(errors: &Vec<GraphQlError>, operation: &str, detect_missing: bool) -> (e: AppError)
    ensures
        e@ == query_error(errors@, operation@, detect_missing),
{
    let mut missing = false;
    if detect_missing {
        let mut i: usize = 0;
        while i < errors.len()
            invariant
                i <= errors.len(),
                missing == exists|j: int| 0 <= j < i && says_not_found(#[trigger] errors@[j]),
            decreases errors.len() - i,
        {
            let e = &errors[i];
            let typed = match &e.error_type {
                Some(t) => str_eq(t.as_str(), "NOT_FOUND"),
                None => false,
            };
            let lowered = to_lowercase(e.message.as_str());
            if typed || contains_text(lowered.as_str(), "could not resolve to a repository") {
                missing = true;
            }
            i += 1;
        }
    }
    let message = join_messages(errors);
    let lowered = to_lowercase(message.as_str());
    let base = if missing {
        AppError::not_found("Repository not found or not visible to the token")
    } else if contains_text(lowered.as_str(), "rate limit") {
        AppError::rate_limited("GitHub rate limit exceeded")
    } else {
        AppError::internal("GitHub reported a query error")
    };
    let e = base.with_operation(operation).with_context("errors", message.as_str());
    assert(e@.context =~= seq![("errors"@, joined_messages(errors@))]);
    e
}

/// The next page's cursor: the end cursor when there is a next page.
pub open spec fn next_cursor(p: PageInfo) -> Option<Seq<char>> {
    if p.has_next_page {
        opt_text(p.end_cursor)
    } else {
        None
    }
}

/// The next page's cursor, executable.
fn next_cursor_exec(p: PageInfo) -> (r: Option<String>)
    ensures
        opt_text(r) == next_cursor(p),
{
    if p.has_next_page {
        p.end_cursor
    } else {
        None
    }
}

/// A page of raw issues from a decoded issues response, and the next page's
/// cursor. GraphQL errors are `NotFound` (missing repository), `RateLimited`
/// or `Internal`, with GitHub's messages as context; a response without the
/// repository is `NotFound`.
pub fn issues_page_from(response: IssuesResponse) -> (r: Result<(Vec<RawIssue>, Option<String>), AppError>)
    ensures
        match r {
            Ok((issues, next)) => {
                &&& !reported(response.errors)
                &&& response.data matches Some(d) && d.repository matches Some(repo)
                    && crate::classification::issue_views(issues@) == repo.issues.nodes@.map_values(
                    |n: RawIssueNode| raw_issue_of(n),
                ) && opt_text(next) == next_cursor(repo.issues.page_info)
            },
            Err(e) => if reported(response.errors) {
                e@ == query_error(error_list(response.errors), "parse_issues_response"@, true)
            } else {
                !(response.data matches Some(d) && d.repository is Some) && e@ == (AppErrorView {
                    operation: Some("parse_issues_response"@),
                    ..AppError::fresh(
                        AppErrorKind::NotFound,
                        "Repository not found or not visible to the token"@,
                    )
                })
            },
        },
{
    match &response.errors {
        Some(errors) => {
            if errors.len() > 0 {
                return Err(query_error_exec(errors, "parse_issues_response", true));
            }
        },
        None => {},
    }
    let repository = match response.data {
        Some(d) => match d.repository {
            Some(repo) => repo,
            None => {
                return Err(
                    AppError::not_found(
                        "Repository not found or not visible to the token",
                    ).with_operation("parse_issues_response"),
                );
            },
        },
        None => {
            return Err(
                AppError::not_found("Repository not found or not visible to the token").with_operation(
                    "parse_issues_response",
                ),
            );
        },
    };
    let connection = repository.issues;
    let ghost nodes = connection.nodes@;
    let mut raw: Vec<RawIssue> = Vec::new();
    let mut nodes_left = connection.nodes;
    let mut taken: Vec<RawIssueNode> = Vec::new();
    proof {
        assert(nodes_left@ == nodes);
    }
    let mut i: usize = 0;
    let total = nodes_left.len();
    while nodes_left.len() > 0
        invariant
            i + nodes_left.len() == total,
            total == nodes.len(),
            nodes_left@ == nodes.subrange(i as int, total as int),
            crate::classification::issue_views(raw@) == nodes.take(i as int).map_values(
                |n: RawIssueNode| raw_issue_of(n),
            ),
        decreases nodes_left.len(),
    {
        let node = nodes_left.remove(0);
        assert(node == nodes[i as int]);
        let ghost before = raw@;
        let issue = map_issue_raw(node);
        raw.push(issue);
        assert(crate::classification::issue_views(raw@) =~= crate::classification::issue_views(
            before,
        ).push(issue@));
        assert(nodes.take(i + 1).map_values(|n: RawIssueNode| raw_issue_of(n)) =~= nodes.take(
            i as int,
        ).map_values(|n: RawIssueNode| raw_issue_of(n)).push(raw_issue_of(nodes[i as int])));
        assert(nodes.subrange(i + 1, total as int) =~= nodes.subrange(i as int, total as int).subrange(
            1,
            total - i,
        ));
        i += 1;
    }
    assert(nodes.take(total as int) =~= nodes);
    let next = next_cursor_exec(connection.page_info);
    Ok((raw, next))
}

/// Merging one resolved project into the page: a repository seen before keeps
/// the more recent push time, a new one is appended.
pub open spec fn dedupe_step(acc: Seq<(Seq<char>, Seq<char>, Seq<char>)>, p: (Seq<char>, Seq<char>, Seq<char>)) -> Seq<
    (Seq<char>, Seq<char>, Seq<char>),
> {
    if exists|i: int| 0 <= i < acc.len() && acc[i].0 == p.0 && acc[i].1 == p.1 {
        let i = choose|i: int|
            0 <= i < acc.len() && acc[i].0 == p.0 && acc[i].1 == p.1 && forall|j: int|
                0 <= j < i ==> !(acc[j].0 == p.0 && acc[j].1 == p.1);
        if text_lt(acc[i].2, p.2) {
            acc.update(i, (acc[i].0, acc[i].1, p.2))
        } else {
            acc
        }
    } else {
        acc.push(p)
    }
}

/// The projects of a page of repository nodes: each node resolved (a fork
/// stands in for its upstream), then de-duplicated by repository keeping the
/// most recent push.
pub open spec fn deduped(nodes: Seq<RepositoryNode>) -> Seq<(Seq<char>, Seq<char>, Seq<char>)>
    decreases nodes.len(),
{
    if nodes.len() == 0 {
        Seq::empty()
    } else {
        dedupe_step(deduped(nodes.drop_last()), project_of(nodes.last()))
    }
}

/// The facts of a list of projects.
pub open spec fn facts_list(ps: Seq<Project>) -> Seq<(Seq<char>, Seq<char>, Seq<char>)> {
    ps.map_values(|p: Project| facts_of(p))
}

/// A page of projects from a decoded repositories response, and the next
/// page's cursor. GraphQL errors are `RateLimited` or `Internal`, with
/// GitHub's messages as context; a response without viewer data is `Internal`.
pub fn projects_page_from(response: ProjectsResponse) -> (r: Result<(Vec<Project>, Option<String>), AppError>)
    ensures
        match r {
            Ok((projects, next)) => {
                &&& !reported(response.errors)
                &&& response.data matches Some(d) && facts_list(projects@) == deduped(
                    d.viewer.repositories.nodes@,
                ) && opt_text(next) == next_cursor(d.viewer.repositories.page_info)
            },
            Err(e) => if reported(response.errors) {
                e@ == query_error(error_list(response.errors), "parse_projects_response"@, false)
            } else {
                response.data is None && e@ == (AppErrorView {
                    operation: Some("parse_projects_response"@),
                    ..AppError::fresh(AppErrorKind::Internal, "GitHub returned no viewer data"@)
                })
            },
        },
{
    match &response.errors {
        Some(errors) => {
            if errors.len() > 0 {
                return Err(query_error_exec(errors, "parse_projects_response", false));
            }
        },
        None => {},
    }
    let repositories = match response.data {
        Some(d) => d.viewer.repositories,
        None => {
            return Err(
                AppError::internal("GitHub returned no viewer data").with_operation(
                    "parse_projects_response",
                ),
            );
        },
    };
    let ghost nodes = repositories.nodes@;
    let mut by_repo: Vec<Project> = Vec::new();
    let mut nodes_left = repositories.nodes;
    let total = nodes_left.len();
    let mut i: usize = 0;
    while nodes_left.len() > 0
        invariant
            i + nodes_left.len() == total,
            total == nodes.len(),
            nodes_left@ == nodes.subrange(i as int, total as int),
            facts_list(by_repo@) == deduped(nodes.take(i as int)),
        decreases nodes_left.len(),
    {
        let node = nodes_left.remove(0);
        assert(node == nodes[i as int]);
        assert(nodes.take(i + 1).drop_last() =~= nodes.take(i as int));
        let project = node_into_project(node);
        let ghost acc = facts_list(by_repo@);
        let mut k: usize = 0;
        while k < by_repo.len() && !same_repo(&by_repo[k].repo, &project.repo)
            invariant
                k <= by_repo.len(),
                acc == facts_list(by_repo@),
                forall|j: int|
                    0 <= j < k ==> !(acc[j].0 == facts_of(project).0 && acc[j].1 == facts_of(project).1),
            decreases by_repo.len() - k,
        {
            k += 1;
        }
        if k < by_repo.len() {
            assert(acc[k as int].0 == facts_of(project).0 && acc[k as int].1 == facts_of(project).1);
            let newer = text_lt_exec(&chars_of(by_repo[k].pushed_at.as_str()), &chars_of(project.pushed_at.as_str()));
            if newer {
                let seen = Project { repo: by_repo[k].repo.clone(), pushed_at: project.pushed_at };
                by_repo.set(k, seen);
                assert(facts_list(by_repo@) =~= acc.update(k as int, (acc[k as int].0, acc[k as int].1, facts_of(project).2)));
            }
        } else {
            by_repo.push(project);
            assert(facts_list(by_repo@) =~= acc.push(facts_of(project)));
        }
        proof {
            lemma_dedupe_step(acc, facts_of(project), k as int);
        }
        assert(nodes.subrange(i + 1, total as int) =~= nodes.subrange(i as int, total as int).subrange(
            1,
            total - i,
        ));
        i += 1;
    }
    assert(nodes.take(total as int) =~= nodes);
    let next = next_cursor_exec(repositories.page_info);
    Ok((by_repo, next))
}

/// The de-duplication step finds the first entry with the same repository.
proof fn lemma_dedupe_step(
    acc: Seq<(Seq<char>, Seq<char>, Seq<char>)>,
    p: (Seq<char>, Seq<char>, Seq<char>),
    k: int,
)
    requires
        0 <= k <= acc.len(),
        forall|j: int| 0 <= j < k ==> !(acc[j].0 == p.0 && acc[j].1 == p.1),
        k < acc.len() ==> acc[k].0 == p.0 && acc[k].1 == p.1,
    ensures
        dedupe_step(acc, p) == if k < acc.len() {
            if text_lt(acc[k].2, p.2) {
                acc.update(k, (acc[k].0, acc[k].1, p.2))
            } else {
                acc
            }
        } else {
            acc.push(p)
        },
{
    if k < acc.len() {
        let i = choose|i: int|
            0 <= i < acc.len() && acc[i].0 == p.0 && acc[i].1 == p.1 && forall|j: int|
                0 <= j < i ==> !(acc[j].0 == p.0 && acc[j].1 == p.1);
        assert(0 <= k < acc.len() && acc[k].0 == p.0 && acc[k].1 == p.1 && forall|j: int|
            0 <= j < k ==> !(acc[j].0 == p.0 && acc[j].1 == p.1));
        if i < k {
        } else if i > k {
        }
        assert(i == k);
    }
}

/// The error an unsuccessful HTTP status maps to.
pub open spec fn status_error_of(status: u16, rendered: Seq<char>, rate_limited: bool, operation: Seq<char>) -> AppErrorView {
    if status == 401 {
        AppErrorView { operation: Some(operation), ..AppError::fresh(AppErrorKind::Unauthorized, "GitHub rejected the token"@) }
    } else if status == 403 && rate_limited {
        AppErrorView { operation: Some(operation), ..AppError::fresh(AppErrorKind::RateLimited, "GitHub rate limit exceeded"@) }
    } else if status == 403 {
        AppErrorView { operation: Some(operation), ..AppError::fresh(AppErrorKind::Forbidden, "The token lacks access to this repository"@) }
    } else if 500 <= status <= 599 {
        AppErrorView {
            operation: Some(operation),
            context: seq![("status"@, rendered)],
            ..AppError::fresh(AppErrorKind::Unavailable, "GitHub is temporarily unavailable"@)
        }
    } else {
        AppErrorView {
            operation: Some(operation),
            context: seq![("status"@, rendered)],
            ..AppError::fresh(AppErrorKind::Internal, "GitHub returned an unexpected status"@)
        }
    }
}

/// Whether the `x-ratelimit-remaining` header (when present and readable)
/// says no requests remain.
pub open spec fn rate_limit_spent(remaining: Option<Seq<char>>) -> bool {
    match remaining {
        Some(v) => trim(v) == "0"@,
        None => false,
    }
}

/// Map an unsuccessful HTTP status to an error: `401` is `Unauthorized`;
/// `403` is `RateLimited` when the rate-limit header says no requests remain,
/// else `Forbidden`; `5xx` is `Unavailable`; anything else is `Internal`. The
/// last two carry the rendered status as context.
pub fn status_error(status: u16, rendered: &str, ratelimit_remaining: Option<&str>, operation: &str) -> (e: AppError)
    ensures
        e@ == status_error_of(
            status,
            rendered@,
            rate_limit_spent(
                match ratelimit_remaining {
                    Some(v) => Some(v@),
                    None => None,
                },
            ),
            operation@,
        ),
{
    let rate_limited = match ratelimit_remaining {
        Some(v) => {
            let t = trim_vec(&chars_of(v));
            crate::text::vec_eq(&t, &chars_of("0"))
        },
        None => false,
    };
    if status == 401 {
        AppError::unauthorized("GitHub rejected the token").with_operation(operation)
    } else if status == 403 && rate_limited {
        AppError::rate_limited("GitHub rate limit exceeded").with_operation(operation)
    } else if status == 403 {
        AppError::forbidden("The token lacks access to this repository").with_operation(operation)
    } else if 500 <= status && status <= 599 {
        let e = AppError::unavailable("GitHub is temporarily unavailable").with_operation(operation).with_context(
            "status",
            rendered,
        );
        assert(e@.context =~= seq![("status"@, rendered@)]);
        e
    } else {
        let e = AppError::internal("GitHub returned an unexpected status").with_operation(operation).with_context(
            "status",
            rendered,
        );
        assert(e@.context =~= seq![("status"@, rendered@)]);
        e
    }
}

/// The error for a response body that does not decode: `Internal`, naming
/// the operation, with the decoder's complaint as the cause.
pub fn malformed_response(operation: &str, cause: &str) -> (e: AppError)
    ensures
        e@ == (AppErrorView {
            operation: Some(operation@),
            source: Some(cause@),
            ..AppError::fresh(AppErrorKind::Internal, "GitHub returned a malformed response"@)
        }),
{
    AppError::internal("GitHub returned a malformed response").with_operation(operation).with_source(cause)
}

/// A count of unresolved threads is zero exactly when every thread is resolved.
proof fn lemma_unresolved_zero(ts: Seq<ReviewThreadNode>)
    ensures
        unresolved_count(ts) == 0 <==> forall|k: int| 0 <= k < ts.len() ==> (#[trigger] ts[k]).is_resolved,
    decreases ts.len(),
{
    if ts.len() > 0 {
        lemma_unresolved_zero(ts.drop_last());
        if forall|k: int| 0 <= k < ts.len() ==> (#[trigger] ts[k]).is_resolved {
            assert forall|k: int| 0 <= k < ts.drop_last().len() implies (#[trigger] ts.drop_last()[k]).is_resolved by {
                assert(ts.drop_last()[k] == ts[k]);
            }
        } else if unresolved_count(ts) == 0 {
            assert forall|k: int| 0 <= k < ts.len() implies (#[trigger] ts[k]).is_resolved by {
                if k < ts.len() - 1 {
                    assert(ts.drop_last()[k] == ts[k]);
                }
            }
        }
    }
}

/// What an issue node maps to, field by field: closed unless its state is
/// `OPEN`; an empty body reads as none; a native child of a PRD exactly when
/// the native parent exists and one of its labels (at any position) is
/// `prd`; and each linked PR keeps its order, number, title and URL, is
/// Draft when draft and otherwise Approved, Changes requested or Awaiting
/// review by its review decision, conflicts exactly when its mergeability is
/// `CONFLICTING`, fails CI exactly when its first commit node's check rollup
/// is `FAILURE` or `ERROR`, and has no unresolved comments exactly when every
/// review thread is resolved.
pub proof fn law_issue_node_mapping(node: RawIssueNode)
    ensures
        raw_issue_of(node).closed <==> node.state@ != "OPEN"@,
        raw_issue_of(node).body is None <==> node.body@.len() == 0,
        raw_issue_of(node).is_native_child_of_prd <==> (node.parent matches Some(p) && exists|i: int|
            0 <= i < p.labels.nodes@.len() && (#[trigger] p.labels.nodes@[i]).name@ == "prd"@),
        raw_issue_of(node).native_parent == (match node.parent {
            Some(p) => Some(p.number),
            None => None::<u64>,
        }),
        raw_issue_of(node).linked_prs.len() == node.closed_by_pull_requests_references.nodes@.len(),
        forall|k: int|
            0 <= k < node.closed_by_pull_requests_references.nodes@.len() ==> {
                let pr = node.closed_by_pull_requests_references.nodes@[k];
                let r = #[trigger] raw_issue_of(node).linked_prs[k];
                &&& r.number == pr.number
                &&& r.title == pr.title
                &&& r.url == pr.url
                &&& (r.conflicts <==> (pr.mergeable matches Some(m) && m@ == "CONFLICTING"@))
                &&& (r.ci_failing <==> (pr.commits.nodes@.len() > 0 && (pr.commits.nodes@[0].commit.status_check_rollup matches Some(
                    c,
                ) && (c.state@ == "FAILURE"@ || c.state@ == "ERROR"@))))
                &&& (pr.is_draft ==> r.pr_status == PrStatus::Draft)
                &&& (!pr.is_draft && (pr.review_decision matches Some(d) && d@ == "APPROVED"@) ==> r.pr_status
                    == PrStatus::Approved)
                &&& (!pr.is_draft && (pr.review_decision matches Some(d) && d@ == "CHANGES_REQUESTED"@)
                    ==> r.pr_status == PrStatus::ChangesRequested)
                &&& (!pr.is_draft && !(pr.review_decision matches Some(d) && (d@ == "APPROVED"@ || d@
                    == "CHANGES_REQUESTED"@)) ==> r.pr_status == PrStatus::AwaitingReview)
                &&& (r.unresolved_comment_count == 0 <==> forall|t: int|
                    0 <= t < pr.review_threads.nodes@.len() ==> (#[trigger] pr.review_threads.nodes@[t]).is_resolved)
            },
{
    assert forall|k: int| 0 <= k < node.closed_by_pull_requests_references.nodes@.len() implies {
        let pr = node.closed_by_pull_requests_references.nodes@[k];
        let r = #[trigger] raw_issue_of(node).linked_prs[k];
        &&& r.number == pr.number
        &&& r.title == pr.title
        &&& r.url == pr.url
        &&& (r.conflicts <==> (pr.mergeable matches Some(m) && m@ == "CONFLICTING"@))
        &&& (r.ci_failing <==> (pr.commits.nodes@.len() > 0 && (pr.commits.nodes@[0].commit.status_check_rollup matches Some(
            c,
        ) && (c.state@ == "FAILURE"@ || c.state@ == "ERROR"@))))
        &&& (pr.is_draft ==> r.pr_status == PrStatus::Draft)
        &&& (!pr.is_draft && (pr.review_decision matches Some(d) && d@ == "APPROVED"@) ==> r.pr_status
            == PrStatus::Approved)
        &&& (!pr.is_draft && (pr.review_decision matches Some(d) && d@ == "CHANGES_REQUESTED"@)
            ==> r.pr_status == PrStatus::ChangesRequested)
        &&& (!pr.is_draft && !(pr.review_decision matches Some(d) && (d@ == "APPROVED"@ || d@
            == "CHANGES_REQUESTED"@)) ==> r.pr_status == PrStatus::AwaitingReview)
        &&& (r.unresolved_comment_count == 0 <==> forall|t: int|
            0 <= t < pr.review_threads.nodes@.len() ==> (#[trigger] pr.review_threads.nodes@[t]).is_resolved)
    } by {
        let pr = node.closed_by_pull_requests_references.nodes@[k];
        let r = raw_issue_of(node).linked_prs[k];
        assert(r == linked_pr_of(pr));
        lemma_unresolved_zero(pr.review_threads.nodes@);
        reveal_strlit("APPROVED");
        reveal_strlit("CHANGES_REQUESTED");
        reveal_strlit("REVIEW_REQUIRED");
        assert("CHANGES_REQUESTED"@ != "APPROVED"@) by {
            assert("CHANGES_REQUESTED"@.len() != "APPROVED"@.len());
        }
    }
}

/// How an unsuccessful HTTP status is triaged, by kind: 401 is
/// Unauthorized; 403 is RateLimited when the rate-limit header reads `0`
/// (whitespace aside), else Forbidden; 500 to 599 is Unavailable; every
/// other status is Internal. The error always names the operation, and only
/// the last two carry the rendered status.
pub proof fn law_status_triage(status: u16, rendered: Seq<char>, remaining: Option<Seq<char>>, operation: Seq<char>)
    ensures
        ({
            let e = status_error_of(status, rendered, rate_limit_spent(remaining), operation);
            let spent = remaining matches Some(v) && trim(v) == seq!['0'];
            &&& e.operation == Some(operation)
            &&& (status == 401 ==> e.kind == AppErrorKind::Unauthorized)
            &&& (status == 403 && spent ==> e.kind == AppErrorKind::RateLimited)
            &&& (status == 403 && !spent ==> e.kind == AppErrorKind::Forbidden)
            &&& (500 <= status <= 599 ==> e.kind == AppErrorKind::Unavailable && e.context == seq![
                ("status"@, rendered),
            ])
            &&& (status != 401 && status != 403 && !(500 <= status <= 599) ==> e.kind == AppErrorKind::Internal
                && e.context == seq![("status"@, rendered)])
        }),
{
    reveal_strlit("0");
    assert("0"@ =~= seq!['0']);
}

} // verus!
