//! The decisions of the use-case services: what a missing token, an
//! unconfirmable classification or a failed board action is reported as.
//! The services themselves hold their store and await it around these.

use vstd::prelude::*;

use crate::classification::{suggested_label_of, IssueClassification};
use crate::error::{AppError, AppErrorKind, AppErrorView};
use crate::repo::{repo_display, RepoRef};
use crate::text::{dec_str, decimal};
use crate::token::GitHubToken;

verus! {

/// Personal Access Token authentication, backed by a secure store.
pub struct AuthService<S> {
    store: S,
}

impl<S> AuthService<S> {
    /// The service over `store`.
    pub fn new(store: S) -> (s: Self)
        ensures
            s.backing() == store,
    {
        AuthService { store }
    }

    /// The backing store, as a specification value.
    pub closed spec fn backing(self) -> S {
        self.store
    }

    /// The backing store.
    pub fn store(&self) -> (s: &S)
        ensures
            *s == self.backing(),
    {
        &self.store
    }
}

/// Remembering and reopening the last-opened project, backed by a project store.
pub struct LastOpenedService<S> {
    store: S,
}

impl<S> LastOpenedService<S> {
    /// The service over `store`.
    pub fn new(store: S) -> (s: Self)
        ensures
            s.backing() == store,
    {
        LastOpenedService { store }
    }

    /// The backing store, as a specification value.
    pub closed spec fn backing(self) -> S {
        self.store
    }

    /// The backing store.
    pub fn store(&self) -> (s: &S)
        ensures
            *s == self.backing(),
    {
        &self.store
    }
}

/// The error reported when no token is stored: `Unauthorized`, so the caller
/// routes the user to the paste-token screen.
pub open spec fn missing_token_error() -> AppErrorView {
    AppErrorView {
        operation: Some("AuthService::require_token"@),
        ..AppError::fresh(AppErrorKind::Unauthorized, "Add a Personal Access Token to load your board."@)
    }
}

/// The stored token, or the `Unauthorized` error when none is stored.
pub fn require_stored_token(stored: Option<GitHubToken>) -> (r: Result<GitHubToken, AppError>)
    ensures
        match r {
            Ok(t) => stored == Some(t),
            Err(e) => stored is None && e@ == missing_token_error(),
        },
{
    match stored {
        Some(t) => Ok(t),
        None => Err(
            AppError::unauthorized("Add a Personal Access Token to load your board.").with_operation(
                "AuthService::require_token",
            ),
        ),
    }
}

/// The context a board action's error carries: the repository and issue.
pub open spec fn repo_issue_context(repo: RepoRef, issue_number: u64) -> Seq<(Seq<char>, Seq<char>)> {
    seq![("repo"@, repo_display(repo.owner@, repo.name@)), ("issue"@, dec_str(issue_number as nat))]
}

/// Attach the repository and issue of a board action to its error, so the
/// failure can be located.
pub fn with_repo_and_issue(err: AppError, repo: &RepoRef, issue_number: u64) -> (e: AppError)
    ensures
        e@ == (AppErrorView {
            context: err@.context + repo_issue_context(*repo, issue_number),
            ..err@
        }),
{
    let shown = repo.full_name();
    let number = decimal(issue_number);
    let e = err.with_context("repo", shown.as_str()).with_context("issue", number.as_str());
    assert(e@.context =~= err@.context + repo_issue_context(*repo, issue_number));
    e
}

/// The error reported when a classification has nothing to confirm.
pub open spec fn nothing_to_confirm_error(repo: RepoRef, issue_number: u64) -> AppErrorView {
    AppErrorView {
        context: repo_issue_context(repo, issue_number),
        ..AppError::fresh(
            AppErrorKind::InvalidInput,
            "This issue has no suggested classification to confirm."@,
        )
    }
}

/// The label that confirms a suggested classification, or an
/// `InvalidInput` error (with the repository and issue as context) when the
/// classification is already confident or unclassified, before any GitHub call.
pub fn confirmation_label(repo: &RepoRef, issue_number: u64, classification: &IssueClassification) -> (r:
    Result<&'static str, AppError>)
    ensures
        match r {
            Ok(label) => suggested_label_of(*classification) == Some(label@),
            Err(e) => suggested_label_of(*classification) is None && e@ == nothing_to_confirm_error(
                *repo,
                issue_number,
            ),
        },
{
    match classification.suggested_label() {
        Some(label) => Ok(label),
        None => {
            let e = AppError::invalid_input("This issue has no suggested classification to confirm.");
            let e = with_repo_and_issue(e, repo, issue_number);
            assert(e@.context =~= repo_issue_context(*repo, issue_number));
            Err(e)
        },
    }
}

/// Attach the repository, issue and label of a failed confirmation to its error.
pub fn with_repo_issue_and_label(err: AppError, repo: &RepoRef, issue_number: u64, label: &str) -> (e:
    AppError)
    ensures
        e@ == (AppErrorView {
            context: err@.context + repo_issue_context(*repo, issue_number) + seq![("label"@, label@)],
            ..err@
        }),
{
    let e = with_repo_and_issue(err, repo, issue_number);
    let e2 = e.with_context("label", label);
    assert(e2@.context =~= err@.context + repo_issue_context(*repo, issue_number) + seq![
        ("label"@, label@),
    ]);
    e2
}

} // verus!
