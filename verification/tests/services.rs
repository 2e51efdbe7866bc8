use zfirot::classification::IssueClassification;
use zfirot::error::{AppError, AppErrorKind};
use zfirot::repo::RepoRef;
use zfirot::services::{
    confirmation_label, require_stored_token, with_repo_and_issue, with_repo_issue_and_label,
    AuthService, LastOpenedService,
};
use zfirot::token::GitHubToken;

#[test]
fn require_token_is_unauthorized_when_missing() {
    let err = require_stored_token(None).err().expect("no token stored");
    assert_eq!(err.kind(), AppErrorKind::Unauthorized);
    assert_eq!(err.display_message(), "Add a Personal Access Token to load your board.");
    assert!(err.diagnostic().contains("[operation=AuthService::require_token]"));
    let token = require_stored_token(Some(GitHubToken::from_stored("github_pat_A"))).ok().unwrap();
    assert_eq!(token.expose(), "github_pat_A");
}

#[test]
fn confirming_a_suggested_prd_adds_the_prd_label() {
    let repo = RepoRef::new("funkode-io", "zfirot");
    assert_eq!(confirmation_label(&repo, 8, &IssueClassification::SuggestedPrd).ok(), Some("prd"));
}

#[test]
fn confirming_a_suggested_slice_adds_the_slice_label() {
    let repo = RepoRef::new("funkode-io", "zfirot");
    assert_eq!(confirmation_label(&repo, 9, &IssueClassification::SuggestedSlice).ok(), Some("slice"));
}

#[test]
fn confirming_an_unclassified_issue_is_rejected_without_calling_the_port() {
    let repo = RepoRef::new("funkode-io", "zfirot");
    let err = confirmation_label(&repo, 10, &IssueClassification::Unclassified).err().unwrap();
    assert_eq!(err.kind(), AppErrorKind::InvalidInput);
    assert_eq!(
        err.diagnostic(),
        "InvalidInput: This issue has no suggested classification to confirm. [repo=funkode-io/zfirot] [issue=10]"
    );
}

#[test]
fn confirm_surfaces_a_clear_error_with_context() {
    let repo = RepoRef::new("funkode-io", "zfirot");
    let label = confirmation_label(&repo, 7, &IssueClassification::SuggestedSlice).ok().expect("a suggested Slice confirms");
    assert_eq!(label, "slice");
    let error = with_repo_issue_and_label(
        AppError::forbidden("The token lacks permission to label this issue"),
        &repo,
        7,
        label,
    );
    assert_eq!(error.kind(), AppErrorKind::Forbidden);
    assert_eq!(error.display_message(), "The token lacks permission to label this issue");
    let diagnostic = error.diagnostic();
    assert!(diagnostic.contains("repo=funkode-io/zfirot"), "error should carry the repo context: {diagnostic}");
    assert!(diagnostic.contains("issue=7"), "error should carry the issue context: {diagnostic}");
    assert!(diagnostic.contains("label=slice"), "error should carry the label context: {diagnostic}");
}

#[test]
fn board_action_context_renders_in_order() {
    let repo = RepoRef::new("funkode-io", "zfirot");
    let err = with_repo_issue_and_label(AppError::forbidden("denied"), &repo, 12, "prd");
    assert_eq!(err.diagnostic(), "Forbidden: denied [repo=funkode-io/zfirot] [issue=12] [label=prd]");
    let err = with_repo_and_issue(AppError::not_found("gone"), &repo, 123456);
    assert!(err.diagnostic().ends_with("[issue=123456]"));
}

#[test]
fn the_services_hold_their_store() {
    assert_eq!(*AuthService::new(5u8).store(), 5);
    assert_eq!(*LastOpenedService::new("store").store(), "store");
}

const VALID_PAT: &str = "github_pat_11ABCDEFG_exampletokenvalue";

#[test]
fn saves_a_valid_token_and_reuses_it_across_launches() {
    let mut store = zfirot::stores::FakeSecureStore::empty();
    assert!(store.load_token().is_none());
    let token = GitHubToken::parse(VALID_PAT).ok().expect("valid PAT parses");
    store.save_token(&token);
    assert!(store.load_token().is_some());
    let token = require_stored_token(store.load_token()).ok().expect("token now present");
    assert_eq!(token.expose(), VALID_PAT);
}

#[test]
fn a_pre_seeded_token_is_available_on_launch() {
    let stored = GitHubToken::parse(VALID_PAT).ok().expect("valid PAT");
    let store = zfirot::stores::FakeSecureStore::with_token(stored);
    let token = require_stored_token(store.load_token()).ok().expect("token persisted");
    assert_eq!(token.expose(), VALID_PAT);
}

#[test]
fn rejects_a_non_fine_grained_token_without_storing_it() {
    let store = zfirot::stores::FakeSecureStore::empty();
    let err = GitHubToken::parse("ghp_classic_token").err().expect("classic tokens are rejected");
    assert_eq!(err.kind(), AppErrorKind::InvalidInput);
    assert!(store.load_token().is_none(), "an invalid token must not be persisted");
}

#[test]
fn clear_token_signs_out() {
    let stored = GitHubToken::parse(VALID_PAT).ok().expect("valid PAT");
    let mut store = zfirot::stores::FakeSecureStore::with_token(stored);
    store.delete_token();
    assert!(store.load_token().is_none());
}

fn rejected_assignment() -> AppError {
    with_repo_and_issue(
        AppError::forbidden("The token lacks permission to assign this issue"),
        &RepoRef::new("funkode-io", "zfirot"),
        7,
    )
}

#[test]
fn assign_self_surfaces_a_clear_error_with_context() {
    let error = rejected_assignment();
    assert_eq!(error.kind(), AppErrorKind::Forbidden);
    assert_eq!(error.display_message(), "The token lacks permission to assign this issue");
    let diagnostic = error.diagnostic();
    assert!(diagnostic.contains("repo=funkode-io/zfirot"), "error should carry the repo context: {diagnostic}");
    assert!(diagnostic.contains("issue=7"), "error should carry the issue context: {diagnostic}");
}

#[test]
fn assign_agent_surfaces_a_clear_error_with_context() {
    let error = rejected_assignment();
    assert_eq!(error.kind(), AppErrorKind::Forbidden);
    assert_eq!(error.display_message(), "The token lacks permission to assign this issue");
    let diagnostic = error.diagnostic();
    assert!(diagnostic.contains("repo=funkode-io/zfirot"));
    assert!(diagnostic.contains("issue=7"));
}
