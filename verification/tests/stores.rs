use zfirot::fixtures::sample_projects;
use zfirot::repo::RepoRef;
use zfirot::stores::{
    env_value_configured, token_from_env_value, token_from_secret, EnvSecureStore, FakeProjectStore,
    FakeSecureStore, KeyringSecureStore,
};
use zfirot::token::GitHubToken;

#[test]
fn last_opened_round_trips_through_the_store() {
    let mut store = FakeProjectStore::empty();
    assert_eq!(store.last_opened(), None);
    store.remember_last_opened(&RepoRef::new("funkode-io", "zfirot"));
    assert_eq!(store.last_opened(), Some(RepoRef::new("funkode-io", "zfirot")));
    assert_eq!(
        FakeProjectStore::with_last_opened(RepoRef::new("a", "b")).last_opened(),
        Some(RepoRef::new("a", "b"))
    );
}

#[test]
fn cached_projects_round_trip_through_the_store() {
    let mut store = FakeProjectStore::empty();
    assert_eq!(store.cached_projects(), None);
    store.cache_projects(&sample_projects());
    assert_eq!(store.cached_projects(), Some(sample_projects()));
}

#[test]
fn tracked_repos_persist_and_are_idempotent() {
    let mut store = FakeProjectStore::empty();
    assert_eq!(store.tracked_repos(), Vec::<RepoRef>::new(), "no tracked repos initially");

    let repo1 = RepoRef::new("owner", "repo1");
    store.track_repo(&repo1);
    assert_eq!(store.tracked_repos(), vec![repo1.clone()], "repo is tracked");

    store.track_repo(&repo1);
    assert_eq!(store.tracked_repos(), vec![repo1.clone()], "repo not duplicated");

    let repo2 = RepoRef::new("owner", "repo2");
    store.track_repo(&repo2);
    assert_eq!(store.tracked_repos(), vec![repo2.clone(), repo1.clone()], "new repos are prepended (newest-first)");

    store.untrack_repo(&repo1);
    assert_eq!(store.tracked_repos(), vec![repo2.clone()], "repo1 removed");

    let repo3 = RepoRef::new("owner", "repo3");
    store.untrack_repo(&repo3);
    assert_eq!(store.tracked_repos(), vec![repo2.clone()], "untracking non-existent repo is safe");
}

#[test]
fn tracked_repos_constructor_seeds_state() {
    let repos = vec![RepoRef::new("a", "x"), RepoRef::new("b", "y")];
    let store = FakeProjectStore::with_tracked_repos(repos.clone());
    assert_eq!(store.tracked_repos(), repos, "constructor seeds the initial list");
    assert_eq!(store.last_opened(), None);
}

#[test]
fn the_fake_secure_store_saves_loads_and_deletes() {
    let mut store = FakeSecureStore::empty();
    assert!(store.load_token().is_none());
    store.save_token(&GitHubToken::parse("github_pat_ONE").unwrap());
    assert_eq!(store.load_token().map(|t| t.expose().to_string()), Some("github_pat_ONE".to_string()));
    store.delete_token();
    assert!(store.load_token().is_none());
    let seeded = FakeSecureStore::with_token(GitHubToken::from_stored("github_pat_TWO"));
    assert_eq!(seeded.load_token().map(|t| t.expose().to_string()), Some("github_pat_TWO".to_string()));
}

#[test]
fn keyring_coordinates_are_the_zfirot_ones() {
    let store = KeyringSecureStore::new();
    assert_eq!(store.service(), "io.funkode.zfirot");
    assert_eq!(store.account(), "github-pat");
}

#[test]
fn a_malformed_stored_secret_reads_as_signed_out() {
    assert!(token_from_secret("not-a-token").is_none());
    assert_eq!(token_from_secret(" github_pat_OK ").map(|t| t.expose().to_string()), Some("github_pat_OK".to_string()));
}

#[test]
fn reads_a_valid_token_from_the_environment() {
    assert_eq!(
        token_from_env_value(Some("github_pat_ENV")).map(|t| t.expose().to_string()),
        Some("github_pat_ENV".to_string())
    );
}

#[test]
fn an_unset_variable_reads_as_no_token() {
    assert!(token_from_env_value(None).is_none());
    assert!(token_from_env_value(Some("   ")).is_none());
    assert!(!env_value_configured(None));
    assert!(!env_value_configured(Some(" \t")));
    assert!(env_value_configured(Some("x")));
}

#[test]
fn a_malformed_value_reads_as_no_token() {
    assert!(token_from_env_value(Some("ghp_classic")).is_none());
}

#[test]
fn the_env_store_reads_the_default_variable() {
    assert_eq!(EnvSecureStore::DEFAULT_VAR, "ZFIROT_GITHUB_TOKEN");
    assert_eq!(EnvSecureStore::from_env().var(), "ZFIROT_GITHUB_TOKEN");
    assert_eq!(EnvSecureStore::new("OTHER").var(), "OTHER");
}

#[test]
fn a_saved_secret_is_read_back_as_the_same_token() {
    let token = GitHubToken::parse("  github_pat_11ABCDEFG0123456789_abcdef \n").expect("a fine-grained token parses");
    assert_eq!(token.expose(), "github_pat_11ABCDEFG0123456789_abcdef");
    let back = token_from_secret(token.expose()).expect("the stored secret re-validates");
    assert!(back == token);
}
