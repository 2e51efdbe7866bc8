use zfirot::error::AppErrorKind;
use zfirot::token::GitHubToken;

#[test]
fn parses_a_fine_grained_token() {
    let token = GitHubToken::parse("github_pat_ABC123").expect("valid PAT");
    assert_eq!(token.expose(), "github_pat_ABC123");
}

#[test]
fn trims_surrounding_whitespace() {
    let token = GitHubToken::parse("  github_pat_ABC123\n").expect("valid PAT");
    assert_eq!(token.expose(), "github_pat_ABC123");
}

#[test]
fn rejects_an_empty_token() {
    let err = GitHubToken::parse("   ").err().expect("empty is invalid");
    assert_eq!(err.kind(), AppErrorKind::InvalidInput);
}

#[test]
fn rejects_a_classic_or_malformed_token() {
    let err = GitHubToken::parse("ghp_classic_token").err().expect("not fine-grained");
    assert_eq!(err.kind(), AppErrorKind::InvalidInput);
}

#[test]
fn debug_redacts_the_secret() {
    let token = GitHubToken::parse("github_pat_SECRET").expect("valid PAT");
    let rendered = token.redacted_debug();
    assert!(!rendered.contains("SECRET"), "secret must not be rendered");
    assert!(rendered.contains("redacted"));
}

#[test]
fn errors_never_echo_the_pasted_secret() {
    let err = GitHubToken::parse("ghp_TOPSECRET").err().expect("not fine-grained");
    assert!(!err.diagnostic().contains("TOPSECRET"));
    assert_eq!(
        err.display_message(),
        "Enter a fine-grained Personal Access Token (it starts with \"github_pat_\")."
    );
    assert_eq!(GitHubToken::from_stored("github_pat_X").expose(), "github_pat_X");
    assert!(GitHubToken::parse("github_pa").is_err());
}
