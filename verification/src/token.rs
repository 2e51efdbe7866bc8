//! GitHub fine-grained Personal Access Tokens, validated for shape only.

use vstd::prelude::*;

use crate::error::{AppError, AppErrorKind, AppErrorView};
use crate::text::{chars_of, lemma_trim_idempotent, starts_with, string_of, trim, trim_vec, vec_eq};

verus! {

/// A GitHub fine-grained Personal Access Token, validated for shape only.
///
/// The secret is kept private and never rendered: there is no `Debug` or
/// `Display`, only [`GitHubToken::redacted_debug`], so a token can never leak
/// into logs or an error chain. Whether GitHub accepts the token is decided by
/// the GraphQL adapter, not here.
#[derive(PartialEq, Eq)]
pub struct GitHubToken(String);

impl View for GitHubToken {
    type V = Seq<char>;

    closed spec fn view(&self) -> Seq<char> {
        self.0@
    }
}

impl Clone for GitHubToken {
    fn clone(&self) -> (r: Self)
        ensures
            r@ == self@,
    {
        GitHubToken(self.0.clone())
    }
}

/// Why a pasted token was refused.
#[derive(Clone, Copy, Debug, PartialEq, Eq, Structural)]
pub enum TokenFault {
    /// Nothing but whitespace was pasted.
    Empty,
    /// The text does not start with the fine-grained prefix.
    NotFineGrained,
}

/// The prefix GitHub issues fine-grained Personal Access Tokens with.
pub open spec fn fine_grained_prefix() -> Seq<char> {
    "github_pat_"@
}

/// What parsing a pasted token gives: the trimmed secret, or why it is refused.
pub open spec fn token_parse(raw: Seq<char>) -> Result<Seq<char>, TokenFault> {
    let t = trim(raw);
    if t.len() == 0 {
        Err(TokenFault::Empty)
    } else if !starts_with(t, fine_grained_prefix()) {
        Err(TokenFault::NotFineGrained)
    } else {
        Ok(t)
    }
}

/// The error `GitHubToken::parse` reports for `fault`; it never echoes the secret.
pub open spec fn token_parse_error(fault: TokenFault) -> AppErrorView {
    AppErrorView {
        operation: Some("GitHubToken::parse"@),
        ..AppError::fresh(
            AppErrorKind::InvalidInput,
            match fault {
                TokenFault::Empty => "Enter a Personal Access Token."@,
                TokenFault::NotFineGrained => "Enter a fine-grained Personal Access Token (it starts with \"github_pat_\")."@,
            },
        )
    }
}

impl GitHubToken {
    /// Parse a pasted token: trim surrounding whitespace and check it has the
    /// fine-grained PAT shape. The secret is never echoed back in errors.
    pub fn parse(raw: &str) -> (r: Result<GitHubToken, AppError>)
        ensures
            match r {
                Ok(token) => token_parse(raw@) == Ok::<Seq<char>, TokenFault>(token@),
                Err(e) => token_parse(raw@) matches Err(fault) && e@ == token_parse_error(fault),
            },
    {
        let t = trim_vec(&chars_of(raw));
        if t.len() == 0 {
            return Err(
                AppError::invalid_input("Enter a Personal Access Token.").with_operation(
                    "GitHubToken::parse",
                ),
            );
        }
        let prefix = chars_of("github_pat_");
        proof {
            reveal_strlit("github_pat_");
        }
        if t.len() < prefix.len() || !vec_eq(&crate::text::sub_vec(&t, 0, prefix.len()), &prefix) {
            return Err(
                AppError::invalid_input(
                    "Enter a fine-grained Personal Access Token (it starts with \"github_pat_\").",
                ).with_operation("GitHubToken::parse"),
            );
        }
        Ok(GitHubToken(string_of(&t)))
    }

    /// Wrap an already-validated secret read back from the secure store.
    pub fn from_stored(secret: &str) -> (t: GitHubToken)
        ensures
            t@ == secret@,
    {
        GitHubToken(secret.to_string())
    }

    /// The raw secret, for authorising requests. Treat the result as sensitive.
    pub fn expose(&self) -> (s: &str)
        ensures
            s@ == self@,
    {
        self.0.as_str()
    }

    /// The redacted rendering used wherever a token would be debug-printed.
    pub fn redacted_debug(&self) -> (s: String)
        ensures
            s@ == "GitHubToken(***redacted***)"@,
    {
        "GitHubToken(***redacted***)".to_string()
    }
}

/// What a parse accepts parses back unchanged: the secret kept in the secure
/// store is read back as the same token.
pub proof fn law_accepted_token_parses_back(raw: Seq<char>, secret: Seq<char>)
    requires
        token_parse(raw) == Ok::<Seq<char>, TokenFault>(secret),
    ensures
        token_parse(secret) == Ok::<Seq<char>, TokenFault>(secret),
{
    lemma_trim_idempotent(raw);
}

/// A pasted token is accepted exactly when, once surrounding whitespace is
/// trimmed, it is non-empty and begins with `github_pat_`; the accepted secret
/// is that trimmed text. Blank input is refused as empty, and anything else as
/// not fine-grained.
pub proof fn law_token_shape(raw: Seq<char>)
    ensures
        (token_parse(raw) is Ok) <==> (trim(raw).len() >= 11 && trim(raw).subrange(0, 11)
            == "github_pat_"@),
        token_parse(raw) is Ok ==> token_parse(raw) == Ok::<Seq<char>, TokenFault>(trim(raw)),
        token_parse(raw) == Err::<Seq<char>, TokenFault>(TokenFault::Empty) <==> trim(raw).len() == 0,
{
    reveal_strlit("github_pat_");
}

} // verus!
