//! Locally-owned state: the in-memory project and token stores, the
//! coordinates of the OS and environment token stores, and the decisions
//! those stores make about what they read back.

use vstd::prelude::*;

use crate::projects::{track_repo_in, tracked_after, untrack_repo_in, untracked_after};
use crate::repo::{Project, RepoRef};
use crate::text::{chars_of, trim, trim_vec};
use crate::token::{token_parse, GitHubToken, TokenFault};

verus! {

/// An in-memory project store: the last-opened repository, the cached
/// recent-projects list and the tracked repositories, with no filesystem.
pub struct FakeProjectStore {
    last_opened: Option<RepoRef>,
    cached_projects: Option<Vec<Project>>,
    tracked_repos: Vec<RepoRef>,
}

impl FakeProjectStore {
    /// The remembered last-opened repository.
    pub closed spec fn last(self) -> Option<RepoRef> {
        self.last_opened
    }

    /// The cached recent-projects list, if the cache is warm.
    pub closed spec fn cache(self) -> Option<Seq<Project>> {
        match self.cached_projects {
            Some(v) => Some(v@),
            None => None,
        }
    }

    /// The tracked repositories, newest first.
    pub closed spec fn tracked_list(self) -> Seq<RepoRef> {
        self.tracked_repos@
    }

    /// A store with nothing remembered yet.
    pub fn empty() -> (s: Self)
        ensures
            s.last() is None,
            s.cache() is None,
            s.tracked_list() == Seq::<RepoRef>::empty(),
    {
        FakeProjectStore { last_opened: None, cached_projects: None, tracked_repos: Vec::new() }
    }

    /// A store pre-seeded with a last-opened repository.
    pub fn with_last_opened(repo: RepoRef) -> (s: Self)
        ensures
            s.last() == Some(repo),
            s.cache() is None,
            s.tracked_list() == Seq::<RepoRef>::empty(),
    {
        FakeProjectStore { last_opened: Some(repo), cached_projects: None, tracked_repos: Vec::new() }
    }

    /// A store pre-seeded with tracked repositories.
    pub fn with_tracked_repos(repos: Vec<RepoRef>) -> (s: Self)
        ensures
            s.last() is None,
            s.cache() is None,
            s.tracked_list() == repos@,
    {
        FakeProjectStore { last_opened: None, cached_projects: None, tracked_repos: repos }
    }

    /// The project opened most recently, if any.
    pub fn last_opened(&self) -> (r: Option<RepoRef>)
        ensures
            r == self.last(),
    {
        match &self.last_opened {
            Some(repo) => Some(repo.clone()),
            None => None,
        }
    }

    /// Remember `repo` as the most recently opened project.
    pub fn remember_last_opened(&mut self, repo: &RepoRef)
        ensures
            final(self).last() == Some(*repo),
            final(self).cache() == old(self).cache(),
            final(self).tracked_list() == old(self).tracked_list(),
    {
        self.last_opened = Some(repo.clone());
    }

    /// The cached recent-projects list, or `None` on a cold cache.
    pub fn cached_projects(&self) -> (r: Option<Vec<Project>>)
        ensures
            match r {
                Some(v) => self.cache() == Some(v@),
                None => self.cache() is None,
            },
    {
        match &self.cached_projects {
            Some(v) => {
                let c = clone_projects(v);
                Some(c)
            },
            None => None,
        }
    }

    /// Replace the cached recent-projects list.
    pub fn cache_projects(&mut self, projects: &[Project])
        ensures
            final(self).cache() == Some(projects@),
            final(self).last() == old(self).last(),
            final(self).tracked_list() == old(self).tracked_list(),
    {
        let mut v: Vec<Project> = Vec::new();
        let mut i: usize = 0;
        while i < projects.len()
            invariant
                i <= projects.len(),
                v@ == projects@.take(i as int),
            decreases projects.len() - i,
        {
            v.push(projects[i].clone());
            assert(projects@.take(i + 1) =~= projects@.take(i as int).push(projects@[i as int]));
            i += 1;
        }
        assert(projects@.take(projects.len() as int) =~= projects@);
        self.cached_projects = Some(v);
    }

    /// The tracked repositories, newest first.
    pub fn tracked_repos(&self) -> (r: Vec<RepoRef>)
        ensures
            r@ == self.tracked_list(),
    {
        let mut v: Vec<RepoRef> = Vec::new();
        let mut i: usize = 0;
        while i < self.tracked_repos.len()
            invariant
                i <= self.tracked_repos.len(),
                v@ == self.tracked_repos@.take(i as int),
            decreases self.tracked_repos.len() - i,
        {
            v.push(self.tracked_repos[i].clone());
            assert(self.tracked_repos@.take(i + 1) =~= self.tracked_repos@.take(i as int).push(
                self.tracked_repos@[i as int],
            ));
            i += 1;
        }
        assert(self.tracked_repos@.take(self.tracked_repos.len() as int) =~= self.tracked_repos@);
        v
    }

    /// Track `repo` (newest first) unless it is already tracked.
    pub fn track_repo(&mut self, repo: &RepoRef)
        ensures
            final(self).tracked_list() == tracked_after(old(self).tracked_list(), *repo),
            final(self).last() == old(self).last(),
            final(self).cache() == old(self).cache(),
    {
        track_repo_in(&mut self.tracked_repos, repo);
    }

    /// Stop tracking `repo`.
    pub fn untrack_repo(&mut self, repo: &RepoRef)
        ensures
            final(self).tracked_list() == untracked_after(old(self).tracked_list(), *repo),
            final(self).last() == old(self).last(),
            final(self).cache() == old(self).cache(),
    {
        untrack_repo_in(&mut self.tracked_repos, repo);
    }
}

/// A copy of a list of projects.
fn clone_projects(v: &Vec<Project>) -> (r: Vec<Project>)
    ensures
        r@ == v@,
{
    let mut r: Vec<Project> = Vec::new();
    let mut i: usize = 0;
    while i < v.len()
        invariant
            i <= v.len(),
            r@ == v@.take(i as int),
        decreases v.len() - i,
    {
        r.push(v[i].clone());
        assert(v@.take(i + 1) =~= v@.take(i as int).push(v@[i as int]));
        i += 1;
    }
    assert(v@.take(v.len() as int) =~= v@);
    r
}

/// An in-memory token store, never touching the OS keyring.
pub struct FakeSecureStore {
    token: Option<GitHubToken>,
}

impl FakeSecureStore {
    /// The stored secret, if any.
    pub closed spec fn stored(self) -> Option<Seq<char>> {
        match self.token {
            Some(t) => Some(t@),
            None => None,
        }
    }

    /// An empty store, as if no token has been saved yet.
    pub fn empty() -> (s: Self)
        ensures
            s.stored() is None,
    {
        FakeSecureStore { token: None }
    }

    /// A store pre-seeded with a token, as if saved on a prior launch.
    pub fn with_token(token: GitHubToken) -> (s: Self)
        ensures
            s.stored() == Some(token@),
    {
        FakeSecureStore { token: Some(token) }
    }

    /// Persist the token, replacing any existing one.
    pub fn save_token(&mut self, token: &GitHubToken)
        ensures
            final(self).stored() == Some(token@),
    {
        self.token = Some(token.clone());
    }

    /// The stored token, or `None` when none is saved.
    pub fn load_token(&self) -> (r: Option<GitHubToken>)
        ensures
            match r {
                Some(t) => self.stored() == Some(t@),
                None => self.stored() is None,
            },
    {
        match &self.token {
            Some(t) => Some(t.clone()),
            None => None,
        }
    }

    /// Remove the stored token (signing out).
    pub fn delete_token(&mut self)
        ensures
            final(self).stored() is None,
    {
        self.token = None;
    }
}

/// The coordinates of the token in the OS secure store.
#[derive(Debug)]
pub struct KeyringSecureStore {
    service: String,
    account: String,
}

impl KeyringSecureStore {
    /// The credential's service name, as a specification value.
    pub closed spec fn service_name(self) -> Seq<char> {
        self.service@
    }

    /// The credential's account name, as a specification value.
    pub closed spec fn account_name(self) -> Seq<char> {
        self.account@
    }

    /// A store using the default Zfirot service/account coordinates.
    pub fn new() -> (s: Self)
        ensures
            s.service_name() == "io.funkode.zfirot"@,
            s.account_name() == "github-pat"@,
    {
        KeyringSecureStore {
            service: "io.funkode.zfirot".to_string(),
            account: "github-pat".to_string(),
        }
    }

    /// The credential's service name.
    pub fn service(&self) -> (s: &str)
        ensures
            s@ == self.service_name(),
    {
        self.service.as_str()
    }

    /// The credential's account name.
    pub fn account(&self) -> (s: &str)
        ensures
            s@ == self.account_name(),
    {
        self.account.as_str()
    }
}

/// The token a stored secret stands for: re-validated, so a malformed value
/// (corrupted, or written by another tool) reads as "signed out".
pub fn token_from_secret(secret: &str) -> (r: Option<GitHubToken>)
    ensures
        match r {
            Some(t) => token_parse(secret@) == Ok::<Seq<char>, TokenFault>(t@),
            None => token_parse(secret@) is Err,
        },
{
    match GitHubToken::parse(secret) {
        Ok(t) => Some(t),
        Err(_) => None,
    }
}

/// A development-only token store that reads the token from an environment
/// variable instead of the OS keychain.
#[derive(Debug)]
pub struct EnvSecureStore {
    var: String,
}

impl EnvSecureStore {
    /// The environment variable consulted by [`EnvSecureStore::from_env`].
    pub const DEFAULT_VAR: &'static str = "ZFIROT_GITHUB_TOKEN";

    /// The variable's name, as a specification value.
    pub closed spec fn var_name(self) -> Seq<char> {
        self.var@
    }

    /// A store reading the token from the named environment variable.
    pub fn new(var: &str) -> (s: Self)
        ensures
            s.var_name() == var@,
    {
        EnvSecureStore { var: var.to_string() }
    }

    /// A store reading the token from [`EnvSecureStore::DEFAULT_VAR`].
    pub fn from_env() -> (s: Self)
        ensures
            s.var_name() == "ZFIROT_GITHUB_TOKEN"@,
    {
        Self::new("ZFIROT_GITHUB_TOKEN")
    }

    /// The variable's name.
    pub fn var(&self) -> (s: &str)
        ensures
            s@ == self.var_name(),
    {
        self.var.as_str()
    }
}

/// The token an environment value stands for: none when the variable is
/// unset, blank or malformed.
pub fn token_from_env_value(value: Option<&str>) -> (r: Option<GitHubToken>)
    ensures
        match value {
            Some(raw) => if trim(raw@).len() == 0 {
                r is None
            } else {
                match r {
                    Some(t) => token_parse(raw@) == Ok::<Seq<char>, TokenFault>(t@),
                    None => token_parse(raw@) is Err,
                }
            },
            None => r is None,
        },
{
    match value {
        Some(raw) => {
            if trim_vec(&chars_of(raw)).len() == 0 {
                None
            } else {
                token_from_secret(raw)
            }
        },
        None => None,
    }
}

/// Whether an environment value configures a token: set and not blank.
pub fn env_value_configured(value: Option<&str>) -> (r: bool)
    ensures
        r == (value matches Some(raw) && trim(raw@).len() > 0),
{
    match value {
        Some(raw) => trim_vec(&chars_of(raw)).len() > 0,
        None => false,
    }
}

} // verus!
