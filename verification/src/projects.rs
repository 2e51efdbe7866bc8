//! The home screen's project lists: recency order, the stale-while-revalidate
//! decision for the cached list, and the tracked (summoned-by-name) repos.

use vstd::prelude::*;

use crate::order::{goes_before, lemma_text_lt_asymmetric, lemma_text_lt_irreflexive, text_lt, is_permutation, stable_order, stably_sorted};
use crate::repo::{Project, RepoRef};
use crate::text::{chars_of, str_eq};

verus! {

/// The facts of a repository reference: owner and name by content.
pub open spec fn repo_facts(r: RepoRef) -> (Seq<char>, Seq<char>) {
    (r.owner@, r.name@)
}

/// The facts of a project: its repository and push time by content.
pub open spec fn project_facts(p: Project) -> (Seq<char>, Seq<char>, Seq<char>) {
    (p.repo.owner@, p.repo.name@, p.pushed_at@)
}

/// The facts of a list of projects, in order.
pub open spec fn projects_facts(ps: Seq<Project>) -> Seq<(Seq<char>, Seq<char>, Seq<char>)> {
    ps.map_values(|p: Project| project_facts(p))
}

/// `r` lists `ps` in the stable order of `keys` (descending when `desc`).
pub open spec fn sorted_by(r: Seq<Project>, ps: Seq<Project>, keys: Seq<Seq<char>>, desc: bool) -> bool {
    exists|order: Seq<int>|
        {
            &&& is_permutation(order, ps.len() as int)
            &&& stably_sorted(keys, order, desc)
            &&& r.len() == ps.len()
            &&& forall|k: int| 0 <= k < r.len() ==> r[k] == ps[#[trigger] order[k]]
        }
}

/// The push times of `ps`, in order.
pub open spec fn push_times(ps: Seq<Project>) -> Seq<Seq<char>> {
    ps.map_values(|p: Project| p.pushed_at@)
}

/// The projects, most recently pushed first.
///
/// `pushed_at` is an RFC-3339 UTC timestamp, so a descending text order puts
/// the most recently active project first; projects pushed at the same time
/// keep their input order.
pub fn sort_by_recency(projects: &[Project]) -> (r: Vec<Project>)
    ensures
        sorted_by(r@, projects@, push_times(projects@), true),
{
    let mut keys: Vec<Vec<char>> = Vec::new();
    let mut i: usize = 0;
    while i < projects.len()
        invariant
            i <= projects.len(),
            keys@.map_values(|k: Vec<char>| k@) == push_times(projects@).take(i as int),
        decreases projects.len() - i,
    {
        let ghost before = keys@;
        let key = chars_of(projects[i].pushed_at.as_str());
        keys.push(key);
        assert(keys@.map_values(|k: Vec<char>| k@) =~= before.map_values(|k: Vec<char>| k@).push(
            key@,
        ));
        assert(push_times(projects@).take(i + 1) =~= push_times(projects@).take(i as int).push(
            projects@[i as int].pushed_at@,
        ));
        i += 1;
    }
    assert(push_times(projects@).take(projects.len() as int) =~= push_times(projects@));
    let order = stable_order(&keys, true);
    let ghost o = order@.map_values(|i: usize| i as int);
    let mut r: Vec<Project> = Vec::new();
    let mut k: usize = 0;
    while k < order.len()
        invariant
            k <= order.len(),
            order.len() == projects.len(),
            o == order@.map_values(|i: usize| i as int),
            is_permutation(o, projects.len() as int),
            r.len() == k,
            forall|q: int| 0 <= q < k ==> r@[q] == projects@[#[trigger] o[q]],
        decreases order.len() - k,
    {
        assert(o[k as int] == order@[k as int] as int);
        r.push(projects[order[k]].clone());
        k += 1;
    }
    assert(sorted_by(r@, projects@, push_times(projects@), true)) by {
        assert(r@.len() == projects@.len());
    }
    r
}

/// The recency order, spelled out: the result rearranges the input (each
/// input project appears once), no project comes before one pushed later,
/// and projects pushed at the same time keep their input order.
pub proof fn law_recency_order(r: Seq<Project>, ps: Seq<Project>)
    requires
        sorted_by(r, ps, push_times(ps), true),
    ensures
        exists|order: Seq<int>|
            {
                &&& order.len() == ps.len() && order.no_duplicates()
                &&& forall|k: int| 0 <= k < order.len() ==> 0 <= #[trigger] order[k] < ps.len()
                &&& r.len() == ps.len()
                &&& forall|k: int| 0 <= k < r.len() ==> r[k] == ps[#[trigger] order[k]]
                &&& forall|a: int, b: int|
                    0 <= a < b < r.len() ==> !text_lt(#[trigger] r[a].pushed_at@, #[trigger] r[b].pushed_at@)
                &&& forall|a: int, b: int|
                    0 <= a < b < r.len() && r[a].pushed_at@ == r[b].pushed_at@ ==> #[trigger] order[a] < #[trigger] order[b]
            },
{
    let order = choose|order: Seq<int>|
        {
            &&& is_permutation(order, ps.len() as int)
            &&& stably_sorted(push_times(ps), order, true)
            &&& r.len() == ps.len()
            &&& forall|k: int| 0 <= k < r.len() ==> r[k] == ps[#[trigger] order[k]]
        };
    let keys = push_times(ps);
    assert forall|a: int, b: int| 0 <= a < b < r.len() implies !text_lt(#[trigger] r[a].pushed_at@, #[trigger] r[b].pushed_at@) by {
        assert(r[a] == ps[order[a]]);
        assert(r[b] == ps[order[b]]);
        assert(keys[order[a]] == r[a].pushed_at@);
        assert(keys[order[b]] == r[b].pushed_at@);
        assert(goes_before(keys[order[a]], keys[order[b]], true) || (!goes_before(
            keys[order[b]],
            keys[order[a]],
            true,
        ) && order[a] < order[b]));
        if text_lt(r[b].pushed_at@, r[a].pushed_at@) {
            lemma_text_lt_asymmetric(r[b].pushed_at@, r[a].pushed_at@);
        }
    }
    assert forall|a: int, b: int| 0 <= a < b < r.len() && r[a].pushed_at@ == r[b].pushed_at@ implies #[trigger] order[a]
        < #[trigger] order[b] by {
        assert(r[a] == ps[order[a]]);
        assert(r[b] == ps[order[b]]);
        assert(keys[order[a]] == r[a].pushed_at@);
        assert(keys[order[b]] == r[b].pushed_at@);
        lemma_text_lt_irreflexive(r[a].pushed_at@);
    }
}

/// The outcome of a stale-while-revalidate refresh of the recent-projects list.
#[derive(Debug, PartialEq, Eq)]
pub enum ProjectsRefresh {
    /// The live list differs from the cache (including a cold cache): the
    /// cache is to be rewritten and the UI swaps to this list.
    Changed(Vec<Project>),
    /// The live list matches the cache: nothing is written, nothing repaints.
    Unchanged,
}

/// Compare the live list with the cached one: `Unchanged` exactly when the
/// cache is warm and holds the same projects in the same order, else
/// `Changed` with the live list.
pub fn projects_refresh(cached: Option<Vec<Project>>, live: Vec<Project>) -> (r: ProjectsRefresh)
    ensures
        match r {
            ProjectsRefresh::Unchanged => cached matches Some(c) && projects_facts(c@)
                == projects_facts(live@),
            ProjectsRefresh::Changed(l) => l@ == live@ && !(cached matches Some(c)
                && projects_facts(c@) == projects_facts(live@)),
        },
{
    match cached {
        Some(c) => {
            if same_projects(&c, &live) {
                ProjectsRefresh::Unchanged
            } else {
                ProjectsRefresh::Changed(live)
            }
        },
        None => ProjectsRefresh::Changed(live),
    }
}

/// The same repository reference, by content.
pub fn same_repo(a: &RepoRef, b: &RepoRef) -> (r: bool)
    ensures
        r == (repo_facts(*a) == repo_facts(*b)),
{
    str_eq(a.owner.as_str(), b.owner.as_str()) && str_eq(a.name.as_str(), b.name.as_str())
}

/// The same projects, in the same order.
fn same_projects(a: &Vec<Project>, b: &Vec<Project>) -> (r: bool)
    ensures
        r == (projects_facts(a@) == projects_facts(b@)),
{
    if a.len() != b.len() {
        assert(projects_facts(a@).len() != projects_facts(b@).len());
        return false;
    }
    let mut i: usize = 0;
    while i < a.len()
        invariant
            a.len() == b.len(),
            i <= a.len(),
            forall|j: int| 0 <= j < i ==> project_facts(#[trigger] a@[j]) == project_facts(b@[j]),
        decreases a.len() - i,
    {
        if !(same_repo(&a[i].repo, &b[i].repo) && str_eq(
            a[i].pushed_at.as_str(),
            b[i].pushed_at.as_str(),
        )) {
            assert(projects_facts(a@)[i as int] != projects_facts(b@)[i as int]);
            return false;
        }
        i += 1;
    }
    assert(projects_facts(a@) =~= projects_facts(b@));
    true
}

/// The facts of a list of repository references, in order.
pub open spec fn repos_facts(rs: Seq<RepoRef>) -> Seq<(Seq<char>, Seq<char>)> {
    rs.map_values(|r: RepoRef| repo_facts(r))
}

/// `rs` already holds a repository with the facts of `repo`.
pub open spec fn tracks(rs: Seq<RepoRef>, repo: RepoRef) -> bool {
    repos_facts(rs).contains(repo_facts(repo))
}

/// The tracked list after tracking `repo`: unchanged when it is already
/// there, else with `repo` added at the front (newest first).
pub open spec fn tracked_after(rs: Seq<RepoRef>, repo: RepoRef) -> Seq<RepoRef> {
    if tracks(rs, repo) {
        rs
    } else {
        seq![repo] + rs
    }
}

/// The tracked list after untracking `repo`: every copy of it removed, the
/// rest in order.
pub open spec fn untracked_after(rs: Seq<RepoRef>, repo: RepoRef) -> Seq<RepoRef>
    decreases rs.len(),
{
    if rs.len() == 0 {
        Seq::empty()
    } else {
        let r = untracked_after(rs.drop_last(), repo);
        if repo_facts(rs.last()) == repo_facts(repo) {
            r
        } else {
            r.push(rs.last())
        }
    }
}

/// Add `repo` to the front of the tracked list unless it is already there
/// (idempotent).
pub fn track_repo_in(repos: &mut Vec<RepoRef>, repo: &RepoRef)
    ensures
        final(repos)@ == tracked_after(old(repos)@, *repo),
{
    let mut i: usize = 0;
    while i < repos.len()
        invariant
            i <= repos.len(),
            forall|j: int| 0 <= j < i ==> repo_facts(#[trigger] repos@[j]) != repo_facts(*repo),
        decreases repos.len() - i,
    {
        if same_repo(&repos[i], repo) {
            assert(repos_facts(repos@)[i as int] == repo_facts(*repo));
            return;
        }
        i += 1;
    }
    proof {
        if tracks(repos@, *repo) {
            let j = choose|j: int| 0 <= j < repos_facts(repos@).len() && repos_facts(repos@)[j]
                == repo_facts(*repo);
            assert(repo_facts(repos@[j]) == repo_facts(*repo));
        }
    }
    let ghost before = repos@;
    repos.insert(0, repo.clone());
    assert(repos@ =~= seq![*repo] + before);
}

/// Remove every copy of `repo` from the tracked list.
pub fn untrack_repo_in(repos: &mut Vec<RepoRef>, repo: &RepoRef)
    ensures
        final(repos)@ == untracked_after(old(repos)@, *repo),
{
    let ghost start = repos@;
    let mut kept: Vec<RepoRef> = Vec::new();
    let mut i: usize = 0;
    while i < repos.len()
        invariant
            i <= repos.len(),
            repos@ == start,
            kept@ == untracked_after(start.take(i as int), *repo),
        decreases repos.len() - i,
    {
        assert(start.take(i + 1).drop_last() =~= start.take(i as int));
        if !same_repo(&repos[i], repo) {
            kept.push(repos[i].clone());
        }
        i += 1;
    }
    assert(start.take(start.len() as int) =~= start);
    *repos = kept;
}

/// Tracking is idempotent: tracking a repository a second time changes
/// nothing, and the most recently tracked repository comes first.
pub proof fn law_track_is_idempotent(rs: Seq<RepoRef>, repo: RepoRef)
    ensures
        tracked_after(tracked_after(rs, repo), repo) == tracked_after(rs, repo),
        tracks(tracked_after(rs, repo), repo),
        !tracks(rs, repo) ==> tracked_after(rs, repo)[0] == repo,
{
    if !tracks(rs, repo) {
        let t = seq![repo] + rs;
        assert(repos_facts(t)[0] == repo_facts(repo));
    }
}

/// Untracking leaves no copy of the repository behind.
pub proof fn law_untrack_removes_every_copy(rs: Seq<RepoRef>, repo: RepoRef)
    ensures
        !tracks(untracked_after(rs, repo), repo),
    decreases rs.len(),
{
    if rs.len() > 0 {
        law_untrack_removes_every_copy(rs.drop_last(), repo);
        let r = untracked_after(rs.drop_last(), repo);
        if repo_facts(rs.last()) != repo_facts(repo) {
            let t = r.push(rs.last());
            if tracks(t, repo) {
                let j = choose|j: int| 0 <= j < repos_facts(t).len() && repos_facts(t)[j]
                    == repo_facts(repo);
                if j < r.len() {
                    assert(repos_facts(r)[j] == repos_facts(t)[j]);
                }
            }
        }
    }
}

} // verus!
