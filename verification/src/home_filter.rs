//! The home screen's search box: which discovered projects a query shows, or
//! whether it offers to open a repository by name.

use vstd::prelude::*;

use crate::projects::{repo_facts, same_repo};
use crate::repo::{repo_display, repo_parse, Project, RepoFault, RepoRef};
use crate::text::{chars_of, contains, find, find_exec, lemma_find_from, lower, lower_vec, matches_at, trim, trim_vec};

verus! {

/// The outcome of typing a query into the home-screen search box, decided
/// purely from the query and the currently-discovered projects.
///
/// The "Go to" action is gated: it only appears when nothing matches yet the
/// query is a valid `owner/repo`, so a repo already on the home screen is
/// opened by clicking its card, never by a redundant button.
#[derive(Debug, PartialEq, Eq)]
pub enum HomeFilter {
    /// One or more discovered projects match the query; show only these.
    Filtered(Vec<Project>),
    /// No project matches, but the query parses as a valid `owner/repo`.
    GoTo(RepoRef),
    /// No project matches and the query is not a valid repo path.
    Hint,
}

/// A project matches a (lower-cased) needle when its lower-cased
/// `owner/name` display string contains it.
pub open spec fn project_matches(p: Project, needle: Seq<char>) -> bool {
    contains(lower(repo_display(p.repo.owner@, p.repo.name@)), needle)
}

/// The projects of `ps` that match `needle`, in order.
pub open spec fn matching(ps: Seq<Project>, needle: Seq<char>) -> Seq<Project>
    decreases ps.len(),
{
    if ps.len() == 0 {
        Seq::empty()
    } else {
        let rest = matching(ps.drop_last(), needle);
        if project_matches(ps.last(), needle) {
            rest.push(ps.last())
        } else {
            rest
        }
    }
}

/// The projects a query shows: all of them for an empty or whitespace-only
/// query, else those whose display string contains the trimmed query,
/// compared case-insensitively (ASCII).
pub open spec fn home_matches(query: Seq<char>, ps: Seq<Project>) -> Seq<Project> {
    let t = trim(query);
    if t.len() == 0 {
        ps
    } else {
        matching(ps, lower(t))
    }
}

/// `r` is what the home screen shows for `query` over `ps`: the matching
/// projects when there are any, else "Go to" for a valid `owner/repo`, else
/// the hint.
pub open spec fn filtered_as(query: Seq<char>, ps: Seq<Project>, r: HomeFilter) -> bool {
    match r {
        HomeFilter::Filtered(m) => m@ == home_matches(query, ps) && m@.len() > 0,
        HomeFilter::GoTo(repo) => home_matches(query, ps).len() == 0 && repo_parse(query) == Ok::<
            (Seq<char>, Seq<char>),
            RepoFault,
        >((repo.owner@, repo.name@)),
        HomeFilter::Hint => home_matches(query, ps).len() == 0 && repo_parse(query) is Err,
    }
}

/// Decide what the home screen shows for `query` over the discovered `projects`.
///
/// Matching is a case-insensitive substring test on each project's
/// `owner/name` display string. An empty or whitespace-only query matches
/// every project, so the default view lists all discovered projects.
pub fn filter_home(query: &str, projects: &[Project]) -> (r: HomeFilter)
    ensures
        filtered_as(query@, projects@, r),
{
    let trimmed = trim_vec(&chars_of(query));
    let mut matches: Vec<Project> = Vec::new();
    if trimmed.len() == 0 {
        let mut i: usize = 0;
        while i < projects.len()
            invariant
                i <= projects.len(),
                matches@ == projects@.take(i as int),
            decreases projects.len() - i,
        {
            matches.push(projects[i].clone());
            assert(projects@.take(i + 1) =~= projects@.take(i as int).push(projects@[i as int]));
            i += 1;
        }
        assert(projects@.take(projects.len() as int) =~= projects@);
    } else {
        let needle = lower_vec(&trimmed);
        let mut i: usize = 0;
        while i < projects.len()
            invariant
                i <= projects.len(),
                needle@ == lower(trim(query@)),
                matches@ == matching(projects@.take(i as int), needle@),
            decreases projects.len() - i,
        {
            let p = &projects[i];
            let shown = p.repo.full_name();
            let hay = lower_vec(&chars_of(shown.as_str()));
            let hit = find_exec(&hay, &needle, 0).is_some();
            assert(projects@.take(i + 1).drop_last() =~= projects@.take(i as int));
            if hit {
                matches.push(p.clone());
            }
            i += 1;
        }
        assert(projects@.take(projects.len() as int) =~= projects@);
    }
    if matches.len() > 0 {
        return HomeFilter::Filtered(matches);
    }
    match RepoRef::parse(query) {
        Ok(repo) => HomeFilter::GoTo(repo),
        Err(_) => HomeFilter::Hint,
    }
}

/// Every project that `matching` keeps matches the needle, and every
/// matching project of the input is kept.
pub proof fn lemma_matching(ps: Seq<Project>, needle: Seq<char>)
    ensures
        forall|k: int|
            0 <= k < matching(ps, needle).len() ==> project_matches(
                #[trigger] matching(ps, needle)[k],
                needle,
            ),
        forall|k: int|
            0 <= k < ps.len() && project_matches(#[trigger] ps[k], needle) ==> matching(
                ps,
                needle,
            ).contains(ps[k]),
    decreases ps.len(),
{
    if ps.len() > 0 {
        let rest = ps.drop_last();
        lemma_matching(rest, needle);
        assert forall|k: int|
            0 <= k < ps.len() && project_matches(#[trigger] ps[k], needle) implies matching(
            ps,
            needle,
        ).contains(ps[k]) by {
            if k < ps.len() - 1 {
                assert(rest[k] == ps[k]);
                let j = choose|j: int| 0 <= j < matching(rest, needle).len() && matching(rest, needle)[j] == rest[k];
                if project_matches(ps.last(), needle) {
                    assert(matching(ps, needle)[j] == ps[k]);
                }
            } else {
                let m = matching(ps, needle);
                assert(m[m.len() - 1] == ps[k]);
            }
        }
    }
}

/// The "Go to" action is gated: whenever a discovered project matches a
/// non-blank query, the query shows that project and offers no "Go to".
pub proof fn law_goto_only_without_matches(query: Seq<char>, ps: Seq<Project>, k: int)
    requires
        0 <= k < ps.len(),
        trim(query).len() > 0,
        project_matches(ps[k], lower(trim(query))),
    ensures
        home_matches(query, ps).contains(ps[k]),
        home_matches(query, ps).len() > 0,
{
    lemma_matching(ps, lower(trim(query)));
}

/// A blank query shows every discovered project, in order.
pub proof fn law_blank_query_shows_all(query: Seq<char>, ps: Seq<Project>)
    requires
        trim(query).len() == 0,
    ensures
        home_matches(query, ps) == ps,
{
}

/// Matching ignores ASCII case on both sides: a project whose `owner/name`
/// contains the trimmed query as typed is shown, and two queries that differ
/// only in ASCII case show the same projects.
pub proof fn law_matching_ignores_case(query: Seq<char>, other: Seq<char>, ps: Seq<Project>, k: int)
    requires
        0 <= k < ps.len(),
    ensures
        trim(query).len() > 0 && contains(repo_display(ps[k].repo.owner@, ps[k].repo.name@), trim(query))
            ==> home_matches(query, ps).contains(ps[k]),
        trim(query).len() > 0 && trim(other).len() > 0 && lower(trim(query)) == lower(trim(other))
            ==> home_matches(query, ps) == home_matches(other, ps),
{
    let t = trim(query);
    let d = repo_display(ps[k].repo.owner@, ps[k].repo.name@);
    if t.len() > 0 && contains(d, t) {
        lemma_find_from(d, t, 0);
        let j = find(d, t)->0;
        assert(lower(d).subrange(j, j + t.len()) =~= lower(t)) by {
            assert(d.subrange(j, j + t.len()) == t);
            assert forall|q: int| 0 <= q < t.len() implies lower(d).subrange(j, j + t.len())[q]
                == lower(t)[q] by {
                assert(d[j + q] == t[q]);
            }
        }
        assert(matches_at(lower(d), lower(t), j));
        lemma_find_from(lower(d), lower(t), 0);
        law_goto_only_without_matches(query, ps, k);
    }
}

/// How many matching projects the home screen shows before "Show more".
pub const INITIAL_VISIBLE: usize = 6;

/// Whether some project of `ps` is repository `r`.
pub open spec fn discovered(ps: Seq<Project>, r: RepoRef) -> bool {
    exists|k: int| 0 <= k < ps.len() && repo_facts(#[trigger] ps[k].repo) == repo_facts(r)
}

/// The summoned repositories that are not among the discovered projects, in order.
pub open spec fn summoned_only(ts: Seq<RepoRef>, ps: Seq<Project>) -> Seq<RepoRef>
    decreases ts.len(),
{
    if ts.len() == 0 {
        Seq::empty()
    } else {
        let r = summoned_only(ts.drop_last(), ps);
        if discovered(ps, ts.last()) {
            r
        } else {
            r.push(ts.last())
        }
    }
}

/// What the home screen lays out for a query.
#[derive(Debug, PartialEq, Eq)]
pub struct HomeLayout {
    /// What the query shows.
    pub outcome: HomeFilter,
    /// How many of the matching projects are visible.
    pub visible: usize,
    /// Whether "Show more" is offered.
    pub show_more: bool,
    /// The summoned repositories listed below the projects.
    pub summoned: Vec<RepoRef>,
    /// Whether the "No projects yet" placeholder shows.
    pub no_projects_yet: bool,
}

/// Whether some project of `ps` is repository `r`.
fn discovered_exec(ps: &[Project], r: &RepoRef) -> (b: bool)
    ensures
        b == discovered(ps@, *r),
{
    let mut i: usize = 0;
    while i < ps.len()
        invariant
            i <= ps.len(),
            forall|k: int| 0 <= k < i ==> repo_facts(#[trigger] ps@[k].repo) != repo_facts(*r),
        decreases ps.len() - i,
    {
        if same_repo(&ps[i].repo, r) {
            return true;
        }
        i += 1;
    }
    false
}

/// Lay out the home screen for `query` over the discovered `projects` and the
/// `summoned` repositories: up to [`INITIAL_VISIBLE`] matching projects until
/// the user asks for all, "Show more" when more match; under a blank query
/// the summoned repositories that were not discovered; and the "No projects
/// yet" placeholder when nothing was discovered and nothing is typed.
pub fn home_layout(query: &str, projects: &[Project], summoned: &[RepoRef], show_all: bool) -> (l: HomeLayout)
    ensures
        filtered_as(query@, projects@, l.outcome),
        l.visible == match l.outcome {
            HomeFilter::Filtered(m) => if show_all || m@.len() <= INITIAL_VISIBLE {
                m@.len() as int
            } else {
                INITIAL_VISIBLE as int
            },
            _ => 0,
        },
        l.show_more == (l.outcome matches HomeFilter::Filtered(m) && m@.len() > INITIAL_VISIBLE && !show_all),
        l.summoned@ == if l.outcome is Filtered && trim(query@).len() == 0 {
            summoned_only(summoned@, projects@)
        } else {
            Seq::empty()
        },
        l.no_projects_yet == (l.outcome is Hint && projects@.len() == 0 && trim(query@).len() == 0),
{
    let outcome = filter_home(query, projects);
    let blank = trim_vec(&chars_of(query)).len() == 0;
    let (visible, show_more) = match &outcome {
        HomeFilter::Filtered(m) => {
            if show_all || m.len() <= INITIAL_VISIBLE {
                (m.len(), false)
            } else {
                (INITIAL_VISIBLE, true)
            }
        },
        _ => (0, false),
    };
    let mut shown: Vec<RepoRef> = Vec::new();
    if outcome.is_filtered() && blank {
        let mut i: usize = 0;
        while i < summoned.len()
            invariant
                i <= summoned.len(),
                shown@ == summoned_only(summoned@.take(i as int), projects@),
            decreases summoned.len() - i,
        {
            assert(summoned@.take(i + 1).drop_last() =~= summoned@.take(i as int));
            if !discovered_exec(projects, &summoned[i]) {
                shown.push(summoned[i].clone());
            }
            i += 1;
        }
        assert(summoned@.take(summoned.len() as int) =~= summoned@);
    }
    let no_projects_yet = matches!(outcome, HomeFilter::Hint) && projects.len() == 0 && blank;
    HomeLayout { outcome, visible, show_more, summoned: shown, no_projects_yet }
}

impl HomeFilter {
    /// Whether the query shows matching projects.
    pub fn is_filtered(&self) -> (b: bool)
        ensures
            b == (*self is Filtered),
    {
        matches!(self, HomeFilter::Filtered(_))
    }
}

} // verus!
