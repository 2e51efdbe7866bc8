//! The board use-case logic: classifying a raw issue set into Slices, PRDs
//! and other issues, merging a delta into a retained issue set, and deciding
//! whether a refresh changes anything.

use std::collections::{HashMap, HashSet};

use vstd::prelude::*;

use crate::classification::{
    blockers_from_body, body_text, classification_of, classify_issue, issue_views,
    parent_from_body, parse_blockers_from_body, parse_parent_from_body, IssueClassification,
    RawIssue, RawIssueView,
};
use crate::prd::{AgentRef, Prd, PrdRef};
use crate::slice::{
    raw_views, resolve_unblocks, slice_of, unblocks_at, DependencyRef, RawSlice,
    RawSliceView, Slice,
};
use crate::lane::views;

verus! {

broadcast use vstd::std_specs::hash::group_hash_axioms;

/// An issue that is not a confirmed Slice or PRD, shown in the "other open
/// issues" section with its suggestion (if any).
#[derive(Debug, PartialEq, Eq)]
pub struct OtherIssue {
    pub number: u64,
    pub title: String,
    /// The issue's URL on GitHub, for opening it in a browser.
    pub url: String,
    /// `SuggestedPrd`, `SuggestedSlice`, or `Unclassified`.
    pub classification: IssueClassification,
}

impl Clone for OtherIssue {
    fn clone(&self) -> (r: Self)
        ensures
            r == *self,
    {
        OtherIssue {
            number: self.number,
            title: self.title.clone(),
            url: self.url.clone(),
            classification: self.classification,
        }
    }
}

/// The result of classifying all open issues of a project.
#[derive(Debug, PartialEq, Eq)]
pub struct ClassifiedBoard {
    /// Tier-1 Slices with their derived state and reverse edges.
    pub slices: Vec<Slice>,
    /// Tier-1 PRDs.
    pub prds: Vec<Prd>,
    /// Suggested and unclassified issues.
    pub other: Vec<OtherIssue>,
    /// The Agents that can currently be assigned on this repository.
    pub agents: Vec<AgentRef>,
}

impl Clone for ClassifiedBoard {
    fn clone(&self) -> (r: Self)
        ensures
            views(r.slices@) == views(self.slices@),
            r.prds@ == self.prds@,
            r.other@ == self.other@,
            r.agents@ == self.agents@,
    {
        let r = ClassifiedBoard {
            slices: self.slices.clone(),
            prds: self.prds.clone(),
            other: self.other.clone(),
            agents: self.agents.clone(),
        };
        assert(views(r.slices@) =~= views(self.slices@));
        assert(r.prds@ =~= self.prds@);
        assert(r.other@ =~= self.other@);
        assert(r.agents@ =~= self.agents@);
        r
    }
}

/// The identity of each open issue of `s`: its number mapped to its
/// reference (a later issue with the same number replaces an earlier one).
pub open spec fn open_refs(s: Seq<RawIssueView>) -> Map<u64, PrdRef>
    decreases s.len(),
{
    if s.len() == 0 {
        Map::empty()
    } else {
        let m = open_refs(s.drop_last());
        let x = s.last();
        if x.closed {
            m
        } else {
            m.insert(x.number, PrdRef { number: x.number, title: x.title, url: x.url })
        }
    }
}

/// The numbers of the open issues of `s`.
pub open spec fn open_numbers(s: Seq<RawIssueView>) -> Set<u64> {
    open_refs(s).dom()
}

/// The badge reference for issue `n`, if it is an open issue of the board.
pub open spec fn dependency_ref_of(n: u64, refs: Map<u64, PrdRef>) -> Option<DependencyRef> {
    if refs.contains_key(n) {
        Some(DependencyRef { number: n, title: refs[n].title, url: refs[n].url })
    } else {
        None
    }
}

/// The badge references of the candidates that are open issues of the
/// board, in order.
pub open spec fn resolved_blockers(cands: Seq<u64>, open: Set<u64>, refs: Map<u64, PrdRef>) -> Seq<
    DependencyRef,
>
    decreases cands.len(),
{
    if cands.len() == 0 {
        Seq::empty()
    } else {
        let r = resolved_blockers(cands.drop_last(), open, refs);
        let c = cands.last();
        if open.contains(c) && dependency_ref_of(c, refs) is Some {
            r.push(dependency_ref_of(c, refs)->0)
        } else {
            r
        }
    }
}

/// The parent number a Slice claims: its native parent, else the prose one.
pub open spec fn parent_candidate(raw: RawIssueView) -> Option<u64> {
    match raw.native_parent {
        Some(p) => Some(p),
        None => parent_from_body(body_text(raw.body)),
    }
}

/// The raw Slice a confirmed Slice issue becomes on a board with the given
/// open issues: its PRD and blockers resolved against them, no reverse edges yet.
pub open spec fn raw_slice_of(raw: RawIssueView, refs: Map<u64, PrdRef>) -> RawSliceView {
    RawSliceView {
        number: raw.number,
        title: raw.title,
        url: raw.url,
        closed: false,
        prd: match parent_candidate(raw) {
            Some(p) => if refs.contains_key(p) {
                Some(refs[p])
            } else {
                None
            },
            None => None,
        },
        assignee: raw.assignee,
        assignee_avatar_url: raw.assignee_avatar_url,
        linked_prs: raw.linked_prs,
        blockers: if raw.native_blockers.len() > 0 {
            resolved_blockers(raw.native_blockers, refs.dom(), refs)
        } else {
            resolved_blockers(blockers_from_body(body_text(raw.body)), refs.dom(), refs)
        },
        unblocks: Seq::empty(),
    }
}

/// The three buckets of the open issues of `s`, in input order: raw Slices,
/// PRDs and other issues, resolved against `refs`.
pub open spec fn board_parts(s: Seq<RawIssueView>, refs: Map<u64, PrdRef>) -> (
    Seq<RawSliceView>,
    Seq<Prd>,
    Seq<OtherIssue>,
)
    decreases s.len(),
{
    if s.len() == 0 {
        (Seq::empty(), Seq::empty(), Seq::empty())
    } else {
        let p = board_parts(s.drop_last(), refs);
        let x = s.last();
        if x.closed {
            p
        } else {
            match classification_of(x) {
                IssueClassification::Slice => (p.0.push(raw_slice_of(x, refs)), p.1, p.2),
                IssueClassification::Prd => (p.0, p.1.push(Prd { number: x.number, title: x.title }), p.2),
                c => (
                    p.0,
                    p.1,
                    p.2.push(OtherIssue { number: x.number, title: x.title, url: x.url, classification: c }),
                ),
            }
        }
    }
}

/// The board's Slices: each raw Slice with its reverse edge across the
/// board and its derived state.
pub open spec fn board_slices(s: Seq<RawIssueView>) -> Seq<crate::slice::SliceView> {
    let raws = board_parts(s, open_refs(s)).0;
    Seq::new(
        raws.len(),
        |i: int| slice_of(RawSliceView { unblocks: unblocks_at(raws, i), ..raws[i] }),
    )
}

/// Resolve an issue number to its badge reference against the board's open
/// issues. Numbers absent from the board yield `None`, so they show no badge.
fn dependency_ref(number: u64, issue_by_number: &HashMap<u64, PrdRef>) -> (r: Option<DependencyRef>)
    ensures
        r == dependency_ref_of(number, issue_by_number@),
{
    match issue_by_number.get(&number) {
        Some(prd) => Some(DependencyRef { number, title: prd.title.clone(), url: prd.url.clone() }),
        None => None,
    }
}

/// Resolve a Slice's candidate blocker numbers (native or prose) into badge
/// references, keeping only blockers still open in this board, so a closed
/// or unknown blocker never makes a Slice look Blocked.
fn resolve_open_blockers(
    candidates: &Vec<u64>,
    open_numbers: &HashSet<u64>,
    issue_by_number: &HashMap<u64, PrdRef>,
) -> (r: Vec<DependencyRef>)
    ensures
        r@ == resolved_blockers(candidates@, open_numbers@, issue_by_number@),
{
    let mut r: Vec<DependencyRef> = Vec::new();
    let mut i: usize = 0;
    while i < candidates.len()
        invariant
            i <= candidates.len(),
            r@ == resolved_blockers(candidates@.take(i as int), open_numbers@, issue_by_number@),
        decreases candidates.len() - i,
    {
        let c = candidates[i];
        assert(candidates@.take(i + 1).drop_last() =~= candidates@.take(i as int));
        if open_numbers.contains(&c) {
            match dependency_ref(c, issue_by_number) {
                Some(d) => r.push(d),
                None => {},
            }
        }
        i += 1;
    }
    assert(candidates@.take(candidates.len() as int) =~= candidates@);
    r
}

/// Pure projection from a raw issue set and the discovered Agents to a
/// classified board.
///
/// Closed issues are omitted. A confirmed Slice's PRD comes from its native
/// parent link, else from its body's `## Parent` section, resolved against
/// the board's open issues; its blockers come from its native links when it
/// has any, else from its body's `## Blocked by` section, keeping only open
/// ones. The reverse "unblocks" edges are then derived across the board and
/// each Slice's state is derived.
pub fn classify(raw_issues: &[RawIssue], agents: &[AgentRef]) -> (b: ClassifiedBoard)
    ensures
        views(b.slices@) == board_slices(issue_views(raw_issues@)),
        b.prds@ == board_parts(issue_views(raw_issues@), open_refs(issue_views(raw_issues@))).1,
        b.other@ == board_parts(issue_views(raw_issues@), open_refs(issue_views(raw_issues@))).2,
        b.agents@ == agents@,
{
    let ghost rs = issue_views(raw_issues@);
    let mut open: HashSet<u64> = HashSet::new();
    let mut refs: HashMap<u64, PrdRef> = HashMap::new();
    let mut i: usize = 0;
    while i < raw_issues.len()
        invariant
            i <= raw_issues.len(),
            rs == issue_views(raw_issues@),
            refs@ == open_refs(rs.take(i as int)),
            open@ == refs@.dom(),
        decreases raw_issues.len() - i,
    {
        let raw = &raw_issues[i];
        assert(rs.take(i + 1).drop_last() =~= rs.take(i as int));
        assert(rs.take(i + 1).last() == raw@);
        if !raw.closed {
            open.insert(raw.number);
            refs.insert(
                raw.number,
                PrdRef { number: raw.number, title: raw.title.clone(), url: raw.url.clone() },
            );
        }
        proof {
            assert(open@ =~= refs@.dom());
        }
        i += 1;
    }
    assert(rs.take(raw_issues.len() as int) =~= rs);
    let ghost m = refs@;
    let mut slices: Vec<RawSlice> = Vec::new();
    let mut prds: Vec<Prd> = Vec::new();
    let mut other: Vec<OtherIssue> = Vec::new();
    let mut i: usize = 0;
    while i < raw_issues.len()
        invariant
            i <= raw_issues.len(),
            rs == issue_views(raw_issues@),
            m == open_refs(rs),
            refs@ == m,
            open@ == m.dom(),
            raw_views(slices@) == board_parts(rs.take(i as int), m).0,
            prds@ == board_parts(rs.take(i as int), m).1,
            other@ == board_parts(rs.take(i as int), m).2,
        decreases raw_issues.len() - i,
    {
        let raw = &raw_issues[i];
        assert(rs.take(i + 1).drop_last() =~= rs.take(i as int));
        assert(rs.take(i + 1).last() == raw@);
        if !raw.closed {
            match classify_issue(raw) {
                IssueClassification::Slice => {
                    let rs_slice = slice_from_issue(raw, &open, &refs);
                    let ghost before = slices@;
                    slices.push(rs_slice);
                    assert(raw_views(slices@) =~= raw_views(before).push(raw_slice_of(raw@, m)));
                },
                IssueClassification::Prd => {
                    prds.push(Prd { number: raw.number, title: raw.title.clone() });
                },
                c => {
                    other.push(
                        OtherIssue {
                            number: raw.number,
                            title: raw.title.clone(),
                            url: raw.url.clone(),
                            classification: c,
                        },
                    );
                },
            }
        }
        i += 1;
    }
    assert(rs.take(raw_issues.len() as int) =~= rs);
    let ghost parts = raw_views(slices@);
    resolve_unblocks(&mut slices);
    let ghost resolved = slices@;
    let mut out: Vec<Slice> = Vec::new();
    let mut k: usize = 0;
    while k < slices.len()
        invariant
            k <= slices.len(),
            slices@ == resolved,
            resolved.len() == parts.len(),
            forall|j: int|
                0 <= j < parts.len() ==> #[trigger] resolved[j]@ == (RawSliceView {
                    unblocks: unblocks_at(parts, j),
                    ..parts[j]
                }),
            views(out@) == Seq::new(
                k as nat,
                |j: int| slice_of(RawSliceView { unblocks: unblocks_at(parts, j), ..parts[j] }),
            ),
        decreases slices.len() - k,
    {
        let s = slices[k].clone().into_slice();
        assert(resolved[k as int]@ == (RawSliceView {
            unblocks: unblocks_at(parts, k as int),
            ..parts[k as int]
        }));
        let ghost before = out@;
        out.push(s);
        assert(views(out@) =~= views(before).push(s@));
        assert(views(out@) =~= Seq::new(
            (k + 1) as nat,
            |j: int| slice_of(RawSliceView { unblocks: unblocks_at(parts, j), ..parts[j] }),
        ));
        k += 1;
    }
    let mut agents_out: Vec<AgentRef> = Vec::new();
    let mut a: usize = 0;
    while a < agents.len()
        invariant
            a <= agents.len(),
            agents_out@ == agents@.take(a as int),
        decreases agents.len() - a,
    {
        agents_out.push(agents[a].clone());
        assert(agents@.take(a + 1) =~= agents@.take(a as int).push(agents@[a as int]));
        a += 1;
    }
    assert(agents@.take(agents.len() as int) =~= agents@);
    ClassifiedBoard { slices: out, prds, other, agents: agents_out }
}

/// The raw Slice that a confirmed Slice issue becomes on this board.
fn slice_from_issue(
    raw: &RawIssue,
    open_numbers: &HashSet<u64>,
    issue_by_number: &HashMap<u64, PrdRef>,
) -> (r: RawSlice)
    requires
        open_numbers@ == issue_by_number@.dom(),
    ensures
        r@ == raw_slice_of(raw@, issue_by_number@),
{
    let body: &str = match &raw.body {
        Some(b) => b.as_str(),
        None => "",
    };
    proof {
        reveal_strlit("");
        assert(body@ == body_text(raw.body));
    }
    let blockers = if raw.native_blockers.len() > 0 {
        resolve_open_blockers(&raw.native_blockers, open_numbers, issue_by_number)
    } else {
        let prose = parse_blockers_from_body(body);
        resolve_open_blockers(&prose, open_numbers, issue_by_number)
    };
    let parent: Option<u64> = match raw.native_parent {
        Some(p) => Some(p),
        None => parse_parent_from_body(body),
    };
    let prd: Option<PrdRef> = match parent {
        Some(p) => match issue_by_number.get(&p) {
            Some(r) => Some(r.clone()),
            None => None,
        },
        None => None,
    };
    RawSlice {
        number: raw.number,
        title: raw.title.clone(),
        url: raw.url.clone(),
        closed: false,
        prd,
        assignee: raw.assignee.clone(),
        assignee_avatar_url: raw.assignee_avatar_url.clone(),
        linked_prs: raw.linked_prs.clone(),
        blockers,
        unblocks: Vec::new(),
    }
}

} // verus!
