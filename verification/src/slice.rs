//! Slices: the board's unit of work, their derived state, the reverse
//! "unblocks" edges across a board, and the at-a-glance state counts.

use vstd::prelude::*;

use crate::pr::PrStatus;
use crate::prd::PrdRef;

verus! {

/// The derived state of a Slice. Precedence among active states is
/// Blocked > WIP > Ready; `Done` (a closed Slice) is hidden from the board.
#[derive(Clone, Copy, Debug, PartialEq, Eq, Hash, Structural)]
pub enum SliceState {
    /// Blockers all closed, no open linked PR, and no assignee.
    Ready,
    /// An open Pull Request is linked to the Slice, or an assignee has claimed it.
    Wip,
    /// At least one open "blocked by" dependency.
    Blocked,
    /// A closed Slice. Hidden from the active board.
    Done,
}

impl SliceState {
    /// Board column order, left to right; `Done` is not a column.
    pub fn board() -> (cols: [SliceState; 3])
        ensures
            cols@ == seq![SliceState::Ready, SliceState::Wip, SliceState::Blocked],
    {
        let cols = [SliceState::Ready, SliceState::Wip, SliceState::Blocked];
        assert(cols@ =~= seq![SliceState::Ready, SliceState::Wip, SliceState::Blocked]);
        cols
    }
}

/// A reference to a related issue: a blocker, or an issue this Slice unblocks.
#[derive(Debug, PartialEq, Eq)]
pub struct DependencyRef {
    /// The referenced GitHub issue number.
    pub number: u64,
    /// The referenced issue's title, shown as the badge tooltip.
    pub title: String,
    /// The referenced issue's URL on GitHub.
    pub url: String,
}

impl Clone for DependencyRef {
    fn clone(&self) -> (r: Self)
        ensures
            r == *self,
    {
        DependencyRef { number: self.number, title: self.title.clone(), url: self.url.clone() }
    }
}

/// A reference to an open Pull Request that closes a Slice's issue.
#[derive(Debug, PartialEq, Eq)]
pub struct LinkedPrRef {
    /// The referenced GitHub Pull Request number.
    pub number: u64,
    /// The PR author's login; `None` when GitHub cannot resolve an author.
    pub author: Option<String>,
    /// The PR's title, shown as the badge tooltip.
    pub title: String,
    /// The PR's URL on GitHub.
    pub url: String,
    /// The review-lifecycle stage of this PR.
    pub pr_status: PrStatus,
    /// The PR conflicts with its base branch and needs a manual merge.
    pub conflicts: bool,
    /// The PR's latest CI check rollup failed.
    pub ci_failing: bool,
    /// How many review comments are still unresolved.
    pub unresolved_comment_count: u32,
}

impl Clone for LinkedPrRef {
    fn clone(&self) -> (r: Self)
        ensures
            r == *self,
    {
        LinkedPrRef {
            number: self.number,
            author: self.author.clone(),
            title: self.title.clone(),
            url: self.url.clone(),
            pr_status: self.pr_status,
            conflicts: self.conflicts,
            ci_failing: self.ci_failing,
            unresolved_comment_count: self.unresolved_comment_count,
        }
    }
}

/// "Ready to merge": approved, with no blocking merge-health decoration.
pub open spec fn ready_to_merge(pr: LinkedPrRef) -> bool {
    pr.pr_status == PrStatus::Approved && !pr.conflicts && !pr.ci_failing
        && pr.unresolved_comment_count == 0
}

impl LinkedPrRef {
    /// The PR is approved and carries no conflicts, failing CI or unresolved
    /// comments, so its headline reads "Ready to merge".
    pub fn is_ready_to_merge(&self) -> (r: bool)
        ensures
            r == ready_to_merge(*self),
    {
        matches!(self.pr_status, PrStatus::Approved) && !self.conflicts && !self.ci_failing
            && self.unresolved_comment_count == 0
    }
}

/// Position of a review stage on the lifecycle axis, furthest from done
/// first: `Draft < AwaitingReview < ChangesRequested < Approved`.
pub open spec fn stage_rank(status: PrStatus) -> int {
    match status {
        PrStatus::Draft => 0,
        PrStatus::AwaitingReview => 1,
        PrStatus::ChangesRequested => 2,
        PrStatus::Approved => 3,
    }
}

/// The lifecycle position of a review stage.
fn stage_rank_exec(status: PrStatus) -> (r: u8)
    ensures
        r == stage_rank(status),
{
    match status {
        PrStatus::Draft => 0,
        PrStatus::AwaitingReview => 1,
        PrStatus::ChangesRequested => 2,
        PrStatus::Approved => 3,
    }
}

/// The index of the Best PR among `prs`: the one furthest along the review
/// lifecycle, the last of equals (as `Iterator::max_by_key` picks it).
pub open spec fn best_pr_index(prs: Seq<LinkedPrRef>) -> int
    decreases prs.len(),
{
    if prs.len() <= 1 {
        0
    } else {
        let b = best_pr_index(prs.drop_last());
        if stage_rank(prs.last().pr_status) >= stage_rank(prs[b].pr_status) {
            prs.len() - 1
        } else {
            b
        }
    }
}

/// The Best PR lies within the PRs, no PR is further along, and every later
/// PR is strictly behind it.
pub proof fn law_best_pr_is_furthest_along(prs: Seq<LinkedPrRef>)
    requires
        prs.len() > 0,
    ensures
        0 <= best_pr_index(prs) < prs.len(),
        forall|k: int|
            0 <= k < prs.len() ==> stage_rank(#[trigger] prs[k].pr_status) <= stage_rank(
                prs[best_pr_index(prs)].pr_status,
            ),
        forall|k: int|
            best_pr_index(prs) < k < prs.len() ==> stage_rank(#[trigger] prs[k].pr_status) < stage_rank(
                prs[best_pr_index(prs)].pr_status,
            ),
    decreases prs.len(),
{
    if prs.len() > 1 {
        let init = prs.drop_last();
        law_best_pr_is_furthest_along(init);
        assert forall|k: int| 0 <= k < prs.len() - 1 implies prs[k] == init[k] by {}
    }
}

/// A read model of a GitHub issue that is a Slice of a PRD.
#[derive(Debug, PartialEq, Eq)]
pub struct Slice {
    /// The GitHub issue number.
    pub number: u64,
    pub title: String,
    /// The issue's URL on GitHub.
    pub url: String,
    /// The PRD this Slice belongs to, when known.
    pub prd: Option<PrdRef>,
    /// GitHub login of the assignee, when assigned.
    pub assignee: Option<String>,
    /// Avatar URL of the assignee, when assigned and available.
    pub assignee_avatar_url: Option<String>,
    pub state: SliceState,
    /// The still-open issues this Slice is blocked by.
    pub blockers: Vec<DependencyRef>,
    /// The issues this Slice unblocks (the reverse "blocked by" edge).
    pub unblocks: Vec<DependencyRef>,
    /// The open Pull Requests linked to this Slice.
    pub linked_prs: Vec<LinkedPrRef>,
}

/// The abstract value of a [`Slice`]: its lists as sequences.
pub struct SliceView {
    pub number: u64,
    pub title: String,
    pub url: String,
    pub prd: Option<PrdRef>,
    pub assignee: Option<String>,
    pub assignee_avatar_url: Option<String>,
    pub state: SliceState,
    pub blockers: Seq<DependencyRef>,
    pub unblocks: Seq<DependencyRef>,
    pub linked_prs: Seq<LinkedPrRef>,
}

impl View for Slice {
    type V = SliceView;

    open spec fn view(&self) -> SliceView {
        SliceView {
            number: self.number,
            title: self.title,
            url: self.url,
            prd: self.prd,
            assignee: self.assignee,
            assignee_avatar_url: self.assignee_avatar_url,
            state: self.state,
            blockers: self.blockers@,
            unblocks: self.unblocks@,
            linked_prs: self.linked_prs@,
        }
    }
}

impl Clone for Slice {
    fn clone(&self) -> (r: Self)
        ensures
            r@ == self@,
    {
        let r = Slice {
            number: self.number,
            title: self.title.clone(),
            url: self.url.clone(),
            prd: self.prd.clone(),
            assignee: self.assignee.clone(),
            assignee_avatar_url: self.assignee_avatar_url.clone(),
            state: self.state,
            blockers: self.blockers.clone(),
            unblocks: self.unblocks.clone(),
            linked_prs: self.linked_prs.clone(),
        };
        assert(r.blockers@ =~= self.blockers@);
        assert(r.unblocks@ =~= self.unblocks@);
        assert(r.linked_prs@ =~= self.linked_prs@);
        r
    }
}

/// Raw, GitHub-shaped facts about a single Slice issue, before its state is derived.
#[derive(Debug, PartialEq, Eq)]
pub struct RawSlice {
    /// The GitHub issue number.
    pub number: u64,
    pub title: String,
    /// The issue's URL on GitHub.
    pub url: String,
    /// `true` when the issue is closed; a closed Slice is Done and hidden.
    pub closed: bool,
    /// The PRD this Slice belongs to, when known.
    pub prd: Option<PrdRef>,
    /// GitHub login of the assignee, when assigned.
    pub assignee: Option<String>,
    /// Avatar URL of the assignee, when assigned and available.
    pub assignee_avatar_url: Option<String>,
    /// The open Pull Requests linked to the issue. Non-empty makes the Slice WIP.
    pub linked_prs: Vec<LinkedPrRef>,
    /// The still-open "blocked by" dependencies. Non-empty makes the Slice Blocked.
    pub blockers: Vec<DependencyRef>,
    /// The issues this Slice unblocks; empty until `resolve_unblocks` runs.
    pub unblocks: Vec<DependencyRef>,
}

/// The abstract value of a [`RawSlice`]: its lists as sequences.
pub struct RawSliceView {
    pub number: u64,
    pub title: String,
    pub url: String,
    pub closed: bool,
    pub prd: Option<PrdRef>,
    pub assignee: Option<String>,
    pub assignee_avatar_url: Option<String>,
    pub linked_prs: Seq<LinkedPrRef>,
    pub blockers: Seq<DependencyRef>,
    pub unblocks: Seq<DependencyRef>,
}

impl View for RawSlice {
    type V = RawSliceView;

    open spec fn view(&self) -> RawSliceView {
        RawSliceView {
            number: self.number,
            title: self.title,
            url: self.url,
            closed: self.closed,
            prd: self.prd,
            assignee: self.assignee,
            assignee_avatar_url: self.assignee_avatar_url,
            linked_prs: self.linked_prs@,
            blockers: self.blockers@,
            unblocks: self.unblocks@,
        }
    }
}

/// The views of a board of raw Slices.
pub open spec fn raw_views(board: Seq<RawSlice>) -> Seq<RawSliceView> {
    board.map_values(|r: RawSlice| r@)
}

impl Clone for RawSlice {
    fn clone(&self) -> (r: Self)
        ensures
            r@ == self@,
    {
        let r = RawSlice {
            number: self.number,
            title: self.title.clone(),
            url: self.url.clone(),
            closed: self.closed,
            prd: self.prd.clone(),
            assignee: self.assignee.clone(),
            assignee_avatar_url: self.assignee_avatar_url.clone(),
            linked_prs: self.linked_prs.clone(),
            blockers: self.blockers.clone(),
            unblocks: self.unblocks.clone(),
        };
        assert(r.blockers@ =~= self.blockers@);
        assert(r.unblocks@ =~= self.unblocks@);
        assert(r.linked_prs@ =~= self.linked_prs@);
        r
    }
}

/// The state a raw Slice derives: closed is Done; otherwise Blocked > WIP > Ready.
pub open spec fn derived_state(raw: RawSliceView) -> SliceState {
    if raw.closed {
        SliceState::Done
    } else if raw.blockers.len() > 0 {
        SliceState::Blocked
    } else if raw.linked_prs.len() > 0 || raw.assignee is Some {
        SliceState::Wip
    } else {
        SliceState::Ready
    }
}

/// Each state, spelled out: Done exactly when closed; Blocked exactly when
/// open with an open blocker; WIP exactly when open, unblocked, and assigned
/// or with a linked PR; Ready exactly when open, unblocked, unassigned and
/// without linked PRs. The projected Slice keeps every other field.
pub proof fn law_state_derivation(raw: RawSliceView)
    ensures
        derived_state(raw) == SliceState::Done <==> raw.closed,
        derived_state(raw) == SliceState::Blocked <==> !raw.closed && raw.blockers.len() > 0,
        derived_state(raw) == SliceState::Wip <==> !raw.closed && raw.blockers.len() == 0 && (
        raw.assignee is Some || raw.linked_prs.len() > 0),
        derived_state(raw) == SliceState::Ready <==> !raw.closed && raw.blockers.len() == 0
            && raw.assignee is None && raw.linked_prs.len() == 0,
        slice_of(raw).number == raw.number && slice_of(raw).title == raw.title && slice_of(raw).url == raw.url,
        slice_of(raw).prd == raw.prd && slice_of(raw).assignee == raw.assignee,
        slice_of(raw).blockers == raw.blockers && slice_of(raw).unblocks == raw.unblocks,
        slice_of(raw).linked_prs == raw.linked_prs,
        slice_of(raw).state == derived_state(raw),
{
}

/// The Slice a raw Slice projects to: every field carried over, state derived.
pub open spec fn slice_of(raw: RawSliceView) -> SliceView {
    SliceView {
        number: raw.number,
        title: raw.title,
        url: raw.url,
        prd: raw.prd,
        assignee: raw.assignee,
        assignee_avatar_url: raw.assignee_avatar_url,
        state: derived_state(raw),
        blockers: raw.blockers,
        unblocks: raw.unblocks,
        linked_prs: raw.linked_prs,
    }
}

impl RawSlice {
    /// Project this raw issue into a [`Slice`] with its derived state.
    pub fn into_slice(self) -> (s: Slice)
        ensures
            s@ == slice_of(self@),
    {
        let state = self.derive_state();
        Slice {
            number: self.number,
            title: self.title,
            url: self.url,
            prd: self.prd,
            assignee: self.assignee,
            assignee_avatar_url: self.assignee_avatar_url,
            state,
            blockers: self.blockers,
            unblocks: self.unblocks,
            linked_prs: self.linked_prs,
        }
    }

    /// The pure state derivation: closed is `Done`; otherwise Blocked > WIP > Ready.
    pub fn derive_state(&self) -> (s: SliceState)
        ensures
            s == derived_state(self@),
    {
        if self.closed {
            return SliceState::Done;
        }
        if self.blockers.len() > 0 {
            return SliceState::Blocked;
        }
        if self.linked_prs.len() > 0 || self.assignee.is_some() {
            return SliceState::Wip;
        }
        SliceState::Ready
    }
}

/// A closed Slice is Done, whatever its blockers, PRs or assignee say.
pub proof fn law_closed_is_done(raw: RawSliceView)
    requires
        raw.closed,
    ensures
        derived_state(raw) == SliceState::Done,
{
}

/// An open Slice with an open blocker is Blocked, whatever else holds.
pub proof fn law_blocked_outranks_wip(raw: RawSliceView)
    requires
        !raw.closed,
        raw.blockers.len() > 0,
    ensures
        derived_state(raw) == SliceState::Blocked,
{
}

/// The reference to a Slice that another Slice's reverse edge carries.
pub open spec fn dependent_ref(raw: RawSliceView) -> DependencyRef {
    DependencyRef { number: raw.number, title: raw.title, url: raw.url }
}

/// How many of `blockers` name issue `n`.
pub open spec fn blocker_hits(blockers: Seq<DependencyRef>, n: u64) -> nat
    decreases blockers.len(),
{
    if blockers.len() == 0 {
        0
    } else {
        blocker_hits(blockers.drop_last(), n) + if blockers.last().number == n {
            1nat
        } else {
            0nat
        }
    }
}

/// The Slices of `board` that list `n` as a blocker, in board order, once per
/// listing.
pub open spec fn dependents_of(board: Seq<RawSliceView>, n: u64) -> Seq<DependencyRef>
    decreases board.len(),
{
    if board.len() == 0 {
        Seq::empty()
    } else {
        dependents_of(board.drop_last(), n) + Seq::new(
            blocker_hits(board.last().blockers, n),
            |k: int| dependent_ref(board.last()),
        )
    }
}

/// Some Slice before index `i` of `board` carries the same number as `board[i]`.
pub open spec fn number_seen_before(board: Seq<RawSliceView>, i: int) -> bool {
    exists|k: int| 0 <= k < i && board[k].number == board[i].number
}

/// The reverse edge that `resolve_unblocks` assigns to `board[i]`: its
/// dependents, or nothing when an earlier Slice with the same number already
/// took them.
pub open spec fn unblocks_at(board: Seq<RawSliceView>, i: int) -> Seq<DependencyRef> {
    if number_seen_before(board, i) {
        Seq::empty()
    } else {
        dependents_of(board, board[i].number)
    }
}

/// Collect the dependents of issue `n` across `board`, in board order.
fn collect_dependents(board: &Vec<RawSlice>, n: u64) -> (r: Vec<DependencyRef>)
    ensures
        r@ == dependents_of(raw_views(board@), n),
{
    let mut r: Vec<DependencyRef> = Vec::new();
    let mut j: usize = 0;
    while j < board.len()
        invariant
            j <= board.len(),
            r@ == dependents_of(raw_views(board@.take(j as int)), n),
        decreases board.len() - j,
    {
        let slice = &board[j];
        let dependent = DependencyRef {
            number: slice.number,
            title: slice.title.clone(),
            url: slice.url.clone(),
        };
        let ghost before = r@;
        let mut b: usize = 0;
        while b < slice.blockers.len()
            invariant
                j < board.len(),
                slice == board@[j as int],
                dependent == dependent_ref(slice@),
                b <= slice.blockers.len(),
                r@ == before + Seq::new(
                    blocker_hits(slice.blockers@.take(b as int), n),
                    |k: int| dependent_ref(slice@),
                ),
            decreases slice.blockers.len() - b,
        {
            proof {
                assert(slice.blockers@.take(b + 1).drop_last() =~= slice.blockers@.take(b as int));
            }
            if slice.blockers[b].number == n {
                r.push(dependent.clone());
            }
            b += 1;
            proof {
                assert(r@ =~= before + Seq::new(
                    blocker_hits(slice.blockers@.take(b as int), n),
                    |k: int| dependent_ref(slice@),
                ));
            }
        }
        proof {
            assert(slice.blockers@.take(slice.blockers.len() as int) =~= slice.blockers@);
            assert(raw_views(board@.take(j + 1)).drop_last() =~= raw_views(board@.take(j as int)));
            assert(raw_views(board@.take(j + 1)).last() == board@[j as int]@);
        }
        j += 1;
    }
    assert(board@.take(board.len() as int) =~= board@);
    r
}

/// Some Slice of `board` before index `i` has the same number as `board[i]`.
fn seen_before(board: &Vec<RawSlice>, i: usize) -> (r: bool)
    requires
        i < board.len(),
    ensures
        r == number_seen_before(raw_views(board@), i as int),
{
    let ghost v = raw_views(board@);
    let mut k: usize = 0;
    while k < i
        invariant
            i < board.len(),
            v == raw_views(board@),
            k <= i,
            forall|m: int| 0 <= m < k ==> board@[m].number != board@[i as int].number,
        decreases i - k,
    {
        if board[k].number == board[i].number {
            assert(v[k as int].number == v[i as int].number);
            return true;
        }
        k += 1;
    }
    assert forall|m: int| 0 <= m < i implies v[m].number != v[i as int].number by {
        assert(v[m] == board@[m]@);
    }
    false
}

/// Derive each Slice's reverse "unblocks" edge from the blocker edges across
/// the whole board: a Slice unblocks every Slice that lists it as a blocker,
/// in board order. Every other field is left as it was, and each Slice's
/// previous `unblocks` is replaced, so re-running never leaves stale edges.
pub fn resolve_unblocks(slices: &mut Vec<RawSlice>)
    ensures
        final(slices)@.len() == old(slices)@.len(),
        forall|i: int|
            0 <= i < old(slices)@.len() ==> #[trigger] final(slices)@[i]@ == (RawSliceView {
                unblocks: unblocks_at(raw_views(old(slices)@), i),
                ..old(slices)@[i]@
            }),
{
    let ghost initial = raw_views(slices@);
    let mut computed: Vec<Vec<DependencyRef>> = Vec::new();
    let mut i: usize = 0;
    while i < slices.len()
        invariant
            raw_views(slices@) == initial,
            i <= slices.len(),
            computed@.len() == i,
            forall|m: int| 0 <= m < i ==> #[trigger] computed@[m]@ == unblocks_at(initial, m),
        decreases slices.len() - i,
    {
        let deps = if seen_before(slices, i) {
            Vec::new()
        } else {
            collect_dependents(slices, slices[i].number)
        };
        proof {
            assert(initial[i as int].number == slices@[i as int].number);
        }
        computed.push(deps);
        i += 1;
    }
    let mut i: usize = 0;
    while i < slices.len()
        invariant
            slices@.len() == initial.len(),
            computed@.len() == initial.len(),
            i <= slices.len(),
            forall|m: int| 0 <= m < initial.len() ==> #[trigger] computed@[m]@ == unblocks_at(initial, m),
            forall|m: int|
                0 <= m < i ==> #[trigger] slices@[m]@ == (RawSliceView {
                    unblocks: unblocks_at(initial, m),
                    ..initial[m]
                }),
            forall|m: int| i <= m < slices@.len() ==> #[trigger] slices@[m]@ == initial[m],
        decreases slices.len() - i,
    {
        let mut deps: Vec<DependencyRef> = Vec::new();
        let mut k: usize = 0;
        while k < computed[i].len()
            invariant
                i < computed@.len(),
                k <= computed@[i as int].len(),
                deps@ == computed@[i as int]@.take(k as int),
            decreases computed@[i as int].len() - k,
        {
            deps.push(computed[i][k].clone());
            assert(computed@[i as int]@.take(k + 1) =~= computed@[i as int]@.take(k as int).push(
                computed@[i as int]@[k as int],
            ));
            k += 1;
        }
        assert(computed@[i as int]@.take(k as int) =~= computed@[i as int]@);
        let mut slice = slices[i].clone();
        slice.unblocks = deps;
        slices.set(i, slice);
        i += 1;
    }
}

/// The reverse edge a Slice receives depends only on the numbers, titles,
/// URLs and blocker edges of the board, never on any earlier `unblocks`; so
/// re-running `resolve_unblocks` on its own output changes nothing.
pub proof fn law_unblocks_depend_only_on_blockers(a: Seq<RawSliceView>, b: Seq<RawSliceView>, i: int)
    requires
        a.len() == b.len(),
        0 <= i < a.len(),
        forall|k: int| 0 <= k < a.len() ==> (#[trigger] a[k]).number == b[k].number && a[k].title
            == b[k].title && a[k].url == b[k].url && a[k].blockers == b[k].blockers,
    ensures
        unblocks_at(a, i) == unblocks_at(b, i),
{
    if number_seen_before(a, i) {
        let k = choose|k: int| 0 <= k < i && a[k].number == a[i].number;
        assert(b[k].number == b[i].number);
    }
    if number_seen_before(b, i) {
        let k = choose|k: int| 0 <= k < i && b[k].number == b[i].number;
        assert(a[k].number == a[i].number);
    }
    lemma_dependents_same(a, b, a[i].number);
}

/// Dependents depend only on numbers, titles, URLs and blockers.
proof fn lemma_dependents_same(a: Seq<RawSliceView>, b: Seq<RawSliceView>, n: u64)
    requires
        a.len() == b.len(),
        forall|k: int| 0 <= k < a.len() ==> (#[trigger] a[k]).number == b[k].number && a[k].title
            == b[k].title && a[k].url == b[k].url && a[k].blockers == b[k].blockers,
    ensures
        dependents_of(a, n) == dependents_of(b, n),
    decreases a.len(),
{
    if a.len() > 0 {
        let a2 = a.drop_last();
        let b2 = b.drop_last();
        assert forall|k: int| 0 <= k < a2.len() implies (#[trigger] a2[k]).number == b2[k].number
            && a2[k].title == b2[k].title && a2[k].url == b2[k].url && a2[k].blockers
            == b2[k].blockers by {
            assert(a[k] == a2[k]);
        }
        lemma_dependents_same(a2, b2, n);
        assert(a[a.len() - 1] == a.last());
        assert(dependent_ref(a.last()) == dependent_ref(b.last()));
        assert(Seq::new(blocker_hits(a.last().blockers, n), |k: int| dependent_ref(a.last()))
            =~= Seq::new(blocker_hits(b.last().blockers, n), |k: int| dependent_ref(b.last())));
    }
}

/// At-a-glance counts of the active board's Slices by state; `Done` is not counted.
#[derive(Clone, Copy, Debug, PartialEq, Eq, Default, Structural)]
pub struct BoardSummary {
    pub ready: usize,
    pub wip: usize,
    pub blocked: usize,
}

/// How many of `slices` are in state `st`.
pub open spec fn count_state(slices: Seq<Slice>, st: SliceState) -> nat
    decreases slices.len(),
{
    if slices.len() == 0 {
        0
    } else {
        count_state(slices.drop_last(), st) + if slices.last().state == st {
            1nat
        } else {
            0nat
        }
    }
}

/// A count never exceeds the number of Slices counted.
pub proof fn lemma_count_state_bound(slices: Seq<Slice>, st: SliceState)
    ensures
        count_state(slices, st) <= slices.len(),
    decreases slices.len(),
{
    if slices.len() > 0 {
        lemma_count_state_bound(slices.drop_last(), st);
    }
}

impl BoardSummary {
    /// Count the Slices in each board state, ignoring `Done` Slices.
    pub fn from_slices(slices: &[Slice]) -> (s: BoardSummary)
        ensures
            s.ready == count_state(slices@, SliceState::Ready),
            s.wip == count_state(slices@, SliceState::Wip),
            s.blocked == count_state(slices@, SliceState::Blocked),
    {
        let mut summary = BoardSummary { ready: 0, wip: 0, blocked: 0 };
        let mut i: usize = 0;
        while i < slices.len()
            invariant
                i <= slices.len(),
                summary.ready == count_state(slices@.take(i as int), SliceState::Ready),
                summary.wip == count_state(slices@.take(i as int), SliceState::Wip),
                summary.blocked == count_state(slices@.take(i as int), SliceState::Blocked),
            decreases slices.len() - i,
        {
            proof {
                let t = slices@.take(i + 1);
                assert(t.drop_last() =~= slices@.take(i as int));
                lemma_count_state_bound(slices@.take(i as int), SliceState::Ready);
                lemma_count_state_bound(slices@.take(i as int), SliceState::Wip);
                lemma_count_state_bound(slices@.take(i as int), SliceState::Blocked);
            }
            match slices[i].state {
                SliceState::Ready => summary.ready = summary.ready + 1,
                SliceState::Wip => summary.wip = summary.wip + 1,
                SliceState::Blocked => summary.blocked = summary.blocked + 1,
                SliceState::Done => {},
            }
            i += 1;
        }
        assert(slices@.take(slices.len() as int) =~= slices@);
        summary
    }

    /// The number of Slices shown on the active board (Ready + WIP + Blocked).
    pub fn total(&self) -> (t: usize)
        requires
            self.ready + self.wip + self.blocked <= usize::MAX,
        ensures
            t == self.ready + self.wip + self.blocked,
    {
        self.ready + self.wip + self.blocked
    }
}

/// The four state counts of a board add up to its size, so the summary's
/// total is the board minus its `Done` Slices.
pub proof fn law_summary_partitions_board(slices: Seq<Slice>)
    ensures
        count_state(slices, SliceState::Ready) + count_state(slices, SliceState::Wip)
            + count_state(slices, SliceState::Blocked) + count_state(slices, SliceState::Done)
            == slices.len(),
    decreases slices.len(),
{
    if slices.len() > 0 {
        law_summary_partitions_board(slices.drop_last());
    }
}

impl Slice {
    /// The Slice's Best PR, which drives its headline: the linked PR furthest
    /// along the review lifecycle, the last of equals; `None` without linked PRs.
    pub fn best_pr(&self) -> (r: Option<&LinkedPrRef>)
        ensures
            match r {
                None => self.linked_prs@.len() == 0,
                Some(pr) => self.linked_prs@.len() > 0 && *pr == self.linked_prs@[best_pr_index(
                    self.linked_prs@,
                )],
            },
    {
        if self.linked_prs.len() == 0 {
            return None;
        }
        let mut best: usize = 0;
        let mut i: usize = 1;
        while i < self.linked_prs.len()
            invariant
                1 <= i <= self.linked_prs.len(),
                best == best_pr_index(self.linked_prs@.take(i as int)),
                best < i,
            decreases self.linked_prs.len() - i,
        {
            proof {
                let t = self.linked_prs@.take(i + 1);
                assert(t.drop_last() =~= self.linked_prs@.take(i as int));
                assert(t[best as int] == self.linked_prs@[best as int]);
            }
            if stage_rank_exec(self.linked_prs[i].pr_status) >= stage_rank_exec(self.linked_prs[best].pr_status) {
                best = i;
            }
            i += 1;
        }
        assert(self.linked_prs@.take(self.linked_prs.len() as int) =~= self.linked_prs@);
        Some(&self.linked_prs[best])
    }
}

} // verus!
