//! PRD lanes: the board's swimlanes, and each lane's left-to-right
//! dependency layout.

use vstd::prelude::*;

use crate::prd::PrdRef;
use crate::slice::{Slice, SliceState, SliceView};

verus! {

/// One swimlane of the board: a PRD (or the "No PRD" group) and the Slices
/// that belong to it. The state columns are rendered within a lane by the
/// presentation layer; this read model only carries the grouping.
#[derive(Debug, PartialEq, Eq)]
pub struct PrdLane {
    /// The PRD owning this lane, or `None` for the trailing "No PRD" lane.
    pub prd: Option<PrdRef>,
    /// The Slices in this lane, in input order.
    pub slices: Vec<Slice>,
}

/// The views of a sequence of Slices.
pub open spec fn views(s: Seq<Slice>) -> Seq<SliceView> {
    s.map_values(|x: Slice| x@)
}

/// The lane key of a Slice: its PRD's number, or `None` for the "No PRD" lane.
pub open spec fn lane_key(s: SliceView) -> Option<u64> {
    match s.prd {
        Some(p) => Some(p.number),
        None => None,
    }
}

/// A Slice shows on the active board unless it is Done.
pub open spec fn active(s: SliceView) -> bool {
    s.state != SliceState::Done
}

/// The distinct PRD numbers of the active Slices, in first-seen order.
pub open spec fn lane_numbers(s: Seq<SliceView>) -> Seq<u64>
    decreases s.len(),
{
    if s.len() == 0 {
        Seq::empty()
    } else {
        let r = lane_numbers(s.drop_last());
        let x = s.last();
        if active(x) && x.prd is Some && !r.contains(x.prd->0.number) {
            r.push(x.prd->0.number)
        } else {
            r
        }
    }
}

/// The PRD reference of the first active Slice of PRD `n`.
pub open spec fn first_prd(s: Seq<SliceView>, n: u64) -> Option<PrdRef>
    decreases s.len(),
{
    if s.len() == 0 {
        None
    } else {
        let r = first_prd(s.drop_last(), n);
        let x = s.last();
        if r is Some {
            r
        } else if active(x) && lane_key(x) == Some(n) {
            x.prd
        } else {
            None
        }
    }
}

/// The active Slices with lane key `key`, in input order.
pub open spec fn lane_members(s: Seq<SliceView>, key: Option<u64>) -> Seq<SliceView>
    decreases s.len(),
{
    if s.len() == 0 {
        Seq::empty()
    } else {
        let r = lane_members(s.drop_last(), key);
        let x = s.last();
        if active(x) && lane_key(x) == key {
            r.push(x)
        } else {
            r
        }
    }
}

/// The number of lanes: one per PRD, plus the "No PRD" lane when it has Slices.
pub open spec fn lane_count(s: Seq<SliceView>) -> int {
    lane_numbers(s).len() + if lane_members(s, None).len() > 0 { 1int } else { 0int }
}

/// Lane `i` of the board: its PRD and its Slices.
pub open spec fn lane_at(s: Seq<SliceView>, i: int) -> (Option<PrdRef>, Seq<SliceView>) {
    if i < lane_numbers(s).len() {
        (first_prd(s, lane_numbers(s)[i]), lane_members(s, Some(lane_numbers(s)[i])))
    } else {
        (None, lane_members(s, None))
    }
}

/// Group Slices into one lane per PRD, in first-seen order, with a trailing
/// "No PRD" lane for Slices with no parent PRD.
///
/// `Done` Slices are excluded; PRD lanes appear in the order their first
/// Slice is seen; the "No PRD" lane, when present, comes last; lanes left
/// empty after excluding `Done` are dropped.
pub fn group_into_lanes(slices: Vec<Slice>) -> (lanes: Vec<PrdLane>)
    ensures
        lanes.len() == lane_count(views(slices@)),
        forall|i: int|
            0 <= i < lanes.len() ==> (#[trigger] lanes[i]).prd == lane_at(views(slices@), i).0
                && views(lanes[i].slices@) == lane_at(views(slices@), i).1,
{
    let ghost vs = views(slices@);
    let mut order: Vec<u64> = Vec::new();
    let mut prds: Vec<PrdRef> = Vec::new();
    let mut i: usize = 0;
    while i < slices.len()
        invariant
            i <= slices.len(),
            vs == views(slices@),
            order@ == lane_numbers(vs.take(i as int)),
            prds.len() == order.len(),
            forall|j: int|
                0 <= j < order.len() ==> first_prd(vs.take(i as int), #[trigger] order@[j]) == Some(
                    prds@[j],
                ),
        decreases slices.len() - i,
    {
        let x = &slices[i];
        let ghost prev = vs.take(i as int);
        assert(vs.take(i + 1).drop_last() =~= prev);
        assert(vs.take(i + 1).last() == x@);
        if x.state != SliceState::Done {
            match &x.prd {
                Some(p) => {
                    let seen = contains_u64(&order, p.number);
                    if !seen {
                        proof {
                            lemma_first_prd_absent(prev, p.number);
                        }
                        order.push(p.number);
                        prds.push(p.clone());
                    }
                },
                None => {},
            }
        }
        proof {
            assert forall|j: int| 0 <= j < order.len() implies first_prd(
                vs.take(i + 1),
                #[trigger] order@[j],
            ) == Some(prds@[j]) by {
                if j < lane_numbers(prev).len() {
                    lemma_lane_numbers_have_prd(prev, j);
                }
            }
        }
        i += 1;
    }
    assert(vs.take(slices.len() as int) =~= vs);
    let mut lanes: Vec<PrdLane> = Vec::new();
    let mut j: usize = 0;
    while j < order.len()
        invariant
            j <= order.len(),
            vs == views(slices@),
            order@ == lane_numbers(vs),
            prds.len() == order.len(),
            forall|k: int| 0 <= k < order.len() ==> first_prd(vs, #[trigger] order@[k]) == Some(prds@[k]),
            lanes.len() == j,
            forall|k: int|
                0 <= k < j ==> (#[trigger] lanes[k]).prd == lane_at(vs, k).0 && views(
                    lanes[k].slices@,
                ) == lane_at(vs, k).1,
        decreases order.len() - j,
    {
        let members = members_of(&slices, Some(order[j]));
        lanes.push(PrdLane { prd: Some(prds[j].clone()), slices: members });
        j += 1;
    }
    let no_prd = members_of(&slices, None);
    if no_prd.len() > 0 {
        lanes.push(PrdLane { prd: None, slices: no_prd });
    }
    lanes
}

/// The active Slices of `slices` with lane key `key`, cloned in order.
fn members_of(slices: &Vec<Slice>, key: Option<u64>) -> (r: Vec<Slice>)
    ensures
        views(r@) == lane_members(views(slices@), key),
{
    let ghost vs = views(slices@);
    let mut r: Vec<Slice> = Vec::new();
    let mut i: usize = 0;
    while i < slices.len()
        invariant
            i <= slices.len(),
            vs == views(slices@),
            views(r@) == lane_members(vs.take(i as int), key),
        decreases slices.len() - i,
    {
        let x = &slices[i];
        assert(vs.take(i + 1).drop_last() =~= vs.take(i as int));
        assert(vs.take(i + 1).last() == x@);
        let k: Option<u64> = match &x.prd {
            Some(p) => Some(p.number),
            None => None,
        };
        if x.state != SliceState::Done && k == key {
            let ghost before = r@;
            r.push(x.clone());
            assert(views(r@) =~= views(before).push(x@));
        }
        i += 1;
    }
    assert(vs.take(slices.len() as int) =~= vs);
    r
}

/// `v` holds `n`.
pub fn contains_u64(v: &Vec<u64>, n: u64) -> (r: bool)
    ensures
        r == v@.contains(n),
{
    let mut i: usize = 0;
    while i < v.len()
        invariant
            i <= v.len(),
            forall|k: int| 0 <= k < i ==> v@[k] != n,
        decreases v.len() - i,
    {
        if v[i] == n {
            return true;
        }
        i += 1;
    }
    false
}

/// A PRD number not yet among the lane numbers has no first PRD reference yet.
proof fn lemma_first_prd_absent(s: Seq<SliceView>, n: u64)
    requires
        !lane_numbers(s).contains(n),
    ensures
        first_prd(s, n) is None,
    decreases s.len(),
{
    if s.len() > 0 {
        let r = lane_numbers(s.drop_last());
        if r.contains(n) {
            let k = choose|k: int| 0 <= k < r.len() && r[k] == n;
            assert(lane_numbers(s)[k] == n);
        }
        lemma_first_prd_absent(s.drop_last(), n);
        let x = s.last();
        if active(x) && lane_key(x) == Some(n) && !r.contains(n) {
            assert(lane_numbers(s)[r.len() as int] == n);
        }
    }
}

/// A lane number keeps its first PRD reference as the input grows.
proof fn lemma_lane_numbers_have_prd(s: Seq<SliceView>, j: int)
    requires
        0 <= j < lane_numbers(s).len(),
    ensures
        first_prd(s, lane_numbers(s)[j]) is Some,
    decreases s.len(),
{
    let r = lane_numbers(s.drop_last());
    if j < r.len() {
        lemma_lane_numbers_have_prd(s.drop_last(), j);
    }
}

/// The members of a lane are active and carry the lane's key.
proof fn lemma_members(s: Seq<SliceView>, key: Option<u64>)
    ensures
        forall|k: int|
            0 <= k < lane_members(s, key).len() ==> active(#[trigger] lane_members(s, key)[k])
                && lane_key(lane_members(s, key)[k]) == key,
    decreases s.len(),
{
    if s.len() > 0 {
        lemma_members(s.drop_last(), key);
    }
}

/// Every lane number has at least one member.
proof fn lemma_numbered_lane_nonempty(s: Seq<SliceView>, j: int)
    requires
        0 <= j < lane_numbers(s).len(),
    ensures
        lane_members(s, Some(lane_numbers(s)[j])).len() > 0,
    decreases s.len(),
{
    let r = lane_numbers(s.drop_last());
    if j < r.len() {
        lemma_numbered_lane_nonempty(s.drop_last(), j);
    }
}

/// Grouping hides Done Slices: every Slice in a lane is active and belongs
/// to that lane's PRD (or has none, in the "No PRD" lane).
pub proof fn law_lanes_hold_active_slices_of_their_prd(s: Seq<SliceView>, i: int, k: int)
    requires
        0 <= i < lane_count(s),
        0 <= k < lane_at(s, i).1.len(),
    ensures
        active(lane_at(s, i).1[k]),
        lane_key(lane_at(s, i).1[k]) == (if i < lane_numbers(s).len() {
            Some(lane_numbers(s)[i])
        } else {
            None
        }),
{
    if i < lane_numbers(s).len() {
        lemma_members(s, Some(lane_numbers(s)[i]));
    } else {
        lemma_members(s, None);
    }
}

/// No lane is empty, every PRD lane names its PRD, and the "No PRD" lane,
/// when present, is the last one.
pub proof fn law_lanes_nonempty_and_no_prd_last(s: Seq<SliceView>, i: int)
    requires
        0 <= i < lane_count(s),
    ensures
        lane_at(s, i).1.len() > 0,
        i < lane_count(s) - 1 ==> lane_at(s, i).0 is Some,
        lane_at(s, i).0 is None ==> i == lane_count(s) - 1,
{
    if i < lane_numbers(s).len() {
        lemma_numbered_lane_nonempty(s, i);
        lemma_lane_numbers_have_prd(s, i);
    }
}

/// The Slices of `s` in state `st`, in order.
pub open spec fn in_state(s: Seq<SliceView>, st: SliceState) -> Seq<SliceView>
    decreases s.len(),
{
    if s.len() == 0 {
        Seq::empty()
    } else {
        let r = in_state(s.drop_last(), st);
        if s.last().state == st {
            r.push(s.last())
        } else {
            r
        }
    }
}

/// The Slices of `slices` in state `st`, in order.
fn in_state_exec(slices: &[Slice], st: SliceState) -> (r: Vec<Slice>)
    ensures
        views(r@) == in_state(views(slices@), st),
{
    let mut r: Vec<Slice> = Vec::new();
    let mut i: usize = 0;
    while i < slices.len()
        invariant
            i <= slices.len(),
            views(r@) == in_state(views(slices@.take(i as int)), st),
        decreases slices.len() - i,
    {
        let x = &slices[i];
        proof {
            assert(views(slices@.take(i + 1)).drop_last() =~= views(slices@.take(i as int)));
            assert(views(slices@.take(i + 1)).last() == x@);
        }
        if x.state == st {
            let c = x.clone();
            let ghost before = r@;
            r.push(c);
            assert(views(r@) =~= views(before).push(x@));
        }
        i += 1;
    }
    assert(slices@.take(slices.len() as int) =~= slices@);
    r
}

/// A lane's state columns, left to right: each board column's state with the
/// lane's Slices in that state, in order (a `Done` Slice sits in none).
pub fn state_columns(slices: &[Slice]) -> (r: Vec<(SliceState, Vec<Slice>)>)
    ensures
        r@.len() == 3,
        r@[0].0 == SliceState::Ready,
        r@[1].0 == SliceState::Wip,
        r@[2].0 == SliceState::Blocked,
        forall|k: int| 0 <= k < 3 ==> views(#[trigger] r@[k].1@) == in_state(views(slices@), r@[k].0),
{
    let ready = in_state_exec(slices, SliceState::Ready);
    let wip = in_state_exec(slices, SliceState::Wip);
    let blocked = in_state_exec(slices, SliceState::Blocked);
    let r = vec![(SliceState::Ready, ready), (SliceState::Wip, wip), (SliceState::Blocked, blocked)];
    r
}

} // verus!
