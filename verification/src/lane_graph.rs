//! A lane's left-to-right dependency layout: each Slice's column is its
//! dependency depth among the lane's own Slices, and the edges are the
//! lane-internal "blocked by" links.

use std::collections::{HashMap, HashSet};

use vstd::prelude::*;

use crate::lane::{views, PrdLane};
use crate::slice::{DependencyRef, Slice, SliceView};

verus! {

broadcast use vstd::std_specs::hash::group_hash_axioms;

/// A directed dependency edge between two Slices in the same [`PrdLane`].
#[derive(Clone, Copy, Debug, PartialEq, Eq, Structural)]
pub struct LaneGraphEdge {
    /// Upstream blocker issue number.
    pub blocker: u64,
    /// Downstream blocked issue number.
    pub blocked: u64,
}

/// A left-to-right dependency layout of one [`PrdLane`].
#[derive(Debug, PartialEq, Eq)]
pub struct LaneGraph {
    /// Ordered columns by dependency depth, left (`0`) to right.
    pub columns: Vec<Vec<Slice>>,
    /// Intra-lane blocker edges only; cross-lane blockers are excluded.
    pub edges: Vec<LaneGraphEdge>,
}

/// The issue numbers of a lane's Slices, in order.
pub open spec fn lane_nums(lane: Seq<SliceView>) -> Seq<u64> {
    lane.map_values(|x: SliceView| x.number)
}

/// The set of issue numbers in a lane.
pub open spec fn lane_set(lane: Seq<SliceView>) -> Set<u64> {
    lane_nums(lane).to_set()
}

/// The numbers of `bs` that name a Slice of the lane, in order.
pub open spec fn in_lane_blockers(lane: Seq<SliceView>, bs: Seq<DependencyRef>) -> Seq<u64>
    decreases bs.len(),
{
    if bs.len() == 0 {
        Seq::empty()
    } else {
        let r = in_lane_blockers(lane, bs.drop_last());
        if lane_set(lane).contains(bs.last().number) {
            r.push(bs.last().number)
        } else {
            r
        }
    }
}

/// The lane blockers of the last of `lane[0..k]` numbered `n` (none when
/// there is no such Slice): a later Slice with the same number replaces an
/// earlier one's entry.
pub open spec fn blockers_upto(lane: Seq<SliceView>, k: int, n: u64) -> Seq<u64>
    decreases k,
{
    if k <= 0 || k > lane.len() {
        Seq::empty()
    } else if lane[k - 1].number == n {
        in_lane_blockers(lane, lane[k - 1].blockers)
    } else {
        blockers_upto(lane, k - 1, n)
    }
}

/// The lane blockers recorded for issue `n`.
pub open spec fn blockers_of(lane: Seq<SliceView>, n: u64) -> Seq<u64> {
    blockers_upto(lane, lane.len() as int, n)
}

/// The larger of two depths.
pub open spec fn max_nat(a: nat, b: nat) -> nat {
    if a >= b {
        a
    } else {
        b
    }
}

/// How many lane numbers are not yet being visited.
pub open spec fn unvisited(lane: Seq<SliceView>, vis: Set<u64>) -> nat {
    lane_set(lane).difference(vis).len()
}

/// The dependency depth of issue `n`, as the memoised depth-first walk
/// computes it: a cached depth is reused; a number already on the walk's
/// path counts as a root (the guard against cycles); otherwise the depth is
/// one more than the deepest of its lane blockers (zero without blockers),
/// and it is cached. Returns the depth and the cache afterwards.
pub open spec fn dfs(lane: Seq<SliceView>, n: u64, cache: Map<u64, nat>, vis: Set<u64>) -> (
    nat,
    Map<u64, nat>,
)
    decreases unvisited(lane, vis), 0nat, 0nat,
{
    if cache.contains_key(n) {
        (cache[n], cache)
    } else if vis.contains(n) {
        (0, cache)
    } else if blockers_of(lane, n).len() == 0 {
        (0, cache.insert(n, 0))
    } else {
        proof {
            lemma_blockers_in_lane(lane, lane.len() as int, n);
            lemma_unvisited_shrinks(lane, vis, n);
        }
        let r = dfs_list(lane, blockers_of(lane, n), 0, cache, vis.insert(n));
        (r.0, r.1.insert(n, r.0))
    }
}

/// The deepest `1 + depth` over `bs[i..]`, walking them in order and
/// threading the cache.
pub open spec fn dfs_list(
    lane: Seq<SliceView>,
    bs: Seq<u64>,
    i: int,
    cache: Map<u64, nat>,
    vis: Set<u64>,
) -> (nat, Map<u64, nat>)
    decreases unvisited(lane, vis), 1nat, bs.len() - i,
{
    if i < 0 || i >= bs.len() {
        (0, cache)
    } else {
        let first = dfs(lane, bs[i], cache, vis);
        let rest = dfs_list(lane, bs, i + 1, first.1, vis);
        (max_nat(first.0 + 1, rest.0), rest.1)
    }
}

/// The depths of `lane[0..k]`, each walked from an empty path with the
/// cache shared across Slices, and the cache afterwards.
pub open spec fn depth_run(lane: Seq<SliceView>, k: int) -> (Seq<nat>, Map<u64, nat>)
    decreases k,
{
    if k <= 0 || k > lane.len() {
        (Seq::empty(), Map::empty())
    } else {
        let prev = depth_run(lane, k - 1);
        let d = dfs(lane, lane[k - 1].number, prev.1, Set::empty());
        (prev.0.push(d.0), d.1)
    }
}

/// The dependency depth of each Slice of a lane, in lane order.
pub open spec fn lane_depths(lane: Seq<SliceView>) -> Seq<nat> {
    depth_run(lane, lane.len() as int).0
}

/// The lane's edges from `lane[0..k]`: for each Slice in order, one edge
/// from each of the lane blockers recorded for its number.
pub open spec fn edges_upto(lane: Seq<SliceView>, k: int) -> Seq<LaneGraphEdge>
    decreases k,
{
    if k <= 0 || k > lane.len() {
        Seq::empty()
    } else {
        let n = lane[k - 1].number;
        edges_upto(lane, k - 1) + blockers_of(lane, n).map_values(
            |b: u64| LaneGraphEdge { blocker: b, blocked: n },
        )
    }
}

/// The lane's intra-lane edges.
pub open spec fn lane_edges(lane: Seq<SliceView>) -> Seq<LaneGraphEdge> {
    edges_upto(lane, lane.len() as int)
}

/// The largest depth (zero for none).
pub open spec fn max_depth(ds: Seq<nat>) -> nat
    decreases ds.len(),
{
    if ds.len() == 0 {
        0
    } else {
        max_nat(max_depth(ds.drop_last()), ds.last())
    }
}

/// The depth values below `d` that occur in `ds`, ascending.
pub open spec fn depth_values(ds: Seq<nat>, d: nat) -> Seq<nat>
    decreases d,
{
    if d == 0 {
        Seq::empty()
    } else {
        let r = depth_values(ds, (d - 1) as nat);
        if ds.contains((d - 1) as nat) {
            r.push((d - 1) as nat)
        } else {
            r
        }
    }
}

/// The Slices of `lane[0..k]` whose depth is `v`, in lane order.
pub open spec fn at_depth_upto(lane: Seq<SliceView>, ds: Seq<nat>, v: nat, k: int) -> Seq<
    SliceView,
>
    decreases k,
{
    if k <= 0 || k > lane.len() {
        Seq::empty()
    } else {
        let r = at_depth_upto(lane, ds, v, k - 1);
        if ds[k - 1] == v {
            r.push(lane[k - 1])
        } else {
            r
        }
    }
}

/// The lane's columns: one per occurring depth, ascending, each holding the
/// Slices of that depth in lane order.
pub open spec fn lane_columns(lane: Seq<SliceView>) -> Seq<Seq<SliceView>> {
    let ds = lane_depths(lane);
    depth_values(ds, max_depth(ds) + 1).map_values(
        |v: nat| at_depth_upto(lane, ds, v, lane.len() as int),
    )
}

/// A recorded blocker list is only ever non-empty for a number in the lane.
pub proof fn lemma_blockers_in_lane(lane: Seq<SliceView>, k: int, n: u64)
    requires
        blockers_upto(lane, k, n).len() > 0,
    ensures
        lane_set(lane).contains(n),
    decreases k,
{
    if lane[k - 1].number != n {
        lemma_blockers_in_lane(lane, k - 1, n);
    } else {
        assert(lane_nums(lane)[k - 1] == n);
    }
}

/// Recorded blockers are numbers of the lane.
proof fn lemma_blockers_are_lane_numbers(lane: Seq<SliceView>, k: int, n: u64)
    ensures
        forall|j: int|
            0 <= j < blockers_upto(lane, k, n).len() ==> lane_set(lane).contains(
                #[trigger] blockers_upto(lane, k, n)[j],
            ),
    decreases k,
{
    if 0 < k <= lane.len() {
        if lane[k - 1].number != n {
            lemma_blockers_are_lane_numbers(lane, k - 1, n);
            assert(blockers_upto(lane, k, n) == blockers_upto(lane, k - 1, n));
        } else {
            lemma_in_lane_blockers(lane, lane[k - 1].blockers);
            assert(blockers_upto(lane, k, n) == in_lane_blockers(lane, lane[k - 1].blockers));
        }
    }
}

/// Filtered blockers are numbers of the lane.
proof fn lemma_in_lane_blockers(lane: Seq<SliceView>, bs: Seq<DependencyRef>)
    ensures
        forall|j: int|
            0 <= j < in_lane_blockers(lane, bs).len() ==> lane_set(lane).contains(
                #[trigger] in_lane_blockers(lane, bs)[j],
            ),
    decreases bs.len(),
{
    if bs.len() > 0 {
        lemma_in_lane_blockers(lane, bs.drop_last());
        let r = in_lane_blockers(lane, bs.drop_last());
        assert forall|j: int|
            0 <= j < in_lane_blockers(lane, bs).len() implies lane_set(lane).contains(
            #[trigger] in_lane_blockers(lane, bs)[j],
        ) by {
            if j < r.len() {
                assert(in_lane_blockers(lane, bs)[j] == r[j]);
            }
        }
    }
}

/// Starting to visit a lane number not yet visited leaves one fewer to visit.
pub proof fn lemma_unvisited_shrinks(lane: Seq<SliceView>, vis: Set<u64>, n: u64)
    requires
        lane_set(lane).contains(n),
        !vis.contains(n),
    ensures
        unvisited(lane, vis.insert(n)) < unvisited(lane, vis),
{
    let all = lane_set(lane);
    assert(all.finite()) by {
        vstd::seq_lib::seq_to_set_is_finite(lane_nums(lane));
    }
    assert(all.difference(vis.insert(n)) =~= all.difference(vis).remove(n));
    vstd::set_lib::lemma_len_subset(all.difference(vis), all);
}

/// The cache of the executable walk, as depths.
pub open spec fn nat_cache(m: Map<u64, usize>) -> Map<u64, nat> {
    Map::new(|k: u64| m.contains_key(k), |k: u64| m[k] as nat)
}

/// What the executable walk keeps true of its cache: only lane numbers are
/// cached, and no cached depth exceeds the number of cached entries.
pub open spec fn cache_ok(m: Map<u64, usize>, lane: Seq<SliceView>) -> bool {
    &&& m.dom().subset_of(lane_set(lane))
    &&& forall|k: u64| #[trigger] m.contains_key(k) ==> m[k] <= m.dom().len()
}

/// The blocker table of the executable walk records, for each lane number,
/// exactly its recorded lane blockers.
pub open spec fn table_ok(t: Map<u64, Vec<u64>>, lane: Seq<SliceView>) -> bool {
    forall|k: u64|
        #[trigger] t.contains_key(k) == lane_set(lane).contains(k) && (t.contains_key(k)
            ==> t[k]@ == blockers_of(lane, k))
}

/// A cache of lane numbers holds at most as many entries as the lane has
/// Slices, and fewer when some lane number is missing from it.
proof fn lemma_cache_size(m: Map<u64, usize>, lane: Seq<SliceView>, n: u64)
    requires
        m.dom().subset_of(lane_set(lane)),
        lane_set(lane).contains(n),
        !m.contains_key(n),
    ensures
        m.dom().len() < lane.len(),
{
    let all = lane_set(lane);
    assert(all.finite()) by {
        vstd::seq_lib::seq_to_set_is_finite(lane_nums(lane));
    }
    lane_nums(lane).lemma_cardinality_of_set();
    assert(m.dom().subset_of(all.remove(n)));
    vstd::set_lib::lemma_len_subset(m.dom(), all.remove(n));
}

/// The depth of issue `n`: the memoised depth-first walk over the lane's
/// blocker table, with `visiting` holding the walk's current path.
fn depth_of(
    slices: &Vec<Slice>,
    n: u64,
    table: &HashMap<u64, Vec<u64>>,
    cache: &mut HashMap<u64, usize>,
    visiting: &mut HashSet<u64>,
) -> (d: usize)
    requires
        table_ok(table@, views(slices@)),
        lane_set(views(slices@)).contains(n),
        cache_ok(old(cache)@, views(slices@)),
    ensures
        (d as nat, nat_cache(final(cache)@)) == dfs(
            views(slices@),
            n,
            nat_cache(old(cache)@),
            old(visiting)@,
        ),
        final(visiting)@ == old(visiting)@,
        cache_ok(final(cache)@, views(slices@)),
        d <= final(cache)@.dom().len(),
        old(cache)@.dom().subset_of(final(cache)@.dom()),
        forall|k: u64|
            #[trigger] final(cache)@.contains_key(k) && !old(cache)@.contains_key(k)
                ==> !old(visiting)@.contains(k),
    decreases unvisited(views(slices@), old(visiting)@),
{
    let ghost lane = views(slices@);
    let ghost c0 = nat_cache(cache@);
    let ghost v0 = visiting@;
    match cache.get(&n) {
        Some(v) => {
            return *v;
        },
        None => {},
    }
    if visiting.contains(&n) {
        return 0;
    }
    let bs: &Vec<u64> = match table.get(&n) {
        Some(bs) => bs,
        None => {
            assert(false);
            return 0;
        },
    };
    assert(bs@ == blockers_of(lane, n));
    if bs.len() == 0 {
        let ghost before = cache@;
        cache.insert(n, 0);
        proof {
            assert(nat_cache(cache@) =~= c0.insert(n, 0));
            assert(cache@.dom() =~= before.dom().insert(n));
        }
        return 0;
    }
    proof {
        lemma_unvisited_shrinks(lane, v0, n);
        lemma_blockers_are_lane_numbers(lane, lane.len() as int, n);
    }
    visiting.insert(n);
    let ghost vis = visiting@;
    let mut best: usize = 0;
    let mut i: usize = 0;
    while i < bs.len()
        invariant
            lane == views(slices@),
            table_ok(table@, lane),
            bs@ == blockers_of(lane, n),
            forall|j: int| 0 <= j < bs@.len() ==> lane_set(lane).contains(#[trigger] bs@[j]),
            lane_set(lane).contains(n),
            !v0.contains(n),
            v0 == old(visiting)@,
            vis == v0.insert(n),
            visiting@ == vis,
            unvisited(lane, vis) < unvisited(lane, v0),
            i <= bs.len(),
            cache_ok(cache@, lane),
            !cache@.contains_key(n),
            best <= cache@.dom().len() + 1,
            c0 == nat_cache(old(cache)@),
            old(cache)@.dom().subset_of(cache@.dom()),
            forall|k: u64|
                #[trigger] cache@.contains_key(k) && !old(cache)@.contains_key(k) ==> !v0.contains(
                    k,
                ),
            dfs_list(lane, bs@, 0, c0, vis).1 == dfs_list(lane, bs@, i as int, nat_cache(cache@), vis).1,
            dfs_list(lane, bs@, 0, c0, vis).0 == max_nat(
                best as nat,
                dfs_list(lane, bs@, i as int, nat_cache(cache@), vis).0,
            ),
        decreases bs.len() - i,
    {
        let b = bs[i];
        let ghost before = cache@;
        let db = depth_of(slices, b, table, cache, visiting);
        proof {
            lemma_cache_size(cache@, lane, n);
            assert(lane.len() == slices.len());
            vstd::set_lib::lemma_len_subset(before.dom(), cache@.dom());
        }
        let cand = db + 1;
        if cand > best {
            best = cand;
        }
        i += 1;
    }
    visiting.remove(&n);
    assert(visiting@ =~= v0);
    let ghost before = cache@;
    proof {
        lemma_cache_size(cache@, lane, n);
    }
    cache.insert(n, best);
    proof {
        assert(nat_cache(cache@) =~= nat_cache(before).insert(n, best as nat));
        assert(cache@.dom() =~= before.dom().insert(n));
        assert(before.dom().finite());
    }
    best
}

/// Project one lane into a left-to-right dependency graph.
///
/// A Slice with no same-lane blocker sits in the leftmost column; any other
/// Slice sits to the right of its same-lane blockers; `edges` holds only
/// same-lane blocker links (`blocker -> blocked`); cross-lane blockers are
/// ignored for layout and edges.
pub fn derive_lane_graph(lane: &PrdLane) -> (g: LaneGraph)
    ensures
        g.edges@ == lane_edges(views(lane.slices@)),
        g.columns.len() == lane_columns(views(lane.slices@)).len(),
        forall|k: int|
            0 <= k < g.columns.len() ==> views(#[trigger] g.columns[k]@) == lane_columns(
                views(lane.slices@),
            )[k],
{
    let slices = &lane.slices;
    let ghost lv = views(slices@);
    let mut numbers: HashSet<u64> = HashSet::new();
    let mut i: usize = 0;
    while i < slices.len()
        invariant
            i <= slices.len(),
            lv == views(slices@),
            numbers@ == lane_nums(lv).take(i as int).to_set(),
        decreases slices.len() - i,
    {
        numbers.insert(slices[i].number);
        assert(lane_nums(lv).take(i + 1) =~= lane_nums(lv).take(i as int).push(slices@[i as int].number));
        proof {
            let pre = lane_nums(lv).take(i as int);
            let x = slices@[i as int].number;
            assert forall|a: u64| pre.push(x).contains(a) == (pre.contains(a) || a == x) by {
                lemma_contains_push(pre, x, a);
            }
            assert(pre.push(x).to_set() =~= pre.to_set().insert(x));
        }
        i += 1;
    }
    assert(lane_nums(lv).take(slices.len() as int) =~= lane_nums(lv));
    let mut table: HashMap<u64, Vec<u64>> = HashMap::new();
    let mut i: usize = 0;
    while i < slices.len()
        invariant
            i <= slices.len(),
            lv == views(slices@),
            numbers@ == lane_set(lv),
            forall|k: u64|
                #[trigger] table@.contains_key(k) == lane_nums(lv).take(i as int).contains(k) && (
                table@.contains_key(k) ==> table@[k]@ == blockers_upto(lv, i as int, k)),
        decreases slices.len() - i,
    {
        let s = &slices[i];
        let mut kept: Vec<u64> = Vec::new();
        let mut j: usize = 0;
        while j < s.blockers.len()
            invariant
                j <= s.blockers.len(),
                numbers@ == lane_set(lv),
                kept@ == in_lane_blockers(lv, s.blockers@.take(j as int)),
            decreases s.blockers.len() - j,
        {
            let b = s.blockers[j].number;
            assert(s.blockers@.take(j + 1).drop_last() =~= s.blockers@.take(j as int));
            if numbers.contains(&b) {
                kept.push(b);
            }
            j += 1;
        }
        assert(s.blockers@.take(s.blockers.len() as int) =~= s.blockers@);
        let ghost before = table@;
        table.insert(s.number, kept);
        proof {
            let pre = lane_nums(lv).take(i as int);
            assert(lane_nums(lv).take(i + 1) =~= pre.push(s.number));
            assert(lv[i as int] == s@);
            assert forall|k: u64|
                #[trigger] table@.contains_key(k) == lane_nums(lv).take(i + 1).contains(k) && (
                table@.contains_key(k) ==> table@[k]@ == blockers_upto(lv, i + 1, k)) by {
                lemma_contains_push(pre, s.number, k);
            }
        }
        i += 1;
    }
    assert(lane_nums(lv).take(slices.len() as int) =~= lane_nums(lv));
    assert(table_ok(table@, lv));
    let mut edges: Vec<LaneGraphEdge> = Vec::new();
    let mut i: usize = 0;
    while i < slices.len()
        invariant
            i <= slices.len(),
            lv == views(slices@),
            table_ok(table@, lv),
            edges@ == edges_upto(lv, i as int),
        decreases slices.len() - i,
    {
        let n = slices[i].number;
        assert(lv[i as int].number == n);
        assert(lane_nums(lv)[i as int] == n);
        let bs: &Vec<u64> = match table.get(&n) {
            Some(bs) => bs,
            None => {
                assert(false);
                return LaneGraph { columns: Vec::new(), edges: Vec::new() };
            },
        };
        let ghost start = edges@;
        let mut j: usize = 0;
        while j < bs.len()
            invariant
                j <= bs.len(),
                edges@ == start + bs@.take(j as int).map_values(
                    |b: u64| LaneGraphEdge { blocker: b, blocked: n },
                ),
            decreases bs.len() - j,
        {
            edges.push(LaneGraphEdge { blocker: bs[j], blocked: n });
            assert(bs@.take(j + 1).map_values(|b: u64| LaneGraphEdge { blocker: b, blocked: n })
                =~= bs@.take(j as int).map_values(
                |b: u64| LaneGraphEdge { blocker: b, blocked: n },
            ).push(LaneGraphEdge { blocker: bs@[j as int], blocked: n }));
            j += 1;
        }
        assert(bs@.take(bs.len() as int) =~= bs@);
        i += 1;
    }
    let mut cache: HashMap<u64, usize> = HashMap::new();
    let mut depths: Vec<usize> = Vec::new();
    let mut i: usize = 0;
    assert(nat_cache(cache@) =~= Map::<u64, nat>::empty());
    while i < slices.len()
        invariant
            i <= slices.len(),
            lv == views(slices@),
            table_ok(table@, lv),
            cache_ok(cache@, lv),
            depths.len() == i,
            depths@.map_values(|d: usize| d as nat) == depth_run(lv, i as int).0,
            nat_cache(cache@) == depth_run(lv, i as int).1,
        decreases slices.len() - i,
    {
        let n = slices[i].number;
        assert(lane_nums(lv)[i as int] == n);
        assert(lane_set(lv).contains(n));
        let mut visiting: HashSet<u64> = HashSet::new();
        let d = depth_of(slices, n, &table, &mut cache, &mut visiting);
        let ghost before = depths@;
        depths.push(d);
        assert(depths@.map_values(|d: usize| d as nat) =~= before.map_values(|d: usize| d as nat).push(
            d as nat,
        ));
        i += 1;
    }
    let ghost ds = depths@.map_values(|d: usize| d as nat);
    assert(ds == lane_depths(lv));
    let columns = columns_by_depth(slices, &depths);
    LaneGraph { columns, edges }
}

/// Group `slices` by their depths into ascending columns.
fn columns_by_depth(slices: &Vec<Slice>, depths: &Vec<usize>) -> (cols: Vec<Vec<Slice>>)
    requires
        depths.len() == slices.len(),
    ensures
        ({
            let ds = depths@.map_values(|d: usize| d as nat);
            let want = depth_values(ds, max_depth(ds) + 1);
            &&& cols.len() == want.len()
            &&& forall|k: int|
                0 <= k < cols.len() ==> views(#[trigger] cols[k]@) == at_depth_upto(
                    views(slices@),
                    ds,
                    want[k],
                    slices.len() as int,
                )
        }),
{
    let ghost ds = depths@.map_values(|d: usize| d as nat);
    let ghost lv = views(slices@);
    let mut maxd: usize = 0;
    let mut i: usize = 0;
    while i < depths.len()
        invariant
            i <= depths.len(),
            ds == depths@.map_values(|d: usize| d as nat),
            maxd as nat == max_depth(ds.take(i as int)),
        decreases depths.len() - i,
    {
        assert(ds.take(i + 1).drop_last() =~= ds.take(i as int));
        if depths[i] > maxd {
            maxd = depths[i];
        }
        i += 1;
    }
    assert(ds.take(depths.len() as int) =~= ds);
    let mut cols: Vec<Vec<Slice>> = Vec::new();
    let mut d: usize = 0;
    loop
        invariant_except_break
            cols.len() == depth_values(ds, d as nat).len(),
            forall|k: int|
                0 <= k < cols.len() ==> views(#[trigger] cols[k]@) == at_depth_upto(
                    lv,
                    ds,
                    depth_values(ds, d as nat)[k],
                    slices.len() as int,
                ),
        invariant
            d <= maxd,
            ds == depths@.map_values(|d: usize| d as nat),
            lv == views(slices@),
            depths.len() == slices.len(),
            maxd as nat == max_depth(ds),
        ensures
            cols.len() == depth_values(ds, maxd as nat + 1).len(),
            forall|k: int|
                0 <= k < cols.len() ==> views(#[trigger] cols[k]@) == at_depth_upto(
                    lv,
                    ds,
                    depth_values(ds, maxd as nat + 1)[k],
                    slices.len() as int,
                ),
        decreases maxd - d,
    {
        let col = slices_at_depth(slices, depths, d);
        proof {
            lemma_at_depth_nonempty(lv, ds, d as nat, slices.len() as int);
            assert(ds.take(slices.len() as int) =~= ds);
        }
        let ghost prev = depth_values(ds, d as nat);
        let ghost next = depth_values(ds, (d + 1) as nat);
        assert(next == if ds.contains(d as nat) {
            prev.push(d as nat)
        } else {
            prev
        });
        if col.len() > 0 {
            cols.push(col);
        }
        assert(cols.len() == next.len());
        assert(forall|k: int|
            0 <= k < cols.len() ==> views(#[trigger] cols[k]@) == at_depth_upto(
                lv,
                ds,
                next[k],
                slices.len() as int,
            ));
        if d == maxd {
            break;
        }
        d += 1;
    }
    cols
}

/// The Slices whose depth is `d`, cloned in lane order.
fn slices_at_depth(slices: &Vec<Slice>, depths: &Vec<usize>, d: usize) -> (r: Vec<Slice>)
    requires
        depths.len() == slices.len(),
    ensures
        views(r@) == at_depth_upto(
            views(slices@),
            depths@.map_values(|x: usize| x as nat),
            d as nat,
            slices.len() as int,
        ),
{
    let ghost ds = depths@.map_values(|x: usize| x as nat);
    let mut r: Vec<Slice> = Vec::new();
    let mut i: usize = 0;
    while i < slices.len()
        invariant
            i <= slices.len(),
            depths.len() == slices.len(),
            ds == depths@.map_values(|x: usize| x as nat),
            views(r@) == at_depth_upto(views(slices@), ds, d as nat, i as int),
        decreases slices.len() - i,
    {
        if depths[i] == d {
            let ghost before = r@;
            r.push(slices[i].clone());
            assert(views(r@) =~= views(before).push(slices@[i as int]@));
        }
        i += 1;
    }
    r
}

/// Pushing `x` adds exactly `x` to what a sequence contains.
proof fn lemma_contains_push(s: Seq<u64>, x: u64, a: u64)
    ensures
        s.push(x).contains(a) == (s.contains(a) || a == x),
{
    if s.push(x).contains(a) && a != x {
        let k = choose|k: int| 0 <= k < s.push(x).len() && s.push(x)[k] == a;
        assert(s[k] == a);
    }
    if s.contains(a) {
        let k = choose|k: int| 0 <= k < s.len() && s[k] == a;
        assert(s.push(x)[k] == a);
    }
    if a == x {
        assert(s.push(x)[s.len() as int] == a);
    }
}

/// A depth has Slices exactly when it occurs among the depths.
proof fn lemma_at_depth_nonempty(lane: Seq<SliceView>, ds: Seq<nat>, v: nat, k: int)
    requires
        0 <= k <= lane.len(),
        ds.len() == lane.len(),
    ensures
        at_depth_upto(lane, ds, v, k).len() > 0 <==> ds.take(k).contains(v),
    decreases k,
{
    if k > 0 {
        lemma_at_depth_nonempty(lane, ds, v, k - 1);
        assert(ds.take(k).drop_last() =~= ds.take(k - 1));
        let short = ds.take(k - 1);
        let long = ds.take(k);
        if short.contains(v) {
            let j = choose|j: int| 0 <= j < short.len() && short[j] == v;
            assert(long[j] == v);
        }
        if long.contains(v) && ds[k - 1] != v {
            let j = choose|j: int| 0 <= j < long.len() && long[j] == v;
            assert(short[j] == v);
        }
        if ds[k - 1] == v {
            assert(long[k - 1] == v);
        }
    } else {
        assert(ds.take(0).len() == 0);
    }
}

/// Where an edge of `lane[0..k]` comes from: a Slice whose recorded lane
/// blockers include the edge's blocker.
proof fn lemma_edge_source(lane: Seq<SliceView>, k: int, e: int)
    requires
        0 <= e < edges_upto(lane, k).len(),
    ensures
        exists|m: int|
            0 <= m < k && m < lane.len() && lane[m].number == edges_upto(lane, k)[e].blocked
                && blockers_of(lane, #[trigger] lane[m].number).contains(
                edges_upto(lane, k)[e].blocker,
            ),
    decreases k,
{
    let prev = edges_upto(lane, k - 1);
    let n = lane[k - 1].number;
    let tail = blockers_of(lane, n).map_values(|b: u64| LaneGraphEdge { blocker: b, blocked: n });
    assert(edges_upto(lane, k) == prev + tail);
    if e < prev.len() {
        lemma_edge_source(lane, k - 1, e);
        assert(edges_upto(lane, k)[e] == prev[e]);
        let m = choose|m: int|
            0 <= m < k - 1 && m < lane.len() && lane[m].number == prev[e].blocked && blockers_of(
                lane,
                #[trigger] lane[m].number,
            ).contains(prev[e].blocker);
        assert(0 <= m < k);
    } else {
        let t = e - prev.len();
        assert(edges_upto(lane, k)[e] == tail[t]);
        assert(blockers_of(lane, n)[t] == tail[t].blocker);
        assert(lane[k - 1].number == n);
    }
}

/// Edges only join Slices of the same lane: both ends name a Slice of the lane.
pub proof fn law_edges_stay_in_lane(lane: Seq<SliceView>, e: int)
    requires
        0 <= e < lane_edges(lane).len(),
    ensures
        lane_set(lane).contains(lane_edges(lane)[e].blocker),
        lane_set(lane).contains(lane_edges(lane)[e].blocked),
{
    lemma_edge_source(lane, lane.len() as int, e);
    let edge = lane_edges(lane)[e];
    let m = choose|m: int|
        0 <= m < lane.len() && m < lane.len() && lane[m].number == edge.blocked && blockers_of(
            lane,
            #[trigger] lane[m].number,
        ).contains(edge.blocker);
    assert(lane_nums(lane)[m] == edge.blocked);
    lemma_blockers_are_lane_numbers(lane, lane.len() as int, edge.blocked);
    let j = choose|j: int|
        0 <= j < blockers_of(lane, edge.blocked).len() && blockers_of(lane, edge.blocked)[j]
            == edge.blocker;
}

/// A cache whose entries for blocker-less numbers are all zero.
pub open spec fn roots_at_zero(lane: Seq<SliceView>, cache: Map<u64, nat>) -> bool {
    forall|k: u64|
        #[trigger] cache.contains_key(k) && blockers_of(lane, k).len() == 0 ==> cache[k] == 0
}

/// The walk gives a blocker-less number depth zero and keeps blocker-less
/// cache entries at zero.
proof fn lemma_dfs_roots(lane: Seq<SliceView>, n: u64, cache: Map<u64, nat>, vis: Set<u64>)
    requires
        roots_at_zero(lane, cache),
    ensures
        roots_at_zero(lane, dfs(lane, n, cache, vis).1),
        blockers_of(lane, n).len() == 0 ==> dfs(lane, n, cache, vis).0 == 0,
    decreases unvisited(lane, vis), 0nat, 0nat,
{
    if !cache.contains_key(n) && !vis.contains(n) && blockers_of(lane, n).len() > 0 {
        lemma_blockers_in_lane(lane, lane.len() as int, n);
        lemma_unvisited_shrinks(lane, vis, n);
        lemma_dfs_list_roots(lane, blockers_of(lane, n), 0, cache, vis.insert(n));
    }
}

/// Walking a blocker list keeps blocker-less cache entries at zero.
proof fn lemma_dfs_list_roots(
    lane: Seq<SliceView>,
    bs: Seq<u64>,
    i: int,
    cache: Map<u64, nat>,
    vis: Set<u64>,
)
    requires
        roots_at_zero(lane, cache),
    ensures
        roots_at_zero(lane, dfs_list(lane, bs, i, cache, vis).1),
    decreases unvisited(lane, vis), 1nat, bs.len() - i,
{
    if 0 <= i < bs.len() {
        lemma_dfs_roots(lane, bs[i], cache, vis);
        lemma_dfs_list_roots(lane, bs, i + 1, dfs(lane, bs[i], cache, vis).1, vis);
    }
}

/// Every step of the lane's depth run keeps blocker-less entries at zero and
/// gives blocker-less Slices depth zero.
proof fn lemma_depth_run_roots(lane: Seq<SliceView>, k: int)
    requires
        0 <= k <= lane.len(),
    ensures
        roots_at_zero(lane, depth_run(lane, k).1),
        depth_run(lane, k).0.len() == k,
        forall|j: int|
            0 <= j < k && blockers_of(lane, #[trigger] lane[j].number).len() == 0
                ==> depth_run(lane, k).0[j] == 0,
    decreases k,
{
    if k > 0 {
        lemma_depth_run_roots(lane, k - 1);
        lemma_dfs_roots(lane, lane[k - 1].number, depth_run(lane, k - 1).1, Set::empty());
    }
}

/// A Slice with no same-lane blocker sits in the leftmost column: its depth
/// is zero.
pub proof fn law_unblocked_slices_lead(lane: Seq<SliceView>, i: int)
    requires
        0 <= i < lane.len(),
        blockers_of(lane, lane[i].number).len() == 0,
    ensures
        lane_depths(lane)[i] == 0,
{
    lemma_depth_run_roots(lane, lane.len() as int);
}

/// The columns come in strictly ascending depth order.
pub proof fn law_columns_ascend(ds: Seq<nat>, d: nat, a: int, b: int)
    requires
        0 <= a < b < depth_values(ds, d).len(),
    ensures
        depth_values(ds, d)[a] < depth_values(ds, d)[b],
    decreases d,
{
    lemma_depth_values_below(ds, d);
    if d > 0 {
        let r = depth_values(ds, (d - 1) as nat);
        if b < r.len() {
            law_columns_ascend(ds, (d - 1) as nat, a, b);
        } else {
            lemma_depth_values_below(ds, (d - 1) as nat);
        }
    }
}

/// The depth values below `d` are all below `d`.
proof fn lemma_depth_values_below(ds: Seq<nat>, d: nat)
    ensures
        forall|k: int| 0 <= k < depth_values(ds, d).len() ==> #[trigger] depth_values(ds, d)[k] < d,
    decreases d,
{
    if d > 0 {
        let r = depth_values(ds, (d - 1) as nat);
        lemma_depth_values_below(ds, (d - 1) as nat);
        assert forall|k: int| 0 <= k < depth_values(ds, d).len() implies #[trigger] depth_values(
            ds,
            d,
        )[k] < d by {
            if k < r.len() {
                assert(depth_values(ds, d)[k] == r[k]);
            }
        }
    }
}

/// A ranking of issue numbers under which every recorded lane blocker ranks
/// below the Slice it blocks; one exists exactly when the lane's blocker
/// links have no cycle.
pub open spec fn ranked(lane: Seq<SliceView>, r: spec_fn(u64) -> nat) -> bool {
    forall|n: u64, j: int|
        0 <= j < blockers_of(lane, n).len() ==> r(#[trigger] blockers_of(lane, n)[j]) < r(n)
}

/// The height of issue `n` under ranking `r`: zero without lane blockers,
/// else one more than its highest lane blocker.
pub open spec fn height(lane: Seq<SliceView>, r: spec_fn(u64) -> nat, n: u64) -> nat
    decreases r(n), 1nat, 0int,
{
    height_list(lane, r, r(n), blockers_of(lane, n), 0)
}

/// The highest `1 + height` over the numbers of `bs[i..]` ranked below `top`.
pub open spec fn height_list(
    lane: Seq<SliceView>,
    r: spec_fn(u64) -> nat,
    top: nat,
    bs: Seq<u64>,
    i: int,
) -> nat
    decreases top, 0nat, bs.len() - i,
{
    if i < 0 || i >= bs.len() {
        0
    } else {
        let here = if r(bs[i]) < top {
            height(lane, r, bs[i]) + 1
        } else {
            0
        };
        max_nat(here, height_list(lane, r, top, bs, i + 1))
    }
}

/// A cache holding heights.
pub open spec fn cache_heights(lane: Seq<SliceView>, r: spec_fn(u64) -> nat, cache: Map<u64, nat>) -> bool {
    forall|k: u64| #[trigger] cache.contains_key(k) ==> cache[k] == height(lane, r, k)
}

/// On a ranked lane, the walk computes heights: every number on the walk's
/// path ranks above the number being walked, so the cycle guard never fires.
proof fn lemma_dfs_height(
    lane: Seq<SliceView>,
    r: spec_fn(u64) -> nat,
    n: u64,
    cache: Map<u64, nat>,
    vis: Set<u64>,
)
    requires
        ranked(lane, r),
        cache_heights(lane, r, cache),
        forall|a: u64| #[trigger] vis.contains(a) ==> r(a) > r(n),
    ensures
        dfs(lane, n, cache, vis).0 == height(lane, r, n),
        cache_heights(lane, r, dfs(lane, n, cache, vis).1),
    decreases unvisited(lane, vis), 0nat, 0nat,
{
    if cache.contains_key(n) {
    } else if vis.contains(n) {
    } else if blockers_of(lane, n).len() == 0 {
        assert(height(lane, r, n) == 0);
    } else {
        lemma_blockers_in_lane(lane, lane.len() as int, n);
        lemma_unvisited_shrinks(lane, vis, n);
        lemma_dfs_list_height(lane, r, n, blockers_of(lane, n), 0, cache, vis.insert(n));
    }
}

/// On a ranked lane, walking the blockers of `n` gives the highest
/// `1 + height` among them.
proof fn lemma_dfs_list_height(
    lane: Seq<SliceView>,
    r: spec_fn(u64) -> nat,
    n: u64,
    bs: Seq<u64>,
    i: int,
    cache: Map<u64, nat>,
    vis: Set<u64>,
)
    requires
        ranked(lane, r),
        cache_heights(lane, r, cache),
        bs == blockers_of(lane, n),
        forall|a: u64| #[trigger] vis.contains(a) ==> r(a) >= r(n),
    ensures
        dfs_list(lane, bs, i, cache, vis).0 == height_list(lane, r, r(n), bs, i),
        cache_heights(lane, r, dfs_list(lane, bs, i, cache, vis).1),
    decreases unvisited(lane, vis), 1nat, bs.len() - i,
{
    if 0 <= i < bs.len() {
        assert(r(bs[i]) < r(n));
        lemma_dfs_height(lane, r, bs[i], cache, vis);
        lemma_dfs_list_height(lane, r, n, bs, i + 1, dfs(lane, bs[i], cache, vis).1, vis);
    }
}

/// On a ranked lane, every Slice's depth is the height of its number.
proof fn lemma_depth_run_height(lane: Seq<SliceView>, r: spec_fn(u64) -> nat, k: int)
    requires
        ranked(lane, r),
        0 <= k <= lane.len(),
    ensures
        cache_heights(lane, r, depth_run(lane, k).1),
        depth_run(lane, k).0.len() == k,
        forall|j: int|
            0 <= j < k ==> depth_run(lane, k).0[j] == height(lane, r, #[trigger] lane[j].number),
    decreases k,
{
    if k > 0 {
        lemma_depth_run_height(lane, r, k - 1);
        lemma_dfs_height(lane, r, lane[k - 1].number, depth_run(lane, k - 1).1, Set::empty());
    }
}

/// A blocker list's highest `1 + height` is at least that of each member
/// ranked below `top`.
proof fn lemma_height_list_bounds(
    lane: Seq<SliceView>,
    r: spec_fn(u64) -> nat,
    top: nat,
    bs: Seq<u64>,
    i: int,
    m: int,
)
    requires
        0 <= i <= m < bs.len(),
        r(bs[m]) < top,
    ensures
        height_list(lane, r, top, bs, i) >= height(lane, r, bs[m]) + 1,
    decreases m - i,
{
    if i < m {
        lemma_height_list_bounds(lane, r, top, bs, i + 1, m);
    }
}

/// When the lane's blocker links have no cycle (some ranking puts every
/// blocker below what it blocks), every edge points strictly rightwards: the
/// blocked Slice is deeper than its blocker.
pub proof fn law_blockers_sit_left(lane: Seq<SliceView>, r: spec_fn(u64) -> nat, e: int, i: int, j: int)
    requires
        ranked(lane, r),
        0 <= e < lane_edges(lane).len(),
        0 <= i < lane.len(),
        0 <= j < lane.len(),
        lane[i].number == lane_edges(lane)[e].blocker,
        lane[j].number == lane_edges(lane)[e].blocked,
    ensures
        lane_depths(lane)[i] < lane_depths(lane)[j],
{
    lemma_edge_source(lane, lane.len() as int, e);
    lemma_depth_run_height(lane, r, lane.len() as int);
    let edge = lane_edges(lane)[e];
    let bs = blockers_of(lane, edge.blocked);
    let m = choose|m: int|
        0 <= m < lane.len() && m < lane.len() && lane[m].number == edge.blocked && blockers_of(
            lane,
            #[trigger] lane[m].number,
        ).contains(edge.blocker);
    let t = choose|t: int| 0 <= t < bs.len() && bs[t] == edge.blocker;
    assert(r(bs[t]) < r(edge.blocked));
    lemma_height_list_bounds(lane, r, r(edge.blocked), bs, 0, t);
    assert(lane_depths(lane)[i] == height(lane, r, lane[i].number));
    assert(lane_depths(lane)[j] == height(lane, r, lane[j].number));
}

/// A non-empty blocker list's highest `1 + height` is reached by one of its
/// members, when all of them rank below `top`.
proof fn lemma_height_list_attained(
    lane: Seq<SliceView>,
    r: spec_fn(u64) -> nat,
    top: nat,
    bs: Seq<u64>,
    i: int,
)
    requires
        0 <= i < bs.len(),
        forall|k: int| i <= k < bs.len() ==> r(#[trigger] bs[k]) < top,
    ensures
        exists|m: int| i <= m < bs.len() && height_list(lane, r, top, bs, i) == height(lane, r, #[trigger] bs[m]) + 1,
    decreases bs.len() - i,
{
    if i + 1 < bs.len() {
        lemma_height_list_attained(lane, r, top, bs, i + 1);
        let m = choose|m: int| i + 1 <= m < bs.len() && height_list(lane, r, top, bs, i + 1) == height(lane, r, #[trigger] bs[m]) + 1;
        if height_list(lane, r, top, bs, i) == height(lane, r, bs[i]) + 1 {
            assert(bs[i] == bs[i]);
        } else {
            assert(height_list(lane, r, top, bs, i) == height(lane, r, bs[m]) + 1);
        }
    } else {
        assert(height_list(lane, r, top, bs, i + 1) == 0);
        assert(height_list(lane, r, top, bs, i) == height(lane, r, bs[i]) + 1);
    }
}

/// When the lane's blocker links have no cycle, a Slice's depth is zero
/// without lane blockers and otherwise one more than the deepest of its lane
/// blockers: no blocker is as deep as it, and one blocker is exactly one
/// column to its left.
pub proof fn law_depth_is_one_past_deepest_blocker(lane: Seq<SliceView>, r: spec_fn(u64) -> nat, i: int)
    requires
        ranked(lane, r),
        0 <= i < lane.len(),
    ensures
        blockers_of(lane, lane[i].number).len() == 0 ==> lane_depths(lane)[i] == 0,
        forall|j: int|
            0 <= j < lane.len() && blockers_of(lane, lane[i].number).contains(#[trigger] lane[j].number)
                ==> lane_depths(lane)[j] + 1 <= lane_depths(lane)[i],
        blockers_of(lane, lane[i].number).len() > 0 ==> exists|j: int|
            0 <= j < lane.len() && blockers_of(lane, lane[i].number).contains(#[trigger] lane[j].number)
                && lane_depths(lane)[i] == lane_depths(lane)[j] + 1,
{
    lemma_depth_run_height(lane, r, lane.len() as int);
    let n = lane[i].number;
    let bs = blockers_of(lane, n);
    assert(lane_depths(lane)[i] == height(lane, r, n));
    assert forall|j: int|
        0 <= j < lane.len() && bs.contains(#[trigger] lane[j].number) implies lane_depths(lane)[j] + 1
        <= lane_depths(lane)[i] by {
        let t = choose|t: int| 0 <= t < bs.len() && bs[t] == lane[j].number;
        assert(r(bs[t]) < r(n));
        lemma_height_list_bounds(lane, r, r(n), bs, 0, t);
        assert(lane_depths(lane)[j] == height(lane, r, lane[j].number));
    }
    if bs.len() > 0 {
        assert forall|k: int| 0 <= k < bs.len() implies r(#[trigger] bs[k]) < r(n) by {}
        lemma_height_list_attained(lane, r, r(n), bs, 0);
        let m = choose|m: int| 0 <= m < bs.len() && height_list(lane, r, r(n), bs, 0) == height(lane, r, #[trigger] bs[m]) + 1;
        lemma_blockers_are_lane_numbers(lane, lane.len() as int, n);
        assert(lane_set(lane).contains(bs[m]));
        assert(lane_nums(lane).contains(bs[m]));
        let j = choose|j: int| 0 <= j < lane_nums(lane).len() && lane_nums(lane)[j] == bs[m];
        assert(lane[j].number == bs[m]);
        assert(bs.contains(lane[j].number));
        assert(lane_depths(lane)[j] == height(lane, r, lane[j].number));
    } else {
        law_unblocked_slices_lead(lane, i);
    }
}

} // verus!
