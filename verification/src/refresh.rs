//! Retained board snapshots: merging a fetched delta into the retained issue
//! set, and deciding whether a refresh would repaint anything.

use vstd::prelude::*;

use crate::board::{board_parts, board_slices, classify, open_refs, ClassifiedBoard};
use crate::classification::{issue_views, RawIssue, RawIssueView};
use crate::error::AppError;
use crate::lane::views;
use crate::pr::PrStatus;
use crate::prd::AgentRef;
use crate::slice::LinkedPrRef;
use crate::text::str_eq;

verus! {

/// The first index at or after `i` of an issue numbered `n`.
pub open spec fn first_index_from(s: Seq<RawIssueView>, n: u64, i: int) -> Option<int>
    decreases s.len() - i,
{
    if i < 0 || i >= s.len() {
        None
    } else if s[i].number == n {
        Some(i)
    } else {
        first_index_from(s, n, i + 1)
    }
}

/// Merging one fetched issue into a retained set: a closed issue removes the
/// first retained issue with its number; an open one replaces it, or is
/// appended when the number is new.
pub open spec fn merge_step(acc: Seq<RawIssueView>, x: RawIssueView) -> Seq<RawIssueView> {
    match first_index_from(acc, x.number, 0) {
        Some(p) => if x.closed {
            acc.remove(p)
        } else {
            acc.update(p, x)
        },
        None => if x.closed {
            acc
        } else {
            acc.push(x)
        },
    }
}

/// Merging a whole delta, issue by issue in order.
pub open spec fn merged(acc: Seq<RawIssueView>, delta: Seq<RawIssueView>) -> Seq<RawIssueView>
    decreases delta.len(),
{
    if delta.len() == 0 {
        acc
    } else {
        merge_step(merged(acc, delta.drop_last()), delta.last())
    }
}

/// Merge a delta of fetched issues into a retained issue set: closed issues
/// leave the set, open ones replace their retained copy or join at the end.
pub fn merge_issues(retained: &[RawIssue], delta: &[RawIssue]) -> (r: Vec<RawIssue>)
    ensures
        issue_views(r@) == merged(issue_views(retained@), issue_views(delta@)),
{
    let mut out: Vec<RawIssue> = Vec::new();
    let mut i: usize = 0;
    while i < retained.len()
        invariant
            i <= retained.len(),
            issue_views(out@) == issue_views(retained@).take(i as int),
        decreases retained.len() - i,
    {
        let ghost before = out@;
        out.push(retained[i].clone());
        assert(issue_views(out@) =~= issue_views(before).push(retained@[i as int]@));
        assert(issue_views(retained@).take(i + 1) =~= issue_views(retained@).take(i as int).push(
            retained@[i as int]@,
        ));
        i += 1;
    }
    assert(issue_views(retained@).take(retained.len() as int) =~= issue_views(retained@));
    let ghost ds = issue_views(delta@);
    let mut k: usize = 0;
    while k < delta.len()
        invariant
            k <= delta.len(),
            ds == issue_views(delta@),
            issue_views(out@) == merged(issue_views(retained@), ds.take(k as int)),
        decreases delta.len() - k,
    {
        let issue = &delta[k];
        assert(ds.take(k + 1).drop_last() =~= ds.take(k as int));
        assert(ds.take(k + 1).last() == issue@);
        let ghost acc = issue_views(out@);
        let mut p: usize = 0;
        while p < out.len() && out[p].number != issue.number
            invariant
                p <= out.len(),
                acc == issue_views(out@),
                first_index_from(acc, issue.number, 0) == first_index_from(acc, issue.number, p as int),
            decreases out.len() - p,
        {
            p += 1;
        }
        if p < out.len() {
            if issue.closed {
                out.remove(p);
                assert(issue_views(out@) =~= acc.remove(p as int));
            } else {
                out.set(p, issue.clone());
                assert(issue_views(out@) =~= acc.update(p as int, issue@));
            }
        } else if !issue.closed {
            out.push(issue.clone());
            assert(issue_views(out@) =~= acc.push(issue@));
        }
        k += 1;
    }
    assert(ds.take(delta.len() as int) =~= ds);
    out
}

/// Re-fetching an issue that is open and unchanged leaves the retained set
/// as it was.
pub proof fn law_refetching_unchanged_issue_is_a_no_op(acc: Seq<RawIssueView>, p: int)
    requires
        0 <= p < acc.len(),
        first_index_from(acc, acc[p].number, 0) == Some(p),
        !acc[p].closed,
    ensures
        merge_step(acc, acc[p]) == acc,
{
    assert(acc.update(p, acc[p]) =~= acc);
}

/// The numbers of a set of issues.
pub open spec fn issue_numbers(s: Seq<RawIssueView>) -> Seq<u64> {
    s.map_values(|x: RawIssueView| x.number)
}

/// The first-index search finds the first issue with the number, if any.
proof fn lemma_first_index(s: Seq<RawIssueView>, n: u64, i: int)
    requires
        0 <= i,
    ensures
        match first_index_from(s, n, i) {
            Some(p) => i <= p < s.len() && s[p].number == n && forall|j: int|
                i <= j < p ==> s[j].number != n,
            None => forall|j: int| i <= j < s.len() ==> s[j].number != n,
        },
    decreases s.len() - i,
{
    if i < s.len() && s[i].number != n {
        lemma_first_index(s, n, i + 1);
    }
}

/// On a retained set without repeated numbers, merging a closed issue leaves
/// no issue with its number, merging an open one leaves exactly it under its
/// number, and the set keeps no repeated numbers.
pub proof fn law_merge_keeps_one_copy_per_number(acc: Seq<RawIssueView>, x: RawIssueView)
    requires
        issue_numbers(acc).no_duplicates(),
    ensures
        issue_numbers(merge_step(acc, x)).no_duplicates(),
        x.closed ==> !issue_numbers(merge_step(acc, x)).contains(x.number),
        !x.closed ==> merge_step(acc, x).contains(x),
{
    lemma_first_index(acc, x.number, 0);
    let r = merge_step(acc, x);
    let ns = issue_numbers(acc);
    match first_index_from(acc, x.number, 0) {
        Some(p) => {
            if x.closed {
                assert forall|a: int, b: int| 0 <= a < b < r.len() implies issue_numbers(r)[a]
                    != issue_numbers(r)[b] by {
                    let a0 = if a < p { a } else { a + 1 };
                    let b0 = if b < p { b } else { b + 1 };
                    assert(r[a] == acc[a0]);
                    assert(r[b] == acc[b0]);
                    assert(ns[a0] != ns[b0]);
                }
                if issue_numbers(r).contains(x.number) {
                    let j = choose|j: int| 0 <= j < issue_numbers(r).len() && issue_numbers(r)[j] == x.number;
                    let j0 = if j < p { j } else { j + 1 };
                    assert(r[j] == acc[j0]);
                    assert(ns[j0] == ns[p]);
                }
            } else {
                assert forall|a: int, b: int| 0 <= a < b < r.len() implies issue_numbers(r)[a]
                    != issue_numbers(r)[b] by {
                    assert(issue_numbers(r)[a] == ns[a]);
                    assert(issue_numbers(r)[b] == ns[b]);
                }
                assert(r[p] == x);
            }
        },
        None => {
            if !x.closed {
                assert forall|a: int, b: int| 0 <= a < b < r.len() implies issue_numbers(r)[a]
                    != issue_numbers(r)[b] by {
                    if b == acc.len() {
                        assert(ns[a] != x.number);
                    } else {
                        assert(issue_numbers(r)[a] == ns[a]);
                        assert(issue_numbers(r)[b] == ns[b]);
                    }
                }
                assert(r[acc.len() as int] == x);
            } else {
                if ns.contains(x.number) {
                    let j = choose|j: int| 0 <= j < ns.len() && ns[j] == x.number;
                    assert(acc[j].number == x.number);
                }
            }
        },
    }
}

/// Merging `x` leaves every issue with another number where it was: an issue
/// with another number is kept, and no number other than `x`'s appears or
/// disappears.
proof fn lemma_merge_step_frame(acc: Seq<RawIssueView>, x: RawIssueView)
    ensures
        forall|y: RawIssueView|
            y.number != x.number ==> (acc.contains(y) <==> #[trigger] merge_step(acc, x).contains(y)),
        forall|n: u64|
            n != x.number ==> (issue_numbers(acc).contains(n) <==> #[trigger] issue_numbers(
                merge_step(acc, x),
            ).contains(n)),
{
    lemma_first_index(acc, x.number, 0);
    let r = merge_step(acc, x);
    match first_index_from(acc, x.number, 0) {
        Some(p) => {
            if x.closed {
                assert forall|y: RawIssueView| y.number != x.number implies (acc.contains(y)
                    <==> #[trigger] r.contains(y)) by {
                    if acc.contains(y) {
                        let k = choose|k: int| 0 <= k < acc.len() && acc[k] == y;
                        assert(k != p);
                        let k2 = if k < p { k } else { k - 1 };
                        assert(r[k2] == y);
                    }
                    if r.contains(y) {
                        let k = choose|k: int| 0 <= k < r.len() && r[k] == y;
                        let k0 = if k < p { k } else { k + 1 };
                        assert(acc[k0] == y);
                    }
                }
                assert forall|n: u64| n != x.number implies (issue_numbers(acc).contains(n)
                    <==> #[trigger] issue_numbers(r).contains(n)) by {
                    if issue_numbers(acc).contains(n) {
                        let k = choose|k: int| 0 <= k < acc.len() && issue_numbers(acc)[k] == n;
                        assert(k != p);
                        let k2 = if k < p { k } else { k - 1 };
                        assert(issue_numbers(r)[k2] == n);
                    }
                    if issue_numbers(r).contains(n) {
                        let k = choose|k: int| 0 <= k < r.len() && issue_numbers(r)[k] == n;
                        let k0 = if k < p { k } else { k + 1 };
                        assert(issue_numbers(acc)[k0] == n);
                    }
                }
            } else {
                assert forall|y: RawIssueView| y.number != x.number implies (acc.contains(y)
                    <==> #[trigger] r.contains(y)) by {
                    if acc.contains(y) {
                        let k = choose|k: int| 0 <= k < acc.len() && acc[k] == y;
                        assert(r[k] == y);
                    }
                    if r.contains(y) {
                        let k = choose|k: int| 0 <= k < r.len() && r[k] == y;
                        assert(acc[k] == y);
                    }
                }
                assert forall|n: u64| n != x.number implies (issue_numbers(acc).contains(n)
                    <==> #[trigger] issue_numbers(r).contains(n)) by {
                    if issue_numbers(acc).contains(n) {
                        let k = choose|k: int| 0 <= k < acc.len() && issue_numbers(acc)[k] == n;
                        assert(issue_numbers(r)[k] == n);
                    }
                    if issue_numbers(r).contains(n) {
                        let k = choose|k: int| 0 <= k < r.len() && issue_numbers(r)[k] == n;
                        assert(issue_numbers(acc)[k] == n);
                    }
                }
            }
        },
        None => {
            if !x.closed {
                assert forall|y: RawIssueView| y.number != x.number implies (acc.contains(y)
                    <==> #[trigger] r.contains(y)) by {
                    if acc.contains(y) {
                        let k = choose|k: int| 0 <= k < acc.len() && acc[k] == y;
                        assert(r[k] == y);
                    }
                    if r.contains(y) {
                        let k = choose|k: int| 0 <= k < r.len() && r[k] == y;
                        assert(acc[k] == y);
                    }
                }
                assert forall|n: u64| n != x.number implies (issue_numbers(acc).contains(n)
                    <==> #[trigger] issue_numbers(r).contains(n)) by {
                    if issue_numbers(acc).contains(n) {
                        let k = choose|k: int| 0 <= k < acc.len() && issue_numbers(acc)[k] == n;
                        assert(issue_numbers(r)[k] == n);
                    }
                    if issue_numbers(r).contains(n) {
                        let k = choose|k: int| 0 <= k < r.len() && issue_numbers(r)[k] == n;
                        assert(issue_numbers(acc)[k] == n);
                    }
                }
            }
        },
    }
}

/// What merging a whole delta leaves, on a retained set and a delta without
/// repeated numbers: no repeated numbers; no issue under the number of a
/// closed delta issue; every open delta issue as fetched; and every retained
/// issue the delta does not mention, unchanged.
pub proof fn law_merge_outcome(acc: Seq<RawIssueView>, delta: Seq<RawIssueView>)
    requires
        issue_numbers(acc).no_duplicates(),
        issue_numbers(delta).no_duplicates(),
    ensures
        issue_numbers(merged(acc, delta)).no_duplicates(),
        forall|k: int|
            0 <= k < delta.len() && (#[trigger] delta[k]).closed ==> !issue_numbers(merged(acc, delta)).contains(
                delta[k].number,
            ),
        forall|k: int| 0 <= k < delta.len() && !(#[trigger] delta[k]).closed ==> merged(acc, delta).contains(delta[k]),
        forall|y: RawIssueView|
            #[trigger] acc.contains(y) && !issue_numbers(delta).contains(y.number) ==> merged(acc, delta).contains(y),
    decreases delta.len(),
{
    if delta.len() > 0 {
        let init = delta.drop_last();
        let x = delta.last();
        let prev = merged(acc, init);
        assert(issue_numbers(init) =~= issue_numbers(delta).drop_last());
        assert forall|a: int, b: int| 0 <= a < b < issue_numbers(init).len() implies issue_numbers(init)[a]
            != issue_numbers(init)[b] by {
            assert(issue_numbers(init)[a] == issue_numbers(delta)[a]);
            assert(issue_numbers(init)[b] == issue_numbers(delta)[b]);
        }
        law_merge_outcome(acc, init);
        law_merge_keeps_one_copy_per_number(prev, x);
        lemma_merge_step_frame(prev, x);
        let r = merged(acc, delta);
        assert forall|k: int| 0 <= k < delta.len() - 1 implies delta[k].number != x.number by {
            assert(issue_numbers(delta)[k] == delta[k].number);
            assert(issue_numbers(delta)[delta.len() - 1] == x.number);
        }
        assert forall|k: int| 0 <= k < delta.len() && (#[trigger] delta[k]).closed implies !issue_numbers(
            r,
        ).contains(delta[k].number) by {
            if k < delta.len() - 1 {
                assert(init[k] == delta[k]);
            }
        }
        assert forall|k: int| 0 <= k < delta.len() && !(#[trigger] delta[k]).closed implies r.contains(
            delta[k],
        ) by {
            if k < delta.len() - 1 {
                assert(init[k] == delta[k]);
                assert(prev.contains(init[k]));
            }
        }
        assert forall|y: RawIssueView| #[trigger] acc.contains(y) && !issue_numbers(delta).contains(
            y.number,
        ) implies r.contains(y) by {
            if issue_numbers(init).contains(y.number) {
                let k = choose|k: int| 0 <= k < issue_numbers(init).len() && issue_numbers(init)[k] == y.number;
                assert(issue_numbers(delta)[k] == y.number);
            }
            assert(issue_numbers(delta)[delta.len() - 1] == x.number);
            assert(prev.contains(y));
        }
    }
}

/// A set that every step of `ds` leaves as it is, all of `ds` leaves as it is.
proof fn lemma_merged_fixed(r: Seq<RawIssueView>, ds: Seq<RawIssueView>)
    requires
        forall|k: int| 0 <= k < ds.len() ==> merge_step(r, #[trigger] ds[k]) == r,
    ensures
        merged(r, ds) == r,
    decreases ds.len(),
{
    if ds.len() > 0 {
        assert forall|k: int| 0 <= k < ds.drop_last().len() implies merge_step(
            r,
            #[trigger] ds.drop_last()[k],
        ) == r by {
            assert(ds.drop_last()[k] == ds[k]);
        }
        lemma_merged_fixed(r, ds.drop_last());
        assert(merge_step(r, ds[ds.len() - 1]) == r);
    }
}

/// Merging the same delta twice is merging it once, on a retained set and a
/// delta without repeated numbers.
pub proof fn law_merge_is_idempotent(acc: Seq<RawIssueView>, delta: Seq<RawIssueView>)
    requires
        issue_numbers(acc).no_duplicates(),
        issue_numbers(delta).no_duplicates(),
    ensures
        merged(merged(acc, delta), delta) == merged(acc, delta),
{
    let r = merged(acc, delta);
    law_merge_outcome(acc, delta);
    assert forall|k: int| 0 <= k < delta.len() implies merge_step(r, #[trigger] delta[k]) == r by {
        let d = delta[k];
        lemma_first_index(r, d.number, 0);
        if d.closed {
            if first_index_from(r, d.number, 0) is Some {
                let p = first_index_from(r, d.number, 0)->0;
                assert(issue_numbers(r)[p] == d.number);
            }
        } else {
            assert(r.contains(d));
            let q = choose|q: int| 0 <= q < r.len() && r[q] == d;
            let p = first_index_from(r, d.number, 0)->0;
            assert(issue_numbers(r)[p] == issue_numbers(r)[q]);
            assert(p == q);
            assert(r.update(p, d) =~= r);
        }
    }
    lemma_merged_fixed(r, delta);
}

/// The delta's issue numbered `n`, if it has one (its last, were there several).
pub open spec fn delta_issue(delta: Seq<RawIssueView>, n: u64) -> Option<RawIssueView>
    decreases delta.len(),
{
    if delta.len() == 0 {
        None
    } else if delta.last().number == n {
        Some(delta.last())
    } else {
        delta_issue(delta.drop_last(), n)
    }
}

/// What a retained issue becomes after merging `delta`: itself when the delta
/// does not mention it, the delta's copy when that is open, nothing when it
/// is closed.
pub open spec fn kept_entry(delta: Seq<RawIssueView>, y: RawIssueView) -> Seq<RawIssueView> {
    match delta_issue(delta, y.number) {
        None => seq![y],
        Some(d) => if d.closed {
            Seq::empty()
        } else {
            seq![d]
        },
    }
}

/// The retained issues after merging `delta`, in retained order: each one the
/// delta mentions is replaced by the delta's issue, or dropped when that
/// issue is closed.
pub open spec fn kept(acc: Seq<RawIssueView>, delta: Seq<RawIssueView>) -> Seq<RawIssueView>
    decreases acc.len(),
{
    if acc.len() == 0 {
        Seq::empty()
    } else {
        kept(acc.drop_last(), delta) + kept_entry(delta, acc.last())
    }
}

/// The open delta issues under numbers the retained set lacks, in delta order.
pub open spec fn fresh(acc: Seq<RawIssueView>, delta: Seq<RawIssueView>) -> Seq<RawIssueView>
    decreases delta.len(),
{
    if delta.len() == 0 {
        Seq::empty()
    } else {
        let r = fresh(acc, delta.drop_last());
        let x = delta.last();
        if !x.closed && !issue_numbers(acc).contains(x.number) {
            r.push(x)
        } else {
            r
        }
    }
}

/// The delta's issue numbered `n` is numbered `n`.
proof fn lemma_delta_issue_number(delta: Seq<RawIssueView>, n: u64)
    ensures
        delta_issue(delta, n) matches Some(d) ==> d.number == n,
    decreases delta.len(),
{
    if delta.len() > 0 && delta.last().number != n {
        lemma_delta_issue_number(delta.drop_last(), n);
    }
}

/// The first issue numbered `n` at or after `i` is at `p` when `p` holds `n`
/// and nothing in between does.
proof fn lemma_first_index_at(s: Seq<RawIssueView>, n: u64, i: int, p: int)
    requires
        0 <= i <= p < s.len(),
        s[p].number == n,
        forall|j: int| i <= j < p ==> s[j].number != n,
    ensures
        first_index_from(s, n, i) == Some(p),
    decreases p - i,
{
    if i < p {
        lemma_first_index_at(s, n, i + 1, p);
    }
}

/// A delta without `n` has no issue numbered `n`.
proof fn lemma_delta_issue_absent(delta: Seq<RawIssueView>, n: u64)
    requires
        !issue_numbers(delta).contains(n),
    ensures
        delta_issue(delta, n) is None,
    decreases delta.len(),
{
    if delta.len() > 0 {
        assert(issue_numbers(delta)[delta.len() - 1] == delta.last().number);
        assert forall|k: int| 0 <= k < delta.drop_last().len() implies issue_numbers(delta.drop_last())[k]
            != n by {
            assert(issue_numbers(delta.drop_last())[k] == issue_numbers(delta)[k]);
        }
        lemma_delta_issue_absent(delta.drop_last(), n);
    }
}

/// The kept issues carry only retained numbers, and every retained number the
/// delta does not mention.
proof fn lemma_kept_numbers(acc: Seq<RawIssueView>, delta: Seq<RawIssueView>)
    ensures
        forall|n: u64| #[trigger] issue_numbers(kept(acc, delta)).contains(n) ==> issue_numbers(acc).contains(n),
        forall|n: u64|
            #[trigger] issue_numbers(acc).contains(n) && delta_issue(delta, n) is None ==> issue_numbers(
                kept(acc, delta),
            ).contains(n),
    decreases acc.len(),
{
    if acc.len() > 0 {
        let a0 = acc.drop_last();
        let r = kept(a0, delta);
        let y = acc.last();
        let e = kept_entry(delta, y);
        lemma_kept_numbers(a0, delta);
        let k = kept(acc, delta);
        assert(k == r + e);
        lemma_delta_issue_number(delta, y.number);
        assert forall|t: int| 0 <= t < e.len() implies e[t].number == y.number by {}
        assert(issue_numbers(acc)[acc.len() - 1] == y.number);
        assert forall|n: u64| #[trigger] issue_numbers(k).contains(n) implies issue_numbers(acc).contains(n) by {
            let j = choose|j: int| 0 <= j < issue_numbers(k).len() && issue_numbers(k)[j] == n;
            if j < r.len() {
                assert(issue_numbers(r)[j] == n);
                assert(issue_numbers(r).contains(n));
                let i = choose|i: int| 0 <= i < issue_numbers(a0).len() && issue_numbers(a0)[i] == n;
                assert(issue_numbers(acc)[i] == n);
            } else {
                assert(k[j] == e[j - r.len()]);
            }
        }
        assert forall|n: u64| #[trigger] issue_numbers(acc).contains(n) && delta_issue(delta, n) is None implies issue_numbers(
            k,
        ).contains(n) by {
            let i = choose|i: int| 0 <= i < issue_numbers(acc).len() && issue_numbers(acc)[i] == n;
            if i < a0.len() {
                assert(issue_numbers(a0)[i] == n);
                assert(issue_numbers(a0).contains(n));
                let j = choose|j: int| 0 <= j < issue_numbers(r).len() && issue_numbers(r)[j] == n;
                assert(issue_numbers(k)[j] == n);
            } else {
                assert(e == seq![y]);
                assert(issue_numbers(k)[r.len() as int] == n);
            }
        }
    }
}

/// The fresh issues carry only numbers of the delta.
proof fn lemma_fresh_numbers(acc: Seq<RawIssueView>, delta: Seq<RawIssueView>)
    ensures
        forall|n: u64| #[trigger] issue_numbers(fresh(acc, delta)).contains(n) ==> issue_numbers(delta).contains(n),
    decreases delta.len(),
{
    if delta.len() > 0 {
        let d0 = delta.drop_last();
        let r = fresh(acc, d0);
        lemma_fresh_numbers(acc, d0);
        let f = fresh(acc, delta);
        assert(issue_numbers(delta)[delta.len() - 1] == delta.last().number);
        assert forall|n: u64| #[trigger] issue_numbers(f).contains(n) implies issue_numbers(delta).contains(n) by {
            let j = choose|j: int| 0 <= j < issue_numbers(f).len() && issue_numbers(f)[j] == n;
            if j < r.len() {
                assert(issue_numbers(r)[j] == n);
                assert(issue_numbers(r).contains(n));
                let i = choose|i: int| 0 <= i < issue_numbers(d0).len() && issue_numbers(d0)[i] == n;
                assert(issue_numbers(delta)[i] == n);
            }
        }
    }
}

/// Two deltas that agree on the retained numbers keep the same issues.
proof fn lemma_kept_agree(acc: Seq<RawIssueView>, d1: Seq<RawIssueView>, d2: Seq<RawIssueView>)
    requires
        forall|n: u64| #[trigger] issue_numbers(acc).contains(n) ==> delta_issue(d1, n) == delta_issue(d2, n),
    ensures
        kept(acc, d1) == kept(acc, d2),
    decreases acc.len(),
{
    if acc.len() > 0 {
        let a0 = acc.drop_last();
        assert forall|n: u64| #[trigger] issue_numbers(a0).contains(n) implies delta_issue(d1, n) == delta_issue(d2, n) by {
            let i = choose|i: int| 0 <= i < issue_numbers(a0).len() && issue_numbers(a0)[i] == n;
            assert(issue_numbers(acc)[i] == n);
            assert(issue_numbers(acc).contains(n));
        }
        lemma_kept_agree(a0, d1, d2);
        assert(issue_numbers(acc)[acc.len() - 1] == acc.last().number);
        assert(issue_numbers(acc).contains(acc.last().number));
        assert(kept_entry(d1, acc.last()) == kept_entry(d2, acc.last()));
    }
}

/// Merging a delta issue whose number is retained (and not earlier in the
/// delta) into the kept issues gives the kept issues of the longer delta.
proof fn lemma_kept_step(acc: Seq<RawIssueView>, init: Seq<RawIssueView>, x: RawIssueView)
    requires
        issue_numbers(acc).no_duplicates(),
        !issue_numbers(init).contains(x.number),
        issue_numbers(acc).contains(x.number),
    ensures
        merge_step(kept(acc, init), x) == kept(acc, init.push(x)),
        issue_numbers(kept(acc, init)).contains(x.number),
    decreases acc.len(),
{
    let delta = init.push(x);
    assert(delta.drop_last() =~= init);
    lemma_delta_issue_absent(init, x.number);
    let a0 = acc.drop_last();
    let y = acc.last();
    let r = kept(a0, init);
    let k = kept(acc, init);
    lemma_kept_numbers(acc, init);
    assert(issue_numbers(acc)[acc.len() - 1] == y.number);
    if y.number == x.number {
        assert forall|n: u64| #[trigger] issue_numbers(a0).contains(n) implies n != x.number by {
            let i = choose|i: int| 0 <= i < issue_numbers(a0).len() && issue_numbers(a0)[i] == n;
            assert(issue_numbers(acc)[i] == n);
        }
        assert forall|n: u64| #[trigger] issue_numbers(a0).contains(n) implies delta_issue(init, n) == delta_issue(
            delta,
            n,
        ) by {}
        lemma_kept_agree(a0, init, delta);
        lemma_kept_numbers(a0, init);
        assert(k == r.push(y));
        assert forall|j: int| 0 <= j < r.len() implies k[j].number != x.number by {
            assert(issue_numbers(r)[j] == k[j].number);
            assert(issue_numbers(r).contains(k[j].number));
        }
        lemma_first_index_at(k, x.number, 0, r.len() as int);
        if x.closed {
            assert(k.remove(r.len() as int) =~= r);
        } else {
            assert(k.update(r.len() as int, x) =~= r.push(x));
        }
    } else {
        assert(issue_numbers(a0) =~= issue_numbers(acc).drop_last());
        assert(issue_numbers(a0).contains(x.number)) by {
            let i = choose|i: int| 0 <= i < issue_numbers(acc).len() && issue_numbers(acc)[i] == x.number;
            assert(i != acc.len() - 1);
            assert(issue_numbers(a0)[i] == x.number);
        }
        assert forall|a: int, b: int| 0 <= a < b < issue_numbers(a0).len() implies issue_numbers(a0)[a]
            != issue_numbers(a0)[b] by {
            assert(issue_numbers(a0)[a] == issue_numbers(acc)[a]);
            assert(issue_numbers(a0)[b] == issue_numbers(acc)[b]);
        }
        lemma_kept_step(a0, init, x);
        let tail = k.subrange(r.len() as int, k.len() as int);
        assert(k =~= r + tail);
        assert(kept(acc, delta) =~= kept(a0, delta) + tail);
        lemma_first_index(r, x.number, 0);
        let p = first_index_from(r, x.number, 0)->0;
        assert forall|j: int| 0 <= j < p implies k[j].number != x.number by {
            assert(k[j] == r[j]);
        }
        lemma_first_index_at(k, x.number, 0, p);
        if x.closed {
            assert(k.remove(p) =~= r.remove(p) + tail);
        } else {
            assert(k.update(p, x) =~= r.update(p, x) + tail);
        }
        let j = choose|j: int| 0 <= j < issue_numbers(r).len() && issue_numbers(r)[j] == x.number;
        assert(issue_numbers(k)[j] == x.number);
    }
}

/// The shape of a merge, on a retained set and a delta without repeated
/// numbers: the retained issues keep their order and slots (each the delta
/// mentions replaced by its fetched copy, or dropped when that is closed),
/// followed by the open delta issues under new numbers, in delta order.
pub proof fn law_merge_keeps_retained_order(acc: Seq<RawIssueView>, delta: Seq<RawIssueView>)
    requires
        issue_numbers(acc).no_duplicates(),
        issue_numbers(delta).no_duplicates(),
    ensures
        merged(acc, delta) == kept(acc, delta) + fresh(acc, delta),
    decreases delta.len(),
{
    if delta.len() == 0 {
        assert(kept(acc, delta) =~= acc) by {
            lemma_kept_none(acc, delta);
        }
        assert(acc + Seq::<RawIssueView>::empty() =~= acc);
    } else {
        let init = delta.drop_last();
        let x = delta.last();
        assert(init.push(x) =~= delta);
        assert forall|a: int, b: int| 0 <= a < b < issue_numbers(init).len() implies issue_numbers(init)[a]
            != issue_numbers(init)[b] by {
            assert(issue_numbers(init)[a] == issue_numbers(delta)[a]);
            assert(issue_numbers(init)[b] == issue_numbers(delta)[b]);
        }
        law_merge_keeps_retained_order(acc, init);
        assert(!issue_numbers(init).contains(x.number)) by {
            if issue_numbers(init).contains(x.number) {
                let i = choose|i: int| 0 <= i < issue_numbers(init).len() && issue_numbers(init)[i] == x.number;
                assert(issue_numbers(delta)[i] == x.number);
                assert(issue_numbers(delta)[delta.len() - 1] == x.number);
            }
        }
        let k = kept(acc, init);
        let f = fresh(acc, init);
        lemma_kept_numbers(acc, init);
        lemma_fresh_numbers(acc, init);
        if issue_numbers(acc).contains(x.number) {
            lemma_kept_step(acc, init, x);
            assert(fresh(acc, delta) == f);
            lemma_first_index(k, x.number, 0);
            let p = first_index_from(k, x.number, 0)->0;
            assert forall|j: int| 0 <= j < p implies (k + f)[j].number != x.number by {}
            lemma_first_index_at(k + f, x.number, 0, p);
            if x.closed {
                assert((k + f).remove(p) =~= k.remove(p) + f);
            } else {
                assert((k + f).update(p, x) =~= k.update(p, x) + f);
            }
        } else {
            assert forall|n: u64| #[trigger] issue_numbers(acc).contains(n) implies delta_issue(init, n) == delta_issue(
                delta,
                n,
            ) by {}
            lemma_kept_agree(acc, init, delta);
            lemma_first_index(k + f, x.number, 0);
            assert(first_index_from(k + f, x.number, 0) is None) by {
                if first_index_from(k + f, x.number, 0) is Some {
                    let p = first_index_from(k + f, x.number, 0)->0;
                    if p < k.len() {
                        assert((k + f)[p] == k[p]);
                        assert(issue_numbers(k)[p] == x.number);
                        assert(issue_numbers(k).contains(x.number));
                    } else {
                        assert((k + f)[p] == f[p - k.len()]);
                        assert(issue_numbers(f)[p - k.len()] == x.number);
                        assert(issue_numbers(f).contains(x.number));
                    }
                }
            }
            if !x.closed {
                assert((k + f).push(x) =~= k + f.push(x));
            }
        }
    }
}

/// With an empty delta every retained issue is kept as it is.
proof fn lemma_kept_none(acc: Seq<RawIssueView>, delta: Seq<RawIssueView>)
    requires
        delta.len() == 0,
    ensures
        kept(acc, delta) == acc,
    decreases acc.len(),
{
    if acc.len() > 0 {
        lemma_kept_none(acc.drop_last(), delta);
        assert(acc.drop_last().push(acc.last()) =~= acc);
    }
}

/// The comparable facts of a linked Pull Request.
pub struct PrFacts {
    pub number: u64,
    pub author: Option<Seq<char>>,
    pub title: Seq<char>,
    pub url: Seq<char>,
    pub pr_status: PrStatus,
    pub conflicts: bool,
    pub ci_failing: bool,
    pub unresolved_comment_count: u32,
}

/// The text of an optional string.
pub open spec fn opt_text(o: Option<String>) -> Option<Seq<char>> {
    match o {
        Some(s) => Some(s@),
        None => None,
    }
}

/// The facts of a linked Pull Request, its texts by content.
pub open spec fn pr_facts(p: LinkedPrRef) -> PrFacts {
    PrFacts {
        number: p.number,
        author: opt_text(p.author),
        title: p.title@,
        url: p.url@,
        pr_status: p.pr_status,
        conflicts: p.conflicts,
        ci_failing: p.ci_failing,
        unresolved_comment_count: p.unresolved_comment_count,
    }
}

/// The comparable facts of a raw issue.
pub struct IssueFacts {
    pub number: u64,
    pub title: Seq<char>,
    pub url: Seq<char>,
    pub body: Option<Seq<char>>,
    pub labels: Seq<Seq<char>>,
    pub closed: bool,
    pub native_parent: Option<u64>,
    pub native_blockers: Seq<u64>,
    pub assignee: Option<Seq<char>>,
    pub assignee_avatar_url: Option<Seq<char>>,
    pub linked_prs: Seq<PrFacts>,
    pub is_native_child_of_prd: bool,
}

/// The facts of a raw issue, its texts by content.
pub open spec fn issue_facts(v: RawIssueView) -> IssueFacts {
    IssueFacts {
        number: v.number,
        title: v.title@,
        url: v.url@,
        body: opt_text(v.body),
        labels: v.labels.map_values(|l: String| l@),
        closed: v.closed,
        native_parent: v.native_parent,
        native_blockers: v.native_blockers,
        assignee: opt_text(v.assignee),
        assignee_avatar_url: opt_text(v.assignee_avatar_url),
        linked_prs: v.linked_prs.map_values(|p: LinkedPrRef| pr_facts(p)),
        is_native_child_of_prd: v.is_native_child_of_prd,
    }
}

/// The facts of an Agent reference: its name and node ID by content.
pub open spec fn agent_facts(a: AgentRef) -> (Seq<char>, Seq<char>) {
    (a.name@, a.node_id@)
}

/// Two issue sets hold the same facts, issue by issue in order.
pub open spec fn same_issues(a: Seq<RawIssue>, b: Seq<RawIssue>) -> bool {
    issue_views(a).map_values(|v: RawIssueView| issue_facts(v)) == issue_views(b).map_values(
        |v: RawIssueView| issue_facts(v),
    )
}

/// Two Agent sets hold the same facts, in order.
pub open spec fn same_agents(a: Seq<AgentRef>, b: Seq<AgentRef>) -> bool {
    a.map_values(|x: AgentRef| agent_facts(x)) == b.map_values(|x: AgentRef| agent_facts(x))
}

/// A retained fetch snapshot of a board, used to decide whether a refresh
/// would repaint anything.
#[derive(Debug, PartialEq, Eq)]
pub struct BoardSnapshot {
    raw_issues: Vec<RawIssue>,
    agents: Vec<AgentRef>,
    /// When the fetch started, in milliseconds since the Unix epoch (UTC).
    pub fetched_at: i64,
}

impl Clone for BoardSnapshot {
    fn clone(&self) -> (r: Self)
        ensures
            issue_views(r.issues()) == issue_views(self.issues()),
            r.agent_refs() == self.agent_refs(),
            r.fetched() == self.fetched(),
    {
        let r = BoardSnapshot {
            raw_issues: self.raw_issues.clone(),
            agents: self.agents.clone(),
            fetched_at: self.fetched_at,
        };
        assert(issue_views(r.raw_issues@) =~= issue_views(self.raw_issues@));
        assert(r.agents@ =~= self.agents@);
        r
    }
}

impl BoardSnapshot {
    /// The retained raw issues, as a specification value.
    pub closed spec fn issues(self) -> Seq<RawIssue> {
        self.raw_issues@
    }

    /// When the fetch started, as a specification value.
    pub closed spec fn fetched(self) -> i64 {
        self.fetched_at
    }

    /// The retained Agents, as a specification value.
    pub closed spec fn agent_refs(self) -> Seq<AgentRef> {
        self.agents@
    }

    /// A snapshot of a fetch.
    pub fn new(raw_issues: Vec<RawIssue>, agents: Vec<AgentRef>, fetched_at: i64) -> (s: Self)
        ensures
            s.issues() == raw_issues@,
            s.agent_refs() == agents@,
            s.fetched() == fetched_at,
    {
        BoardSnapshot { raw_issues, agents, fetched_at }
    }

    /// The retained raw issues.
    pub fn raw_issues(&self) -> (r: &Vec<RawIssue>)
        ensures
            r@ == self.issues(),
    {
        &self.raw_issues
    }

    /// The retained Agents.
    pub fn agents(&self) -> (r: &Vec<AgentRef>)
        ensures
            r@ == self.agent_refs(),
    {
        &self.agents
    }

    /// Both snapshots hold the same issue and Agent facts (when they were
    /// fetched does not matter).
    pub fn same_facts_as(&self, other: &Self) -> (r: bool)
        ensures
            r == (same_issues(self.issues(), other.issues()) && same_agents(
                self.agent_refs(),
                other.agent_refs(),
            )),
    {
        same_issue_list(&self.raw_issues, &other.raw_issues) && same_agent_list(
            &self.agents,
            &other.agents,
        )
    }
}

/// The loaded board view plus its retained snapshot.
#[derive(Debug, PartialEq, Eq)]
pub struct LoadedBoard {
    pub board: ClassifiedBoard,
    pub snapshot: BoardSnapshot,
}

/// Outcome of refreshing a retained board snapshot.
#[derive(Debug, PartialEq, Eq)]
pub enum BoardRefresh {
    /// The fetched facts differ from the retained snapshot: repaint.
    Changed(LoadedBoard),
    /// The fetched facts match the retained snapshot: keep the current view.
    Unchanged,
}

/// A freshly loaded board: the classified view of the fetched issues and
/// Agents, and the snapshot that retains them.
pub fn load_board(raw_issues: Vec<RawIssue>, agents: Vec<AgentRef>, fetched_at: i64) -> (l: LoadedBoard)
    ensures
        views(l.board.slices@) == board_slices(issue_views(raw_issues@)),
        l.board.prds@ == board_parts(issue_views(raw_issues@), open_refs(issue_views(raw_issues@))).1,
        l.board.other@ == board_parts(issue_views(raw_issues@), open_refs(issue_views(raw_issues@))).2,
        l.board.agents@ == agents@,
        l.snapshot.issues() == raw_issues@,
        l.snapshot.agent_refs() == agents@,
        l.snapshot.fetched() == fetched_at,
{
    let board = classify(raw_issues.as_slice(), agents.as_slice());
    LoadedBoard { board, snapshot: BoardSnapshot::new(raw_issues, agents, fetched_at) }
}

/// The Agents a board carries after discovery: the discovered ones, or none
/// when discovery failed.
pub open spec fn discovered_agents(agents: Result<Vec<AgentRef>, AppError>) -> Seq<AgentRef> {
    match agents {
        Ok(a) => a@,
        Err(_) => Seq::empty(),
    }
}

/// Load a board from its fetched issues and the outcome of Agent discovery,
/// which is best effort: a failed discovery degrades to an empty Agent set and
/// never fails the load; the board is still classified over the issues.
pub fn load_outcome(raw_issues: Vec<RawIssue>, agents: Result<Vec<AgentRef>, AppError>, fetched_at: i64) -> (l:
    LoadedBoard)
    ensures
        views(l.board.slices@) == board_slices(issue_views(raw_issues@)),
        l.board.prds@ == board_parts(issue_views(raw_issues@), open_refs(issue_views(raw_issues@))).1,
        l.board.other@ == board_parts(issue_views(raw_issues@), open_refs(issue_views(raw_issues@))).2,
        l.board.agents@ == discovered_agents(agents),
        l.snapshot.issues() == raw_issues@,
        l.snapshot.agent_refs() == discovered_agents(agents),
        l.snapshot.fetched() == fetched_at,
{
    let found = match agents {
        Ok(a) => a,
        Err(_) => Vec::new(),
    };
    load_board(raw_issues, found, fetched_at)
}

/// Refresh a retained snapshot with a fetched delta: merge it, reclassify,
/// and report `Unchanged` exactly when the merged issues and the Agents hold
/// the same facts as the snapshot.
pub fn refresh_board(snapshot: &BoardSnapshot, delta: &[RawIssue], fetched_at: i64) -> (r: BoardRefresh)
    ensures
        ({
            let m = merged(issue_views(snapshot.issues()), issue_views(delta@));
            match r {
                BoardRefresh::Unchanged => issue_views(snapshot.issues()).map_values(
                    |v: RawIssueView| issue_facts(v),
                ) == m.map_values(|v: RawIssueView| issue_facts(v)),
                BoardRefresh::Changed(l) => {
                    &&& issue_views(snapshot.issues()).map_values(|v: RawIssueView| issue_facts(v))
                        != m.map_values(|v: RawIssueView| issue_facts(v))
                    &&& issue_views(l.snapshot.issues()) == m
                    &&& l.snapshot.agent_refs() == snapshot.agent_refs()
                    &&& l.snapshot.fetched() == fetched_at
                    &&& views(l.board.slices@) == board_slices(m)
                    &&& l.board.prds@ == board_parts(m, open_refs(m)).1
                    &&& l.board.other@ == board_parts(m, open_refs(m)).2
                    &&& l.board.agents@ == snapshot.agent_refs()
                },
            }
        }),
{
    let raw_issues = merge_issues(snapshot.raw_issues.as_slice(), delta);
    let agents = snapshot.agents.clone();
    assert(agents@ =~= snapshot.agents@);
    let loaded = load_board(raw_issues, agents, fetched_at);
    proof {
        lemma_same_agents_refl(snapshot.agent_refs());
    }
    if loaded.snapshot.same_facts_as(snapshot) {
        return BoardRefresh::Unchanged;
    }
    BoardRefresh::Changed(loaded)
}

/// An Agent set holds the same facts as itself.
proof fn lemma_same_agents_refl(a: Seq<AgentRef>)
    ensures
        same_agents(a, a),
{
}

/// The same text, optional on both sides.
fn same_opt_text(a: &Option<String>, b: &Option<String>) -> (r: bool)
    ensures
        r == (opt_text(*a) == opt_text(*b)),
{
    match (a, b) {
        (Some(x), Some(y)) => str_eq(x.as_str(), y.as_str()),
        (None, None) => true,
        _ => false,
    }
}

/// The same labels, in order.
fn same_labels(a: &Vec<String>, b: &Vec<String>) -> (r: bool)
    ensures
        r == (a@.map_values(|l: String| l@) == b@.map_values(|l: String| l@)),
{
    if a.len() != b.len() {
        assert(a@.map_values(|l: String| l@).len() != b@.map_values(|l: String| l@).len());
        return false;
    }
    let mut i: usize = 0;
    while i < a.len()
        invariant
            a.len() == b.len(),
            i <= a.len(),
            forall|j: int| 0 <= j < i ==> (#[trigger] a@[j])@ == b@[j]@,
        decreases a.len() - i,
    {
        if !str_eq(a[i].as_str(), b[i].as_str()) {
            assert(a@.map_values(|l: String| l@)[i as int] != b@.map_values(|l: String| l@)[i as int]);
            return false;
        }
        i += 1;
    }
    assert(a@.map_values(|l: String| l@) =~= b@.map_values(|l: String| l@));
    true
}

/// The same linked Pull Request facts.
fn same_pr(a: &LinkedPrRef, b: &LinkedPrRef) -> (r: bool)
    ensures
        r == (pr_facts(*a) == pr_facts(*b)),
{
    a.number == b.number && same_opt_text(&a.author, &b.author) && str_eq(
        a.title.as_str(),
        b.title.as_str(),
    ) && str_eq(a.url.as_str(), b.url.as_str()) && a.pr_status == b.pr_status && a.conflicts
        == b.conflicts && a.ci_failing == b.ci_failing && a.unresolved_comment_count
        == b.unresolved_comment_count
}

/// The same linked Pull Requests, in order.
fn same_prs(a: &Vec<LinkedPrRef>, b: &Vec<LinkedPrRef>) -> (r: bool)
    ensures
        r == (a@.map_values(|p: LinkedPrRef| pr_facts(p)) == b@.map_values(
            |p: LinkedPrRef| pr_facts(p),
        )),
{
    if a.len() != b.len() {
        assert(a@.map_values(|p: LinkedPrRef| pr_facts(p)).len() != b@.map_values(
            |p: LinkedPrRef| pr_facts(p),
        ).len());
        return false;
    }
    let mut i: usize = 0;
    while i < a.len()
        invariant
            a.len() == b.len(),
            i <= a.len(),
            forall|j: int| 0 <= j < i ==> pr_facts(#[trigger] a@[j]) == pr_facts(b@[j]),
        decreases a.len() - i,
    {
        if !same_pr(&a[i], &b[i]) {
            assert(a@.map_values(|p: LinkedPrRef| pr_facts(p))[i as int] != b@.map_values(
                |p: LinkedPrRef| pr_facts(p),
            )[i as int]);
            return false;
        }
        i += 1;
    }
    assert(a@.map_values(|p: LinkedPrRef| pr_facts(p)) =~= b@.map_values(
        |p: LinkedPrRef| pr_facts(p),
    ));
    true
}

/// The same blocker numbers, in order.
fn same_numbers(a: &Vec<u64>, b: &Vec<u64>) -> (r: bool)
    ensures
        r == (a@ == b@),
{
    if a.len() != b.len() {
        return false;
    }
    let mut i: usize = 0;
    while i < a.len()
        invariant
            a.len() == b.len(),
            i <= a.len(),
            forall|j: int| 0 <= j < i ==> a@[j] == b@[j],
        decreases a.len() - i,
    {
        if a[i] != b[i] {
            return false;
        }
        i += 1;
    }
    assert(a@ =~= b@);
    true
}

/// The same raw issue facts.
fn same_issue(a: &RawIssue, b: &RawIssue) -> (r: bool)
    ensures
        r == (issue_facts(a@) == issue_facts(b@)),
{
    let r = a.number == b.number && str_eq(a.title.as_str(), b.title.as_str()) && str_eq(
        a.url.as_str(),
        b.url.as_str(),
    ) && same_opt_text(&a.body, &b.body) && same_labels(&a.labels, &b.labels) && a.closed
        == b.closed && a.native_parent == b.native_parent && same_numbers(
        &a.native_blockers,
        &b.native_blockers,
    ) && same_opt_text(&a.assignee, &b.assignee) && same_opt_text(
        &a.assignee_avatar_url,
        &b.assignee_avatar_url,
    ) && same_prs(&a.linked_prs, &b.linked_prs) && a.is_native_child_of_prd
        == b.is_native_child_of_prd;
    r
}

/// The same raw issue facts, issue by issue in order.
fn same_issue_list(a: &Vec<RawIssue>, b: &Vec<RawIssue>) -> (r: bool)
    ensures
        r == same_issues(a@, b@),
{
    let ghost fa = issue_views(a@).map_values(|v: RawIssueView| issue_facts(v));
    let ghost fb = issue_views(b@).map_values(|v: RawIssueView| issue_facts(v));
    if a.len() != b.len() {
        assert(fa.len() != fb.len());
        return false;
    }
    let mut i: usize = 0;
    while i < a.len()
        invariant
            a.len() == b.len(),
            i <= a.len(),
            fa == issue_views(a@).map_values(|v: RawIssueView| issue_facts(v)),
            fb == issue_views(b@).map_values(|v: RawIssueView| issue_facts(v)),
            forall|j: int| 0 <= j < i ==> #[trigger] fa[j] == fb[j],
        decreases a.len() - i,
    {
        if !same_issue(&a[i], &b[i]) {
            assert(fa[i as int] != fb[i as int]);
            return false;
        }
        i += 1;
    }
    assert(fa =~= fb);
    true
}

/// The same Agent facts, in order.
fn same_agent_list(a: &Vec<AgentRef>, b: &Vec<AgentRef>) -> (r: bool)
    ensures
        r == same_agents(a@, b@),
{
    let ghost fa = a@.map_values(|x: AgentRef| agent_facts(x));
    let ghost fb = b@.map_values(|x: AgentRef| agent_facts(x));
    if a.len() != b.len() {
        assert(fa.len() != fb.len());
        return false;
    }
    let mut i: usize = 0;
    while i < a.len()
        invariant
            a.len() == b.len(),
            i <= a.len(),
            fa == a@.map_values(|x: AgentRef| agent_facts(x)),
            fb == b@.map_values(|x: AgentRef| agent_facts(x)),
            forall|j: int| 0 <= j < i ==> #[trigger] fa[j] == fb[j],
        decreases a.len() - i,
    {
        if !(str_eq(a[i].name.as_str(), b[i].name.as_str()) && str_eq(
            a[i].node_id.as_str(),
            b[i].node_id.as_str(),
        )) {
            assert(fa[i as int] != fb[i as int]);
            return false;
        }
        i += 1;
    }
    assert(fa =~= fb);
    true
}

} // verus!
