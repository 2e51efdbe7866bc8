use zfirot::pr::PrStatus;
use zfirot::prd::PrdRef;
use zfirot::slice::{
    resolve_unblocks, BoardSummary, DependencyRef, LinkedPrRef, RawSlice, Slice, SliceState,
};

fn ready_raw() -> RawSlice {
    RawSlice {
        number: 1,
        title: "A Slice".to_string(),
        url: "https://github.com/funkode-io/zfirot/issues/1".to_string(),
        closed: false,
        prd: Some(PrdRef {
            number: 7,
            title: "A PRD".to_string(),
            url: "https://github.com/funkode-io/zfirot/issues/7".to_string(),
        }),
        assignee: None,
        assignee_avatar_url: None,
        linked_prs: vec![],
        blockers: vec![],
        unblocks: vec![],
    }
}

fn linked_pr() -> LinkedPrRef {
    LinkedPrRef {
        number: 200,
        author: Some("hubot".to_string()),
        title: "Implement the Slice".to_string(),
        url: "https://github.com/funkode-io/zfirot/pull/200".to_string(),
        pr_status: PrStatus::AwaitingReview,
        conflicts: false,
        ci_failing: false,
        unresolved_comment_count: 0,
    }
}

fn blockers(n: u64) -> Vec<DependencyRef> {
    (0..n)
        .map(|i| DependencyRef {
            number: 100 + i,
            title: format!("Blocker {}", 100 + i),
            url: format!("https://github.com/funkode-io/zfirot/issues/{}", 100 + i),
        })
        .collect()
}

#[test]
fn derives_each_state_including_done() {
    let cases: [(&str, bool, Option<&str>, bool, u64, SliceState); 8] = [
        ("no blockers, no PR, no assignee -> Ready", false, None, false, 0, SliceState::Ready),
        ("open linked PR -> WIP", false, None, true, 0, SliceState::Wip),
        ("assigned but no PR -> WIP (no longer Ready)", false, Some("octocat"), false, 0, SliceState::Wip),
        ("open blocker -> Blocked", false, None, false, 1, SliceState::Blocked),
        ("Blocked outranks WIP (PR + open blocker)", false, Some("octocat"), true, 2, SliceState::Blocked),
        ("WIP outranks Ready (assignee present)", false, Some("octocat"), false, 0, SliceState::Wip),
        ("closed -> Done", true, None, false, 0, SliceState::Done),
        ("closed wins even with an open blocker", true, None, false, 3, SliceState::Done),
    ];

    for (name, closed, assignee, has_pr, blocker_count, expected) in cases {
        let raw = RawSlice {
            closed,
            assignee: assignee.map(str::to_string),
            linked_prs: if has_pr { vec![linked_pr()] } else { vec![] },
            blockers: blockers(blocker_count),
            ..ready_raw()
        };
        assert_eq!(raw.derive_state(), expected, "{}", name);
    }
}

#[test]
fn done_is_excluded_from_the_board_columns() {
    assert!(!SliceState::board().contains(&SliceState::Done), "Done must not be a board column");
    assert_eq!(SliceState::board(), [SliceState::Ready, SliceState::Wip, SliceState::Blocked]);
}

#[test]
fn into_slice_carries_fields_and_derived_state() {
    let raw = RawSlice {
        number: 42,
        title: "Wire the thing".to_string(),
        assignee: Some("octocat".to_string()),
        assignee_avatar_url: Some("https://avatars.githubusercontent.com/u/1?v=4".to_string()),
        linked_prs: vec![linked_pr()],
        ..ready_raw()
    };

    let slice = raw.into_slice();

    assert_eq!(slice.number, 42);
    assert_eq!(slice.title, "Wire the thing");
    assert_eq!(slice.url, "https://github.com/funkode-io/zfirot/issues/1");
    assert_eq!(slice.prd.as_ref().map(|prd| prd.title.as_str()), Some("A PRD"));
    assert_eq!(slice.assignee.as_deref(), Some("octocat"));
    assert_eq!(
        slice.assignee_avatar_url.as_deref(),
        Some("https://avatars.githubusercontent.com/u/1?v=4")
    );
    assert_eq!(slice.state, SliceState::Wip);
    assert_eq!(slice.linked_prs, vec![linked_pr()]);
}

#[test]
fn into_slice_is_done_for_a_closed_issue() {
    let raw = RawSlice { closed: true, ..ready_raw() };
    assert_eq!(raw.into_slice().state, SliceState::Done);
}

fn dep(number: u64) -> DependencyRef {
    DependencyRef {
        number,
        title: format!("Slice {number}"),
        url: format!("https://github.com/funkode-io/zfirot/issues/{number}"),
    }
}

fn raw_with(number: u64, blockers: Vec<DependencyRef>) -> RawSlice {
    RawSlice {
        number,
        title: format!("Slice {number}"),
        url: format!("https://github.com/funkode-io/zfirot/issues/{number}"),
        blockers,
        ..ready_raw()
    }
}

#[test]
fn resolve_unblocks_derives_the_reverse_edge_across_the_board() {
    let mut board = vec![raw_with(4, vec![]), raw_with(6, vec![dep(4)]), raw_with(9, vec![dep(6), dep(99)])];

    resolve_unblocks(&mut board);

    let unblocks = |number: u64| -> Vec<u64> {
        board.iter().find(|s| s.number == number).unwrap().unblocks.iter().map(|d| d.number).collect()
    };

    assert_eq!(unblocks(4), vec![6]);
    assert_eq!(unblocks(6), vec![9]);
    assert_eq!(unblocks(9), Vec::<u64>::new());
    assert!(board.iter().all(|s| s.number != 99));
}

#[test]
fn resolve_unblocks_collects_all_dependents_in_order() {
    let mut board = vec![raw_with(1, vec![]), raw_with(5, vec![dep(1)]), raw_with(3, vec![dep(1)])];

    resolve_unblocks(&mut board);

    let one = board.iter().find(|s| s.number == 1).unwrap();
    assert_eq!(one.unblocks, vec![dep(5), dep(3)], "dependents follow board input order with their refs");
}

#[test]
fn resolve_unblocks_clears_stale_reverse_edges_on_rerun() {
    let mut board = vec![raw_with(4, vec![]), raw_with(6, vec![dep(4)])];
    resolve_unblocks(&mut board);
    let four = board.iter().find(|s| s.number == 4).unwrap();
    assert_eq!(four.unblocks, vec![dep(6)]);

    board.iter_mut().find(|s| s.number == 6).unwrap().blockers.clear();
    resolve_unblocks(&mut board);

    let four = board.iter().find(|s| s.number == 4).unwrap();
    assert!(four.unblocks.is_empty(), "a Slice that no longer blocks anything has no stale reverse edge");
}

fn slice_in(number: u64, state: SliceState) -> Slice {
    Slice {
        number,
        title: format!("Slice {number}"),
        url: format!("https://github.com/funkode-io/zfirot/issues/{number}"),
        prd: None,
        assignee: None,
        assignee_avatar_url: None,
        state,
        blockers: vec![],
        unblocks: vec![],
        linked_prs: vec![],
    }
}

#[test]
fn board_summary_counts_each_state_and_ignores_done() {
    let slices = vec![
        slice_in(1, SliceState::Ready),
        slice_in(2, SliceState::Ready),
        slice_in(3, SliceState::Wip),
        slice_in(4, SliceState::Blocked),
        slice_in(5, SliceState::Blocked),
        slice_in(6, SliceState::Blocked),
        slice_in(7, SliceState::Done),
        slice_in(8, SliceState::Done),
    ];

    let summary = BoardSummary::from_slices(&slices);

    assert_eq!(summary.ready, 2, "two Ready Slices");
    assert_eq!(summary.wip, 1, "one WIP Slice");
    assert_eq!(summary.blocked, 3, "three Blocked Slices");
    assert_eq!(summary.total(), 6, "the total is the visible board only (Done excluded)");
}

#[test]
fn board_summary_of_an_empty_board_is_all_zero() {
    let summary = BoardSummary::from_slices(&[]);
    assert_eq!(summary, BoardSummary::default());
    assert_eq!(summary.total(), 0);
}

#[test]
fn a_pr_is_ready_to_merge_only_when_approved_and_clean() {
    let approved = LinkedPrRef { pr_status: PrStatus::Approved, ..linked_pr() };
    assert!(approved.is_ready_to_merge());
    assert!(!LinkedPrRef { conflicts: true, ..approved.clone() }.is_ready_to_merge());
    assert!(!LinkedPrRef { ci_failing: true, ..approved.clone() }.is_ready_to_merge());
    assert!(!LinkedPrRef { unresolved_comment_count: 2, ..approved.clone() }.is_ready_to_merge());
    assert!(!linked_pr().is_ready_to_merge());
}

#[test]
fn resolving_unblocks_twice_gives_the_same_board() {
    let mut once = vec![raw_with(1, vec![]), raw_with(2, vec![dep(1)]), raw_with(3, vec![dep(1), dep(2)])];
    resolve_unblocks(&mut once);
    let mut twice = once.clone();
    resolve_unblocks(&mut twice);
    assert_eq!(once, twice);
}
