use zfirot::classification::RawIssue;
use zfirot::fixtures::sample_raw_issues;
use zfirot::refresh::{load_board, merge_issues, refresh_board, BoardRefresh, BoardSnapshot};
use zfirot::slice::SliceState;

fn blocker() -> RawIssue {
    RawIssue {
        number: 42,
        title: "Blocker".to_string(),
        url: "https://github.com/funkode-io/zfirot/issues/42".to_string(),
        body: None,
        labels: vec!["slice".to_string()],
        closed: false,
        native_parent: None,
        native_blockers: vec![],
        assignee: None,
        assignee_avatar_url: None,
        linked_prs: vec![],
        is_native_child_of_prd: false,
    }
}

fn blocked() -> RawIssue {
    RawIssue {
        number: 43,
        title: "Blocked".to_string(),
        url: "https://github.com/funkode-io/zfirot/issues/43".to_string(),
        native_blockers: vec![42],
        ..blocker()
    }
}

#[test]
fn refresh_reports_unchanged_when_snapshot_facts_match() {
    let loaded = load_board(sample_raw_issues(), vec![], 1_000);
    assert_eq!(refresh_board(&loaded.snapshot, &[], 2_000), BoardRefresh::Unchanged);
}

#[test]
fn refresh_reports_changed_when_snapshot_facts_differ() {
    let loaded = load_board(sample_raw_issues(), vec![], 1_000);
    let closed_three = RawIssue {
        number: 3,
        title: "Derive SliceState as a pure domain function".to_string(),
        url: "https://github.com/funkode-io/zfirot/issues/3".to_string(),
        body: None,
        labels: vec!["ready-for-agent".to_string()],
        closed: true,
        native_parent: Some(1),
        native_blockers: vec![],
        assignee: None,
        assignee_avatar_url: None,
        linked_prs: vec![],
        is_native_child_of_prd: true,
    };
    match refresh_board(&loaded.snapshot, &[closed_three], 2_000) {
        BoardRefresh::Changed(view) => {
            assert!(view.board.slices.iter().all(|slice| slice.number != 3));
            assert_eq!(view.snapshot.fetched_at, 2_000);
        }
        BoardRefresh::Unchanged => panic!("refresh should report changed when the issue set differs"),
    }
}

#[test]
fn refresh_rederives_blocked_state_when_blocker_closes_in_delta() {
    let loaded = load_board(vec![blocker(), blocked()], vec![], 10);
    let before = loaded.board.slices.iter().find(|s| s.number == 43).unwrap();
    assert_eq!(before.state, SliceState::Blocked);
    let closed = RawIssue { closed: true, ..blocker() };
    let updated = match refresh_board(&loaded.snapshot, &[closed], 20) {
        BoardRefresh::Changed(updated) => updated,
        BoardRefresh::Unchanged => panic!("closed blocker should change board state"),
    };
    let after = updated.board.slices.iter().find(|s| s.number == 43).unwrap();
    assert_ne!(after.state, SliceState::Blocked);
}

#[test]
fn refresh_is_idempotent_when_since_overlap_refetches_same_issue() {
    let initial = sample_raw_issues();
    let refetched = initial.iter().find(|issue| issue.number == 3).unwrap().clone();
    let loaded = load_board(initial, vec![], 1);
    assert_eq!(refresh_board(&loaded.snapshot, &[refetched], 2), BoardRefresh::Unchanged);
}

#[test]
fn merge_replaces_removes_and_appends() {
    let retained = vec![blocker(), blocked()];
    let renamed = RawIssue { title: "Renamed".to_string(), ..blocked() };
    let new_issue = RawIssue { number: 50, ..blocker() };
    let closed_blocker = RawIssue { closed: true, ..blocker() };
    let closed_unknown = RawIssue { number: 60, closed: true, ..blocker() };
    let merged = merge_issues(&retained, &[renamed.clone(), new_issue.clone(), closed_blocker, closed_unknown]);
    assert_eq!(merged, vec![renamed, new_issue]);
}

#[test]
fn same_facts_ignore_the_fetch_time() {
    let a = BoardSnapshot::new(vec![blocker()], vec![], 1);
    let b = BoardSnapshot::new(vec![blocker()], vec![], 99);
    assert!(a.same_facts_as(&b));
    let c = BoardSnapshot::new(vec![blocked()], vec![], 1);
    assert!(!a.same_facts_as(&c));
    assert_eq!(a.raw_issues().len(), 1);
    assert!(a.agents().is_empty());
}

#[test]
fn merging_keeps_retained_slots_appends_new_issues_and_is_idempotent() {
    let first = RawIssue { number: 1, ..blocker() };
    let second = RawIssue { number: 2, ..blocker() };
    let third = RawIssue { number: 3, ..blocker() };
    let retained = vec![first.clone(), second.clone(), third.clone()];
    let renamed_third = RawIssue { title: "Renamed".to_string(), ..third.clone() };
    let new_nine = RawIssue { number: 9, ..blocker() };
    let new_eight = RawIssue { number: 8, ..blocker() };
    let closed_first = RawIssue { closed: true, ..first.clone() };
    let delta = vec![new_nine.clone(), renamed_third.clone(), closed_first, new_eight.clone()];
    let merged = merge_issues(&retained, &delta);
    assert_eq!(merged, vec![second, renamed_third, new_nine, new_eight]);
    assert_eq!(merge_issues(&merged, &delta), merged);
}

#[test]
fn classify_board_degrades_to_empty_agents_when_discovery_fails() {
    let failed = zfirot::refresh::load_outcome(sample_raw_issues(), Err(zfirot::error::AppError::unavailable("GitHub is down")), 5);
    assert!(failed.board.agents.is_empty(), "a discovery failure degrades to an empty agent set");
    assert!(failed.snapshot.agents().is_empty());
    assert_eq!(failed.board, zfirot::board::classify(&sample_raw_issues(), &[]));
    assert_eq!(failed.snapshot.fetched_at, 5);

    let copilot = zfirot::prd::AgentRef { name: "copilot".to_string(), node_id: "BOT_1".to_string() };
    let found = zfirot::refresh::load_outcome(sample_raw_issues(), Ok(vec![copilot.clone()]), 6);
    assert_eq!(found.board.agents, vec![copilot.clone()]);
    assert_eq!(found.snapshot.agents(), &vec![copilot]);
}
