use zfirot::board::{classify, OtherIssue};
use zfirot::classification::{IssueClassification, RawIssue};
use zfirot::fixtures::sample_raw_issues;
use zfirot::prd::{AgentRef, Prd};
use zfirot::slice::SliceState;

fn raw(number: u64, labels: &[&str]) -> RawIssue {
    RawIssue {
        number,
        title: format!("Issue {number}"),
        url: format!("https://github.com/funkode-io/zfirot/issues/{number}"),
        body: None,
        labels: labels.iter().map(|l| l.to_string()).collect(),
        closed: false,
        native_parent: None,
        native_blockers: Vec::new(),
        assignee: None,
        assignee_avatar_url: None,
        linked_prs: Vec::new(),
        is_native_child_of_prd: false,
    }
}

#[test]
fn classify_is_a_pure_projection_over_raw_issues() {
    let raw_issues = sample_raw_issues();

    let board = classify(&raw_issues, &[]);
    let board_again = classify(&raw_issues, &[]);

    assert_eq!(board, board_again, "same raw issue set must classify to the same board");
}

#[test]
fn classify_splits_the_sample_into_slices_prds_and_other() {
    let board = classify(&sample_raw_issues(), &[]);

    let slices: Vec<(u64, SliceState)> = board.slices.iter().map(|s| (s.number, s.state)).collect();
    // #3 has closed native blocker #2 only and an assignee and PR: WIP.
    // #5 has native blockers [3, 2]; #3 is open, so it is Blocked.
    assert_eq!(slices, vec![(3, SliceState::Wip), (5, SliceState::Blocked)]);
    assert_eq!(board.prds, vec![Prd { number: 1, title: "Zfirot desktop dashboard".to_string() }]);
    let other: Vec<(u64, IssueClassification)> =
        board.other.iter().map(|o| (o.number, o.classification)).collect();
    assert_eq!(
        other,
        vec![
            (8, IssueClassification::SuggestedPrd),
            (9, IssueClassification::SuggestedSlice),
            (10, IssueClassification::Unclassified),
        ]
    );

    // Both Slices resolve their PRD: #3 natively, #5 through its prose parent.
    for slice in &board.slices {
        assert_eq!(slice.prd.as_ref().map(|p| p.number), Some(1));
        assert_eq!(slice.prd.as_ref().map(|p| p.title.as_str()), Some("Zfirot desktop dashboard"));
    }
    // The closed blocker #2 never shows as a badge; #3 unblocks #5.
    let three = &board.slices[0];
    assert!(three.blockers.is_empty());
    assert_eq!(three.unblocks.iter().map(|d| d.number).collect::<Vec<_>>(), vec![5]);
    let five = &board.slices[1];
    assert_eq!(five.blockers.iter().map(|d| d.number).collect::<Vec<_>>(), vec![3]);
    assert_eq!(three.assignee_avatar_url.as_deref(), Some("https://avatars.githubusercontent.com/u/1?v=4"));
}

#[test]
fn classify_falls_back_to_prose_links_when_native_ones_are_absent() {
    let prd = raw(1, &["prd"]);
    let blocker = raw(2, &["slice"]);
    let slice = RawIssue {
        body: Some("## Parent\n\n#1\n\n## Blocked by\n\n- #2\n- #77\n".to_string()),
        ..raw(3, &["slice"])
    };
    let board = classify(&[prd, blocker, slice], &[]);
    let three = board.slices.iter().find(|s| s.number == 3).expect("slice 3");
    assert_eq!(three.prd.as_ref().map(|p| p.number), Some(1));
    // #77 is not on the board, so only #2 blocks.
    assert_eq!(three.blockers.iter().map(|d| d.number).collect::<Vec<_>>(), vec![2]);
    assert_eq!(three.state, SliceState::Blocked);
}

#[test]
fn classify_omits_closed_issues_and_keeps_agents() {
    let closed = RawIssue { closed: true, ..raw(4, &["slice"]) };
    let agents = vec![AgentRef { name: "copilot".to_string(), node_id: "BOT_1".to_string() }];
    let board = classify(&[closed, raw(5, &[])], &agents);
    assert!(board.slices.is_empty());
    assert_eq!(
        board.other,
        vec![OtherIssue {
            number: 5,
            title: "Issue 5".to_string(),
            url: "https://github.com/funkode-io/zfirot/issues/5".to_string(),
            classification: IssueClassification::Unclassified,
        }]
    );
    assert_eq!(board.agents, agents);
}

#[test]
fn a_closed_native_parent_leaves_the_slice_without_a_prd() {
    let parent = RawIssue { closed: true, ..raw(1, &["prd"]) };
    let child = RawIssue { native_parent: Some(1), is_native_child_of_prd: true, ..raw(2, &[]) };
    let board = classify(&[parent, child], &[]);
    assert_eq!(board.slices.len(), 1);
    assert_eq!(board.slices[0].prd, None);
}

#[test]
fn classify_board_splits_issues_into_slices_prds_and_other() {
    let board = classify(&sample_raw_issues(), &[]);

    assert!(!board.slices.is_empty(), "expected at least one confirmed Slice");
    assert!(!board.prds.is_empty(), "expected at least one confirmed PRD");
    assert!(board.prds.iter().any(|p| p.number == 1), "issue #1 (prd label) should be a PRD");

    assert!(!board.slices.iter().any(|s| s.number == 2), "closed issue #2 must be omitted from slices");
    assert!(!board.prds.iter().any(|p| p.number == 2), "closed issue #2 must be omitted from prds");
    assert!(!board.other.iter().any(|o| o.number == 2), "closed issue #2 must be omitted from other");

    let suggested_prd = board.other.iter().find(|o| o.number == 8).expect("issue #8 should be in other");
    assert_eq!(suggested_prd.classification, IssueClassification::SuggestedPrd);
    let suggested_slice = board.other.iter().find(|o| o.number == 9).expect("issue #9 should be in other");
    assert_eq!(suggested_slice.classification, IssueClassification::SuggestedSlice);
    let unclassified = board.other.iter().find(|o| o.number == 10).expect("issue #10 should be in other");
    assert_eq!(unclassified.classification, IssueClassification::Unclassified);
}

#[test]
fn classify_board_derives_blocked_state_from_native_blockers() {
    let board = classify(&sample_raw_issues(), &[]);
    let slice5 = board.slices.iter().find(|s| s.number == 5).expect("issue #5 should be a confirmed Slice");
    assert_eq!(slice5.state, SliceState::Blocked, "issue #5 is Blocked by the still-open #3");
    let slice3 = board.slices.iter().find(|s| s.number == 3).expect("issue #3 should be a confirmed Slice");
    assert_ne!(slice3.state, SliceState::Blocked, "issue #3's only blocker (#2) is closed");
}

#[test]
fn classify_board_carries_linked_prs_onto_the_slice() {
    let board = classify(&sample_raw_issues(), &[]);
    let slice3 = board.slices.iter().find(|s| s.number == 3).expect("issue #3 should be a confirmed Slice");
    assert_eq!(slice3.linked_prs.len(), 1, "issue #3 has one open linked PR");
    assert_eq!(slice3.linked_prs[0].number, 12);
    assert_eq!(slice3.linked_prs[0].author.as_deref(), Some("carlos-verdes"));
}

#[test]
fn classify_board_resolves_prd_title_from_native_and_prose_parents() {
    let board = classify(&sample_raw_issues(), &[]);
    let slice3 = board.slices.iter().find(|s| s.number == 3).expect("issue #3 should be a confirmed Slice");
    assert_eq!(slice3.prd.as_ref().map(|prd| prd.title.as_str()), Some("Zfirot desktop dashboard"));
    let slice5 = board.slices.iter().find(|s| s.number == 5).expect("issue #5 should be a confirmed Slice");
    assert_eq!(slice5.prd.as_ref().map(|prd| prd.title.as_str()), Some("Zfirot desktop dashboard"));
}

#[test]
fn classify_board_places_slice_with_closed_native_parent_in_no_prd_lane() {
    let closed_prd = RawIssue {
        title: "Closed PRD".to_string(),
        closed: true,
        ..raw(50, &["prd"])
    };
    let slice = RawIssue {
        title: "Open Slice with closed native parent".to_string(),
        native_parent: Some(50),
        ..raw(51, &["slice"])
    };
    let board = classify(&[closed_prd, slice], &[]);
    assert_eq!(board.slices.len(), 1, "one open slice");
    assert_eq!(board.slices[0].prd, None, "a slice whose native parent PRD is closed renders under No PRD");
}

#[test]
fn classify_board_carries_zero_agents_when_none_are_discovered() {
    let board = classify(&[], &[]);
    assert!(board.agents.is_empty(), "no bots discovered means an empty agent set");
}

#[test]
fn classify_board_carries_one_agent_on_the_board() {
    let copilot = AgentRef { name: "copilot".to_string(), node_id: "BOT_NODE_1".to_string() };
    let board = classify(&[], &[copilot.clone()]);
    assert_eq!(board.agents, vec![copilot]);
}

#[test]
fn classify_board_carries_many_agents_on_the_board() {
    let bot_a = AgentRef { name: "copilot".to_string(), node_id: "BOT_1".to_string() };
    let bot_b = AgentRef { name: "other-bot".to_string(), node_id: "BOT_2".to_string() };
    let board = classify(&[], &[bot_a.clone(), bot_b.clone()]);
    assert_eq!(board.agents, vec![bot_a, bot_b]);
}
