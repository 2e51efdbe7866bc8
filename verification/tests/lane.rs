use zfirot::lane::{group_into_lanes, PrdLane};
use zfirot::lane_graph::derive_lane_graph;
use zfirot::prd::PrdRef;
use zfirot::slice::{DependencyRef, Slice, SliceState};

fn prd(number: u64) -> PrdRef {
    PrdRef {
        number,
        title: format!("PRD {number}"),
        url: format!("https://github.com/funkode-io/zfirot/issues/{number}"),
    }
}

fn slice(number: u64, prd: Option<PrdRef>, state: SliceState) -> Slice {
    Slice {
        number,
        title: format!("Slice {number}"),
        url: format!("https://github.com/funkode-io/zfirot/issues/{number}"),
        prd,
        assignee: None,
        assignee_avatar_url: None,
        state,
        blockers: vec![],
        unblocks: vec![],
        linked_prs: vec![],
    }
}

fn blocker(number: u64) -> DependencyRef {
    DependencyRef {
        number,
        title: format!("Slice {number}"),
        url: format!("https://github.com/funkode-io/zfirot/issues/{number}"),
    }
}

fn ready_slice(number: u64, blockers: Vec<DependencyRef>) -> Slice {
    Slice {
        number,
        title: format!("Slice {number}"),
        url: format!("https://github.com/funkode-io/zfirot/issues/{number}"),
        prd: Some(prd(1)),
        assignee: None,
        assignee_avatar_url: None,
        state: SliceState::Ready,
        blockers,
        unblocks: vec![],
        linked_prs: vec![],
    }
}

fn graph_shape(slices: Vec<Slice>) -> (Vec<Vec<u64>>, Vec<(u64, u64)>) {
    let lane = PrdLane { prd: Some(prd(1)), slices };
    let graph = derive_lane_graph(&lane);
    let columns = graph
        .columns
        .iter()
        .map(|column| column.iter().map(|slice| slice.number).collect())
        .collect();
    let edges = graph.edges.iter().map(|edge| (edge.blocker, edge.blocked)).collect();
    (columns, edges)
}

#[test]
fn groups_in_first_seen_order_with_trailing_no_prd_lane() {
    let input = vec![
        slice(4, Some(prd(1)), SliceState::Ready),
        slice(5, Some(prd(10)), SliceState::Wip),
        slice(11, None, SliceState::Ready),
        slice(3, Some(prd(1)), SliceState::Blocked),
        slice(6, Some(prd(10)), SliceState::Ready),
        slice(7, Some(prd(99)), SliceState::Done),
    ];

    let lanes = group_into_lanes(input);

    let shape: Vec<(Option<u64>, Vec<u64>)> = lanes
        .iter()
        .map(|lane| {
            (lane.prd.as_ref().map(|p| p.number), lane.slices.iter().map(|s| s.number).collect())
        })
        .collect();

    assert_eq!(shape, vec![(Some(1), vec![4, 3]), (Some(10), vec![5, 6]), (None, vec![11])]);
}

#[test]
fn empty_input_yields_no_lanes() {
    assert!(group_into_lanes(Vec::<Slice>::new()).is_empty());
}

#[test]
fn an_all_done_prd_produces_no_lane() {
    let input = vec![
        slice(1, Some(prd(1)), SliceState::Done),
        slice(2, Some(prd(1)), SliceState::Done),
    ];
    assert!(group_into_lanes(input).is_empty());
}

#[test]
fn derive_lane_graph_layouts_and_edges_are_pure() {
    struct Case {
        name: &'static str,
        slices: Vec<Slice>,
        expected_columns: Vec<Vec<u64>>,
        expected_edges: Vec<(u64, u64)>,
    }

    let cases = vec![
        Case {
            name: "linear chain",
            slices: vec![
                ready_slice(1, vec![]),
                ready_slice(2, vec![blocker(1)]),
                ready_slice(3, vec![blocker(2)]),
            ],
            expected_columns: vec![vec![1], vec![2], vec![3]],
            expected_edges: vec![(1, 2), (2, 3)],
        },
        Case {
            name: "fan out and diamond",
            slices: vec![
                ready_slice(10, vec![]),
                ready_slice(11, vec![blocker(10)]),
                ready_slice(12, vec![blocker(10)]),
                ready_slice(13, vec![blocker(11), blocker(12)]),
            ],
            expected_columns: vec![vec![10], vec![11, 12], vec![13]],
            expected_edges: vec![(10, 11), (10, 12), (11, 13), (12, 13)],
        },
        Case {
            name: "isolated node",
            slices: vec![ready_slice(20, vec![])],
            expected_columns: vec![vec![20]],
            expected_edges: vec![],
        },
        Case {
            name: "cross lane blocker excluded",
            slices: vec![
                ready_slice(30, vec![blocker(999)]),
                ready_slice(31, vec![blocker(30), blocker(1000)]),
            ],
            expected_columns: vec![vec![30], vec![31]],
            expected_edges: vec![(30, 31)],
        },
        Case {
            name: "empty lane",
            slices: vec![],
            expected_columns: vec![],
            expected_edges: vec![],
        },
    ];

    for case in cases {
        let (columns, edges) = graph_shape(case.slices);
        assert_eq!(columns, case.expected_columns, "{}", case.name);
        assert_eq!(edges, case.expected_edges, "{}", case.name);
    }
}

#[test]
fn a_blocker_listed_after_its_dependent_still_sits_left() {
    let (columns, edges) = graph_shape(vec![
        ready_slice(3, vec![blocker(2)]),
        ready_slice(2, vec![blocker(1)]),
        ready_slice(1, vec![]),
    ]);
    assert_eq!(columns, vec![vec![1], vec![2], vec![3]]);
    assert_eq!(edges, vec![(2, 3), (1, 2)]);
}

#[test]
fn a_cycle_is_cut_where_the_walk_meets_it() {
    // 40 and 41 block each other: the walk from 40 reaches 41, which meets 40
    // on its path and counts it as a root.
    let (columns, edges) = graph_shape(vec![
        ready_slice(40, vec![blocker(41)]),
        ready_slice(41, vec![blocker(40)]),
    ]);
    assert_eq!(columns, vec![vec![41], vec![40]]);
    assert_eq!(edges, vec![(41, 40), (40, 41)]);
}

#[test]
fn the_longest_blocker_chain_sets_the_column() {
    let (columns, _) = graph_shape(vec![
        ready_slice(1, vec![]),
        ready_slice(2, vec![blocker(1)]),
        ready_slice(3, vec![blocker(2)]),
        ready_slice(4, vec![blocker(1), blocker(3)]),
    ]);
    assert_eq!(columns, vec![vec![1], vec![2], vec![3], vec![4]]);
}

#[test]
fn state_columns_bucket_a_lane_by_board_state_in_order() {
    let slices = vec![
        slice(1, None, SliceState::Wip),
        slice(2, None, SliceState::Ready),
        slice(3, None, SliceState::Done),
        slice(4, None, SliceState::Wip),
        slice(5, None, SliceState::Blocked),
    ];
    let columns = zfirot::lane::state_columns(&slices);
    let shape: Vec<(SliceState, Vec<u64>)> =
        columns.iter().map(|(state, bucket)| (*state, bucket.iter().map(|s| s.number).collect())).collect();
    assert_eq!(
        shape,
        vec![
            (SliceState::Ready, vec![2]),
            (SliceState::Wip, vec![1, 4]),
            (SliceState::Blocked, vec![5]),
        ]
    );
}

#[test]
fn a_slice_sits_one_column_right_of_its_deepest_blocker() {
    let a = ready_slice(1, vec![]);
    let b = ready_slice(2, vec![blocker(1)]);
    let c = ready_slice(3, vec![blocker(1), blocker(2)]);
    let (columns, _) = graph_shape(vec![c, b, a]);
    assert_eq!(columns, vec![vec![1], vec![2], vec![3]]);
}
