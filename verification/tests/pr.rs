use zfirot::pr::{PrStatus, ReviewDecision};

#[test]
fn derives_the_review_lifecycle_stage_from_github_facts() {
    let cases: [(&str, bool, Option<ReviewDecision>, PrStatus); 6] = [
        ("draft with no decision -> Draft", true, None, PrStatus::Draft),
        ("draft wins over any review decision", true, Some(ReviewDecision::Approved), PrStatus::Draft),
        ("approved -> Approved", false, Some(ReviewDecision::Approved), PrStatus::Approved),
        (
            "changes requested -> ChangesRequested",
            false,
            Some(ReviewDecision::ChangesRequested),
            PrStatus::ChangesRequested,
        ),
        (
            "review required -> AwaitingReview",
            false,
            Some(ReviewDecision::ReviewRequired),
            PrStatus::AwaitingReview,
        ),
        ("no decision (review not required) -> AwaitingReview", false, None, PrStatus::AwaitingReview),
    ];
    for (name, is_draft, review_decision, expected) in cases {
        assert_eq!(PrStatus::derive(is_draft, review_decision), expected, "{}", name);
    }
}

#[test]
fn is_ordered_from_furthest_from_done_to_done() {
    assert!(PrStatus::Draft < PrStatus::AwaitingReview);
    assert!(PrStatus::AwaitingReview < PrStatus::ChangesRequested);
    assert!(PrStatus::ChangesRequested < PrStatus::Approved);
    let statuses = [PrStatus::Draft, PrStatus::Approved, PrStatus::AwaitingReview];
    assert_eq!(statuses.iter().max().copied(), Some(PrStatus::Approved));
}
