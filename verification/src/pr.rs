//! The review-lifecycle stage of a linked Pull Request.

use vstd::prelude::*;

verus! {

/// GitHub's review decision for a Pull Request, minus the states the board
/// does not distinguish.
#[derive(Clone, Copy, Debug, PartialEq, Eq, Structural)]
pub enum ReviewDecision {
    /// At least one approval and no outstanding change requests.
    Approved,
    /// Changes were requested on the pull request; the author must act.
    ChangesRequested,
    /// Review is required but no decision has been reached yet.
    ReviewRequired,
}

/// The review-lifecycle stage of an open linked PR, declared (and therefore
/// ordered) from furthest from done to done:
/// `Draft < AwaitingReview < ChangesRequested < Approved`.
#[derive(Clone, Copy, Debug, PartialEq, Eq, PartialOrd, Ord, Hash, Structural)]
pub enum PrStatus {
    /// Author still working; not up for review.
    Draft,
    /// Author is done; waiting for someone to look at it.
    AwaitingReview,
    /// Bounced back with requested changes; author must act.
    ChangesRequested,
    /// Approved; waiting on the merger.
    Approved,
}

/// The stage derived from GitHub facts: a draft is always `Draft`; otherwise
/// the decision maps directly and "no decision" or "review required" awaits
/// review.
pub open spec fn derive_status(is_draft: bool, review_decision: Option<ReviewDecision>) -> PrStatus {
    if is_draft {
        PrStatus::Draft
    } else {
        match review_decision {
            Some(ReviewDecision::Approved) => PrStatus::Approved,
            Some(ReviewDecision::ChangesRequested) => PrStatus::ChangesRequested,
            _ => PrStatus::AwaitingReview,
        }
    }
}

impl PrStatus {
    /// Derive the review-lifecycle stage from GitHub facts.
    pub fn derive(is_draft: bool, review_decision: Option<ReviewDecision>) -> (s: PrStatus)
        ensures
            s == derive_status(is_draft, review_decision),
    {
        if is_draft {
            return PrStatus::Draft;
        }
        match review_decision {
            Some(ReviewDecision::Approved) => PrStatus::Approved,
            Some(ReviewDecision::ChangesRequested) => PrStatus::ChangesRequested,
            Some(ReviewDecision::ReviewRequired) | None => PrStatus::AwaitingReview,
        }
    }
}

/// A draft PR is `Draft` whatever the review decision says.
pub proof fn law_draft_wins(review_decision: Option<ReviewDecision>)
    ensures
        derive_status(true, review_decision) == PrStatus::Draft,
{
}

/// The stage of a PR that is not a draft follows GitHub's review decision:
/// approved is `Approved`, changes requested is `ChangesRequested`, and review
/// required or no decision at all is `AwaitingReview`.
pub proof fn law_decision_table(review_decision: Option<ReviewDecision>)
    ensures
        derive_status(false, Some(ReviewDecision::Approved)) == PrStatus::Approved,
        derive_status(false, Some(ReviewDecision::ChangesRequested)) == PrStatus::ChangesRequested,
        derive_status(false, Some(ReviewDecision::ReviewRequired)) == PrStatus::AwaitingReview,
        derive_status(false, None) == PrStatus::AwaitingReview,
        derive_status(true, review_decision) == PrStatus::Draft,
{
}

} // verus!
