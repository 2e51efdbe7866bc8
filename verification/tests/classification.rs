use zfirot::classification::{
    classify_issue, parse_blockers_from_body, parse_parent_from_body, IssueClassification,
    RawIssue,
};

/// A minimal raw issue with no labels, no body, and no native links.
fn blank_raw(number: u64) -> RawIssue {
    RawIssue {
        number,
        title: format!("Issue {number}"),
        url: format!("https://github.com/funkode-io/zfirot/issues/{number}"),
        body: None,
        labels: Vec::new(),
        closed: false,
        native_parent: None,
        native_blockers: Vec::new(),
        assignee: None,
        assignee_avatar_url: None,
        linked_prs: Vec::new(),
        is_native_child_of_prd: false,
    }
}

#[test]
fn prd_label_classifies_as_prd() {
    let raw = RawIssue { labels: vec!["prd".to_string()], ..blank_raw(1) };
    assert_eq!(classify_issue(&raw), IssueClassification::Prd);
}

#[test]
fn slice_label_classifies_as_slice() {
    let raw = RawIssue { labels: vec!["slice".to_string()], ..blank_raw(2) };
    assert_eq!(classify_issue(&raw), IssueClassification::Slice);
}

#[test]
fn ready_for_agent_label_classifies_as_slice() {
    let raw = RawIssue { labels: vec!["ready-for-agent".to_string()], ..blank_raw(3) };
    assert_eq!(classify_issue(&raw), IssueClassification::Slice);
}

#[test]
fn native_child_of_prd_classifies_as_slice() {
    let raw = RawIssue { is_native_child_of_prd: true, ..blank_raw(4) };
    assert_eq!(classify_issue(&raw), IssueClassification::Slice);
}

#[test]
fn prd_label_takes_precedence_over_native_child() {
    let raw = RawIssue {
        labels: vec!["prd".to_string()],
        is_native_child_of_prd: true,
        ..blank_raw(5)
    };
    assert_eq!(classify_issue(&raw), IssueClassification::Prd);
}

#[test]
fn prd_template_headings_suggest_prd() {
    let body = "## Problem Statement\n\nSome problem.\n\n## User Stories\n\n- As a user…";
    let raw = RawIssue { body: Some(body.to_string()), ..blank_raw(10) };
    assert_eq!(classify_issue(&raw), IssueClassification::SuggestedPrd);
}

#[test]
fn slice_template_headings_suggest_slice() {
    let body = "## What to build\n\nBuild the thing.\n\n## Acceptance criteria\n\n- [ ] It works";
    let raw = RawIssue { body: Some(body.to_string()), ..blank_raw(11) };
    assert_eq!(classify_issue(&raw), IssueClassification::SuggestedSlice);
}

#[test]
fn slice_headings_with_blocked_by_suggest_slice() {
    let body = "## What to build\n\nBuild it.\n\n## Blocked by\n\n- #3";
    let raw = RawIssue { body: Some(body.to_string()), ..blank_raw(12) };
    assert_eq!(classify_issue(&raw), IssueClassification::SuggestedSlice);
}

#[test]
fn slice_headings_with_parent_suggest_slice() {
    let body = "## What to build\n\nBuild it.\n\n## Parent\n\n#1";
    let raw = RawIssue { body: Some(body.to_string()), ..blank_raw(13) };
    assert_eq!(classify_issue(&raw), IssueClassification::SuggestedSlice);
}

#[test]
fn prd_headings_require_both_sections() {
    let body = "## Problem Statement\n\nSome problem.";
    let raw = RawIssue { body: Some(body.to_string()), ..blank_raw(14) };
    assert_ne!(classify_issue(&raw), IssueClassification::SuggestedPrd);
}

#[test]
fn slice_headings_require_what_to_build() {
    let body = "## Acceptance criteria\n\n- [ ] It works";
    let raw = RawIssue { body: Some(body.to_string()), ..blank_raw(15) };
    assert_ne!(classify_issue(&raw), IssueClassification::SuggestedSlice);
}

#[test]
fn tier1_takes_precedence_over_heuristic() {
    let body = "## Problem Statement\n\nX.\n\n## User Stories\n\nY.";
    let raw = RawIssue {
        labels: vec!["slice".to_string()],
        body: Some(body.to_string()),
        ..blank_raw(20)
    };
    assert_eq!(classify_issue(&raw), IssueClassification::Slice);
}

#[test]
fn no_match_is_unclassified() {
    let raw = blank_raw(99);
    assert_eq!(classify_issue(&raw), IssueClassification::Unclassified);
}

#[test]
fn body_with_unrelated_headings_is_unclassified() {
    let body = "## Summary\n\nJust a description.";
    let raw = RawIssue { body: Some(body.to_string()), ..blank_raw(100) };
    assert_eq!(classify_issue(&raw), IssueClassification::Unclassified);
}

#[test]
fn parse_parent_finds_owner_repo_ref() {
    let body = "## Parent\n\nfunkode-io/zfirot#1\n\n## Other\n\ntext";
    assert_eq!(parse_parent_from_body(body), Some(1));
}

#[test]
fn parse_parent_finds_bare_ref() {
    let body = "## Parent\n\n#42\n";
    assert_eq!(parse_parent_from_body(body), Some(42));
}

#[test]
fn parse_parent_case_insensitive_heading() {
    let body = "## PARENT\n\n#7\n";
    assert_eq!(parse_parent_from_body(body), Some(7));
}

#[test]
fn parse_parent_returns_none_when_section_absent() {
    let body = "## What to build\n\nStuff";
    assert_eq!(parse_parent_from_body(body), None);
}

#[test]
fn parse_parent_returns_none_when_no_ref_in_section() {
    let body = "## Parent\n\nSee the main issue.\n";
    assert_eq!(parse_parent_from_body(body), None);
}

#[test]
fn parse_blockers_finds_multiple_refs() {
    let body = "## Blocked by\n\n- funkode-io/zfirot#3\n- #7\n\n## Next";
    let blockers = parse_blockers_from_body(body);
    assert_eq!(blockers, vec![3, 7]);
}

#[test]
fn parse_blockers_finds_single_ref() {
    let body = "## Blocked by\n\n- #5\n";
    assert_eq!(parse_blockers_from_body(body), vec![5]);
}

#[test]
fn parse_blockers_case_insensitive_heading() {
    let body = "## BLOCKED BY\n\n- #9\n";
    assert_eq!(parse_blockers_from_body(body), vec![9]);
}

#[test]
fn parse_blockers_returns_empty_when_section_absent() {
    let body = "## Parent\n\n#1\n";
    assert!(parse_blockers_from_body(body).is_empty());
}

#[test]
fn parse_blockers_returns_empty_when_no_refs_in_section() {
    let body = "## Blocked by\n\nNone at this time.\n";
    assert!(parse_blockers_from_body(body).is_empty());
}

#[test]
fn suggested_label_confirms_only_suggestions() {
    assert_eq!(IssueClassification::SuggestedPrd.suggested_label(), Some("prd"));
    assert_eq!(IssueClassification::SuggestedSlice.suggested_label(), Some("slice"));
    assert_eq!(IssueClassification::Prd.suggested_label(), None);
    assert_eq!(IssueClassification::Unclassified.suggested_label(), None);
}

#[test]
fn confirmed_suggestion_reclassifies_tier_one() {
    let body = "## Problem Statement\n\nX.\n\n## User Stories\n\nY.";
    let suggested = RawIssue { body: Some(body.to_string()), ..blank_raw(30) };
    let suggestion = classify_issue(&suggested);
    assert_eq!(suggestion, IssueClassification::SuggestedPrd);
    let label = suggestion.suggested_label().expect("a suggestion has a label");
    let confirmed = RawIssue { labels: vec![label.to_string()], ..suggested };
    assert_eq!(classify_issue(&confirmed), IssueClassification::Prd);
}

#[test]
fn the_parent_is_the_first_hash_followed_by_digits() {
    assert_eq!(parse_parent_from_body("## parent#x#5"), Some(5));
    assert_eq!(parse_parent_from_body("## Parent\n\nsee #draft, then funkode-io/zfirot#12 and #13\n"), Some(12));
    assert_eq!(parse_parent_from_body("## Parent\n\n# and # only\n"), None);
}

#[test]
fn a_blocker_line_skips_a_bare_hash_before_its_reference() {
    assert_eq!(parse_blockers_from_body("## Blocked by\n\n- step # one: #7\n- #8\n"), vec![7, 8]);
}
