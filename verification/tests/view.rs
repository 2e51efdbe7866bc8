use zfirot::classification::IssueClassification;
use zfirot::error::AppErrorKind;
use zfirot::pr::PrStatus;
use zfirot::slice::{LinkedPrRef, SliceState};
use zfirot::view::{
    is_auth_failure, pr_headline_color, pr_headline_icon_class, pr_headline_label, pr_status_color,
    pr_status_icon_class, pr_status_label, segments, shell_class, slices_pill_label, state_badge_class,
    state_dot_color, state_label, CardBackground, CardElevation, Segment,
};
use zfirot::view::{card_dependencies, offers_assign, pr_badge_label, suggestion_badge};

fn rendered(segments: &[Segment]) -> Vec<(&'static str, String)> {
    segments
        .iter()
        .map(|segment| match segment {
            Segment::Text(text) => ("text", text.clone()),
            Segment::Link(url) => ("link", url.clone()),
        })
        .collect()
}

#[test]
fn default_shell_matches_the_compact_base100_card() {
    let class = shell_class(CardBackground::default(), CardElevation::default(), true, "");
    assert_eq!(class, "card card-compact bg-base-100 shadow-sm");
}

#[test]
fn base200_compact_shell_matches_the_slice_and_issue_cards() {
    let class = shell_class(CardBackground::Base200, CardElevation::Sm, true, "");
    assert_eq!(class, "card card-compact bg-base-200 shadow-sm");
}

#[test]
fn extras_are_appended_after_the_shell() {
    let class = shell_class(CardBackground::Base100, CardElevation::Sm, true, "hover:shadow-md transition-shadow");
    assert_eq!(class, "card card-compact bg-base-100 shadow-sm hover:shadow-md transition-shadow");
}

#[test]
fn non_compact_md_shell_matches_the_token_card() {
    let class = shell_class(CardBackground::Base100, CardElevation::Md, false, "w-full max-w-md");
    assert_eq!(class, "card bg-base-100 shadow-md w-full max-w-md");
}

#[test]
fn splits_text_and_url_with_trailing_punctuation() {
    let message = "Create a token at https://github.com/settings/tokens, then restart.";
    assert_eq!(
        rendered(&segments(message)),
        vec![
            ("text", "Create a token at ".to_string()),
            ("link", "https://github.com/settings/tokens".to_string()),
            ("text", ", then restart.".to_string()),
        ]
    );
}

#[test]
fn plain_text_is_a_single_segment() {
    assert_eq!(rendered(&segments("No token configured.")), vec![("text", "No token configured.".to_string())]);
}

#[test]
fn linkifies_each_url_when_both_schemes_appear() {
    let message = "See https://secure.example and http://plain.example now.";
    assert_eq!(
        rendered(&segments(message)),
        vec![
            ("text", "See ".to_string()),
            ("link", "https://secure.example".to_string()),
            ("text", " and ".to_string()),
            ("link", "http://plain.example".to_string()),
            ("text", " now.".to_string()),
        ]
    );
}

#[test]
fn an_empty_message_has_no_segments() {
    assert!(segments("").is_empty());
    assert_eq!(rendered(&segments("http://a.b).")), vec![("link", "http://a.b".to_string()), ("text", ").".to_string())]);
}

#[test]
fn labels_and_classes_for_each_state() {
    assert_eq!(state_label(SliceState::Wip), "WIP");
    assert_eq!(state_label(SliceState::Done), "Done");
    assert_eq!(state_badge_class(SliceState::Blocked), "badge-error");
    assert_eq!(state_dot_color(SliceState::Ready), "bg-success");
    assert_eq!(pr_status_label(PrStatus::ChangesRequested), "Changes requested");
    assert_eq!(pr_status_icon_class(PrStatus::Draft), "icon-[octicon--git-pull-request-draft-16]");
    assert_eq!(pr_status_color(PrStatus::AwaitingReview), "text-info");
}

fn pr(status: PrStatus, conflicts: bool) -> LinkedPrRef {
    LinkedPrRef {
        number: 1,
        author: None,
        title: "t".to_string(),
        url: "u".to_string(),
        pr_status: status,
        conflicts,
        ci_failing: false,
        unresolved_comment_count: 0,
    }
}

#[test]
fn a_ready_pr_headline_reads_ready_to_merge() {
    let ready = pr(PrStatus::Approved, false);
    assert_eq!(pr_headline_label(&ready), "Ready to merge");
    assert_eq!(pr_headline_icon_class(&ready), "icon-[octicon--git-merge-16]");
    assert_eq!(pr_headline_color(&ready), "text-success");
    let conflicted = pr(PrStatus::Approved, true);
    assert_eq!(pr_headline_label(&conflicted), "Approved");
    assert_eq!(pr_headline_icon_class(&conflicted), "icon-[octicon--check-circle-16]");
    assert_eq!(pr_headline_color(&pr(PrStatus::Draft, false)), "text-base-content/50");
}

#[test]
fn pill_label_and_auth_failures() {
    assert_eq!(slices_pill_label(1), "1 slice");
    assert_eq!(slices_pill_label(0), "0 slices");
    assert_eq!(slices_pill_label(12), "12 slices");
    assert!(is_auth_failure(AppErrorKind::Unauthorized));
    assert!(is_auth_failure(AppErrorKind::Forbidden));
    assert!(!is_auth_failure(AppErrorKind::RateLimited));
}

fn card(state: SliceState, assignee: Option<&str>, prs: Vec<LinkedPrRef>) -> zfirot::slice::Slice {
    let dep = |number: u64| zfirot::slice::DependencyRef {
        number,
        title: format!("Issue {number}"),
        url: format!("https://github.com/funkode-io/zfirot/issues/{number}"),
    };
    zfirot::slice::Slice {
        number: 7,
        title: "A slice".to_string(),
        url: "https://github.com/funkode-io/zfirot/issues/7".to_string(),
        prd: None,
        assignee: assignee.map(str::to_string),
        assignee_avatar_url: None,
        state,
        blockers: vec![dep(3)],
        unblocks: vec![dep(9), dep(10)],
        linked_prs: prs,
    }
}

#[test]
fn suggestion_badges_name_what_the_issue_looks_like() {
    assert_eq!(suggestion_badge(IssueClassification::SuggestedPrd), Some("looks like a PRD — confirm?"));
    assert_eq!(suggestion_badge(IssueClassification::SuggestedSlice), Some("looks like a Slice — confirm?"));
    assert_eq!(suggestion_badge(IssueClassification::Unclassified), None);
    assert_eq!(suggestion_badge(IssueClassification::Prd), None);
}

#[test]
fn a_blocked_card_lists_its_blockers_and_others_list_what_they_unblock() {
    let (label, deps) = card_dependencies(&card(SliceState::Blocked, None, vec![]));
    assert_eq!(label, "Blocked by");
    assert_eq!(deps.iter().map(|d| d.number).collect::<Vec<_>>(), vec![3]);
    let (label, deps) = card_dependencies(&card(SliceState::Ready, None, vec![]));
    assert_eq!(label, "Unblocks");
    assert_eq!(deps.iter().map(|d| d.number).collect::<Vec<_>>(), vec![9, 10]);
}

#[test]
fn only_an_unassigned_ready_slice_offers_assign_me() {
    assert!(offers_assign(&card(SliceState::Ready, None, vec![])));
    assert!(!offers_assign(&card(SliceState::Ready, Some("carlos-verdes"), vec![])));
    assert!(!offers_assign(&card(SliceState::Wip, None, vec![])));
    assert!(!offers_assign(&card(SliceState::Blocked, None, vec![])));
}

#[test]
fn pr_badges_show_the_number_and_author_when_known() {
    let mut with_author = pr(PrStatus::Draft, false);
    with_author.number = 12;
    with_author.author = Some("carlos-verdes".to_string());
    assert_eq!(pr_badge_label(&with_author), "pr #12 @carlos-verdes");
    assert_eq!(pr_badge_label(&pr(PrStatus::Draft, false)), "pr #1");
}

#[test]
fn the_best_pr_is_the_one_furthest_along_the_last_of_equals() {
    let mut draft = pr(PrStatus::Draft, false);
    draft.number = 1;
    let mut approved = pr(PrStatus::Approved, false);
    approved.number = 2;
    let mut changes = pr(PrStatus::ChangesRequested, false);
    changes.number = 3;
    let mut approved_again = pr(PrStatus::Approved, true);
    approved_again.number = 4;
    assert_eq!(card(SliceState::Wip, None, vec![]).best_pr(), None);
    let slice = card(SliceState::Wip, None, vec![draft.clone(), approved.clone(), changes.clone()]);
    assert_eq!(slice.best_pr().map(|p| p.number), Some(2));
    let tied = card(SliceState::Wip, None, vec![approved, changes, approved_again, draft]);
    assert_eq!(tied.best_pr().map(|p| p.number), Some(4));
    assert!(PrStatus::Draft < PrStatus::AwaitingReview);
    assert!(PrStatus::AwaitingReview < PrStatus::ChangesRequested);
    assert!(PrStatus::ChangesRequested < PrStatus::Approved);
}

#[test]
fn save_token_is_enabled_only_for_non_blank_input() {
    assert!(!zfirot::view::can_submit_token(""));
    assert!(!zfirot::view::can_submit_token("   \t"));
    assert!(zfirot::view::can_submit_token(" github_pat_x "));
}
