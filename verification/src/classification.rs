//! Two-tier classification of raw GitHub issues, and the prose fallback that
//! reads `## Parent` / `## Blocked by` sections out of an issue body.
//!
//! - Tier 1 (confident): a `prd` label makes a PRD; a native child of a PRD or
//!   a `slice` / `ready-for-agent` label makes a Slice.
//! - Tier 2 (heuristic): template headings in the body suggest a PRD or Slice.
//! - Tier 3: anything else is unclassified.

use vstd::prelude::*;

use crate::slice::LinkedPrRef;
use crate::text::{
    find_from, matches_at, all_digits, chars_of, contains, digit_run_end, digit_run_end_exec, find, find_exec, is_digit, is_digit_exec,
    is_ws, is_ws_exec, lemma_find_from, line_at, line_end, lower, lower_vec, parse_u64,
    parse_u64_exec, str_eq, sub_vec, trim, trim_vec,
};

verus! {

/// How an open GitHub issue has been classified.
#[derive(Clone, Copy, Debug, PartialEq, Eq, Structural)]
pub enum IssueClassification {
    /// Confident: carries the `prd` label.
    Prd,
    /// Confident: native child of a PRD, or carries `slice` / `ready-for-agent`.
    Slice,
    /// Heuristic: the body matches the PRD template headings; unconfirmed.
    SuggestedPrd,
    /// Heuristic: the body matches the Slice template headings; unconfirmed.
    SuggestedSlice,
    /// No match: shown among the other open issues with no suggestion.
    Unclassified,
}

/// The label that confirms a suggestion, if the classification is one.
pub open spec fn suggested_label_of(c: IssueClassification) -> Option<Seq<char>> {
    match c {
        IssueClassification::SuggestedPrd => Some("prd"@),
        IssueClassification::SuggestedSlice => Some("slice"@),
        _ => None,
    }
}

impl IssueClassification {
    /// The tier-1 label that confirms a suggested classification (`prd` or
    /// `slice`); `None` when there is nothing to confirm.
    pub fn suggested_label(&self) -> (l: Option<&'static str>)
        ensures
            match l {
                Some(s) => suggested_label_of(*self) == Some(s@),
                None => suggested_label_of(*self) is None,
            },
    {
        match self {
            IssueClassification::SuggestedPrd => Some("prd"),
            IssueClassification::SuggestedSlice => Some("slice"),
            _ => None,
        }
    }
}

/// Raw, GitHub-shaped facts about a single issue before classification.
#[derive(Debug, PartialEq, Eq)]
pub struct RawIssue {
    /// The GitHub issue number.
    pub number: u64,
    pub title: String,
    /// The issue's URL on GitHub.
    pub url: String,
    /// Raw Markdown body of the issue.
    pub body: Option<String>,
    /// Labels applied to the issue (e.g. `"prd"`, `"slice"`, `"ready-for-agent"`).
    pub labels: Vec<String>,
    /// `true` when the issue is closed.
    pub closed: bool,
    /// Issue number of the native sub-issue parent, if present.
    pub native_parent: Option<u64>,
    /// Issue numbers of native "blocked by" dependencies (open and closed).
    pub native_blockers: Vec<u64>,
    /// GitHub login of the assignee, when assigned.
    pub assignee: Option<String>,
    /// Avatar URL of the assignee, when assigned and available.
    pub assignee_avatar_url: Option<String>,
    /// The open Pull Requests linked to the issue via their closing reference.
    pub linked_prs: Vec<LinkedPrRef>,
    /// `true` when this issue is a native sub-issue child of a `prd`-labelled issue.
    pub is_native_child_of_prd: bool,
}

/// The abstract value of a [`RawIssue`]: its lists as sequences.
pub struct RawIssueView {
    pub number: u64,
    pub title: String,
    pub url: String,
    pub body: Option<String>,
    pub labels: Seq<String>,
    pub closed: bool,
    pub native_parent: Option<u64>,
    pub native_blockers: Seq<u64>,
    pub assignee: Option<String>,
    pub assignee_avatar_url: Option<String>,
    pub linked_prs: Seq<LinkedPrRef>,
    pub is_native_child_of_prd: bool,
}

impl View for RawIssue {
    type V = RawIssueView;

    open spec fn view(&self) -> RawIssueView {
        RawIssueView {
            number: self.number,
            title: self.title,
            url: self.url,
            body: self.body,
            labels: self.labels@,
            closed: self.closed,
            native_parent: self.native_parent,
            native_blockers: self.native_blockers@,
            assignee: self.assignee,
            assignee_avatar_url: self.assignee_avatar_url,
            linked_prs: self.linked_prs@,
            is_native_child_of_prd: self.is_native_child_of_prd,
        }
    }
}

impl Clone for RawIssue {
    fn clone(&self) -> (r: Self)
        ensures
            r@ == self@,
    {
        let r = RawIssue {
            number: self.number,
            title: self.title.clone(),
            url: self.url.clone(),
            body: self.body.clone(),
            labels: self.labels.clone(),
            closed: self.closed,
            native_parent: self.native_parent,
            native_blockers: self.native_blockers.clone(),
            assignee: self.assignee.clone(),
            assignee_avatar_url: self.assignee_avatar_url.clone(),
            linked_prs: self.linked_prs.clone(),
            is_native_child_of_prd: self.is_native_child_of_prd,
        };
        assert(r.labels@ =~= self.labels@);
        assert(r.native_blockers@ =~= self.native_blockers@);
        assert(r.linked_prs@ =~= self.linked_prs@);
        r
    }
}

/// The views of a list of raw issues.
pub open spec fn issue_views(issues: Seq<RawIssue>) -> Seq<RawIssueView> {
    issues.map_values(|r: RawIssue| r@)
}

/// Some label in `labels` is exactly `l`.
pub open spec fn has_label(labels: Seq<String>, l: Seq<char>) -> bool {
    exists|i: int| 0 <= i < labels.len() && (#[trigger] labels[i])@ == l
}

/// The text of an optional body; a missing body reads as empty.
pub open spec fn body_text(body: Option<String>) -> Seq<char> {
    match body {
        Some(b) => b@,
        None => Seq::empty(),
    }
}

/// The body carries the PRD template headings (case-insensitive).
pub open spec fn has_prd_headings(b: Seq<char>) -> bool {
    contains(lower(b), "## problem statement"@) && contains(lower(b), "## user stories"@)
}

/// The body carries the Slice template headings (case-insensitive).
pub open spec fn has_slice_headings(b: Seq<char>) -> bool {
    contains(lower(b), "## what to build"@) && (contains(lower(b), "## acceptance criteria"@)
        || contains(lower(b), "## blocked by"@) || contains(lower(b), "## parent"@))
}

/// The classification of a raw issue: tier 1, then tier 2, then unclassified.
pub open spec fn classification_of(raw: RawIssueView) -> IssueClassification {
    if has_label(raw.labels, "prd"@) {
        IssueClassification::Prd
    } else if raw.is_native_child_of_prd || has_label(raw.labels, "slice"@) || has_label(
        raw.labels,
        "ready-for-agent"@,
    ) {
        IssueClassification::Slice
    } else if has_prd_headings(body_text(raw.body)) {
        IssueClassification::SuggestedPrd
    } else if has_slice_headings(body_text(raw.body)) {
        IssueClassification::SuggestedSlice
    } else {
        IssueClassification::Unclassified
    }
}

/// Some label equals `l`.
fn any_label(labels: &Vec<String>, l: &str) -> (r: bool)
    ensures
        r == has_label(labels@, l@),
{
    let mut i: usize = 0;
    while i < labels.len()
        invariant
            i <= labels.len(),
            forall|k: int| 0 <= k < i ==> (#[trigger] labels@[k])@ != l@,
        decreases labels.len() - i,
    {
        if str_eq(labels[i].as_str(), l) {
            return true;
        }
        i += 1;
    }
    false
}

/// `pat` occurs in `s`.
fn contains_exec(s: &Vec<char>, pat: &str) -> (r: bool)
    ensures
        r == contains(s@, pat@),
{
    let p = chars_of(pat);
    find_exec(s, &p, 0).is_some()
}

/// Classify a raw issue with the two-tier strategy plus the unclassified fallback.
pub fn classify_issue(raw: &RawIssue) -> (c: IssueClassification)
    ensures
        c == classification_of(raw@),
{
    if any_label(&raw.labels, "prd") {
        return IssueClassification::Prd;
    }
    if raw.is_native_child_of_prd || any_label(&raw.labels, "slice") || any_label(
        &raw.labels,
        "ready-for-agent",
    ) {
        return IssueClassification::Slice;
    }
    let body: Vec<char> = match &raw.body {
        Some(b) => chars_of(b.as_str()),
        None => Vec::new(),
    };
    assert(body@ =~= body_text(raw.body));
    let lowered = lower_vec(&body);
    if contains_exec(&lowered, "## problem statement") && contains_exec(
        &lowered,
        "## user stories",
    ) {
        return IssueClassification::SuggestedPrd;
    }
    if contains_exec(&lowered, "## what to build") && (contains_exec(
        &lowered,
        "## acceptance criteria",
    ) || contains_exec(&lowered, "## blocked by") || contains_exec(&lowered, "## parent")) {
        return IssueClassification::SuggestedSlice;
    }
    IssueClassification::Unclassified
}

/// The two tiers, spelled out: a `prd` label makes a PRD; otherwise a native
/// PRD child or a `slice` / `ready-for-agent` label makes a Slice; otherwise
/// a body (lower-cased) holding both `## problem statement` and
/// `## user stories` is a suggested PRD; otherwise one holding
/// `## what to build` and any of `## acceptance criteria`, `## blocked by`,
/// `## parent` is a suggested Slice; anything else is unclassified.
pub proof fn law_classification_tiers(raw: RawIssueView)
    ensures
        ({
            let labelled = |l: Seq<char>| exists|i: int| 0 <= i < raw.labels.len() && (#[trigger] raw.labels[i])@ == l;
            let b = lower(body_text(raw.body));
            let prd = labelled("prd"@);
            let slice = raw.is_native_child_of_prd || labelled("slice"@) || labelled("ready-for-agent"@);
            let prd_headings = contains(b, "## problem statement"@) && contains(b, "## user stories"@);
            let slice_headings = contains(b, "## what to build"@) && (contains(b, "## acceptance criteria"@)
                || contains(b, "## blocked by"@) || contains(b, "## parent"@));
            &&& (classification_of(raw) == IssueClassification::Prd <==> prd)
            &&& (classification_of(raw) == IssueClassification::Slice <==> !prd && slice)
            &&& (classification_of(raw) == IssueClassification::SuggestedPrd <==> !prd && !slice && prd_headings)
            &&& (classification_of(raw) == IssueClassification::SuggestedSlice <==> !prd && !slice && !prd_headings
                && slice_headings)
            &&& (classification_of(raw) == IssueClassification::Unclassified <==> !prd && !slice && !prd_headings
                && !slice_headings)
        }),
{
}

/// A PRD label always wins, whatever else the issue carries.
pub proof fn law_prd_label_wins(raw: RawIssueView)
    requires
        has_label(raw.labels, "prd"@),
    ensures
        classification_of(raw) == IssueClassification::Prd,
{
}

/// A tier-1 Slice signal beats any heuristic heading match.
pub proof fn law_tier_one_beats_heuristics(raw: RawIssueView)
    requires
        !has_label(raw.labels, "prd"@),
        raw.is_native_child_of_prd || has_label(raw.labels, "slice"@),
    ensures
        classification_of(raw) == IssueClassification::Slice,
{
}

/// Confirming a suggestion adds its label, after which the issue classifies
/// tier-1: a confirmed PRD suggestion as a PRD, a confirmed Slice suggestion
/// as a Slice (unless the issue already carried `prd`, which always wins).
pub proof fn law_confirmed_suggestion_classifies_tier_one(
    raw: RawIssueView,
    suggestion: IssueClassification,
    label: String,
)
    requires
        suggested_label_of(suggestion) == Some(label@),
    ensures
        suggestion == IssueClassification::SuggestedPrd ==> classification_of(
            RawIssueView { labels: raw.labels.push(label), ..raw },
        ) == IssueClassification::Prd,
        suggestion == IssueClassification::SuggestedSlice ==> classification_of(
            RawIssueView { labels: raw.labels.push(label), ..raw },
        ) == if has_label(raw.labels, "prd"@) {
            IssueClassification::Prd
        } else {
            IssueClassification::Slice
        },
{
    reveal_strlit("prd");
    reveal_strlit("slice");
    let labels = raw.labels.push(label);
    assert(labels[raw.labels.len() as int] == label);
    assert(labels[raw.labels.len() as int]@ == label@);
    if has_label(labels, "prd"@) && !has_label(raw.labels, "prd"@) {
        let i = choose|i: int| 0 <= i < labels.len() && (#[trigger] labels[i])@ == "prd"@;
        if i < raw.labels.len() {
            assert(raw.labels[i] == labels[i]);
        }
    }
    if has_label(raw.labels, "prd"@) {
        let i = choose|i: int| 0 <= i < raw.labels.len() && (#[trigger] raw.labels[i])@ == "prd"@;
        assert(labels[i] == raw.labels[i]);
    }
}

// ── Prose fallback ──────────────────────────────────────────────────────────

/// The trimmed text of the first section whose heading matches `heading`
/// (a lower-case needle, matched case-insensitively), up to the next `\n##`.
pub open spec fn section_ci(body: Seq<char>, heading: Seq<char>) -> Option<Seq<char>> {
    match find(lower(body), heading) {
        None => None,
        Some(pos) => {
            let after = body.subrange(pos + heading.len(), body.len() as int);
            let end = match find(after, "\n##"@) {
                Some(e) => e,
                None => after.len() as int,
            };
            Some(trim(after.subrange(0, end)))
        },
    }
}

/// The first `#<number>` reference in `t` from index `i` on: the first `#`
/// that is followed by a digit, read as the number of its digit run (`None`
/// only when no `#` is followed by a digit, or when that run overflows).
pub open spec fn first_ref_from(t: Seq<char>, i: int) -> Option<u64>
    decreases t.len() - i,
{
    if i < 0 || i >= t.len() {
        None
    } else if t[i] == '#' && i + 1 < t.len() && is_digit(t[i + 1]) {
        parse_u64(t.subrange(i + 1, digit_run_end(t, i + 1)))
    } else {
        first_ref_from(t, i + 1)
    }
}

/// `t` holds a `#` directly followed by an ASCII digit at `h`.
pub open spec fn hash_digit_at(t: Seq<char>, h: int) -> bool {
    0 <= h && h + 1 < t.len() && t[h] == '#' && '0' <= t[h + 1] && t[h + 1] <= '9'
}

/// The search from `i` finds the first `#`-digit pair at or after `i`.
proof fn lemma_first_ref_from(t: Seq<char>, i: int, h: int)
    requires
        0 <= i <= h,
        hash_digit_at(t, h),
        forall|j: int| i <= j < h ==> !hash_digit_at(t, j),
    ensures
        first_ref_from(t, i) == parse_u64(t.subrange(h + 1, digit_run_end(t, h + 1))),
    decreases h - i,
{
    if i < h {
        assert(!hash_digit_at(t, i));
        lemma_first_ref_from(t, i + 1, h);
    }
}

/// Without any `#`-digit pair from `i` on, the search finds nothing.
proof fn lemma_first_ref_none(t: Seq<char>, i: int)
    requires
        0 <= i,
        forall|j: int| i <= j < t.len() ==> !hash_digit_at(t, j),
    ensures
        first_ref_from(t, i) is None,
    decreases t.len() - i,
{
    if i < t.len() {
        assert(!hash_digit_at(t, i));
        lemma_first_ref_none(t, i + 1);
    }
}

/// The reference a text gives is read at its first `#` directly followed by
/// a digit, whatever comes before it (a bare `#` or `#word` is skipped), as
/// the number of the digit run there; without such a `#` there is none.
pub proof fn law_first_reference(t: Seq<char>, h: int)
    ensures
        (forall|j: int| 0 <= j < t.len() ==> !hash_digit_at(t, j)) ==> first_issue_ref(t) is None,
        hash_digit_at(t, h) && (forall|j: int| 0 <= j < h ==> !hash_digit_at(t, j)) ==> first_issue_ref(t)
            == parse_u64(t.subrange(h + 1, digit_run_end(t, h + 1))),
{
    if forall|j: int| 0 <= j < t.len() ==> !hash_digit_at(t, j) {
        lemma_first_ref_none(t, 0);
    }
    if hash_digit_at(t, h) && (forall|j: int| 0 <= j < h ==> !hash_digit_at(t, j)) {
        lemma_first_ref_from(t, 0, h);
    }
}

/// The first `#<number>` reference in `t`.
pub open spec fn first_issue_ref(t: Seq<char>) -> Option<u64> {
    first_ref_from(t, 0)
}

/// The parent issue number from the `## Parent` section of a body.
pub open spec fn parent_from_body(body: Seq<char>) -> Option<u64> {
    match section_ci(body, "## parent"@) {
        Some(section) => first_issue_ref(section),
        None => None,
    }
}

/// `c` is a list marker or whitespace, stripped from the front of a blocker line.
pub open spec fn is_marker(c: char) -> bool {
    c == '-' || c == '*' || is_ws(c)
}

/// Index of the first non-marker character at or after `i`.
pub open spec fn marker_lead_from(s: Seq<char>, i: int) -> int
    decreases s.len() - i,
{
    if 0 <= i < s.len() && is_marker(s[i]) {
        marker_lead_from(s, i + 1)
    } else {
        i
    }
}

/// A line with its leading list markers and whitespace removed.
pub open spec fn strip_markers(line: Seq<char>) -> Seq<char> {
    line.subrange(marker_lead_from(line, 0), line.len() as int)
}

/// The first reference of each line of `s` from index `i` on, skipping lines
/// without one.
pub open spec fn blocker_refs_from(s: Seq<char>, i: int) -> Seq<u64>
    decreases s.len() + 1 - i,
{
    if i < 0 || i >= s.len() {
        Seq::empty()
    } else {
        proof {
            lemma_find_from(s, seq!['\n'], i);
        }
        let rest = blocker_refs_from(s, line_end(s, i) + 1);
        match first_issue_ref(strip_markers(line_at(s, i))) {
            Some(n) => seq![n] + rest,
            None => rest,
        }
    }
}

/// The blocker issue numbers from the `## Blocked by` section of a body.
pub open spec fn blockers_from_body(body: Seq<char>) -> Seq<u64> {
    match section_ci(body, "## blocked by"@) {
        Some(section) => blocker_refs_from(section, 0),
        None => Seq::empty(),
    }
}

/// The trimmed section under `heading` (matched case-insensitively).
fn extract_section_ci(body: &Vec<char>, heading: &str) -> (r: Option<Vec<char>>)
    ensures
        match r {
            Some(v) => section_ci(body@, heading@) == Some(v@),
            None => section_ci(body@, heading@) is None,
        },
{
    let lowered = lower_vec(body);
    let h = chars_of(heading);
    match find_exec(&lowered, &h, 0) {
        None => None,
        Some(pos) => {
            proof {
                lemma_find_from(lowered@, h@, 0);
                assert(find_from(lowered@, h@, 0) == Some(pos as int));
                assert(matches_at(lowered@, h@, pos as int));
                assert(lowered@.len() == lowered.len());
                assert(h@.len() == h.len());
            }
            let start = pos + h.len();
            let after = sub_vec(body, start, body.len());
            let marker = chars_of("\n##");
            let end = match find_exec(&after, &marker, 0) {
                Some(e) => {
                    proof {
                        lemma_find_from(after@, marker@, 0);
                    }
                    e
                },
                None => after.len(),
            };
            let section = sub_vec(&after, 0, end);
            Some(trim_vec(&section))
        },
    }
}

/// The first `#<number>` reference in `t`.
fn first_issue_ref_exec(t: &Vec<char>) -> (r: Option<u64>)
    ensures
        r == first_issue_ref(t@),
{
    let mut i: usize = 0;
    while i < t.len()
        invariant
            i <= t.len(),
            first_ref_from(t@, i as int) == first_issue_ref(t@),
        decreases t.len() - i,
    {
        if t[i] == '#' && i + 1 < t.len() && is_digit_exec(t[i + 1]) {
            let e = digit_run_end_exec(t, i + 1);
            proof {
                lemma_digit_run(t@, i + 1);
            }
            return parse_u64_exec(t, i + 1, e);
        }
        i += 1;
    }
    None
}

/// A digit run holds only digits.
pub proof fn lemma_digit_run(s: Seq<char>, i: int)
    requires
        0 <= i <= s.len(),
    ensures
        i <= digit_run_end(s, i) <= s.len(),
        all_digits(s.subrange(i, digit_run_end(s, i))),
    decreases s.len() - i,
{
    if i < s.len() && is_digit(s[i]) {
        lemma_digit_run(s, i + 1);
        let e = digit_run_end(s, i);
        assert forall|k: int| 0 <= k < e - i implies is_digit(#[trigger] s.subrange(i, e)[k]) by {
            if k > 0 {
                assert(s.subrange(i, e)[k] == s.subrange(i + 1, e)[k - 1]);
            }
        }
    }
}

/// Parse the parent issue number from the `## Parent` section of an issue
/// body: the first `#<number>` in that section, if any.
pub fn parse_parent_from_body(body: &str) -> (r: Option<u64>)
    ensures
        r == parent_from_body(body@),
{
    let b = chars_of(body);
    match extract_section_ci(&b, "## parent") {
        Some(section) => first_issue_ref_exec(&section),
        None => None,
    }
}

/// Parse "blocked by" issue numbers from the `## Blocked by` section of an
/// issue body: the first `#<number>` of each line that has one, in order.
pub fn parse_blockers_from_body(body: &str) -> (r: Vec<u64>)
    ensures
        r@ == blockers_from_body(body@),
{
    let b = chars_of(body);
    let section = match extract_section_ci(&b, "## blocked by") {
        Some(section) => section,
        None => return Vec::new(),
    };
    let newline: Vec<char> = vec!['\n'];
    assert(newline@ =~= seq!['\n']);
    let mut out: Vec<u64> = Vec::new();
    let mut i: usize = 0;
    while i < section.len()
        invariant
            newline@ == seq!['\n'],
            i <= section.len(),
            out@ + blocker_refs_from(section@, i as int) == blocker_refs_from(section@, 0),
        decreases section.len() - i,
    {
        let e = match find_exec(&section, &newline, i) {
            Some(e) => e,
            None => section.len(),
        };
        proof {
            lemma_find_from(section@, seq!['\n'], i as int);
        }
        assert(e as int == line_end(section@, i as int));
        let line = line_at_exec(&section, i, e);
        let stripped = strip_markers_exec(&line);
        let found = first_issue_ref_exec(&stripped);
        let ghost rest = blocker_refs_from(section@, e + 1);
        match found {
            Some(n) => {
                out.push(n);
                assert(out@ + rest =~= (out@.drop_last() + (seq![n] + rest)));
            },
            None => {},
        }
        if e >= section.len() {
            i = section.len();
            assert(blocker_refs_from(section@, e + 1) =~= Seq::<u64>::empty());
        } else {
            i = e + 1;
        }
    }
    out
}

/// The line of `s` that starts at `i` and ends at `e` (its `\n`, or the end).
fn line_at_exec(s: &Vec<char>, i: usize, e: usize) -> (r: Vec<char>)
    requires
        i <= e <= s.len(),
        e == line_end(s@, i as int),
    ensures
        r@ == line_at(s@, i as int),
{
    let raw = sub_vec(s, i, e);
    if e < s.len() && raw.len() > 0 && raw[raw.len() - 1] == '\r' {
        sub_vec(&raw, 0, raw.len() - 1)
    } else {
        raw
    }
}

/// A line without its leading list markers and whitespace.
fn strip_markers_exec(line: &Vec<char>) -> (r: Vec<char>)
    ensures
        r@ == strip_markers(line@),
{
    let mut k: usize = 0;
    while k < line.len() && (line[k] == '-' || line[k] == '*' || is_ws_exec(line[k]))
        invariant
            k <= line.len(),
            marker_lead_from(line@, 0) == marker_lead_from(line@, k as int),
        decreases line.len() - k,
    {
        k += 1;
    }
    sub_vec(line, k, line.len())
}

} // verus!
