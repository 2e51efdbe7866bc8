//! Pure presentation helpers: labels, CSS classes and message splitting that
//! the board's views render.

use vstd::prelude::*;

use crate::error::AppErrorKind;
use crate::pr::PrStatus;
use crate::classification::IssueClassification;
use crate::slice::{ready_to_merge, DependencyRef, LinkedPrRef, Slice, SliceState};
use crate::text::{
    chars_of, dec_str, decimal, find, find_exec, is_ws, is_ws_exec, string_of, sub_vec, trim,
    trim_vec,
};

verus! {

/// The column/badge label of a state.
pub open spec fn state_label_of(state: SliceState) -> Seq<char> {
    match state {
        SliceState::Ready => "Ready"@,
        SliceState::Wip => "WIP"@,
        SliceState::Blocked => "Blocked"@,
        SliceState::Done => "Done"@,
    }
}

/// Human-readable column/badge label for a state.
pub fn state_label(state: SliceState) -> (s: &'static str)
    ensures
        s@ == state_label_of(state),
{
    match state {
        SliceState::Ready => "Ready",
        SliceState::Wip => "WIP",
        SliceState::Blocked => "Blocked",
        SliceState::Done => "Done",
    }
}

/// daisyUI badge modifier class for a state.
pub fn state_badge_class(state: SliceState) -> (s: &'static str)
    ensures
        s@ == match state {
            SliceState::Ready => "badge-success"@,
            SliceState::Wip => "badge-warning"@,
            SliceState::Blocked => "badge-error"@,
            SliceState::Done => "badge-neutral"@,
        },
{
    match state {
        SliceState::Ready => "badge-success",
        SliceState::Wip => "badge-warning",
        SliceState::Blocked => "badge-error",
        SliceState::Done => "badge-neutral",
    }
}

/// daisyUI background color class for a status dot.
pub fn state_dot_color(state: SliceState) -> (s: &'static str)
    ensures
        s@ == match state {
            SliceState::Ready => "bg-success"@,
            SliceState::Wip => "bg-warning"@,
            SliceState::Blocked => "bg-error"@,
            SliceState::Done => "bg-neutral"@,
        },
{
    match state {
        SliceState::Ready => "bg-success",
        SliceState::Wip => "bg-warning",
        SliceState::Blocked => "bg-error",
        SliceState::Done => "bg-neutral",
    }
}

/// The human label of a review-lifecycle stage.
pub open spec fn pr_status_label_of(status: PrStatus) -> Seq<char> {
    match status {
        PrStatus::Draft => "Draft"@,
        PrStatus::AwaitingReview => "Awaiting review"@,
        PrStatus::ChangesRequested => "Changes requested"@,
        PrStatus::Approved => "Approved"@,
    }
}

/// The Octicon class of a review-lifecycle stage.
pub open spec fn pr_status_icon_of(status: PrStatus) -> Seq<char> {
    match status {
        PrStatus::Draft => "icon-[octicon--git-pull-request-draft-16]"@,
        PrStatus::AwaitingReview => "icon-[octicon--git-pull-request-16]"@,
        PrStatus::ChangesRequested => "icon-[octicon--file-diff-16]"@,
        PrStatus::Approved => "icon-[octicon--check-circle-16]"@,
    }
}

/// The text color of a review-lifecycle stage.
pub open spec fn pr_status_color_of(status: PrStatus) -> Seq<char> {
    match status {
        PrStatus::Draft => "text-base-content/50"@,
        PrStatus::AwaitingReview => "text-info"@,
        PrStatus::ChangesRequested => "text-error"@,
        PrStatus::Approved => "text-success"@,
    }
}

/// Human label for a PR review-lifecycle stage.
pub fn pr_status_label(status: PrStatus) -> (s: &'static str)
    ensures
        s@ == pr_status_label_of(status),
{
    match status {
        PrStatus::Draft => "Draft",
        PrStatus::AwaitingReview => "Awaiting review",
        PrStatus::ChangesRequested => "Changes requested",
        PrStatus::Approved => "Approved",
    }
}

/// GitHub Octicon utility class for a PR review-lifecycle stage.
pub fn pr_status_icon_class(status: PrStatus) -> (s: &'static str)
    ensures
        s@ == pr_status_icon_of(status),
{
    match status {
        PrStatus::Draft => "icon-[octicon--git-pull-request-draft-16]",
        PrStatus::AwaitingReview => "icon-[octicon--git-pull-request-16]",
        PrStatus::ChangesRequested => "icon-[octicon--file-diff-16]",
        PrStatus::Approved => "icon-[octicon--check-circle-16]",
    }
}

/// daisyUI text color for a PR review-lifecycle stage headline.
pub fn pr_status_color(status: PrStatus) -> (s: &'static str)
    ensures
        s@ == pr_status_color_of(status),
{
    match status {
        PrStatus::Draft => "text-base-content/50",
        PrStatus::AwaitingReview => "text-info",
        PrStatus::ChangesRequested => "text-error",
        PrStatus::Approved => "text-success",
    }
}

/// Headline label for a Slice's PR: "Ready to merge" when it is ready,
/// otherwise its review-lifecycle stage.
pub fn pr_headline_label(pr: &LinkedPrRef) -> (s: &'static str)
    ensures
        s@ == if ready_to_merge(*pr) {
            "Ready to merge"@
        } else {
            pr_status_label_of(pr.pr_status)
        },
{
    if pr.is_ready_to_merge() {
        "Ready to merge"
    } else {
        pr_status_label(pr.pr_status)
    }
}

/// Headline Octicon class for a Slice's PR.
pub fn pr_headline_icon_class(pr: &LinkedPrRef) -> (s: &'static str)
    ensures
        s@ == if ready_to_merge(*pr) {
            "icon-[octicon--git-merge-16]"@
        } else {
            pr_status_icon_of(pr.pr_status)
        },
{
    if pr.is_ready_to_merge() {
        "icon-[octicon--git-merge-16]"
    } else {
        pr_status_icon_class(pr.pr_status)
    }
}

/// Headline color for a Slice's PR.
pub fn pr_headline_color(pr: &LinkedPrRef) -> (s: &'static str)
    ensures
        s@ == if ready_to_merge(*pr) {
            "text-success"@
        } else {
            pr_status_color_of(pr.pr_status)
        },
{
    if pr.is_ready_to_merge() {
        "text-success"
    } else {
        pr_status_color(pr.pr_status)
    }
}

/// Whether an error means the token itself is the problem (ask for a new one)
/// rather than a transient failure.
pub fn is_auth_failure(kind: AppErrorKind) -> (r: bool)
    ensures
        r == (kind == AppErrorKind::Unauthorized || kind == AppErrorKind::Forbidden),
{
    matches!(kind, AppErrorKind::Unauthorized | AppErrorKind::Forbidden)
}

/// The lane header pill: "1 slice", else "<n> slices".
pub fn slices_pill_label(total_slices: usize) -> (s: String)
    ensures
        s@ == if total_slices == 1 {
            "1 slice"@
        } else {
            dec_str(total_slices as nat) + " slices"@
        },
{
    if total_slices == 1 {
        "1 slice".to_string()
    } else {
        let mut s = decimal(total_slices as u64);
        s.append(" slices");
        s
    }
}

/// Background tint of a card surface.
#[derive(Clone, Copy, Debug, PartialEq, Eq, Structural)]
pub enum CardBackground {
    /// `bg-base-100` (the default).
    Base100,
    /// `bg-base-200`.
    Base200,
}

impl Default for CardBackground {
    fn default() -> (b: Self)
        ensures
            b == CardBackground::Base100,
    {
        CardBackground::Base100
    }
}

/// The class of a card background.
pub open spec fn background_class(b: CardBackground) -> Seq<char> {
    match b {
        CardBackground::Base100 => "bg-base-100"@,
        CardBackground::Base200 => "bg-base-200"@,
    }
}

impl CardBackground {
    /// The daisyUI class of this background.
    pub fn class(self) -> (s: &'static str)
        ensures
            s@ == background_class(self),
    {
        match self {
            CardBackground::Base100 => "bg-base-100",
            CardBackground::Base200 => "bg-base-200",
        }
    }
}

/// Shadow depth of a card.
#[derive(Clone, Copy, Debug, PartialEq, Eq, Structural)]
pub enum CardElevation {
    /// `shadow-sm` (the default).
    Sm,
    /// `shadow-md`.
    Md,
}

impl Default for CardElevation {
    fn default() -> (e: Self)
        ensures
            e == CardElevation::Sm,
    {
        CardElevation::Sm
    }
}

/// The class of a card elevation.
pub open spec fn elevation_class(e: CardElevation) -> Seq<char> {
    match e {
        CardElevation::Sm => "shadow-sm"@,
        CardElevation::Md => "shadow-md"@,
    }
}

impl CardElevation {
    /// The daisyUI class of this elevation.
    pub fn class(self) -> (s: &'static str)
        ensures
            s@ == elevation_class(self),
    {
        match self {
            CardElevation::Sm => "shadow-sm",
            CardElevation::Md => "shadow-md",
        }
    }
}

/// The card shell's class string: `card`, `card-compact` when compact, the
/// background and elevation classes, then the trimmed extras when any.
pub open spec fn shell_class_of(
    background: CardBackground,
    elevation: CardElevation,
    compact: bool,
    extra: Seq<char>,
) -> Seq<char> {
    let base = "card"@ + (if compact {
        " card-compact"@
    } else {
        Seq::empty()
    }) + " "@ + background_class(background) + " "@ + elevation_class(elevation);
    if trim(extra).len() == 0 {
        base
    } else {
        base + " "@ + trim(extra)
    }
}

/// Build the outer card shell class string from the card variant props.
pub fn shell_class(
    background: CardBackground,
    elevation: CardElevation,
    compact: bool,
    extra: &str,
) -> (s: String)
    ensures
        s@ == shell_class_of(background, elevation, compact, extra@),
{
    let mut class = "card".to_string();
    if compact {
        class.append(" card-compact");
    }
    class.append(" ");
    class.append(background.class());
    class.append(" ");
    class.append(elevation.class());
    let trimmed = trim_vec(&chars_of(extra));
    if trimmed.len() > 0 {
        class.append(" ");
        let t = string_of(&trimmed);
        class.append(t.as_str());
    }
    proof {
        reveal_strlit("");
        assert(("card"@ + (if compact {
            " card-compact"@
        } else {
            Seq::<char>::empty()
        })) =~= if compact {
            "card"@ + " card-compact"@
        } else {
            "card"@
        });
    }
    class
}

/// One run of a message: plain text, or a URL to linkify.
#[derive(Debug, PartialEq, Eq)]
pub enum Segment {
    Text(String),
    Link(String),
}

/// The plain value of a segment: `(is a link, its text)`.
pub open spec fn segment_value(s: Segment) -> (bool, Seq<char>) {
    match s {
        Segment::Text(t) => (false, t@),
        Segment::Link(u) => (true, u@),
    }
}

/// The earliest of two optional positions.
pub open spec fn earliest(a: Option<int>, b: Option<int>) -> Option<int> {
    match (a, b) {
        (Some(x), Some(y)) => Some(if x <= y { x } else { y }),
        (Some(x), None) => Some(x),
        (None, y) => y,
    }
}

/// The position of the earliest `http://` or `https://` in `s`, if any.
pub open spec fn url_start(s: Seq<char>) -> Option<int> {
    earliest(find(s, "http://"@), find(s, "https://"@))
}

/// Index of the first whitespace at or after `i` (or the end of `s`).
pub open spec fn ws_from(s: Seq<char>, i: int) -> int
    decreases s.len() - i,
{
    if 0 <= i < s.len() && !is_ws(s[i]) {
        ws_from(s, i + 1)
    } else {
        i
    }
}

/// A trailing sentence mark kept out of a link.
pub open spec fn is_trailing_mark(c: char) -> bool {
    c == '.' || c == ',' || c == ')' || c == ']' || c == ';' || c == ':'
}

/// The end of `s[0..j]` once trailing sentence marks are dropped.
pub open spec fn marks_trimmed(s: Seq<char>, j: int) -> int
    decreases j,
{
    if 0 < j <= s.len() && is_trailing_mark(s[j - 1]) {
        marks_trimmed(s, j - 1)
    } else {
        j
    }
}

/// The segments of a message: text runs and URLs, where a URL starts at
/// `http://` or `https://`, runs to the next whitespace, and leaves any
/// trailing sentence marks to the text that follows.
pub open spec fn segments_of(s: Seq<char>) -> Seq<(bool, Seq<char>)>
    decreases s.len(),
{
    match url_start(s) {
        None => if s.len() > 0 {
            seq![(false, s)]
        } else {
            Seq::empty()
        },
        Some(st) => {
            if 0 <= st < s.len() {
                let after = s.subrange(st, s.len() as int);
                let end = marks_trimmed(after, ws_from(after, 0));
                let pre: Seq<(bool, Seq<char>)> = if st > 0 {
                    seq![(false, s.subrange(0, st))]
                } else {
                    Seq::empty()
                };
                proof {
                    lemma_url_prefix_kept(s, st);
                }
                pre + seq![(true, after.subrange(0, end))] + segments_of(
                    after.subrange(end, after.len() as int),
                )
            } else {
                Seq::empty()
            }
        },
    }
}

/// A URL keeps at least its scheme's first character: the link is never
/// empty, so splitting always makes progress.
pub proof fn lemma_url_prefix_kept(s: Seq<char>, st: int)
    requires
        url_start(s) == Some(st),
    ensures
        0 <= st < s.len(),
        marks_trimmed(s.subrange(st, s.len() as int), ws_from(s.subrange(st, s.len() as int), 0)) >= 1,
        marks_trimmed(s.subrange(st, s.len() as int), ws_from(s.subrange(st, s.len() as int), 0))
            <= s.len() - st,
{
    reveal_strlit("http://");
    reveal_strlit("https://");
    crate::text::lemma_find_from(s, "http://"@, 0);
    crate::text::lemma_find_from(s, "https://"@, 0);
    let after = s.subrange(st, s.len() as int);
    assert(after[0] == 'h');
    assert(after[1] == 't');
    lemma_ws_from_after_scheme(after);
    lemma_marks_keep_scheme(after, ws_from(after, 0));
}

/// The whitespace scan of a text starting with `h` and `t` reaches past them.
proof fn lemma_ws_from_after_scheme(after: Seq<char>)
    requires
        after.len() >= 2,
        after[0] == 'h',
        after[1] == 't',
    ensures
        ws_from(after, 0) >= 2,
        ws_from(after, 0) <= after.len(),
{
    assert(!is_ws('h'));
    assert(!is_ws('t'));
    assert(ws_from(after, 0) == ws_from(after, 1));
    assert(ws_from(after, 1) == ws_from(after, 2));
    lemma_ws_from_bound(after, 2);
}

/// The whitespace scan never passes the end of the text.
proof fn lemma_ws_from_bound(s: Seq<char>, i: int)
    requires
        0 <= i <= s.len(),
    ensures
        i <= ws_from(s, i) <= s.len(),
    decreases s.len() - i,
{
    if i < s.len() && !is_ws(s[i]) {
        lemma_ws_from_bound(s, i + 1);
    }
}

/// Dropping trailing marks never removes a leading `h`.
proof fn lemma_marks_keep_scheme(s: Seq<char>, j: int)
    requires
        1 <= j <= s.len(),
        s[0] == 'h',
    ensures
        1 <= marks_trimmed(s, j) <= j,
    decreases j,
{
    if is_trailing_mark(s[j - 1]) {
        if j > 1 {
            lemma_marks_keep_scheme(s, j - 1);
        }
    }
}

/// The texts of a run of segments, joined in order.
pub open spec fn joined(segs: Seq<(bool, Seq<char>)>) -> Seq<char>
    decreases segs.len(),
{
    if segs.len() == 0 {
        Seq::empty()
    } else {
        segs[0].1 + joined(segs.drop_first())
    }
}

/// Joining distributes over concatenation.
proof fn lemma_joined_append(a: Seq<(bool, Seq<char>)>, b: Seq<(bool, Seq<char>)>)
    ensures
        joined(a + b) == joined(a) + joined(b),
    decreases a.len(),
{
    if a.len() == 0 {
        assert(a + b =~= b);
        assert(joined(a) + joined(b) =~= joined(b));
    } else {
        lemma_joined_append(a.drop_first(), b);
        assert((a + b).drop_first() =~= a.drop_first() + b);
        assert(joined(a) + joined(b) =~= a[0].1 + (joined(a.drop_first()) + joined(b)));
    }
}

/// Every character before the whitespace scan's stop is not whitespace.
proof fn lemma_ws_from_run(s: Seq<char>, i: int)
    requires
        0 <= i <= s.len(),
    ensures
        i <= ws_from(s, i) <= s.len(),
        forall|q: int| i <= q < ws_from(s, i) ==> !is_ws(#[trigger] s[q]),
    decreases s.len() - i,
{
    if i < s.len() && !is_ws(s[i]) {
        lemma_ws_from_run(s, i + 1);
    }
}

/// Dropping trailing marks stops at the start or on a character that is no mark.
proof fn lemma_marks_trimmed_stop(s: Seq<char>, j: int)
    requires
        0 <= j <= s.len(),
    ensures
        0 <= marks_trimmed(s, j) <= j,
        marks_trimmed(s, j) > 0 ==> !is_trailing_mark(s[marks_trimmed(s, j) - 1]),
    decreases j,
{
    if 0 < j && is_trailing_mark(s[j - 1]) {
        lemma_marks_trimmed_stop(s, j - 1);
    }
}

/// A link holds no whitespace and does not end on `.`, `,`, `)`, `]`, `;` or `:`.
pub open spec fn clean_link(u: Seq<char>) -> bool {
    &&& u.len() > 0
    &&& forall|q: int| 0 <= q < u.len() ==> !is_ws(#[trigger] u[q])
    &&& u.last() != '.' && u.last() != ',' && u.last() != ')' && u.last() != ']'
    &&& u.last() != ';' && u.last() != ':'
}

/// Splitting a message loses and repeats nothing: its segments, joined in
/// order, give the message back. Every link segment holds no whitespace and
/// leaves trailing sentence marks (`.`, `,`, `)`, `]`, `;`, `:`) to the text.
pub proof fn law_segments_cover_message(s: Seq<char>)
    ensures
        joined(segments_of(s)) == s,
        forall|k: int|
            0 <= k < segments_of(s).len() && (#[trigger] segments_of(s)[k]).0 ==> clean_link(
                segments_of(s)[k].1,
            ),
    decreases s.len(),
{
    match url_start(s) {
        None => {
            if s.len() > 0 {
                let one = seq![(false, s)];
                assert(one.drop_first() =~= Seq::<(bool, Seq<char>)>::empty());
                assert(joined(one.drop_first()) == Seq::<char>::empty());
                assert(joined(one) =~= s);
            }
        },
        Some(st) => {
            lemma_url_prefix_kept(s, st);
            let after = s.subrange(st, s.len() as int);
            let w = ws_from(after, 0);
            let end = marks_trimmed(after, w);
            lemma_ws_from_run(after, 0);
            lemma_marks_trimmed_stop(after, w);
            let pre: Seq<(bool, Seq<char>)> = if st > 0 {
                seq![(false, s.subrange(0, st))]
            } else {
                Seq::empty()
            };
            let link = seq![(true, after.subrange(0, end))];
            let rest = after.subrange(end, after.len() as int);
            law_segments_cover_message(rest);
            assert(segments_of(s) == pre + link + segments_of(rest));
            lemma_joined_append(pre + link, segments_of(rest));
            lemma_joined_append(pre, link);
            assert(joined(link) =~= after.subrange(0, end)) by {
                assert(joined(link.drop_first()) == Seq::<char>::empty());
            }
            if st > 0 {
                assert(joined(pre) =~= s.subrange(0, st)) by {
                    assert(joined(pre.drop_first()) == Seq::<char>::empty());
                }
            } else {
                assert(joined(pre) =~= Seq::<char>::empty());
            }
            assert(s =~= s.subrange(0, st) + after.subrange(0, end) + rest);
            let u = after.subrange(0, end);
            assert(clean_link(u)) by {
                assert forall|q: int| 0 <= q < u.len() implies !is_ws(#[trigger] u[q]) by {
                    assert(u[q] == after[q]);
                }
                assert(u.last() == after[end - 1]);
            }
            assert forall|k: int|
                0 <= k < segments_of(s).len() && (#[trigger] segments_of(s)[k]).0 implies clean_link(
                segments_of(s)[k].1,
            ) by {
                let pl = (pre + link).len();
                if k >= pl {
                    assert(segments_of(s)[k] == segments_of(rest)[k - pl]);
                } else if k == pl - 1 {
                    assert(segments_of(s)[k] == link[0]);
                } else {
                    assert(segments_of(s)[k] == pre[k]);
                }
            }
        },
    }
}

/// The character position of the earliest `http://` or `https://` in
/// `text`, if any. Both schemes are considered together, so an earlier URL of
/// either scheme is never skipped.
fn next_url_start(text: &Vec<char>) -> (r: Option<usize>)
    ensures
        match url_start(text@) {
            Some(k) => r == Some(k as usize) && 0 <= k < text.len(),
            None => r is None,
        },
{
    let http = chars_of("http://");
    let https = chars_of("https://");
    proof {
        reveal_strlit("http://");
        reveal_strlit("https://");
        crate::text::lemma_find_from(text@, http@, 0);
        crate::text::lemma_find_from(text@, https@, 0);
    }
    let a = find_exec(text, &http, 0);
    let b = find_exec(text, &https, 0);
    match (a, b) {
        (Some(x), Some(y)) => Some(if x <= y { x } else { y }),
        (Some(x), None) => Some(x),
        (None, y) => y,
    }
}

/// Split a message into text and URL segments. A URL starts at `http://` or
/// `https://` and runs until the next whitespace; trailing sentence marks are
/// kept as text so links stay clean.
pub fn segments(message: &str) -> (r: Vec<Segment>)
    ensures
        r@.map_values(|x: Segment| segment_value(x)) == segments_of(message@),
{
    let mut out: Vec<Segment> = Vec::new();
    let mut rest = chars_of(message);
    let ghost whole = message@;
    loop
        invariant
            whole == message@,
            out@.map_values(|x: Segment| segment_value(x)) + segments_of(rest@) == segments_of(whole),
        decreases rest@.len(),
    {
        let ghost before = out@.map_values(|x: Segment| segment_value(x));
        match next_url_start(&rest) {
            None => {
                assert(segments_of(rest@) == if rest@.len() > 0 {
                    seq![(false, rest@)]
                } else {
                    Seq::<(bool, Seq<char>)>::empty()
                });
                if rest.len() > 0 {
                    out.push(Segment::Text(string_of(&rest)));
                    assert(out@.map_values(|x: Segment| segment_value(x)) =~= before.push(
                        (false, rest@),
                    ));
                }
                assert(out@.map_values(|x: Segment| segment_value(x)) =~= segments_of(whole));
                return out;
            },
            Some(start) => {
                proof {
                    lemma_url_prefix_kept(rest@, start as int);
                }
                let after = sub_vec(&rest, start, rest.len());
                let mut end: usize = 0;
                while end < after.len() && !is_ws_exec(after[end])
                    invariant
                        end <= after.len(),
                        ws_from(after@, 0) == ws_from(after@, end as int),
                    decreases after.len() - end,
                {
                    end += 1;
                }
                let mut cut: usize = end;
                while cut > 0 && is_mark_exec(after[cut - 1])
                    invariant
                        cut <= end <= after.len(),
                        marks_trimmed(after@, end as int) == marks_trimmed(after@, cut as int),
                    decreases cut,
                {
                    cut -= 1;
                }
                let ghost pre: Seq<(bool, Seq<char>)> = if start > 0 {
                    seq![(false, rest@.subrange(0, start as int))]
                } else {
                    Seq::empty()
                };
                if start > 0 {
                    out.push(Segment::Text(string_of(&sub_vec(&rest, 0, start))));
                }
                out.push(Segment::Link(string_of(&sub_vec(&after, 0, cut))));
                let next = sub_vec(&after, cut, after.len());
                assert(out@.map_values(|x: Segment| segment_value(x)) =~= before + pre + seq![
                    (true, after@.subrange(0, cut as int)),
                ]);
                assert(segments_of(rest@) == pre + seq![(true, after@.subrange(0, cut as int))]
                    + segments_of(next@));
                rest = next;
            },
        }
    }
}

/// `c` is a trailing sentence mark.
fn is_mark_exec(c: char) -> (r: bool)
    ensures
        r == is_trailing_mark(c),
{
    c == '.' || c == ',' || c == ')' || c == ']' || c == ';' || c == ':'
}

/// The badge of an issue the board suggests confirming: what it looks like,
/// for a suggestion; nothing otherwise.
pub fn suggestion_badge(classification: IssueClassification) -> (r: Option<&'static str>)
    ensures
        match classification {
            IssueClassification::SuggestedPrd => r matches Some(t) && t@ == "looks like a PRD — confirm?"@,
            IssueClassification::SuggestedSlice => r matches Some(t) && t@ == "looks like a Slice — confirm?"@,
            _ => r is None,
        },
{
    match classification {
        IssueClassification::SuggestedPrd => Some("looks like a PRD — confirm?"),
        IssueClassification::SuggestedSlice => Some("looks like a Slice — confirm?"),
        _ => None,
    }
}

/// The dependency row of a Slice card: a Blocked Slice lists what blocks it,
/// any other lists what it unblocks.
pub fn card_dependencies(slice: &Slice) -> (r: (&'static str, Vec<DependencyRef>))
    ensures
        slice.state == SliceState::Blocked ==> r.0@ == "Blocked by"@ && r.1@ == slice.blockers@,
        slice.state != SliceState::Blocked ==> r.0@ == "Unblocks"@ && r.1@ == slice.unblocks@,
{
    if slice.state == SliceState::Blocked {
        let deps = slice.blockers.clone();
        assert(deps@ =~= slice.blockers@);
        ("Blocked by", deps)
    } else {
        let deps = slice.unblocks.clone();
        assert(deps@ =~= slice.unblocks@);
        ("Unblocks", deps)
    }
}

/// Whether a Slice card offers "Assign me": only a Ready Slice nobody holds.
pub fn offers_assign(slice: &Slice) -> (r: bool)
    ensures
        r == (slice.state == SliceState::Ready && slice.assignee is None),
{
    slice.state == SliceState::Ready && slice.assignee.is_none()
}

/// The label of a linked-PR badge: `pr #<n> @<author>`, or `pr #<n>` when
/// GitHub resolved no author.
pub fn pr_badge_label(pr: &LinkedPrRef) -> (s: String)
    ensures
        s@ == "pr #"@ + dec_str(pr.number as nat) + match pr.author {
            Some(a) => " @"@ + a@,
            None => Seq::empty(),
        },
{
    let mut s = "pr #".to_string();
    let n = decimal(pr.number);
    s.append(n.as_str());
    match &pr.author {
        Some(a) => {
            s.append(" @");
            s.append(a.as_str());
        },
        None => {},
    }
    s
}

/// Whether the paste-token screen's "Save token" is enabled: only for input
/// that is not blank.
pub fn can_submit_token(input: &str) -> (r: bool)
    ensures
        r == (trim(input@).len() > 0),
{
    trim_vec(&chars_of(input)).len() > 0
}

} // verus!
