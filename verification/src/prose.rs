//! Parsing of the `## Parent` / `## Blocked by` prose sections that planning
//! templates emit in an issue body: the fallback used when GitHub's native
//! sub-issue and dependency links are absent.

use vstd::prelude::*;

use crate::text::{
    chars_of, digit_run_end, digit_run_end_exec, find_exec, is_ws, is_ws_exec,
    lead_from, lemma_find_from, line_at, line_end, lower, lower_vec, matches_at, matches_at_exec, parse_u64,
    parse_u64_exec, sub_vec, trim, trim_start, trim_vec, vec_eq,
};
use crate::classification::lemma_digit_run;

verus! {

/// Issue references parsed from an issue body's relationship sections.
#[derive(Debug, Default, PartialEq, Eq)]
pub struct ProseLinks {
    /// The parent (PRD) issue number from a `## Parent` section, if any.
    pub parent: Option<u64>,
    /// The blocker issue numbers from a `## Blocked by` section, in order and
    /// de-duplicated.
    pub blocked_by: Vec<u64>,
}

/// Which relationship section the parser is currently inside.
#[derive(Clone, Copy, PartialEq, Eq, Structural)]
pub enum Section {
    Outside,
    Parent,
    BlockedBy,
    Other,
}

/// The section a heading title opens (`parent`, `blocked by`, case-insensitive).
pub open spec fn section_of_title(title: Seq<char>) -> Section {
    let t = lower(trim(title));
    if t == "parent"@ {
        Section::Parent
    } else if t == "blocked by"@ {
        Section::BlockedBy
    } else {
        Section::Other
    }
}

/// Index of the first non-`#` character at or after `i`.
pub open spec fn hash_run_end(s: Seq<char>, i: int) -> int
    decreases s.len() - i,
{
    if 0 <= i < s.len() && s[i] == '#' {
        hash_run_end(s, i + 1)
    } else {
        i
    }
}

/// The title of a Markdown ATX heading line (`# ...`): the `#` run must be
/// followed by whitespace or nothing, which tells it apart from `#7`.
pub open spec fn heading_title(line: Seq<char>) -> Option<Seq<char>> {
    let trimmed = trim_start(line);
    let k = hash_run_end(trimmed, 0);
    let rest = trimmed.subrange(k, trimmed.len() as int);
    if k == 0 {
        None
    } else if rest.len() == 0 || is_ws(rest[0]) {
        Some(trim(rest))
    } else {
        None
    }
}

/// The number formed by the run of digits at index `i`, if any.
pub open spec fn leading_number_at(s: Seq<char>, i: int) -> Option<u64> {
    parse_u64(s.subrange(i, digit_run_end(s, i)))
}

/// An optional number as a sequence of zero or one numbers.
pub open spec fn opt_seq(n: Option<u64>) -> Seq<u64> {
    match n {
        Some(x) => seq![x],
        None => Seq::empty(),
    }
}

/// The issue numbers referenced in `s` from index `i` on, in text order: a
/// `#` followed by digits, or a `/issues/` followed by digits. `/issues/`
/// occurrences do not overlap: none is taken that starts before `u`, the end
/// of the previous one.
pub open spec fn refs_from(s: Seq<char>, i: int, u: int) -> Seq<u64>
    decreases s.len() - i,
{
    if i < 0 || i >= s.len() {
        Seq::empty()
    } else if s[i] == '#' {
        opt_seq(leading_number_at(s, i + 1)) + refs_from(s, i + 1, u)
    } else if i >= u && matches_at(s, "/issues/"@, i) {
        opt_seq(leading_number_at(s, i + 8)) + refs_from(s, i + 1, i + 8)
    } else {
        refs_from(s, i + 1, u)
    }
}

/// Every issue number referenced in a line (`#123` or `/issues/123`), in the
/// order the references appear.
pub open spec fn issue_numbers(line: Seq<char>) -> Seq<u64> {
    refs_from(line, 0, 0)
}

/// `acc` extended with the numbers of `ns` from index `k` on that it lacks.
pub open spec fn add_unique_from(acc: Seq<u64>, ns: Seq<u64>, k: int) -> Seq<u64>
    decreases ns.len() - k,
{
    if k < 0 || k >= ns.len() {
        acc
    } else if acc.contains(ns[k]) {
        add_unique_from(acc, ns, k + 1)
    } else {
        add_unique_from(acc.push(ns[k]), ns, k + 1)
    }
}

/// The parser's state between lines.
pub struct ProseState {
    pub section: Section,
    pub parent: Option<u64>,
    pub blocked_by: Seq<u64>,
}

/// How one line moves the parser's state.
pub open spec fn prose_step(st: ProseState, line: Seq<char>) -> ProseState {
    match heading_title(line) {
        Some(title) => ProseState { section: section_of_title(title), ..st },
        None => match st.section {
            Section::Parent => if st.parent is None && issue_numbers(line).len() > 0 {
                ProseState { parent: Some(issue_numbers(line)[0]), ..st }
            } else {
                st
            },
            Section::BlockedBy => ProseState {
                blocked_by: add_unique_from(st.blocked_by, issue_numbers(line), 0),
                ..st
            },
            _ => st,
        },
    }
}

/// The state after feeding the lines of `s` from index `i` on.
pub open spec fn prose_from(s: Seq<char>, i: int, st: ProseState) -> ProseState
    decreases s.len() + 1 - i,
{
    if i < 0 || i >= s.len() {
        st
    } else {
        proof {
            lemma_find_from(s, seq!['\n'], i);
        }
        prose_from(s, line_end(s, i) + 1, prose_step(st, line_at(s, i)))
    }
}

/// The links parsed from a whole body.
pub open spec fn prose_of(body: Seq<char>) -> ProseState {
    prose_from(body, 0, ProseState { section: Section::Outside, parent: None, blocked_by: Seq::empty() })
}

/// Adding numbers that are missing keeps a list free of duplicates.
proof fn lemma_add_unique_no_dups(acc: Seq<u64>, ns: Seq<u64>, k: int)
    requires
        acc.no_duplicates(),
        0 <= k,
    ensures
        add_unique_from(acc, ns, k).no_duplicates(),
    decreases ns.len() - k,
{
    if k < ns.len() {
        if acc.contains(ns[k]) {
            lemma_add_unique_no_dups(acc, ns, k + 1);
        } else {
            let next = acc.push(ns[k]);
            assert forall|a: int, b: int| 0 <= a < b < next.len() implies next[a] != next[b] by {
                if b == acc.len() {
                    assert(next[a] == acc[a]);
                }
            }
            lemma_add_unique_no_dups(next, ns, k + 1);
        }
    }
}

/// Feeding lines keeps the blocker list free of duplicates.
proof fn lemma_prose_no_dups(s: Seq<char>, i: int, st: ProseState)
    requires
        st.blocked_by.no_duplicates(),
    ensures
        prose_from(s, i, st).blocked_by.no_duplicates(),
    decreases s.len() + 1 - i,
{
    if 0 <= i < s.len() {
        lemma_find_from(s, seq!['\n'], i);
        let next = prose_step(st, line_at(s, i));
        if heading_title(line_at(s, i)) is None && st.section == Section::BlockedBy {
            lemma_add_unique_no_dups(st.blocked_by, issue_numbers(line_at(s, i)), 0);
        }
        lemma_prose_no_dups(s, line_end(s, i) + 1, next);
    }
}

/// Once the parent is known, no later line changes it: the parent is the one
/// taken from the first line of a `## Parent` section that has a reference.
pub proof fn law_parent_is_never_overwritten(s: Seq<char>, i: int, st: ProseState)
    requires
        st.parent is Some,
    ensures
        prose_from(s, i, st).parent == st.parent,
    decreases s.len() + 1 - i,
{
    if 0 <= i < s.len() {
        lemma_find_from(s, seq!['\n'], i);
        let next = prose_step(st, line_at(s, i));
        assert(next.parent == st.parent);
        law_parent_is_never_overwritten(s, line_end(s, i) + 1, next);
    }
}

/// Inside a `## Parent` section, the first line with a reference sets the
/// parent to that line's first reference (in text order); a line outside a
/// `## Parent` section never sets it; a heading line never changes it.
pub proof fn law_parent_comes_from_first_reference(st: ProseState, line: Seq<char>)
    ensures
        heading_title(line) is Some ==> prose_step(st, line).parent == st.parent,
        heading_title(line) is None && st.section != Section::Parent ==> prose_step(st, line).parent
            == st.parent,
        heading_title(line) is None && st.section == Section::Parent && st.parent is None
            && issue_numbers(line).len() > 0 ==> prose_step(st, line).parent == Some(
            issue_numbers(line)[0],
        ),
        heading_title(line) is None && st.section == Section::Parent && issue_numbers(line).len() == 0
            ==> prose_step(st, line).parent == st.parent,
{
}

/// Later lines only ever add blockers: what is already listed stays listed,
/// in place, and lines outside a `## Blocked by` section add nothing.
pub proof fn law_blockers_only_grow(s: Seq<char>, i: int, st: ProseState)
    ensures
        prose_from(s, i, st).blocked_by.len() >= st.blocked_by.len(),
        prose_from(s, i, st).blocked_by.subrange(0, st.blocked_by.len() as int) == st.blocked_by,
    decreases s.len() + 1 - i,
{
    if 0 <= i < s.len() {
        lemma_find_from(s, seq!['\n'], i);
        let next = prose_step(st, line_at(s, i));
        lemma_add_unique_grows(st.blocked_by, issue_numbers(line_at(s, i)), 0);
        law_blockers_only_grow(s, line_end(s, i) + 1, next);
        let fin = prose_from(s, i, st).blocked_by;
        assert(fin.subrange(0, st.blocked_by.len() as int) =~= fin.subrange(0, next.blocked_by.len() as int).subrange(
            0,
            st.blocked_by.len() as int,
        ));
    } else {
        assert(st.blocked_by.subrange(0, st.blocked_by.len() as int) =~= st.blocked_by);
    }
}

/// Adding numbers keeps what was already there, in place.
proof fn lemma_add_unique_grows(acc: Seq<u64>, ns: Seq<u64>, k: int)
    ensures
        add_unique_from(acc, ns, k).len() >= acc.len(),
        add_unique_from(acc, ns, k).subrange(0, acc.len() as int) == acc,
    decreases ns.len() - k,
{
    if 0 <= k < ns.len() {
        if acc.contains(ns[k]) {
            lemma_add_unique_grows(acc, ns, k + 1);
        } else {
            let next = acc.push(ns[k]);
            lemma_add_unique_grows(next, ns, k + 1);
            let fin = add_unique_from(acc, ns, k);
            assert(fin.subrange(0, acc.len() as int) =~= fin.subrange(0, next.len() as int).subrange(
                0,
                acc.len() as int,
            ));
            assert(next.subrange(0, acc.len() as int) =~= acc);
        }
    } else {
        assert(acc.subrange(0, acc.len() as int) =~= acc);
    }
}

/// Parse the `## Parent` and `## Blocked by` sections of an issue body.
///
/// Headings are matched case-insensitively and a section runs until the next
/// Markdown heading. References may be `owner/repo#123`, `#123`, or an
/// `.../issues/123` URL, taken in the order they appear in the text. The
/// parent is the first reference in `## Parent`; blockers are every
/// reference in `## Blocked by`, in text order, keeping the first occurrence
/// of each number.
pub fn parse_prose(body: &str) -> (links: ProseLinks)
    ensures
        links.parent == prose_of(body@).parent,
        links.blocked_by@ == prose_of(body@).blocked_by,
        links.blocked_by@.no_duplicates(),
{
    let s = chars_of(body);
    let newline: Vec<char> = vec!['\n'];
    assert(newline@ =~= seq!['\n']);
    let mut section = Section::Outside;
    let mut parent: Option<u64> = None;
    let mut blocked_by: Vec<u64> = Vec::new();
    let ghost init = ProseState { section: Section::Outside, parent: None, blocked_by: Seq::empty() };
    let mut i: usize = 0;
    while i < s.len()
        invariant
            newline@ == seq!['\n'],
            i <= s.len(),
            prose_from(s@, 0, init) == prose_from(
                s@,
                i as int,
                ProseState { section, parent, blocked_by: blocked_by@ },
            ),
        decreases s.len() - i,
    {
        let e = match find_exec(&s, &newline, i) {
            Some(e) => e,
            None => s.len(),
        };
        proof {
            lemma_find_from(s@, seq!['\n'], i as int);
        }
        let line = line_at_exec(&s, i, e);
        let ghost before = ProseState { section, parent, blocked_by: blocked_by@ };
        match heading_title_exec(&line) {
            Some(title) => {
                section = section_of_title_exec(&title);
            },
            None => {
                match section {
                    Section::Parent => {
                        if parent.is_none() {
                            let numbers = issue_numbers_exec(&line);
                            if numbers.len() > 0 {
                                parent = Some(numbers[0]);
                            }
                        }
                    },
                    Section::BlockedBy => {
                        let numbers = issue_numbers_exec(&line);
                        add_unique(&mut blocked_by, &numbers);
                    },
                    _ => {},
                }
            },
        }
        let ghost after = ProseState { section, parent, blocked_by: blocked_by@ };
        assert(after == prose_step(before, line_at(s@, i as int)));
        assert(prose_from(s@, i as int, before) == prose_from(s@, e + 1, after));
        if e >= s.len() {
            assert(prose_from(s@, e + 1, after) == after);
            i = s.len();
        } else {
            i = e + 1;
        }
    }
    proof {
        lemma_prose_no_dups(s@, 0, init);
    }
    ProseLinks { parent, blocked_by }
}

/// Append to `acc` each number of `ns` it does not already hold, in order.
fn add_unique(acc: &mut Vec<u64>, ns: &Vec<u64>)
    ensures
        final(acc)@ == add_unique_from(old(acc)@, ns@, 0),
{
    let mut k: usize = 0;
    while k < ns.len()
        invariant
            k <= ns.len(),
            add_unique_from(old(acc)@, ns@, 0) == add_unique_from(acc@, ns@, k as int),
        decreases ns.len() - k,
    {
        let n = ns[k];
        let mut present = false;
        let mut j: usize = 0;
        while j < acc.len()
            invariant
                j <= acc.len(),
                present == (exists|m: int| 0 <= m < j && acc@[m] == n),
            decreases acc.len() - j,
        {
            if acc[j] == n {
                present = true;
            }
            j += 1;
        }
        if !present {
            acc.push(n);
        }
        k += 1;
    }
}

/// The line of `s` that starts at `i` and ends at `e` (its `\n`, or the end).
fn line_at_exec(s: &Vec<char>, i: usize, e: usize) -> (r: Vec<char>)
    requires
        i <= e <= s.len(),
        e == line_end(s@, i as int),
    ensures
        r@ == line_at(s@, i as int),
{
    let raw = sub_vec(s, i, e);
    if e < s.len() && raw.len() > 0 && raw[raw.len() - 1] == '\r' {
        sub_vec(&raw, 0, raw.len() - 1)
    } else {
        raw
    }
}

/// The title of a heading line, if it is one.
fn heading_title_exec(line: &Vec<char>) -> (r: Option<Vec<char>>)
    ensures
        match r {
            Some(t) => heading_title(line@) == Some(t@),
            None => heading_title(line@) is None,
        },
{
    let mut lo: usize = 0;
    while lo < line.len() && is_ws_exec(line[lo])
        invariant
            lo <= line.len(),
            lead_from(line@, 0) == lead_from(line@, lo as int),
        decreases line.len() - lo,
    {
        lo += 1;
    }
    let trimmed = sub_vec(line, lo, line.len());
    let mut k: usize = 0;
    while k < trimmed.len() && trimmed[k] == '#'
        invariant
            k <= trimmed.len(),
            hash_run_end(trimmed@, 0) == hash_run_end(trimmed@, k as int),
        decreases trimmed.len() - k,
    {
        k += 1;
    }
    if k == 0 {
        return None;
    }
    let rest = sub_vec(&trimmed, k, trimmed.len());
    if rest.len() == 0 || is_ws_exec(rest[0]) {
        Some(trim_vec(&rest))
    } else {
        None
    }
}

/// The section a heading title opens.
fn section_of_title_exec(title: &Vec<char>) -> (r: Section)
    ensures
        r == section_of_title(title@),
{
    let t = lower_vec(&trim_vec(title));
    if vec_eq(&t, &chars_of("parent")) {
        Section::Parent
    } else if vec_eq(&t, &chars_of("blocked by")) {
        Section::BlockedBy
    } else {
        Section::Other
    }
}

/// The number formed by the digit run of `s` at index `i`, if any.
fn leading_number_exec(s: &Vec<char>, i: usize) -> (r: Option<u64>)
    requires
        i <= s.len(),
    ensures
        r == leading_number_at(s@, i as int),
{
    let e = digit_run_end_exec(s, i);
    proof {
        lemma_digit_run(s@, i as int);
    }
    parse_u64_exec(s, i, e)
}

/// Every issue number referenced in a line, in text order.
fn issue_numbers_exec(line: &Vec<char>) -> (r: Vec<u64>)
    ensures
        r@ == issue_numbers(line@),
{
    let marker = chars_of("/issues/");
    proof {
        reveal_strlit("/issues/");
    }
    let mut out: Vec<u64> = Vec::new();
    let mut i: usize = 0;
    let mut u: usize = 0;
    while i < line.len()
        invariant
            marker@ == "/issues/"@,
            marker@.len() == 8,
            i <= line.len(),
            u <= line.len(),
            out@ + refs_from(line@, i as int, u as int) == refs_from(line@, 0, 0),
        decreases line.len() - i,
    {
        let ghost prev = out@;
        if line[i] == '#' {
            let found = leading_number_exec(line, i + 1);
            match found {
                Some(n) => {
                    out.push(n);
                },
                None => {},
            }
            assert(out@ =~= prev + opt_seq(found));
            assert(out@ + refs_from(line@, i + 1, u as int) =~= prev + (opt_seq(found) + refs_from(
                line@,
                i + 1,
                u as int,
            )));
        } else if i >= u && matches_at_exec(line, &marker, i) {
            proof {
                assert(line@.len() == line.len());
            }
            let found = leading_number_exec(line, i + 8);
            match found {
                Some(n) => {
                    out.push(n);
                },
                None => {},
            }
            assert(out@ =~= prev + opt_seq(found));
            assert(out@ + refs_from(line@, i + 1, i + 8) =~= prev + (opt_seq(found) + refs_from(
                line@,
                i + 1,
                i + 8,
            )));
            u = i + 8;
        }
        i += 1;
    }
    assert(refs_from(line@, i as int, u as int) =~= Seq::<u64>::empty());
    assert(out@ + refs_from(line@, i as int, u as int) =~= out@);
    out
}

} // verus!
