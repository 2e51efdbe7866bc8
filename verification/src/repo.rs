//! Repository references (`owner/repo`) and the projects a user can open.

use vstd::prelude::*;

use crate::error::{AppError, AppErrorKind, AppErrorView};
use crate::text::{chars_of, is_ascii_alnum, is_ws, lead_from, string_of, sub_vec, trail_from, trim, trim_start, trim_vec};

verus! {

/// A reference to a GitHub repository the user is viewing.
#[derive(Debug, PartialEq, Eq)]
pub struct RepoRef {
    pub owner: String,
    pub name: String,
}

impl Clone for RepoRef {
    fn clone(&self) -> (r: Self)
        ensures
            r == *self,
    {
        RepoRef { owner: self.owner.clone(), name: self.name.clone() }
    }
}

/// Why a text is not a valid `owner/repo` reference.
#[derive(Clone, Copy, Debug, PartialEq, Eq, Structural)]
pub enum RepoFault {
    /// Nothing but whitespace.
    Empty,
    /// No `/` at all.
    NoSlash,
    /// More than one `/`.
    ManySlashes,
    /// Nothing before the `/`.
    EmptyOwner,
    /// Nothing after the `/`.
    EmptyName,
    /// The owner has a character other than letters, digits and hyphens, or
    /// starts or ends with a hyphen.
    BadOwner,
    /// The name has a character other than letters, digits, `-`, `_` and `.`.
    BadName,
}

/// The user-facing message for each way a repository text can be invalid.
pub open spec fn repo_fault_message(fault: RepoFault) -> Seq<char> {
    match fault {
        RepoFault::Empty => "Enter a repository as owner/repo."@,
        RepoFault::NoSlash => "Enter a repository as owner/repo (e.g. \"octocat/hello-world\")."@,
        RepoFault::ManySlashes => "Enter a repository as owner/repo — only one slash is allowed."@,
        RepoFault::EmptyOwner => "Owner must not be empty."@,
        RepoFault::EmptyName => "Repository name must not be empty."@,
        RepoFault::BadOwner => "Owner must contain only letters, digits, and hyphens, and may not start or end with a hyphen."@,
        RepoFault::BadName => "Repository name must contain only letters, digits, hyphens, underscores, and dots."@,
    }
}

/// The number of times `c` occurs in `s`.
pub open spec fn count_char(s: Seq<char>, c: char) -> nat
    decreases s.len(),
{
    if s.len() == 0 {
        0
    } else {
        count_char(s.drop_last(), c) + if s.last() == c { 1nat } else { 0nat }
    }
}

/// The index of the first `c` in `s` (or `s.len()` when there is none).
pub open spec fn first_index_of(s: Seq<char>, c: char) -> int
    decreases s.len(),
{
    if s.len() == 0 {
        0
    } else if s[0] == c {
        0
    } else {
        1 + first_index_of(s.drop_first(), c)
    }
}

/// A valid GitHub owner: letters, digits and hyphens, not starting or ending
/// with a hyphen.
pub open spec fn valid_owner(owner: Seq<char>) -> bool {
    &&& owner.len() > 0
    &&& owner[0] != '-'
    &&& owner.last() != '-'
    &&& forall|i: int| 0 <= i < owner.len() ==> is_ascii_alnum(#[trigger] owner[i]) || owner[i] == '-'
}

/// A character allowed in a GitHub repository name.
pub open spec fn name_char(c: char) -> bool {
    is_ascii_alnum(c) || c == '-' || c == '_' || c == '.'
}

/// A valid GitHub repository name: letters, digits, `-`, `_` and `.` only.
pub open spec fn valid_name(name: Seq<char>) -> bool {
    forall|i: int| 0 <= i < name.len() ==> name_char(#[trigger] name[i])
}

/// What parsing `raw` as `owner/repo` gives: the two segments, or the first
/// rule it breaks, checked in this order.
pub open spec fn repo_parse(raw: Seq<char>) -> Result<(Seq<char>, Seq<char>), RepoFault> {
    let t = trim(raw);
    let p = first_index_of(t, '/');
    let owner = t.subrange(0, p);
    let name = t.subrange(p + 1, t.len() as int);
    if t.len() == 0 {
        Err(RepoFault::Empty)
    } else if count_char(t, '/') == 0 {
        Err(RepoFault::NoSlash)
    } else if count_char(t, '/') > 1 {
        Err(RepoFault::ManySlashes)
    } else if owner.len() == 0 {
        Err(RepoFault::EmptyOwner)
    } else if name.len() == 0 {
        Err(RepoFault::EmptyName)
    } else if !valid_owner(owner) {
        Err(RepoFault::BadOwner)
    } else if !valid_name(name) {
        Err(RepoFault::BadName)
    } else {
        Ok((owner, name))
    }
}

/// The error `RepoRef::parse` reports for `fault`.
pub open spec fn repo_parse_error(fault: RepoFault) -> AppErrorView {
    AppErrorView {
        operation: Some("RepoRef::parse"@),
        ..AppError::fresh(AppErrorKind::InvalidInput, repo_fault_message(fault))
    }
}

/// The `owner/name` display form of a repository.
pub open spec fn repo_display(owner: Seq<char>, name: Seq<char>) -> Seq<char> {
    owner + "/"@ + name
}

impl RepoRef {
    /// A reference to `owner/name`, taken as given.
    pub fn new(owner: &str, name: &str) -> (r: RepoRef)
        ensures
            r.owner@ == owner@,
            r.name@ == name@,
    {
        RepoRef { owner: owner.to_string(), name: name.to_string() }
    }

    /// Parse an `"owner/repo"` string: trim surrounding whitespace, require
    /// exactly one `/`, and validate that both segments are non-empty and
    /// contain only GitHub-valid characters.
    ///
    /// Owner valid characters: ASCII letters, digits, and hyphens; must not
    /// start or end with a hyphen. Repository name valid characters: ASCII
    /// letters, digits, hyphens, underscores, and dots. Every violation is an
    /// `InvalidInput` error.
    pub fn parse(raw: &str) -> (r: Result<RepoRef, AppError>)
        ensures
            match r {
                Ok(repo) => repo_parse(raw@) == Ok::<(Seq<char>, Seq<char>), RepoFault>((repo.owner@, repo.name@)),
                Err(e) => repo_parse(raw@) matches Err(fault) && e@ == repo_parse_error(fault),
            },
    {
        let t = trim_vec(&chars_of(raw));
        if t.len() == 0 {
            return Err(Self::fault(RepoFault::Empty));
        }
        let slashes = count_char_exec(&t, '/');
        if slashes == 0 {
            return Err(Self::fault(RepoFault::NoSlash));
        }
        if slashes > 1 {
            return Err(Self::fault(RepoFault::ManySlashes));
        }
        let p = first_index_of_exec(&t, '/');
        proof {
            lemma_first_index_bound(t@, '/');
        }
        let owner = sub_vec(&t, 0, p);
        let name = sub_vec(&t, p + 1, t.len());
        if owner.len() == 0 {
            return Err(Self::fault(RepoFault::EmptyOwner));
        }
        if name.len() == 0 {
            return Err(Self::fault(RepoFault::EmptyName));
        }
        if !valid_owner_exec(&owner) {
            return Err(Self::fault(RepoFault::BadOwner));
        }
        if !valid_name_exec(&name) {
            return Err(Self::fault(RepoFault::BadName));
        }
        Ok(RepoRef { owner: string_of(&owner), name: string_of(&name) })
    }

    /// The `InvalidInput` error for a rule that a repository text breaks.
    fn fault(fault: RepoFault) -> (e: AppError)
        ensures
            e@ == repo_parse_error(fault),
    {
        let message = match fault {
            RepoFault::Empty => "Enter a repository as owner/repo.",
            RepoFault::NoSlash => "Enter a repository as owner/repo (e.g. \"octocat/hello-world\").",
            RepoFault::ManySlashes => "Enter a repository as owner/repo — only one slash is allowed.",
            RepoFault::EmptyOwner => "Owner must not be empty.",
            RepoFault::EmptyName => "Repository name must not be empty.",
            RepoFault::BadOwner => "Owner must contain only letters, digits, and hyphens, and may not start or end with a hyphen.",
            RepoFault::BadName => "Repository name must contain only letters, digits, hyphens, underscores, and dots.",
        };
        AppError::invalid_input(message).with_operation("RepoRef::parse")
    }

    /// The `owner/name` display string (what `Display` renders).
    pub fn full_name(&self) -> (s: String)
        ensures
            s@ == repo_display(self.owner@, self.name@),
    {
        let mut s = self.owner.clone();
        s.append("/");
        s.append(self.name.as_str());
        s
    }
}

/// How many times `c` occurs in `v`.
fn count_char_exec(v: &Vec<char>, c: char) -> (n: usize)
    ensures
        n == count_char(v@, c),
{
    let mut n: usize = 0;
    let mut i: usize = 0;
    while i < v.len()
        invariant
            i <= v.len(),
            n == count_char(v@.take(i as int), c),
            n <= i,
        decreases v.len() - i,
    {
        assert(v@.take(i + 1).drop_last() =~= v@.take(i as int));
        if v[i] == c {
            n += 1;
        }
        i += 1;
    }
    assert(v@.take(v.len() as int) =~= v@);
    n
}

/// The first index of `c` in `v` (or `v.len()`).
fn first_index_of_exec(v: &Vec<char>, c: char) -> (p: usize)
    ensures
        p == first_index_of(v@, c),
{
    let mut i: usize = 0;
    assert(v@.skip(0) =~= v@);
    while i < v.len() && v[i] != c
        invariant
            i <= v.len(),
            first_index_of(v@, c) == i + first_index_of(v@.skip(i as int), c),
        decreases v.len() - i,
    {
        assert(v@.skip(i as int).drop_first() =~= v@.skip(i + 1));
        i += 1;
    }
    i
}

/// The first index of `c` lies within `s`, holds `c` when `c` occurs, and no
/// earlier character is `c`.
proof fn lemma_first_index_bound(s: Seq<char>, c: char)
    ensures
        0 <= first_index_of(s, c) <= s.len(),
        count_char(s, c) > 0 ==> first_index_of(s, c) < s.len() && s[first_index_of(s, c)] == c,
        forall|k: int| 0 <= k < first_index_of(s, c) ==> s[k] != c,
    decreases s.len(),
{
    if s.len() > 0 && s[0] != c {
        lemma_first_index_bound(s.drop_first(), c);
        lemma_count_first(s, c);
        assert forall|k: int| 0 <= k < first_index_of(s, c) implies s[k] != c by {
            if k > 0 {
                assert(s.drop_first()[k - 1] == s[k]);
            }
        }
    }
}

/// Counting from the front: the count of `s` is that of its tail plus one
/// when its head is `c`.
proof fn lemma_count_first(s: Seq<char>, c: char)
    requires
        s.len() > 0,
    ensures
        count_char(s, c) == count_char(s.drop_first(), c) + if s[0] == c { 1nat } else { 0nat },
    decreases s.len(),
{
    if s.len() > 1 {
        lemma_count_first(s.drop_last(), c);
        assert(s.drop_last().drop_first() =~= s.drop_first().drop_last());
    } else {
        assert(s.drop_first() =~= Seq::<char>::empty());
        assert(s.drop_last() =~= Seq::<char>::empty());
    }
}

/// `owner` is a valid GitHub owner.
fn valid_owner_exec(owner: &Vec<char>) -> (r: bool)
    ensures
        r == valid_owner(owner@),
{
    if owner.len() == 0 || owner[0] == '-' || owner[owner.len() - 1] == '-' {
        return false;
    }
    let mut i: usize = 0;
    while i < owner.len()
        invariant
            i <= owner.len(),
            forall|k: int| 0 <= k < i ==> is_ascii_alnum(#[trigger] owner@[k]) || owner@[k] == '-',
        decreases owner.len() - i,
    {
        let c = owner[i];
        if !(is_ascii_alnum_exec(c) || c == '-') {
            return false;
        }
        i += 1;
    }
    true
}

/// `name` is a valid GitHub repository name.
fn valid_name_exec(name: &Vec<char>) -> (r: bool)
    ensures
        r == valid_name(name@),
{
    let mut i: usize = 0;
    while i < name.len()
        invariant
            i <= name.len(),
            forall|k: int| 0 <= k < i ==> name_char(#[trigger] name@[k]),
        decreases name.len() - i,
    {
        let c = name[i];
        if !(is_ascii_alnum_exec(c) || c == '-' || c == '_' || c == '.') {
            return false;
        }
        i += 1;
    }
    true
}

/// `c` is an ASCII letter or digit.
pub fn is_ascii_alnum_exec(c: char) -> (r: bool)
    ensures
        r == is_ascii_alnum(c),
{
    ('0' <= c && c <= '9') || ('a' <= c && c <= 'z') || ('A' <= c && c <= 'Z')
}

/// A text without `c` counts no `c`.
proof fn lemma_count_absent(s: Seq<char>, c: char)
    requires
        forall|i: int| 0 <= i < s.len() ==> s[i] != c,
    ensures
        count_char(s, c) == 0,
    decreases s.len(),
{
    if s.len() > 0 {
        lemma_count_absent(s.drop_last(), c);
    }
}

/// Counting over a concatenation adds the counts.
proof fn lemma_count_concat(a: Seq<char>, b: Seq<char>, c: char)
    ensures
        count_char(a + b, c) == count_char(a, c) + count_char(b, c),
    decreases b.len(),
{
    if b.len() > 0 {
        lemma_count_concat(a, b.drop_last(), c);
        assert((a + b).drop_last() =~= a + b.drop_last());
    } else {
        assert(a + b =~= a);
    }
}

/// The first `c` of `a + [c] + b` is the one after `a` when `a` has none.
proof fn lemma_first_index_after(a: Seq<char>, b: Seq<char>, c: char)
    requires
        forall|i: int| 0 <= i < a.len() ==> a[i] != c,
    ensures
        first_index_of(a + seq![c] + b, c) == a.len(),
    decreases a.len(),
{
    if a.len() > 0 {
        lemma_first_index_after(a.drop_first(), b, c);
        assert((a + seq![c] + b).drop_first() =~= a.drop_first() + seq![c] + b);
    }
}

/// Parsing the `owner/name` display of a valid repository gives back that
/// repository: a valid owner and a non-empty valid name round-trip through
/// `RepoRef::full_name` and `RepoRef::parse`.
pub proof fn law_display_parses_back(owner: Seq<char>, name: Seq<char>)
    requires
        valid_owner(owner),
        name.len() > 0,
        valid_name(name),
    ensures
        repo_parse(repo_display(owner, name)) == Ok::<(Seq<char>, Seq<char>), RepoFault>((owner, name)),
{
    let s = repo_display(owner, name);
    assert(s =~= owner + seq!['/'] + name) by {
        reveal_strlit("/");
    }
    assert(!is_ws(s[0]));
    assert(lead_from(s, 0) == 0);
    assert(trim_start(s) =~= s);
    assert(s[s.len() - 1] == name.last());
    assert(!is_ws(name.last())) by {
        assert(name_char(name[name.len() - 1]));
    }
    assert(trail_from(s, s.len() as int) == s.len());
    assert(trim(s) =~= s);
    assert forall|i: int| 0 <= i < owner.len() implies owner[i] != '/' by {
        assert(is_ascii_alnum(owner[i]) || owner[i] == '-');
    }
    assert forall|i: int| 0 <= i < name.len() implies name[i] != '/' by {
        assert(name_char(name[i]));
    }
    lemma_count_absent(owner, '/');
    lemma_count_absent(name, '/');
    lemma_count_concat(owner, seq!['/'], '/');
    lemma_count_concat(owner + seq!['/'], name, '/');
    assert(count_char(seq!['/'], '/') == 1) by {
        let one = seq!['/'];
        assert(one.drop_last() =~= Seq::<char>::empty());
        assert(one.last() == '/');
        assert(count_char(Seq::<char>::empty(), '/') == 0);
    }
    lemma_first_index_after(owner, name, '/');
    assert(s.subrange(0, owner.len() as int) =~= owner);
    assert(s.subrange(owner.len() as int + 1, s.len() as int) =~= name);
}

/// A character GitHub allows in an owner: an ASCII letter or digit, or `-`.
pub open spec fn owner_char_allowed(c: char) -> bool {
    ('a' <= c && c <= 'z') || ('A' <= c && c <= 'Z') || ('0' <= c && c <= '9') || c == '-'
}

/// A character GitHub allows in a repository name: an ASCII letter or digit,
/// `-`, `_` or `.`.
pub open spec fn name_char_allowed(c: char) -> bool {
    ('a' <= c && c <= 'z') || ('A' <= c && c <= 'Z') || ('0' <= c && c <= '9') || c == '-' || c == '_'
        || c == '.'
}

/// Every repository written with the allowed characters parses: an owner of
/// ASCII letters, digits and `-` that neither starts nor ends with `-`, and
/// a non-empty name of ASCII letters, digits, `-`, `_` and `.`, give back
/// exactly that owner and name.
pub proof fn law_allowed_characters_parse(owner: Seq<char>, name: Seq<char>)
    requires
        owner.len() > 0,
        owner[0] != '-',
        owner[owner.len() - 1] != '-',
        forall|i: int| 0 <= i < owner.len() ==> owner_char_allowed(#[trigger] owner[i]),
        name.len() > 0,
        forall|i: int| 0 <= i < name.len() ==> name_char_allowed(#[trigger] name[i]),
    ensures
        repo_parse(repo_display(owner, name)) == Ok::<(Seq<char>, Seq<char>), RepoFault>((owner, name)),
{
    assert forall|i: int| 0 <= i < owner.len() implies is_ascii_alnum(#[trigger] owner[i]) || owner[i] == '-' by {
        assert(owner_char_allowed(owner[i]));
    }
    assert forall|i: int| 0 <= i < name.len() implies name_char(#[trigger] name[i]) by {
        assert(name_char_allowed(name[i]));
    }
    law_display_parses_back(owner, name);
}

/// Every parsed repository is written with the allowed characters only.
pub proof fn law_parsed_names_use_allowed_characters(raw: Seq<char>, owner: Seq<char>, name: Seq<char>)
    requires
        repo_parse(raw) == Ok::<(Seq<char>, Seq<char>), RepoFault>((owner, name)),
    ensures
        owner.len() > 0 && owner[0] != '-' && owner[owner.len() - 1] != '-',
        forall|i: int| 0 <= i < owner.len() ==> owner_char_allowed(#[trigger] owner[i]),
        name.len() > 0,
        forall|i: int| 0 <= i < name.len() ==> name_char_allowed(#[trigger] name[i]),
{
    assert forall|i: int| 0 <= i < owner.len() implies owner_char_allowed(#[trigger] owner[i]) by {
        assert(is_ascii_alnum(owner[i]) || owner[i] == '-');
    }
    assert forall|i: int| 0 <= i < name.len() implies name_char_allowed(#[trigger] name[i]) by {
        assert(name_char(name[i]));
    }
}

/// A read model of a GitHub repository the developer can open as a board.
///
/// `pushed_at` is GitHub's RFC-3339 UTC timestamp of the last push; such
/// strings sort lexically by recency.
#[derive(Debug, PartialEq, Eq)]
pub struct Project {
    /// The repository this project points at.
    pub repo: RepoRef,
    /// GitHub's last-push timestamp (RFC-3339, UTC), used to order by recency.
    pub pushed_at: String,
}

impl Clone for Project {
    fn clone(&self) -> (r: Self)
        ensures
            r == *self,
    {
        Project { repo: self.repo.clone(), pushed_at: self.pushed_at.clone() }
    }
}

impl Project {
    /// A project for `repo` last pushed at `pushed_at` (RFC-3339, UTC).
    pub fn new(repo: RepoRef, pushed_at: &str) -> (p: Project)
        ensures
            p.repo == repo,
            p.pushed_at@ == pushed_at@,
    {
        Project { repo, pushed_at: pushed_at.to_string() }
    }
}

} // verus!
