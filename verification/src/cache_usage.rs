//! The on-disk board cache's layout and usage report: which file holds a
//! repository's snapshot, which files are snapshots, and the per-project and
//! total sizes in display order.

use vstd::prelude::*;

use crate::order::{is_permutation, stable_order, stably_sorted};
use crate::repo::{repo_display, RepoRef};
use crate::text::{chars_of, string_of, sub_vec, vec_eq};

verus! {

/// How much of the board cache one project's snapshot uses.
#[derive(Debug, PartialEq, Eq)]
pub struct CachedProjectUsage {
    pub repo: RepoRef,
    pub bytes: u64,
}

impl Clone for CachedProjectUsage {
    fn clone(&self) -> (r: Self)
        ensures
            r == *self,
    {
        CachedProjectUsage { repo: self.repo.clone(), bytes: self.bytes }
    }
}

/// The board cache's usage: each cached project, in `owner/name` order, and
/// the total size.
#[derive(Debug, PartialEq, Eq)]
pub struct BoardCacheUsage {
    pub projects: Vec<CachedProjectUsage>,
    pub total_bytes: u64,
}

impl Default for BoardCacheUsage {
    fn default() -> (u: Self)
        ensures
            u.projects@.len() == 0,
            u.total_bytes == 0,
    {
        BoardCacheUsage { projects: Vec::new(), total_bytes: 0 }
    }
}

/// The file name of a repository's snapshot inside its owner's directory.
pub fn cache_file_name(repo: &RepoRef) -> (s: String)
    ensures
        s@ == repo.name@ + ".json"@,
{
    let mut s = repo.name.clone();
    s.append(".json");
    s
}

/// The index of the last `.` in `s[0..k]`, if any.
pub open spec fn last_dot(s: Seq<char>, k: int) -> Option<int>
    decreases k,
{
    if k <= 0 || k > s.len() {
        None
    } else if s[k - 1] == '.' {
        Some(k - 1)
    } else {
        last_dot(s, k - 1)
    }
}

/// The repository name a cache file holds, when the file is a snapshot: its
/// extension (after the last `.`, which must not lead the name) is `json`,
/// and the name before it is the repository's.
pub open spec fn snapshot_stem(file_name: Seq<char>) -> Option<Seq<char>> {
    match last_dot(file_name, file_name.len() as int) {
        Some(p) => if p > 0 && file_name.subrange(p + 1, file_name.len() as int) == "json"@ {
            Some(file_name.subrange(0, p))
        } else {
            None
        },
        None => None,
    }
}

/// The repository name a cache file holds, or `None` when it is not a
/// `.json` snapshot (as `Path::extension` and `Path::file_stem` split it).
pub fn cached_repo_name(file_name: &str) -> (r: Option<String>)
    ensures
        match r {
            Some(n) => snapshot_stem(file_name@) == Some(n@),
            None => snapshot_stem(file_name@) is None,
        },
{
    let s = chars_of(file_name);
    let mut k: usize = s.len();
    while k > 0 && s[k - 1] != '.'
        invariant
            k <= s.len(),
            last_dot(s@, s.len() as int) == last_dot(s@, k as int),
        decreases k,
    {
        k -= 1;
    }
    if k <= 1 {
        return None;
    }
    let p = k - 1;
    let ext = sub_vec(&s, p + 1, s.len());
    let json = chars_of("json");
    if vec_eq(&ext, &json) {
        Some(string_of(&sub_vec(&s, 0, p)))
    } else {
        None
    }
}

/// The display keys of a usage list.
pub open spec fn usage_keys(u: Seq<CachedProjectUsage>) -> Seq<Seq<char>> {
    u.map_values(|x: CachedProjectUsage| repo_display(x.repo.owner@, x.repo.name@))
}

/// The total size of a usage list.
pub open spec fn usage_total(u: Seq<CachedProjectUsage>) -> nat
    decreases u.len(),
{
    if u.len() == 0 {
        0
    } else {
        usage_total(u.drop_last()) + (u.last().bytes as nat)
    }
}

/// The usage report of the cached projects: ordered by their `owner/name`
/// display (ties keep their input order) and totalled.
pub fn usage_report(entries: Vec<CachedProjectUsage>) -> (u: BoardCacheUsage)
    requires
        usage_total(entries@) <= u64::MAX,
    ensures
        u.total_bytes == usage_total(entries@),
        exists|order: Seq<int>|
            {
                &&& is_permutation(order, entries@.len() as int)
                &&& stably_sorted(usage_keys(entries@), order, false)
                &&& u.projects@.len() == entries@.len()
                &&& forall|k: int| 0 <= k < u.projects@.len() ==> u.projects@[k] == entries@[#[trigger] order[k]]
            },
{
    let mut keys: Vec<Vec<char>> = Vec::new();
    let mut total: u64 = 0;
    let mut i: usize = 0;
    while i < entries.len()
        invariant
            i <= entries.len(),
            keys@.map_values(|k: Vec<char>| k@) == usage_keys(entries@).take(i as int),
            total == usage_total(entries@.take(i as int)),
            usage_total(entries@) <= u64::MAX,
        decreases entries.len() - i,
    {
        proof {
            lemma_usage_total_prefix(entries@, i + 1);
            assert(entries@.take(i + 1).drop_last() =~= entries@.take(i as int));
        }
        total = total + entries[i].bytes;
        let shown = entries[i].repo.full_name();
        let ghost before = keys@;
        let key = chars_of(shown.as_str());
        keys.push(key);
        assert(keys@.map_values(|k: Vec<char>| k@) =~= before.map_values(|k: Vec<char>| k@).push(key@));
        assert(usage_keys(entries@).take(i + 1) =~= usage_keys(entries@).take(i as int).push(
            repo_display(entries@[i as int].repo.owner@, entries@[i as int].repo.name@),
        ));
        i += 1;
    }
    assert(usage_keys(entries@).take(entries.len() as int) =~= usage_keys(entries@));
    assert(entries@.take(entries.len() as int) =~= entries@);
    let order = stable_order(&keys, false);
    let ghost o = order@.map_values(|i: usize| i as int);
    let mut projects: Vec<CachedProjectUsage> = Vec::new();
    let mut k: usize = 0;
    while k < order.len()
        invariant
            k <= order.len(),
            order.len() == entries.len(),
            o == order@.map_values(|i: usize| i as int),
            is_permutation(o, entries.len() as int),
            projects.len() == k,
            forall|q: int| 0 <= q < k ==> projects@[q] == entries@[#[trigger] o[q]],
        decreases order.len() - k,
    {
        assert(o[k as int] == order@[k as int] as int);
        projects.push(entries[order[k]].clone());
        k += 1;
    }
    BoardCacheUsage { projects, total_bytes: total }
}

/// A prefix's total never exceeds the whole list's.
proof fn lemma_usage_total_prefix(u: Seq<CachedProjectUsage>, k: int)
    requires
        0 <= k <= u.len(),
    ensures
        usage_total(u.take(k)) <= usage_total(u),
    decreases u.len() - k,
{
    if k < u.len() {
        lemma_usage_total_prefix(u, k + 1);
        assert(u.take(k + 1).drop_last() =~= u.take(k));
    } else {
        assert(u.take(k) =~= u);
    }
}

/// The file a repository's snapshot is written to is recognised as that
/// repository's snapshot: for any non-empty name, `name.json` holds `name`,
/// dots inside the name included.
pub proof fn law_snapshot_file_names_round_trip(name: Seq<char>)
    requires
        name.len() > 0,
    ensures
        snapshot_stem(name + ".json"@) == Some(name),
{
    reveal_strlit(".json");
    reveal_strlit("json");
    let f = name + ".json"@;
    let n = name.len() as int;
    assert(f.len() == n + 5);
    assert(f[n + 4] == 'n' && f[n + 3] == 'o' && f[n + 2] == 's' && f[n + 1] == 'j' && f[n] == '.');
    reveal_with_fuel(last_dot, 6);
    assert(last_dot(f, n + 5) == Some(n));
    assert(f.subrange(n + 1, n + 5) =~= "json"@);
    assert(f.subrange(0, n) =~= name);
}

} // verus!
