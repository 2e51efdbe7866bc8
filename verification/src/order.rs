//! Lexicographic text order and a stable sort by text keys.

use vstd::prelude::*;

verus! {

/// `a` sorts strictly before `b` (`str`'s `Ord`: code point by code point,
/// a proper prefix first).
pub open spec fn text_lt(a: Seq<char>, b: Seq<char>) -> bool
    decreases a.len(),
{
    if a.len() == 0 {
        b.len() > 0
    } else if b.len() == 0 {
        false
    } else if a[0] != b[0] {
        a[0] < b[0]
    } else {
        text_lt(a.drop_first(), b.drop_first())
    }
}

/// `a` goes before `b` in ascending order, or in descending order when `desc`.
pub open spec fn goes_before(a: Seq<char>, b: Seq<char>, desc: bool) -> bool {
    if desc {
        text_lt(b, a)
    } else {
        text_lt(a, b)
    }
}

/// `text_lt` is irreflexive.
pub proof fn lemma_text_lt_irreflexive(a: Seq<char>)
    ensures
        !text_lt(a, a),
    decreases a.len(),
{
    if a.len() > 0 {
        lemma_text_lt_irreflexive(a.drop_first());
    }
}

/// `text_lt` is transitive.
pub proof fn lemma_text_lt_transitive(a: Seq<char>, b: Seq<char>, c: Seq<char>)
    requires
        text_lt(a, b),
        text_lt(b, c),
    ensures
        text_lt(a, c),
    decreases a.len(),
{
    if a.len() > 0 && b.len() > 0 && c.len() > 0 && a[0] == b[0] && b[0] == c[0] {
        lemma_text_lt_transitive(a.drop_first(), b.drop_first(), c.drop_first());
    }
}

/// Two different texts are ordered one way or the other.
pub proof fn lemma_text_lt_total(a: Seq<char>, b: Seq<char>)
    ensures
        a == b || text_lt(a, b) || text_lt(b, a),
    decreases a.len(),
{
    if a.len() > 0 && b.len() > 0 && a[0] == b[0] {
        lemma_text_lt_total(a.drop_first(), b.drop_first());
        if a.drop_first() == b.drop_first() {
            assert(a =~= seq![a[0]] + a.drop_first());
            assert(b =~= seq![b[0]] + b.drop_first());
        }
    } else if a.len() == 0 && b.len() == 0 {
        assert(a =~= b);
    }
}

/// `text_lt` is asymmetric.
pub proof fn lemma_text_lt_asymmetric(a: Seq<char>, b: Seq<char>)
    requires
        text_lt(a, b),
    ensures
        !text_lt(b, a),
{
    if text_lt(b, a) {
        lemma_text_lt_transitive(a, b, a);
        lemma_text_lt_irreflexive(a);
    }
}

/// `goes_before` is a strict total order on texts.
proof fn lemma_order_facts(a: Seq<char>, b: Seq<char>, c: Seq<char>, desc: bool)
    ensures
        !goes_before(a, a, desc),
        goes_before(a, b, desc) && goes_before(b, c, desc) ==> goes_before(a, c, desc),
        a == b || goes_before(a, b, desc) || goes_before(b, a, desc),
        goes_before(a, b, desc) ==> !goes_before(b, a, desc),
{
    lemma_text_lt_irreflexive(a);
    lemma_text_lt_total(a, b);
    if desc {
        if text_lt(b, a) && text_lt(c, b) {
            lemma_text_lt_transitive(c, b, a);
        }
        if text_lt(b, a) {
            lemma_text_lt_asymmetric(b, a);
        }
    } else {
        if text_lt(a, b) && text_lt(b, c) {
            lemma_text_lt_transitive(a, b, c);
        }
        if text_lt(a, b) {
            lemma_text_lt_asymmetric(a, b);
        }
    }
}

/// `order` lists the indices `0..n`, each once.
pub open spec fn is_permutation(order: Seq<int>, n: int) -> bool {
    &&& order.len() == n
    &&& forall|k: int| 0 <= k < n ==> 0 <= #[trigger] order[k] < n
    &&& order.no_duplicates()
}

/// Listing `keys` in `order` is a stable sort: each key goes before every
/// later one, or ties with it and came earlier in the input.
pub open spec fn stably_sorted(keys: Seq<Seq<char>>, order: Seq<int>, desc: bool) -> bool {
    forall|a: int, b: int|
        0 <= a < b < order.len() ==> goes_before(keys[#[trigger] order[a]], keys[#[trigger] order[b]], desc)
            || (!goes_before(keys[order[b]], keys[order[a]], desc) && order[a] < order[b])
}

/// `a` sorts strictly before `b`, executable.
pub fn text_lt_exec(a: &Vec<char>, b: &Vec<char>) -> (r: bool)
    ensures
        r == text_lt(a@, b@),
{
    let mut i: usize = 0;
    assert(a@.skip(0) =~= a@);
    assert(b@.skip(0) =~= b@);
    while i < a.len() && i < b.len() && a[i] == b[i]
        invariant
            i <= a.len(),
            i <= b.len(),
            text_lt(a@, b@) == text_lt(a@.skip(i as int), b@.skip(i as int)),
        decreases a.len() - i,
    {
        assert(a@.skip(i as int).drop_first() =~= a@.skip(i + 1));
        assert(b@.skip(i as int).drop_first() =~= b@.skip(i + 1));
        i += 1;
    }
    if i == a.len() {
        i < b.len()
    } else if i == b.len() {
        false
    } else {
        a[i] < b[i]
    }
}

/// The positions of `keys` in stable sorted order (ascending, or descending
/// when `desc`).
pub fn stable_order(keys: &Vec<Vec<char>>, desc: bool) -> (order: Vec<usize>)
    ensures
        is_permutation(order@.map_values(|i: usize| i as int), keys.len() as int),
        stably_sorted(
            keys@.map_values(|k: Vec<char>| k@),
            order@.map_values(|i: usize| i as int),
            desc,
        ),
{
    let ghost ks = keys@.map_values(|k: Vec<char>| k@);
    let mut order: Vec<usize> = Vec::new();
    let mut n: usize = 0;
    while n < keys.len()
        invariant
            n <= keys.len(),
            ks == keys@.map_values(|k: Vec<char>| k@),
            is_permutation(order@.map_values(|i: usize| i as int), n as int),
            stably_sorted(ks, order@.map_values(|i: usize| i as int), desc),
        decreases keys.len() - n,
    {
        let ghost o = order@.map_values(|i: usize| i as int);
        let mut j: usize = order.len();
        assert forall|q: int| 0 <= q < n implies order@[q] < n by {
            assert(o[q] == order@[q] as int);
        }
        while j > 0 && before_exec(&keys[n], &keys[order[j - 1]], desc)
            invariant
                j <= order.len(),
                order.len() == n,
                forall|q: int| 0 <= q < n ==> order@[q] < n,
                n < keys.len(),
                ks == keys@.map_values(|k: Vec<char>| k@),
                o == order@.map_values(|i: usize| i as int),
                is_permutation(o, n as int),
                forall|q: int| j <= q < n ==> goes_before(ks[n as int], ks[#[trigger] o[q]], desc),
            decreases j,
        {
            j -= 1;
        }
        proof {
            lemma_insert_keeps_sorted(ks, o, n as int, j as int, desc);
        }
        order.insert(j, n);
        assert(order@.map_values(|i: usize| i as int) =~= o.insert(j as int, n as int));
        n += 1;
    }
    order
}

/// `a` goes before `b`, executable.
fn before_exec(a: &Vec<char>, b: &Vec<char>, desc: bool) -> (r: bool)
    ensures
        r == goes_before(a@, b@, desc),
{
    if desc {
        text_lt_exec(b, a)
    } else {
        text_lt_exec(a, b)
    }
}

/// Inserting the next index where the backward scan stopped keeps the
/// listing a stable sort of one more key.
proof fn lemma_insert_keeps_sorted(ks: Seq<Seq<char>>, o: Seq<int>, n: int, j: int, desc: bool)
    requires
        0 <= j <= n,
        n < ks.len(),
        is_permutation(o, n),
        stably_sorted(ks, o, desc),
        forall|q: int| j <= q < n ==> goes_before(ks[n], ks[#[trigger] o[q]], desc),
        j > 0 ==> !goes_before(ks[n], ks[o[j - 1]], desc),
    ensures
        is_permutation(o.insert(j, n), n + 1),
        stably_sorted(ks, o.insert(j, n), desc),
{
    let r = o.insert(j, n);
    assert forall|k: int| 0 <= k < n + 1 implies 0 <= #[trigger] r[k] < n + 1 by {
        if k < j {
            assert(r[k] == o[k]);
        } else if k > j {
            assert(r[k] == o[k - 1]);
        }
    }
    assert forall|a: int, b: int| 0 <= a < b < r.len() implies r[a] != r[b] by {
        if a != j && b != j {
            let a0 = if a < j { a } else { a - 1 };
            let b0 = if b < j { b } else { b - 1 };
            assert(r[a] == o[a0]);
            assert(r[b] == o[b0]);
        } else if a == j {
            let b0 = b - 1;
            assert(r[b] == o[b0]);
        } else {
            assert(r[a] == o[a]);
        }
    }
    assert forall|a: int, b: int| 0 <= a < b < r.len() implies goes_before(
        ks[#[trigger] r[a]],
        ks[#[trigger] r[b]],
        desc,
    ) || (!goes_before(ks[r[b]], ks[r[a]], desc) && r[a] < r[b]) by {
        if a != j && b != j {
            let a0 = if a < j { a } else { a - 1 };
            let b0 = if b < j { b } else { b - 1 };
            assert(r[a] == o[a0]);
            assert(r[b] == o[b0]);
            assert(a0 < b0);
        } else if a == j {
            assert(r[b] == o[b - 1]);
        } else {
            assert(r[a] == o[a]);
            let top = o[j - 1];
            lemma_order_facts(ks[n], ks[top], ks[o[a]], desc);
            lemma_order_facts(ks[o[a]], ks[top], ks[n], desc);
            lemma_order_facts(ks[top], ks[o[a]], ks[n], desc);
            if a < j - 1 {
                assert(goes_before(ks[o[a]], ks[o[j - 1]], desc) || (!goes_before(
                    ks[o[j - 1]],
                    ks[o[a]],
                    desc,
                ) && o[a] < o[j - 1]));
            }
            lemma_order_facts(ks[n], ks[o[a]], ks[top], desc);
        }
    }
}

} // verus!
