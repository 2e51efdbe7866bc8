//! Character-level text utilities shared by the parsers.
//!
//! Text is modelled as `Seq<char>`; executable code works on `Vec<char>`
//! copies of `&str` values. Each operation mirrors the meaning of the std
//! string operation it stands in for (`trim`, `find`, ASCII case folding).

use vstd::prelude::*;

verus! {

/// `c` is an ASCII upper-case letter.
pub open spec fn is_ascii_upper(c: char) -> bool {
    'A' <= c && c <= 'Z'
}

/// ASCII lower-casing of one character (`char::to_ascii_lowercase`).
pub open spec fn lower_char(c: char) -> char {
    if is_ascii_upper(c) {
        (c as int + 32) as char
    } else {
        c
    }
}

/// ASCII lower-casing of a whole text (`str::to_ascii_lowercase`).
pub open spec fn lower(s: Seq<char>) -> Seq<char> {
    s.map_values(|c: char| lower_char(c))
}

/// `c` is an ASCII decimal digit.
pub open spec fn is_digit(c: char) -> bool {
    '0' <= c && c <= '9'
}

/// `c` is an ASCII letter or digit.
pub open spec fn is_ascii_alnum(c: char) -> bool {
    is_digit(c) || ('a' <= c && c <= 'z') || is_ascii_upper(c)
}

/// The Unicode `White_Space` property, as `char::is_whitespace` defines it.
pub open spec fn is_ws(c: char) -> bool {
    ||| ('\u{9}' <= c && c <= '\u{d}')
    ||| c == ' '
    ||| c == '\u{85}'
    ||| c == '\u{a0}'
    ||| c == '\u{1680}'
    ||| ('\u{2000}' <= c && c <= '\u{200a}')
    ||| c == '\u{2028}'
    ||| c == '\u{2029}'
    ||| c == '\u{202f}'
    ||| c == '\u{205f}'
    ||| c == '\u{3000}'
}

/// Index of the first non-whitespace character at or after `i`.
pub open spec fn lead_from(s: Seq<char>, i: int) -> int
    decreases s.len() - i,
{
    if 0 <= i < s.len() && is_ws(s[i]) {
        lead_from(s, i + 1)
    } else {
        i
    }
}

/// End index after dropping trailing whitespace before `j`.
pub open spec fn trail_from(s: Seq<char>, j: int) -> int
    decreases j,
{
    if 0 < j <= s.len() && is_ws(s[j - 1]) {
        trail_from(s, j - 1)
    } else {
        j
    }
}

/// `str::trim_start`.
pub open spec fn trim_start(s: Seq<char>) -> Seq<char> {
    s.subrange(lead_from(s, 0), s.len() as int)
}

/// `str::trim_end`.
pub open spec fn trim_end(s: Seq<char>) -> Seq<char> {
    s.subrange(0, trail_from(s, s.len() as int))
}

/// `str::trim`.
pub open spec fn trim(s: Seq<char>) -> Seq<char> {
    trim_end(trim_start(s))
}

/// Where leading whitespace ends: never before `i`, and on a
/// non-whitespace character when inside `s`.
pub proof fn lemma_lead_from(s: Seq<char>, i: int)
    requires
        0 <= i <= s.len(),
    ensures
        i <= lead_from(s, i) <= s.len(),
        lead_from(s, i) < s.len() ==> !is_ws(s[lead_from(s, i)]),
    decreases s.len() - i,
{
    if i < s.len() && is_ws(s[i]) {
        lemma_lead_from(s, i + 1);
    }
}

/// Where trailing whitespace starts: never after `j`, after a
/// non-whitespace character when positive, and positive when `s` starts
/// with a non-whitespace character.
pub proof fn lemma_trail_from(s: Seq<char>, j: int)
    requires
        0 <= j <= s.len(),
    ensures
        0 <= trail_from(s, j) <= j,
        trail_from(s, j) > 0 ==> !is_ws(s[trail_from(s, j) - 1]),
        j > 0 && !is_ws(s[0]) ==> trail_from(s, j) >= 1,
    decreases j,
{
    if 0 < j && is_ws(s[j - 1]) {
        lemma_trail_from(s, j - 1);
    }
}

/// Trimming twice is trimming once.
pub proof fn lemma_trim_idempotent(s: Seq<char>)
    ensures
        trim(trim(s)) == trim(s),
{
    let u = trim_start(s);
    lemma_lead_from(s, 0);
    lemma_trail_from(u, u.len() as int);
    let w = trim(s);
    if w.len() == 0 {
        assert(trim(w) =~= w);
    } else {
        assert(w[0] == u[0]);
        assert(!is_ws(w[0]));
        assert(lead_from(w, 0) == 0);
        assert(trim_start(w) =~= w);
        assert(w[w.len() - 1] == u[trail_from(u, u.len() as int) - 1]);
        assert(trail_from(w, w.len() as int) == w.len());
        assert(trim(w) =~= w);
    }
}

/// `pat` occurs in `s` starting at index `i`.
pub open spec fn matches_at(s: Seq<char>, pat: Seq<char>, i: int) -> bool {
    0 <= i && i + pat.len() <= s.len() && s.subrange(i, i + pat.len()) == pat
}

/// The first index at or after `i` where `pat` occurs in `s` (`str::find`).
pub open spec fn find_from(s: Seq<char>, pat: Seq<char>, i: int) -> Option<int>
    decreases s.len() + 1 - i,
{
    if i < 0 || i + pat.len() > s.len() {
        None
    } else if matches_at(s, pat, i) {
        Some(i)
    } else {
        find_from(s, pat, i + 1)
    }
}

/// The first occurrence of `pat` in `s`.
pub open spec fn find(s: Seq<char>, pat: Seq<char>) -> Option<int> {
    find_from(s, pat, 0)
}

/// `pat` occurs somewhere in `s`.
pub open spec fn contains(s: Seq<char>, pat: Seq<char>) -> bool {
    find(s, pat) is Some
}

/// `s` starts with `pat`.
pub open spec fn starts_with(s: Seq<char>, pat: Seq<char>) -> bool {
    pat.len() <= s.len() && s.subrange(0, pat.len() as int) == pat
}

/// A successful search reports an occurrence, and no earlier one exists.
pub proof fn lemma_find_from(s: Seq<char>, pat: Seq<char>, i: int)
    requires
        0 <= i,
    ensures
        find_from(s, pat, i) is Some ==> i <= find_from(s, pat, i)->0 && matches_at(
            s,
            pat,
            find_from(s, pat, i)->0,
        ),
        forall|k: int|
            i <= k && matches_at(s, pat, k) ==> (find_from(s, pat, i) is Some && find_from(
                s,
                pat,
                i,
            )->0 <= k),
    decreases s.len() + 1 - i,
{
    if i + pat.len() <= s.len() && !matches_at(s, pat, i) {
        lemma_find_from(s, pat, i + 1);
    }
}

/// A copy of the characters of `s`.
pub fn chars_of(s: &str) -> (v: Vec<char>)
    ensures
        v@ == s@,
{
    let mut v: Vec<char> = Vec::new();
    for c in it: s.chars()
        invariant
            it.seq() == s@ ,
            v@ == it.seq().take(it.index() as int),
    {
        v.push(c);
    }
    v
}


/// Decimal value of a run of ASCII digits.
pub open spec fn digits_value(d: Seq<char>) -> nat
    decreases d.len(),
{
    if d.len() == 0 {
        0
    } else {
        digits_value(d.drop_last()) * 10 + ((d.last() as int - '0' as int) as nat)
    }
}

/// `d` consists of ASCII digits only.
pub open spec fn all_digits(d: Seq<char>) -> bool {
    forall|i: int| 0 <= i < d.len() ==> is_digit(#[trigger] d[i])
}

/// `u64::from_str` on a run of ASCII digits: `None` when empty or too large.
pub open spec fn parse_u64(d: Seq<char>) -> Option<u64> {
    if d.len() > 0 && all_digits(d) && digits_value(d) <= u64::MAX {
        Some(digits_value(d) as u64)
    } else {
        None
    }
}

/// End of the run of ASCII digits starting at `i`.
pub open spec fn digit_run_end(s: Seq<char>, i: int) -> int
    decreases s.len() - i,
{
    if 0 <= i < s.len() && is_digit(s[i]) {
        digit_run_end(s, i + 1)
    } else {
        i
    }
}

/// The end of the line that starts at `i`: the next `\n`, or the end of `s`.
pub open spec fn line_end(s: Seq<char>, i: int) -> int {
    match find_from(s, seq!['\n'], i) {
        Some(e) => e,
        None => s.len() as int,
    }
}

/// The line starting at `i`, without its `\n` or `\r\n` terminator (`str::lines`).
pub open spec fn line_at(s: Seq<char>, i: int) -> Seq<char> {
    let e = line_end(s, i);
    let raw = s.subrange(i, e);
    if e < s.len() && raw.len() > 0 && raw.last() == '\r' {
        raw.drop_last()
    } else {
        raw
    }
}

/// `ASCII lower-casing` of a single character, executable.
pub fn lower_char_exec(c: char) -> (r: char)
    ensures
        r == lower_char(c),
{
    if 'A' <= c && c <= 'Z' {
        let code: u32 = c as u32;
        assert(code == c as int);
        let lowered: u32 = code + 32;
        let r = char_from_ascii_code(lowered);
        r
    } else {
        c
    }
}

/// The character with ASCII code `code`.
fn char_from_ascii_code(code: u32) -> (c: char)
    requires
        code < 128,
    ensures
        c == code as char,
{
    let b: u8 = code as u8;
    b as char
}

/// `c` is whitespace (`char::is_whitespace`).
pub fn is_ws_exec(c: char) -> (r: bool)
    ensures
        r == is_ws(c),
{
    ('\u{9}' <= c && c <= '\u{d}') || c == ' ' || c == '\u{85}' || c == '\u{a0}' || c
        == '\u{1680}' || ('\u{2000}' <= c && c <= '\u{200a}') || c == '\u{2028}' || c
        == '\u{2029}' || c == '\u{202f}' || c == '\u{205f}' || c == '\u{3000}'
}

/// `c` is an ASCII digit.
pub fn is_digit_exec(c: char) -> (r: bool)
    ensures
        r == is_digit(c),
{
    '0' <= c && c <= '9'
}

/// ASCII lower-casing of a text.
pub fn lower_vec(v: &Vec<char>) -> (r: Vec<char>)
    ensures
        r@ == lower(v@),
{
    let mut r: Vec<char> = Vec::new();
    let mut i: usize = 0;
    while i < v.len()
        invariant
            i <= v.len(),
            r@ == lower(v@.take(i as int)),
        decreases v.len() - i,
    {
        r.push(lower_char_exec(v[i]));
        assert(lower(v@.take(i + 1)) =~= lower(v@.take(i as int)).push(lower_char(v@[i as int])));
        i += 1;
    }
    assert(v@.take(v.len() as int) =~= v@);
    r
}

/// The characters `v[lo..hi]`.
pub fn sub_vec(v: &Vec<char>, lo: usize, hi: usize) -> (r: Vec<char>)
    requires
        lo <= hi <= v.len(),
    ensures
        r@ == v@.subrange(lo as int, hi as int),
{
    let mut r: Vec<char> = Vec::new();
    let mut i: usize = lo;
    while i < hi
        invariant
            lo <= i <= hi <= v.len(),
            r@ == v@.subrange(lo as int, i as int),
        decreases hi - i,
    {
        r.push(v[i]);
        assert(v@.subrange(lo as int, i + 1) =~= v@.subrange(lo as int, i as int).push(v@[i as int]));
        i += 1;
    }
    r
}

/// `pat` occurs in `s` at index `i`, executable.
pub fn matches_at_exec(s: &Vec<char>, pat: &Vec<char>, i: usize) -> (r: bool)
    ensures
        r == matches_at(s@, pat@, i as int),
{
    if i > s.len() || pat.len() > s.len() - i {
        return false;
    }
    let mut k: usize = 0;
    while k < pat.len()
        invariant
            i + pat.len() <= s.len(),
            k <= pat.len(),
            forall|j: int| 0 <= j < k ==> s@[i + j] == pat@[j],
        decreases pat.len() - k,
    {
        if s[i + k] != pat[k] {
            assert(s@.subrange(i as int, i + pat.len())[k as int] != pat@[k as int]);
            return false;
        }
        k += 1;
    }
    assert(s@.subrange(i as int, i + pat.len()) =~= pat@);
    true
}

/// The first occurrence of `pat` in `s` at or after `from` (`str::find`).
pub fn find_exec(s: &Vec<char>, pat: &Vec<char>, from: usize) -> (r: Option<usize>)
    ensures
        r matches Some(k) ==> find_from(s@, pat@, from as int) == Some(k as int),
        r is None ==> find_from(s@, pat@, from as int) is None,
{
    if pat.len() > s.len() {
        return None;
    }
    let limit: usize = s.len() - pat.len();
    let mut i: usize = from;
    while i <= limit
        invariant
            from <= i,
            limit + pat.len() == s.len(),
            find_from(s@, pat@, from as int) == find_from(s@, pat@, i as int),
        decreases limit - i,
    {
        if matches_at_exec(s, pat, i) {
            return Some(i);
        }
        if i == limit {
            assert(find_from(s@, pat@, i + 1) is None);
            return None;
        }
        i += 1;
    }
    None
}

/// The text `v` as a `String`.
pub fn string_of(v: &Vec<char>) -> (r: String)
    ensures
        r@ == v@,
{
    let mut r = String::new();
    let mut i: usize = 0;
    while i < v.len()
        invariant
            i <= v.len(),
            r@ == v@.take(i as int),
        decreases v.len() - i,
    {
        push_char(&mut r, v[i]);
        assert(v@.take(i + 1) =~= v@.take(i as int).push(v@[i as int]));
        i += 1;
    }
    assert(v@.take(v.len() as int) =~= v@);
    r
}

/// Appends one character to a `String`; calls `String::push`.
#[verifier::external_body]
fn push_char(s: &mut String, c: char)
    ensures
        final(s)@ == old(s)@.push(c),
{
    s.push(c);
}

/// `a` and `b` hold the same text.
pub fn str_eq(a: &str, b: &str) -> (r: bool)
    ensures
        r == (a@ == b@),
{
    let va = chars_of(a);
    let vb = chars_of(b);
    vec_eq(&va, &vb)
}

/// `a` and `b` hold the same characters.
pub fn vec_eq(a: &Vec<char>, b: &Vec<char>) -> (r: bool)
    ensures
        r == (a@ == b@),
{
    if a.len() != b.len() {
        return false;
    }
    let mut i: usize = 0;
    while i < a.len()
        invariant
            a.len() == b.len(),
            i <= a.len(),
            forall|j: int| 0 <= j < i ==> a@[j] == b@[j],
        decreases a.len() - i,
    {
        if a[i] != b[i] {
            return false;
        }
        i += 1;
    }
    assert(a@ =~= b@);
    true
}

/// `(lead, end)` bounds of `str::trim` on `v`: the trimmed text is `v[lead..end]`.
pub fn trim_bounds(v: &Vec<char>) -> (r: (usize, usize))
    ensures
        r.0 <= r.1 <= v.len(),
        v@.subrange(r.0 as int, r.1 as int) == trim(v@),
{
    let mut lo: usize = 0;
    while lo < v.len() && is_ws_exec(v[lo])
        invariant
            lo <= v.len(),
            lead_from(v@, 0) == lead_from(v@, lo as int),
        decreases v.len() - lo,
    {
        lo += 1;
    }
    let ghost t = v@.subrange(lo as int, v.len() as int);
    let mut hi: usize = v.len();
    while hi > lo && is_ws_exec(v[hi - 1])
        invariant
            lo <= hi <= v.len(),
            t == v@.subrange(lo as int, v.len() as int),
            trail_from(t, t.len() as int) == trail_from(t, hi - lo),
        decreases hi,
    {
        assert(t[hi - lo - 1] == v@[hi - 1]);
        hi -= 1;
    }
    proof {
        assert(t.subrange(0, (hi - lo) as int) =~= v@.subrange(lo as int, hi as int));
    }
    (lo, hi)
}

/// `str::trim`, as a fresh vector.
pub fn trim_vec(v: &Vec<char>) -> (r: Vec<char>)
    ensures
        r@ == trim(v@),
{
    let (lo, hi) = trim_bounds(v);
    sub_vec(v, lo, hi)
}

/// End of the run of ASCII digits in `s` starting at `i`.
pub fn digit_run_end_exec(s: &Vec<char>, i: usize) -> (r: usize)
    requires
        i <= s.len(),
    ensures
        r == digit_run_end(s@, i as int),
        i <= r <= s.len(),
{
    let mut k: usize = i;
    while k < s.len() && is_digit_exec(s[k])
        invariant
            i <= k <= s.len(),
            digit_run_end(s@, i as int) == digit_run_end(s@, k as int),
        decreases s.len() - k,
    {
        k += 1;
    }
    k
}

/// A longer digit run never has a smaller value.
pub proof fn lemma_digits_value_grows(d: Seq<char>, c: char)
    requires
        is_digit(c),
    ensures
        digits_value(d.push(c)) >= digits_value(d),
        digits_value(d.push(c)) == digits_value(d) * 10 + (c as int - '0' as int),
{
    assert(d.push(c).drop_last() =~= d);
}

/// `u64::from_str` on `s[lo..hi]`, which must hold only ASCII digits.
pub fn parse_u64_exec(s: &Vec<char>, lo: usize, hi: usize) -> (r: Option<u64>)
    requires
        lo <= hi <= s.len(),
        all_digits(s@.subrange(lo as int, hi as int)),
    ensures
        r == parse_u64(s@.subrange(lo as int, hi as int)),
{
    if lo == hi {
        return None;
    }
    let ghost d = s@.subrange(lo as int, hi as int);
    let mut value: u64 = 0;
    let mut i: usize = lo;
    while i < hi
        invariant
            lo <= i <= hi <= s.len(),
            d == s@.subrange(lo as int, hi as int),
            all_digits(d),
            value == digits_value(s@.subrange(lo as int, i as int)),
        decreases hi - i,
    {
        let c = s[i];
        assert(s@.subrange(lo as int, i + 1) =~= s@.subrange(lo as int, i as int).push(c));
        assert(d[i - lo] == c);
        proof {
            lemma_digits_value_grows(s@.subrange(lo as int, i as int), c);
        }
        let digit: u64 = (c as u32 - '0' as u32) as u64;
        match value.checked_mul(10) {
            Some(t) => match t.checked_add(digit) {
                Some(n) => {
                    value = n;
                },
                None => {
                    proof {
                        lemma_digits_value_monotone(s@, lo as int, i + 1, hi as int);
                    }
                    return None;
                },
            },
            None => {
                proof {
                    lemma_digits_value_monotone(s@, lo as int, i + 1, hi as int);
                }
                return None;
            },
        }
        i += 1;
    }
    assert(s@.subrange(lo as int, hi as int) =~= d);
    Some(value)
}

/// The value of a digit run grows with its length.
pub proof fn lemma_digits_value_monotone(s: Seq<char>, lo: int, i: int, hi: int)
    requires
        0 <= lo <= i <= hi <= s.len(),
        all_digits(s.subrange(lo, hi)),
    ensures
        digits_value(s.subrange(lo, i)) <= digits_value(s.subrange(lo, hi)),
    decreases hi - i,
{
    if i < hi {
        lemma_digits_value_monotone(s, lo, i + 1, hi);
        assert(s.subrange(lo, i + 1) =~= s.subrange(lo, i).push(s[i]));
        assert(s.subrange(lo, hi)[i - lo] == s[i]);
        lemma_digits_value_grows(s.subrange(lo, i), s[i]);
    }
}

/// The ASCII digit for a value below ten.
pub open spec fn digit_char(d: nat) -> char {
    ((d + 48) as int) as char
}

/// The decimal rendering of `n` (`u64`'s `Display`): no sign, no leading zeros.
pub open spec fn dec_str(n: nat) -> Seq<char>
    decreases n,
{
    if n < 10 {
        seq![digit_char(n)]
    } else {
        dec_str(n / 10).push(digit_char(n % 10))
    }
}

/// A decimal rendering reads back as the number it renders: it is made of
/// ASCII digits, its digit value is `n`, and it has no leading zero.
pub proof fn law_decimal_reads_back(n: nat)
    ensures
        all_digits(dec_str(n)),
        digits_value(dec_str(n)) == n,
        dec_str(n).len() > 1 ==> dec_str(n)[0] != '0',
        dec_str(n).len() >= 1,
        n >= 10 ==> dec_str(n).len() > 1,
    decreases n,
{
    if n < 10 {
        assert(digit_char(n) as int == n + 48);
        assert(dec_str(n).drop_last() =~= Seq::<char>::empty());
        assert(dec_str(n).last() == digit_char(n));
        assert(digits_value(dec_str(n)) == digits_value(dec_str(n).drop_last()) * 10 + (n as int));
    } else {
        law_decimal_reads_back(n / 10);
        let d = dec_str(n / 10);
        let c = digit_char(n % 10);
        assert(c as int == n % 10 + 48);
        assert(dec_str(n) == d.push(c));
        lemma_digits_value_grows(d, c);
        assert(digits_value(dec_str(n)) == (n / 10) * 10 + n % 10);
        assert(dec_str(n)[0] == d[0]);
        if n / 10 < 10 {
            assert(d == seq![digit_char(n / 10)]);
            assert(digit_char(n / 10) as int == n / 10 + 48);
        }
    }
}

/// The decimal rendering of `n`.
pub fn decimal(n: u64) -> (s: String)
    ensures
        s@ == dec_str(n as nat),
{
    let mut digits: Vec<char> = Vec::new();
    let mut m: u64 = n;
    let ghost mut tail: Seq<char> = Seq::empty();
    while m >= 10
        invariant
            dec_str(n as nat) == dec_str(m as nat) + tail,
            digits@ == tail.reverse(),
        decreases m,
    {
        let d: u64 = m % 10;
        let c = char_from_ascii_code((d + 48) as u32);
        proof {
            assert(dec_str(m as nat) == dec_str((m / 10) as nat).push(digit_char(d as nat)));
            assert(dec_str(m as nat) + tail =~= dec_str((m / 10) as nat) + seq![c].add(tail));
            assert(seq![c].add(tail).reverse() =~= tail.reverse().push(c));
        }
        digits.push(c);
        proof {
            tail = seq![c].add(tail);
        }
        m = m / 10;
    }
    let c = char_from_ascii_code((m + 48) as u32);
    proof {
        assert(dec_str(m as nat) == seq![c]);
        tail = seq![c].add(tail);
        assert(seq![c].add(dec_str(n as nat).drop_first()) =~= dec_str(n as nat)) by {
            assert(dec_str(n as nat) =~= tail);
        }
        assert(tail.reverse() =~= (tail.drop_first()).reverse().push(c));
    }
    digits.push(c);
    let mut out: Vec<char> = Vec::new();
    let mut i: usize = digits.len();
    while i > 0
        invariant
            i <= digits.len(),
            digits@ == tail.reverse(),
            out@ == tail.reverse().subrange(i as int, digits.len() as int).reverse(),
        decreases i,
    {
        i -= 1;
        out.push(digits[i]);
        assert(tail.reverse().subrange(i as int, digits.len() as int).reverse() =~= tail.reverse().subrange(
            i + 1,
            digits.len() as int,
        ).reverse().push(digits@[i as int]));
    }
    assert(tail.reverse().subrange(0, digits.len() as int) =~= tail.reverse());
    assert(tail.reverse().reverse() =~= tail);
    assert(dec_str(n as nat) == tail);
    string_of(&out)
}

} // verus!
