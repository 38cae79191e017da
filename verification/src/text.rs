//! Character-sequence helpers shared by the URL, path and ref parsers.
//!
//! Strings are modelled by their views, `Seq<char>`. The spec functions
//! below describe the standard searching and splitting operations on such
//! sequences; the executable functions compute them on `Vec<char>`.
use vstd::prelude::*;

verus! {

/// `p` is a prefix of `s`.
pub open spec fn starts_with(s: Seq<char>, p: Seq<char>) -> bool {
    p.len() <= s.len() && s.subrange(0, p.len() as int) == p
}

/// `p` is a suffix of `s`.
pub open spec fn ends_with(s: Seq<char>, p: Seq<char>) -> bool {
    p.len() <= s.len() && s.subrange(s.len() - p.len(), s.len() as int) == p
}

/// `p` occurs in `s` starting at index `i`.
pub open spec fn occurs_at(s: Seq<char>, p: Seq<char>, i: int) -> bool {
    0 <= i && i + p.len() <= s.len() && s.subrange(i, i + p.len()) == p
}

/// The first index `j >= i` at which `p` occurs in `s`, or `-1`.
pub open spec fn find_from(s: Seq<char>, p: Seq<char>, i: int) -> int
    decreases s.len() + 1 - i,
{
    if i < 0 || i + p.len() > s.len() {
        -1
    } else if occurs_at(s, p, i) {
        i
    } else {
        find_from(s, p, i + 1)
    }
}

/// The first index at which `p` occurs in `s`, or `-1`.
pub open spec fn find(s: Seq<char>, p: Seq<char>) -> int {
    find_from(s, p, 0)
}

/// `p` occurs somewhere in `s`.
pub open spec fn contains(s: Seq<char>, p: Seq<char>) -> bool {
    find(s, p) >= 0
}

/// `c` occurs in `s`.
pub open spec fn has_char(s: Seq<char>, c: char) -> bool {
    exists|i: int| 0 <= i < s.len() && s[i] == c
}

/// The last index at which `c` occurs in `s[..n]`, or `-1`.
pub open spec fn rfind_char_before(s: Seq<char>, c: char, n: int) -> int
    decreases n,
{
    if n <= 0 {
        -1
    } else if s[n - 1] == c {
        n - 1
    } else {
        rfind_char_before(s, c, n - 1)
    }
}

/// The last index at which `c` occurs in `s`, or `-1`.
pub open spec fn rfind_char(s: Seq<char>, c: char) -> int {
    rfind_char_before(s, c, s.len() as int)
}

/// The part of `s` after the last `c` (all of `s` if there is none):
/// what `s.rsplit(c).next()` yields.
pub open spec fn after_last(s: Seq<char>, c: char) -> Seq<char> {
    s.subrange(rfind_char(s, c) + 1, s.len() as int)
}

/// `s` without its prefix `p`, if `p` is one.
pub open spec fn strip_prefix(s: Seq<char>, p: Seq<char>) -> Option<Seq<char>> {
    if starts_with(s, p) {
        Some(s.subrange(p.len() as int, s.len() as int))
    } else {
        None
    }
}

/// `s` without its suffix `p`, if `p` is one.
pub open spec fn strip_suffix(s: Seq<char>, p: Seq<char>) -> Option<Seq<char>> {
    if ends_with(s, p) {
        Some(s.subrange(0, s.len() - p.len()))
    } else {
        None
    }
}

/// `s` split around the first occurrence of `p`.
pub open spec fn split_once(s: Seq<char>, p: Seq<char>) -> Option<(Seq<char>, Seq<char>)> {
    let i = find(s, p);
    if i >= 0 {
        Some((s.subrange(0, i), s.subrange(i + p.len(), s.len() as int)))
    } else {
        None
    }
}

/// The characters for which `char::is_whitespace` holds: the Unicode
/// `White_Space` property.
pub open spec fn is_white(c: char) -> bool {
    ||| c == '\t' || c == '\n' || c == '\u{0B}' || c == '\u{0C}' || c == '\r' || c == ' '
    ||| c == '\u{85}' || c == '\u{A0}' || c == '\u{1680}'
    ||| ('\u{2000}' <= c && c <= '\u{200A}')
    ||| c == '\u{2028}' || c == '\u{2029}' || c == '\u{202F}' || c == '\u{205F}'
    ||| c == '\u{3000}'
}

/// Number of leading whitespace characters of `s[i..]`.
pub open spec fn lead_white_from(s: Seq<char>, i: int) -> int
    decreases s.len() - i,
{
    if i < 0 || i >= s.len() || !is_white(s[i]) {
        0
    } else {
        1 + lead_white_from(s, i + 1)
    }
}

/// Index one past the last non-whitespace character of `s[..n]`, or `0`.
pub open spec fn trim_end_at(s: Seq<char>, n: int) -> int
    decreases n,
{
    if n <= 0 {
        0
    } else if is_white(s[n - 1]) {
        trim_end_at(s, n - 1)
    } else {
        n
    }
}

/// `s` without trailing whitespace (`str::trim_end`).
pub open spec fn trim_end(s: Seq<char>) -> Seq<char> {
    s.subrange(0, trim_end_at(s, s.len() as int))
}

/// `s` without leading and trailing whitespace (`str::trim`).
pub open spec fn trim(s: Seq<char>) -> Seq<char> {
    let e = trim_end(s);
    e.subrange(lead_white_from(e, 0), e.len() as int)
}

/// `s` without any trailing copies of `c` (`str::trim_end_matches`).
pub open spec fn trim_end_char_at(s: Seq<char>, c: char, n: int) -> int
    decreases n,
{
    if n <= 0 {
        0
    } else if s[n - 1] == c {
        trim_end_char_at(s, c, n - 1)
    } else {
        n
    }
}

pub open spec fn trim_end_char(s: Seq<char>, c: char) -> Seq<char> {
    s.subrange(0, trim_end_char_at(s, c, s.len() as int))
}

// ---------------------------------------------------------------------------
// Lemmas
// ---------------------------------------------------------------------------

pub proof fn lemma_find_from(s: Seq<char>, p: Seq<char>, i: int)
    requires
        0 <= i,
    ensures
        find_from(s, p, i) == -1 || (i <= find_from(s, p, i) && occurs_at(s, p, find_from(s, p, i))),
        forall|j: int| i <= j < find_from(s, p, i) ==> !occurs_at(s, p, j),
        find_from(s, p, i) == -1 ==> forall|j: int| i <= j ==> !occurs_at(s, p, j),
    decreases s.len() + 1 - i,
{
    if i + p.len() > s.len() {
    } else if occurs_at(s, p, i) {
    } else {
        lemma_find_from(s, p, i + 1);
    }
}

/// An index is the first occurrence exactly when it occurs and no earlier one does.
pub proof fn lemma_find_from_is(s: Seq<char>, p: Seq<char>, i: int, r: int)
    requires
        0 <= i <= r,
        occurs_at(s, p, r),
        forall|j: int| i <= j < r ==> !occurs_at(s, p, j),
    ensures
        find_from(s, p, i) == r,
    decreases r - i,
{
    if i < r {
        lemma_find_from_is(s, p, i + 1, r);
    }
}

pub proof fn lemma_find_from_none(s: Seq<char>, p: Seq<char>, i: int)
    requires
        0 <= i,
        forall|j: int| i <= j ==> !occurs_at(s, p, j),
    ensures
        find_from(s, p, i) == -1,
    decreases s.len() + 1 - i,
{
    if i + p.len() <= s.len() {
        assert(!occurs_at(s, p, i));
        lemma_find_from_none(s, p, i + 1);
    }
}

pub proof fn lemma_rfind_char_before(s: Seq<char>, c: char, n: int)
    requires
        0 <= n <= s.len(),
    ensures
        -1 <= rfind_char_before(s, c, n) < n,
        rfind_char_before(s, c, n) >= 0 ==> s[rfind_char_before(s, c, n)] == c,
        forall|j: int| rfind_char_before(s, c, n) < j < n ==> s[j] != c,
    decreases n,
{
    if n > 0 && s[n - 1] != c {
        lemma_rfind_char_before(s, c, n - 1);
    }
}

pub proof fn lemma_trim_end_at(s: Seq<char>, n: int)
    requires
        n <= s.len(),
    ensures
        0 <= trim_end_at(s, n) <= if n < 0 { 0 } else { n },
        forall|j: int| trim_end_at(s, n) <= j < n ==> is_white(s[j]),
        trim_end_at(s, n) > 0 ==> !is_white(s[trim_end_at(s, n) - 1]),
    decreases n,
{
    if n > 0 && is_white(s[n - 1]) {
        lemma_trim_end_at(s, n - 1);
    }
}

pub proof fn lemma_lead_white_from(s: Seq<char>, i: int)
    requires
        0 <= i <= s.len(),
    ensures
        0 <= lead_white_from(s, i) <= s.len() - i,
        forall|j: int| i <= j < i + lead_white_from(s, i) ==> is_white(s[j]),
        i + lead_white_from(s, i) < s.len() ==> !is_white(s[i + lead_white_from(s, i)]),
    decreases s.len() - i,
{
    if i < s.len() && is_white(s[i]) {
        lemma_lead_white_from(s, i + 1);
    }
}

pub proof fn lemma_trim_end_char_at(s: Seq<char>, c: char, n: int)
    requires
        n <= s.len(),
    ensures
        0 <= trim_end_char_at(s, c, n) <= if n < 0 { 0 } else { n },
        forall|j: int| trim_end_char_at(s, c, n) <= j < n ==> s[j] == c,
        trim_end_char_at(s, c, n) > 0 ==> s[trim_end_char_at(s, c, n) - 1] != c,
    decreases n,
{
    if n > 0 && s[n - 1] == c {
        lemma_trim_end_char_at(s, c, n - 1);
    }
}

/// Without a `c` in `a`, the first `c` of `a + [c] + b` is the one after `a`.
pub proof fn lemma_find_char_after(a: Seq<char>, c: char, b: Seq<char>)
    requires
        !has_char(a, c),
    ensures
        find(a + seq![c] + b, seq![c]) == a.len(),
{
    let s = a + seq![c] + b;
    assert(s.subrange(a.len() as int, a.len() + 1int) == seq![c]);
    assert forall|j: int| 0 <= j < a.len() implies !occurs_at(s, seq![c], j) by {
        if occurs_at(s, seq![c], j) {
            assert(s.subrange(j, j + 1)[0] == s[j]);
            assert(a[j] == c);
        }
    }
    lemma_find_from_is(s, seq![c], 0, a.len() as int);
}

/// `c` occurs at `j` exactly when `s[j] == c`.
pub proof fn lemma_occurs_char(s: Seq<char>, c: char, j: int)
    requires
        0 <= j < s.len(),
    ensures
        occurs_at(s, seq![c], j) <==> s[j] == c,
{
    assert(s.subrange(j, j + 1)[0] == s[j]);
    if s[j] == c {
        assert(s.subrange(j, j + 1) =~= seq![c]);
    }
}

/// No `c` before the first one, and none at all when there is no first one.
pub proof fn lemma_find_char(s: Seq<char>, c: char)
    ensures
        find(s, seq![c]) >= 0 ==> find(s, seq![c]) < s.len() && s[find(s, seq![c])] == c,
        forall|j: int| 0 <= j < find(s, seq![c]) ==> s[j] != c,
        find(s, seq![c]) == -1 ==> !has_char(s, c),
{
    lemma_find_from(s, seq![c], 0);
    let q = find(s, seq![c]);
    if q >= 0 {
        lemma_occurs_char(s, c, q);
    }
    assert forall|j: int| 0 <= j < find(s, seq![c]) implies s[j] != c by {
        lemma_occurs_char(s, c, j);
    }
    if q == -1 {
        assert forall|j: int| 0 <= j < s.len() implies s[j] != c by {
            lemma_occurs_char(s, c, j);
        }
    }
}

/// A part of a sequence without `c` has no `c` either.
pub proof fn lemma_no_char_subrange(s: Seq<char>, c: char, i: int, j: int)
    requires
        !has_char(s, c),
        0 <= i <= j <= s.len(),
    ensures
        !has_char(s.subrange(i, j), c),
{
    if has_char(s.subrange(i, j), c) {
        let k = choose|k: int| 0 <= k < j - i && s.subrange(i, j)[k] == c;
        assert(s[i + k] == c);
    }
}

/// A concatenation has a `c` exactly when one of its parts has.
pub proof fn lemma_has_char_concat(a: Seq<char>, b: Seq<char>, c: char)
    ensures
        has_char(a + b, c) <==> (has_char(a, c) || has_char(b, c)),
{
    let s = a + b;
    if has_char(s, c) {
        let k = choose|k: int| 0 <= k < s.len() && s[k] == c;
        if k < a.len() {
            assert(a[k] == c);
        } else {
            assert(b[k - a.len()] == c);
        }
    }
    if has_char(a, c) {
        let k = choose|k: int| 0 <= k < a.len() && a[k] == c;
        assert(s[k] == c);
    }
    if has_char(b, c) {
        let k = choose|k: int| 0 <= k < b.len() && b[k] == c;
        assert(s[a.len() + k] == c);
    }
}

/// A sequence that neither starts nor ends with whitespace is its own trim.
pub proof fn lemma_trim_unchanged(s: Seq<char>)
    requires
        s.len() > 0,
        !is_white(s[0]),
        !is_white(s[s.len() - 1]),
    ensures
        trim(s) == s,
{
    assert(trim_end_at(s, s.len() as int) == s.len());
    assert(trim_end(s) =~= s);
    assert(lead_white_from(s, 0) == 0);
}

/// Trimming twice is trimming once.
pub proof fn lemma_trim_idempotent(s: Seq<char>)
    ensures
        trim(trim(s)) == trim(s),
{
    let n = trim_end_at(s, s.len() as int);
    lemma_trim_end_at(s, s.len() as int);
    let e = trim_end(s);
    lemma_lead_white_from(e, 0);
    let t = trim(s);
    if t.len() > 0 {
        assert(t[0] == e[lead_white_from(e, 0)]);
        assert(t[t.len() - 1] == s[n - 1]);
        lemma_trim_unchanged(t);
    } else {
        assert(trim_end(t) =~= t);
        assert(trim(t) =~= t);
    }
}

// ---------------------------------------------------------------------------
// Executable helpers
// ---------------------------------------------------------------------------

/// Appends one character to a `String` (`String::push`).
#[verifier::external_body]
pub fn string_push(s: &mut String, c: char)
    ensures
        final(s)@ == old(s)@.push(c),
{
    s.push(c);
}

/// The characters of `s`, in order.
pub fn chars_of(s: &str) -> (v: Vec<char>)
    ensures
        v@ == s@,
{
    let mut v: Vec<char> = Vec::new();
    for c in it: s.chars()
        invariant
            v@ == it.seq().take(it.index() as int),
            it.seq() == s@,
    {
        v.push(c);
        assert(it.seq().take(it.index() + 1) == it.seq().take(it.index() as int).push(c));
    }
    v
}

/// A `String` holding the characters `v[from..to]`.
pub fn string_of_range(v: &Vec<char>, from: usize, to: usize) -> (r: String)
    requires
        from <= to <= v.len(),
    ensures
        r@ == v@.subrange(from as int, to as int),
{
    let mut r = String::new();
    let mut i = from;
    while i < to
        invariant
            from <= i <= to <= v.len(),
            r@ == v@.subrange(from as int, i as int),
        decreases to - i,
    {
        string_push(&mut r, v[i]);
        assert(v@.subrange(from as int, i + 1) == v@.subrange(from as int, i as int).push(v@[i as int]));
        i += 1;
    }
    r
}

/// A `String` holding the characters of `v`.
pub fn string_of(v: &Vec<char>) -> (r: String)
    ensures
        r@ == v@,
{
    let r = string_of_range(v, 0, v.len());
    assert(v@.subrange(0, v.len() as int) == v@);
    r
}

/// `v[from..to]` as a new vector.
pub fn slice_vec(v: &Vec<char>, from: usize, to: usize) -> (r: Vec<char>)
    requires
        from <= to <= v.len(),
    ensures
        r@ == v@.subrange(from as int, to as int),
{
    let mut r: Vec<char> = Vec::new();
    let mut i = from;
    while i < to
        invariant
            from <= i <= to <= v.len(),
            r@ == v@.subrange(from as int, i as int),
        decreases to - i,
    {
        r.push(v[i]);
        assert(v@.subrange(from as int, i + 1) == v@.subrange(from as int, i as int).push(v@[i as int]));
        i += 1;
    }
    r
}

/// A copy of `v`.
pub fn copy_vec(v: &Vec<char>) -> (r: Vec<char>)
    ensures
        r@ == v@,
{
    let r = slice_vec(v, 0, v.len());
    assert(v@.subrange(0, v.len() as int) == v@);
    r
}

/// Concatenation of two strings as a new `String`.
pub fn concat2(a: &str, b: &str) -> (r: String)
    ensures
        r@ == a@ + b@,
{
    let r = String::from_str(a);
    r.concat(b)
}

/// `p` occurs in `s` at index `i`.
pub fn occurs_at_exec(s: &Vec<char>, p: &Vec<char>, i: usize) -> (b: bool)
    ensures
        b == occurs_at(s@, p@, i as int),
{
    if i > s.len() || p.len() > s.len() - i {
        return false;
    }
    let mut k: usize = 0;
    while k < p.len()
        invariant
            i + p.len() <= s.len(),
            k <= p.len(),
            forall|m: int| 0 <= m < k ==> s@[i + m] == p@[m],
        decreases p.len() - k,
    {
        if s[i + k] != p[k] {
            assert(s@.subrange(i as int, i + p.len())[k as int] != p@[k as int]);
            return false;
        }
        k += 1;
    }
    assert(s@.subrange(i as int, i + p.len()) == p@);
    true
}

/// The first index `j >= from` at which `p` occurs in `s`.
pub fn find_from_exec(s: &Vec<char>, p: &Vec<char>, from: usize) -> (r: Option<usize>)
    ensures
        match r {
            Some(j) => j as int == find_from(s@, p@, from as int) && j as int >= 0,
            None => find_from(s@, p@, from as int) == -1,
        },
{
    if p.len() > s.len() || from > s.len() - p.len() {
        proof {
            assert forall|m: int| from <= m implies !occurs_at(s@, p@, m) by {}
            lemma_find_from_none(s@, p@, from as int);
        }
        return None;
    }
    if p.len() == 0 {
        assert(s@.subrange(from as int, from as int) == p@);
        return Some(from);
    }
    let last = s.len() - p.len();
    let mut j = from;
    while j <= last
        invariant
            from <= j <= last + 1,
            last + p.len() == s.len(),
            p.len() >= 1,
            forall|m: int| from <= m < j ==> !occurs_at(s@, p@, m),
        decreases last + 1 - j,
    {
        if occurs_at_exec(s, p, j) {
            proof { lemma_find_from_is(s@, p@, from as int, j as int); }
            return Some(j);
        }
        j += 1;
    }
    proof {
        assert forall|m: int| from <= m implies !occurs_at(s@, p@, m) by {
            if m >= j {
                assert(m + p.len() > s.len());
            }
        }
        lemma_find_from_none(s@, p@, from as int);
    }
    None
}

/// The first index at which `p` occurs in `s`.
pub fn find_exec(s: &Vec<char>, p: &Vec<char>) -> (r: Option<usize>)
    ensures
        match r {
            Some(j) => j as int == find(s@, p@) && j as int >= 0,
            None => find(s@, p@) == -1,
        },
{
    find_from_exec(s, p, 0)
}

/// Whether `p` occurs in `s`.
pub fn contains_exec(s: &Vec<char>, p: &Vec<char>) -> (b: bool)
    ensures
        b == contains(s@, p@),
{
    find_exec(s, p).is_some()
}

/// Whether two character sequences are equal.
pub fn seq_eq_exec(a: &Vec<char>, b: &Vec<char>) -> (r: bool)
    ensures
        r == (a@ == b@),
{
    if a.len() != b.len() {
        return false;
    }
    let r = occurs_at_exec(a, b, 0);
    assert(a@.subrange(0, a.len() as int) == a@);
    r
}

/// Whether `c` occurs in `s`.
pub fn has_char_exec(s: &Vec<char>, c: char) -> (b: bool)
    ensures
        b == has_char(s@, c),
{
    let mut i: usize = 0;
    while i < s.len()
        invariant
            i <= s.len(),
            forall|m: int| 0 <= m < i ==> s@[m] != c,
        decreases s.len() - i,
    {
        if s[i] == c {
            return true;
        }
        i += 1;
    }
    false
}

/// Whether `s` starts with `p`.
pub fn starts_with_exec(s: &Vec<char>, p: &Vec<char>) -> (b: bool)
    ensures
        b == starts_with(s@, p@),
{
    let b = occurs_at_exec(s, p, 0);
    b
}

/// Whether `s` ends with `p`.
pub fn ends_with_exec(s: &Vec<char>, p: &Vec<char>) -> (b: bool)
    ensures
        b == ends_with(s@, p@),
{
    if p.len() > s.len() {
        return false;
    }
    occurs_at_exec(s, p, s.len() - p.len())
}

/// The last index at which `c` occurs in `s`.
pub fn rfind_char_exec(s: &Vec<char>, c: char) -> (r: Option<usize>)
    ensures
        match r {
            Some(j) => j as int == rfind_char(s@, c) && j < s.len(),
            None => rfind_char(s@, c) == -1,
        },
{
    let mut n = s.len();
    while n > 0
        invariant
            n <= s.len(),
            rfind_char_before(s@, c, n as int) == rfind_char(s@, c),
        decreases n,
    {
        if s[n - 1] == c {
            return Some(n - 1);
        }
        n -= 1;
    }
    None
}

/// `s` with leading and trailing whitespace removed.
pub fn trim_exec(s: &Vec<char>) -> (r: Vec<char>)
    ensures
        r@ == trim(s@),
{
    let mut e = s.len();
    while e > 0 && is_white_exec(s[e - 1])
        invariant
            e <= s.len(),
            trim_end_at(s@, e as int) == trim_end_at(s@, s.len() as int),
        decreases e,
    {
        e -= 1;
    }
    let ghost te = trim_end(s@);
    assert(te == s@.subrange(0, e as int));
    let mut b: usize = 0;
    while b < e && is_white_exec(s[b])
        invariant
            b <= e <= s.len(),
            te == s@.subrange(0, e as int),
            lead_white_from(te, b as int) + b == lead_white_from(te, 0),
        decreases e - b,
    {
        b += 1;
    }
    assert(lead_white_from(te, b as int) == 0);
    slice_vec(s, b, e)
}

/// `s` with trailing whitespace removed.
pub fn trim_end_exec(s: &Vec<char>) -> (r: Vec<char>)
    ensures
        r@ == trim_end(s@),
{
    let mut e = s.len();
    while e > 0 && is_white_exec(s[e - 1])
        invariant
            e <= s.len(),
            trim_end_at(s@, e as int) == trim_end_at(s@, s.len() as int),
        decreases e,
    {
        e -= 1;
    }
    slice_vec(s, 0, e)
}

pub fn is_white_exec(c: char) -> (b: bool)
    ensures
        b == is_white(c),
{
    c == '\t' || c == '\n' || c == '\u{0B}' || c == '\u{0C}' || c == '\r' || c == ' '
        || c == '\u{85}' || c == '\u{A0}' || c == '\u{1680}'
        || ('\u{2000}' <= c && c <= '\u{200A}')
        || c == '\u{2028}' || c == '\u{2029}' || c == '\u{202F}' || c == '\u{205F}'
        || c == '\u{3000}'
}

/// `s` split around the first occurrence of `p`.
pub fn split_once_exec(s: &Vec<char>, p: &Vec<char>) -> (r: Option<(Vec<char>, Vec<char>)>)
    ensures
        match r {
            Some((a, b)) => split_once(s@, p@) == Some((a@, b@)),
            None => split_once(s@, p@) is None,
        },
{
    match find_exec(s, p) {
        Some(i) => {
            proof { lemma_find_from(s@, p@, 0); }
            let a = slice_vec(s, 0, i);
            let b = slice_vec(s, i + p.len(), s.len());
            Some((a, b))
        },
        None => None,
    }
}

/// `s` without its prefix `p`, if `p` is one.
pub fn strip_prefix_exec(s: &Vec<char>, p: &Vec<char>) -> (r: Option<Vec<char>>)
    ensures
        match r {
            Some(a) => strip_prefix(s@, p@) == Some(a@),
            None => strip_prefix(s@, p@) is None,
        },
{
    if starts_with_exec(s, p) {
        Some(slice_vec(s, p.len(), s.len()))
    } else {
        None
    }
}

/// `s` without its suffix `p`, if `p` is one.
pub fn strip_suffix_exec(s: &Vec<char>, p: &Vec<char>) -> (r: Option<Vec<char>>)
    ensures
        match r {
            Some(a) => strip_suffix(s@, p@) == Some(a@),
            None => strip_suffix(s@, p@) is None,
        },
{
    if ends_with_exec(s, p) {
        Some(slice_vec(s, 0, s.len() - p.len()))
    } else {
        None
    }
}

/// The part of `s` after its last `c` (all of `s` if there is none).
pub fn after_last_exec(s: &Vec<char>, c: char) -> (r: Vec<char>)
    ensures
        r@ == after_last(s@, c),
{
    match rfind_char_exec(s, c) {
        Some(j) => slice_vec(s, j + 1, s.len()),
        None => slice_vec(s, 0, s.len()),
    }
}

/// `s` without trailing copies of `c`.
pub fn trim_end_char_exec(s: &Vec<char>, c: char) -> (r: Vec<char>)
    ensures
        r@ == trim_end_char(s@, c),
{
    let mut n = s.len();
    while n > 0 && s[n - 1] == c
        invariant
            n <= s.len(),
            trim_end_char_at(s@, c, n as int) == trim_end_char_at(s@, c, s.len() as int),
        decreases n,
    {
        n -= 1;
    }
    slice_vec(s, 0, n)
}

/// Whether the characters of `v` spell `s`.
pub fn eq_str(v: &Vec<char>, s: &str) -> (b: bool)
    ensures
        b == (v@ == s@),
{
    let w = chars_of(s);
    seq_eq_exec(v, &w)
}

/// A `String` holding the characters of `v`.
pub fn to_string(v: &Vec<char>) -> (r: String)
    ensures
        r@ == v@,
{
    string_of(v)
}

/// Appends the characters of `v` to `s`.
pub fn append_chars(s: &mut String, v: &Vec<char>)
    ensures
        final(s)@ == old(s)@ + v@,
{
    let mut i: usize = 0;
    while i < v.len()
        invariant
            i <= v.len(),
            s@ == old(s)@ + v@.subrange(0, i as int),
        decreases v.len() - i,
    {
        string_push(s, v[i]);
        assert(v@.subrange(0, i + 1) == v@.subrange(0, i as int).push(v@[i as int]));
        i += 1;
    }
    assert(v@.subrange(0, v.len() as int) == v@);
}

/// The parts joined with `sep` between them (`[String]::join`).
pub open spec fn join_with(ps: Seq<Seq<char>>, sep: Seq<char>) -> Seq<char>
    decreases ps.len(),
{
    if ps.len() == 0 {
        Seq::empty()
    } else if ps.len() == 1 {
        ps[0]
    } else {
        join_with(ps.drop_last(), sep) + sep + ps.last()
    }
}

/// The strings joined with `sep` between them (see [`join_with`]).
pub fn join_exec(ps: &Vec<String>, sep: &str) -> (r: String)
    ensures
        r@ == join_with(ps@.map_values(|s: String| s@), sep@),
{
    let ghost v = ps@.map_values(|s: String| s@);
    let mut r = String::new();
    let mut i: usize = 0;
    while i < ps.len()
        invariant
            i <= ps@.len(),
            v == ps@.map_values(|s: String| s@),
            r@ == join_with(v.subrange(0, i as int), sep@),
        decreases ps.len() - i,
    {
        let ghost sub = v.subrange(0, i + 1);
        assert(sub.drop_last() =~= v.subrange(0, i as int));
        assert(sub.last() == ps@[i as int]@);
        if i > 0 {
            r.append(sep);
        }
        r.append(ps[i].as_str());
        i += 1;
    }
    assert(v.subrange(0, ps@.len() as int) =~= v);
    r
}

} // verus!
