//! A source URL rebuilt around a new ref parses back to the same URL with
//! that ref.
use vstd::prelude::*;

use crate::rules::fetcher::source_url::{
    archive_exts, current_ref_of, dispatch, four_segments, parse_bitbucket, parse_bitbucket_archive,
    parse_commit_compare, parse_gitlab, parse_gitlab_archive, parse_marker_archive, parse_simple_archive,
    parse_simple_commit_compare, patch_exts, replace_ref_base, replace_ref_url, spec_parse_source_url,
    split_archive_suffix, split_ref_suffix, split_rest, split_suffix_among, strip_scheme, strip_tags_prefix,
    RefTypeView, SourcePlatform, SourceUrlView,
};
use crate::text::{
    after_last, contains, ends_with, find, has_char, is_white, lemma_find_char, lemma_find_char_after,
    lemma_find_from, lemma_find_from_is, lemma_find_from_none, lemma_has_char_concat, lemma_no_char_subrange,
    lemma_trim_unchanged, occurs_at, split_once, starts_with, strip_suffix, trim,
};

verus! {

// ---------------------------------------------------------------------------
// Markers in a path
// ---------------------------------------------------------------------------

/// Two sequences that agree below `n` have the same occurrences ending there.
proof fn lemma_same_occurrence(s: Seq<char>, t: Seq<char>, g: Seq<char>, j: int, n: int)
    requires
        0 <= j,
        j + g.len() <= n,
        n <= s.len(),
        n <= t.len(),
        forall|k: int| 0 <= k < n ==> s[k] == t[k],
    ensures
        occurs_at(s, g, j) == occurs_at(t, g, j),
{
    assert(s.subrange(j, j + g.len()) =~= t.subrange(j, j + g.len()));
}

/// The first `m` of `a + m + b` stays the first when what follows it changes.
pub proof fn lemma_first_marker_kept(a: Seq<char>, m: Seq<char>, b: Seq<char>, c: Seq<char>)
    requires
        find(a + m + b, m) == a.len(),
    ensures
        find(a + m + c, m) == a.len(),
{
    let o = a + m + b;
    let p = a + m + c;
    lemma_find_from(o, m, 0);
    assert(p.subrange(a.len() as int, (a.len() + m.len()) as int) =~= m);
    assert forall|j: int| 0 <= j < a.len() implies !occurs_at(p, m, j) by {
        lemma_same_occurrence(o, p, m, j, (a.len() + m.len()) as int);
    }
    lemma_find_from_is(p, m, 0, a.len() as int);
}

/// A marker ending in `/` that `a + m + b` lacks is not in `a + m + c`
/// either when `c` has no `/`.
pub proof fn lemma_absent_marker_kept(a: Seq<char>, m: Seq<char>, b: Seq<char>, c: Seq<char>, g: Seq<char>)
    requires
        !contains(a + m + b, g),
        g.len() > 0,
        g[g.len() - 1] == '/',
        !has_char(c, '/'),
    ensures
        !contains(a + m + c, g),
{
    let o = a + m + b;
    let p = a + m + c;
    lemma_find_from(o, g, 0);
    assert forall|j: int| 0 <= j implies !occurs_at(p, g, j) by {
        if occurs_at(p, g, j) {
            if j + g.len() <= a.len() + m.len() {
                lemma_same_occurrence(o, p, g, j, (a.len() + m.len()) as int);
            } else {
                let k = j + g.len() - 1;
                assert(p.subrange(j, j + g.len())[g.len() - 1] == p[k]);
                assert(c[k - a.len() - m.len()] == '/');
            }
        }
    }
    lemma_find_from_none(p, g, 0);
}

/// A marker `/word/`: a `/`, then no `/`, then a `/`.
pub open spec fn slash_word(g: Seq<char>) -> bool {
    &&& g.len() >= 2
    &&& g[0] == '/'
    &&& g[g.len() - 1] == '/'
    &&& forall|k: int| 0 < k < g.len() - 1 ==> g[k] != '/'
}

/// A `/word/` marker that `a + "/"` lacks is not in `a + m + c` when `m` is
/// another `/word/` and `c` has no `/`.
pub proof fn lemma_other_marker_absent(a: Seq<char>, m: Seq<char>, c: Seq<char>, g: Seq<char>)
    requires
        slash_word(g),
        slash_word(m),
        g != m,
        !contains(a + seq!['/'], g),
        !has_char(c, '/'),
    ensures
        !contains(a + m + c, g),
{
    let p = a + m + c;
    let s = a + seq!['/'];
    lemma_find_from(s, g, 0);
    assert forall|j: int| 0 <= j implies !occurs_at(p, g, j) by {
        if occurs_at(p, g, j) {
            let e = j + g.len() - 1;
            assert(p.subrange(j, j + g.len())[g.len() - 1] == p[e]);
            assert(p[e] == '/');
            if j + g.len() <= a.len() + 1 {
                lemma_same_occurrence(p, s, g, j, a.len() + 1int);
            } else if j < a.len() {
                let k = a.len() - j;
                assert(p.subrange(j, j + g.len())[k] == p[a.len() as int]);
                assert(p[a.len() as int] == m[0]);
            } else if j == a.len() {
                if e < a.len() + m.len() - 1 {
                    assert(p[e] == m[e - a.len()]);
                } else if e == a.len() + m.len() - 1 {
                    assert forall|k: int| 0 <= k < g.len() implies g[k] == m[k] by {
                        assert(p.subrange(j, j + g.len())[k] == p[j + k]);
                    }
                    assert(g =~= m);
                } else {
                    assert(c[e - a.len() - m.len()] == '/');
                }
            } else {
                assert(p.subrange(j, j + g.len())[0] == p[j]);
                if j < a.len() + m.len() - 1 {
                    assert(p[j] == m[j - a.len()]);
                } else if j == a.len() + m.len() - 1 {
                    assert(c[e - a.len() - m.len()] == '/');
                } else {
                    assert(c[j - a.len() - m.len()] == '/');
                }
            }
        }
    }
    lemma_find_from_none(p, g, 0);
}

/// The marker `g`, ended at index `e` of `m`, agrees with `m` where they
/// overlap.
pub open spec fn overlaps_at(g: Seq<char>, m: Seq<char>, e: int) -> bool {
    let k = if g.len() < e + 1 { g.len() as int } else { e + 1 };
    g.subrange(g.len() - k, g.len() as int) == m.subrange(e + 1 - k, e + 1)
}

/// A `/`-ended marker that `a + "/"` lacks is not in `a + m + c` when it
/// cannot end at any later `/` of `m` and `c` has no `/`.
pub proof fn lemma_marker_absent_by_overlap(a: Seq<char>, m: Seq<char>, c: Seq<char>, g: Seq<char>)
    requires
        g.len() > 0,
        g[g.len() - 1] == '/',
        m.len() > 0,
        m[0] == '/',
        forall|e: int| 0 < e < m.len() && m[e] == '/' ==> !overlaps_at(g, m, e),
        !contains(a + seq!['/'], g),
        !has_char(c, '/'),
    ensures
        !contains(a + m + c, g),
{
    let p = a + m + c;
    let s = a + seq!['/'];
    lemma_find_from(s, g, 0);
    assert forall|j: int| 0 <= j implies !occurs_at(p, g, j) by {
        if occurs_at(p, g, j) {
            let e = j + g.len() - 1;
            assert(p.subrange(j, j + g.len())[g.len() - 1] == p[e]);
            if e <= a.len() {
                assert forall|i: int| 0 <= i < a.len() + 1 implies p[i] == s[i] by {}
                lemma_same_occurrence(p, s, g, j, a.len() + 1int);
            } else if e < a.len() + m.len() {
                let em = e - a.len();
                assert(m[em] == '/');
                let k = if g.len() < em + 1 { g.len() as int } else { em + 1 };
                let gs = g.subrange(g.len() - k, g.len() as int);
                let ms = m.subrange(em + 1 - k, em + 1);
                assert forall|t: int| 0 <= t < k implies #[trigger] gs[t] == ms[t] by {
                    assert(p.subrange(j, j + g.len())[g.len() - k + t] == p[j + g.len() - k + t]);
                }
                assert(gs =~= ms);
            } else {
                assert(c[e - a.len() - m.len()] == '/');
            }
        }
    }
    lemma_find_from_none(p, g, 0);
}

/// The GitLab archive marker cannot end inside the GitLab commit or compare
/// markers.
proof fn lemma_gitlab_overlaps()
    ensures
        forall|e: int| 0 < e < "/-/commit/"@.len() && "/-/commit/"@[e] == '/' ==> !overlaps_at(
            "/-/archive/"@,
            "/-/commit/"@,
            e,
        ),
        forall|e: int| 0 < e < "/-/compare/"@.len() && "/-/compare/"@[e] == '/' ==> !overlaps_at(
            "/-/archive/"@,
            "/-/compare/"@,
            e,
        ),
{
    reveal_strlit("/-/commit/");
    reveal_strlit("/-/compare/");
    reveal_strlit("/-/archive/");
    let g = "/-/archive/"@;
    let m1 = "/-/commit/"@;
    let m2 = "/-/compare/"@;
    assert forall|e: int| 0 < e < m1.len() && m1[e] == '/' implies !overlaps_at(g, m1, e) by {
        let k = if g.len() < e + 1 { g.len() as int } else { e + 1 };
        if e == 2 {
            assert(g.subrange(g.len() - k, g.len() as int)[0] != m1.subrange(e + 1 - k, e + 1)[0]);
        } else {
            assert(e == 9);
            assert(g.subrange(g.len() - k, g.len() as int)[0] != m1.subrange(e + 1 - k, e + 1)[0]);
        }
    }
    assert forall|e: int| 0 < e < m2.len() && m2[e] == '/' implies !overlaps_at(g, m2, e) by {
        let k = if g.len() < e + 1 { g.len() as int } else { e + 1 };
        if e == 2 {
            assert(g.subrange(g.len() - k, g.len() as int)[0] != m2.subrange(e + 1 - k, e + 1)[0]);
        } else {
            assert(e == 10);
            assert(g.subrange(g.len() - k, g.len() as int)[3] != m2.subrange(e + 1 - k, e + 1)[3]);
        }
    }
}

/// No GitLab archive marker follows a project that lacks it when a GitLab
/// commit or compare marker and a tail without `/` do.
proof fn lemma_no_gitlab_archive_after(a: Seq<char>, m: Seq<char>, c: Seq<char>)
    requires
        m == "/-/commit/"@ || m == "/-/compare/"@,
        !contains(a + seq!['/'], "/-/archive/"@),
        !has_char(c, '/'),
    ensures
        !contains(a + m + c, "/-/archive/"@),
{
    reveal_strlit("/-/commit/");
    reveal_strlit("/-/compare/");
    reveal_strlit("/-/archive/");
    lemma_gitlab_overlaps();
    lemma_marker_absent_by_overlap(a, m, c, "/-/archive/"@);
}

// ---------------------------------------------------------------------------
// Refs and their extensions
// ---------------------------------------------------------------------------

/// A character of a plain ref: an ASCII letter or digit, `-` or `_`.
pub open spec fn plain_ref_char(c: char) -> bool {
    ('a' <= c && c <= 'z') || ('A' <= c && c <= 'Z') || ('0' <= c && c <= '9') || c == '-' || c == '_'
}

/// A non-empty ref of plain characters only.
pub open spec fn plain_ref(r: Seq<char>) -> bool {
    r.len() > 0 && forall|i: int| 0 <= i < r.len() ==> plain_ref_char(r[i])
}

proof fn lemma_plain_ref_chars(r: Seq<char>)
    requires
        plain_ref(r),
    ensures
        !has_char(r, '/'),
        !has_char(r, '.'),
        !has_char(r, '#'),
        !has_char(r, '?'),
        !is_white(r[r.len() - 1]),
        r[0] != '~',
{
    assert(plain_ref_char(r[r.len() - 1]));
    assert(plain_ref_char(r[0]));
}

/// One of the archive extensions.
pub open spec fn archive_ext(x: Seq<char>) -> bool {
    x == ".tar.gz"@ || x == ".tar.bz2"@ || x == ".tar.xz"@ || x == ".zip"@
}

/// One of the patch extensions.
pub open spec fn patch_ext(x: Seq<char>) -> bool {
    x == ".patch"@ || x == ".diff"@ || x == ".mbox"@
}

/// What an extension is made of: a leading dot, no `/`, `#`, `?` or
/// whitespace at its end.
proof fn lemma_ext_chars(x: Seq<char>)
    requires
        archive_ext(x) || patch_ext(x),
    ensures
        x.len() >= 4,
        x[0] == '.',
        !has_char(x, '/'),
        !has_char(x, '#'),
        !has_char(x, '?'),
        !is_white(x[x.len() - 1]),
{
    reveal_strlit(".tar.gz");
    reveal_strlit(".tar.bz2");
    reveal_strlit(".tar.xz");
    reveal_strlit(".zip");
    reveal_strlit(".patch");
    reveal_strlit(".diff");
    reveal_strlit(".mbox");
}

/// A sequence ending with `e` shares its last two characters.
proof fn lemma_ends_last_two(t: Seq<char>, e: Seq<char>)
    requires
        e.len() >= 2,
        ends_with(t, e),
    ensures
        t[t.len() - 1] == e[e.len() - 1],
        t[t.len() - 2] == e[e.len() - 2],
{
    assert(t.subrange(t.len() - e.len(), t.len() as int)[e.len() - 1] == t[t.len() - 1]);
    assert(t.subrange(t.len() - e.len(), t.len() as int)[e.len() - 2] == t[t.len() - 2]);
}

/// Without a dot, no extension ends a sequence.
proof fn lemma_no_ext_without_dot(s: Seq<char>, e: Seq<char>)
    requires
        !has_char(s, '.'),
        e.len() > 0,
        e[0] == '.',
    ensures
        !ends_with(s, e),
{
    if ends_with(s, e) {
        assert(s.subrange(s.len() - e.len(), s.len() as int)[0] == s[s.len() - e.len()]);
    }
}

proof fn lemma_strip_own_suffix(s: Seq<char>, x: Seq<char>)
    ensures
        strip_suffix(s + x, x) == Some(s),
{
    assert((s + x).subrange(s.len() as int, (s + x).len() as int) =~= x);
    assert((s + x).subrange(0, s.len() as int) =~= s);
}

/// `{ref}{ext}` splits back into the ref and the archive extension.
pub proof fn lemma_split_archive_again(s: Seq<char>, x: Seq<char>)
    requires
        s.len() > 0,
        archive_ext(x) || (x.len() == 0 && !has_char(s, '.')),
    ensures
        split_archive_suffix(s + x) == Some((s, x)),
{
    reveal_strlit(".tar.gz");
    reveal_strlit(".tar.bz2");
    reveal_strlit(".tar.xz");
    reveal_strlit(".zip");
    reveal_with_fuel(split_suffix_among, 5);
    let e = archive_exts();
    let t = s + x;
    assert(e.drop_first() =~= seq![".tar.bz2"@, ".tar.xz"@, ".zip"@]);
    assert(e.drop_first().drop_first() =~= seq![".tar.xz"@, ".zip"@]);
    assert(e.drop_first().drop_first().drop_first() =~= seq![".zip"@]);
    assert(e.drop_first().drop_first().drop_first().drop_first() =~= Seq::<Seq<char>>::empty());
    lemma_strip_own_suffix(s, x);
    if x.len() == 0 {
        assert(t =~= s);
        lemma_no_ext_without_dot(s, ".tar.gz"@);
        lemma_no_ext_without_dot(s, ".tar.bz2"@);
        lemma_no_ext_without_dot(s, ".tar.xz"@);
        lemma_no_ext_without_dot(s, ".zip"@);
    } else {
        lemma_ext_chars(x);
        assert(t[t.len() - 1] == x[x.len() - 1]);
        assert(t[t.len() - 2] == x[x.len() - 2]);
        if ends_with(t, ".tar.gz"@) { lemma_ends_last_two(t, ".tar.gz"@); }
        if ends_with(t, ".tar.bz2"@) { lemma_ends_last_two(t, ".tar.bz2"@); }
        if ends_with(t, ".tar.xz"@) { lemma_ends_last_two(t, ".tar.xz"@); }
    }
}

/// `{ref}{ext}` splits back into the ref and the patch extension.
pub proof fn lemma_split_patch_again(s: Seq<char>, x: Seq<char>)
    requires
        s.len() > 0,
        patch_ext(x) || (x.len() == 0 && !has_char(s, '.')),
    ensures
        split_ref_suffix(s + x) == Some((s, x)),
{
    reveal_strlit(".patch");
    reveal_strlit(".diff");
    reveal_strlit(".mbox");
    reveal_with_fuel(split_suffix_among, 4);
    let e = patch_exts();
    let t = s + x;
    assert(e.drop_first() =~= seq![".diff"@, ".mbox"@]);
    assert(e.drop_first().drop_first() =~= seq![".mbox"@]);
    assert(e.drop_first().drop_first().drop_first() =~= Seq::<Seq<char>>::empty());
    lemma_strip_own_suffix(s, x);
    if x.len() == 0 {
        assert(t =~= s);
        lemma_no_ext_without_dot(s, ".patch"@);
        lemma_no_ext_without_dot(s, ".diff"@);
        lemma_no_ext_without_dot(s, ".mbox"@);
    } else {
        lemma_ext_chars(x);
        assert(t[t.len() - 1] == x[x.len() - 1]);
        if ends_with(t, ".patch"@) { lemma_ends_last_two(t, ".patch"@); }
        if ends_with(t, ".diff"@) { lemma_ends_last_two(t, ".diff"@); }
    }
}

/// The extension an archive split gives is an archive extension, or none.
pub proof fn lemma_archive_split_ext(s: Seq<char>)
    ensures
        split_archive_suffix(s) matches Some((_, x)) ==> archive_ext(x) || x.len() == 0,
        split_archive_suffix(s) matches Some((b, x)) ==> s == b + x,
{
    reveal_with_fuel(split_suffix_among, 5);
    let e = archive_exts();
    assert(e.drop_first() =~= seq![".tar.bz2"@, ".tar.xz"@, ".zip"@]);
    assert(e.drop_first().drop_first() =~= seq![".tar.xz"@, ".zip"@]);
    assert(e.drop_first().drop_first().drop_first() =~= seq![".zip"@]);
    assert(e.drop_first().drop_first().drop_first().drop_first() =~= Seq::<Seq<char>>::empty());
    match split_archive_suffix(s) {
        Some((b, x)) => {
            assert(s =~= b + x);
        },
        None => {},
    }
}

/// The extension a patch split gives is a patch extension, or none.
pub proof fn lemma_patch_split_ext(s: Seq<char>)
    ensures
        split_ref_suffix(s) matches Some((_, x)) ==> patch_ext(x) || x.len() == 0,
        split_ref_suffix(s) matches Some((b, x)) ==> s == b + x,
        split_ref_suffix(s) matches Some((_, x)) ==> (x.len() == 0 ==> !has_char(s, '.')),
{
    reveal_strlit(".patch");
    reveal_strlit(".diff");
    reveal_strlit(".mbox");
    reveal_with_fuel(split_suffix_among, 4);
    let e = patch_exts();
    assert(e.drop_first() =~= seq![".diff"@, ".mbox"@]);
    assert(e.drop_first().drop_first() =~= seq![".mbox"@]);
    assert(e.drop_first().drop_first().drop_first() =~= Seq::<Seq<char>>::empty());
    match split_ref_suffix(s) {
        Some((b, x)) => {
            assert(s =~= b + x);
        },
        None => {},
    }
}

// ---------------------------------------------------------------------------
// The URL around the path
// ---------------------------------------------------------------------------

/// A part of a sequence lacks what the sequence lacks.
proof fn lemma_part_lacks(s: Seq<char>, i: int, j: int)
    requires
        0 <= i <= j <= s.len(),
    ensures
        !has_char(s, '#') ==> !has_char(s.subrange(i, j), '#'),
        !has_char(s, '?') ==> !has_char(s.subrange(i, j), '?'),
        !has_char(s, '/') ==> !has_char(s.subrange(i, j), '/'),
{
    if !has_char(s, '#') {
        lemma_no_char_subrange(s, '#', i, j);
    }
    if !has_char(s, '?') {
        lemma_no_char_subrange(s, '?', i, j);
    }
    if !has_char(s, '/') {
        lemma_no_char_subrange(s, '/', i, j);
    }
}

/// The part before the first `c` of `s` has no `c`; nor has `s` when it has
/// no `c` at all.
proof fn lemma_before_first(s: Seq<char>, c: char)
    ensures
        find(s, seq![c]) >= 0 ==> !has_char(s.subrange(0, find(s, seq![c])), c),
        find(s, seq![c]) < 0 ==> !has_char(s, c),
{
    lemma_find_char(s, c);
    lemma_find_from(s, seq![c], 0);
    let i = find(s, seq![c]);
    if i >= 0 {
        let b = s.subrange(0, i);
        if has_char(b, c) {
            let k = choose|k: int| 0 <= k < b.len() && b[k] == c;
            assert(s[k] == c);
        }
    }
}

/// What the domain, path and query string of a URL rest are made of.
pub proof fn lemma_split_rest_parts(rest: Seq<char>)
    ensures
        split_rest(rest) matches Some((domain, path, query)) ==> {
            &&& !has_char(domain, '/') && !has_char(domain, '#') && !has_char(domain, '?')
            &&& !has_char(path, '#') && !has_char(path, '?')
            &&& !has_char(query, '#')
            &&& (query.len() == 0 || (query[0] == '?' && query.len() >= 2))
        },
{
    reveal_strlit("#");
    reveal_strlit("?");
    reveal_strlit("/");
    assert("#"@ =~= seq!['#']);
    assert("?"@ =~= seq!['?']);
    assert("/"@ =~= seq!['/']);
    let fi = find(rest, seq!['#']);
    lemma_find_from(rest, seq!['#'], 0);
    lemma_before_first(rest, '#');
    let bf = if fi >= 0 { rest.subrange(0, fi) } else { rest };
    assert(!has_char(bf, '#'));
    let qi = find(bf, seq!['?']);
    lemma_find_from(bf, seq!['?'], 0);
    lemma_before_first(bf, '?');
    let hp = if qi >= 0 { bf.subrange(0, qi) } else { bf };
    let qs = if qi >= 0 { bf.subrange(qi + 1, bf.len() as int) } else { Seq::<char>::empty() };
    assert(!has_char(hp, '?'));
    if qi >= 0 {
        lemma_part_lacks(bf, 0, qi);
        lemma_part_lacks(bf, qi + 1, bf.len() as int);
    }
    assert(!has_char(hp, '#'));
    assert(!has_char(qs, '#'));
    let query = if qs.len() == 0 { Seq::<char>::empty() } else { "?"@ + qs };
    if qs.len() > 0 {
        lemma_has_char_concat("?"@, qs, '#');
    }
    let di = find(hp, seq!['/']);
    lemma_find_from(hp, seq!['/'], 0);
    lemma_before_first(hp, '/');
    if di >= 0 {
        lemma_part_lacks(hp, 0, di);
        lemma_part_lacks(hp, di + 1, hp.len() as int);
    }
}

/// A URL put together from a domain, a path and a query string of the
/// shapes a parse gives splits back into them.
#[verifier::spinoff_prover]
#[verifier::rlimit(50)]
proof fn lemma_rebuilt_rest(domain: Seq<char>, path: Seq<char>, query: Seq<char>)
    requires
        !has_char(domain, '/'),
        !has_char(domain, '#'),
        !has_char(domain, '?'),
        !has_char(path, '#'),
        !has_char(path, '?'),
        !has_char(query, '#'),
        query.len() == 0 || (query[0] == '?' && query.len() >= 2 && !is_white(query[query.len() - 1])),
        path.len() > 0,
        !is_white(path[path.len() - 1]),
    ensures
        strip_scheme(trim("https://"@ + domain + "/"@ + path + query), true) == Some(domain + "/"@ + path + query),
        split_rest(domain + "/"@ + path + query) == Some((domain, path, query)),
{
    reveal_strlit("https://");
    reveal_strlit("http://");
    reveal_strlit("#");
    reveal_strlit("?");
    reveal_strlit("/");
    assert("#"@ =~= seq!['#']);
    assert("?"@ =~= seq!['?']);
    assert("/"@ =~= seq!['/']);
    let hp = domain + seq!['/'] + path;
    let rest = hp + query;
    let n = "https://"@ + rest;
    assert(n =~= "https://"@ + domain + "/"@ + path + query);
    assert(n[0] == 'h');
    if query.len() > 0 {
        assert(n[n.len() - 1] == query[query.len() - 1]);
    } else {
        assert(n[n.len() - 1] == path[path.len() - 1]);
    }
    lemma_trim_unchanged(n);
    assert(n.subrange(0, 8) =~= "https://"@);
    assert(n.subrange(8, n.len() as int) =~= rest);
    assert(strip_scheme(trim(n), true) == Some(rest));
    assert(rest =~= domain + "/"@ + path + query);
    assert(!has_char(seq!['/'], '#'));
    assert(!has_char(seq!['/'], '?'));
    lemma_has_char_concat(domain, seq!['/'], '#');
    lemma_has_char_concat(domain + seq!['/'], path, '#');
    lemma_has_char_concat(hp, query, '#');
    lemma_has_char_concat(domain, seq!['/'], '?');
    lemma_has_char_concat(domain + seq!['/'], path, '?');
    lemma_find_char(rest, '#');
    assert(find(rest, seq!['#']) < 0);
    if query.len() > 0 {
        let qs = query.subrange(1, query.len() as int);
        assert(rest =~= hp + seq!['?'] + qs);
        lemma_find_char_after(hp, '?', qs);
        assert(rest.subrange(0, hp.len() as int) =~= hp);
        assert(rest.subrange(hp.len() + 1int, rest.len() as int) =~= qs);
        assert("?"@ + qs =~= query);
    } else {
        assert(rest =~= hp);
        lemma_find_char(hp, '?');
    }
    lemma_find_char_after(domain, '/', path);
    assert(hp.subrange(0, domain.len() as int) =~= domain);
    assert(hp.subrange(domain.len() + 1int, hp.len() as int) =~= path);
    assert(split_once(rest, "#"@) is None);
    if query.len() > 0 {
        assert(split_once(rest, "?"@) == Some((hp, query.subrange(1, query.len() as int))));
    } else {
        assert(split_once(rest, "?"@) is None);
    }
    assert(split_once(hp, "/"@) == Some((domain, path)));
    assert(split_rest(rest) == Some((domain, path, query)));
}

/// Every `/`-ended marker that `path` lacks, `np` lacks too.
pub open spec fn keeps_absent(path: Seq<char>, np: Seq<char>) -> bool {
    forall|g: Seq<char>|
        g.len() > 0 && g[g.len() - 1] == '/' && !contains(path, g) ==> !#[trigger] contains(np, g)
}

proof fn lemma_keeps_absent(a: Seq<char>, m: Seq<char>, b: Seq<char>, c: Seq<char>)
    requires
        !has_char(c, '/'),
    ensures
        keeps_absent(a + m + b, a + m + c),
{
    assert forall|g: Seq<char>| g.len() > 0 && g[g.len() - 1] == '/' && !contains(a + m + b, g) implies !#[trigger] contains(
        a + m + c,
        g,
    ) by {
        lemma_absent_marker_kept(a, m, b, c, g);
    }
}

// ---------------------------------------------------------------------------
// Each parser, again
// ---------------------------------------------------------------------------

/// `u` with its current ref replaced by `r`.
pub open spec fn with_ref(u: SourceUrlView, r: Seq<char>) -> SourceUrlView {
    SourceUrlView {
        platform: u.platform,
        domain: u.domain,
        project: u.project,
        repo_name: u.repo_name,
        ref_type: match u.ref_type {
            RefTypeView::Commit { suffix, .. } => RefTypeView::Commit { sha: r, suffix },
            RefTypeView::Compare { base, suffix, .. } => RefTypeView::Compare { base, head: r, suffix },
            RefTypeView::Archive { suffix, .. } => RefTypeView::Archive { tag_ref: r, suffix },
        },
        query: u.query,
    }
}

/// The suffix a parsed URL keeps after its ref.
pub open spec fn ref_suffix(u: SourceUrlView) -> Seq<char> {
    match u.ref_type {
        RefTypeView::Commit { suffix, .. } => suffix,
        RefTypeView::Compare { suffix, .. } => suffix,
        RefTypeView::Archive { suffix, .. } => suffix,
    }
}

/// A path split around the first occurrence of a marker.
proof fn lemma_around_marker(path: Seq<char>, m: Seq<char>)
    requires
        find(path, m) >= 0,
    ensures
        0 <= find(path, m) && find(path, m) + m.len() <= path.len(),
        path == path.subrange(0, find(path, m)) + m + path.subrange(find(path, m) + m.len(), path.len() as int),
        find(path.subrange(0, find(path, m)) + m + path.subrange(find(path, m) + m.len(), path.len() as int), m)
            == path.subrange(0, find(path, m)).len(),
{
    lemma_find_from(path, m, 0);
    let i = find(path, m);
    assert(path.subrange(i, i + m.len()) == m);
    assert(path =~= path.subrange(0, i) + m + path.subrange(i + m.len(), path.len() as int));
}

/// A ref of plain characters, then no `/`: the tail of a rebuilt path.
proof fn lemma_tail_no_slash(r: Seq<char>, x: Seq<char>)
    requires
        plain_ref(r),
        archive_ext(x) || patch_ext(x) || x.len() == 0,
    ensures
        !has_char(r + x, '/'),
        !has_char(r + x, '#'),
        !has_char(r + x, '?'),
        !is_white((r + x)[(r + x).len() - 1]),
{
    lemma_plain_ref_chars(r);
    if x.len() > 0 {
        lemma_ext_chars(x);
    }
    lemma_has_char_concat(r, x, '/');
    lemma_has_char_concat(r, x, '#');
    lemma_has_char_concat(r, x, '?');
}

/// `strip_tags_prefix` leaves a sequence without `/` as it is.
proof fn lemma_no_tags_prefix(t: Seq<char>)
    requires
        !has_char(t, '/'),
    ensures
        strip_tags_prefix(t) == t,
{
    reveal_strlit("refs/tags/");
    if starts_with(t, "refs/tags/"@) {
        assert(t.subrange(0, 10)[4] == t[4]);
    }
}

/// A simple archive URL rebuilt around `r` parses to the same URL with `r`.
pub proof fn lemma_simple_archive_again(path: Seq<char>, d: Seq<char>, pl: SourcePlatform, q: Seq<char>, r: Seq<char>)
    requires
        parse_simple_archive(path, d, pl, q) is Some,
        plain_ref(r),
    ensures
        ({
            let u = parse_simple_archive(path, d, pl, q).unwrap();
            let x = ref_suffix(u);
            &&& archive_ext(x) || x.len() == 0
            &&& parse_simple_archive(u.project + "/archive/"@ + (r + x), d, pl, q) == Some(with_ref(u, r))
            &&& u.project.len() <= path.len() && u.project == path.subrange(0, u.project.len() as int)
            &&& keeps_absent(path, u.project + "/archive/"@ + (r + x))
        }),
{
    let m = "/archive/"@;
    let ai = find(path, m);
    let project = path.subrange(0, ai);
    let rest = path.subrange(ai + m.len(), path.len() as int);
    lemma_around_marker(path, m);
    lemma_archive_split_ext(strip_tags_prefix(rest));
    let u = parse_simple_archive(path, d, pl, q).unwrap();
    let x = ref_suffix(u);
    lemma_tail_no_slash(r, x);
    lemma_first_marker_kept(project, m, rest, r + x);
    lemma_keeps_absent(project, m, rest, r + x);
    let np = project + m + (r + x);
    assert(np.subrange(0, project.len() as int) =~= project);
    assert(np.subrange((project.len() + m.len()) as int, np.len() as int) =~= r + x);
    lemma_no_tags_prefix(r + x);
    lemma_plain_ref_chars(r);
    lemma_split_archive_again(r, x);
}

/// A `{project}{marker}{ref}{ext}` archive URL (Gitiles, gitweb) rebuilt
/// around `r` parses to the same URL with `r`.
pub proof fn lemma_marker_archive_again(path: Seq<char>, d: Seq<char>, m: Seq<char>, pl: SourcePlatform, q: Seq<char>, r: Seq<char>)
    requires
        parse_marker_archive(path, d, m, pl, q) is Some,
        plain_ref(r),
    ensures
        ({
            let u = parse_marker_archive(path, d, m, pl, q).unwrap();
            let x = ref_suffix(u);
            &&& archive_ext(x) || x.len() == 0
            &&& parse_marker_archive(u.project + m + (r + x), d, m, pl, q) == Some(with_ref(u, r))
            &&& u.project.len() > 0
            &&& u.project.len() <= path.len() && u.project == path.subrange(0, u.project.len() as int)
            &&& keeps_absent(path, u.project + m + (r + x))
        }),
{
    let ai = find(path, m);
    let project = path.subrange(0, ai);
    let rest = path.subrange(ai + m.len(), path.len() as int);
    lemma_around_marker(path, m);
    lemma_archive_split_ext(rest);
    let u = parse_marker_archive(path, d, m, pl, q).unwrap();
    let x = ref_suffix(u);
    lemma_tail_no_slash(r, x);
    lemma_first_marker_kept(project, m, rest, r + x);
    lemma_keeps_absent(project, m, rest, r + x);
    let np = project + m + (r + x);
    assert(np.subrange(0, project.len() as int) =~= project);
    assert(np.subrange((project.len() + m.len()) as int, np.len() as int) =~= r + x);
    lemma_plain_ref_chars(r);
    lemma_split_archive_again(r, x);
}

/// A commit URL rebuilt around `r` parses to the same URL with `r`.
pub proof fn lemma_commit_again(
    path: Seq<char>,
    d: Seq<char>,
    pl: SourcePlatform,
    q: Seq<char>,
    cm: Seq<char>,
    mm: Seq<char>,
    r: Seq<char>,
)
    requires
        parse_commit_compare(path, d, pl, q, cm, mm) matches Some(u) && u.ref_type is Commit,
        plain_ref(r),
    ensures
        ({
            let u = parse_commit_compare(path, d, pl, q, cm, mm).unwrap();
            let x = ref_suffix(u);
            &&& patch_ext(x) || x.len() == 0
            &&& parse_commit_compare(u.project + cm + (r + x), d, pl, q, cm, mm) == Some(with_ref(u, r))
            &&& u.project.len() <= path.len() && u.project == path.subrange(0, u.project.len() as int)
            &&& keeps_absent(path, u.project + cm + (r + x))
        }),
{
    let ci = find(path, cm);
    let mi = find(path, mm);
    lemma_find_from(path, cm, 0);
    assert(ci >= 0);
    let project = path.subrange(0, ci);
    let rest = path.subrange(ci + cm.len(), path.len() as int);
    lemma_around_marker(path, cm);
    lemma_patch_split_ext(rest);
    let u = parse_commit_compare(path, d, pl, q, cm, mm).unwrap();
    let x = ref_suffix(u);
    lemma_tail_no_slash(r, x);
    lemma_first_marker_kept(project, cm, rest, r + x);
    lemma_keeps_absent(project, cm, rest, r + x);
    let np = project + cm + (r + x);
    assert(np.subrange(0, project.len() as int) =~= project);
    assert(np.subrange((project.len() + cm.len()) as int, np.len() as int) =~= r + x);
    lemma_plain_ref_chars(r);
    lemma_split_patch_again(r, x);
}

/// The part of a compare path after its marker: base, `...`, head and
/// extension.
pub open spec fn compare_rest(base: Seq<char>, head: Seq<char>, x: Seq<char>) -> Seq<char> {
    base + "..."@ + head + x
}

/// A compare URL rebuilt around a new head `r` parses to the same URL with
/// `r`, when its base has no `/`.
pub proof fn lemma_compare_again(
    path: Seq<char>,
    d: Seq<char>,
    pl: SourcePlatform,
    q: Seq<char>,
    cm: Seq<char>,
    mm: Seq<char>,
    r: Seq<char>,
)
    requires
        parse_commit_compare(path, d, pl, q, cm, mm) matches Some(u) && u.ref_type matches RefTypeView::Compare {
            base,
            ..
        } && !has_char(base, '/'),
        cm.len() > 0,
        cm[cm.len() - 1] == '/',
        plain_ref(r),
    ensures
        ({
            let u = parse_commit_compare(path, d, pl, q, cm, mm).unwrap();
            let x = ref_suffix(u);
            let base = u.ref_type->Compare_base;
            &&& patch_ext(x)
            &&& parse_commit_compare(u.project + mm + compare_rest(base, r, x), d, pl, q, cm, mm) == Some(
                with_ref(u, r),
            )
            &&& u.project.len() <= path.len() && u.project == path.subrange(0, u.project.len() as int)
            &&& keeps_absent(path, u.project + mm + compare_rest(base, r, x))
            &&& !has_char(compare_rest(base, r, x), '/')
            &&& (!has_char(path, '#') ==> !has_char(compare_rest(base, r, x), '#'))
            &&& (!has_char(path, '?') ==> !has_char(compare_rest(base, r, x), '?'))
        }),
{
    reveal_strlit("...");
    let ci = find(path, cm);
    let mi = find(path, mm);
    lemma_find_from(path, cm, 0);
    lemma_find_from(path, mm, 0);
    assert(ci < 0 && mi >= 0);
    let project = path.subrange(0, mi);
    let rest = path.subrange(mi + mm.len(), path.len() as int);
    lemma_around_marker(path, mm);
    lemma_patch_split_ext(rest);
    let u = parse_commit_compare(path, d, pl, q, cm, mm).unwrap();
    let x = ref_suffix(u);
    let base = u.ref_type->Compare_base;
    let head = u.ref_type->Compare_head;
    let r0 = split_ref_suffix(rest).unwrap().0;
    assert(rest == r0 + x);
    let dots = "..."@;
    assert(find(r0, dots) >= 0);
    lemma_around_marker(r0, dots);
    assert(base == r0.subrange(0, find(r0, dots)));
    assert(head == r0.subrange(find(r0, dots) + dots.len(), r0.len() as int));
    assert(r0 == base + dots + head);
    if !(patch_ext(x)) {
        assert(x.len() == 0);
        assert(!has_char(rest, '.'));
        assert(r0 =~= rest);
        assert(r0[base.len() as int] == '.');
    }
    lemma_ext_chars(x);
    lemma_plain_ref_chars(r);
    // The head and its extension have no `/`.
    lemma_tail_no_slash(r, x);
    // The commit marker stays absent.
    let a = project + mm + base + dots;
    assert(path =~= a + Seq::<char>::empty() + (head + x));
    let np = project + mm + compare_rest(base, r, x);
    assert(np =~= a + Seq::<char>::empty() + (r + x));
    lemma_absent_marker_kept(a, Seq::<char>::empty(), head + x, r + x, cm);
    lemma_keeps_absent(a, Seq::<char>::empty(), head + x, r + x);
    assert(!has_char(dots, '/'));
    lemma_has_char_concat(base, dots, '/');
    lemma_has_char_concat(base + dots, r + x, '/');
    assert(compare_rest(base, r, x) =~= base + dots + (r + x));
    assert(!has_char(dots, '#'));
    assert(!has_char(dots, '?'));
    lemma_has_char_concat(project + mm, base, '#');
    lemma_has_char_concat(project + mm, base, '?');
    lemma_has_char_concat(project + mm + base, dots, '#');
    lemma_has_char_concat(project + mm + base, dots, '?');
    lemma_has_char_concat(a, head + x, '#');
    lemma_has_char_concat(a, head + x, '?');
    assert(path =~= a + (head + x));
    lemma_has_char_concat(base, dots, '#');
    lemma_has_char_concat(base, dots, '?');
    lemma_has_char_concat(base + dots, r + x, '#');
    lemma_has_char_concat(base + dots, r + x, '?');
    // The compare marker is found where it was.
    lemma_first_marker_kept(project, mm, rest, compare_rest(base, r, x));
    assert(np =~= project + mm + compare_rest(base, r, x));
    assert(np.subrange(0, project.len() as int) =~= project);
    assert(np.subrange((project.len() + mm.len()) as int, np.len() as int) =~= compare_rest(base, r, x));
    // The extension, then the `...`, split as before.
    assert(compare_rest(base, r, x) =~= (base + dots + r) + x);
    lemma_split_patch_again(base + dots + r, x);
    lemma_first_marker_kept(base, dots, head, r);
    let nr = base + dots + r;
    assert(nr.subrange(0, base.len() as int) =~= base);
    assert(nr.subrange((base.len() + dots.len()) as int, nr.len() as int) =~= r);
}

/// A `/word/` marker that `a + "/"` lacks is first found right after `a`.
pub proof fn lemma_slash_word_first(a: Seq<char>, g: Seq<char>, c: Seq<char>)
    requires
        slash_word(g),
        !contains(a + seq!['/'], g),
    ensures
        find(a + g + c, g) == a.len(),
{
    let p = a + g + c;
    let s = a + seq!['/'];
    lemma_find_from(s, g, 0);
    assert(p.subrange(a.len() as int, (a.len() + g.len()) as int) =~= g);
    assert forall|j: int| 0 <= j < a.len() implies !occurs_at(p, g, j) by {
        if occurs_at(p, g, j) {
            if j + g.len() <= a.len() + 1 {
                assert forall|k: int| 0 <= k < a.len() + 1 implies p[k] == s[k] by {}
                lemma_same_occurrence(p, s, g, j, a.len() + 1int);
            } else {
                let k = a.len() - j;
                assert(p.subrange(j, j + g.len())[k] == p[a.len() as int]);
                assert(p[a.len() as int] == g[0]);
            }
        }
    }
    lemma_find_from_is(p, g, 0, a.len() as int);
}

/// What the first segments of a path cannot contain.
proof fn lemma_four_segments_parts(path: Seq<char>)
    ensures
        four_segments(path) matches Some((o, rp, k, _)) ==> !has_char(o, '/') && !has_char(rp, '/') && !has_char(
            k,
            '/',
        ),
{
    reveal_strlit("/");
    assert("/"@ =~= seq!['/']);
    lemma_find_from(path, seq!['/'], 0);
    lemma_before_first(path, '/');
    match split_once(path, "/"@) {
        Some((_, r1)) => {
            lemma_find_from(r1, seq!['/'], 0);
            lemma_before_first(r1, '/');
            match split_once(r1, "/"@) {
                Some((_, r2)) => {
                    lemma_find_from(r2, seq!['/'], 0);
                    lemma_before_first(r2, '/');
                },
                None => {},
            }
        },
        None => {},
    }
}

/// Four segments without `/`, joined by `/`, split back into themselves.
proof fn lemma_four_segments_again(o: Seq<char>, rp: Seq<char>, k: Seq<char>, t: Seq<char>)
    requires
        !has_char(o, '/'),
        !has_char(rp, '/'),
        !has_char(k, '/'),
        !has_char(t, '/'),
    ensures
        four_segments(o + "/"@ + rp + "/"@ + k + "/"@ + t) == Some((o, rp, k, t)),
{
    reveal_strlit("/");
    let sl = seq!['/'];
    assert("/"@ =~= sl);
    let r3 = t;
    let r2 = k + sl + r3;
    let r1 = rp + sl + r2;
    let p = o + sl + r1;
    assert(o + "/"@ + rp + "/"@ + k + "/"@ + t =~= p);
    lemma_find_char_after(o, '/', r1);
    assert(p.subrange(0, o.len() as int) =~= o);
    assert(p.subrange(o.len() + 1int, p.len() as int) =~= r1);
    lemma_find_char_after(rp, '/', r2);
    assert(r1.subrange(0, rp.len() as int) =~= rp);
    assert(r1.subrange(rp.len() + 1int, r1.len() as int) =~= r2);
    lemma_find_char_after(k, '/', r3);
    assert(r2.subrange(0, k.len() as int) =~= k);
    assert(r2.subrange(k.len() + 1int, r2.len() as int) =~= r3);
    lemma_find_char(t, '/');
    lemma_find_from(t, sl, 0);
}

/// A Bitbucket archive URL rebuilt around `r` parses to the same URL with
/// `r`, when its project is not followed by another `/get/`.
pub proof fn lemma_bitbucket_archive_again(path: Seq<char>, d: Seq<char>, q: Seq<char>, r: Seq<char>)
    requires
        parse_bitbucket_archive(path, d, q) is Some,
        !contains(parse_bitbucket_archive(path, d, q).unwrap().project + seq!['/'], "/get/"@),
        plain_ref(r),
    ensures
        ({
            let u = parse_bitbucket_archive(path, d, q).unwrap();
            let x = ref_suffix(u);
            &&& archive_ext(x) || x.len() == 0
            &&& parse_bitbucket_archive(u.project + "/get/"@ + (r + x), d, q) == Some(with_ref(u, r))
            &&& u.project.len() <= path.len() && u.project == path.subrange(0, u.project.len() as int)
            &&& keeps_absent(path, u.project + "/get/"@ + (r + x))
        }),
{
    reveal_strlit("/");
    reveal_strlit("/get/");
    reveal_strlit("get");
    reveal_strlit("refs/tags/");
    let sl = seq!['/'];
    assert("/"@ =~= sl);
    let (o, rp, k, _) = four_segments(path).unwrap();
    lemma_four_segments_parts(path);
    let gi = find(path, "/get/"@);
    let rest = path.subrange(gi + 5, path.len() as int);
    lemma_archive_split_ext(strip_tags_prefix(rest));
    let u = parse_bitbucket_archive(path, d, q).unwrap();
    let x = ref_suffix(u);
    let project = o + "/"@ + rp;
    assert(u.project == project);
    lemma_around_marker(path, sl);
    let r1 = path.subrange(o.len() + 1int, path.len() as int);
    assert(find(r1, sl) >= 0);
    lemma_around_marker(r1, sl);
    let r2 = r1.subrange(rp.len() + 1int, r1.len() as int);
    assert(path =~= project + sl + r2);
    assert(path.subrange(0, project.len() as int) =~= project);
    assert(find(r2, sl) >= 0);
    lemma_around_marker(r2, sl);
    let r3 = r2.subrange(find(r2, sl) + 1, r2.len() as int);
    assert(path =~= project + "/get/"@ + r3);
    lemma_tail_no_slash(r, x);
    lemma_keeps_absent(project, "/get/"@, r3, r + x);
    let np = project + "/get/"@ + (r + x);
    assert(np =~= o + "/"@ + rp + "/"@ + "get"@ + "/"@ + (r + x));
    assert(!has_char("get"@, '/'));
    lemma_four_segments_again(o, rp, "get"@, r + x);
    assert(slash_word("/get/"@));
    lemma_slash_word_first(project, "/get/"@, r + x);
    assert(np.subrange(project.len() + 5int, np.len() as int) =~= r + x);
    lemma_no_tags_prefix(r + x);
    lemma_plain_ref_chars(r);
    lemma_split_archive_again(r, x);
}

/// A Bitbucket commit URL rebuilt around `r` parses to the same URL with `r`.
pub proof fn lemma_bitbucket_commit_again(path: Seq<char>, d: Seq<char>, q: Seq<char>, r: Seq<char>)
    requires
        parse_bitbucket(path, d, q) is Some,
        plain_ref(r),
    ensures
        ({
            let u = parse_bitbucket(path, d, q).unwrap();
            let np = u.project + "/commits/"@ + r;
            &&& ref_suffix(u).len() == 0
            &&& parse_bitbucket_archive(np, d, q) is None
            &&& parse_bitbucket(np, d, q) == Some(with_ref(u, r))
            &&& u.project.len() <= path.len() && u.project == path.subrange(0, u.project.len() as int)
            &&& keeps_absent(path, np)
        }),
{
    reveal_strlit("/");
    reveal_strlit("/commits/");
    reveal_strlit("commits");
    reveal_strlit("get");
    let sl = seq!['/'];
    assert("/"@ =~= sl);
    let (o, rp, k, _) = four_segments(path).unwrap();
    lemma_four_segments_parts(path);
    let u = parse_bitbucket(path, d, q).unwrap();
    let project = o + "/"@ + rp;
    assert(u.project == project);
    lemma_around_marker(path, sl);
    let r1 = path.subrange(o.len() + 1int, path.len() as int);
    assert(find(r1, sl) >= 0);
    lemma_around_marker(r1, sl);
    let r2 = r1.subrange(rp.len() + 1int, r1.len() as int);
    assert(path =~= project + sl + r2);
    assert(path.subrange(0, project.len() as int) =~= project);
    assert(find(r2, sl) >= 0);
    lemma_around_marker(r2, sl);
    let r3 = r2.subrange(find(r2, sl) + 1, r2.len() as int);
    assert(path =~= project + "/commits/"@ + r3);
    lemma_plain_ref_chars(r);
    lemma_keeps_absent(project, "/commits/"@, r3, r);
    assert(project + "/commits/"@ + r == project + "/commits/"@ + r);
    let np = project + "/commits/"@ + r;
    assert(np =~= o + "/"@ + rp + "/"@ + "commits"@ + "/"@ + r);
    assert(!has_char("commits"@, '/'));
    lemma_four_segments_again(o, rp, "commits"@, r);
    assert("commits"@ != "get"@);
}

/// A GitLab archive URL rebuilt around `r` parses to the same URL with `r`,
/// when its extension is kept or its repository name has no dot.
pub proof fn lemma_gitlab_archive_again(path: Seq<char>, d: Seq<char>, q: Seq<char>, r: Seq<char>)
    requires
        parse_gitlab_archive(path, d, q) matches Some(u) && (archive_ext(ref_suffix(u)) || !has_char(
            after_last(u.project, '/'),
            '.',
        )),
        plain_ref(r),
    ensures
        ({
            let u = parse_gitlab_archive(path, d, q).unwrap();
            let x = ref_suffix(u);
            let name = after_last(u.project, '/');
            &&& parse_gitlab_archive(u.project + "/-/archive/"@ + (r + "/"@ + name + "-"@ + r + x), d, q) == Some(
                with_ref(u, r),
            )
            &&& u.project.len() <= path.len() && u.project == path.subrange(0, u.project.len() as int)
            &&& u.repo_name == Some(name)
        }),
{
    reveal_strlit("/");
    reveal_strlit("-");
    let m = "/-/archive/"@;
    let sl = seq!['/'];
    assert("/"@ =~= sl);
    let ai = find(path, m);
    let project = path.subrange(0, ai);
    let rest = path.subrange(ai + m.len(), path.len() as int);
    lemma_around_marker(path, m);
    lemma_archive_split_ext(rest);
    let u = parse_gitlab_archive(path, d, q).unwrap();
    let x = ref_suffix(u);
    let name = after_last(project, '/');
    let t = r + "/"@ + name + "-"@ + r;
    lemma_first_marker_kept(project, m, rest, t + x);
    let np = project + m + (t + x);
    assert(np.subrange(0, project.len() as int) =~= project);
    assert(np.subrange((project.len() + m.len()) as int, np.len() as int) =~= t + x);
    lemma_plain_ref_chars(r);
    if x.len() == 0 {
        assert(!has_char("/"@, '.'));
        assert(!has_char("-"@, '.'));
        lemma_has_char_concat(r, "/"@, '.');
        lemma_has_char_concat(r + "/"@, name, '.');
        lemma_has_char_concat(r + "/"@ + name, "-"@, '.');
        lemma_has_char_concat(r + "/"@ + name + "-"@, r, '.');
    }
    lemma_split_archive_again(t, x);
    let tail = name + "-"@ + r;
    assert(t =~= r + sl + tail);
    lemma_find_char_after(r, '/', tail);
    assert(t.subrange(0, r.len() as int) =~= r);
}

/// A URL put together from a domain, a path and a query string of the
/// shapes a parse gives is handed to the same dispatch again.
pub proof fn lemma_rebuilt_url(domain: Seq<char>, path: Seq<char>, query: Seq<char>)
    requires
        !has_char(domain, '/'),
        !has_char(domain, '#'),
        !has_char(domain, '?'),
        !has_char(path, '#'),
        !has_char(path, '?'),
        !has_char(query, '#'),
        query.len() == 0 || (query[0] == '?' && query.len() >= 2 && !is_white(query[query.len() - 1])),
        path.len() > 0,
        !is_white(path[path.len() - 1]),
    ensures
        spec_parse_source_url("https://"@ + domain + "/"@ + path + query) == dispatch(domain, path, query),
{
    lemma_rebuilt_rest(domain, path, query);
}

// ---------------------------------------------------------------------------
// The dispatch, again
// ---------------------------------------------------------------------------

/// The path of the URL [`replace_ref_base`] builds for `u` and `r`.
pub open spec fn rebuilt_path(u: SourceUrlView, r: Seq<char>) -> Seq<char> {
    let p = u.project;
    match u.ref_type {
        RefTypeView::Commit { suffix, .. } => match u.platform {
            SourcePlatform::GitLab => p + "/-/commit/"@ + (r + suffix),
            SourcePlatform::Bitbucket => p + "/commits/"@ + (r + suffix),
            _ => p + "/commit/"@ + (r + suffix),
        },
        RefTypeView::Compare { base, suffix, .. } => match u.platform {
            SourcePlatform::GitLab => p + "/-/compare/"@ + compare_rest(base, r, suffix),
            _ => p + "/compare/"@ + compare_rest(base, r, suffix),
        },
        RefTypeView::Archive { suffix, .. } => match u.platform {
            SourcePlatform::GitLab => p + "/-/archive/"@ + (r + "/"@ + match u.repo_name {
                Some(n) => n,
                None => after_last(p, '/'),
            } + "-"@ + r + suffix),
            SourcePlatform::Bitbucket => p + "/get/"@ + (r + suffix),
            SourcePlatform::Gitiles => p + "/+archive/"@ + (r + suffix),
            SourcePlatform::RepoOrCz => p + "/snapshot/"@ + (r + suffix),
            _ => p + "/archive/"@ + (r + suffix),
        },
    }
}

proof fn lemma_rebuilt_base(u: SourceUrlView, r: Seq<char>)
    ensures
        replace_ref_base(u, r) == "https://"@ + u.domain + "/"@ + rebuilt_path(u, r),
{
    let head = "https://"@ + u.domain + "/"@ + u.project;
    match u.ref_type {
        RefTypeView::Commit { suffix, .. } => {
            assert(head + "/-/commit/"@ + r + suffix =~= "https://"@ + u.domain + "/"@ + (u.project + "/-/commit/"@
                + (r + suffix)));
            assert(head + "/commits/"@ + r + suffix =~= "https://"@ + u.domain + "/"@ + (u.project + "/commits/"@
                + (r + suffix)));
            assert(head + "/commit/"@ + r + suffix =~= "https://"@ + u.domain + "/"@ + (u.project + "/commit/"@ + (r
                + suffix)));
        },
        RefTypeView::Compare { base, suffix, .. } => {
            assert(head + "/-/compare/"@ + base + "..."@ + r + suffix =~= "https://"@ + u.domain + "/"@ + (u.project
                + "/-/compare/"@ + compare_rest(base, r, suffix)));
            assert(head + "/compare/"@ + base + "..."@ + r + suffix =~= "https://"@ + u.domain + "/"@ + (u.project
                + "/compare/"@ + compare_rest(base, r, suffix)));
        },
        RefTypeView::Archive { suffix, .. } => {
            let n = match u.repo_name {
                Some(n) => n,
                None => after_last(u.project, '/'),
            };
            assert(head + "/-/archive/"@ + r + "/"@ + n + "-"@ + r + suffix =~= "https://"@ + u.domain + "/"@ + (
            u.project + "/-/archive/"@ + (r + "/"@ + n + "-"@ + r + suffix)));
            assert(head + "/get/"@ + r + suffix =~= "https://"@ + u.domain + "/"@ + (u.project + "/get/"@ + (r
                + suffix)));
            assert(head + "/+archive/"@ + r + suffix =~= "https://"@ + u.domain + "/"@ + (u.project + "/+archive/"@
                + (r + suffix)));
            assert(head + "/snapshot/"@ + r + suffix =~= "https://"@ + u.domain + "/"@ + (u.project + "/snapshot/"@
                + (r + suffix)));
            assert(head + "/archive/"@ + r + suffix =~= "https://"@ + u.domain + "/"@ + (u.project + "/archive/"@ + (r
                + suffix)));
        },
    }
}

/// The cases in which a rebuilt source URL is shown to parse back: the
/// project, followed by `/`, holds none of the archive markers that the
/// parser tries before the URL's own; a query string does not end in
/// whitespace; a compare base has no `/`; a GitLab archive keeps its
/// extension or has a repository name without a dot.
pub open spec fn rebuild_covered(u: SourceUrlView) -> bool {
    &&& !contains(u.project + seq!['/'], "/archive/"@)
    &&& !contains(u.project + seq!['/'], "/+archive/"@)
    &&& !contains(u.project + seq!['/'], "/snapshot/"@)
    &&& !contains(u.project + seq!['/'], "/get/"@)
    &&& !contains(u.project + seq!['/'], "/-/archive/"@)
    &&& (u.query.len() == 0 || !is_white(u.query[u.query.len() - 1]))
    &&& match u.ref_type {
        RefTypeView::Commit { .. } => true,
        RefTypeView::Compare { base, .. } => !has_char(base, '/'),
        RefTypeView::Archive { suffix, .. } => u.platform == SourcePlatform::GitLab ==> (archive_ext(suffix)
            || !has_char(after_last(u.project, '/'), '.')),
    }
}

/// Two paths that start with the same non-empty project agree on a leading `~`.
proof fn lemma_same_tilde(p: Seq<char>, a: Seq<char>, b: Seq<char>)
    requires
        p.len() > 0,
    ensures
        starts_with(p + a, "~"@) == starts_with(p + b, "~"@),
{
    reveal_strlit("~");
    assert((p + a).subrange(0, 1) =~= p.subrange(0, 1));
    assert((p + b).subrange(0, 1) =~= p.subrange(0, 1));
}

/// The GitLab markers a path lacks, the rebuilt path lacks too.
proof fn lemma_no_gitlab_markers(path: Seq<char>, np: Seq<char>)
    requires
        keeps_absent(path, np),
        !(contains(path, "/-/commit/"@) || contains(path, "/-/compare/"@) || contains(path, "/-/archive/"@)),
    ensures
        !(contains(np, "/-/commit/"@) || contains(np, "/-/compare/"@) || contains(np, "/-/archive/"@)),
{
    reveal_strlit("/-/commit/");
    reveal_strlit("/-/compare/");
    reveal_strlit("/-/archive/");
    assert(!contains(np, "/-/commit/"@));
    assert(!contains(np, "/-/compare/"@));
    assert(!contains(np, "/-/archive/"@));
}

proof fn lemma_slash_words()
    ensures
        slash_word("/archive/"@),
        slash_word("/+archive/"@),
        slash_word("/snapshot/"@),
        slash_word("/commit/"@),
        slash_word("/compare/"@),
        slash_word("/get/"@),
        "/archive/"@ != "/+archive/"@,
        "/archive/"@ != "/snapshot/"@,
        "/archive/"@ != "/commit/"@,
        "/archive/"@ != "/compare/"@,
        "/+archive/"@ != "/snapshot/"@,
        "/+archive/"@ != "/commit/"@,
        "/+archive/"@ != "/compare/"@,
        "/snapshot/"@ != "/commit/"@,
        "/snapshot/"@ != "/compare/"@,
        "/commit/"@.len() > 0 && "/commit/"@["/commit/"@.len() - 1] == '/',
{
    reveal_strlit("/archive/");
    reveal_strlit("/+archive/");
    reveal_strlit("/snapshot/");
    reveal_strlit("/commit/");
    reveal_strlit("/compare/");
    reveal_strlit("/get/");
    assert("/archive/"@[1] != "/+archive/"@[1]);
    assert("/archive/"@[1] != "/snapshot/"@[1]);
    assert("/archive/"@.len() != "/commit/"@.len());
    assert("/archive/"@[1] != "/compare/"@[1]);
    assert("/+archive/"@[1] != "/snapshot/"@[1]);
    assert("/+archive/"@.len() != "/commit/"@.len());
    assert("/+archive/"@.len() != "/compare/"@.len());
    assert("/snapshot/"@.len() != "/commit/"@.len());
    assert("/snapshot/"@.len() != "/compare/"@.len());
}

/// A marker without `#` or `?`.
pub open spec fn clean_marker(m: Seq<char>) -> bool {
    !has_char(m, '#') && !has_char(m, '?') && m.len() > 0
}

proof fn lemma_clean_markers()
    ensures
        clean_marker("/archive/"@),
        clean_marker("/+archive/"@),
        clean_marker("/snapshot/"@),
        clean_marker("/commit/"@),
        clean_marker("/compare/"@),
        clean_marker("/get/"@),
        clean_marker("/commits/"@),
        clean_marker("/-/archive/"@),
{
    reveal_strlit("/archive/");
    reveal_strlit("/+archive/");
    reveal_strlit("/snapshot/");
    reveal_strlit("/commit/");
    reveal_strlit("/compare/");
    reveal_strlit("/get/");
    reveal_strlit("/commits/");
    reveal_strlit("/-/archive/");
}

/// What a rebuilt path must be for the URL around it to split back.
pub open spec fn rebuilt_path_ok(path: Seq<char>, project: Seq<char>, np: Seq<char>) -> bool {
    &&& project.len() > 0
    &&& project.len() <= path.len()
    &&& project == path.subrange(0, project.len() as int)
    &&& np.len() > project.len()
    &&& np.subrange(0, project.len() as int) == project
    &&& !is_white(np[np.len() - 1])
    &&& (!has_char(path, '#') ==> !has_char(np, '#'))
    &&& (!has_char(path, '?') ==> !has_char(np, '?'))
}

/// `project + m + t` with a clean marker and a clean, non-white-ended tail.
proof fn lemma_path_ok(path: Seq<char>, project: Seq<char>, m: Seq<char>, t: Seq<char>)
    requires
        project.len() > 0,
        project.len() <= path.len(),
        project == path.subrange(0, project.len() as int),
        clean_marker(m),
        t.len() > 0,
        !is_white(t[t.len() - 1]),
        !has_char(path, '#') ==> !has_char(t, '#'),
        !has_char(path, '?') ==> !has_char(t, '?'),
    ensures
        rebuilt_path_ok(path, project, project + m + t),
{
    let np = project + m + t;
    assert(np.subrange(0, project.len() as int) =~= project);
    assert(np[np.len() - 1] == t[t.len() - 1]);
    if !has_char(path, '#') {
        lemma_no_char_subrange(path, '#', 0, project.len() as int);
        lemma_has_char_concat(project, m, '#');
        lemma_has_char_concat(project + m, t, '#');
    }
    if !has_char(path, '?') {
        lemma_no_char_subrange(path, '?', 0, project.len() as int);
        lemma_has_char_concat(project, m, '?');
        lemma_has_char_concat(project + m, t, '?');
    }
}

/// The parsers give the platform they are handed.
proof fn lemma_parser_platform(path: Seq<char>, d: Seq<char>, pl: SourcePlatform, q: Seq<char>)
    ensures
        parse_simple_archive(path, d, pl, q) matches Some(u) ==> u.platform == pl,
        parse_simple_commit_compare(path, d, pl, q) matches Some(u) ==> u.platform == pl,
{
}

/// A path a `.sr.ht` host serves under `~` goes to the SourceHut parsers.
proof fn lemma_not_sourcehut(domain: Seq<char>, path: Seq<char>, query: Seq<char>)
    requires
        dispatch(domain, path, query) matches Some(u) && u.platform != SourcePlatform::SourceHut,
    ensures
        !(ends_with(domain, ".sr.ht"@) && starts_with(path, "~"@)),
{
    lemma_parser_platform(path, domain, SourcePlatform::SourceHut, query);
}

/// A domain and path that go to the parsers of the Gitea family.
pub open spec fn gitea_branch(domain: Seq<char>, path: Seq<char>) -> bool {
    &&& !(ends_with(domain, ".sr.ht"@) && starts_with(path, "~"@))
    &&& !(contains(path, "/-/commit/"@) || contains(path, "/-/compare/"@) || contains(path, "/-/archive/"@))
    &&& domain != "bitbucket.org"@
    &&& domain != "github.com"@
}

/// A rebuilt path keeps the branch: same host, same leading `~`, and no
/// GitLab marker it did not have.
proof fn lemma_branch_kept(domain: Seq<char>, path: Seq<char>, project: Seq<char>, t: Seq<char>)
    requires
        project.len() > 0,
        project.len() <= path.len(),
        project == path.subrange(0, project.len() as int),
        keeps_absent(path, project + t),
    ensures
        starts_with(project + t, "~"@) == starts_with(path, "~"@),
        !(contains(path, "/-/commit/"@) || contains(path, "/-/compare/"@) || contains(path, "/-/archive/"@)) ==> !(
        contains(project + t, "/-/commit/"@) || contains(project + t, "/-/compare/"@) || contains(
            project + t,
            "/-/archive/"@,
        )),
{
    let rest = path.subrange(project.len() as int, path.len() as int);
    assert(path =~= project + rest);
    lemma_same_tilde(project, t, rest);
    if !(contains(path, "/-/commit/"@) || contains(path, "/-/compare/"@) || contains(path, "/-/archive/"@)) {
        lemma_no_gitlab_markers(path, project + t);
    }
}

/// What keeps a rebuilt path on the branch of the dispatch its path took:
/// the same leading `~`, and no GitLab marker the path did not have.
pub open spec fn same_branch_facts(path: Seq<char>, np: Seq<char>) -> bool {
    &&& starts_with(np, "~"@) == starts_with(path, "~"@)
    &&& !(contains(path, "/-/commit/"@) || contains(path, "/-/compare/"@) || contains(path, "/-/archive/"@)) ==> !(
    contains(np, "/-/commit/"@) || contains(np, "/-/compare/"@) || contains(np, "/-/archive/"@))
}

proof fn lemma_simple_archive_path(domain: Seq<char>, path: Seq<char>, query: Seq<char>, r: Seq<char>, pl: SourcePlatform)
    requires
        parse_simple_archive(path, domain, pl, query) is Some,
        pl != SourcePlatform::GitLab && pl != SourcePlatform::Bitbucket && pl != SourcePlatform::Gitiles && pl
            != SourcePlatform::RepoOrCz,
        plain_ref(r),
    ensures
        ({
            let u = parse_simple_archive(path, domain, pl, query).unwrap();
            &&& parse_simple_archive(rebuilt_path(u, r), domain, pl, query) == Some(with_ref(u, r))
            &&& same_branch_facts(path, rebuilt_path(u, r))
            &&& rebuilt_path_ok(path, u.project, rebuilt_path(u, r))
        }),
{
    let u = parse_simple_archive(path, domain, pl, query).unwrap();
    let x = ref_suffix(u);
    let m = "/archive/"@;
    lemma_clean_markers();
    lemma_simple_archive_again(path, domain, pl, query, r);
    let np = u.project + m + (r + x);
    assert(rebuilt_path(u, r) == np);
    lemma_tail_no_slash(r, x);
    lemma_path_ok(path, u.project, m, r + x);
    assert(np =~= u.project + (m + (r + x)));
    lemma_branch_kept(domain, path, u.project, m + (r + x));
}

proof fn lemma_gitea_marker(domain: Seq<char>, path: Seq<char>, query: Seq<char>, r: Seq<char>, m: Seq<char>, pl: SourcePlatform)
    requires
        gitea_branch(domain, path),
        (m == "/+archive/"@ && pl == SourcePlatform::Gitiles) || (m == "/snapshot/"@ && pl == SourcePlatform::RepoOrCz),
        parse_marker_archive(path, domain, m, pl, query) matches Some(u) && rebuild_covered(u),
        plain_ref(r),
    ensures
        ({
            let u = parse_marker_archive(path, domain, m, pl, query).unwrap();
            &&& !contains(rebuilt_path(u, r), "/archive/"@)
            &&& m == "/snapshot/"@ ==> !contains(rebuilt_path(u, r), "/+archive/"@)
            &&& parse_marker_archive(rebuilt_path(u, r), domain, m, pl, query) == Some(with_ref(u, r))
            &&& gitea_branch(domain, rebuilt_path(u, r))
            &&& rebuilt_path_ok(path, u.project, rebuilt_path(u, r))
        }),
{
    let u = parse_marker_archive(path, domain, m, pl, query).unwrap();
    let x = ref_suffix(u);
    lemma_clean_markers();
    lemma_slash_words();
    lemma_marker_archive_again(path, domain, m, pl, query, r);
    let np = u.project + m + (r + x);
    assert(rebuilt_path(u, r) == np);
    lemma_tail_no_slash(r, x);
    lemma_path_ok(path, u.project, m, r + x);
    assert(np =~= u.project + (m + (r + x)));
    lemma_branch_kept(domain, path, u.project, m + (r + x));
    lemma_other_marker_absent(u.project, m, r + x, "/archive/"@);
    if m == "/snapshot/"@ {
        lemma_other_marker_absent(u.project, m, r + x, "/+archive/"@);
    }
}

proof fn lemma_commit_compare_path(domain: Seq<char>, path: Seq<char>, query: Seq<char>, r: Seq<char>, pl: SourcePlatform)
    requires
        parse_simple_commit_compare(path, domain, pl, query) matches Some(u) && rebuild_covered(u),
        pl != SourcePlatform::GitLab && pl != SourcePlatform::Bitbucket,
        plain_ref(r),
    ensures
        ({
            let u = parse_simple_commit_compare(path, domain, pl, query).unwrap();
            let np = rebuilt_path(u, r);
            &&& !contains(np, "/archive/"@)
            &&& !contains(np, "/+archive/"@)
            &&& !contains(np, "/snapshot/"@)
            &&& parse_simple_commit_compare(np, domain, pl, query) == Some(with_ref(u, r))
            &&& same_branch_facts(path, np)
            &&& rebuilt_path_ok(path, u.project, np)
        }),
{
    let u = parse_simple_commit_compare(path, domain, pl, query).unwrap();
    let x = ref_suffix(u);
    lemma_clean_markers();
    lemma_slash_words();
    lemma_plain_ref_chars(r);
    let cm = "/commit/"@;
    let mm = "/compare/"@;
    if u.ref_type is Commit {
        lemma_commit_again(path, domain, pl, query, cm, mm, r);
        let t = r + x;
        let np = u.project + cm + t;
        assert(rebuilt_path(u, r) == np);
        lemma_tail_no_slash(r, x);
        lemma_path_ok(path, u.project, cm, t);
        assert(np =~= u.project + (cm + t));
        lemma_branch_kept(domain, path, u.project, cm + t);
        lemma_other_marker_absent(u.project, cm, t, "/archive/"@);
        lemma_other_marker_absent(u.project, cm, t, "/+archive/"@);
        lemma_other_marker_absent(u.project, cm, t, "/snapshot/"@);
    } else {
        lemma_compare_again(path, domain, pl, query, cm, mm, r);
        let t = compare_rest(u.ref_type->Compare_base, r, x);
        let np = u.project + mm + t;
        assert(rebuilt_path(u, r) == np);
        lemma_ext_chars(x);
        assert(t =~= u.ref_type->Compare_base + "..."@ + r + x);
        assert(t[t.len() - 1] == x[x.len() - 1]);
        lemma_path_ok(path, u.project, mm, t);
        assert(np =~= u.project + (mm + t));
        lemma_branch_kept(domain, path, u.project, mm + t);
        lemma_other_marker_absent(u.project, mm, t, "/archive/"@);
        lemma_other_marker_absent(u.project, mm, t, "/+archive/"@);
        lemma_other_marker_absent(u.project, mm, t, "/snapshot/"@);
    }
}

/// The Gitea family (Gitea, Gitiles, gitweb): a rebuilt path is dispatched
/// to the same parser, which gives the URL with the new ref.
proof fn lemma_dispatch_gitea(domain: Seq<char>, path: Seq<char>, query: Seq<char>, r: Seq<char>)
    requires
        dispatch(domain, path, query) matches Some(u) && rebuild_covered(u) && (u.platform == SourcePlatform::Gitea
            || u.platform == SourcePlatform::Gitiles || u.platform == SourcePlatform::RepoOrCz),
        plain_ref(r),
    ensures
        ({
            let u = dispatch(domain, path, query).unwrap();
            &&& dispatch(domain, rebuilt_path(u, r), query) == Some(with_ref(u, r))
            &&& rebuilt_path_ok(path, u.project, rebuilt_path(u, r))
        }),
{
    let u = dispatch(domain, path, query).unwrap();
    lemma_not_sourcehut(domain, path, query);
    lemma_parser_platform(path, domain, SourcePlatform::GitHub, query);
    assert(gitea_branch(domain, path));
    if parse_simple_archive(path, domain, SourcePlatform::Gitea, query) is Some {
        lemma_simple_archive_path(domain, path, query, r, SourcePlatform::Gitea);
    } else if parse_marker_archive(path, domain, "/+archive/"@, SourcePlatform::Gitiles, query) is Some {
        lemma_gitea_marker(domain, path, query, r, "/+archive/"@, SourcePlatform::Gitiles);
    } else if parse_marker_archive(path, domain, "/snapshot/"@, SourcePlatform::RepoOrCz, query) is Some {
        lemma_gitea_marker(domain, path, query, r, "/snapshot/"@, SourcePlatform::RepoOrCz);
    } else {
        lemma_commit_compare_path(domain, path, query, r, SourcePlatform::Gitea);
    }
}

/// GitHub and SourceHut: a rebuilt path is dispatched to the same parser,
/// which gives the URL with the new ref.
proof fn lemma_dispatch_simple(domain: Seq<char>, path: Seq<char>, query: Seq<char>, r: Seq<char>)
    requires
        dispatch(domain, path, query) matches Some(u) && rebuild_covered(u) && (u.platform == SourcePlatform::GitHub
            || u.platform == SourcePlatform::SourceHut),
        plain_ref(r),
    ensures
        ({
            let u = dispatch(domain, path, query).unwrap();
            &&& dispatch(domain, rebuilt_path(u, r), query) == Some(with_ref(u, r))
            &&& rebuilt_path_ok(path, u.project, rebuilt_path(u, r))
        }),
{
    let u = dispatch(domain, path, query).unwrap();
    let pl = u.platform;
    lemma_parser_platform(path, domain, SourcePlatform::SourceHut, query);
    lemma_parser_platform(path, domain, SourcePlatform::GitHub, query);
    lemma_parser_platform(path, domain, SourcePlatform::Gitea, query);
    if pl == SourcePlatform::GitHub {
        lemma_not_sourcehut(domain, path, query);
    }
    if parse_simple_archive(path, domain, pl, query) is Some {
        lemma_simple_archive_path(domain, path, query, r, pl);
    } else {
        lemma_commit_compare_path(domain, path, query, r, pl);
    }
}

/// Bitbucket: a rebuilt path is dispatched to the same parser, which gives
/// the URL with the new ref.
proof fn lemma_dispatch_bitbucket(domain: Seq<char>, path: Seq<char>, query: Seq<char>, r: Seq<char>)
    requires
        dispatch(domain, path, query) matches Some(u) && rebuild_covered(u) && u.platform
            == SourcePlatform::Bitbucket,
        plain_ref(r),
    ensures
        ({
            let u = dispatch(domain, path, query).unwrap();
            &&& dispatch(domain, rebuilt_path(u, r), query) == Some(with_ref(u, r))
            &&& rebuilt_path_ok(path, u.project, rebuilt_path(u, r))
        }),
{
    let u = dispatch(domain, path, query).unwrap();
    lemma_not_sourcehut(domain, path, query);
    lemma_parser_platform(path, domain, SourcePlatform::GitHub, query);
    lemma_parser_platform(path, domain, SourcePlatform::Gitea, query);
    lemma_clean_markers();
    lemma_plain_ref_chars(r);
    let x = ref_suffix(u);
    if parse_bitbucket_archive(path, domain, query) is Some {
        lemma_bitbucket_archive_again(path, domain, query, r);
        let m = "/get/"@;
        let np = u.project + m + (r + x);
        assert(rebuilt_path(u, r) == np);
        lemma_tail_no_slash(r, x);
        reveal_strlit("/");
        assert(u.project.len() > 0) by {
            assert(u.project =~= four_segments(path).unwrap().0 + "/"@ + four_segments(path).unwrap().1);
        }
        lemma_path_ok(path, u.project, m, r + x);
        assert(np =~= u.project + (m + (r + x)));
        lemma_branch_kept(domain, path, u.project, m + (r + x));
    } else {
        lemma_bitbucket_commit_again(path, domain, query, r);
        let m = "/commits/"@;
        assert(x.len() == 0);
        assert(r + x =~= r);
        let np = u.project + m + r;
        assert(rebuilt_path(u, r) == np);
        reveal_strlit("/");
        assert(u.project.len() > 0) by {
            assert(u.project =~= four_segments(path).unwrap().0 + "/"@ + four_segments(path).unwrap().1);
        }
        assert(!has_char(r, '#') && !has_char(r, '?'));
        lemma_path_ok(path, u.project, m, r);
        assert(np =~= u.project + (m + r));
        lemma_branch_kept(domain, path, u.project, m + r);
    }
}

/// GitLab archives: a rebuilt path is dispatched to the same parser, which
/// gives the URL with the new ref.
proof fn lemma_dispatch_gitlab_archive(domain: Seq<char>, path: Seq<char>, query: Seq<char>, r: Seq<char>)
    requires
        dispatch(domain, path, query) matches Some(u) && rebuild_covered(u) && u.platform == SourcePlatform::GitLab
            && u.ref_type is Archive,
        plain_ref(r),
    ensures
        ({
            let u = dispatch(domain, path, query).unwrap();
            &&& dispatch(domain, rebuilt_path(u, r), query) == Some(with_ref(u, r))
            &&& rebuilt_path_ok(path, u.project, rebuilt_path(u, r))
        }),
{
    reveal_strlit("/");
    reveal_strlit("-");
    let u = dispatch(domain, path, query).unwrap();
    lemma_not_sourcehut(domain, path, query);
    lemma_clean_markers();
    lemma_plain_ref_chars(r);
    assert(parse_gitlab_archive(path, domain, query) == Some(u));
    lemma_gitlab_archive_again(path, domain, query, r);
    let x = ref_suffix(u);
    let m = "/-/archive/"@;
    lemma_archive_split_ext(path.subrange(find(path, m) + m.len(), path.len() as int));
    let name = after_last(u.project, '/');
    let t = r + "/"@ + name + "-"@ + r + x;
    let np = u.project + m + t;
    assert(rebuilt_path(u, r) == np);
    // The tail is clean: the ref, the repository name and the extension.
    crate::text::lemma_rfind_char_before(u.project, '/', u.project.len() as int);
    let k = crate::text::rfind_char(u.project, '/');
    if !has_char(path, '#') {
        lemma_no_char_subrange(path, '#', 0, u.project.len() as int);
        lemma_no_char_subrange(u.project, '#', k + 1, u.project.len() as int);
    }
    if !has_char(path, '?') {
        lemma_no_char_subrange(path, '?', 0, u.project.len() as int);
        lemma_no_char_subrange(u.project, '?', k + 1, u.project.len() as int);
    }
    assert(!has_char("/"@, '#') && !has_char("/"@, '?'));
    assert(!has_char("-"@, '#') && !has_char("-"@, '?'));
    lemma_has_char_concat(r, "/"@, '#');
    lemma_has_char_concat(r + "/"@, name, '#');
    lemma_has_char_concat(r + "/"@ + name, "-"@, '#');
    lemma_has_char_concat(r + "/"@ + name + "-"@, r, '#');
    lemma_has_char_concat(r, "/"@, '?');
    lemma_has_char_concat(r + "/"@, name, '?');
    lemma_has_char_concat(r + "/"@ + name, "-"@, '?');
    lemma_has_char_concat(r + "/"@ + name + "-"@, r, '?');
    if x.len() > 0 {
        lemma_ext_chars(x);
        lemma_has_char_concat(r + "/"@ + name + "-"@ + r, x, '#');
        lemma_has_char_concat(r + "/"@ + name + "-"@ + r, x, '?');
        assert(t[t.len() - 1] == x[x.len() - 1]);
    } else {
        assert(t =~= r + "/"@ + name + "-"@ + r);
        assert(t[t.len() - 1] == r[r.len() - 1]);
    }
    lemma_path_ok(path, u.project, m, t);
    lemma_find_from(np, m, 0);
    assert(np =~= u.project + (m + t));
    let rest = path.subrange(u.project.len() as int, path.len() as int);
    assert(path =~= u.project + rest);
    lemma_same_tilde(u.project, m + t, rest);
    assert(contains(np, "/-/archive/"@));
}


/// GitLab commits and compares: the rebuilt path has no archive marker, and
/// the commit and compare parser gives the URL with the new ref.
#[verifier::spinoff_prover]
#[verifier::rlimit(60)]
proof fn lemma_dispatch_gitlab_commit(domain: Seq<char>, path: Seq<char>, query: Seq<char>, r: Seq<char>)
    requires
        dispatch(domain, path, query) matches Some(u) && rebuild_covered(u) && u.platform == SourcePlatform::GitLab
            && !(u.ref_type is Archive),
        plain_ref(r),
    ensures
        ({
            let u = dispatch(domain, path, query).unwrap();
            &&& dispatch(domain, rebuilt_path(u, r), query) == Some(with_ref(u, r))
            &&& rebuilt_path_ok(path, u.project, rebuilt_path(u, r))
        }),
{
    reveal_strlit("/-/commit/");
    reveal_strlit("/-/compare/");
    reveal_strlit("/-/archive/");
    let u = dispatch(domain, path, query).unwrap();
    lemma_not_sourcehut(domain, path, query);
    lemma_plain_ref_chars(r);
    let cm = "/-/commit/"@;
    let mm = "/-/compare/"@;
    let am = "/-/archive/"@;
    assert(clean_marker(cm) && clean_marker(mm));
    assert(parse_gitlab(path, domain, query) == Some(u));
    let x = ref_suffix(u);
    if u.ref_type is Commit {
        lemma_commit_again(path, domain, SourcePlatform::GitLab, query, cm, mm, r);
        let t = r + x;
        let np = u.project + cm + t;
        assert(rebuilt_path(u, r) == np);
        lemma_tail_no_slash(r, x);
        lemma_path_ok(path, u.project, cm, t);
        lemma_no_gitlab_archive_after(u.project, cm, t);
        lemma_find_from(np, cm, 0);
        assert(np.subrange(u.project.len() as int, (u.project.len() + cm.len()) as int) =~= cm);
        assert(np =~= u.project + (cm + t));
        let rest = path.subrange(u.project.len() as int, path.len() as int);
        assert(path =~= u.project + rest);
        lemma_same_tilde(u.project, cm + t, rest);
    } else {
        lemma_compare_again(path, domain, SourcePlatform::GitLab, query, cm, mm, r);
        let t = compare_rest(u.ref_type->Compare_base, r, x);
        let np = u.project + mm + t;
        assert(rebuilt_path(u, r) == np);
        lemma_ext_chars(x);
        assert(t =~= u.ref_type->Compare_base + "..."@ + r + x);
        assert(t[t.len() - 1] == x[x.len() - 1]);
        lemma_path_ok(path, u.project, mm, t);
        lemma_no_gitlab_archive_after(u.project, mm, t);
        lemma_find_from(np, mm, 0);
        assert(np.subrange(u.project.len() as int, (u.project.len() + mm.len()) as int) =~= mm);
        assert(np =~= u.project + (mm + t));
        let rest = path.subrange(u.project.len() as int, path.len() as int);
        assert(path =~= u.project + rest);
        lemma_same_tilde(u.project, mm + t, rest);
    }
}

/// Every parser keeps the domain and the query string it is handed.
proof fn lemma_dispatch_keeps(domain: Seq<char>, path: Seq<char>, query: Seq<char>)
    ensures
        dispatch(domain, path, query) matches Some(u) ==> u.domain == domain && u.query == query,
{
}

// ---------------------------------------------------------------------------
// The law
// ---------------------------------------------------------------------------

/// A source URL rebuilt around a new ref parses back to the same URL (same
/// platform, domain, project, repository name, query string, compare base
/// and extension) whose current ref is the new one.
///
/// Shown for refs made of ASCII letters, digits, `-` and `_`, and for the
/// URLs that [`rebuild_covered`] describes: it leaves out compare bases
/// with a `/`, projects that hold an archive marker, and GitLab archives
/// without an extension whose repository name has a dot.
pub proof fn replace_ref_round_trip(url: Seq<char>, r: Seq<char>)
    requires
        spec_parse_source_url(url) matches Some(u) && rebuild_covered(u),
        plain_ref(r),
    ensures
        ({
            let u = spec_parse_source_url(url).unwrap();
            &&& spec_parse_source_url(replace_ref_url(u, r)) == Some(with_ref(u, r))
            &&& current_ref_of(with_ref(u, r).ref_type) == r
        }),
{
    let rest = strip_scheme(trim(url), true).unwrap();
    let (domain, path, query) = split_rest(rest).unwrap();
    let u = dispatch(domain, path, query).unwrap();
    assert(spec_parse_source_url(url) == Some(u));
    lemma_split_rest_parts(rest);
    lemma_dispatch_keeps(domain, path, query);
    if u.platform == SourcePlatform::GitLab && u.ref_type is Archive {
        lemma_dispatch_gitlab_archive(domain, path, query, r);
    } else if u.platform == SourcePlatform::GitLab {
        lemma_dispatch_gitlab_commit(domain, path, query, r);
    } else if u.platform == SourcePlatform::Bitbucket {
        lemma_dispatch_bitbucket(domain, path, query, r);
    } else if u.platform == SourcePlatform::GitHub || u.platform == SourcePlatform::SourceHut {
        lemma_dispatch_simple(domain, path, query, r);
    } else {
        lemma_dispatch_gitea(domain, path, query, r);
    }
    let np = rebuilt_path(u, r);
    lemma_rebuilt_url(domain, np, query);
    lemma_rebuilt_base(u, r);
    assert(replace_ref_url(u, r) == "https://"@ + domain + "/"@ + np + query);
}

} // verus!
