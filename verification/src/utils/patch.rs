//! File paths in patches: stripping leading components, adding prefixes,
//! and git's C-style quoting of unusual names, as `fetchpatch` normalizes
//! them; glob matching of include and exclude patterns.
use vstd::prelude::*;
use vstd::utf8::{decode_utf8, encode_utf8, valid_utf8};

use crate::text::{
    append_chars, chars_of, find, find_exec, has_char, has_char_exec, lemma_find_char, lemma_find_from, slice_vec,
    string_push, to_string,
};

verus! {

// ---------------------------------------------------------------------------
// Paths as characters
// ---------------------------------------------------------------------------

/// `path` without its first `n` components: each step removes everything
/// up to and including the first `/`, and stops when there is none.
pub open spec fn spec_strip_path_n(path: Seq<char>, n: nat) -> Seq<char>
    decreases n,
{
    if n == 0 {
        path
    } else {
        let i = find(path, seq!['/']);
        if i < 0 {
            path
        } else {
            spec_strip_path_n(path.subrange(i + 1, path.len() as int), (n - 1) as nat)
        }
    }
}

/// Strips `n` leading path components (see [`spec_strip_path_n`]).
pub fn strip_path_n(path: &str, n: usize) -> (r: String)
    ensures
        r@ == spec_strip_path_n(path@, n as nat),
{
    let mut cur = chars_of(path);
    let slash = vec!['/'];
    assert(slash@ == seq!['/']);
    let mut k: usize = 0;
    while k < n
        invariant
            k <= n,
            slash@ == seq!['/'],
            spec_strip_path_n(cur@, (n - k) as nat) == spec_strip_path_n(path@, n as nat),
        decreases n - k,
    {
        match find_exec(&cur, &slash) {
            Some(i) => {
                proof { lemma_find_from(cur@, slash@, 0); }
                assert(i + 1 <= cur.len());
                cur = slice_vec(&cur, i + 1, cur.len());
            },
            None => {
                return to_string(&cur);
            },
        }
        k += 1;
    }
    to_string(&cur)
}

/// The number of non-empty `/`-separated segments of `path`.
pub open spec fn spec_count_path_segments(path: Seq<char>) -> nat
    decreases path.len(),
{
    let i = find(path, seq!['/']);
    if i < 0 {
        if path.len() > 0 { 1 } else { 0 }
    } else {
        proof { lemma_find_from(path, seq!['/'], 0); }
        (if i > 0 { 1nat } else { 0nat }) + spec_count_path_segments(path.subrange(i + 1, path.len() as int))
    }
}

/// Counts the non-empty segments of a path: `"src/sub"` has two.
pub fn count_path_segments(path: &str) -> (r: usize)
    ensures
        r as nat == spec_count_path_segments(path@),
{
    let v = chars_of(path);
    let mut cur = chars_of(path);
    let slash = vec!['/'];
    assert(slash@ == seq!['/']);
    let mut count: usize = 0;
    loop
        invariant
            slash@ == seq!['/'],
            v@ == path@,
            count + spec_count_path_segments(cur@) == spec_count_path_segments(path@),
            count + cur.len() <= v.len(),
        decreases cur.len(),
    {
        match find_exec(&cur, &slash) {
            Some(i) => {
                proof { lemma_find_from(cur@, slash@, 0); }
                assert(i + 1 <= cur.len());
                if i > 0 {
                    count += 1;
                }
                cur = slice_vec(&cur, i + 1, cur.len());
            },
            None => {
                if cur.len() > 0 {
                    count += 1;
                }
                return count;
            },
        }
    }
}

/// Whether git writes `path` in C-style quotes: it holds a space, a
/// backslash, a double quote, a newline or a tab.
pub open spec fn spec_needs_quoting(path: Seq<char>) -> bool {
    has_char(path, ' ') || has_char(path, '\\') || has_char(path, '"') || has_char(path, '\n') || has_char(
        path,
        '\t',
    )
}

/// Whether `path` needs C-style quoting in a diff header.
pub fn needs_quoting(path: &str) -> (b: bool)
    ensures
        b == spec_needs_quoting(path@),
{
    let v = chars_of(path);
    has_char_exec(&v, ' ') || has_char_exec(&v, '\\') || has_char_exec(&v, '"') || has_char_exec(&v, '\n')
        || has_char_exec(&v, '\t')
}

/// The escaped form of one character inside C-style quotes.
pub open spec fn escape_char(c: char) -> Seq<char> {
    if c == '\\' {
        seq!['\\', '\\']
    } else if c == '"' {
        seq!['\\', '"']
    } else if c == '\n' {
        seq!['\\', 'n']
    } else if c == '\t' {
        seq!['\\', 't']
    } else if c == '\r' {
        seq!['\\', 'r']
    } else if c == '\u{07}' {
        seq!['\\', 'a']
    } else if c == '\u{08}' {
        seq!['\\', 'b']
    } else if c == '\u{0c}' {
        seq!['\\', 'f']
    } else {
        seq![c]
    }
}

pub open spec fn escape_all(s: Seq<char>) -> Seq<char>
    decreases s.len(),
{
    if s.len() == 0 {
        Seq::empty()
    } else {
        escape_all(s.drop_last()) + escape_char(s.last())
    }
}

/// `path` in C-style quotes with its special characters escaped, when it
/// needs quoting; unchanged otherwise.
pub open spec fn spec_c_quote(path: Seq<char>) -> Seq<char> {
    if spec_needs_quoting(path) {
        seq!['"'] + escape_all(path) + seq!['"']
    } else {
        path
    }
}

fn push_escaped(r: &mut String, c: char)
    ensures
        final(r)@ == old(r)@ + escape_char(c),
{
    if c == '\\' {
        string_push(r, '\\');
        string_push(r, '\\');
    } else if c == '"' {
        string_push(r, '\\');
        string_push(r, '"');
    } else if c == '\n' {
        string_push(r, '\\');
        string_push(r, 'n');
    } else if c == '\t' {
        string_push(r, '\\');
        string_push(r, 't');
    } else if c == '\r' {
        string_push(r, '\\');
        string_push(r, 'r');
    } else if c == '\u{07}' {
        string_push(r, '\\');
        string_push(r, 'a');
    } else if c == '\u{08}' {
        string_push(r, '\\');
        string_push(r, 'b');
    } else if c == '\u{0c}' {
        string_push(r, '\\');
        string_push(r, 'f');
    } else {
        string_push(r, c);
    }
    assert(final(r)@ =~= old(r)@ + escape_char(c));
}

/// Applies git's C-style quoting to a path (see [`spec_c_quote`]).
pub fn c_quote(path: &str) -> (r: String)
    ensures
        r@ == spec_c_quote(path@),
{
    if !needs_quoting(path) {
        return String::from_str(path);
    }
    let v = chars_of(path);
    let mut r = String::new();
    string_push(&mut r, '"');
    let mut i: usize = 0;
    while i < v.len()
        invariant
            i <= v.len(),
            r@ == seq!['"'] + escape_all(v@.subrange(0, i as int)),
        decreases v.len() - i,
    {
        push_escaped(&mut r, v[i]);
        assert(v@.subrange(0, i + 1).drop_last() =~= v@.subrange(0, i as int));
        i += 1;
    }
    string_push(&mut r, '"');
    assert(v@.subrange(0, v.len() as int) =~= v@);
    r
}

// ---------------------------------------------------------------------------
// Paths as bytes
// ---------------------------------------------------------------------------

/// What `String::from_utf8_lossy` makes of `bytes`.
pub uninterp spec fn utf8_lossy_of(bytes: Seq<u8>) -> Seq<char>;

/// `String::from_utf8_lossy`: the contract names the result, and states
/// what its documentation promises, that valid UTF-8 is decoded as it is.
#[verifier::external_body]
pub(crate) fn utf8_lossy(bytes: &[u8]) -> (r: String)
    ensures
        r@ == utf8_lossy_of(bytes@),
        valid_utf8(bytes@) ==> r@ == decode_utf8(bytes@),
{
    String::from_utf8_lossy(bytes).into_owned()
}

/// What `gix_quote::ansi_c::undo` returns for `input`: the unquoted bytes
/// and the number of bytes consumed, or `None` for an error.
pub uninterp spec fn ansi_c_undo_of(input: Seq<u8>) -> Option<(Seq<u8>, nat)>;

pub open spec fn undo_view(r: Option<(Vec<u8>, usize)>) -> Option<(Seq<u8>, nat)> {
    match r {
        Some((u, c)) => Some((u@, c as nat)),
        None => None,
    }
}

/// `gix_quote::ansi_c::undo`. Its source returns input that does not start
/// with `"` unchanged, having consumed all of it; for quoted input it
/// consumes the opening quote and no more than the input.
#[verifier::external_body]
fn ansi_c_undo(input: &[u8]) -> (r: Option<(Vec<u8>, usize)>)
    ensures
        undo_view(r) == ansi_c_undo_of(input@),
        (input@.len() == 0 || input@[0] != 34u8) ==> undo_view(r) == Some((input@, input@.len())),
        (input@.len() > 0 && input@[0] == 34u8 && undo_view(r) is Some) ==> 1 <= undo_view(r).unwrap().1
            <= input@.len(),
{
    match gix_quote::ansi_c::undo(bstr::BStr::new(input)) {
        Ok((unquoted, consumed)) => Some((unquoted.to_vec(), consumed)),
        Err(_) => None,
    }
}

/// Whether a string starts with a double quote.
pub open spec fn is_quoted(s: Seq<char>) -> bool {
    s.len() > 0 && s[0] == '"'
}

/// The unquoted text of a C-style quoted string and the number of bytes
/// consumed, through `gix_quote`; `None` when `gix_quote` fails or a quoted
/// string is not closed.
pub open spec fn spec_ansi_c_unquote(input: Seq<char>) -> Option<(Seq<char>, nat)> {
    let b = encode_utf8(input);
    match ansi_c_undo_of(b) {
        None => None,
        Some((u, c)) => {
            if is_quoted(input) && !(1 <= c <= b.len() && b[c - 1] == 34u8) {
                None
            } else {
                Some((utf8_lossy_of(u), c))
            }
        },
    }
}

/// Unquotes a C-style quoted path (see [`spec_ansi_c_unquote`]).
pub fn ansi_c_unquote(input: &str) -> (r: Option<(String, usize)>)
    ensures
        match r {
            Some((s, c)) => spec_ansi_c_unquote(input@) == Some((s@, c as nat)),
            None => spec_ansi_c_unquote(input@) is None,
        },
{
    let bytes = input.as_bytes();
    let v = chars_of(input);
    let quoted = v.len() > 0 && v[0] == '"';
    match ansi_c_undo(bytes) {
        None => None,
        Some((u, c)) => {
            if quoted && !(1 <= c && c <= bytes.len() && bytes[c - 1] == 34u8) {
                None
            } else {
                Some((utf8_lossy(u.as_slice()), c))
            }
        },
    }
}

/// The bytes of a string.
pub(crate) fn bytes_of(s: &str) -> (r: Vec<u8>)
    ensures
        r@ == encode_utf8(s@),
{
    let b = s.as_bytes();
    let mut r: Vec<u8> = Vec::new();
    let mut i: usize = 0;
    while i < b.len()
        invariant
            i <= b@.len(),
            b@ == encode_utf8(s@),
            r@ == b@.subrange(0, i as int),
        decreases b.len() - i,
    {
        r.push(b[i]);
        assert(b@.subrange(0, i + 1) =~= b@.subrange(0, i as int).push(b@[i as int]));
        i += 1;
    }
    assert(b@.subrange(0, b@.len() as int) =~= b@);
    r
}

pub(crate) fn copy_bytes(b: &[u8]) -> (r: Vec<u8>)
    ensures
        r@ == b@,
{
    let mut r: Vec<u8> = Vec::new();
    let mut i: usize = 0;
    while i < b.len()
        invariant
            i <= b@.len(),
            r@ == b@.subrange(0, i as int),
        decreases b.len() - i,
    {
        r.push(b[i]);
        assert(b@.subrange(0, i + 1) =~= b@.subrange(0, i as int).push(b@[i as int]));
        i += 1;
    }
    assert(b@.subrange(0, b@.len() as int) =~= b@);
    r
}

/// The characters of a path given as bytes: C-style quotes undone when
/// present and well formed, otherwise the bytes decoded as they are.
pub open spec fn spec_path_string(path: Seq<u8>) -> Seq<char> {
    let s = utf8_lossy_of(path);
    if is_quoted(s) {
        match spec_ansi_c_unquote(s) {
            Some((u, _)) => u,
            None => s,
        }
    } else {
        s
    }
}

/// The path named by a diff header's bytes (see [`spec_path_string`]).
pub fn path_string(path: &[u8]) -> (r: String)
    ensures
        r@ == spec_path_string(path@),
{
    let s = utf8_lossy(path);
    let v = chars_of(s.as_str());
    if v.len() > 0 && v[0] == '"' {
        match ansi_c_unquote(s.as_str()) {
            Some((u, _)) => u,
            None => s,
        }
    } else {
        s
    }
}

/// A path in bytes, quoted again when it needs to be.
pub open spec fn requoted(s: Seq<char>) -> Seq<u8> {
    if spec_needs_quoting(s) {
        encode_utf8(spec_c_quote(s))
    } else {
        encode_utf8(s)
    }
}

fn requote(s: &str) -> (r: Vec<u8>)
    ensures
        r@ == requoted(s@),
{
    if needs_quoting(s) {
        let q = c_quote(s);
        bytes_of(q.as_str())
    } else {
        bytes_of(s)
    }
}

/// `path` (bytes) without its first `n` components. `/dev/null` is never
/// stripped, nor a quoted path that does not unquote; a quoted path is
/// quoted again when it still needs to be.
pub open spec fn spec_strip_path_bytes(path: Seq<u8>, n: nat) -> Seq<u8> {
    if n == 0 {
        path
    } else {
        let s = utf8_lossy_of(path);
        if is_quoted(s) {
            match spec_ansi_c_unquote(s) {
                None => path,
                Some((u, _)) => if u == "/dev/null"@ {
                    path
                } else {
                    requoted(spec_strip_path_n(u, n))
                },
            }
        } else if s == "/dev/null"@ {
            path
        } else {
            encode_utf8(spec_strip_path_n(s, n))
        }
    }
}

/// Strips `n` leading components of a path given as bytes (see
/// [`spec_strip_path_bytes`]).
pub fn strip_path_bytes(path: &[u8], n: usize) -> (r: Vec<u8>)
    ensures
        r@ == spec_strip_path_bytes(path@, n as nat),
{
    if n == 0 {
        return copy_bytes(path);
    }
    let s = utf8_lossy(path);
    let v = chars_of(s.as_str());
    proof { reveal_strlit("/dev/null"); }
    if v.len() > 0 && v[0] == '"' {
        match ansi_c_unquote(s.as_str()) {
            None => copy_bytes(path),
            Some((u, _)) => {
                let uv = chars_of(u.as_str());
                if crate::text::eq_str(&uv, "/dev/null") {
                    copy_bytes(path)
                } else {
                    let stripped = strip_path_n(u.as_str(), n);
                    requote(stripped.as_str())
                }
            },
        }
    } else if crate::text::eq_str(&v, "/dev/null") {
        copy_bytes(path)
    } else {
        let stripped = strip_path_n(s.as_str(), n);
        bytes_of(stripped.as_str())
    }
}

/// `prefix` put before a path given as bytes, which keeps or gains C-style
/// quotes as the result needs; a quoted path that does not unquote gets the
/// prefix before its raw bytes. `/dev/null` is prefixed like any path.
pub open spec fn spec_add_prefix_bytes(path: Seq<u8>, prefix: Seq<char>) -> Seq<u8> {
    let s = utf8_lossy_of(path);
    if is_quoted(s) {
        match spec_ansi_c_unquote(s) {
            None => encode_utf8(prefix) + path,
            Some((u, _)) => requoted(prefix + u),
        }
    } else {
        requoted(prefix + s)
    }
}

/// Puts `prefix` before a path given as bytes (see [`spec_add_prefix_bytes`]).
pub fn add_prefix_bytes(path: &[u8], prefix: &str) -> (r: Vec<u8>)
    ensures
        r@ == spec_add_prefix_bytes(path@, prefix@),
{
    let s = utf8_lossy(path);
    let v = chars_of(s.as_str());
    if v.len() > 0 && v[0] == '"' {
        match ansi_c_unquote(s.as_str()) {
            None => {
                let mut r = bytes_of(prefix);
                let p = copy_bytes(path);
                let mut i: usize = 0;
                let ghost start = r@;
                while i < p.len()
                    invariant
                        i <= p@.len(),
                        r@ == start + p@.subrange(0, i as int),
                    decreases p.len() - i,
                {
                    r.push(p[i]);
                    assert(p@.subrange(0, i + 1) =~= p@.subrange(0, i as int).push(p@[i as int]));
                    i += 1;
                }
                assert(p@.subrange(0, p@.len() as int) =~= p@);
                r
            },
            Some((u, _)) => {
                let prefixed = String::from_str(prefix).concat(u.as_str());
                requote(prefixed.as_str())
            },
        }
    } else {
        let prefixed = String::from_str(prefix).concat(s.as_str());
        requote(prefixed.as_str())
    }
}

// ---------------------------------------------------------------------------
// Glob patterns
// ---------------------------------------------------------------------------

/// Whether `globset` matches `text` against `pattern` compiled with
/// `literal_separator(false)`, so that `*` also matches `/`; a pattern that
/// does not build, or whose matcher does not fit globset's size limits,
/// matches nothing.
pub uninterp spec fn glob_matches(pattern: Seq<char>, text: Seq<char>) -> bool;

/// Patterns short enough for `globset`'s literal matchers (`aho-corasick`,
/// whose state ids stop below 2^31): under 2^30 bytes each.
pub open spec fn patterns_fit(v: Seq<String>) -> bool {
    forall|i: int| 0 <= i < v.len() ==> encode_utf8((#[trigger] v[i])@).len() < 0x4000_0000
}

/// `globset::GlobBuilder::new(pattern).literal_separator(false).build()`,
/// then a one-pattern `GlobSetBuilder::build()` and `GlobSet::is_match`.
/// Both builds return an error rather than panic (a regex over globset's
/// size limit included), and an error matches nothing; the contract names
/// the result. Patterns of 2^30 bytes or more, where `aho-corasick` can
/// run out of state ids and globset unwraps its error, are left out.
#[verifier::external_body]
pub(crate) fn fnmatch(pattern: &str, text: &str) -> (b: bool)
    requires
        encode_utf8(pattern@).len() < 0x4000_0000,
    ensures
        b == glob_matches(pattern@, text@),
{
    match globset::GlobBuilder::new(pattern).literal_separator(false).build() {
        Ok(g) => globset::GlobSetBuilder::new().add(g).build().map_or(false, |s| s.is_match(text)),
        Err(_) => false,
    }
}

/// Whether `path` survives the exclude and include patterns: it matches no
/// exclude pattern, and, when include patterns are given, at least one.
pub open spec fn passes_filters_spec(path: Seq<char>, excludes: Seq<Seq<char>>, includes: Seq<Seq<char>>) -> bool {
    &&& !(exists|i: int| 0 <= i < excludes.len() && glob_matches(excludes[i], path))
    &&& (includes.len() == 0 || exists|i: int| 0 <= i < includes.len() && glob_matches(includes[i], path))
}

pub open spec fn strings_view(v: Seq<String>) -> Seq<Seq<char>> {
    v.map_values(|s: String| s@)
}

fn any_matches(patterns: &Vec<String>, path: &str) -> (b: bool)
    requires
        patterns_fit(patterns@),
    ensures
        b == exists|i: int| 0 <= i < patterns@.len() && glob_matches(strings_view(patterns@)[i], path@),
{
    let mut i: usize = 0;
    while i < patterns.len()
        invariant
            i <= patterns@.len(),
            patterns_fit(patterns@),
            forall|j: int| 0 <= j < i ==> !glob_matches(strings_view(patterns@)[j], path@),
        decreases patterns.len() - i,
    {
        if fnmatch(patterns[i].as_str(), path) {
            assert(glob_matches(strings_view(patterns@)[i as int], path@));
            return true;
        }
        i += 1;
    }
    false
}

/// Whether a file, by its path with one component stripped, survives the
/// exclude and include patterns of [`PatchOptions`].
pub fn passes_filters(match_path: &str, excludes: &Vec<String>, includes: &Vec<String>) -> (b: bool)
    requires
        patterns_fit(excludes@),
        patterns_fit(includes@),
    ensures
        b == passes_filters_spec(match_path@, strings_view(excludes@), strings_view(includes@)),
{
    if excludes.len() > 0 && any_matches(excludes, match_path) {
        return false;
    }
    if includes.len() > 0 && !any_matches(includes, match_path) {
        return false;
    }
    true
}

// ---------------------------------------------------------------------------
// Options
// ---------------------------------------------------------------------------

/// How a patch is normalized before hashing, as `fetchpatch`'s arguments
/// say.
#[derive(Debug, Clone, Default)]
pub struct PatchOptions {
    /// Path components stripped from every path (`stripLen`).
    pub strip_len: usize,
    /// Only files under this directory, which is stripped too (`relative`).
    pub relative: Option<String>,
    /// A directory put before every path after stripping (`extraPrefix`).
    pub extra_prefix: Option<String>,
    /// Glob patterns of files left out (`excludes`).
    pub excludes: Vec<String>,
    /// Glob patterns of the only files kept, when not empty (`includes`).
    pub includes: Vec<String>,
    /// 1-based indices of the hunks kept in each file; all when empty
    /// (`hunks`).
    pub hunks: Vec<usize>,
    /// Whether the patch is reversed (`revert`).
    pub revert: bool,
}

} // verus!
