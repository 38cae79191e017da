//! Normalizing a patch the way `fetchpatch` does before hashing it:
//! metadata dropped, hunk headers cleaned, empty hunks and binary files
//! left out, paths stripped and prefixed, files filtered and sorted, and
//! optionally reversed.
use vstd::prelude::*;
use vstd::utf8::{decode_utf8, valid_utf8};

use crate::utils::nar::{flat_hash, nar_hash_of, nar_hash_view, sha256_of, NarHash};
use crate::text::{chars_of, concat2, eq_str, starts_with, starts_with_exec};
use crate::utils::patch::{
    add_prefix_bytes, passes_filters, passes_filters_spec, path_string, patterns_fit, spec_add_prefix_bytes, spec_count_path_segments, spec_path_string, spec_strip_path_bytes,
    spec_strip_path_n, strings_view, strip_path_bytes, strip_path_n, PatchOptions,
};
use crate::utils::unified::{
    ascii, entries_view, hunk_header_bytes, patch_file_bytes, patchkit_bytes, range_bytes, patchkit_parse, parse_patch_lines, FileView, HunkView, LineView,
    PatchFile, PatchHunk, PatchLine,
};

verus! {

// ---------------------------------------------------------------------------
// Specification
// ---------------------------------------------------------------------------

/// Index of the first `\n` in `s`, or `-1`.
pub open spec fn first_newline(s: Seq<u8>, i: int) -> int
    decreases s.len() - i,
{
    if i < 0 || i >= s.len() {
        -1
    } else if s[i] == 10u8 {
        i
    } else {
        first_newline(s, i + 1)
    }
}

pub proof fn lemma_first_newline(s: Seq<u8>, i: int)
    requires
        0 <= i,
    ensures
        first_newline(s, i) == -1 || (i <= first_newline(s, i) < s.len() && s[first_newline(s, i)] == 10u8),
        forall|k: int| i <= k < s.len() && (first_newline(s, i) == -1 || k < first_newline(s, i)) ==> s[k] != 10u8,
    decreases s.len() - i,
{
    if i < s.len() && s[i] != 10u8 {
        lemma_first_newline(s, i + 1);
    }
}

/// The lines of `s`, each with its `\n` (the last one may lack it).
pub open spec fn lines_incl(s: Seq<u8>) -> Seq<Seq<u8>>
    decreases s.len(),
{
    if s.len() == 0 {
        Seq::empty()
    } else {
        let i = first_newline(s, 0);
        if i < 0 {
            seq![s]
        } else {
            proof { lemma_first_newline(s, 0); }
            seq![s.subrange(0, i + 1)] + lines_incl(s.subrange(i + 1, s.len() as int))
        }
    }
}

/// `\ No newline at end of file`.
pub open spec fn no_newline_marker() -> Seq<u8> {
    "\\ No newline at end of file"@.map_values(|c: char| c as u8)
}

pub open spec fn starts_with_bytes(s: Seq<u8>, p: Seq<u8>) -> bool {
    p.len() <= s.len() && s.subrange(0, p.len() as int) == p
}

/// The first `n` lines with each `\ No newline at end of file` marker
/// removed, and the `\n` of the line before it dropped.
pub open spec fn marked_lines(ls: Seq<Seq<u8>>, n: int) -> Seq<Seq<u8>>
    decreases n,
{
    if n <= 0 {
        Seq::empty()
    } else {
        let prev = marked_lines(ls, n - 1);
        let l = ls[n - 1];
        if starts_with_bytes(l, no_newline_marker()) {
            if prev.len() > 0 && prev.last().len() > 0 && prev.last().last() == 10u8 {
                prev.drop_last().push(prev.last().drop_last())
            } else {
                prev
            }
        } else {
            prev.push(l)
        }
    }
}

/// The lines handed to the parser.
pub open spec fn patch_lines(content: Seq<u8>) -> Seq<Seq<u8>> {
    let ls = lines_incl(content);
    marked_lines(ls, ls.len() as int)
}

/// The hunks at the 1-based positions of `idx[..n]` that exist.
pub open spec fn selected_hunks(hs: Seq<HunkView>, idx: Seq<usize>, n: int) -> Seq<HunkView>
    decreases n,
{
    if n <= 0 {
        Seq::empty()
    } else {
        let prev = selected_hunks(hs, idx, n - 1);
        let i = idx[n - 1] as int;
        if i > 0 && i - 1 < hs.len() {
            prev.push(hs[i - 1])
        } else {
            prev
        }
    }
}

/// Whether a hunk adds or removes a line.
pub open spec fn has_change(h: HunkView) -> bool {
    exists|j: int| 0 <= j < h.lines.len() && !(#[trigger] h.lines[j] is Context)
}

/// The hunks that are kept: headers cleaned, the selected ones when a
/// selection is given, and only those that change something.
pub open spec fn kept_hunks(hs: Seq<HunkView>, idx: Seq<usize>) -> Seq<HunkView> {
    let clean = hs.map_values(|h: HunkView| HunkView { tail: None, ..h });
    let sel = if idx.len() == 0 {
        clean
    } else {
        selected_hunks(clean, idx, idx.len() as int)
    };
    sel.filter(|h: HunkView| has_change(h))
}

/// The path a file is sorted and filtered by: the old name, or the new one
/// for a new file.
pub open spec fn sort_path(f: FileView) -> Seq<char> {
    let o = spec_path_string(f.orig_name);
    if o == "/dev/null"@ {
        spec_path_string(f.mod_name)
    } else {
        o
    }
}

/// How many leading path components go.
pub open spec fn effective_strip(o: PatchOptions) -> nat {
    match o.relative {
        Some(r) => (1 + spec_count_path_segments(r@) + o.strip_len) as nat,
        None => o.strip_len as nat,
    }
}

/// A name stripped and, with `relative` or `extraPrefix`, prefixed by
/// `side` and the extra prefix.
pub open spec fn renamed(name: Seq<u8>, o: PatchOptions, side: Seq<char>) -> Seq<u8> {
    let stripped = spec_strip_path_bytes(name, effective_strip(o));
    if o.relative is Some || o.extra_prefix is Some {
        let ep = match o.extra_prefix {
            Some(e) => e@,
            None => Seq::empty(),
        };
        spec_add_prefix_bytes(stripped, side + ep)
    } else {
        stripped
    }
}

/// What one file of the patch becomes, with its sort path: `None` when it
/// is binary, keeps no hunk, or lies outside `relative`.
pub open spec fn processed_file(e: Option<FileView>, o: PatchOptions) -> Option<(Seq<char>, FileView)> {
    match e {
        None => None,
        Some(f) => {
            let hs = kept_hunks(f.hunks, o.hunks@);
            let sp = sort_path(f);
            if hs.len() == 0 {
                None
            } else if o.relative is Some && !starts_with(spec_strip_path_n(sp, 1), o.relative->Some_0@ + "/"@) {
                None
            } else {
                Some(
                    (
                        sp,
                        FileView {
                            orig_name: renamed(f.orig_name, o, "a/"@),
                            mod_name: renamed(f.mod_name, o, "b/"@),
                            hunks: hs,
                            ..f
                        },
                    ),
                )
            }
        },
    }
}

/// Whether a file passes the `excludes` and `includes` patterns.
pub open spec fn file_passes(sp: Seq<char>, o: PatchOptions) -> bool {
    passes_filters_spec(spec_strip_path_n(sp, 1), strings_view(o.excludes@), strings_view(o.includes@))
}

/// The processed files of `es[..n]` that pass the filters, in order.
pub open spec fn filtered_files(es: Seq<Option<FileView>>, o: PatchOptions, n: int) -> Seq<(Seq<char>, FileView)>
    decreases n,
{
    if n <= 0 {
        Seq::empty()
    } else {
        let prev = filtered_files(es, o, n - 1);
        match processed_file(es[n - 1], o) {
            Some(p) => if file_passes(p.0, o) {
                prev.push(p)
            } else {
                prev
            },
            None => prev,
        }
    }
}

/// Whether `a` comes before `b` in code-point order.
pub open spec fn path_lt(a: Seq<char>, b: Seq<char>) -> bool
    decreases a.len(),
{
    if b.len() == 0 {
        false
    } else if a.len() == 0 {
        true
    } else if (a[0] as u32) < (b[0] as u32) {
        true
    } else if a[0] == b[0] {
        path_lt(a.drop_first(), b.drop_first())
    } else {
        false
    }
}

/// The position where a file with path `k` goes in sorted `s`: before the
/// first with a greater path.
pub open spec fn insert_pos(s: Seq<(Seq<char>, FileView)>, k: Seq<char>, j: int) -> int
    decreases s.len() - j,
{
    if j < 0 || j >= s.len() {
        s.len() as int
    } else if path_lt(k, s[j].0) {
        j
    } else {
        insert_pos(s, k, j + 1)
    }
}

/// The first `n` files sorted by path, equal paths in their order.
pub open spec fn sorted_files(s: Seq<(Seq<char>, FileView)>, n: int) -> Seq<(Seq<char>, FileView)>
    decreases n,
{
    if n <= 0 {
        Seq::empty()
    } else {
        let prev = sorted_files(s, n - 1);
        prev.insert(insert_pos(prev, s[n - 1].0, 0), s[n - 1])
    }
}

/// A hunk line with additions and removals swapped.
pub open spec fn reversed_line(l: LineView) -> LineView {
    match l {
        LineView::Insert(b) => LineView::Remove(b),
        LineView::Remove(b) => LineView::Insert(b),
        LineView::Context(b) => LineView::Context(b),
    }
}

/// A file with old and new swapped.
pub open spec fn reversed_file(f: FileView) -> FileView {
    FileView {
        orig_name: f.mod_name,
        orig_ts: f.mod_ts,
        mod_name: f.orig_name,
        mod_ts: f.orig_ts,
        hunks: f.hunks.map_values(
            |h: HunkView|
                HunkView {
                    orig_pos: h.mod_pos,
                    orig_range: h.mod_range,
                    mod_pos: h.orig_pos,
                    mod_range: h.orig_range,
                    tail: h.tail,
                    lines: h.lines.map_values(|l: LineView| reversed_line(l)),
                },
        ),
    }
}

/// `reverted:\n`.
pub open spec fn reverted_marker() -> Seq<u8> {
    "reverted:\n"@.map_values(|c: char| c as u8)
}

/// The text of the first `n` files, each written by `patchkit` (reversed
/// and marked when reverting).
pub open spec fn written(fs: Seq<(Seq<char>, FileView)>, revert: bool, n: int) -> Seq<u8>
    decreases n,
{
    if n <= 0 {
        Seq::empty()
    } else {
        let f = fs[n - 1].1;
        written(fs, revert, n - 1) + if revert {
            reverted_marker() + patchkit_bytes(reversed_file(f))
        } else {
            patchkit_bytes(f)
        }
    }
}

/// The normalized text of the parsed files: processed, filtered, sorted by
/// path, written one after the other, ending with a newline when not empty.
pub open spec fn spec_normalized_bytes(es: Seq<Option<FileView>>, o: PatchOptions) -> Seq<u8> {
    let fs = filtered_files(es, o, es.len() as int);
    let sorted = sorted_files(fs, fs.len() as int);
    let w = written(sorted, o.revert, sorted.len() as int);
    if w.len() > 0 && w.last() != 10u8 {
        w.push(10u8)
    } else {
        w
    }
}

/// What normalizing `content` gives: the error of the parser, or the
/// normalized text, which must be UTF-8.
pub open spec fn spec_normalize_patch(content: Seq<u8>, o: PatchOptions) -> Result<Seq<char>, Seq<char>> {
    match patchkit_parse(patch_lines(content)) {
        Err(e) => Err("Failed to parse patch: "@ + e),
        Ok(es) => {
            let b = spec_normalized_bytes(es, o);
            if valid_utf8(b) {
                Ok(decode_utf8(b))
            } else {
                Err("Normalized patch content is not valid UTF-8"@)
            }
        },
    }
}

} // verus!

verus! {

// ---------------------------------------------------------------------------
// Lines
// ---------------------------------------------------------------------------

proof fn lemma_first_newline_shift(s: Seq<u8>, a: int, p: int)
    requires
        0 <= a <= p <= s.len(),
        forall|k: int| a <= k < p ==> s[k] != 10u8,
        p == s.len() || s[p] == 10u8,
    ensures
        first_newline(s.subrange(a, s.len() as int), 0) == if p == s.len() {
            -1
        } else {
            p - a
        },
{
    let t = s.subrange(a, s.len() as int);
    lemma_first_newline(t, 0);
    let q = first_newline(t, 0);
    if p == s.len() {
        if q != -1 {
            assert(t[q] == s[a + q]);
        }
    } else {
        assert(t[p - a] == s[p]);
        if q == -1 {
        } else if q < p - a {
            assert(t[q] == s[a + q]);
        }
    }
}

/// The lines of `b`, each with its `\n` (see [`lines_incl`]).
fn split_lines(b: &Vec<u8>) -> (r: Vec<Vec<u8>>)
    ensures
        r@.map_values(|l: Vec<u8>| l@) == lines_incl(b@),
{
    let ghost s = b@;
    let mut lines: Vec<Vec<u8>> = Vec::new();
    let mut start: usize = 0;
    assert(s.subrange(0, s.len() as int) =~= s);
    while start < b.len()
        invariant
            start <= b@.len(),
            s == b@,
            lines_incl(s) == lines@.map_values(|l: Vec<u8>| l@) + lines_incl(s.subrange(start as int, s.len() as int)),
        decreases b.len() - start,
    {
        let mut p: usize = start;
        while p < b.len() && b[p] != 10u8
            invariant
                start <= p <= b@.len(),
                s == b@,
                forall|k: int| start <= k < p ==> s[k] != 10u8,
            decreases b.len() - p,
        {
            p += 1;
        }
        proof { lemma_first_newline_shift(s, start as int, p as int); }
        let ghost t = s.subrange(start as int, s.len() as int);
        let ghost before = lines@.map_values(|l: Vec<u8>| l@);
        let end = if p < b.len() {
            p + 1
        } else {
            p
        };
        let mut line: Vec<u8> = Vec::new();
        let mut k: usize = start;
        while k < end
            invariant
                start <= k <= end <= b@.len(),
                s == b@,
                line@ == s.subrange(start as int, k as int),
            decreases end - k,
        {
            line.push(b[k]);
            assert(s.subrange(start as int, k + 1) =~= s.subrange(start as int, k as int).push(s[k as int]));
            k += 1;
        }
        lines.push(line);
        proof {
            if p < b@.len() {
                assert(t.subrange(0, (p - start) + 1) =~= s.subrange(start as int, end as int));
                assert(t.subrange((p - start) + 1, t.len() as int) =~= s.subrange(end as int, s.len() as int));
            } else {
                assert(t =~= s.subrange(start as int, end as int));
                assert(s.subrange(end as int, s.len() as int) =~= Seq::<u8>::empty());
                assert(lines_incl(Seq::<u8>::empty()) =~= Seq::<Seq<u8>>::empty());
            }
            assert(lines@.map_values(|l: Vec<u8>| l@) =~= before.push(s.subrange(start as int, end as int)));
        }
        start = end;
    }
    assert(s.subrange(start as int, s.len() as int) =~= Seq::<u8>::empty());
    assert(lines_incl(Seq::<u8>::empty()) =~= Seq::<Seq<u8>>::empty());
    assert(lines@.map_values(|l: Vec<u8>| l@) + Seq::<Seq<u8>>::empty() =~= lines@.map_values(|l: Vec<u8>| l@));
    lines
}

} // verus!

verus! {

fn marker_bytes() -> (r: Vec<u8>)
    ensures
        r@ == no_newline_marker(),
{
    let r = crate::utils::patch::bytes_of("\\ No newline at end of file");
    proof {
        reveal_strlit("\\ No newline at end of file");
        let t = "\\ No newline at end of file"@;
        assert(vstd::utf8::is_ascii_chars(t));
        vstd::utf8::is_ascii_chars_encode_utf8(t);
        assert(r@ =~= no_newline_marker());
    }
    r
}

fn starts_with_bytes_exec(s: &Vec<u8>, p: &Vec<u8>) -> (b: bool)
    ensures
        b == starts_with_bytes(s@, p@),
{
    if p.len() > s.len() {
        return false;
    }
    let mut i: usize = 0;
    while i < p.len()
        invariant
            i <= p@.len() <= s@.len(),
            forall|k: int| 0 <= k < i ==> s@[k] == p@[k],
        decreases p.len() - i,
    {
        if s[i] != p[i] {
            assert(s@.subrange(0, p@.len() as int)[i as int] != p@[i as int]);
            return false;
        }
        i += 1;
    }
    assert(s@.subrange(0, p@.len() as int) =~= p@);
    true
}

/// The lines handed to the parser (see [`patch_lines`]).
pub fn patch_lines_of(content: &str) -> (r: Vec<Vec<u8>>)
    ensures
        r@.map_values(|l: Vec<u8>| l@) == patch_lines(vstd::utf8::encode_utf8(content@)),
{
    let bytes = crate::utils::patch::bytes_of(content);
    let ls = split_lines(&bytes);
    let ghost lv = ls@.map_values(|l: Vec<u8>| l@);
    let marker = marker_bytes();
    let mut out: Vec<Vec<u8>> = Vec::new();
    let mut k: usize = 0;
    assert(out@.map_values(|l: Vec<u8>| l@) =~= marked_lines(lv, 0));
    while k < ls.len()
        invariant
            k <= ls@.len(),
            lv == ls@.map_values(|l: Vec<u8>| l@),
            marker@ == no_newline_marker(),
            out@.map_values(|l: Vec<u8>| l@) == marked_lines(lv, k as int),
        decreases ls.len() - k,
    {
        let ghost prev = out@.map_values(|l: Vec<u8>| l@);
        assert(lv[k as int] == ls@[k as int]@);
        if starts_with_bytes_exec(&ls[k], &marker) {
            let n = out.len();
            if n > 0 {
                let last_len = out[n - 1].len();
                if last_len > 0 && out[n - 1][last_len - 1] == 10u8 {
                    let mut last = out.pop().unwrap();
                    assert(prev.last() == last@);
                    last.pop();
                    out.push(last);
                    assert(out@.map_values(|l: Vec<u8>| l@) =~= prev.drop_last().push(prev.last().drop_last()));
                }
            }
        } else {
            out.push(crate::utils::patch::copy_bytes(ls[k].as_slice()));
            assert(out@.map_values(|l: Vec<u8>| l@) =~= prev.push(lv[k as int]));
        }
        k += 1;
    }
    out
}

} // verus!

verus! {

// ---------------------------------------------------------------------------
// Files
// ---------------------------------------------------------------------------

pub open spec fn hunks_view(v: Seq<PatchHunk>) -> Seq<HunkView> {
    v.map_values(|h: PatchHunk| h@)
}

pub open spec fn lines_view(v: Seq<PatchLine>) -> Seq<LineView> {
    v.map_values(|l: PatchLine| l@)
}

fn copy_line(l: &PatchLine) -> (r: PatchLine)
    ensures
        r@ == l@,
{
    match l {
        PatchLine::Context(b) => PatchLine::Context(crate::utils::patch::copy_bytes(b.as_slice())),
        PatchLine::Insert(b) => PatchLine::Insert(crate::utils::patch::copy_bytes(b.as_slice())),
        PatchLine::Remove(b) => PatchLine::Remove(crate::utils::patch::copy_bytes(b.as_slice())),
    }
}

fn copy_opt(o: &Option<Vec<u8>>) -> (r: Option<Vec<u8>>)
    ensures
        crate::utils::unified::opt_bytes(r) == crate::utils::unified::opt_bytes(*o),
{
    match o {
        Some(b) => Some(crate::utils::patch::copy_bytes(b.as_slice())),
        None => None,
    }
}

fn copy_hunk(h: &PatchHunk) -> (r: PatchHunk)
    ensures
        r@ == h@,
{
    let mut lines: Vec<PatchLine> = Vec::new();
    let mut i: usize = 0;
    while i < h.lines.len()
        invariant
            i <= h.lines@.len(),
            lines_view(lines@) == lines_view(h.lines@).subrange(0, i as int),
        decreases h.lines.len() - i,
    {
        let ghost before = lines@;
        let c = copy_line(&h.lines[i]);
        lines.push(c);
        assert(lines@ == before.push(c));
        assert(lines_view(lines@) =~= lines_view(before).push(c@));
        assert(lines_view(h.lines@)[i as int] == h.lines@[i as int]@);
        assert(lines_view(h.lines@).subrange(0, i + 1) =~= lines_view(h.lines@).subrange(0, i as int).push(c@));
        i += 1;
    }
    assert(lines_view(h.lines@).subrange(0, h.lines@.len() as int) =~= lines_view(h.lines@));
    PatchHunk {
        orig_pos: h.orig_pos,
        orig_range: h.orig_range,
        mod_pos: h.mod_pos,
        mod_range: h.mod_range,
        tail: copy_opt(&h.tail),
        lines,
    }
}

fn has_change_exec(h: &PatchHunk) -> (b: bool)
    ensures
        b == has_change(h@),
{
    let mut j: usize = 0;
    while j < h.lines.len()
        invariant
            j <= h.lines@.len(),
            forall|k: int| 0 <= k < j ==> (#[trigger] h@.lines[k]) is Context,
        decreases h.lines.len() - j,
    {
        assert(h@.lines[j as int] == h.lines@[j as int]@);
        match &h.lines[j] {
            PatchLine::Context(_) => {},
            _ => return true,
        }
        j += 1;
    }
    false
}

/// The hunks that are kept (see [`kept_hunks`]).
fn kept_hunks_exec(hunks: &Vec<PatchHunk>, idx: &Vec<usize>) -> (r: Vec<PatchHunk>)
    ensures
        hunks_view(r@) == kept_hunks(hunks_view(hunks@), idx@),
{
    let ghost hv = hunks_view(hunks@);
    let ghost clean = hv.map_values(|h: HunkView| HunkView { tail: None, ..h });
    let mut cleaned: Vec<PatchHunk> = Vec::new();
    let mut i: usize = 0;
    while i < hunks.len()
        invariant
            i <= hunks@.len(),
            hv == hunks_view(hunks@),
            clean == hv.map_values(|h: HunkView| HunkView { tail: None, ..h }),
            hunks_view(cleaned@) == clean.subrange(0, i as int),
        decreases hunks.len() - i,
    {
        let ghost before = cleaned@;
        let mut h = copy_hunk(&hunks[i]);
        h.tail = None;
        cleaned.push(h);
        assert(cleaned@ == before.push(h));
        assert(hv[i as int] == hunks@[i as int]@);
        assert(hunks_view(cleaned@) =~= hunks_view(before).push(h@));
        assert(clean[i as int] == HunkView { tail: None, ..hv[i as int] });
        assert(clean.subrange(0, i + 1) =~= clean.subrange(0, i as int).push(h@));
        assert(hunks_view(cleaned@) =~= clean.subrange(0, i + 1));
        i += 1;
    }
    assert(clean.subrange(0, hunks@.len() as int) =~= clean);
    let ghost sel = if idx@.len() == 0 {
        clean
    } else {
        selected_hunks(clean, idx@, idx@.len() as int)
    };
    let selected: Vec<PatchHunk> = if idx.len() == 0 {
        cleaned
    } else {
        let mut out: Vec<PatchHunk> = Vec::new();
        let mut k: usize = 0;
        while k < idx.len()
            invariant
                k <= idx@.len(),
                hunks_view(cleaned@) == clean,
                hunks_view(out@) == selected_hunks(clean, idx@, k as int),
            decreases idx.len() - k,
        {
            let n = idx[k];
            if n > 0 && n - 1 < cleaned.len() {
                out.push(copy_hunk(&cleaned[n - 1]));
                assert(hunks_view(out@) =~= selected_hunks(clean, idx@, k as int).push(clean[n - 1]));
            }
            k += 1;
        }
        out
    };
    let mut kept: Vec<PatchHunk> = Vec::new();
    let mut j: usize = 0;
    while j < selected.len()
        invariant
            j <= selected@.len(),
            hunks_view(selected@) == sel,
            hunks_view(kept@) == sel.subrange(0, j as int).filter(|h: HunkView| has_change(h)),
        decreases selected.len() - j,
    {
        let ghost before = sel.subrange(0, j as int);
        assert(sel.subrange(0, j + 1) =~= before.push(sel[j as int]));
        proof {
            before.lemma_filter_push(sel[j as int], |h: HunkView| has_change(h));
        }
        if has_change_exec(&selected[j]) {
            kept.push(copy_hunk(&selected[j]));
            assert(hunks_view(kept@) =~= before.filter(|h: HunkView| has_change(h)).push(sel[j as int]));
        }
        j += 1;
    }
    assert(sel.subrange(0, selected@.len() as int) =~= sel);
    kept
}

} // verus!

verus! {

// ---------------------------------------------------------------------------
// Processing one file
// ---------------------------------------------------------------------------

pub open spec fn pair_view(p: (String, PatchFile)) -> (Seq<char>, FileView) {
    (p.0@, p.1@)
}

pub open spec fn pairs_view(v: Seq<(String, PatchFile)>) -> Seq<(Seq<char>, FileView)> {
    v.map_values(|p: (String, PatchFile)| pair_view(p))
}

fn sort_path_exec(f: &PatchFile) -> (r: String)
    ensures
        r@ == sort_path(f@),
{
    let o = path_string(f.orig_name.as_slice());
    let v = chars_of(o.as_str());
    if eq_str(&v, "/dev/null") {
        path_string(f.mod_name.as_slice())
    } else {
        o
    }
}

fn rename(name: &Vec<u8>, o: &PatchOptions, strip: usize, side: &str) -> (r: Vec<u8>)
    requires
        strip as nat == effective_strip(*o),
    ensures
        r@ == renamed(name@, *o, side@),
{
    let stripped = strip_path_bytes(name.as_slice(), strip);
    if o.relative.is_some() || o.extra_prefix.is_some() {
        let prefix = match &o.extra_prefix {
            Some(e) => concat2(side, e.as_str()),
            None => {
                let p = String::from_str(side);
                assert(side@ + Seq::<char>::empty() =~= side@);
                p
            },
        };
        add_prefix_bytes(stripped.as_slice(), prefix.as_str())
    } else {
        stripped
    }
}

/// One file of the patch processed (see [`processed_file`]), with its
/// sort path.
fn process_file(f: &PatchFile, o: &PatchOptions, strip: usize) -> (r: Option<(String, PatchFile)>)
    requires
        strip as nat == effective_strip(*o),
    ensures
        match r {
            Some(p) => processed_file(Some(f@), *o) == Some(pair_view(p)),
            None => processed_file(Some(f@), *o) is None,
        },
{
    let hs = kept_hunks_exec(&f.hunks, &o.hunks);
    let sp = sort_path_exec(f);
    if hs.len() == 0 {
        return None;
    }
    match &o.relative {
        Some(rel) => {
            let mp = strip_path_n(sp.as_str(), 1);
            let mpv = chars_of(mp.as_str());
            let pre = concat2(rel.as_str(), "/");
            let prev = chars_of(pre.as_str());
            if !starts_with_exec(&mpv, &prev) {
                return None;
            }
        },
        None => {},
    }
    let orig = rename(&f.orig_name, o, strip, "a/");
    let modn = rename(&f.mod_name, o, strip, "b/");
    let file = PatchFile {
        orig_name: orig,
        orig_ts: copy_opt(&f.orig_ts),
        mod_name: modn,
        mod_ts: copy_opt(&f.mod_ts),
        hunks: hs,
    };
    assert(file@ == FileView {
        orig_name: renamed(f@.orig_name, *o, "a/"@),
        mod_name: renamed(f@.mod_name, *o, "b/"@),
        hunks: kept_hunks(f@.hunks, o.hunks@),
        ..f@
    });
    Some((sp, file))
}

/// The files that are processed and pass the filters (see
/// [`filtered_files`]).
fn filtered_files_exec(es: &Vec<Option<PatchFile>>, o: &PatchOptions, strip: usize) -> (r: Vec<(String, PatchFile)>)
    requires
        strip as nat == effective_strip(*o),
        patterns_fit(o.excludes@),
        patterns_fit(o.includes@),
    ensures
        pairs_view(r@) == filtered_files(entries_view(es@), *o, es@.len() as int),
{
    let ghost ev = entries_view(es@);
    let mut out: Vec<(String, PatchFile)> = Vec::new();
    let mut k: usize = 0;
    while k < es.len()
        invariant
            k <= es@.len(),
            strip as nat == effective_strip(*o),
            patterns_fit(o.excludes@),
            patterns_fit(o.includes@),
            ev == entries_view(es@),
            pairs_view(out@) == filtered_files(ev, *o, k as int),
        decreases es.len() - k,
    {
        let ghost before = out@;
        match &es[k] {
            Some(f) => {
                assert(ev[k as int] == Some(f@));
                match process_file(f, o, strip) {
                    Some(p) => {
                        let mp = strip_path_n(p.0.as_str(), 1);
                        if passes_filters(mp.as_str(), &o.excludes, &o.includes) {
                            let ghost pv = pair_view(p);
                            out.push(p);
                            assert(out@ == before.push(p));
                            assert(pairs_view(out@) =~= pairs_view(before).push(pv));
                        }
                    },
                    None => {},
                }
            },
            None => {
                assert(ev[k as int] is None);
            },
        }
        k += 1;
    }
    out
}

} // verus!

verus! {

// ---------------------------------------------------------------------------
// Sorting
// ---------------------------------------------------------------------------

proof fn lemma_path_lt_step(a: Seq<char>, b: Seq<char>, i: int)
    requires
        0 <= i < a.len(),
        i < b.len(),
        a[i] == b[i],
    ensures
        path_lt(a.subrange(i, a.len() as int), b.subrange(i, b.len() as int)) == path_lt(
            a.subrange(i + 1, a.len() as int),
            b.subrange(i + 1, b.len() as int),
        ),
{
    let x = a.subrange(i, a.len() as int);
    let y = b.subrange(i, b.len() as int);
    assert(x.drop_first() =~= a.subrange(i + 1, a.len() as int));
    assert(y.drop_first() =~= b.subrange(i + 1, b.len() as int));
}

/// Whether path `a` sorts before path `b` (see [`path_lt`]).
fn path_lt_exec(a: &String, b: &String) -> (r: bool)
    ensures
        r == path_lt(a@, b@),
{
    let x = chars_of(a.as_str());
    let y = chars_of(b.as_str());
    let mut i: usize = 0;
    assert(x@.subrange(0, x@.len() as int) =~= x@);
    assert(y@.subrange(0, y@.len() as int) =~= y@);
    while i < x.len() && i < y.len() && x[i] == y[i]
        invariant
            i <= x@.len(),
            i <= y@.len(),
            x@ == a@,
            y@ == b@,
            path_lt(a@, b@) == path_lt(x@.subrange(i as int, x@.len() as int), y@.subrange(i as int, y@.len() as int)),
        decreases x.len() - i,
    {
        proof { lemma_path_lt_step(x@, y@, i as int); }
        i += 1;
    }
    let ghost xs = x@.subrange(i as int, x@.len() as int);
    let ghost ys = y@.subrange(i as int, y@.len() as int);
    if i >= y.len() {
        assert(ys.len() == 0);
        false
    } else if i >= x.len() {
        assert(xs.len() == 0);
        true
    } else {
        assert(xs[0] == x@[i as int] && ys[0] == y@[i as int]);
        (x[i] as u32) < (y[i] as u32)
    }
}

fn copy_file(f: &PatchFile) -> (r: PatchFile)
    ensures
        r@ == f@,
{
    let mut hunks: Vec<PatchHunk> = Vec::new();
    let mut i: usize = 0;
    while i < f.hunks.len()
        invariant
            i <= f.hunks@.len(),
            hunks_view(hunks@) == hunks_view(f.hunks@).subrange(0, i as int),
        decreases f.hunks.len() - i,
    {
        let ghost before = hunks@;
        let h = copy_hunk(&f.hunks[i]);
        hunks.push(h);
        assert(hunks@ == before.push(h));
        assert(hunks_view(hunks@) =~= hunks_view(before).push(h@));
        assert(hunks_view(f.hunks@)[i as int] == f.hunks@[i as int]@);
        assert(hunks_view(f.hunks@).subrange(0, i + 1) =~= hunks_view(f.hunks@).subrange(0, i as int).push(h@));
        i += 1;
    }
    assert(hunks_view(f.hunks@).subrange(0, f.hunks@.len() as int) =~= hunks_view(f.hunks@));
    PatchFile {
        orig_name: crate::utils::patch::copy_bytes(f.orig_name.as_slice()),
        orig_ts: copy_opt(&f.orig_ts),
        mod_name: crate::utils::patch::copy_bytes(f.mod_name.as_slice()),
        mod_ts: copy_opt(&f.mod_ts),
        hunks,
    }
}

/// Where a file with sort path `key` goes in `s` (see [`insert_pos`]).
fn insert_pos_exec(s: &Vec<(String, PatchFile)>, key: &String) -> (r: usize)
    ensures
        r as int == insert_pos(pairs_view(s@), key@, 0),
        r <= s@.len(),
{
    let ghost sv = pairs_view(s@);
    let mut j: usize = 0;
    while j < s.len()
        invariant
            j <= s@.len(),
            sv == pairs_view(s@),
            insert_pos(sv, key@, 0) == insert_pos(sv, key@, j as int),
        decreases s.len() - j,
    {
        assert(sv[j as int].0 == s@[j as int].0@);
        if path_lt_exec(key, &s[j].0) {
            return j;
        }
        j += 1;
    }
    j
}

/// The files sorted by path, equal paths kept in order (see
/// [`sorted_files`]).
fn sort_files(v: &Vec<(String, PatchFile)>) -> (r: Vec<(String, PatchFile)>)
    ensures
        pairs_view(r@) == sorted_files(pairs_view(v@), v@.len() as int),
{
    let ghost vv = pairs_view(v@);
    let mut out: Vec<(String, PatchFile)> = Vec::new();
    let mut k: usize = 0;
    while k < v.len()
        invariant
            k <= v@.len(),
            vv == pairs_view(v@),
            pairs_view(out@) == sorted_files(vv, k as int),
        decreases v.len() - k,
    {
        let ghost before = out@;
        let pos = insert_pos_exec(&out, &v[k].0);
        let item = (v[k].0.clone(), copy_file(&v[k].1));
        assert(pair_view(item) == vv[k as int]);
        out.insert(pos, item);
        assert(out@ == before.insert(pos as int, item));
        assert(pairs_view(out@) =~= pairs_view(before).insert(pos as int, pair_view(item)));
        k += 1;
    }
    out
}

} // verus!

verus! {

// ---------------------------------------------------------------------------
// Reversing and writing
// ---------------------------------------------------------------------------

fn reverse_line(l: &PatchLine) -> (r: PatchLine)
    ensures
        r@ == reversed_line(l@),
{
    match l {
        PatchLine::Context(b) => PatchLine::Context(crate::utils::patch::copy_bytes(b.as_slice())),
        PatchLine::Insert(b) => PatchLine::Remove(crate::utils::patch::copy_bytes(b.as_slice())),
        PatchLine::Remove(b) => PatchLine::Insert(crate::utils::patch::copy_bytes(b.as_slice())),
    }
}

pub open spec fn reversed_hunk(h: HunkView) -> HunkView {
    HunkView {
        orig_pos: h.mod_pos,
        orig_range: h.mod_range,
        mod_pos: h.orig_pos,
        mod_range: h.orig_range,
        tail: h.tail,
        lines: h.lines.map_values(|l: LineView| reversed_line(l)),
    }
}

fn reverse_hunk(h: &PatchHunk) -> (r: PatchHunk)
    ensures
        r@ == reversed_hunk(h@),
{
    let ghost want = h@.lines.map_values(|l: LineView| reversed_line(l));
    let mut lines: Vec<PatchLine> = Vec::new();
    let mut i: usize = 0;
    while i < h.lines.len()
        invariant
            i <= h.lines@.len(),
            want == h@.lines.map_values(|l: LineView| reversed_line(l)),
            lines_view(lines@) == want.subrange(0, i as int),
        decreases h.lines.len() - i,
    {
        let ghost before = lines@;
        let c = reverse_line(&h.lines[i]);
        lines.push(c);
        assert(lines@ == before.push(c));
        assert(lines_view(lines@) =~= lines_view(before).push(c@));
        assert(h@.lines[i as int] == h.lines@[i as int]@);
        assert(want.subrange(0, i + 1) =~= want.subrange(0, i as int).push(c@));
        i += 1;
    }
    assert(want.subrange(0, want.len() as int) =~= want);
    PatchHunk {
        orig_pos: h.mod_pos,
        orig_range: h.mod_range,
        mod_pos: h.orig_pos,
        mod_range: h.orig_range,
        tail: copy_opt(&h.tail),
        lines,
    }
}

/// A file with old and new swapped (see [`reversed_file`]).
fn reverse_file(f: &PatchFile) -> (r: PatchFile)
    ensures
        r@ == reversed_file(f@),
{
    let ghost want = f@.hunks.map_values(|h: HunkView| reversed_hunk(h));
    let mut hunks: Vec<PatchHunk> = Vec::new();
    let mut i: usize = 0;
    while i < f.hunks.len()
        invariant
            i <= f.hunks@.len(),
            want == f@.hunks.map_values(|h: HunkView| reversed_hunk(h)),
            hunks_view(hunks@) == want.subrange(0, i as int),
        decreases f.hunks.len() - i,
    {
        let ghost before = hunks@;
        let c = reverse_hunk(&f.hunks[i]);
        hunks.push(c);
        assert(hunks@ == before.push(c));
        assert(hunks_view(hunks@) =~= hunks_view(before).push(c@));
        assert(f@.hunks[i as int] == f.hunks@[i as int]@);
        assert(want.subrange(0, i + 1) =~= want.subrange(0, i as int).push(c@));
        i += 1;
    }
    assert(want.subrange(0, want.len() as int) =~= want);
    let r = PatchFile {
        orig_name: crate::utils::patch::copy_bytes(f.mod_name.as_slice()),
        orig_ts: copy_opt(&f.mod_ts),
        mod_name: crate::utils::patch::copy_bytes(f.orig_name.as_slice()),
        mod_ts: copy_opt(&f.orig_ts),
        hunks,
    };
    assert(r@.hunks =~= reversed_file(f@).hunks);
    r
}

fn append_bytes(out: &mut Vec<u8>, b: &Vec<u8>)
    ensures
        final(out)@ == old(out)@ + b@,
{
    let mut i: usize = 0;
    while i < b.len()
        invariant
            i <= b@.len(),
            out@ == old(out)@ + b@.subrange(0, i as int),
        decreases b.len() - i,
    {
        out.push(b[i]);
        assert(b@.subrange(0, i + 1) =~= b@.subrange(0, i as int).push(b@[i as int]));
        i += 1;
    }
    assert(b@.subrange(0, b@.len() as int) =~= b@);
}

fn reverted_marker_bytes() -> (r: Vec<u8>)
    ensures
        r@ == reverted_marker(),
{
    let r = crate::utils::patch::bytes_of("reverted:\n");
    proof {
        reveal_strlit("reverted:\n");
        let t = "reverted:\n"@;
        assert(vstd::utf8::is_ascii_chars(t));
        vstd::utf8::is_ascii_chars_encode_utf8(t);
        assert(r@ =~= reverted_marker());
    }
    r
}

/// The files written one after the other (see [`written`]).
fn write_files(fs: &Vec<(String, PatchFile)>, revert: bool) -> (r: Vec<u8>)
    ensures
        r@ == written(pairs_view(fs@), revert, fs@.len() as int),
{
    let ghost fv = pairs_view(fs@);
    let mut out: Vec<u8> = Vec::new();
    let mut k: usize = 0;
    while k < fs.len()
        invariant
            k <= fs@.len(),
            fv == pairs_view(fs@),
            out@ == written(fv, revert, k as int),
        decreases fs.len() - k,
    {
        assert(fv[k as int].1 == fs@[k as int].1@);
        if revert {
            let m = reverted_marker_bytes();
            append_bytes(&mut out, &m);
            let b = patch_file_bytes(reverse_file(&fs[k].1));
            append_bytes(&mut out, &b);
            assert(out@ =~= written(fv, revert, k as int) + (reverted_marker() + patchkit_bytes(
                reversed_file(fv[k as int].1),
            )));
        } else {
            let b = patch_file_bytes(copy_file(&fs[k].1));
            append_bytes(&mut out, &b);
        }
        k += 1;
    }
    out
}

/// The normalized text of parsed files (see [`spec_normalized_bytes`]).
pub fn normalized_bytes(entries: &Vec<Option<PatchFile>>, options: &PatchOptions) -> (r: Vec<u8>)
    requires
        effective_strip(*options) <= usize::MAX,
        patterns_fit(options.excludes@),
        patterns_fit(options.includes@),
    ensures
        r@ == spec_normalized_bytes(entries_view(entries@), *options),
{
    let strip: usize = match &options.relative {
        Some(rel) => 1 + crate::utils::patch::count_path_segments(rel.as_str()) + options.strip_len,
        None => options.strip_len,
    };
    let files = filtered_files_exec(entries, options, strip);
    let sorted = sort_files(&files);
    let mut out = write_files(&sorted, options.revert);
    let n = out.len();
    if n > 0 && out[n - 1] != 10u8 {
        out.push(10u8);
    }
    out
}

/// `String::from_utf8`: the bytes as a string when they are valid UTF-8.
#[verifier::external_body]
fn string_from_utf8(bytes: Vec<u8>) -> (r: Option<String>)
    ensures
        r is Some <==> valid_utf8(bytes@),
        r matches Some(s) ==> s@ == decode_utf8(bytes@),
{
    String::from_utf8(bytes).ok()
}

/// Normalizes a patch the way `fetchpatch` does (see
/// [`spec_normalize_patch`]): the error of the parser, or the normalized
/// text.
pub fn normalize_patch(content: &str, options: &PatchOptions) -> (r: Result<String, String>)
    requires
        effective_strip(*options) <= usize::MAX,
        patterns_fit(options.excludes@),
        patterns_fit(options.includes@),
    ensures
        match r {
            Ok(s) => spec_normalize_patch(vstd::utf8::encode_utf8(content@), *options) == Ok::<Seq<char>, Seq<char>>(s@),
            Err(e) => spec_normalize_patch(vstd::utf8::encode_utf8(content@), *options) == Err::<Seq<char>, Seq<char>>(e@),
        },
{
    let lines = patch_lines_of(content);
    match parse_patch_lines(lines) {
        Err(e) => Err(concat2("Failed to parse patch: ", e.as_str())),
        Ok(entries) => {
            let bytes = normalized_bytes(&entries, options);
            match string_from_utf8(bytes) {
                Some(s) => Ok(s),
                None => Err(String::from_str("Normalized patch content is not valid UTF-8")),
            }
        },
    }
}

} // verus!

verus! {

// ---------------------------------------------------------------------------
// Hashing a patch
// ---------------------------------------------------------------------------

/// What hashing a downloaded patch gives: an error when it is not UTF-8 or
/// does not normalize, otherwise the flat hash of the normalized text.
pub open spec fn spec_hash_patch(url: Seq<char>, bytes: Seq<u8>, o: PatchOptions) -> Result<
    (Seq<char>, Seq<char>, Seq<char>),
    Seq<char>,
> {
    if !valid_utf8(bytes) {
        Err("Patch content from "@ + url + " is not valid UTF-8"@)
    } else {
        match spec_normalize_patch(bytes, o) {
            Err(e) => Err(e),
            Ok(s) => Ok(nar_hash_of(sha256_of(vstd::utf8::encode_utf8(s)))),
        }
    }
}

/// Hashes patches the way `fetchpatch` does: the patch is normalized, then
/// hashed flat.
pub struct PatchHasher;

impl PatchHasher {
    /// The hash `fetchpatch` gives the patch downloaded from `url`, whose
    /// bytes are `patch_bytes` (see [`spec_hash_patch`]).
    pub fn hash_patch_url(url: &str, patch_bytes: Vec<u8>, options: &PatchOptions) -> (r: Result<NarHash, String>)
        requires
            effective_strip(*options) <= usize::MAX,
            patterns_fit(options.excludes@),
            patterns_fit(options.includes@),
        ensures
            match r {
                Ok(h) => spec_hash_patch(url@, patch_bytes@, *options) == Ok::<_, Seq<char>>(nar_hash_view(h)),
                Err(e) => spec_hash_patch(url@, patch_bytes@, *options) == Err::<(Seq<char>, Seq<char>, Seq<char>), _>(e@),
            },
    {
        let ghost b = patch_bytes@;
        match string_from_utf8(patch_bytes) {
            None => {
                let m = concat2("Patch content from ", url);
                Err(concat2(m.as_str(), " is not valid UTF-8"))
            },
            Some(content) => {
                proof { vstd::utf8::decode_utf8_encode_utf8(b); }
                match normalize_patch(content.as_str(), options) {
                    Err(e) => Err(e),
                    Ok(normalized) => {
                        let bytes = crate::utils::patch::bytes_of(normalized.as_str());
                        Ok(flat_hash(bytes.as_slice()))
                    },
                }
            },
        }
    }
}

} // verus!

verus! {

// ---------------------------------------------------------------------------
// Laws
// ---------------------------------------------------------------------------

/// A hunk as a normalized patch writes it: no text after its `@@` header,
/// and a line that adds or removes.
pub open spec fn clean_hunk(h: HunkView) -> bool {
    h.tail is None && has_change(h)
}

/// A file section as a normalized patch writes it: at least one hunk, each
/// clean.
pub open spec fn clean_section(f: FileView) -> bool {
    f.hunks.len() > 0 && forall|j: int| 0 <= j < f.hunks.len() ==> clean_hunk(#[trigger] f.hunks[j])
}

proof fn lemma_filter_clean(s: Seq<HunkView>, pred: spec_fn(HunkView) -> bool)
    requires
        forall|i: int| 0 <= i < s.len() ==> (#[trigger] s[i]).tail is None,
        forall|h: HunkView| #[trigger] pred(h) == has_change(h),
    ensures
        forall|j: int| 0 <= j < s.filter(pred).len() ==> clean_hunk(#[trigger] s.filter(pred)[j]),
    decreases s.len(),
{
    if s.len() > 0 {
        let p = s.drop_last();
        lemma_filter_clean(p, pred);
        assert(p.push(s.last()) =~= s);
        p.lemma_filter_push(s.last(), pred);
    } else {
        assert(s.filter(pred) =~= Seq::<HunkView>::empty()) by {
            reveal(Seq::filter);
        }
    }
}

proof fn lemma_selected_untailed(hs: Seq<HunkView>, idx: Seq<usize>, n: int)
    requires
        forall|i: int| 0 <= i < hs.len() ==> (#[trigger] hs[i]).tail is None,
    ensures
        forall|k: int| 0 <= k < selected_hunks(hs, idx, n).len() ==> (#[trigger] selected_hunks(hs, idx, n)[k]).tail is None,
    decreases n,
{
    if n > 0 {
        lemma_selected_untailed(hs, idx, n - 1);
    }
}

proof fn lemma_kept_clean(hs: Seq<HunkView>, idx: Seq<usize>)
    ensures
        forall|j: int| 0 <= j < kept_hunks(hs, idx).len() ==> clean_hunk(#[trigger] kept_hunks(hs, idx)[j]),
{
    let clean = hs.map_values(|h: HunkView| HunkView { tail: None, ..h });
    assert forall|i: int| 0 <= i < clean.len() implies (#[trigger] clean[i]).tail is None by {}
    let sel = if idx.len() == 0 {
        clean
    } else {
        lemma_selected_untailed(clean, idx, idx.len() as int);
        selected_hunks(clean, idx, idx.len() as int)
    };
    lemma_filter_clean(sel, |h: HunkView| has_change(h));
}

proof fn lemma_filtered_clean(es: Seq<Option<FileView>>, o: PatchOptions, n: int)
    ensures
        forall|k: int| 0 <= k < filtered_files(es, o, n).len() ==> clean_section(
            (#[trigger] filtered_files(es, o, n)[k]).1,
        ),
    decreases n,
{
    if n > 0 {
        lemma_filtered_clean(es, o, n - 1);
        let prev = filtered_files(es, o, n - 1);
        match processed_file(es[n - 1], o) {
            Some(p) => {
                let f = es[n - 1]->Some_0;
                lemma_kept_clean(f.hunks, o.hunks@);
                assert(p.1.hunks == kept_hunks(f.hunks, o.hunks@));
                assert(clean_section(p.1));
                if file_passes(p.0, o) {
                    assert(filtered_files(es, o, n) == prev.push(p));
                    assert forall|k: int| 0 <= k < prev.push(p).len() implies clean_section(
                        (#[trigger] prev.push(p)[k]).1,
                    ) by {
                        if k < prev.len() {
                            assert(prev.push(p)[k] == prev[k]);
                        }
                    }
                }
            },
            None => {},
        }
    }
}

proof fn lemma_sorted_clean(s: Seq<(Seq<char>, FileView)>, n: int)
    requires
        0 <= n <= s.len(),
        forall|k: int| 0 <= k < s.len() ==> clean_section((#[trigger] s[k]).1),
    ensures
        forall|k: int| 0 <= k < sorted_files(s, n).len() ==> clean_section((#[trigger] sorted_files(s, n)[k]).1),
        sorted_files(s, n).len() == n,
    decreases n,
{
    if n > 0 {
        lemma_sorted_clean(s, n - 1);
        let prev = sorted_files(s, n - 1);
        let pos = insert_pos(prev, s[n - 1].0, 0);
        lemma_insert_pos_bounds(prev, s[n - 1].0, 0);
        prev.insert_ensures(pos, s[n - 1]);
        assert forall|k: int| 0 <= k < prev.insert(pos, s[n - 1]).len() implies clean_section(
            (#[trigger] prev.insert(pos, s[n - 1])[k]).1,
        ) by {
            if k < pos {
                assert(prev.insert(pos, s[n - 1])[k] == prev[k]);
            } else if k > pos {
                assert(prev.insert(pos, s[n - 1])[(k - 1) + 1] == prev[k - 1]);
            }
        }
    }
}

proof fn lemma_insert_pos_bounds(s: Seq<(Seq<char>, FileView)>, k: Seq<char>, j: int)
    requires
        0 <= j,
    ensures
        0 <= insert_pos(s, k, j) <= s.len(),
    decreases s.len() - j,
{
    if j < s.len() && !path_lt(k, s[j].0) {
        lemma_insert_pos_bounds(s, k, j + 1);
    }
}

/// The file sections of a normalized patch, in the order they are
/// written.
pub open spec fn normalized_sections(es: Seq<Option<FileView>>, o: PatchOptions) -> Seq<(Seq<char>, FileView)> {
    let fs = filtered_files(es, o, es.len() as int);
    sorted_files(fs, fs.len() as int)
}

/// A hunk header without text after its `@@`: `@@ -{orig} +{mod} @@` and a
/// newline.
pub open spec fn bare_header(h: HunkView) -> bool {
    hunk_header_bytes(h) == ascii("@@ -"@) + range_bytes(h.orig_pos, h.orig_range) + ascii(" +"@) + range_bytes(
        h.mod_pos,
        h.mod_range,
    ) + ascii(" @@"@) + seq![10u8]
}

/// A section as written: clean, still clean once reversed, and every hunk
/// header bare.
pub open spec fn written_shape(f: FileView) -> bool {
    &&& clean_section(f)
    &&& clean_section(reversed_file(f))
    &&& forall|j: int| 0 <= j < f.hunks.len() ==> bare_header(#[trigger] f.hunks[j])
}

/// Every file section of a normalized patch has hunks, and each hunk adds
/// or removes a line and has a header that ends with `@@` (no text after
/// it); reversing the patch keeps that so.
pub proof fn law_normalized_sections_are_clean(es: Seq<Option<FileView>>, o: PatchOptions)
    ensures
        forall|k: int|
            0 <= k < normalized_sections(es, o).len() ==> written_shape((#[trigger] normalized_sections(es, o)[k]).1),
{
    let fs = filtered_files(es, o, es.len() as int);
    lemma_filtered_clean(es, o, es.len() as int);
    lemma_sorted_clean(fs, fs.len() as int);
    let sorted = normalized_sections(es, o);
    assert forall|k: int| 0 <= k < sorted.len() implies written_shape((#[trigger] sorted[k]).1) by {
        let f = sorted[k].1;
        assert(clean_section(f));
        let r = reversed_file(f);
        assert forall|j: int| 0 <= j < r.hunks.len() implies clean_hunk(#[trigger] r.hunks[j]) by {
            let h = f.hunks[j];
            assert(clean_hunk(h));
            let w = choose|i: int| 0 <= i < h.lines.len() && !(#[trigger] h.lines[i] is Context);
            assert(r.hunks[j].lines[w] == reversed_line(h.lines[w]));
        }
        assert forall|j: int| 0 <= j < f.hunks.len() implies bare_header(#[trigger] f.hunks[j]) by {
            let h = f.hunks[j];
            assert(clean_hunk(h));
            let a = ascii("@@ -"@) + range_bytes(h.orig_pos, h.orig_range) + ascii(" +"@) + range_bytes(
                h.mod_pos,
                h.mod_range,
            ) + ascii(" @@"@);
            assert(a + Seq::<u8>::empty() =~= a);
        }
    }
}

} // verus!
