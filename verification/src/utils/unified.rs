//! Unified diffs as plain values: the files a patch changes, their hunks
//! and lines, as the `patchkit` crate reads and writes them.
use vstd::prelude::*;

use self::PatchLine::{Context, Insert, Remove};

use patchkit::unified::HunkLine::{ContextLine, InsertLine, RemoveLine};
use patchkit::unified::PlainOrBinaryPatch::Plain;
use patchkit::unified::{parse_patches, Hunk, UnifiedPatch};

verus! {

/// One line of a hunk.
#[derive(Debug, Clone, PartialEq, Eq)]
pub enum PatchLine {
    Context(Vec<u8>),
    Insert(Vec<u8>),
    Remove(Vec<u8>),
}

/// A hunk: where it applies in the old and new file, the text after its
/// `@@` header, and its lines.
#[derive(Debug, Clone, PartialEq, Eq)]
pub struct PatchHunk {
    pub orig_pos: usize,
    pub orig_range: usize,
    pub mod_pos: usize,
    pub mod_range: usize,
    pub tail: Option<Vec<u8>>,
    pub lines: Vec<PatchLine>,
}

/// The changes to one file.
#[derive(Debug, Clone, PartialEq, Eq)]
pub struct PatchFile {
    pub orig_name: Vec<u8>,
    pub orig_ts: Option<Vec<u8>>,
    pub mod_name: Vec<u8>,
    pub mod_ts: Option<Vec<u8>>,
    pub hunks: Vec<PatchHunk>,
}

pub enum LineView {
    Context(Seq<u8>),
    Insert(Seq<u8>),
    Remove(Seq<u8>),
}

pub struct HunkView {
    pub orig_pos: usize,
    pub orig_range: usize,
    pub mod_pos: usize,
    pub mod_range: usize,
    pub tail: Option<Seq<u8>>,
    pub lines: Seq<LineView>,
}

pub struct FileView {
    pub orig_name: Seq<u8>,
    pub orig_ts: Option<Seq<u8>>,
    pub mod_name: Seq<u8>,
    pub mod_ts: Option<Seq<u8>>,
    pub hunks: Seq<HunkView>,
}

pub open spec fn opt_bytes(o: Option<Vec<u8>>) -> Option<Seq<u8>> {
    match o {
        Some(v) => Some(v@),
        None => None,
    }
}

impl View for PatchLine {
    type V = LineView;

    open spec fn view(&self) -> LineView {
        match self {
            PatchLine::Context(b) => LineView::Context(b@),
            PatchLine::Insert(b) => LineView::Insert(b@),
            PatchLine::Remove(b) => LineView::Remove(b@),
        }
    }
}

impl View for PatchHunk {
    type V = HunkView;

    open spec fn view(&self) -> HunkView {
        HunkView {
            orig_pos: self.orig_pos,
            orig_range: self.orig_range,
            mod_pos: self.mod_pos,
            mod_range: self.mod_range,
            tail: opt_bytes(self.tail),
            lines: self.lines@.map_values(|l: PatchLine| l@),
        }
    }
}

impl View for PatchFile {
    type V = FileView;

    open spec fn view(&self) -> FileView {
        FileView {
            orig_name: self.orig_name@,
            orig_ts: opt_bytes(self.orig_ts),
            mod_name: self.mod_name@,
            mod_ts: opt_bytes(self.mod_ts),
            hunks: self.hunks@.map_values(|h: PatchHunk| h@),
        }
    }
}

/// The files of a patch (`None` for a binary file), in order.
pub open spec fn entries_view(v: Seq<Option<PatchFile>>) -> Seq<Option<FileView>> {
    v.map_values(|e: Option<PatchFile>| match e {
        Some(f) => Some(f@),
        None => None,
    })
}

/// What `patchkit::unified::parse_patches` reads from a patch's lines:
/// the files it changes, or the text of its error.
pub uninterp spec fn patchkit_parse(lines: Seq<Seq<u8>>) -> Result<Seq<Option<FileView>>, Seq<char>>;

/// The ASCII bytes of a text made of ASCII characters.
pub open spec fn ascii(s: Seq<char>) -> Seq<u8> {
    s.map_values(|c: char| c as u8)
}

/// The decimal digits of `n` (`format!("{}", n)`).
pub open spec fn decimal_bytes(n: nat) -> Seq<u8>
    decreases n,
{
    if n < 10 {
        seq![(48 + n) as u8]
    } else {
        decimal_bytes(n / 10).push((48 + n % 10) as u8)
    }
}

/// A hunk's range in its header: the position, and `,range` unless the
/// range is 1.
pub open spec fn range_bytes(pos: usize, range: usize) -> Seq<u8> {
    if range == 1 {
        decimal_bytes(pos as nat)
    } else {
        decimal_bytes(pos as nat) + ascii(","@) + decimal_bytes(range as nat)
    }
}

/// `\ No newline at end of file` and its newline.
pub open spec fn no_newline_line() -> Seq<u8> {
    ascii("\\ No newline at end of file\n"@)
}

/// A hunk line as written: its lead character (` `, `+`, `-`) and its
/// text, followed by a newline and the no-newline marker when the text does
/// not end with a newline.
pub open spec fn line_bytes(l: LineView) -> Seq<u8> {
    let (lead, text) = match l {
        LineView::Context(b) => (32u8, b),
        LineView::Insert(b) => (43u8, b),
        LineView::Remove(b) => (45u8, b),
    };
    seq![lead] + text + if text.len() > 0 && text.last() == 10u8 {
        Seq::empty()
    } else {
        seq![10u8] + no_newline_line()
    }
}

pub open spec fn lines_bytes(ls: Seq<LineView>) -> Seq<u8>
    decreases ls.len(),
{
    if ls.len() == 0 {
        Seq::empty()
    } else {
        lines_bytes(ls.drop_last()) + line_bytes(ls.last())
    }
}

/// A hunk's header: `@@ -{orig} +{mod} @@`, then a space and the tail when
/// there is one, then a newline.
pub open spec fn hunk_header_bytes(h: HunkView) -> Seq<u8> {
    ascii("@@ -"@) + range_bytes(h.orig_pos, h.orig_range) + ascii(" +"@) + range_bytes(h.mod_pos, h.mod_range)
        + ascii(" @@"@) + match h.tail {
        Some(t) => seq![32u8] + t,
        None => Seq::empty(),
    } + seq![10u8]
}

pub open spec fn hunks_bytes(hs: Seq<HunkView>) -> Seq<u8>
    decreases hs.len(),
{
    if hs.len() == 0 {
        Seq::empty()
    } else {
        hunks_bytes(hs.drop_last()) + hunk_header_bytes(hs.last()) + lines_bytes(hs.last().lines)
    }
}

/// A `---`/`+++` line: the marker, the name, and a tab and the timestamp
/// when there is one.
pub open spec fn name_line(marker: Seq<char>, name: Seq<u8>, ts: Option<Seq<u8>>) -> Seq<u8> {
    ascii(marker) + name + match ts {
        Some(t) => seq![9u8] + t,
        None => Seq::empty(),
    } + seq![10u8]
}

/// What `patchkit`'s `UnifiedPatch::as_bytes` writes for a file: the `--- `
/// and `+++ ` lines, then each hunk's header and lines.
pub open spec fn patchkit_bytes(file: FileView) -> Seq<u8> {
    name_line("--- "@, file.orig_name, file.orig_ts) + name_line("+++ "@, file.mod_name, file.mod_ts) + hunks_bytes(
        file.hunks,
    )
}

/// Reads a patch's lines with `patchkit::unified::parse_patches`, each
/// file moved into a [`PatchFile`] field for field (a binary one as
/// `None`); the error as its text. Claims only that the outcome is a
/// function of the lines.
#[verifier::external_body]
pub fn parse_patch_lines(lines: Vec<Vec<u8>>) -> (r: Result<Vec<Option<PatchFile>>, String>)
    ensures
        match r {
            Ok(v) => patchkit_parse(lines@.map_values(|l: Vec<u8>| l@)) == Ok::<Seq<Option<FileView>>, Seq<char>>(entries_view(v@)),
            Err(e) => patchkit_parse(lines@.map_values(|l: Vec<u8>| l@)) == Err::<Seq<Option<FileView>>, Seq<char>>(e@),
        },
{
    let line = |l| match l {
        ContextLine(b) => Context(b),
        InsertLine(b) => Insert(b),
        RemoveLine(b) => Remove(b),
    };
    let hunk = |Hunk { orig_pos, orig_range, mod_pos, mod_range, tail, lines }| PatchHunk {
        orig_pos, orig_range, mod_pos, mod_range, tail, lines: lines.into_iter().map(line).collect() };
    let file = |p| match p {
        Plain(UnifiedPatch { orig_name, orig_ts, mod_name, mod_ts, hunks }) => Some(PatchFile {
            orig_name, orig_ts, mod_name, mod_ts, hunks: hunks.into_iter().map(hunk).collect() }),
        _ => None,
    };
    parse_patches(lines.into_iter()).map(|p| p.map(file)).collect::<Result<_, _>>().map_err(|e| e.to_string())
}

/// Writes a file with `patchkit`'s `UnifiedPatch::as_bytes`, after moving
/// it field for field into a `UnifiedPatch`; the contract states what
/// `UnifiedPatch::write`, `Hunk::write`, `Hunk::get_header` and
/// `HunkLine::as_bytes` write (see [`patchkit_bytes`]).
#[verifier::external_body]
pub fn patch_file_bytes(file: PatchFile) -> (r: Vec<u8>)
    ensures
        r@ == patchkit_bytes(file@),
{
    let line = |l| match l {
        Context(b) => ContextLine(b),
        Insert(b) => InsertLine(b),
        Remove(b) => RemoveLine(b),
    };
    let hunk = |h: PatchHunk| Hunk { orig_pos: h.orig_pos, orig_range: h.orig_range, mod_pos: h.mod_pos,
        mod_range: h.mod_range, tail: h.tail, lines: h.lines.into_iter().map(line).collect() };
    UnifiedPatch { orig_name: file.orig_name, orig_ts: file.orig_ts, mod_name: file.mod_name,
        mod_ts: file.mod_ts, hunks: file.hunks.into_iter().map(hunk).collect() }.as_bytes()
}

} // verus!
