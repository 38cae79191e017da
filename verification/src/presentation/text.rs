//! Rendering a file's diff as text.
use vstd::prelude::*;

use crate::presentation::color::{new_line, old_line, painted, DiffColor};
use crate::presentation::diff::{change_view, hunk_view, FileDiff, Hunk, HunkView, LineChange};
use crate::text::{append_chars, chars_of, to_string, trim_end, trim_end_exec};

verus! {

/// The header line of a hunk: rule name only when `verbose`, target when
/// there is one, nothing when neither is shown.
pub open spec fn hunk_header(h: HunkView, verbose: bool) -> Seq<char> {
    match (verbose, h.target) {
        (true, Some(t)) => "  ["@ + h.rule_name + "] "@ + t + "\n"@,
        (true, None) => "  ["@ + h.rule_name + "]\n"@,
        (false, Some(t)) => "  "@ + t + "\n"@,
        (false, None) => Seq::empty(),
    }
}

/// The three lines of one change: field, old value, new value.
pub open spec fn change_text(c: (Seq<char>, Seq<char>, Seq<char>), color: bool) -> Seq<char> {
    "    "@ + c.0 + "\n"@ + "    "@ + painted(DiffColor::Red, "- "@ + c.1, color) + "\n"@ + "    "@
        + painted(DiffColor::Green, "+ "@ + c.2, color) + "\n"@
}

pub open spec fn changes_text(cs: Seq<(Seq<char>, Seq<char>, Seq<char>)>, color: bool) -> Seq<char>
    decreases cs.len(),
{
    if cs.len() == 0 {
        Seq::empty()
    } else {
        changes_text(cs.drop_last(), color) + change_text(cs.last(), color)
    }
}

pub open spec fn hunk_text(h: HunkView, verbose: bool, color: bool) -> Seq<char> {
    hunk_header(h, verbose) + changes_text(h.changes, color)
}

/// The hunks' texts, separated by blank lines.
pub open spec fn hunks_text(hs: Seq<HunkView>, verbose: bool, color: bool) -> Seq<char>
    decreases hs.len(),
{
    if hs.len() == 0 {
        Seq::empty()
    } else if hs.len() == 1 {
        hunk_text(hs[0], verbose, color)
    } else {
        hunks_text(hs.drop_last(), verbose, color) + "\n"@ + hunk_text(hs.last(), verbose, color)
    }
}

/// What [`render`] returns: nothing for a diff without hunks; otherwise the
/// path, then each hunk, without trailing whitespace.
pub open spec fn spec_render(path: Seq<char>, hs: Seq<HunkView>, verbose: bool, color: bool) -> Option<Seq<char>> {
    if hs.len() == 0 {
        None
    } else {
        Some(trim_end(path + "\n"@ + hunks_text(hs, verbose, color)))
    }
}

fn push_str(r: &mut String, s: &str)
    ensures
        final(r)@ == old(r)@ + s@,
{
    let v = chars_of(s);
    append_chars(r, &v);
}

fn render_change(out: &mut String, c: &LineChange, color: bool)
    ensures
        final(out)@ == old(out)@ + change_text(change_view(*c), color),
{
    proof {
        reveal_strlit("    ");
        reveal_strlit("\n");
        reveal_strlit("- ");
        reveal_strlit("+ ");
    }
    push_str(out, "    ");
    out.append(c.field.as_str());
    push_str(out, "\n");
    push_str(out, "    ");
    let removed = String::from_str("- ").concat(c.old.as_str());
    let o = old_line(removed.as_str(), color);
    out.append(o.as_str());
    push_str(out, "\n");
    push_str(out, "    ");
    let added = String::from_str("+ ").concat(c.new.as_str());
    let n = new_line(added.as_str(), color);
    out.append(n.as_str());
    push_str(out, "\n");
    assert(out@ =~= old(out)@ + change_text(change_view(*c), color));
}

fn render_hunk(out: &mut String, h: &Hunk, verbose: bool, color: bool)
    ensures
        final(out)@ == old(out)@ + hunk_text(hunk_view(*h), verbose, color),
{
    let ghost start = out@;
    match (verbose, &h.target) {
        (true, Some(t)) => {
            push_str(out, "  [");
            out.append(h.rule_name.as_str());
            push_str(out, "] ");
            out.append(t.as_str());
            push_str(out, "\n");
        },
        (true, None) => {
            push_str(out, "  [");
            out.append(h.rule_name.as_str());
            push_str(out, "]\n");
        },
        (false, Some(t)) => {
            push_str(out, "  ");
            out.append(t.as_str());
            push_str(out, "\n");
        },
        (false, None) => {},
    }
    assert(out@ =~= start + hunk_header(hunk_view(*h), verbose));
    let ghost cs = hunk_view(*h).changes;
    let mut i: usize = 0;
    while i < h.changes.len()
        invariant
            i <= h.changes@.len(),
            cs == h.changes@.map_values(|c: LineChange| change_view(c)),
            out@ == start + hunk_header(hunk_view(*h), verbose) + changes_text(cs.subrange(0, i as int), color),
        decreases h.changes.len() - i,
    {
        render_change(out, &h.changes[i], color);
        assert(cs.subrange(0, i + 1).drop_last() =~= cs.subrange(0, i as int));
        assert(cs.subrange(0, i + 1).last() == change_view(h.changes@[i as int]));
        i += 1;
    }
    assert(cs.subrange(0, cs.len() as int) =~= cs);
}

/// Renders a file's diff as text, or `None` if there is nothing to show.
/// Rule names are included only when `verbose`; removed and added lines are
/// colored when `color`.
pub fn render(diff: &FileDiff, verbose: bool, color: bool) -> (r: Option<String>)
    ensures
        match r {
            Some(s) => spec_render(diff.path@, diff.hunks@.map_values(|h: Hunk| hunk_view(h)), verbose, color)
                == Some(s@),
            None => spec_render(diff.path@, diff.hunks@.map_values(|h: Hunk| hunk_view(h)), verbose, color) is None,
        },
{
    let ghost hs = diff.hunks@.map_values(|h: Hunk| hunk_view(h));
    if diff.hunks.len() == 0 {
        return None;
    }
    let mut out = String::new();
    out = out.concat(diff.path.as_str());
    push_str(&mut out, "\n");
    let ghost head = out@;
    let mut i: usize = 0;
    while i < diff.hunks.len()
        invariant
            i <= diff.hunks@.len(),
            hs == diff.hunks@.map_values(|h: Hunk| hunk_view(h)),
            out@ == head + hunks_text(hs.subrange(0, i as int), verbose, color),
        decreases diff.hunks.len() - i,
    {
        let ghost before = out@;
        if i > 0 {
            push_str(&mut out, "\n");
        }
        render_hunk(&mut out, &diff.hunks[i], verbose, color);
        proof {
            let sub = hs.subrange(0, i + 1);
            assert(sub.drop_last() =~= hs.subrange(0, i as int));
            assert(sub.last() == hunk_view(diff.hunks@[i as int]));
            if i == 0 {
                assert(sub[0] == hunk_view(diff.hunks@[0]));
                assert(hunks_text(hs.subrange(0, 0), verbose, color) =~= Seq::<char>::empty());
            }
        }
        assert(out@ =~= head + hunks_text(hs.subrange(0, i + 1), verbose, color));
        i += 1;
    }
    assert(hs.subrange(0, hs.len() as int) =~= hs);
    let v = chars_of(out.as_str());
    let t = trim_end_exec(&v);
    Some(to_string(&t))
}

} // verus!
