//! A diff-style view of the updates found in one file.
use vstd::prelude::*;

use crate::apply::{copy_update, edit_view, edits_view, end_of, start_of, EditView};
use crate::checker::{group_view, groups_view, per_rule_view, FileResult};
use crate::rules::traits::{Update, UpdateGroup};
use crate::utils::patch::{bytes_of, utf8_lossy, utf8_lossy_of};
use vstd::utf8::encode_utf8;

verus! {

/// The updates of one file, grouped as they are applied.
pub struct FileDiff {
    pub path: String,
    pub hunks: Vec<Hunk>,
}

/// One group of changes applied together.
pub struct Hunk {
    pub rule_name: String,
    pub target: Option<String>,
    pub changes: Vec<LineChange>,
    pub updates: Vec<Update>,
}

/// One field's old and new text.
pub struct LineChange {
    pub field: String,
    pub old: String,
    pub new: String,
}

/// The mathematical form of a [`LineChange`]: field, old and new text.
pub open spec fn change_view(c: LineChange) -> (Seq<char>, Seq<char>, Seq<char>) {
    (c.field@, c.old@, c.new@)
}

/// The mathematical form of a [`Hunk`]'s rendered parts.
pub struct HunkView {
    pub rule_name: Seq<char>,
    pub target: Option<Seq<char>>,
    pub changes: Seq<(Seq<char>, Seq<char>, Seq<char>)>,
}

pub open spec fn hunk_view(h: Hunk) -> HunkView {
    HunkView {
        rule_name: h.rule_name@,
        target: match h.target {
            Some(t) => Some(t@),
            None => None,
        },
        changes: h.changes@.map_values(|c: LineChange| change_view(c)),
    }
}

/// The text an update replaces, decoded.
pub open spec fn old_text(content: Seq<u8>, e: EditView) -> Seq<char> {
    utf8_lossy_of(content.subrange(start_of(e) as int, end_of(e) as int))
}

pub open spec fn change_of(content: Seq<u8>, e: EditView) -> (Seq<char>, Seq<char>, Seq<char>) {
    (e.update.field, old_text(content, e), e.update.replacement)
}

/// The hunk of one group a rule proposed.
pub open spec fn hunk_of(content: Seq<u8>, rule_name: Seq<char>, g: (Option<Seq<char>>, Seq<EditView>)) -> HunkView {
    HunkView { rule_name, target: g.0, changes: g.1.map_values(|e: EditView| change_of(content, e)) }
}

/// The hunks of every rule's groups, in order.
pub open spec fn diff_hunks(content: Seq<u8>, v: Seq<(Seq<char>, Seq<(Option<Seq<char>>, Seq<EditView>)>)>) -> Seq<HunkView>
    decreases v.len(),
{
    if v.len() == 0 {
        Seq::empty()
    } else {
        diff_hunks(content, v.drop_last()) + v.last().1.map_values(
            |g: (Option<Seq<char>>, Seq<EditView>)| hunk_of(content, v.last().0, g),
        )
    }
}

/// Every update's range lies inside a text of `len` bytes.
pub open spec fn ranges_within(v: Seq<(Seq<char>, Seq<(Option<Seq<char>>, Seq<EditView>)>)>, len: nat) -> bool {
    forall|i: int, j: int, k: int|
        0 <= i < v.len() && 0 <= j < v[i].1.len() && 0 <= k < v[i].1[j].1.len() ==> start_of(
            #[trigger] v[i].1[j].1[k],
        ) <= end_of(v[i].1[j].1[k]) <= len
}

fn old_text_exec(content: &Vec<u8>, u: &Update) -> (r: String)
    requires
        u.range.start <= u.range.end <= content@.len(),
    ensures
        r@ == old_text(content@, edit_view(*u)),
{
    let mut b: Vec<u8> = Vec::new();
    let mut i: usize = u.range.start;
    while i < u.range.end
        invariant
            u.range.start <= i <= u.range.end <= content@.len(),
            b@ == content@.subrange(u.range.start as int, i as int),
        decreases u.range.end - i,
    {
        b.push(content[i]);
        assert(content@.subrange(u.range.start as int, i + 1) =~= content@.subrange(u.range.start as int, i as int).push(
            content@[i as int],
        ));
        i += 1;
    }
    utf8_lossy(b.as_slice())
}

fn hunk_exec(content: &Vec<u8>, rule_name: &String, g: &UpdateGroup) -> (r: Hunk)
    requires
        forall|k: int| 0 <= k < g.updates@.len() ==> (#[trigger] g.updates@[k]).range.start <= g.updates@[k].range.end
            <= content@.len(),
    ensures
        hunk_view(r) == hunk_of(content@, rule_name@, group_view(*g)),
        edits_view(r.updates@) == edits_view(g.updates@),
{
    let ghost want = edits_view(g.updates@).map_values(|e: EditView| change_of(content@, e));
    let mut changes: Vec<LineChange> = Vec::new();
    let mut updates: Vec<Update> = Vec::new();
    let mut k: usize = 0;
    while k < g.updates.len()
        invariant
            k <= g.updates@.len(),
            forall|k: int| 0 <= k < g.updates@.len() ==> (#[trigger] g.updates@[k]).range.start <= g.updates@[k].range.end
                <= content@.len(),
            want == edits_view(g.updates@).map_values(|e: EditView| change_of(content@, e)),
            changes@.map_values(|c: LineChange| change_view(c)) == want.subrange(0, k as int),
            edits_view(updates@) == edits_view(g.updates@).subrange(0, k as int),
        decreases g.updates.len() - k,
    {
        let u = &g.updates[k];
        let c = LineChange {
            field: String::from_str(u.field.as_str()),
            old: old_text_exec(content, u),
            new: String::from_str(u.replacement.as_str()),
        };
        let ghost cb = changes@;
        let ghost ub = updates@;
        changes.push(c);
        assert(changes@ == cb.push(c));
        assert(changes@.map_values(|c: LineChange| change_view(c)) =~= cb.map_values(|c: LineChange| change_view(c)).push(
            change_view(c),
        ));
        assert(want.subrange(0, k + 1) =~= want.subrange(0, k as int).push(change_view(c)));
        let cu = copy_update(u);
        updates.push(cu);
        assert(updates@ == ub.push(cu));
        assert(edits_view(updates@) =~= edits_view(ub).push(edit_view(cu)));
        assert(edits_view(g.updates@).subrange(0, k + 1) =~= edits_view(g.updates@).subrange(0, k as int).push(edit_view(cu)));
        k += 1;
    }
    assert(want.subrange(0, g.updates@.len() as int) =~= want);
    assert(edits_view(g.updates@).subrange(0, g.updates@.len() as int) =~= edits_view(g.updates@));
    Hunk {
        rule_name: String::from_str(rule_name.as_str()),
        target: match &g.target {
            Some(t) => Some(String::from_str(t.as_str())),
            None => None,
        },
        changes,
        updates,
    }
}

impl FileDiff {
    /// The diff of a file's findings: one hunk per group, rule after rule,
    /// each change with the text it replaces.
    pub fn from_result(fr: &FileResult) -> (r: FileDiff)
        requires
            ranges_within(per_rule_view(fr.updates_per_rule@), encode_utf8(fr.content@).len()),
        ensures
            r.path@ == fr.file_path@,
            r.hunks@.map_values(|h: Hunk| hunk_view(h)) == diff_hunks(
                encode_utf8(fr.content@),
                per_rule_view(fr.updates_per_rule@),
            ),
    {
        let content = bytes_of(fr.content.as_str());
        let ghost v = per_rule_view(fr.updates_per_rule@);
        let mut hunks: Vec<Hunk> = Vec::new();
        let mut i: usize = 0;
        assert(hunks@.map_values(|h: Hunk| hunk_view(h)) =~= Seq::<HunkView>::empty());
        while i < fr.updates_per_rule.len()
            invariant
                i <= fr.updates_per_rule@.len(),
                v == per_rule_view(fr.updates_per_rule@),
                content@ == encode_utf8(fr.content@),
                ranges_within(v, content@.len()),
                hunks@.map_values(|h: Hunk| hunk_view(h)) == diff_hunks(content@, v.subrange(0, i as int)),
            decreases fr.updates_per_rule.len() - i,
        {
            let ghost sub = v.subrange(0, i + 1);
            assert(sub.drop_last() =~= v.subrange(0, i as int));
            let rule_name = &fr.updates_per_rule[i].0;
            let groups = &fr.updates_per_rule[i].1;
            let ghost gv = groups_view(groups@);
            assert(sub.last() == (rule_name@, gv));
            let ghost base = hunks@.map_values(|h: Hunk| hunk_view(h));
            let ghost want = gv.map_values(|g: (Option<Seq<char>>, Seq<EditView>)| hunk_of(content@, rule_name@, g));
            let mut j: usize = 0;
            assert(want.subrange(0, 0) =~= Seq::<HunkView>::empty());
            assert(base + Seq::<HunkView>::empty() =~= base);
            while j < groups.len()
                invariant
                    i < fr.updates_per_rule@.len(),
                    j <= groups@.len(),
                    v == per_rule_view(fr.updates_per_rule@),
                    rule_name == &fr.updates_per_rule@[i as int].0,
                    groups == &fr.updates_per_rule@[i as int].1,
                    gv == groups_view(groups@),
                    content@ == encode_utf8(fr.content@),
                    ranges_within(v, content@.len()),
                    want == gv.map_values(|g: (Option<Seq<char>>, Seq<EditView>)| hunk_of(content@, rule_name@, g)),
                    hunks@.map_values(|h: Hunk| hunk_view(h)) == base + want.subrange(0, j as int),
                decreases groups.len() - j,
            {
                let g = &groups[j];
                assert forall|k: int| 0 <= k < g.updates@.len() implies (#[trigger] g.updates@[k]).range.start
                    <= g.updates@[k].range.end <= content@.len() by {
                    assert(v[i as int].1[j as int].1[k] == edit_view(g.updates@[k]));
                }
                let h = hunk_exec(&content, rule_name, g);
                let ghost hb = hunks@;
                hunks.push(h);
                assert(hunks@ == hb.push(h));
                assert(hunks@.map_values(|h: Hunk| hunk_view(h)) =~= hb.map_values(|h: Hunk| hunk_view(h)).push(
                    hunk_view(h),
                ));
                assert(gv[j as int] == group_view(*g));
                assert(want.subrange(0, j + 1) =~= want.subrange(0, j as int).push(hunk_view(h)));
                j += 1;
            }
            assert(want.subrange(0, groups@.len() as int) =~= want);
            i += 1;
        }
        assert(v.subrange(0, fr.updates_per_rule@.len() as int) =~= v);
        FileDiff { path: String::from_str(fr.file_path.as_str()), hunks }
    }
}

} // verus!
