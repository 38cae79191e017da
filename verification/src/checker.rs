//! What checking one file found: the groups of updates each rule proposed,
//! and the warnings.
use vstd::prelude::*;

use crate::apply::{copy_update, edit_view, edits_view, EditView};
use crate::rules::traits::{CheckWarning, Update, UpdateGroup};
use crate::utils::fetch::opt_string_view;

verus! {

/// The findings of the rules for one file.
pub struct FileResult {
    pub file_path: String,
    pub content: String,
    /// Each rule that proposed updates, with its groups, in the order found.
    pub updates_per_rule: Vec<(String, Vec<UpdateGroup>)>,
    pub warnings: Vec<CheckWarning>,
}

/// A group as plain values: what it is about, and its updates.
pub open spec fn group_view(g: UpdateGroup) -> (Option<Seq<char>>, Seq<EditView>) {
    (opt_string_view(g.target), edits_view(g.updates@))
}

pub open spec fn groups_view(gs: Seq<UpdateGroup>) -> Seq<(Option<Seq<char>>, Seq<EditView>)> {
    gs.map_values(|g: UpdateGroup| group_view(g))
}

pub open spec fn per_rule_view(v: Seq<(String, Vec<UpdateGroup>)>) -> Seq<(Seq<char>, Seq<(Option<Seq<char>>, Seq<EditView>)>)> {
    v.map_values(|p: (String, Vec<UpdateGroup>)| (p.0@, groups_view(p.1@)))
}

/// The updates of the groups, in order.
pub open spec fn group_updates(gs: Seq<(Option<Seq<char>>, Seq<EditView>)>) -> Seq<EditView>
    decreases gs.len(),
{
    if gs.len() == 0 {
        Seq::empty()
    } else {
        group_updates(gs.drop_last()) + gs.last().1
    }
}

/// The updates of every rule, in order.
pub open spec fn rule_updates(v: Seq<(Seq<char>, Seq<(Option<Seq<char>>, Seq<EditView>)>)>) -> Seq<EditView>
    decreases v.len(),
{
    if v.len() == 0 {
        Seq::empty()
    } else {
        rule_updates(v.drop_last()) + group_updates(v.last().1)
    }
}

/// An edit credited to `rule_name`.
pub open spec fn named(e: EditView, rule_name: Seq<char>) -> EditView {
    EditView { rule_name, ..e }
}

/// Groups whose updates are all credited to `rule_name`.
pub open spec fn named_groups(gs: Seq<(Option<Seq<char>>, Seq<EditView>)>, rule_name: Seq<char>) -> Seq<
    (Option<Seq<char>>, Seq<EditView>),
> {
    gs.map_values(
        |g: (Option<Seq<char>>, Seq<EditView>)| (g.0, g.1.map_values(|e: EditView| named(e, rule_name))),
    )
}

fn append_updates(out: &mut Vec<Update>, us: &Vec<Update>)
    ensures
        edits_view(final(out)@) == edits_view(old(out)@) + edits_view(us@),
{
    let ghost start = edits_view(out@);
    let mut i: usize = 0;
    while i < us.len()
        invariant
            i <= us@.len(),
            edits_view(out@) == start + edits_view(us@).subrange(0, i as int),
        decreases us.len() - i,
    {
        let ghost before = out@;
        let u = copy_update(&us[i]);
        out.push(u);
        assert(out@ == before.push(u));
        assert(edits_view(out@) =~= edits_view(before).push(edit_view(u)));
        assert(edits_view(us@).subrange(0, i + 1) =~= edits_view(us@).subrange(0, i as int).push(edit_view(us@[i as int])));
        i += 1;
    }
    assert(edits_view(us@).subrange(0, us@.len() as int) =~= edits_view(us@));
}

fn groups_updates_exec(out: &mut Vec<Update>, gs: &Vec<UpdateGroup>)
    ensures
        edits_view(final(out)@) == edits_view(old(out)@) + group_updates(groups_view(gs@)),
{
    let ghost start = edits_view(out@);
    let ghost gv = groups_view(gs@);
    let mut i: usize = 0;
    assert(group_updates(gv.subrange(0, 0)) =~= Seq::<EditView>::empty());
    assert(start + Seq::<EditView>::empty() =~= start);
    while i < gs.len()
        invariant
            i <= gs@.len(),
            gv == groups_view(gs@),
            edits_view(out@) == start + group_updates(gv.subrange(0, i as int)),
        decreases gs.len() - i,
    {
        let ghost sub = gv.subrange(0, i + 1);
        assert(sub.drop_last() =~= gv.subrange(0, i as int));
        assert(sub.last() == group_view(gs@[i as int]));
        append_updates(out, &gs[i].updates);
        assert(edits_view(out@) =~= start + group_updates(sub));
        i += 1;
    }
    assert(gv.subrange(0, gs@.len() as int) =~= gv);
}

impl FileResult {
    /// Every update found, rule after rule and group after group.
    pub fn all_updates(&self) -> (r: Vec<Update>)
        ensures
            edits_view(r@) == rule_updates(per_rule_view(self.updates_per_rule@)),
    {
        let ghost v = per_rule_view(self.updates_per_rule@);
        let mut out: Vec<Update> = Vec::new();
        let mut i: usize = 0;
        assert(rule_updates(v.subrange(0, 0)) =~= Seq::<EditView>::empty());
        assert(edits_view(out@) =~= Seq::<EditView>::empty());
        while i < self.updates_per_rule.len()
            invariant
                i <= self.updates_per_rule@.len(),
                v == per_rule_view(self.updates_per_rule@),
                edits_view(out@) == rule_updates(v.subrange(0, i as int)),
            decreases self.updates_per_rule.len() - i,
        {
            let ghost sub = v.subrange(0, i + 1);
            assert(sub.drop_last() =~= v.subrange(0, i as int));
            assert(sub.last().1 == groups_view(self.updates_per_rule@[i as int].1@));
            groups_updates_exec(&mut out, &self.updates_per_rule[i].1);
            i += 1;
        }
        assert(v.subrange(0, self.updates_per_rule@.len() as int) =~= v);
        out
    }
}

fn name_updates(us: Vec<Update>, rule_name: &str) -> (r: Vec<Update>)
    ensures
        edits_view(r@) == edits_view(us@).map_values(|e: EditView| named(e, rule_name@)),
{
    let ghost want = edits_view(us@).map_values(|e: EditView| named(e, rule_name@));
    let mut out: Vec<Update> = Vec::new();
    let mut i: usize = 0;
    while i < us.len()
        invariant
            i <= us@.len(),
            want == edits_view(us@).map_values(|e: EditView| named(e, rule_name@)),
            edits_view(out@) == want.subrange(0, i as int),
        decreases us.len() - i,
    {
        let ghost before = out@;
        let mut u = copy_update(&us[i]);
        u.rule_name = String::from_str(rule_name);
        out.push(u);
        assert(out@ == before.push(u));
        assert(edits_view(out@) =~= edits_view(before).push(edit_view(u)));
        assert(want.subrange(0, i + 1) =~= want.subrange(0, i as int).push(edit_view(u)));
        i += 1;
    }
    assert(want.subrange(0, us@.len() as int) =~= want);
    out
}

/// Records the groups a rule proposed at one node: every update is
/// credited to the rule, and nothing is recorded when there is no group.
pub fn record_rule_groups(results: &mut Vec<(String, Vec<UpdateGroup>)>, rule_name: &str, groups: Vec<UpdateGroup>)
    ensures
        per_rule_view(final(results)@) == if groups@.len() == 0 {
            per_rule_view(old(results)@)
        } else {
            per_rule_view(old(results)@).push((rule_name@, named_groups(groups_view(groups@), rule_name@)))
        },
{
    if groups.len() == 0 {
        return;
    }
    let ghost gv = groups_view(groups@);
    let ghost want = named_groups(gv, rule_name@);
    let mut named_gs: Vec<UpdateGroup> = Vec::new();
    let rest = groups;
    let ghost orig = rest@;
    let mut k: usize = 0;
    while k < rest.len()
        invariant
            k <= orig.len(),
            gv == groups_view(orig),
            want == named_groups(gv, rule_name@),
            rest@ == orig,
            groups_view(named_gs@) == want.subrange(0, k as int),
        decreases rest.len() - k,
    {
        let ghost before = named_gs@;
        let g = &rest[k];
        let t = match &g.target {
            Some(t) => Some(String::from_str(t.as_str())),
            None => None,
        };
        let mut copies: Vec<Update> = Vec::new();
        append_updates(&mut copies, &g.updates);
        assert(edits_view(Seq::<Update>::empty()) =~= Seq::<EditView>::empty());
        assert(edits_view(copies@) =~= edits_view(g.updates@));
        let ng = UpdateGroup { updates: name_updates(copies, rule_name), target: t };
        named_gs.push(ng);
        assert(named_gs@ == before.push(ng));
        assert(groups_view(named_gs@) =~= groups_view(before).push(group_view(ng)));
        assert(group_view(ng) == want[k as int]);
        assert(want.subrange(0, k + 1) =~= want.subrange(0, k as int).push(want[k as int]));
        k += 1;
    }
    assert(want.subrange(0, orig.len() as int) =~= want);
    let ghost rb = results@;
    let entry = (String::from_str(rule_name), named_gs);
    results.push(entry);
    assert(results@ == rb.push(entry));
    assert(per_rule_view(results@) =~= per_rule_view(rb).push((rule_name@, want)));
}

} // verus!
