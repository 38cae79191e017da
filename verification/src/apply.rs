//! Applying updates to the text of a file: sorted by where they start,
//! overlapping ones left out in pairs, and spliced in from the end so that
//! earlier byte offsets stay valid.
use vstd::prelude::*;
use vstd::utf8::encode_utf8;

use crate::rules::traits::{Update, UpdateView};
use crate::utils::patch::bytes_of;

verus! {

// ---------------------------------------------------------------------------
// Specification
// ---------------------------------------------------------------------------

/// An update as the applier sees it: the edit, and the rule that proposed
/// it (named in warnings).
pub struct EditView {
    pub update: UpdateView,
    pub rule_name: Seq<char>,
}

pub open spec fn edit_view(u: Update) -> EditView {
    EditView { update: u@, rule_name: u.rule_name@ }
}

pub open spec fn edits_view(v: Seq<Update>) -> Seq<EditView> {
    v.map_values(|u: Update| edit_view(u))
}

pub open spec fn start_of(e: EditView) -> usize {
    e.update.range.start
}

pub open spec fn end_of(e: EditView) -> usize {
    e.update.range.end
}

/// Where an edit starting at `k` goes in `s`, sorted by start: after every
/// edit that starts at or before `k`.
pub open spec fn after_pos(s: Seq<EditView>, k: usize, j: int) -> int
    decreases s.len() - j,
{
    if j < 0 || j >= s.len() {
        s.len() as int
    } else if k < start_of(s[j]) {
        j
    } else {
        after_pos(s, k, j + 1)
    }
}

/// The first `n` edits sorted by start, equal starts kept in order.
pub open spec fn sorted_by_start(s: Seq<EditView>, n: int) -> Seq<EditView>
    decreases n,
{
    if n <= 0 {
        Seq::empty()
    } else {
        let prev = sorted_by_start(s, n - 1);
        prev.insert(after_pos(prev, start_of(s[n - 1]), 0), s[n - 1])
    }
}

/// The edits kept from the first `n` sorted ones: an edit that starts
/// before the last kept one ends is dropped, and so is that last one.
pub open spec fn kept_edits(s: Seq<EditView>, n: int) -> Seq<EditView>
    decreases n,
{
    if n <= 0 {
        Seq::empty()
    } else {
        let prev = kept_edits(s, n - 1);
        if prev.len() > 0 && start_of(s[n - 1]) < end_of(prev.last()) {
            prev.drop_last()
        } else {
            prev.push(s[n - 1])
        }
    }
}

/// The pairs of overlapping edits met among the first `n` sorted ones, in
/// the order they are met.
pub open spec fn overlapping_edits(s: Seq<EditView>, n: int) -> Seq<(EditView, EditView)>
    decreases n,
{
    if n <= 0 {
        Seq::empty()
    } else {
        let prev = overlapping_edits(s, n - 1);
        let k = kept_edits(s, n - 1);
        if k.len() > 0 && start_of(s[n - 1]) < end_of(k.last()) {
            prev.push((k.last(), s[n - 1]))
        } else {
            prev
        }
    }
}

/// Whether an edit's range does not fit a text of `len` bytes, or is empty.
pub open spec fn range_invalid(len: nat, e: EditView) -> bool {
    start_of(e) >= len || end_of(e) > len || start_of(e) >= end_of(e)
}

/// One edit spliced into `r`, unless its range is invalid.
pub open spec fn splice_step(r: Seq<u8>, e: EditView) -> Seq<u8> {
    if range_invalid(r.len(), e) {
        r
    } else {
        r.subrange(0, start_of(e) as int) + encode_utf8(e.update.replacement) + r.subrange(
            end_of(e) as int,
            r.len() as int,
        )
    }
}

/// `c` with the edits of `ks` spliced in, the last one first.
pub open spec fn spliced(c: Seq<u8>, ks: Seq<EditView>) -> Seq<u8>
    decreases ks.len(),
{
    if ks.len() == 0 {
        c
    } else {
        splice_step(spliced(c, ks.drop_first()), ks[0])
    }
}

/// The edits of `ks` skipped for an invalid range, with the length of the
/// text when each was met, in the order they were met.
pub open spec fn skipped_edits(c: Seq<u8>, ks: Seq<EditView>) -> Seq<(EditView, nat)>
    decreases ks.len(),
{
    if ks.len() == 0 {
        Seq::empty()
    } else {
        let r = spliced(c, ks.drop_first());
        let prev = skipped_edits(c, ks.drop_first());
        if range_invalid(r.len(), ks[0]) {
            prev.push((ks[0], r.len()))
        } else {
            prev
        }
    }
}

/// What applying `updates` to `content` gives: the new text, the
/// overlapping pairs left out, and the updates skipped for a bad range.
pub open spec fn spec_apply(content: Seq<u8>, updates: Seq<EditView>) -> (
    Seq<u8>,
    Seq<(EditView, EditView)>,
    Seq<(EditView, nat)>,
) {
    let sorted = sorted_by_start(updates, updates.len() as int);
    let kept = kept_edits(sorted, sorted.len() as int);
    (spliced(content, kept), overlapping_edits(sorted, sorted.len() as int), skipped_edits(content, kept))
}

/// The result of applying updates to a file's text.
pub struct ApplyOutcome {
    /// The new text.
    pub content: Vec<u8>,
    /// Pairs of updates whose ranges overlap; both were left out.
    pub overlaps: Vec<(Update, Update)>,
    /// Updates left out for a range outside the text or empty, each with
    /// the length of the text at that point.
    pub skipped: Vec<(Update, usize)>,
}

pub open spec fn outcome_view(o: ApplyOutcome) -> (Seq<u8>, Seq<(EditView, EditView)>, Seq<(EditView, nat)>) {
    (
        o.content@,
        o.overlaps@.map_values(|p: (Update, Update)| (edit_view(p.0), edit_view(p.1))),
        o.skipped@.map_values(|p: (Update, usize)| (edit_view(p.0), p.1 as nat)),
    )
}

} // verus!

verus! {

// ---------------------------------------------------------------------------
// Implementation
// ---------------------------------------------------------------------------

fn copy_string(s: &String) -> (r: String)
    ensures
        r@ == s@,
{
    String::from_str(s.as_str())
}

pub(crate) fn copy_update(u: &Update) -> (r: Update)
    ensures
        edit_view(r) == edit_view(*u),
{
    Update {
        field: copy_string(&u.field),
        replacement: copy_string(&u.replacement),
        range: u.range,
        rule_name: copy_string(&u.rule_name),
        target: match &u.target {
            Some(t) => Some(copy_string(t)),
            None => None,
        },
    }
}

fn after_pos_exec(s: &Vec<Update>, k: usize) -> (r: usize)
    ensures
        r as int == after_pos(edits_view(s@), k, 0),
        r <= s@.len(),
{
    let ghost sv = edits_view(s@);
    let mut j: usize = 0;
    while j < s.len()
        invariant
            j <= s@.len(),
            sv == edits_view(s@),
            after_pos(sv, k, 0) == after_pos(sv, k, j as int),
        decreases s.len() - j,
    {
        assert(start_of(sv[j as int]) == s@[j as int].range.start);
        if k < s[j].range.start {
            return j;
        }
        j += 1;
    }
    j
}

/// The updates sorted by start, equal starts kept in order (see
/// [`sorted_by_start`]).
fn sort_by_start(us: &Vec<Update>) -> (r: Vec<Update>)
    ensures
        edits_view(r@) == sorted_by_start(edits_view(us@), us@.len() as int),
{
    let ghost uv = edits_view(us@);
    let mut out: Vec<Update> = Vec::new();
    let mut k: usize = 0;
    while k < us.len()
        invariant
            k <= us@.len(),
            uv == edits_view(us@),
            edits_view(out@) == sorted_by_start(uv, k as int),
        decreases us.len() - k,
    {
        let ghost before = out@;
        let pos = after_pos_exec(&out, us[k].range.start);
        let item = copy_update(&us[k]);
        assert(edit_view(item) == uv[k as int]);
        out.insert(pos, item);
        assert(out@ == before.insert(pos as int, item));
        assert(edits_view(out@) =~= edits_view(before).insert(pos as int, edit_view(item)));
        k += 1;
    }
    out
}

pub open spec fn pairs_view(v: Seq<(Update, Update)>) -> Seq<(EditView, EditView)> {
    v.map_values(|p: (Update, Update)| (edit_view(p.0), edit_view(p.1)))
}

/// The sorted updates that do not overlap, and the overlapping pairs (see
/// [`kept_edits`] and [`overlapping_edits`]).
fn drop_overlaps(sorted: &Vec<Update>) -> (r: (Vec<Update>, Vec<(Update, Update)>))
    ensures
        edits_view(r.0@) == kept_edits(edits_view(sorted@), sorted@.len() as int),
        pairs_view(r.1@) == overlapping_edits(edits_view(sorted@), sorted@.len() as int),
{
    let ghost sv = edits_view(sorted@);
    let mut kept: Vec<Update> = Vec::new();
    let mut pairs: Vec<(Update, Update)> = Vec::new();
    let mut k: usize = 0;
    while k < sorted.len()
        invariant
            k <= sorted@.len(),
            sv == edits_view(sorted@),
            edits_view(kept@) == kept_edits(sv, k as int),
            pairs_view(pairs@) == overlapping_edits(sv, k as int),
        decreases sorted.len() - k,
    {
        let ghost kb = kept@;
        let ghost pb = pairs@;
        assert(sv[k as int] == edit_view(sorted@[k as int]));
        let n = kept.len();
        if n > 0 && sorted[k].range.start < kept[n - 1].range.end {
            assert(edits_view(kb).last() == edit_view(kb[n - 1]));
            let last = kept.pop().unwrap();
            assert(kept@ == kb.drop_last());
            assert(edits_view(kept@) =~= edits_view(kb).drop_last());
            let pair = (last, copy_update(&sorted[k]));
            pairs.push(pair);
            assert(pairs@ == pb.push(pair));
            assert(pairs_view(pairs@) =~= pairs_view(pb).push((edit_view(pair.0), edit_view(pair.1))));
        } else {
            let item = copy_update(&sorted[k]);
            kept.push(item);
            assert(kept@ == kb.push(item));
            assert(edits_view(kept@) =~= edits_view(kb).push(edit_view(item)));
        }
        k += 1;
    }
    (kept, pairs)
}

fn splice(r: &Vec<u8>, start: usize, end: usize, replacement: &Vec<u8>) -> (out: Vec<u8>)
    requires
        start <= end <= r@.len(),
    ensures
        out@ == r@.subrange(0, start as int) + replacement@ + r@.subrange(end as int, r@.len() as int),
{
    let mut out: Vec<u8> = Vec::new();
    let mut i: usize = 0;
    while i < start
        invariant
            i <= start <= end <= r@.len(),
            out@ == r@.subrange(0, i as int),
        decreases start - i,
    {
        out.push(r[i]);
        assert(r@.subrange(0, i + 1) =~= r@.subrange(0, i as int).push(r@[i as int]));
        i += 1;
    }
    let mut j: usize = 0;
    while j < replacement.len()
        invariant
            j <= replacement@.len(),
            out@ == r@.subrange(0, start as int) + replacement@.subrange(0, j as int),
        decreases replacement.len() - j,
    {
        out.push(replacement[j]);
        assert(replacement@.subrange(0, j + 1) =~= replacement@.subrange(0, j as int).push(replacement@[j as int]));
        j += 1;
    }
    assert(replacement@.subrange(0, replacement@.len() as int) =~= replacement@);
    let mut k: usize = end;
    while k < r.len()
        invariant
            end <= k <= r@.len(),
            out@ == r@.subrange(0, start as int) + replacement@ + r@.subrange(end as int, k as int),
        decreases r.len() - k,
    {
        out.push(r[k]);
        assert(r@.subrange(end as int, k + 1) =~= r@.subrange(end as int, k as int).push(r@[k as int]));
        k += 1;
    }
    out
}

pub open spec fn skipped_view(v: Seq<(Update, usize)>) -> Seq<(EditView, nat)> {
    v.map_values(|p: (Update, usize)| (edit_view(p.0), p.1 as nat))
}

/// Applies updates to a file's text (see [`spec_apply`]): sorted by start,
/// overlapping pairs left out, the rest spliced in from the last one, each
/// skipped when its range does not fit the text as it stands.
pub fn apply_updates(content: &str, updates: &Vec<Update>) -> (r: ApplyOutcome)
    ensures
        outcome_view(r) == spec_apply(encode_utf8(content@), edits_view(updates@)),
{
    let sorted = sort_by_start(updates);
    let (kept, overlaps) = drop_overlaps(&sorted);
    let ghost c = encode_utf8(content@);
    let ghost ks = edits_view(kept@);
    let mut result = bytes_of(content);
    let mut skipped: Vec<(Update, usize)> = Vec::new();
    let mut i: usize = kept.len();
    assert(ks.subrange(i as int, ks.len() as int) =~= Seq::<EditView>::empty());
    while i > 0
        invariant
            i <= kept@.len(),
            ks == edits_view(kept@),
            result@ == spliced(c, ks.subrange(i as int, ks.len() as int)),
            skipped_view(skipped@) == skipped_edits(c, ks.subrange(i as int, ks.len() as int)),
        decreases i,
    {
        i -= 1;
        let ghost rest = ks.subrange(i + 1, ks.len() as int);
        let ghost cur = ks.subrange(i as int, ks.len() as int);
        assert(cur.drop_first() =~= rest);
        assert(cur[0] == edit_view(kept@[i as int]));
        let u = &kept[i];
        let start = u.range.start;
        let end = u.range.end;
        let len = result.len();
        if start >= len || end > len || start >= end {
            let ghost sb = skipped@;
            let item = (copy_update(u), len);
            skipped.push(item);
            assert(skipped@ == sb.push(item));
            assert(skipped_view(skipped@) =~= skipped_view(sb).push((edit_view(item.0), len as nat)));
        } else {
            let rep = bytes_of(u.replacement.as_str());
            result = splice(&result, start, end, &rep);
        }
    }
    assert(ks.subrange(0, ks.len() as int) =~= ks);
    ApplyOutcome { content: result, overlaps, skipped }
}

} // verus!

verus! {

// ---------------------------------------------------------------------------
// Laws
// ---------------------------------------------------------------------------

/// Edits in order of their ranges, which do not overlap, are not empty and
/// lie inside a text of `len` bytes.
pub open spec fn in_order_disjoint(len: nat, s: Seq<EditView>) -> bool {
    &&& forall|i: int| 0 <= i < s.len() ==> start_of(#[trigger] s[i]) < end_of(s[i]) <= len
    &&& forall|i: int, j: int| 0 <= i < j < s.len() ==> end_of(#[trigger] s[i]) <= start_of(#[trigger] s[j])
}

proof fn lemma_after_pos_end(s: Seq<EditView>, k: usize, j: int)
    requires
        0 <= j <= s.len(),
        forall|i: int| j <= i < s.len() ==> start_of(#[trigger] s[i]) <= k,
    ensures
        after_pos(s, k, j) == s.len(),
    decreases s.len() - j,
{
    if j < s.len() {
        lemma_after_pos_end(s, k, j + 1);
    }
}

proof fn lemma_sorted_identity(s: Seq<EditView>, n: int)
    requires
        0 <= n <= s.len(),
        forall|i: int, j: int| 0 <= i < j < s.len() ==> start_of(#[trigger] s[i]) <= start_of(#[trigger] s[j]),
    ensures
        sorted_by_start(s, n) == s.subrange(0, n),
    decreases n,
{
    if n > 0 {
        lemma_sorted_identity(s, n - 1);
        let prev = s.subrange(0, n - 1);
        assert forall|i: int| 0 <= i < prev.len() implies start_of(#[trigger] prev[i]) <= start_of(s[n - 1]) by {
            assert(prev[i] == s[i]);
        }
        lemma_after_pos_end(prev, start_of(s[n - 1]), 0);
        assert(prev.insert(n - 1, s[n - 1]) =~= s.subrange(0, n));
    }
}

proof fn lemma_kept_all(s: Seq<EditView>, n: int)
    requires
        0 <= n <= s.len(),
        forall|i: int, j: int| 0 <= i < j < s.len() ==> end_of(#[trigger] s[i]) <= start_of(#[trigger] s[j]),
    ensures
        kept_edits(s, n) == s.subrange(0, n),
        overlapping_edits(s, n).len() == 0,
    decreases n,
{
    if n > 0 {
        lemma_kept_all(s, n - 1);
        if n > 1 {
            assert(s.subrange(0, n - 1).last() == s[n - 2]);
            assert(end_of(s[n - 2]) <= start_of(s[n - 1]));
        }
        assert(s.subrange(0, n - 1).push(s[n - 1]) =~= s.subrange(0, n));
    }
}

proof fn lemma_spliced_all_valid(c: Seq<u8>, ks: Seq<EditView>)
    requires
        in_order_disjoint(c.len(), ks),
    ensures
        skipped_edits(c, ks).len() == 0,
        spliced(c, ks).len() >= if ks.len() == 0 {
            c.len() as int
        } else {
            start_of(ks[0]) as int
        },
    decreases ks.len(),
{
    if ks.len() > 0 {
        let rest = ks.drop_first();
        assert forall|i: int| 0 <= i < rest.len() implies start_of(#[trigger] rest[i]) < end_of(rest[i]) <= c.len() by {
            assert(rest[i] == ks[i + 1]);
        }
        assert forall|i: int, j: int| 0 <= i < j < rest.len() implies end_of(#[trigger] rest[i]) <= start_of(
            #[trigger] rest[j],
        ) by {
            assert(rest[i] == ks[i + 1] && rest[j] == ks[j + 1]);
        }
        lemma_spliced_all_valid(c, rest);
        if rest.len() > 0 {
            assert(rest[0] == ks[1]);
            assert(end_of(ks[0]) <= start_of(ks[1]));
        }
        assert(start_of(ks[0]) < end_of(ks[0]) <= c.len());
    }
}

/// Updates whose ranges are in order, do not overlap, are not empty and lie
/// inside the text are all applied: none is reported as overlapping or
/// skipped, and each is spliced in.
pub proof fn law_disjoint_updates_all_apply(content: Seq<u8>, updates: Seq<EditView>)
    requires
        in_order_disjoint(content.len(), updates),
    ensures
        spec_apply(content, updates).1.len() == 0,
        spec_apply(content, updates).2.len() == 0,
        spec_apply(content, updates).0 == spliced(content, updates),
{
    assert forall|i: int, j: int| 0 <= i < j < updates.len() implies start_of(#[trigger] updates[i]) <= start_of(
        #[trigger] updates[j],
    ) by {
        assert(start_of(updates[i]) < end_of(updates[i]) <= start_of(updates[j]));
    }
    lemma_sorted_identity(updates, updates.len() as int);
    assert(updates.subrange(0, updates.len() as int) =~= updates);
    lemma_kept_all(updates, updates.len() as int);
    lemma_spliced_all_valid(content, updates);
}

/// A single update inside the text replaces exactly its range.
pub proof fn law_single_update_replaces_range(content: Seq<u8>, u: EditView)
    requires
        start_of(u) < end_of(u) <= content.len(),
    ensures
        spec_apply(content, seq![u]) == (
            content.subrange(0, start_of(u) as int) + encode_utf8(u.update.replacement) + content.subrange(
                end_of(u) as int,
                content.len() as int,
            ),
            Seq::<(EditView, EditView)>::empty(),
            Seq::<(EditView, nat)>::empty(),
        ),
{
    let s = seq![u];
    assert(sorted_by_start(s, 0) =~= Seq::<EditView>::empty());
    assert(Seq::<EditView>::empty().insert(0, u) =~= s);
    assert(sorted_by_start(s, 1) == s);
    assert(kept_edits(s, 0) =~= Seq::<EditView>::empty());
    assert(kept_edits(s, 1) =~= s);
    assert(s.drop_first() =~= Seq::<EditView>::empty());
    assert(spliced(content, Seq::<EditView>::empty()) == content);
    assert(skipped_edits(content, Seq::<EditView>::empty()) =~= Seq::<(EditView, nat)>::empty());
    assert(spliced(content, s) == splice_step(content, u));
    assert(skipped_edits(content, s) =~= Seq::<(EditView, nat)>::empty());
    assert(overlapping_edits(s, 0) =~= Seq::<(EditView, EditView)>::empty());
    assert(overlapping_edits(s, 1) =~= Seq::<(EditView, EditView)>::empty());
}

/// Two updates whose ranges overlap are both left out, and the text stays
/// as it was.
pub proof fn law_overlapping_pair_left_out(content: Seq<u8>, a: EditView, b: EditView)
    requires
        start_of(a) <= start_of(b) < end_of(a),
    ensures
        spec_apply(content, seq![a, b]).0 == content,
        spec_apply(content, seq![a, b]).1 == seq![(a, b)],
        spec_apply(content, seq![a, b]).2.len() == 0,
{
    let s = seq![a, b];
    assert(sorted_by_start(s, 0) =~= Seq::<EditView>::empty());
    assert(Seq::<EditView>::empty().insert(0, a) =~= seq![a]);
    assert(sorted_by_start(s, 1) == seq![a]);
    assert(after_pos(seq![a], start_of(b), 1) == 1);
    assert(after_pos(seq![a], start_of(b), 0) == 1);
    assert(seq![a].insert(1, b) =~= s);
    assert(sorted_by_start(s, 2) == s);
    assert(kept_edits(s, 0) =~= Seq::<EditView>::empty());
    assert(kept_edits(s, 1) =~= seq![a]);
    assert(kept_edits(s, 2) =~= Seq::<EditView>::empty());
    assert(overlapping_edits(s, 0) =~= Seq::<(EditView, EditView)>::empty());
    assert(overlapping_edits(s, 1) =~= Seq::<(EditView, EditView)>::empty());
    assert(overlapping_edits(s, 2) =~= seq![(a, b)]);
}

} // verus!

verus! {

// ---------------------------------------------------------------------------
// Order does not matter
// ---------------------------------------------------------------------------

/// Edits whose ranges are not empty, lie inside a text of `len` bytes, and
/// do not overlap one another, in any order.
pub open spec fn disjoint_edits(len: nat, s: Seq<EditView>) -> bool {
    &&& forall|i: int| 0 <= i < s.len() ==> start_of(#[trigger] s[i]) < end_of(s[i]) <= len
    &&& forall|i: int, j: int|
        0 <= i < s.len() && 0 <= j < s.len() && i != j ==> end_of(#[trigger] s[i]) <= start_of(#[trigger] s[j])
            || end_of(s[j]) <= start_of(s[i])
}

pub open spec fn nondecreasing(s: Seq<EditView>) -> bool {
    forall|i: int, j: int| 0 <= i <= j < s.len() ==> start_of(#[trigger] s[i]) <= start_of(#[trigger] s[j])
}

proof fn lemma_after_pos_split(s: Seq<EditView>, k: usize, j: int)
    requires
        0 <= j <= s.len(),
        nondecreasing(s),
    ensures
        j <= after_pos(s, k, j) <= s.len(),
        forall|i: int| j <= i < after_pos(s, k, j) ==> start_of(#[trigger] s[i]) <= k,
        forall|i: int| after_pos(s, k, j) <= i < s.len() ==> k < start_of(#[trigger] s[i]),
    decreases s.len() - j,
{
    if j < s.len() {
        if k < start_of(s[j]) {
            assert forall|i: int| j <= i < s.len() implies k < start_of(#[trigger] s[i]) by {
                assert(start_of(s[j]) <= start_of(s[i]));
            }
        } else {
            lemma_after_pos_split(s, k, j + 1);
        }
    }
}

proof fn lemma_sorted_by_start(u: Seq<EditView>, n: int)
    requires
        0 <= n <= u.len(),
    ensures
        nondecreasing(sorted_by_start(u, n)),
        sorted_by_start(u, n).to_multiset() == u.subrange(0, n).to_multiset(),
        sorted_by_start(u, n).len() == n,
    decreases n,
{
    broadcast use vstd::seq_lib::group_to_multiset_ensures;

    if n == 0 {
        assert(u.subrange(0, 0) =~= Seq::<EditView>::empty());
        assert(sorted_by_start(u, 0) =~= Seq::<EditView>::empty());
    } else {
        lemma_sorted_by_start(u, n - 1);
        let prev = sorted_by_start(u, n - 1);
        let x = u[n - 1];
        let k = start_of(x);
        lemma_after_pos_split(prev, k, 0);
        let p = after_pos(prev, k, 0);
        let s = prev.insert(p, x);
        prev.insert_ensures(p, x);
        assert forall|i: int, j: int| 0 <= i <= j < s.len() implies start_of(#[trigger] s[i]) <= start_of(
            #[trigger] s[j],
        ) by {
            let si = if i < p {
                prev[i]
            } else if i == p {
                x
            } else {
                prev[i - 1]
            };
            let sj = if j < p {
                prev[j]
            } else if j == p {
                x
            } else {
                prev[j - 1]
            };
            if i < p {
                assert(s[i] == prev[i]);
            } else if i > p {
                assert(s[(i - 1) + 1] == prev[i - 1]);
            }
            if j < p {
                assert(s[j] == prev[j]);
            } else if j > p {
                assert(s[(j - 1) + 1] == prev[j - 1]);
            }
            assert(s[i] == si && s[j] == sj);
        }
        assert(u.subrange(0, n) =~= u.subrange(0, n - 1).push(x));
    }
}

proof fn lemma_two_indices_count(s: Seq<EditView>, i: int, j: int)
    requires
        0 <= i < s.len(),
        0 <= j < s.len(),
        i != j,
        s[i] == s[j],
    ensures
        s.to_multiset().count(s[i]) >= 2,
{
    broadcast use vstd::seq_lib::group_to_multiset_ensures, vstd::multiset::group_multiset_axioms;

    let r = s.remove(i);
    let jj = if j < i {
        j
    } else {
        j - 1
    };
    assert(r[jj] == s[j]);
    assert(r.contains(s[i]));
    assert(r.to_multiset().count(s[i]) > 0);
}

proof fn lemma_count_two_indices(s: Seq<EditView>, x: EditView)
    requires
        s.to_multiset().count(x) >= 2,
    ensures
        exists|i: int, j: int| 0 <= i < s.len() && 0 <= j < s.len() && i != j && s[i] == x && s[j] == x,
{
    broadcast use vstd::seq_lib::group_to_multiset_ensures, vstd::multiset::group_multiset_axioms;

    assert(s.contains(x));
    let i = choose|i: int| 0 <= i < s.len() && s[i] == x;
    let r = s.remove(i);
    assert(r.to_multiset().count(x) > 0);
    assert(r.contains(x));
    let q = choose|q: int| 0 <= q < r.len() && r[q] == x;
    let j = if q < i {
        q
    } else {
        q + 1
    };
    assert(s[j] == r[q]);
}

proof fn lemma_same_multiset_disjoint(len: nat, u: Seq<EditView>, s: Seq<EditView>)
    requires
        disjoint_edits(len, u),
        s.to_multiset() == u.to_multiset(),
    ensures
        disjoint_edits(len, s),
{
    broadcast use vstd::seq_lib::group_to_multiset_ensures;

    assert forall|i: int| 0 <= i < s.len() implies start_of(#[trigger] s[i]) < end_of(s[i]) <= len by {
        assert(s.contains(s[i]));
        assert(s.to_multiset().count(s[i]) > 0);
        assert(u.to_multiset().count(s[i]) > 0);
        assert(u.contains(s[i]));
        let p = choose|p: int| 0 <= p < u.len() && u[p] == s[i];
        assert(start_of(u[p]) < end_of(u[p]) <= len);
    }
    assert forall|i: int, j: int|
        0 <= i < s.len() && 0 <= j < s.len() && i != j implies end_of(#[trigger] s[i]) <= start_of(#[trigger] s[j])
            || end_of(s[j]) <= start_of(s[i]) by {
        assert(s.contains(s[i]) && s.contains(s[j]));
        assert(s.to_multiset().count(s[i]) > 0 && s.to_multiset().count(s[j]) > 0);
        assert(u.to_multiset().count(s[i]) > 0 && u.to_multiset().count(s[j]) > 0);
        assert(u.contains(s[i]) && u.contains(s[j]));
        if s[i] == s[j] {
            lemma_two_indices_count(s, i, j);
            lemma_count_two_indices(u, s[i]);
            let (p, q) = choose|p: int, q: int| 0 <= p < u.len() && 0 <= q < u.len() && p != q && u[p] == s[i] && u[q] == s[i];
            assert(end_of(u[p]) <= start_of(u[q]) || end_of(u[q]) <= start_of(u[p]));
            assert(start_of(u[p]) < end_of(u[p]));
        } else {
            let p = choose|p: int| 0 <= p < u.len() && u[p] == s[i];
            let q = choose|q: int| 0 <= q < u.len() && u[q] == s[j];
            assert(p != q);
            assert(end_of(u[p]) <= start_of(u[q]) || end_of(u[q]) <= start_of(u[p]));
        }
    }
}

proof fn lemma_sorted_disjoint_in_order(len: nat, s: Seq<EditView>)
    requires
        disjoint_edits(len, s),
        nondecreasing(s),
    ensures
        in_order_disjoint(len, s),
{
    assert forall|i: int, j: int| 0 <= i < j < s.len() implies end_of(#[trigger] s[i]) <= start_of(#[trigger] s[j]) by {
        assert(start_of(s[i]) <= start_of(s[j]));
        assert(end_of(s[i]) <= start_of(s[j]) || end_of(s[j]) <= start_of(s[i]));
        assert(start_of(s[j]) < end_of(s[j]));
    }
}

proof fn lemma_in_order_unique(len: nat, a: Seq<EditView>, b: Seq<EditView>)
    requires
        in_order_disjoint(len, a),
        in_order_disjoint(len, b),
        a.to_multiset() == b.to_multiset(),
    ensures
        a == b,
    decreases a.len(),
{
    broadcast use vstd::seq_lib::group_to_multiset_ensures, vstd::multiset::group_multiset_axioms;

    vstd::seq_lib::to_multiset_len(a);
    vstd::seq_lib::to_multiset_len(b);
    assert(a.len() == b.len());
    if a.len() > 0 {
        assert(a.contains(a[0]));
        assert(a.to_multiset().count(a[0]) > 0);
        assert(b.to_multiset().count(a[0]) > 0);
        assert(b.contains(a[0]));
        let k = choose|k: int| 0 <= k < b.len() && b[k] == a[0];
        assert(b.contains(b[0]));
        assert(b.to_multiset().count(b[0]) > 0);
        assert(a.to_multiset().count(b[0]) > 0);
        assert(a.contains(b[0]));
        let m = choose|m: int| 0 <= m < a.len() && a[m] == b[0];
        if k > 0 {
            assert(end_of(b[0]) <= start_of(b[k]));
            assert(start_of(b[0]) < end_of(b[0]));
        }
        if m > 0 {
            assert(end_of(a[0]) <= start_of(a[m]));
            assert(start_of(a[0]) < end_of(a[0]));
        }
        assert(start_of(a[0]) <= start_of(b[0]) || m == 0);
        assert(k == 0 || m == 0);
        assert(a[0] == b[0]);
        let a1 = a.remove(0);
        let b1 = b.remove(0);
        assert(a1.to_multiset() == b1.to_multiset());
        assert forall|i: int| 0 <= i < a1.len() implies start_of(#[trigger] a1[i]) < end_of(a1[i]) <= len by {
            assert(a1[i] == a[i + 1]);
        }
        assert forall|i: int, j: int| 0 <= i < j < a1.len() implies end_of(#[trigger] a1[i]) <= start_of(#[trigger] a1[j]) by {
            assert(a1[i] == a[i + 1] && a1[j] == a[j + 1]);
        }
        assert forall|i: int| 0 <= i < b1.len() implies start_of(#[trigger] b1[i]) < end_of(b1[i]) <= len by {
            assert(b1[i] == b[i + 1]);
        }
        assert forall|i: int, j: int| 0 <= i < j < b1.len() implies end_of(#[trigger] b1[i]) <= start_of(#[trigger] b1[j]) by {
            assert(b1[i] == b[i + 1] && b1[j] == b[j + 1]);
        }
        lemma_in_order_unique(len, a1, b1);
        assert(a =~= seq![a[0]] + a1);
        assert(b =~= seq![b[0]] + b1);
    } else {
        assert(a =~= b);
    }
}

/// Updates whose ranges are not empty, lie inside the text and do not
/// overlap give the same text in whatever order they are listed: the same
/// multiset of updates gives the same outcome, none of them left out.
pub proof fn law_update_order_does_not_matter(content: Seq<u8>, u1: Seq<EditView>, u2: Seq<EditView>)
    requires
        disjoint_edits(content.len(), u1),
        u2.to_multiset() == u1.to_multiset(),
    ensures
        spec_apply(content, u1) == spec_apply(content, u2),
        spec_apply(content, u1).1.len() == 0,
        spec_apply(content, u1).2.len() == 0,
{
    lemma_same_multiset_disjoint(content.len(), u1, u2);
    lemma_sorted_by_start(u1, u1.len() as int);
    lemma_sorted_by_start(u2, u2.len() as int);
    assert(u1.subrange(0, u1.len() as int) =~= u1);
    assert(u2.subrange(0, u2.len() as int) =~= u2);
    let s1 = sorted_by_start(u1, u1.len() as int);
    let s2 = sorted_by_start(u2, u2.len() as int);
    lemma_same_multiset_disjoint(content.len(), u1, s1);
    lemma_same_multiset_disjoint(content.len(), u1, s2);
    lemma_sorted_disjoint_in_order(content.len(), s1);
    lemma_sorted_disjoint_in_order(content.len(), s2);
    lemma_in_order_unique(content.len(), s1, s2);
    lemma_kept_all(s1, s1.len() as int);
    assert(s1.subrange(0, s1.len() as int) =~= s1);
    lemma_spliced_all_valid(content, s1);
}

} // verus!
