//! Answers to the per-hunk prompt of interactive mode, in the vocabulary of
//! `git add -p`.
use vstd::prelude::*;

use crate::apply::{copy_update, edit_view, edits_view, EditView};
use crate::rules::traits::Update;
use crate::text::{chars_of, eq_str, trim, trim_exec};

verus! {

/// What the user answered for one hunk.
#[derive(Debug, Clone, Copy, PartialEq, Eq, Structural)]
pub enum Answer {
    /// Apply this hunk.
    Yes,
    /// Skip this hunk.
    No,
    /// Apply this hunk and all remaining ones.
    All,
    /// Apply nothing further.
    Quit,
}

/// The answer a line of input gives, ignoring surrounding whitespace and
/// case; an empty line skips the hunk.
pub open spec fn spec_parse_answer(input: Seq<char>) -> Option<Answer> {
    let t = trim(input);
    if t == seq!['y'] || t == seq!['Y'] {
        Some(Answer::Yes)
    } else if t == seq!['n'] || t == seq!['N'] || t.len() == 0 {
        Some(Answer::No)
    } else if t == seq!['a'] || t == seq!['A'] {
        Some(Answer::All)
    } else if t == seq!['q'] || t == seq!['Q'] {
        Some(Answer::Quit)
    } else {
        None
    }
}

/// Reads one line of input as an answer; `None` for anything else, which
/// calls for the help text and another prompt.
pub fn parse_answer(input: &str) -> (r: Option<Answer>)
    ensures
        r == spec_parse_answer(input@),
{
    let t = trim_exec(&chars_of(input));
    if t.len() == 0 {
        return Some(Answer::No);
    }
    if t.len() != 1 {
        return None;
    }
    let c = t[0];
    assert(t@ =~= seq![c]);
    if c == 'y' || c == 'Y' {
        Some(Answer::Yes)
    } else if c == 'n' || c == 'N' {
        Some(Answer::No)
    } else if c == 'a' || c == 'A' {
        Some(Answer::All)
    } else if c == 'q' || c == 'Q' {
        Some(Answer::Quit)
    } else {
        proof {
            assert(t@ != seq!['y'] && t@ != seq!['Y'] && t@ != seq!['n'] && t@ != seq!['N']);
            assert(t@ != seq!['a'] && t@ != seq!['A'] && t@ != seq!['q'] && t@ != seq!['Q']);
        }
        None
    }
}

/// The hunks accepted so far in interactive mode, per file, and whether
/// every remaining hunk is accepted without asking, or none is.
pub struct HunkSelection {
    /// The updates accepted for each file, in the order of the files.
    pub selected: Vec<Vec<Update>>,
    /// Every remaining hunk is accepted without asking.
    pub accept_all: bool,
    /// Nothing further is applied.
    pub quit: bool,
}

pub open spec fn selected_view(v: Seq<Vec<Update>>) -> Seq<Seq<EditView>> {
    v.map_values(|u: Vec<Update>| edits_view(u@))
}

pub open spec fn selection_view(s: HunkSelection) -> (Seq<Seq<EditView>>, bool, bool) {
    (selected_view(s.selected@), s.accept_all, s.quit)
}

/// Where a selection goes when a hunk with `updates` of file `f` is met
/// and `answer` is given (ignored when every hunk is accepted already).
pub open spec fn spec_take(s: (Seq<Seq<EditView>>, bool, bool), f: int, updates: Seq<EditView>, answer: Answer) -> (
    Seq<Seq<EditView>>,
    bool,
    bool,
) {
    let add = s.0.update(f, s.0[f] + updates);
    if s.1 {
        (add, true, s.2)
    } else {
        match answer {
            Answer::Yes => (add, false, s.2),
            Answer::No => s,
            Answer::All => (add, true, s.2),
            Answer::Quit => (s.0, s.1, true),
        }
    }
}

fn push_all(out: &mut Vec<Update>, us: &Vec<Update>)
    ensures
        edits_view(final(out)@) == edits_view(old(out)@) + edits_view(us@),
{
    let ghost start = edits_view(out@);
    let mut i: usize = 0;
    while i < us.len()
        invariant
            i <= us@.len(),
            edits_view(out@) == start + edits_view(us@).subrange(0, i as int),
        decreases us.len() - i,
    {
        let ghost before = out@;
        let u = copy_update(&us[i]);
        out.push(u);
        assert(out@ == before.push(u));
        assert(edits_view(out@) =~= edits_view(before).push(edit_view(u)));
        assert(edits_view(us@).subrange(0, i + 1) =~= edits_view(us@).subrange(0, i as int).push(edit_view(u)));
        i += 1;
    }
    assert(edits_view(us@).subrange(0, us@.len() as int) =~= edits_view(us@));
}

fn joined_updates(a: &Vec<Update>, b: &Vec<Update>) -> (r: Vec<Update>)
    ensures
        edits_view(r@) == edits_view(a@) + edits_view(b@),
{
    let mut r: Vec<Update> = Vec::new();
    assert(edits_view(r@) =~= Seq::<EditView>::empty());
    push_all(&mut r, a);
    assert(Seq::<EditView>::empty() + edits_view(a@) =~= edits_view(a@));
    push_all(&mut r, b);
    r
}

impl HunkSelection {
    /// Nothing accepted yet, for `n_files` files.
    pub fn new(n_files: usize) -> (r: Self)
        ensures
            selection_view(r) == (Seq::new(n_files as nat, |i: int| Seq::<EditView>::empty()), false, false),
    {
        let mut selected: Vec<Vec<Update>> = Vec::new();
        let mut i: usize = 0;
        while i < n_files
            invariant
                i <= n_files,
                selected@.len() == i,
                forall|j: int| 0 <= j < i ==> (#[trigger] selected@[j])@.len() == 0,
            decreases n_files - i,
        {
            selected.push(Vec::new());
            i += 1;
        }
        assert forall|j: int| 0 <= j < n_files implies #[trigger] selected_view(selected@)[j] == Seq::<EditView>::empty() by {
            assert(selected_view(selected@)[j] == edits_view(selected@[j]@));
            assert(edits_view(selected@[j]@) =~= Seq::<EditView>::empty());
        }
        assert(selected_view(selected@) =~= Seq::new(n_files as nat, |i: int| Seq::<EditView>::empty()));
        HunkSelection { selected, accept_all: false, quit: false }
    }

    /// Whether the next hunk is asked about: not when every remaining hunk
    /// is accepted, nor after quitting.
    pub fn asks(&self) -> (b: bool)
        ensures
            b == (!self.accept_all && !self.quit),
    {
        !self.accept_all && !self.quit
    }

    /// Records the hunk of file `file_idx` with `updates`, given `answer`
    /// (see [`spec_take`]).
    pub fn take(&mut self, file_idx: usize, updates: &Vec<Update>, answer: Answer)
        requires
            file_idx < old(self).selected@.len(),
        ensures
            selection_view(*final(self)) == spec_take(selection_view(*old(self)), file_idx as int, edits_view(updates@), answer),
    {
        let add = self.accept_all || answer == Answer::Yes || answer == Answer::All;
        if add {
            let ghost before = self.selected@;
            let cur = joined_updates(&self.selected[file_idx], updates);
            let ghost cb = edits_view(self.selected@[file_idx as int]@);
            self.selected.set(file_idx, cur);
            assert(selected_view(self.selected@) =~= selected_view(before).update(file_idx as int, cb + edits_view(updates@)));
            if !self.accept_all && answer == Answer::All {
                self.accept_all = true;
            }
        } else if answer == Answer::Quit {
            self.quit = true;
        }
    }
}

/// Once every remaining hunk is accepted, each hunk met is accepted, and
/// the selection stays so.
pub proof fn law_accept_all_takes_every_hunk(s: (Seq<Seq<EditView>>, bool, bool), f: int, updates: Seq<EditView>, answer: Answer)
    requires
        s.1,
        0 <= f < s.0.len(),
    ensures
        spec_take(s, f, updates, answer).0[f] == s.0[f] + updates,
        spec_take(s, f, updates, answer).1,
{
}

/// Skipping a hunk changes nothing.
pub proof fn law_skip_changes_nothing(s: (Seq<Seq<EditView>>, bool, bool), f: int, updates: Seq<EditView>)
    requires
        !s.1,
    ensures
        spec_take(s, f, updates, Answer::No) == s,
{
}

} // verus!
