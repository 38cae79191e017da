//! Remote git refs: the `git ls-remote` command line, the parse of its
//! output, and the choices made from the refs it lists (latest tag, the
//! commit of a branch, the commit of a tag).
//!
//! Running `git` is left to the caller; everything here works on the
//! command's arguments and its standard output.
use vstd::prelude::*;

use crate::text::{
    chars_of, ends_with, eq_str, find, find_exec, lemma_find_char, lemma_find_from, slice_vec, split_once,
    split_once_exec, strip_prefix, strip_prefix_exec, to_string,
};
use crate::utils::version::{latest_index, version_prefix, VersionDetector};

verus! {

/// Which refs `git ls-remote` is asked for.
#[derive(Debug, Clone, Copy, PartialEq, Eq, Structural)]
pub enum RefType {
    Tags,
    Heads,
}

/// What a listed ref is.
#[derive(Debug, Clone, Copy, PartialEq, Eq, Structural)]
pub enum RefKind {
    Tag,
    Branch,
    Other,
}

/// One ref listed by `git ls-remote`.
#[derive(Debug, Clone)]
pub struct GitRef {
    pub sha: String,
    pub kind: RefKind,
    /// The tag or branch name, or the full ref for other refs.
    pub name: String,
    pub full_ref: String,
}

/// The mathematical form of a [`GitRef`].
pub struct GitRefView {
    pub sha: Seq<char>,
    pub kind: RefKind,
    pub name: Seq<char>,
    pub full_ref: Seq<char>,
}

impl View for GitRef {
    type V = GitRefView;

    open spec fn view(&self) -> GitRefView {
        GitRefView { sha: self.sha@, kind: self.kind, name: self.name@, full_ref: self.full_ref@ }
    }
}

/// The command-line flags for one ref type.
pub open spec fn ref_type_flags(t: RefType) -> Seq<Seq<char>> {
    match t {
        RefType::Tags => seq!["--tags"@, "--refs"@],
        RefType::Heads => seq!["--heads"@],
    }
}

pub open spec fn flags_of(ts: Seq<RefType>) -> Seq<Seq<char>>
    decreases ts.len(),
{
    if ts.len() == 0 {
        Seq::empty()
    } else {
        flags_of(ts.drop_last()) + ref_type_flags(ts.last())
    }
}

/// The arguments of `git ls-remote` for `url`: the flags of each ref type,
/// then `--`, so that a URL starting with `-` is never read as a flag.
pub open spec fn spec_ls_remote_args(ts: Seq<RefType>, url: Seq<char>) -> Seq<Seq<char>> {
    seq!["ls-remote"@] + flags_of(ts) + seq!["--"@, url]
}

pub open spec fn strings_view(v: Seq<String>) -> Seq<Seq<char>> {
    v.map_values(|s: String| s@)
}

/// Builds the arguments of `git ls-remote` (see [`spec_ls_remote_args`]).
pub fn build_ls_remote_args(ref_types: &[RefType], url: &str) -> (r: Vec<String>)
    ensures
        strings_view(r@) == spec_ls_remote_args(ref_types@, url@),
{
    let mut args: Vec<String> = Vec::new();
    args.push(String::from_str("ls-remote"));
    let mut i: usize = 0;
    while i < ref_types.len()
        invariant
            i <= ref_types@.len(),
            strings_view(args@) == seq!["ls-remote"@] + flags_of(ref_types@.subrange(0, i as int)),
        decreases ref_types.len() - i,
    {
        let ghost before = strings_view(args@);
        let ghost ts = ref_types@.subrange(0, i + 1);
        assert(ts.drop_last() == ref_types@.subrange(0, i as int));
        match ref_types[i] {
            RefType::Tags => {
                args.push(String::from_str("--tags"));
                args.push(String::from_str("--refs"));
            },
            RefType::Heads => {
                args.push(String::from_str("--heads"));
            },
        }
        assert(strings_view(args@) =~= before + ref_type_flags(ref_types@[i as int]));
        i += 1;
    }
    args.push(String::from_str("--"));
    args.push(String::from_str(url));
    assert(ref_types@.subrange(0, ref_types@.len() as int) == ref_types@);
    assert(strings_view(args@) =~= spec_ls_remote_args(ref_types@, url@));
    args
}

/// A line without the `\r` of a `\r\n` ending.
pub open spec fn without_cr(l: Seq<char>) -> Seq<char> {
    if l.len() > 0 && l[l.len() - 1] == '\r' {
        l.subrange(0, l.len() - 1)
    } else {
        l
    }
}

/// The lines of `s` as `str::lines` yields them: split at each `\n`, a
/// `\r` before it dropped, no empty line after a final `\n`.
pub open spec fn lines_of(s: Seq<char>) -> Seq<Seq<char>>
    decreases s.len(),
{
    if s.len() == 0 {
        Seq::empty()
    } else {
        let i = find(s, seq!['\n']);
        if i < 0 {
            seq![s]
        } else {
            proof { lemma_find_from(s, seq!['\n'], 0); }
            seq![without_cr(s.subrange(0, i))] + lines_of(s.subrange(i + 1, s.len() as int))
        }
    }
}

/// The ref a line of `git ls-remote` output describes: `sha<TAB>ref`.
pub open spec fn ref_of_line(l: Seq<char>) -> Option<GitRefView> {
    match split_once(l, seq!['\t']) {
        Some((sha, full)) => Some(
            if strip_prefix(full, "refs/tags/"@) is Some {
                GitRefView { sha, kind: RefKind::Tag, name: strip_prefix(full, "refs/tags/"@).unwrap(), full_ref: full }
            } else if strip_prefix(full, "refs/heads/"@) is Some {
                GitRefView {
                    sha,
                    kind: RefKind::Branch,
                    name: strip_prefix(full, "refs/heads/"@).unwrap(),
                    full_ref: full,
                }
            } else {
                GitRefView { sha, kind: RefKind::Other, name: full, full_ref: full }
            },
        ),
        None => None,
    }
}

/// The refs described by the lines that have a tab, in order.
pub open spec fn refs_of_lines(ls: Seq<Seq<char>>) -> Seq<GitRefView>
    decreases ls.len(),
{
    if ls.len() == 0 {
        Seq::empty()
    } else {
        match ref_of_line(ls.last()) {
            Some(r) => refs_of_lines(ls.drop_last()).push(r),
            None => refs_of_lines(ls.drop_last()),
        }
    }
}

pub open spec fn refs_view(v: Seq<GitRef>) -> Seq<GitRefView> {
    v.map_values(|r: GitRef| r@)
}

/// The ref one output line describes.
fn parse_ref_line(l: &Vec<char>) -> (r: Option<GitRef>)
    ensures
        match r {
            Some(g) => ref_of_line(l@) == Some(g@),
            None => ref_of_line(l@) is None,
        },
{
    let tab = vec!['\t'];
    assert(tab@ == seq!['\t']);
    match split_once_exec(l, &tab) {
        Some((sha, full)) => {
            let sha_s = to_string(&sha);
            let full_s = to_string(&full);
            if let Some(name) = strip_prefix_exec(&full, &chars_of("refs/tags/")) {
                Some(GitRef { sha: sha_s, kind: RefKind::Tag, name: to_string(&name), full_ref: full_s })
            } else if let Some(name) = strip_prefix_exec(&full, &chars_of("refs/heads/")) {
                Some(GitRef { sha: sha_s, kind: RefKind::Branch, name: to_string(&name), full_ref: full_s })
            } else {
                Some(GitRef { sha: sha_s, kind: RefKind::Other, name: to_string(&full), full_ref: full_s })
            }
        },
        None => None,
    }
}

/// The lines of `v[from..]`, given the lines of `v[..from]` already taken.
proof fn lemma_lines_step(s: Seq<char>, i: int)
    requires
        0 <= i < s.len(),
        s[i] == '\n',
        forall|j: int| 0 <= j < i ==> s[j] != '\n',
    ensures
        lines_of(s) == seq![without_cr(s.subrange(0, i))] + lines_of(s.subrange(i + 1, s.len() as int)),
{
    lemma_find_char(s, '\n');
    let q = find(s, seq!['\n']);
    lemma_find_from(s, seq!['\n'], 0);
    if q < 0 {
        assert(!crate::text::has_char(s, '\n'));
        assert(false);
    }
    assert(q == i);
}

proof fn lemma_lines_last(s: Seq<char>)
    requires
        s.len() > 0,
        forall|j: int| 0 <= j < s.len() ==> s[j] != '\n',
    ensures
        lines_of(s) == seq![s],
{
    lemma_find_char(s, '\n');
    lemma_find_from(s, seq!['\n'], 0);
}

proof fn lemma_refs_of_lines_append(a: Seq<Seq<char>>, b: Seq<Seq<char>>)
    ensures
        refs_of_lines(a + b) == refs_of_lines(a) + refs_of_lines(b),
    decreases b.len(),
{
    if b.len() == 0 {
        assert(a + b =~= a);
        assert(refs_of_lines(b) =~= Seq::<GitRefView>::empty());
    } else {
        assert((a + b).drop_last() =~= a + b.drop_last());
        assert((a + b).last() == b.last());
        lemma_refs_of_lines_append(a, b.drop_last());
        match ref_of_line(b.last()) {
            Some(r) => {
                assert(refs_of_lines(a) + refs_of_lines(b) =~= refs_of_lines(a) + refs_of_lines(b.drop_last()).push(r));
            },
            None => {},
        }
    }
}

proof fn lemma_refs_single(l: Seq<char>)
    ensures
        refs_of_lines(seq![l]) == match ref_of_line(l) {
            Some(r) => seq![r],
            None => Seq::<GitRefView>::empty(),
        },
{
    assert(seq![l].drop_last() =~= Seq::<Seq<char>>::empty());
    assert(seq![l].last() == l);
    assert(refs_of_lines(Seq::<Seq<char>>::empty()) =~= Seq::<GitRefView>::empty());
    match ref_of_line(l) {
        Some(r) => {
            assert(Seq::<GitRefView>::empty().push(r) =~= seq![r]);
        },
        None => {},
    }
}

/// Parses the standard output of `git ls-remote`: one ref per line with a
/// tab, `refs/tags/` and `refs/heads/` names made tags and branches.
pub fn parse_ls_remote_output(output: &str) -> (r: Vec<GitRef>)
    ensures
        refs_view(r@) == refs_of_lines(lines_of(output@)),
{
    let v = chars_of(output);
    let mut refs: Vec<GitRef> = Vec::new();
    let mut start: usize = 0;
    assert(v@.subrange(0, v@.len() as int) =~= v@);
    assert(refs_view(refs@) + refs_of_lines(lines_of(v@)) =~= refs_of_lines(lines_of(v@)));
    while start < v.len()
        invariant
            start <= v.len(),
            v@ == output@,
            refs_of_lines(lines_of(v@)) == refs_view(refs@) + refs_of_lines(lines_of(v@.subrange(start as int, v@.len() as int))),
        decreases v.len() - start,
    {
        let ghost rest = v@.subrange(start as int, v@.len() as int);
        let mut end = start;
        while end < v.len() && v[end] != '\n'
            invariant
                start <= end <= v.len(),
                forall|j: int| start <= j < end ==> v@[j] != '\n',
            decreases v.len() - end,
        {
            end += 1;
        }
        let raw = slice_vec(&v, start, end);
        let line = if end > start && v[end - 1] == '\r' && end < v.len() {
            slice_vec(&v, start, end - 1)
        } else {
            raw
        };
        let new_start = if end < v.len() { end + 1 } else { end };
        let ghost next = v@.subrange(new_start as int, v@.len() as int);
        proof {
            assert forall|j: int| 0 <= j < end - start implies rest[j] != '\n' by {
                assert(rest[j] == v@[start + j]);
            }
            if end < v.len() {
                assert(rest[end - start] == v@[end as int]);
                lemma_lines_step(rest, end - start);
                assert(rest.subrange(0, end - start) =~= v@.subrange(start as int, end as int));
                assert(rest.subrange(end - start + 1, rest.len() as int) =~= next);
                assert(line@ == without_cr(v@.subrange(start as int, end as int)));
                assert(lines_of(rest) == seq![line@] + lines_of(next));
            } else {
                lemma_lines_last(rest);
                assert(rest =~= line@);
                assert(next =~= Seq::<char>::empty());
                assert(lines_of(next) =~= Seq::<Seq<char>>::empty());
                assert(lines_of(rest) =~= seq![line@] + lines_of(next));
            }
            lemma_refs_of_lines_append(seq![line@], lines_of(next));
            lemma_refs_single(line@);
        }
        let ghost before = refs_view(refs@);
        match parse_ref_line(&line) {
            Some(g) => {
                refs.push(g);
                assert(refs_view(refs@) =~= before.push(g@));
                assert(before + refs_of_lines(lines_of(rest)) =~= refs_view(refs@) + refs_of_lines(lines_of(next)));
            },
            None => {
                assert(refs_view(refs@) =~= before);
                assert(before + refs_of_lines(lines_of(rest)) =~= refs_view(refs@) + refs_of_lines(lines_of(next)));
            },
        }
        start = new_start;
    }
    assert(v@.subrange(v@.len() as int, v@.len() as int) =~= Seq::<char>::empty());
    assert(lines_of(Seq::<char>::empty()) =~= Seq::<Seq<char>>::empty());
    assert(refs_view(refs@) + Seq::<GitRefView>::empty() =~= refs_view(refs@));
    refs
}

/// The names of the tags among `refs`, in order.
pub open spec fn tag_names(refs: Seq<GitRefView>) -> Seq<Seq<char>>
    decreases refs.len(),
{
    if refs.len() == 0 {
        Seq::empty()
    } else if refs.last().kind == RefKind::Tag {
        tag_names(refs.drop_last()).push(refs.last().name)
    } else {
        tag_names(refs.drop_last())
    }
}

/// The tag that is picked as the latest: among all tag versions, or, with a
/// current tag, among those with its prefix.
pub open spec fn spec_latest_tag(refs: Seq<GitRefView>, current: Option<Seq<char>>) -> Option<Seq<char>> {
    let names = tag_names(refs);
    let prefix = match current {
        Some(c) => Some(version_prefix(c)),
        None => None,
    };
    match latest_index(names, prefix, names.len() as int) {
        Some(j) => Some(names[j]),
        None => None,
    }
}

/// The first ref of `kind` named `name`, as an index.
pub open spec fn first_named(refs: Seq<GitRefView>, kind: RefKind, name: Seq<char>, i: int) -> Option<int>
    decreases refs.len() - i,
{
    if i < 0 || i >= refs.len() {
        None
    } else if refs[i].kind == kind && refs[i].name == name {
        Some(i)
    } else {
        first_named(refs, kind, name, i + 1)
    }
}

pub open spec fn sha_of_named(refs: Seq<GitRefView>, kind: RefKind, name: Seq<char>) -> Option<Seq<char>> {
    match first_named(refs, kind, name, 0) {
        Some(j) => Some(refs[j].sha),
        None => None,
    }
}

pub open spec fn opt_string_view(o: Option<String>) -> Option<Seq<char>> {
    match o {
        Some(s) => Some(s@),
        None => None,
    }
}

pub open spec fn opt_str_view(o: Option<&str>) -> Option<Seq<char>> {
    match o {
        Some(s) => Some(s@),
        None => None,
    }
}

/// The tags among `refs` as (name, commit) pairs, in order.
pub open spec fn tag_pairs(refs: Seq<GitRefView>) -> Seq<(Seq<char>, Seq<char>)>
    decreases refs.len(),
{
    if refs.len() == 0 {
        Seq::empty()
    } else if refs.last().kind == RefKind::Tag {
        tag_pairs(refs.drop_last()).push((refs.last().name, refs.last().sha))
    } else {
        tag_pairs(refs.drop_last())
    }
}

pub open spec fn pairs_view(v: Seq<(String, String)>) -> Seq<(Seq<char>, Seq<char>)> {
    v.map_values(|p: (String, String)| (p.0@, p.1@))
}

/// Choices made from the refs a remote lists.
pub struct GitFetcher;

/// What a `git ls-remote` run for `url` gives: the refs it printed, or
/// why it gave none.
pub open spec fn spec_list_refs(url: Seq<char>, o: Option<(bool, Seq<u8>, Seq<u8>)>) -> Result<Seq<GitRefView>, Seq<char>> {
    match o {
        None => Err("Failed to execute git ls-remote for "@ + url),
        Some((success, stdout, stderr)) => if !success {
            Err("git ls-remote failed: "@ + crate::utils::patch::utf8_lossy_of(stderr))
        } else {
            Ok(refs_of_lines(lines_of(crate::utils::patch::utf8_lossy_of(stdout))))
        },
    }
}

impl GitFetcher {
    /// The refs of `url`, from what running `git ls-remote` with
    /// [`GitFetcher::ls_remote_args`] gave (see [`spec_list_refs`]).
    pub fn list_refs(url: &str, output: &crate::utils::prefetch::CommandOutput) -> (r: Result<Vec<GitRef>, String>)
        ensures
            match r {
                Ok(v) => spec_list_refs(url@, crate::utils::prefetch::output_view(*output)) == Ok::<
                    Seq<GitRefView>,
                    Seq<char>,
                >(refs_view(v@)),
                Err(e) => spec_list_refs(url@, crate::utils::prefetch::output_view(*output)) == Err::<
                    Seq<GitRefView>,
                    Seq<char>,
                >(e@),
            },
    {
        match output {
            crate::utils::prefetch::CommandOutput::NotStarted(_) => {
                let mut m = String::from_str("Failed to execute git ls-remote for ");
                m.append(url);
                Err(m)
            },
            crate::utils::prefetch::CommandOutput::Finished { success, stdout, stderr } => if !*success {
                let mut m = String::from_str("git ls-remote failed: ");
                let e = crate::utils::patch::utf8_lossy(stderr.as_slice());
                m.append(e.as_str());
                Err(m)
            } else {
                let out = crate::utils::patch::utf8_lossy(stdout.as_slice());
                Ok(parse_ls_remote_output(out.as_str()))
            },
        }
    }

    /// The arguments of `git ls-remote` that list `ref_types` of `url`.
    pub fn ls_remote_args(url: &str, ref_types: &[RefType]) -> (r: Vec<String>)
        ensures
            strings_view(r@) == spec_ls_remote_args(ref_types@, url@),
    {
        build_ls_remote_args(ref_types, url)
    }

    fn tag_name_strs<'a>(refs: &'a [GitRef]) -> (r: Vec<&'a str>)
        ensures
            r@.map_values(|t: &str| t@) == tag_names(refs_view(refs@)),
    {
        let mut names: Vec<&'a str> = Vec::new();
        let mut i: usize = 0;
        while i < refs.len()
            invariant
                i <= refs@.len(),
                names@.map_values(|t: &str| t@) == tag_names(refs_view(refs@).subrange(0, i as int)),
            decreases refs.len() - i,
        {
            let ghost rv = refs_view(refs@);
            assert(rv.subrange(0, i + 1).drop_last() =~= rv.subrange(0, i as int));
            assert(rv.subrange(0, i + 1).last() == refs@[i as int]@);
            if refs[i].kind == RefKind::Tag {
                names.push(refs[i].name.as_str());
                assert(names@.map_values(|t: &str| t@) =~= tag_names(rv.subrange(0, i as int)).push(refs@[i as int].name@));
            }
            i += 1;
        }
        assert(refs_view(refs@).subrange(0, refs@.len() as int) =~= refs_view(refs@));
        names
    }

    /// The latest version tag among `refs` (those listed for
    /// [`RefType::Tags`]); with `current`, the latest of its prefix.
    pub fn get_latest_tag_matching(refs: &[GitRef], current: Option<&str>) -> (r: Option<String>)
        ensures
            opt_string_view(r) == spec_latest_tag(refs_view(refs@), opt_str_view(current)),
    {
        let names = Self::tag_name_strs(refs);
        let ghost tn = tag_names(refs_view(refs@));
        let sl = names.as_slice();
        assert(sl@.map_values(|t: &str| t@) == tn);
        let picked = match current {
            Some(cur) => VersionDetector::latest_matching(sl, cur),
            None => VersionDetector::latest(sl),
        };
        match picked {
            Some(t) => {
                let r = String::from_str(t);
                proof {
                    let pre = match current {
                        Some(c) => Some(version_prefix(c@)),
                        None => None,
                    };
                    crate::utils::version::lemma_latest_index(tn, pre, tn.len() as int);
                    let j = latest_index(tn, pre, tn.len() as int).unwrap();
                    assert(tn[j] == sl@[j]@);
                }
                Some(r)
            },
            None => None,
        }
    }

    /// The latest version tag among `refs`.
    pub fn get_latest_tag(refs: &[GitRef]) -> (r: Option<String>)
        ensures
            opt_string_view(r) == spec_latest_tag(refs_view(refs@), None),
    {
        Self::get_latest_tag_matching(refs, None)
    }

    fn find_sha(refs: &[GitRef], kind: RefKind, name: &str) -> (r: Option<String>)
        ensures
            opt_string_view(r) == sha_of_named(refs_view(refs@), kind, name@),
    {
        let ghost rv = refs_view(refs@);
        let mut i: usize = 0;
        while i < refs.len()
            invariant
                i <= refs@.len(),
                rv == refs_view(refs@),
                first_named(rv, kind, name@, i as int) == first_named(rv, kind, name@, 0),
            decreases refs.len() - i,
        {
            let n = chars_of(refs[i].name.as_str());
            if refs[i].kind == kind && eq_str(&n, name) {
                return Some(refs[i].sha.clone());
            }
            i += 1;
        }
        None
    }

    /// The commit of `branch` among `refs` (those listed for
    /// [`RefType::Heads`]).
    pub fn get_latest_commit(refs: &[GitRef], branch: &str) -> (r: Option<String>)
        ensures
            opt_string_view(r) == sha_of_named(refs_view(refs@), RefKind::Branch, branch@),
    {
        Self::find_sha(refs, RefKind::Branch, branch)
    }

    /// The tags among `refs`, each with its commit.
    pub fn list_tags(refs: &[GitRef]) -> (r: Vec<(String, String)>)
        ensures
            pairs_view(r@) == tag_pairs(refs_view(refs@)),
    {
        let mut out: Vec<(String, String)> = Vec::new();
        let mut i: usize = 0;
        while i < refs.len()
            invariant
                i <= refs@.len(),
                pairs_view(out@) == tag_pairs(refs_view(refs@).subrange(0, i as int)),
            decreases refs.len() - i,
        {
            let ghost rv = refs_view(refs@);
            assert(rv.subrange(0, i + 1).drop_last() =~= rv.subrange(0, i as int));
            assert(rv.subrange(0, i + 1).last() == refs@[i as int]@);
            if refs[i].kind == RefKind::Tag {
                out.push((refs[i].name.clone(), refs[i].sha.clone()));
                assert(pairs_view(out@) =~= tag_pairs(rv.subrange(0, i as int)).push(
                    (refs@[i as int].name@, refs@[i as int].sha@),
                ));
            }
            i += 1;
        }
        assert(refs_view(refs@).subrange(0, refs@.len() as int) =~= refs_view(refs@));
        out
    }

    /// The commit that `tag` names among `refs`.
    pub fn resolve_ref_to_sha(refs: &[GitRef], tag: &str) -> (r: Option<String>)
        ensures
            opt_string_view(r) == sha_of_named(refs_view(refs@), RefKind::Tag, tag@),
    {
        Self::find_sha(refs, RefKind::Tag, tag)
    }
}

/// A tag of the listing named `name`.
pub open spec fn is_tag_named(r: GitRefView, name: Seq<char>) -> bool {
    r.kind == RefKind::Tag && r.name == name
}

/// The listing has a tag named `name`.
pub open spec fn has_tag(refs: Seq<GitRefView>, name: Seq<char>) -> bool {
    exists|i: int| 0 <= i < refs.len() && #[trigger] is_tag_named(refs[i], name)
}

/// Every tag name comes from a tag of the listing.
pub proof fn lemma_tag_names_listed(refs: Seq<GitRefView>)
    ensures
        forall|k: int| 0 <= k < tag_names(refs).len() ==> #[trigger] has_tag(refs, tag_names(refs)[k]),
    decreases refs.len(),
{
    if refs.len() > 0 {
        let init = refs.drop_last();
        lemma_tag_names_listed(init);
        assert forall|k: int| 0 <= k < tag_names(refs).len() implies #[trigger] has_tag(refs, tag_names(refs)[k]) by {
            if k < tag_names(init).len() {
                assert(has_tag(init, tag_names(init)[k]));
                let i = choose|i: int| 0 <= i < init.len() && #[trigger] is_tag_named(init[i], tag_names(init)[k]);
                assert(refs[i] == init[i]);
                assert(is_tag_named(refs[i], tag_names(refs)[k]));
            } else {
                assert(is_tag_named(refs[refs.len() - 1], tag_names(refs)[k]));
            }
        }
    }
}

/// The first ref of a kind and name, when one is listed from `i` on, is
/// found: it has that kind and name, and none before it from `i` on has.
pub proof fn lemma_first_named(refs: Seq<GitRefView>, name: Seq<char>, i: int)
    requires
        0 <= i,
        exists|j: int| i <= j < refs.len() && #[trigger] is_tag_named(refs[j], name),
    ensures
        first_named(refs, RefKind::Tag, name, i) matches Some(f) && i <= f < refs.len() && is_tag_named(refs[f], name)
            && forall|j: int| i <= j < f ==> !#[trigger] is_tag_named(refs[j], name),
    decreases refs.len() - i,
{
    if !is_tag_named(refs[i], name) {
        let w = choose|j: int| i <= j < refs.len() && #[trigger] is_tag_named(refs[j], name);
        assert(w > i);
        lemma_first_named(refs, name, i + 1);
    }
}

} // verus!

