//! What is removed to make a kept `.git` directory deterministic, read
//! from what git prints.
use vstd::prelude::*;

use crate::text::{chars_of, find, find_exec, lemma_find_from, slice_vec, string_of, strip_prefix, strip_prefix_exec, trim, trim_exec};
use crate::utils::patch::{utf8_lossy, utf8_lossy_of};

verus! {

/// The non-empty lines of `s`, each trimmed.
pub open spec fn listed_names(s: Seq<char>) -> Seq<Seq<char>>
    decreases s.len(),
{
    let i = find(s, seq!['\n']);
    if i < 0 {
        if trim(s).len() > 0 {
            seq![trim(s)]
        } else {
            Seq::empty()
        }
    } else {
        proof { lemma_find_from(s, seq!['\n'], 0); }
        let line = trim(s.subrange(0, i));
        let rest = listed_names(s.subrange(i + 1, s.len() as int));
        if line.len() > 0 {
            seq![line] + rest
        } else {
            rest
        }
    }
}

/// The names git listed on standard output (`git branch -r`, `git tag
/// --contains HEAD`): its non-empty lines, trimmed.
pub fn listed(stdout: &[u8]) -> (r: Vec<String>)
    ensures
        r@.map_values(|s: String| s@) == listed_names(utf8_lossy_of(stdout@)),
{
    let text = utf8_lossy(stdout);
    let all = chars_of(text.as_str());
    let mut cur = chars_of(text.as_str());
    let nl = vec!['\n'];
    assert(nl@ == seq!['\n']);
    let mut out: Vec<String> = Vec::new();
    loop
        invariant
            nl@ == seq!['\n'],
            all@ == utf8_lossy_of(stdout@),
            out@.map_values(|s: String| s@) + listed_names(cur@) == listed_names(all@),
        decreases cur.len(),
    {
        let ghost before = out@.map_values(|s: String| s@);
        let ghost c = cur@;
        match find_exec(&cur, &nl) {
            Some(i) => {
                proof { lemma_find_from(cur@, nl@, 0); }
                let line = trim_exec(&slice_vec(&cur, 0, i));
                let ghost rest = c.subrange(i + 1, c.len() as int);
                assert(listed_names(c) == if line@.len() > 0 {
                    seq![line@] + listed_names(rest)
                } else {
                    listed_names(rest)
                });
                if line.len() > 0 {
                    let ghost ob = out@;
                    let s = string_of(&line);
                    out.push(s);
                    assert(out@ == ob.push(s));
                    assert(out@.map_values(|s: String| s@) =~= before.push(line@));
                    assert(before.push(line@) + listed_names(rest) =~= before + (seq![line@] + listed_names(rest)));
                }
                cur = slice_vec(&cur, i + 1, cur.len());
                assert(cur@ == rest);
            },
            None => {
                let line = trim_exec(&cur);
                if line.len() > 0 {
                    let ghost ob = out@;
                    let s = string_of(&line);
                    out.push(s);
                    assert(out@ == ob.push(s));
                    assert(out@.map_values(|s: String| s@) =~= before.push(line@));
                    assert(before + seq![line@] =~= before.push(line@));
                } else {
                    assert(before + Seq::<Seq<char>>::empty() =~= before);
                }
                return out;
            },
        }
    }
}

/// The tags git listed that are not the tag HEAD is on: those are deleted.
pub open spec fn tags_to_delete(listed: Seq<Seq<char>>, head_tag: Seq<char>) -> Seq<Seq<char>> {
    listed.filter(|t: Seq<char>| t != head_tag)
}

/// The tags to delete from those `git tag --contains HEAD` printed (see
/// [`tags_to_delete`]); `head_tag` is what `git tag --points-at HEAD`
/// printed, trimmed.
pub fn deletable_tags(stdout: &[u8], head_tag: &str) -> (r: Vec<String>)
    ensures
        r@.map_values(|s: String| s@) == tags_to_delete(listed_names(utf8_lossy_of(stdout@)), head_tag@),
{
    let names = listed(stdout);
    let ghost nv = names@.map_values(|s: String| s@);
    let mut out: Vec<String> = Vec::new();
    let mut i: usize = 0;
    while i < names.len()
        invariant
            i <= names@.len(),
            nv == names@.map_values(|s: String| s@),
            out@.map_values(|s: String| s@) == tags_to_delete(nv.subrange(0, i as int), head_tag@),
        decreases names.len() - i,
    {
        let ghost before = nv.subrange(0, i as int);
        assert(nv.subrange(0, i + 1) =~= before.push(nv[i as int]));
        proof { before.lemma_filter_push(nv[i as int], |t: Seq<char>| t != head_tag@); }
        let same = crate::text::eq_str(&chars_of(names[i].as_str()), head_tag);
        if !same {
            let ghost ob = out@;
            let s = string_of(&chars_of(names[i].as_str()));
            out.push(s);
            assert(out@ == ob.push(s));
            assert(out@.map_values(|s: String| s@) =~= ob.map_values(|s: String| s@).push(nv[i as int]));
        }
        i += 1;
    }
    assert(nv.subrange(0, names@.len() as int) =~= nv);
    out
}

/// Where a `.git` file points: its content trimmed, without `gitdir: `;
/// empty when it does not start so.
pub open spec fn spec_gitdir_target(content: Seq<char>) -> Seq<char> {
    match strip_prefix(trim(content), "gitdir: "@) {
        Some(p) => p,
        None => Seq::empty(),
    }
}

/// The path a `.git` file names, relative to the directory holding it (see
/// [`spec_gitdir_target`]).
pub fn gitdir_target(content: &str) -> (r: String)
    ensures
        r@ == spec_gitdir_target(content@),
{
    let t = trim_exec(&chars_of(content));
    let p = chars_of("gitdir: ");
    match strip_prefix_exec(&t, &p) {
        Some(rest) => string_of(&rest),
        None => String::new(),
    }
}

/// The entries of a kept `.git` directory that are removed because they
/// differ from one clone to the next.
pub open spec fn spec_volatile_entries() -> Seq<Seq<char>> {
    seq!["logs"@, "hooks"@, "index"@, "FETCH_HEAD"@, "ORIG_HEAD"@, "config"@]
}

/// The entries of a kept `.git` directory that are removed (see
/// [`spec_volatile_entries`]).
pub fn volatile_entries() -> (r: Vec<&'static str>)
    ensures
        r@.map_values(|s: &str| s@) == spec_volatile_entries(),
{
    let r = vec!["logs", "hooks", "index", "FETCH_HEAD", "ORIG_HEAD", "config"];
    assert(r@.map_values(|s: &str| s@) =~= spec_volatile_entries());
    r
}

} // verus!
