//! What a builder call becomes: the new version, ref and hash, given what
//! listing the source's refs and computing its hash gave.
use vstd::prelude::*;

use crate::parser::ast::{interp_content, parts_view, var_affixes, StrPartView};
use crate::rules::derivation::extract::{source_ref_view, DerivationCall, SourceRefValue, SourceRefView};
use crate::rules::fetcher::dispatch::{
    empty_string, grouped, hash_updates, quoted, result_view, update_at, CheckResultView,
};
use crate::rules::fetcher::follow::refs_result_view;
use crate::rules::fetcher::kind::{kind_git_url, kind_name, FetcherKind};
use crate::rules::fetcher::{is_commit_hash, resolve_ref_for_prefetch, spec_is_commit_hash};
use crate::rules::traits::{
    updates_view, warnings_view, CheckResult, CheckWarning, CheckWarningView, Update, UpdateGroup, UpdateView,
};
use crate::strmap::StrMap;
use crate::text::{chars_of, ends_with, starts_with};
use crate::utils::fetch::{
    has_tag, is_tag_named, lemma_first_named, lemma_tag_names_listed, opt_string_view, refs_view, sha_of_named,
    spec_latest_tag, tag_names, GitFetcher, GitRef, GitRefView, RefKind,
};
use crate::utils::nar::NarHash;
use crate::utils::version::{is_version, latest_index, lemma_latest_index, version_order, version_prefix, VersionDetector};

verus! {

/// The version a resolved ref holds: what stands between the template's
/// text before and after the version variable, when the ref has both and
/// something is left.
pub open spec fn spec_extract_version(
    parts: Seq<StrPartView>,
    resolved: Seq<char>,
    var: Seq<char>,
    vars: Map<Seq<char>, Seq<char>>,
) -> Option<Seq<char>> {
    match var_affixes(parts, var, vars) {
        None => None,
        Some((pre, suf)) => if starts_with(resolved, pre) && ends_with(resolved, suf) && pre.len() + suf.len()
            < resolved.len() {
            Some(resolved.subrange(pre.len() as int, resolved.len() - suf.len()))
        } else {
            None
        },
    }
}

/// What the listing decides before updates are written: the version to
/// move to, the new ref text, and whether the effective ref changes;
/// `Err` with a warning when the listing failed and was needed.
pub open spec fn spec_resolution(c: DerivationCall, git_url: Seq<char>, refs: Result<Seq<GitRefView>, Seq<char>>) -> Result<
    (Seq<char>, Option<Seq<char>>, bool),
    CheckWarningView,
> {
    let version = c.version_value@;
    let fail = |e: Seq<char>| CheckWarningView::FollowResolutionFailed { git_url, source: e };
    match source_ref_view(c.source_ref_value) {
        SourceRefView::Pure(cur) => if cur.len() > 0 {
            if !spec_is_commit_hash(cur) && is_version(cur) && cur == version {
                match refs {
                    Err(e) => Err(fail(e)),
                    Ok(rs) => match spec_latest_tag(rs, Some(cur)) {
                        Some(l) => if version_order(cur, l) == -1 {
                            Ok((l, Some(l), false))
                        } else {
                            Ok((version, None, false))
                        },
                        None => Ok((version, None, false)),
                    },
                }
            } else if spec_is_commit_hash(cur) {
                match refs {
                    Err(e) => Err(fail(e)),
                    Ok(rs) => match spec_latest_tag(rs, Some(version)) {
                        Some(l) => if version_order(version, l) == -1 {
                            Ok((l, sha_of_named(rs, RefKind::Tag, l), false))
                        } else {
                            Ok((version, None, false))
                        },
                        None => Ok((version, None, false)),
                    },
                }
            } else {
                Ok((version, None, false))
            }
        } else {
            match refs {
                Err(e) => Err(fail(e)),
                Ok(rs) => match spec_latest_tag(rs, Some(version)) {
                    Some(l) => if version_order(version, l) == -1 {
                        Ok((l, Some(l), false))
                    } else {
                        Ok((version, Some(version), false))
                    },
                    None => Ok((version, Some(version), false)),
                },
            }
        },
        SourceRefView::InterpolatedFromVersion { parts, version_var } => {
            let vars = c.extra_vars@.insert(version_var, version);
            match interp_content(parts, vars) {
                None => Ok((version, None, false)),
                Some(rr) => match refs {
                    Err(e) => Err(fail(e)),
                    Ok(rs) => match spec_latest_tag(rs, Some(rr)) {
                        Some(lr) => if version_order(rr, lr) == -1 {
                            match spec_extract_version(parts, lr, version_var, c.extra_vars@) {
                                Some(cv) => if is_version(cv) && version_order(version, cv) == -1 {
                                    Ok((cv, None, true))
                                } else {
                                    Ok((version, None, false))
                                },
                                None => Ok((version, None, false)),
                            }
                        } else {
                            Ok((version, None, false))
                        },
                        None => Ok((version, None, false)),
                    },
                },
            }
        },
        SourceRefView::IdentFromVersion => match refs {
            Err(e) => Err(fail(e)),
            Ok(rs) => match spec_latest_tag(rs, Some(version)) {
                Some(l) => if version_order(version, l) == -1 {
                    Ok((l, None, true))
                } else {
                    Ok((version, None, false))
                },
                None => Ok((version, None, false)),
            },
        },
        SourceRefView::Missing => Ok((version, None, false)),
    }
}

/// The update of the ref literal to `new_ref`, when the call has a literal
/// ref that differs.
pub open spec fn ref_update(c: DerivationCall, new_ref: Option<Seq<char>>) -> Seq<UpdateView> {
    match (c.source_ref_key, c.source_ref_range, new_ref, source_ref_view(c.source_ref_value)) {
        (Some(k), Some(r), Some(n), SourceRefView::Pure(old)) => if old != n {
            seq![UpdateView { field: kind_name(c.fetcher_kind) + "."@ + k@, replacement: quoted(n), range: r }]
        } else {
            Seq::empty()
        },
        _ => Seq::empty(),
    }
}

/// The revision whose hash a call needs once it moves to `target` and
/// `new_ref`, when the hash is to be refreshed.
pub open spec fn spec_rev_for_hash(c: DerivationCall, target: Seq<char>, new_ref: Option<Seq<char>>) -> Option<Seq<char>> {
    let nonempty = |s: Seq<char>| if s.len() > 0 {
        Some(s)
    } else {
        None
    };
    match new_ref {
        Some(n) => nonempty(n),
        None => match source_ref_view(c.source_ref_value) {
            SourceRefView::Pure(r) => nonempty(r),
            SourceRefView::InterpolatedFromVersion { parts, version_var } => match interp_content(
                parts,
                c.extra_vars@.insert(version_var, target),
            ) {
                Some(res) => nonempty(res),
                None => None,
            },
            SourceRefView::IdentFromVersion => nonempty(target),
            SourceRefView::Missing => None,
        },
    }
}

/// Whether the call's hash is refreshed: a fetcher with a hash whose hash
/// is empty or whose effective ref changes.
pub open spec fn refresh_hash(c: DerivationCall, changed: bool) -> bool {
    c.fetcher_kind != FetcherKind::BuiltinsFetchGit && (empty_string(c.fetcher_parsed, "hash"@) || empty_string(
        c.fetcher_parsed,
        "sha256"@,
    ) || changed)
}

/// What a builder call becomes under rule `rule_name`, given what listing
/// the source's refs gave and what computing its hash gave (`None`: not
/// computed): the version update, the ref update and the hash updates as
/// one group; a warning and nothing else when the listing or the hash
/// failed, or the revision to hash cannot be told. A pinned call, or one
/// without a git URL, gives nothing.
pub open spec fn spec_check_derivation(
    rule_name: Seq<char>,
    c: DerivationCall,
    refs: Result<Seq<GitRefView>, Seq<char>>,
    hash: Option<Result<NarHash, String>>,
) -> CheckResultView {
    let nothing = CheckResultView { groups: Seq::empty(), warnings: Seq::empty() };
    if c.pinned {
        nothing
    } else {
        match kind_git_url(c.fetcher_kind, c.fetcher_parsed.strings@) {
            None => nothing,
            Some(u) => match spec_resolution(c, u, refs) {
                Err(w) => CheckResultView { groups: Seq::empty(), warnings: seq![w] },
                Ok((target, new_ref, changed0)) => {
                    let vu = if version_order(c.version_value@, target) == -1 {
                        seq![UpdateView { field: rule_name + ".version"@, replacement: quoted(target), range: c.version_range }]
                    } else {
                        Seq::empty()
                    };
                    let ru = ref_update(c, new_ref);
                    let ups = vu + ru;
                    let changed = changed0 || ru.len() > 0;
                    if refresh_hash(c, changed) {
                        match spec_rev_for_hash(c, target, new_ref) {
                            Some(rev) => match hash {
                                None => grouped(ups, Seq::empty()),
                                Some(Ok(h)) => grouped(
                                    ups + hash_updates(c.fetcher_parsed, kind_name(c.fetcher_kind), h),
                                    Seq::empty(),
                                ),
                                Some(Err(e)) => CheckResultView {
                                    groups: Seq::empty(),
                                    warnings: seq![CheckWarningView::HashPrefetchFailed { url: u, rev, source: e@ }],
                                },
                            },
                            None => CheckResultView {
                                groups: Seq::empty(),
                                warnings: seq![
                                    CheckWarningView::HashPrefetchFailed {
                                        url: u,
                                        rev: Seq::empty(),
                                        source: "could not resolve ref for hash computation"@,
                                    },
                                ],
                            },
                        }
                    } else {
                        grouped(ups, Seq::empty())
                    }
                },
            },
        }
    }
}

} // verus!

verus! {

/// The version a resolved ref holds (see [`spec_extract_version`]).
pub fn extract_version_from_interpolated_ref(
    template: &crate::parser::ast::StringValue,
    resolved_ref: &str,
    version_var: &str,
    vars: &StrMap<String>,
) -> (r: Option<String>)
    ensures
        opt_string_view(r) == spec_extract_version(parts_view(template.parts@), resolved_ref@, version_var@, vars@),
{
    assert(vars@.map_values(|v: Seq<char>| v) =~= vars@);
    let (prefix, suffix) = match template.interpolated_var_affixes(version_var, vars) {
        Some(p) => p,
        None => return None,
    };
    let rv = chars_of(resolved_ref);
    let pv = chars_of(prefix.as_str());
    let sv = chars_of(suffix.as_str());
    if !crate::text::starts_with_exec(&rv, &pv) || !crate::text::ends_with_exec(&rv, &sv) {
        return None;
    }
    if pv.len() >= rv.len() || sv.len() >= rv.len() - pv.len() {
        return None;
    }
    Some(crate::text::string_of_range(&rv, pv.len(), rv.len() - sv.len()))
}

fn str_eq(a: &str, b: &str) -> (r: bool)
    ensures
        r == (a@ == b@),
{
    crate::text::eq_str(&chars_of(a), b)
}

fn nonempty(s: String) -> (r: Option<String>)
    ensures
        s@.len() > 0 ==> (r matches Some(t) && t@ == s@),
        s@.len() == 0 ==> r is None,
{
    if s.unicode_len() > 0 {
        Some(s)
    } else {
        None
    }
}

/// The bindings with `var` bound to `value`.
fn with_var(vars: &StrMap<String>, var: &String, value: &String) -> (r: StrMap<String>)
    ensures
        r@ == vars@.insert(var@, value@),
{
    let mut m = vars.copy();
    m.insert(var.clone(), value.clone());
    m
}

/// What the listing decides (see [`spec_resolution`]).
fn resolution(call: &DerivationCall, git_url: &str, refs: &Result<Vec<GitRef>, String>) -> (r: Result<
    (String, Option<String>, bool),
    CheckWarning,
>)
    ensures
        match r {
            Ok((t, n, ch)) => spec_resolution(*call, git_url@, refs_result_view(*refs)) == Ok::<
                (Seq<char>, Option<Seq<char>>, bool),
                CheckWarningView,
            >((t@, opt_string_view(n), ch)),
            Err(w) => spec_resolution(*call, git_url@, refs_result_view(*refs)) == Err::<
                (Seq<char>, Option<Seq<char>>, bool),
                CheckWarningView,
            >(w@),
        },
{
    let version = &call.version_value;
    let fail = |e: &String| -> (w: CheckWarning)
        ensures
            w@ == (CheckWarningView::FollowResolutionFailed { git_url: git_url@, source: e@ }),
        { CheckWarning::FollowResolutionFailed { git_url: String::from_str(git_url), source: e.clone() } };
    match &call.source_ref_value {
        SourceRefValue::Pure(cur) => {
            if cur.unicode_len() > 0 {
                if !is_commit_hash(cur.as_str()) && VersionDetector::is_version(cur.as_str()) && str_eq(
                    cur.as_str(),
                    version.as_str(),
                ) {
                    match refs {
                        Err(e) => Err(fail(e)),
                        Ok(rs) => match GitFetcher::get_latest_tag_matching(rs.as_slice(), Some(cur.as_str())) {
                            Some(l) => if VersionDetector::order(cur.as_str(), l.as_str()) == -1 {
                                let l2 = l.clone();
                                Ok((l, Some(l2), false))
                            } else {
                                Ok((version.clone(), None, false))
                            },
                            None => Ok((version.clone(), None, false)),
                        },
                    }
                } else if is_commit_hash(cur.as_str()) {
                    match refs {
                        Err(e) => Err(fail(e)),
                        Ok(rs) => match GitFetcher::get_latest_tag_matching(rs.as_slice(), Some(version.as_str())) {
                            Some(l) => if VersionDetector::order(version.as_str(), l.as_str()) == -1 {
                                let sha = GitFetcher::resolve_ref_to_sha(rs.as_slice(), l.as_str());
                                Ok((l, sha, false))
                            } else {
                                Ok((version.clone(), None, false))
                            },
                            None => Ok((version.clone(), None, false)),
                        },
                    }
                } else {
                    Ok((version.clone(), None, false))
                }
            } else {
                match refs {
                    Err(e) => Err(fail(e)),
                    Ok(rs) => match GitFetcher::get_latest_tag_matching(rs.as_slice(), Some(version.as_str())) {
                        Some(l) => if VersionDetector::order(version.as_str(), l.as_str()) == -1 {
                            let l2 = l.clone();
                            Ok((l, Some(l2), false))
                        } else {
                            Ok((version.clone(), Some(version.clone()), false))
                        },
                        None => Ok((version.clone(), Some(version.clone()), false)),
                    },
                }
            }
        },
        SourceRefValue::InterpolatedFromVersion { template, version_var } => {
            let vars = with_var(&call.extra_vars, version_var, version);
            assert(vars@.map_values(|v: Seq<char>| v) =~= vars@);
            match template.interpolated_string_content(&vars) {
                None => Ok((version.clone(), None, false)),
                Some(rr) => match refs {
                    Err(e) => Err(fail(e)),
                    Ok(rs) => match GitFetcher::get_latest_tag_matching(rs.as_slice(), Some(rr.as_str())) {
                        Some(lr) => if VersionDetector::order(rr.as_str(), lr.as_str()) == -1 {
                            match extract_version_from_interpolated_ref(
                                template,
                                lr.as_str(),
                                version_var.as_str(),
                                &call.extra_vars,
                            ) {
                                Some(cv) => if VersionDetector::is_version(cv.as_str()) && VersionDetector::order(
                                    version.as_str(),
                                    cv.as_str(),
                                ) == -1 {
                                    Ok((cv, None, true))
                                } else {
                                    Ok((version.clone(), None, false))
                                },
                                None => Ok((version.clone(), None, false)),
                            }
                        } else {
                            Ok((version.clone(), None, false))
                        },
                        None => Ok((version.clone(), None, false)),
                    },
                },
            }
        },
        SourceRefValue::IdentFromVersion => match refs {
            Err(e) => Err(fail(e)),
            Ok(rs) => match GitFetcher::get_latest_tag_matching(rs.as_slice(), Some(version.as_str())) {
                Some(l) => if VersionDetector::order(version.as_str(), l.as_str()) == -1 {
                    Ok((l, None, true))
                } else {
                    Ok((version.clone(), None, false))
                },
                None => Ok((version.clone(), None, false)),
            },
        },
        SourceRefValue::Missing => Ok((version.clone(), None, false)),
    }
}

/// The revision whose hash the call needs (see [`spec_rev_for_hash`]).
fn rev_for_hash(call: &DerivationCall, target: &String, new_ref: &Option<String>) -> (r: Option<String>)
    ensures
        opt_string_view(r) == spec_rev_for_hash(*call, target@, opt_string_view(*new_ref)),
{
    match new_ref {
        Some(n) => nonempty(n.clone()),
        None => match &call.source_ref_value {
            SourceRefValue::Pure(r) => nonempty(r.clone()),
            SourceRefValue::InterpolatedFromVersion { template, version_var } => {
                let vars = with_var(&call.extra_vars, version_var, target);
                assert(vars@.map_values(|v: Seq<char>| v) =~= vars@);
                match template.interpolated_string_content(&vars) {
                    Some(res) => nonempty(res),
                    None => None,
                }
            },
            SourceRefValue::IdentFromVersion => nonempty(target.clone()),
            SourceRefValue::Missing => None,
        },
    }
}

} // verus!

verus! {

fn concat3(a: &str, b: &str, c: &str) -> (r: String)
    ensures
        r@ == a@ + b@ + c@,
{
    let mut r = String::from_str(a);
    r.append(b);
    r.append(c);
    r
}

fn quote(s: &str) -> (r: String)
    ensures
        r@ == quoted(s@),
{
    proof { reveal_strlit("\""); }
    concat3("\"", s, "\"")
}

fn empty_string_exec(p: &crate::parser::ParsedAttrs, key: &str) -> (b: bool)
    ensures
        b == empty_string(*p, key@),
{
    match p.strings.get(key) {
        Some(v) => v.unicode_len() == 0,
        None => false,
    }
}

/// The revision whose hash a builder call needs, given what listing the
/// source's refs gave; `None` when no hash is to be computed.
pub open spec fn spec_derivation_hash_rev(c: DerivationCall, refs: Result<Seq<GitRefView>, Seq<char>>) -> Option<Seq<char>> {
    if c.pinned {
        None
    } else {
        match kind_git_url(c.fetcher_kind, c.fetcher_parsed.strings@) {
            None => None,
            Some(u) => match spec_resolution(c, u, refs) {
                Err(_) => None,
                Ok((target, new_ref, changed0)) => {
                    let changed = changed0 || ref_update(c, new_ref).len() > 0;
                    if refresh_hash(c, changed) {
                        spec_rev_for_hash(c, target, new_ref)
                    } else {
                        None
                    }
                },
            },
        }
    }
}

/// The ref update (see [`ref_update`]).
fn push_ref_update(call: &DerivationCall, new_ref: &Option<String>, updates: &mut Vec<Update>)
    ensures
        updates_view(final(updates)@) == updates_view(old(updates)@) + ref_update(*call, opt_string_view(*new_ref)),
{
    proof { reveal_strlit("."); }
    let ghost before = updates_view(updates@);
    match (&call.source_ref_key, &call.source_ref_range, new_ref, &call.source_ref_value) {
        (Some(k), Some(r), Some(n), SourceRefValue::Pure(old)) => {
            if !str_eq(old.as_str(), n.as_str()) {
                let field = concat3(call.fetcher_kind.name(), ".", k.as_str());
                let q = quote(n.as_str());
                updates.push(Update::new(field.as_str(), q.as_str(), *r));
                assert(updates_view(updates@) =~= before + ref_update(*call, opt_string_view(*new_ref)));
            } else {
                assert(updates_view(updates@) =~= before + ref_update(*call, opt_string_view(*new_ref)));
            }
        },
        _ => {
            assert(updates_view(updates@) =~= before + ref_update(*call, opt_string_view(*new_ref)));
        },
    }
}

/// The revision whose hash a builder call needs (see
/// [`spec_derivation_hash_rev`]).
pub fn derivation_hash_rev(call: &DerivationCall, refs: &Result<Vec<GitRef>, String>) -> (r: Option<String>)
    ensures
        opt_string_view(r) == spec_derivation_hash_rev(*call, refs_result_view(*refs)),
{
    if call.pinned {
        return None;
    }
    let git_url = match call.fetcher_kind.git_url(&call.fetcher_parsed) {
        Some(u) => u,
        None => return None,
    };
    let (target, new_ref, changed0) = match resolution(call, git_url.as_str(), refs) {
        Ok(t) => t,
        Err(_) => return None,
    };
    let mut scratch: Vec<Update> = Vec::new();
    assert(updates_view(scratch@) =~= Seq::<UpdateView>::empty());
    push_ref_update(call, &new_ref, &mut scratch);
    let changed = changed0 || scratch.len() > 0;
    let refresh = call.fetcher_kind.needs_hash() && (empty_string_exec(&call.fetcher_parsed, "hash")
        || empty_string_exec(&call.fetcher_parsed, "sha256") || changed);
    if refresh {
        rev_for_hash(call, &target, &new_ref)
    } else {
        None
    }
}

fn group(updates: Vec<Update>) -> (r: CheckResult)
    ensures
        result_view(r) == grouped(updates_view(updates@), Seq::empty()),
{
    let ghost u = updates_view(updates@);
    if updates.len() == 0 {
        let r = CheckResult::empty();
        assert(result_view(r).groups =~= Seq::<Seq<UpdateView>>::empty());
        assert(result_view(r).warnings =~= Seq::<CheckWarningView>::empty());
        r
    } else {
        let mut groups: Vec<UpdateGroup> = Vec::new();
        groups.push(UpdateGroup::new(updates));
        let r = CheckResult { groups, warnings: Vec::new() };
        assert(result_view(r).groups =~= seq![u]);
        assert(result_view(r).warnings =~= Seq::<CheckWarningView>::empty());
        r
    }
}

fn warn(w: CheckWarning) -> (r: CheckResult)
    ensures
        result_view(r) == (CheckResultView { groups: Seq::empty(), warnings: seq![w@] }),
{
    let mut ws: Vec<CheckWarning> = Vec::new();
    ws.push(w);
    let r = CheckResult::with_warnings(ws);
    assert(result_view(r).groups =~= Seq::<Seq<UpdateView>>::empty());
    assert(result_view(r).warnings =~= seq![w@]);
    r
}

/// What a builder call becomes under rule `rule_name` (see
/// [`spec_check_derivation`]), given the outcome of listing the source's
/// refs and of computing the hash of [`derivation_hash_rev`]'s revision.
pub fn check_derivation_call(
    rule_name: &str,
    call: &DerivationCall,
    refs: &Result<Vec<GitRef>, String>,
    hash: &Option<Result<NarHash, String>>,
) -> (r: CheckResult)
    ensures
        result_view(r) == spec_check_derivation(rule_name@, *call, refs_result_view(*refs), *hash),
{
    proof {
        reveal_strlit(".version");
        reveal_strlit("could not resolve ref for hash computation");
        reveal_strlit("");
    }
    if call.pinned {
        let r = CheckResult::empty();
        assert(result_view(r).groups =~= Seq::<Seq<UpdateView>>::empty());
        assert(result_view(r).warnings =~= Seq::<CheckWarningView>::empty());
        return r;
    }
    let git_url = match call.fetcher_kind.git_url(&call.fetcher_parsed) {
        Some(u) => u,
        None => {
            let r = CheckResult::empty();
            assert(result_view(r).groups =~= Seq::<Seq<UpdateView>>::empty());
            assert(result_view(r).warnings =~= Seq::<CheckWarningView>::empty());
            return r;
        },
    };
    let (target, new_ref, changed0) = match resolution(call, git_url.as_str(), refs) {
        Ok(t) => t,
        Err(w) => return warn(w),
    };
    let mut updates: Vec<Update> = Vec::new();
    assert(updates_view(updates@) =~= Seq::<UpdateView>::empty());
    if VersionDetector::order(call.version_value.as_str(), target.as_str()) == -1 {
        let field = concat3(rule_name, ".version", "");
        let q = quote(target.as_str());
        proof { reveal_strlit(""); }
        updates.push(Update::new(field.as_str(), q.as_str(), call.version_range));
    }
    let ghost vu = updates_view(updates@);
    assert(vu =~= if version_order(call.version_value@, target@) == -1 {
        seq![UpdateView { field: rule_name@ + ".version"@, replacement: quoted(target@), range: call.version_range }]
    } else {
        Seq::<UpdateView>::empty()
    });
    let n0 = updates.len();
    push_ref_update(call, &new_ref, &mut updates);
    let ghost ru = ref_update(*call, opt_string_view(new_ref));
    assert(updates_view(updates@) == vu + ru);
    assert(updates_view(updates@).len() == updates@.len());
    assert(vu.len() == n0);
    let changed = changed0 || updates.len() > n0;
    assert(changed == (changed0 || ru.len() > 0));
    let refresh = call.fetcher_kind.needs_hash() && (empty_string_exec(&call.fetcher_parsed, "hash")
        || empty_string_exec(&call.fetcher_parsed, "sha256") || changed);
    if !refresh {
        return group(updates);
    }
    match rev_for_hash(call, &target, &new_ref) {
        Some(rev) => match hash {
            None => group(updates),
            Some(Ok(h)) => {
                let name = call.fetcher_kind.name();
                let ghost before = updates_view(updates@);
                let f1 = concat3(name, ".hash", "");
                let f2 = concat3(name, ".sha256", "");
                let q1 = quote(h.sri.as_str());
                let q2 = quote(h.nix32.as_str());
                proof {
                    reveal_strlit(".hash");
                    reveal_strlit(".sha256");
                    reveal_strlit("hash");
                    reveal_strlit("sha256");
                }
                match call.fetcher_parsed.string_range("hash") {
                    Some(r) => updates.push(Update::new(f1.as_str(), q1.as_str(), r)),
                    None => {},
                }
                match call.fetcher_parsed.string_range("sha256") {
                    Some(r) => updates.push(Update::new(f2.as_str(), q2.as_str(), r)),
                    None => {},
                }
                assert(updates_view(updates@) =~= before + hash_updates(
                    call.fetcher_parsed,
                    kind_name(call.fetcher_kind),
                    *h,
                ));
                group(updates)
            },
            Some(Err(e)) => warn(
                CheckWarning::HashPrefetchFailed { url: git_url, rev, source: e.clone() },
            ),
        },
        None => warn(
            CheckWarning::HashPrefetchFailed {
                url: git_url,
                rev: String::new(),
                source: String::from_str("could not resolve ref for hash computation"),
            },
        ),
    }
}

/// When the source pins a commit and the listing has a tag newer than the
/// version, the new version is that tag, it is a tag of the listing, and the
/// new rev is the commit that tag names there (its first entry): the commit
/// pin moves with the version.
pub proof fn law_commit_pin_follows_new_tag(c: DerivationCall, git_url: Seq<char>, rs: Seq<GitRefView>)
    requires
        source_ref_view(c.source_ref_value) matches SourceRefView::Pure(cur) && spec_is_commit_hash(cur),
        spec_resolution(c, git_url, Ok(rs)) matches Ok((t, _, _)) && t != c.version_value@,
    ensures
        spec_resolution(c, git_url, Ok(rs)) matches Ok((t, n, changed)) && !changed && n is Some && exists|i: int|
            0 <= i < rs.len() && #[trigger] is_tag_named(rs[i], t) && rs[i].sha == n->Some_0 && forall|j: int|
                0 <= j < i ==> !#[trigger] is_tag_named(rs[j], t),
{
    let version = c.version_value@;
    let names = tag_names(rs);
    let prefix = Some(version_prefix(version));
    lemma_latest_index(names, prefix, names.len() as int);
    lemma_tag_names_listed(rs);
    let j = latest_index(names, prefix, names.len() as int)->Some_0;
    let t = names[j];
    assert(has_tag(rs, t));
    lemma_first_named(rs, t, 0);
}

/// When the source names the version's own tag and the listing has a newer
/// tag, the new version and the new rev are both that tag, and it is a tag
/// of the listing.
pub proof fn law_tag_ref_follows_new_tag(c: DerivationCall, git_url: Seq<char>, rs: Seq<GitRefView>)
    requires
        source_ref_view(c.source_ref_value) matches SourceRefView::Pure(cur) && cur == c.version_value@
            && !spec_is_commit_hash(cur) && cur.len() > 0,
        spec_resolution(c, git_url, Ok(rs)) matches Ok((t, _, _)) && t != c.version_value@,
    ensures
        spec_resolution(c, git_url, Ok(rs)) matches Ok((t, n, changed)) && !changed && n == Some(t) && has_tag(rs, t),
{
    let version = c.version_value@;
    let names = tag_names(rs);
    let prefix = Some(version_prefix(version));
    lemma_latest_index(names, prefix, names.len() as int);
    lemma_tag_names_listed(rs);
}

/// When a commit pin moves to a new commit, the rev is rewritten to that
/// commit and the hash is recomputed for it.
pub proof fn law_moved_commit_pin_rehashes(c: DerivationCall, g: Seq<char>, rs: Seq<GitRefView>, n: Seq<char>)
    requires
        !c.pinned,
        kind_git_url(c.fetcher_kind, c.fetcher_parsed.strings@) == Some(g),
        c.fetcher_kind != FetcherKind::BuiltinsFetchGit,
        c.source_ref_key is Some,
        c.source_ref_range is Some,
        source_ref_view(c.source_ref_value) matches SourceRefView::Pure(cur) && spec_is_commit_hash(cur) && cur != n,
        spec_resolution(c, g, Ok(rs)) matches Ok((_, new_ref, _)) && new_ref == Some(n),
        n.len() > 0,
    ensures
        spec_derivation_hash_rev(c, Ok(rs)) == Some(n),
        ref_update(c, Some(n)).len() == 1,
        ref_update(c, Some(n))[0].replacement == quoted(n),
{
}

} // verus!


