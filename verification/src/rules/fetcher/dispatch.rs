//! What a fetcher call should become: given the call, what listing the
//! remote's refs gave and what computing a hash gave, the updates and
//! warnings. Listing refs and computing hashes are left to the caller, who
//! learns from [`fetcher_hash_rev`] which revision to hash.
use vstd::prelude::*;

use crate::parser::{ParsedAttrs, TextRange};
use crate::rules::fetcher::extract::FetcherCall;
use crate::rules::fetcher::follow::{
    opt_follow_view, parse_follow_spec, refs_result_view, resolve_follow, spec_parse_follow, spec_resolve_follow,
};
use crate::rules::fetcher::kind::{kind_git_url, kind_name, FetcherKind};
use crate::rules::fetcher::{
    preferred_ref_key, resolve_ref_for_prefetch, spec_preferred_ref_key, spec_version_ref, version_ref_key_and_value,
};
use crate::rules::traits::{
    updates_view, warnings_view, CheckResult, CheckWarning, CheckWarningView, Update, UpdateGroup, UpdateView,
};
use crate::utils::fetch::{opt_string_view, refs_view, spec_latest_tag, GitFetcher, GitRef, GitRefView};
use crate::utils::nar::NarHash;
use crate::utils::version::{version_order, VersionDetector};

verus! {

/// `s` between double quotes.
pub open spec fn quoted(s: Seq<char>) -> Seq<char> {
    "\""@ + s + "\""@
}

/// Where the string literal of `key` stands, if `key` is bound to one.
pub open spec fn range_of(p: ParsedAttrs, key: Seq<char>) -> Option<TextRange> {
    if p.string_nodes@.contains_key(key) {
        Some(p.string_nodes@[key].range)
    } else {
        None
    }
}

/// The one update of `field` at `range`, if there is a range.
pub open spec fn update_at(field: Seq<char>, replacement: Seq<char>, range: Option<TextRange>) -> Seq<UpdateView> {
    match range {
        Some(r) => seq![UpdateView { field, replacement, range: r }],
        None => Seq::empty(),
    }
}

/// The attribute that holds the commit of a call: `rev` when present,
/// otherwise `ref` for `builtins.fetchGit`, else `rev`.
pub open spec fn spec_ref_key(c: FetcherCall) -> Seq<char> {
    if c.parsed.strings@.contains_key("rev"@) {
        "rev"@
    } else if c.kind == FetcherKind::BuiltinsFetchGit {
        "ref"@
    } else {
        "rev"@
    }
}

/// The commit-ish a call names now: `rev`, else `ref`.
pub open spec fn current_ref(c: FetcherCall) -> Option<Seq<char>> {
    let s = c.parsed.strings@;
    if s.contains_key("rev"@) {
        Some(s["rev"@])
    } else if s.contains_key("ref"@) {
        Some(s["ref"@])
    } else {
        None
    }
}

/// The commit a followed call moves to: the resolved one, unless the call
/// names it already or has no literal to write it into.
pub open spec fn followed_sha(c: FetcherCall, sha: Option<Seq<char>>) -> Option<Seq<char>> {
    match sha {
        None => None,
        Some(s) => if current_ref(c) == Some(s) {
            None
        } else if range_of(c.parsed, spec_ref_key(c)) is Some {
            Some(s)
        } else {
            None
        },
    }
}

/// What listing the remote's refs decides for a git fetcher call: the
/// updates of its ref, the warnings, and the revision it moves to.
/// A pinned call stays. A call with a `# follow:` comment moves to the
/// commit the directive leads to; another moves to the latest tag with the
/// prefix of its version tag when that is a greater version.
pub open spec fn spec_fetcher_refs(c: FetcherCall, git_url: Seq<char>, refs: Result<Seq<GitRefView>, Seq<char>>) -> (
    Seq<UpdateView>,
    Seq<CheckWarningView>,
    Option<Seq<char>>,
) {
    let name = kind_name(c.kind);
    if c.pinned {
        (Seq::empty(), Seq::empty(), None)
    } else {
        match c.follow {
            Some(fs) => {
                let (sp, ws) = spec_parse_follow(fs@);
                match sp {
                    None => (Seq::empty(), ws, None),
                    Some(spv) => {
                        let (sha, ws2) = spec_resolve_follow(spv, git_url, refs);
                        let new_sha = followed_sha(c, sha);
                        let ups = match new_sha {
                            Some(s) => update_at(name + ".rev"@, quoted(s), range_of(c.parsed, spec_ref_key(c))),
                            None => Seq::empty(),
                        };
                        (ups, ws + ws2, new_sha)
                    },
                }
            },
            None => match spec_version_ref(c.kind, c.parsed.strings@) {
                None => (Seq::empty(), Seq::empty(), None),
                Some((key, cur)) => match refs {
                    Err(e) => (
                        Seq::empty(),
                        seq![CheckWarningView::FollowResolutionFailed { git_url, source: e }],
                        None,
                    ),
                    Ok(rs) => match spec_latest_tag(rs, Some(cur)) {
                        Some(l) => if version_order(cur, l) == -1 {
                            (update_at(name + "."@ + key, quoted(l), range_of(c.parsed, key)), Seq::empty(), Some(l))
                        } else {
                            (Seq::empty(), Seq::empty(), None)
                        },
                        None => (Seq::empty(), Seq::empty(), None),
                    },
                },
            },
        }
    }
}

/// Whether the call has a `hash` or `sha256` literal.
pub open spec fn has_hash_field(p: ParsedAttrs) -> bool {
    p.string_nodes@.contains_key("hash"@) || p.string_nodes@.contains_key("sha256"@)
}

/// Whether `hash` or `sha256` is the empty string.
pub open spec fn has_empty_hash(p: ParsedAttrs) -> bool {
    (p.strings@.contains_key("hash"@) && p.strings@["hash"@].len() == 0) || (p.strings@.contains_key("sha256"@)
        && p.strings@["sha256"@].len() == 0)
}

/// The revision named by the call's preferred ref attribute, when not empty.
pub open spec fn current_rev(p: ParsedAttrs) -> Option<Seq<char>> {
    match spec_preferred_ref_key(p.strings@) {
        Some(k) => if p.strings@[k].len() > 0 {
            Some(p.strings@[k])
        } else {
            None
        },
        None => None,
    }
}

/// The revision whose hash the call needs: the one it moves to, or, when it
/// stays and its hash is empty, the one it names; only for a fetcher with a
/// hash, and only when the call has a hash literal to write.
pub open spec fn spec_hash_rev(c: FetcherCall, new_rev: Option<Seq<char>>) -> Option<Seq<char>> {
    if c.kind == FetcherKind::BuiltinsFetchGit || !has_hash_field(c.parsed) {
        None
    } else {
        match new_rev {
            Some(rev) => Some(rev),
            None => if has_empty_hash(c.parsed) {
                current_rev(c.parsed)
            } else {
                None
            },
        }
    }
}

/// The updates of the `hash` and `sha256` literals to a computed hash.
pub open spec fn hash_updates(p: ParsedAttrs, name: Seq<char>, h: NarHash) -> Seq<UpdateView> {
    update_at(name + ".hash"@, quoted(h.sri@), range_of(p, "hash"@)) + update_at(
        name + ".sha256"@,
        quoted(h.nix32@),
        range_of(p, "sha256"@),
    )
}

/// A check's outcome as groups of updates and warnings.
pub struct CheckResultView {
    pub groups: Seq<Seq<UpdateView>>,
    pub warnings: Seq<CheckWarningView>,
}

pub open spec fn result_view(r: CheckResult) -> CheckResultView {
    CheckResultView {
        groups: r.groups@.map_values(|g: UpdateGroup| updates_view(g.updates@)),
        warnings: warnings_view(r.warnings@),
    }
}

/// The updates as one group, if there are any.
pub open spec fn grouped(ups: Seq<UpdateView>, ws: Seq<CheckWarningView>) -> CheckResultView {
    if ups.len() == 0 {
        CheckResultView { groups: Seq::empty(), warnings: ws }
    } else {
        CheckResultView { groups: seq![ups], warnings: ws }
    }
}

/// Adds what computing the hash gave: its updates, or, on failure, a
/// warning that drops all updates.
pub open spec fn with_hash(
    p: ParsedAttrs,
    name: Seq<char>,
    url: Seq<char>,
    rev: Option<Seq<char>>,
    hash: Option<Result<NarHash, String>>,
    ups: Seq<UpdateView>,
    ws: Seq<CheckWarningView>,
) -> CheckResultView {
    match rev {
        None => grouped(ups, ws),
        Some(r) => match hash {
            None => grouped(ups, ws),
            Some(Ok(h)) => grouped(ups + hash_updates(p, name, h), ws),
            Some(Err(e)) => CheckResultView {
                groups: Seq::empty(),
                warnings: ws.push(CheckWarningView::HashPrefetchFailed { url, rev: r, source: e@ }),
            },
        },
    }
}

/// What a git fetcher call becomes, given what listing the remote's refs
/// gave and what computing the hash of [`spec_hash_rev`] gave (`None`: not
/// computed). A call without a git URL gives nothing.
pub open spec fn spec_check_fetcher(
    c: FetcherCall,
    refs: Result<Seq<GitRefView>, Seq<char>>,
    hash: Option<Result<NarHash, String>>,
) -> CheckResultView {
    match kind_git_url(c.kind, c.parsed.strings@) {
        None => CheckResultView { groups: Seq::empty(), warnings: Seq::empty() },
        Some(u) => {
            let (ups, ws, new_rev) = spec_fetcher_refs(c, u, refs);
            with_hash(c.parsed, kind_name(c.kind), u, spec_hash_rev(c, new_rev), hash, ups, ws)
        },
    }
}

fn quote(s: &str) -> (r: String)
    ensures
        r@ == quoted(s@),
{
    proof { reveal_strlit("\""); }
    let mut r = String::from_str("\"");
    r.append(s);
    r.append("\"");
    r
}

fn dotted(a: &str, b: &str) -> (r: String)
    ensures
        r@ == a@ + "."@ + b@,
{
    proof { reveal_strlit("."); }
    let mut r = String::from_str(a);
    r.append(".");
    r.append(b);
    r
}

/// Pushes the update of `field` at the literal of `key`, if there is one.
fn push_update_at(updates: &mut Vec<Update>, p: &ParsedAttrs, key: &str, field: &str, replacement: &str)
    ensures
        updates_view(final(updates)@) == updates_view(old(updates)@) + update_at(field@, replacement@, range_of(*p, key@)),
{
    match p.string_range(key) {
        Some(range) => {
            let ghost before = updates_view(updates@);
            updates.push(Update::new(field, replacement, range));
            assert(updates_view(updates@) =~= before + update_at(field@, replacement@, range_of(*p, key@)));
        },
        None => {
            assert(updates_view(updates@) =~= updates_view(updates@) + update_at(
                field@,
                replacement@,
                range_of(*p, key@),
            ));
        },
    }
}

/// The attribute that holds the commit of the call (see [`spec_ref_key`]).
fn ref_key(call: &FetcherCall) -> (r: &'static str)
    ensures
        r@ == spec_ref_key(*call),
{
    proof {
        reveal_strlit("rev");
        reveal_strlit("ref");
    }
    if call.parsed.strings.contains_key("rev") {
        "rev"
    } else if call.kind == FetcherKind::BuiltinsFetchGit {
        "ref"
    } else {
        "rev"
    }
}

fn current_ref_exec(call: &FetcherCall) -> (r: Option<&String>)
    ensures
        match r {
            Some(s) => current_ref(*call) == Some(s@),
            None => current_ref(*call) is None,
        },
{
    match call.parsed.strings.get("rev") {
        Some(r) => Some(r),
        None => call.parsed.strings.get("ref"),
    }
}

fn str_eq(a: &str, b: &str) -> (r: bool)
    ensures
        r == (a@ == b@),
{
    let va = crate::text::chars_of(a);
    crate::text::eq_str(&va, b)
}

/// The updates, warnings and new revision that listing the refs decides
/// (see [`spec_fetcher_refs`]).
fn fetcher_refs(call: &FetcherCall, git_url: &str, refs: &Result<Vec<GitRef>, String>) -> (r: (
    Vec<Update>,
    Vec<CheckWarning>,
    Option<String>,
))
    ensures
        (updates_view(r.0@), warnings_view(r.1@), opt_string_view(r.2)) == spec_fetcher_refs(
            *call,
            git_url@,
            refs_result_view(*refs),
        ),
{
    proof {
        reveal_strlit(".rev");
    }
    let mut updates: Vec<Update> = Vec::new();
    let mut warnings: Vec<CheckWarning> = Vec::new();
    assert(updates_view(updates@) =~= Seq::<UpdateView>::empty());
    assert(warnings_view(warnings@) =~= Seq::<CheckWarningView>::empty());
    if call.pinned {
        return (updates, warnings, None);
    }
    let name = call.kind.name();
    match &call.follow {
        Some(fs) => {
            let (spec, ws) = parse_follow_spec(fs.as_str());
            match spec {
                None => (updates, ws, None),
                Some(sp) => {
                    let (sha, ws2) = resolve_follow(&sp, git_url, refs);
                    let mut ws = ws;
                    let mut ws2 = ws2;
                    let ghost w1 = warnings_view(ws@);
                    let ghost w2 = warnings_view(ws2@);
                    ws.append(&mut ws2);
                    assert(warnings_view(ws@) =~= w1 + w2);
                    let key = ref_key(call);
                    let new_sha = match sha {
                        None => None,
                        Some(s) => {
                            let same = match current_ref_exec(call) {
                                Some(cur) => str_eq(cur.as_str(), s.as_str()),
                                None => false,
                            };
                            if same {
                                None
                            } else if call.parsed.string_range(key).is_some() {
                                Some(s)
                            } else {
                                None
                            }
                        },
                    };
                    match &new_sha {
                        Some(s) => {
                            let field = concat_str(name, ".rev");
                            let q = quote(s.as_str());
                            push_update_at(&mut updates, &call.parsed, key, field.as_str(), q.as_str());
                        },
                        None => {},
                    }
                    (updates, ws, new_sha)
                },
            }
        },
        None => match version_ref_key_and_value(call.kind, &call.parsed) {
            None => (updates, warnings, None),
            Some((key, cur)) => match refs {
                Err(e) => {
                    warnings.push(
                        CheckWarning::FollowResolutionFailed { git_url: String::from_str(git_url), source: e.clone() },
                    );
                    assert(warnings_view(warnings@) =~= seq![
                        CheckWarningView::FollowResolutionFailed { git_url: git_url@, source: e@ },
                    ]);
                    (updates, warnings, None)
                },
                Ok(rs) => match GitFetcher::get_latest_tag_matching(rs.as_slice(), Some(cur.as_str())) {
                    Some(l) => {
                        if VersionDetector::order(cur.as_str(), l.as_str()) == -1 {
                            let field = dotted(name, key);
                            let q = quote(l.as_str());
                            push_update_at(&mut updates, &call.parsed, key, field.as_str(), q.as_str());
                            (updates, warnings, Some(l))
                        } else {
                            (updates, warnings, None)
                        }
                    },
                    None => (updates, warnings, None),
                },
            },
        },
    }
}

fn concat_str(a: &str, b: &str) -> (r: String)
    ensures
        r@ == a@ + b@,
{
    let mut r = String::from_str(a);
    r.append(b);
    r
}

fn has_empty_string(p: &ParsedAttrs, key: &str) -> (b: bool)
    ensures
        b == (p.strings@.contains_key(key@) && p.strings@[key@].len() == 0),
{
    match p.strings.get(key) {
        Some(v) => v.unicode_len() == 0,
        None => false,
    }
}

/// The revision whose hash a call needs, given the one it moves to (see
/// [`spec_hash_rev`]).
fn hash_rev(call: &FetcherCall, git_url: &str, new_rev: &Option<String>) -> (r: Option<String>)
    ensures
        opt_string_view(r) == spec_hash_rev(*call, opt_string_view(*new_rev)),
{
    if !call.kind.needs_hash() || !(call.parsed.has_string("hash") || call.parsed.has_string("sha256")) {
        return None;
    }
    match new_rev {
        Some(rev) => Some(rev.clone()),
        None => {
            if !(has_empty_string(&call.parsed, "hash") || has_empty_string(&call.parsed, "sha256")) {
                return None;
            }
            let key = match preferred_ref_key(&call.parsed) {
                Some(k) => k,
                None => return None,
            };
            match call.parsed.strings.get(key) {
                Some(v) => resolve_ref_for_prefetch(git_url, v.as_str()),
                None => None,
            }
        },
    }
}

/// The revision whose hash a git fetcher call needs, given what listing the
/// remote's refs gave; `None` when no hash is to be computed.
pub fn fetcher_hash_rev(call: &FetcherCall, refs: &Result<Vec<GitRef>, String>) -> (r: Option<String>)
    ensures
        opt_string_view(r) == match kind_git_url(call.kind, call.parsed.strings@) {
            None => None,
            Some(u) => spec_hash_rev(*call, spec_fetcher_refs(*call, u, refs_result_view(*refs)).2),
        },
{
    let git_url = match call.kind.git_url(&call.parsed) {
        Some(u) => u,
        None => return None,
    };
    let (_, _, new_rev) = fetcher_refs(call, git_url.as_str(), refs);
    hash_rev(call, git_url.as_str(), &new_rev)
}

/// Adds the updates of the `hash` and `sha256` literals.
fn push_hash_updates(p: &ParsedAttrs, name: &str, h: &NarHash, updates: &mut Vec<Update>)
    ensures
        updates_view(final(updates)@) == updates_view(old(updates)@) + hash_updates(*p, name@, *h),
{
    proof {
        reveal_strlit(".hash");
        reveal_strlit(".sha256");
        reveal_strlit("hash");
        reveal_strlit("sha256");
    }
    let ghost before = updates_view(updates@);
    let f1 = concat_str(name, ".hash");
    let q1 = quote(h.sri.as_str());
    push_update_at(updates, p, "hash", f1.as_str(), q1.as_str());
    let f2 = concat_str(name, ".sha256");
    let q2 = quote(h.nix32.as_str());
    push_update_at(updates, p, "sha256", f2.as_str(), q2.as_str());
    assert(updates_view(updates@) =~= before + hash_updates(*p, name@, *h));
}

/// The updates as one group, if there are any.
fn group(updates: Vec<Update>, warnings: Vec<CheckWarning>) -> (r: CheckResult)
    ensures
        result_view(r) == grouped(updates_view(updates@), warnings_view(warnings@)),
{
    if updates.len() == 0 {
        let r = CheckResult { groups: Vec::new(), warnings };
        assert(result_view(r).groups =~= Seq::<Seq<UpdateView>>::empty());
        r
    } else {
        let ghost u = updates_view(updates@);
        let mut groups: Vec<UpdateGroup> = Vec::new();
        groups.push(UpdateGroup::new(updates));
        let r = CheckResult { groups, warnings };
        assert(result_view(r).groups =~= seq![u]);
        r
    }
}

/// Adds what computing the hash gave (see [`with_hash`]).
fn finish(
    p: &ParsedAttrs,
    name: &str,
    url: &str,
    rev: Option<String>,
    hash: &Option<Result<NarHash, String>>,
    updates: Vec<Update>,
    warnings: Vec<CheckWarning>,
) -> (r: CheckResult)
    ensures
        result_view(r) == with_hash(
            *p,
            name@,
            url@,
            opt_string_view(rev),
            *hash,
            updates_view(updates@),
            warnings_view(warnings@),
        ),
{
    let mut updates = updates;
    let mut warnings = warnings;
    match rev {
        None => group(updates, warnings),
        Some(r) => match hash {
            None => group(updates, warnings),
            Some(Ok(h)) => {
                push_hash_updates(p, name, h, &mut updates);
                group(updates, warnings)
            },
            Some(Err(e)) => {
                let ghost before = warnings_view(warnings@);
                warnings.push(CheckWarning::HashPrefetchFailed { url: String::from_str(url), rev: r, source: e.clone() });
                assert(warnings_view(warnings@) =~= before.push(
                    CheckWarningView::HashPrefetchFailed { url: url@, rev: r@, source: e@ },
                ));
                let res = CheckResult::with_warnings(warnings);
                assert(result_view(res).groups =~= Seq::<Seq<UpdateView>>::empty());
                res
            },
        },
    }
}

/// What a git fetcher call becomes (see [`spec_check_fetcher`]), given the
/// outcome of listing the remote's refs and of computing the hash of the
/// revision [`fetcher_hash_rev`] names.
pub fn check_fetcher_call(
    call: &FetcherCall,
    refs: &Result<Vec<GitRef>, String>,
    hash: &Option<Result<NarHash, String>>,
) -> (r: CheckResult)
    ensures
        result_view(r) == spec_check_fetcher(*call, refs_result_view(*refs), *hash),
{
    let git_url = match call.kind.git_url(&call.parsed) {
        Some(u) => u,
        None => {
            let r = CheckResult::empty();
            assert(result_view(r).groups =~= Seq::<Seq<UpdateView>>::empty());
            assert(result_view(r).warnings =~= Seq::<CheckWarningView>::empty());
            return r;
        },
    };
    let (updates, warnings, new_rev) = fetcher_refs(call, git_url.as_str(), refs);
    let rev = hash_rev(call, git_url.as_str(), &new_rev);
    finish(&call.parsed, call.kind.name(), git_url.as_str(), rev, hash, updates, warnings)
}

} // verus!

verus! {

/// The remote whose refs a git fetcher call needs listed: its git URL,
/// when it is not pinned and either follows a directive that reads, or
/// names a version tag.
pub open spec fn spec_fetcher_refs_url(c: FetcherCall) -> Option<Seq<char>> {
    match kind_git_url(c.kind, c.parsed.strings@) {
        None => None,
        Some(u) => if c.pinned {
            None
        } else {
            match c.follow {
                Some(fs) => if spec_parse_follow(fs@).0 is Some {
                    Some(u)
                } else {
                    None
                },
                None => if spec_version_ref(c.kind, c.parsed.strings@) is Some {
                    Some(u)
                } else {
                    None
                },
            }
        },
    }
}

/// The remote whose refs a git fetcher call needs listed, if any (see
/// [`spec_fetcher_refs_url`]); what the listing gives is not read otherwise.
pub fn fetcher_refs_url(call: &FetcherCall) -> (r: Option<String>)
    ensures
        opt_string_view(r) == spec_fetcher_refs_url(*call),
{
    let git_url = match call.kind.git_url(&call.parsed) {
        Some(u) => u,
        None => return None,
    };
    if call.pinned {
        return None;
    }
    match &call.follow {
        Some(fs) => {
            let (spec, _) = parse_follow_spec(fs.as_str());
            if spec.is_some() {
                Some(git_url)
            } else {
                None
            }
        },
        None => if version_ref_key_and_value(call.kind, &call.parsed).is_some() {
            Some(git_url)
        } else {
            None
        },
    }
}

} // verus!

verus! {

/// The URL a `fetchpatch` or `fetchTarball` call moves to, given what
/// listing the remote's refs gave (`None`: it stays), with the warnings.
/// Only a URL of a known forge moves: with a `# follow:` comment, to the
/// commit the directive leads to when it differs from the URL's ref;
/// otherwise, when the URL's ref is a version, to the latest tag with its
/// prefix when that is a greater version.
pub open spec fn spec_url_refs(c: FetcherCall, url: Seq<char>, refs: Result<Seq<GitRefView>, Seq<char>>) -> (
    Option<Seq<char>>,
    Seq<CheckWarningView>,
) {
    let pu = crate::rules::fetcher::source_url::spec_parse_source_url(url);
    if c.pinned {
        (None, Seq::empty())
    } else {
        match c.follow {
            Some(fs) => {
                let (sp, ws) = spec_parse_follow(fs@);
                match (sp, pu) {
                    (Some(spv), Some(u)) => {
                        let git = "https://"@ + u.domain + "/"@ + u.project;
                        let (res, ws2) = spec_resolve_follow(spv, git, refs);
                        match res {
                            Some(sha) => if crate::rules::fetcher::source_url::current_ref_of(u.ref_type) != sha {
                                (Some(crate::rules::fetcher::source_url::replace_ref_url(u, sha)), ws + ws2)
                            } else {
                                (None, ws + ws2)
                            },
                            None => (None, ws + ws2),
                        }
                    },
                    _ => (None, ws),
                }
            },
            None => match pu {
                Some(u) => {
                    let cur = crate::rules::fetcher::source_url::current_ref_of(u.ref_type);
                    if crate::utils::version::is_version(cur) {
                        let git = "https://"@ + u.domain + "/"@ + u.project;
                        match refs {
                            Err(e) => (None, seq![CheckWarningView::FollowResolutionFailed { git_url: git, source: e }]),
                            Ok(rs) => match spec_latest_tag(rs, Some(cur)) {
                                Some(l) => if version_order(cur, l) == -1 {
                                    (Some(crate::rules::fetcher::source_url::replace_ref_url(u, l)), Seq::empty())
                                } else {
                                    (None, Seq::empty())
                                },
                                None => (None, Seq::empty()),
                            },
                        }
                    } else {
                        (None, Seq::empty())
                    }
                },
                None => (None, Seq::empty()),
            },
        }
    }
}

/// The remote whose refs a `fetchpatch` or `fetchTarball` call needs
/// listed: that of its (first) URL when it is a known forge's, the call is
/// not pinned, and it either follows a directive that reads or names a
/// version.
pub open spec fn spec_url_refs_url(c: FetcherCall) -> Option<Seq<char>> {
    match crate::rules::fetcher::kind::first_url(c.parsed) {
        None => None,
        Some(url) => match crate::rules::fetcher::source_url::spec_parse_source_url(url) {
            None => None,
            Some(u) => {
                let git = "https://"@ + u.domain + "/"@ + u.project;
                if c.pinned {
                    None
                } else {
                    match c.follow {
                        Some(fs) => if spec_parse_follow(fs@).0 is Some {
                            Some(git)
                        } else {
                            None
                        },
                        None => if crate::utils::version::is_version(
                            crate::rules::fetcher::source_url::current_ref_of(u.ref_type),
                        ) {
                            Some(git)
                        } else {
                            None
                        },
                    }
                }
            },
        },
    }
}

fn first_url_exec(p: &ParsedAttrs) -> (r: Option<String>)
    ensures
        opt_string_view(r) == crate::rules::fetcher::kind::first_url(*p),
{
    match p.strings.get("url") {
        Some(u) => Some(u.clone()),
        None => {
            if !p.list_strings.contains_key("urls") {
                return None;
            }
            match p.pure_string_list("urls") {
                Some(urls) => {
                    if urls.len() > 0 {
                        Some(urls[0].clone())
                    } else {
                        None
                    }
                },
                None => None,
            }
        },
    }
}

/// The remote whose refs a `fetchpatch` or `fetchTarball` call needs
/// listed, if any (see [`spec_url_refs_url`]).
pub fn url_refs_url(call: &FetcherCall) -> (r: Option<String>)
    ensures
        opt_string_view(r) == spec_url_refs_url(*call),
{
    let url = match first_url_exec(&call.parsed) {
        Some(u) => u,
        None => return None,
    };
    let pu = match crate::rules::fetcher::source_url::parse_source_url(url.as_str()) {
        Some(p) => p,
        None => return None,
    };
    let git = pu.git_remote_url();
    if call.pinned {
        return None;
    }
    match &call.follow {
        Some(fs) => {
            let (spec, _) = parse_follow_spec(fs.as_str());
            if spec.is_some() {
                Some(git)
            } else {
                None
            }
        },
        None => if pu.is_version_ref() {
            Some(git)
        } else {
            None
        },
    }
}

/// The URL a `fetchpatch` or `fetchTarball` call moves to (see
/// [`spec_url_refs`]).
fn url_refs(call: &FetcherCall, url: &str, refs: &Result<Vec<GitRef>, String>) -> (r: (
    Option<String>,
    Vec<CheckWarning>,
))
    ensures
        (opt_string_view(r.0), warnings_view(r.1@)) == spec_url_refs(*call, url@, refs_result_view(*refs)),
{
    let mut warnings: Vec<CheckWarning> = Vec::new();
    assert(warnings_view(warnings@) =~= Seq::<CheckWarningView>::empty());
    let pu = crate::rules::fetcher::source_url::parse_source_url(url);
    if call.pinned {
        return (None, warnings);
    }
    match &call.follow {
        Some(fs) => {
            let (spec, ws) = parse_follow_spec(fs.as_str());
            match (spec, pu) {
                (Some(sp), Some(u)) => {
                    let git = u.git_remote_url();
                    let (res, ws2) = resolve_follow(&sp, git.as_str(), refs);
                    let mut ws = ws;
                    let mut ws2 = ws2;
                    let ghost w1 = warnings_view(ws@);
                    let ghost w2 = warnings_view(ws2@);
                    ws.append(&mut ws2);
                    assert(warnings_view(ws@) =~= w1 + w2);
                    match res {
                        Some(sha) => if !str_eq(u.current_ref(), sha.as_str()) {
                            (Some(u.replace_ref(sha.as_str())), ws)
                        } else {
                            (None, ws)
                        },
                        None => (None, ws),
                    }
                },
                _ => (None, ws),
            }
        },
        None => match pu {
            Some(u) => {
                if !u.is_version_ref() {
                    return (None, warnings);
                }
                let git = u.git_remote_url();
                let cur = u.current_ref();
                match refs {
                    Err(e) => {
                        warnings.push(CheckWarning::FollowResolutionFailed { git_url: git, source: e.clone() });
                        assert(warnings_view(warnings@) =~= spec_url_refs(*call, url@, refs_result_view(*refs)).1);
                        (None, warnings)
                    },
                    Ok(rs) => match GitFetcher::get_latest_tag_matching(rs.as_slice(), Some(cur)) {
                        Some(l) => if VersionDetector::order(cur, l.as_str()) == -1 {
                            (Some(u.replace_ref(l.as_str())), warnings)
                        } else {
                            (None, warnings)
                        },
                        None => (None, warnings),
                    },
                }
            },
            None => (None, warnings),
        },
    }
}

} // verus!

verus! {

pub open spec fn nonempty_string(p: ParsedAttrs, key: Seq<char>) -> bool {
    p.strings@.contains_key(key) && p.strings@[key].len() > 0
}

pub open spec fn empty_string(p: ParsedAttrs, key: Seq<char>) -> bool {
    p.strings@.contains_key(key) && p.strings@[key].len() == 0
}

/// The contents of the list of strings at `key`, when it has no
/// interpolation.
pub open spec fn pure_list(p: ParsedAttrs, key: Seq<char>) -> Option<Seq<Seq<char>>> {
    if p.list_strings@.contains_key(key) {
        crate::parser::ast::pure_list_prefix(p.list_strings@[key], p.list_strings@[key].len() as int)
    } else {
        None
    }
}

pub open spec fn nonempty_list(p: ParsedAttrs, key: Seq<char>) -> bool {
    pure_list(p, key) matches Some(v) && v.len() > 0
}

pub open spec fn flag_set(p: ParsedAttrs, key: Seq<char>) -> bool {
    p.bools@.contains_key(key) && p.bools@[key]
}

/// Whether the hash of a `fetchpatch` call can be computed here: no
/// post-fetch step, download options, other hash algorithm or decoder.
pub open spec fn patch_hashable(p: ParsedAttrs) -> bool {
    &&& !nonempty_string(p, "postFetch"@)
    &&& !nonempty_string(p, "curlOpts"@)
    &&& !nonempty_list(p, "curlOptsList"@)
    &&& !nonempty_string(p, "netrcPhase"@)
    &&& !nonempty_list(p, "netrcImpureEnvVars"@)
    &&& !flag_set(p, "recursiveHash"@)
    &&& !flag_set(p, "showURLs"@)
    &&& !nonempty_string(p, "sha1"@)
    &&& !nonempty_string(p, "sha512"@)
    &&& !(p.strings@.contains_key("outputHashAlgo"@) && p.strings@["outputHashAlgo"@] != "sha256"@)
    &&& (!p.strings@.contains_key("decode"@) || p.strings@["decode"@] == "cat"@)
}

/// Whether a `fetchpatch` call needs its hash computed: its URL moved or a
/// hash is empty, it can be computed here, and there is a hash to write.
pub open spec fn patch_wants_hash(p: ParsedAttrs, moved: bool) -> bool {
    &&& (moved || empty_string(p, "hash"@) || empty_string(p, "sha256"@) || empty_string(p, "outputHash"@))
    &&& patch_hashable(p)
    &&& (p.string_nodes@.contains_key("hash"@) || p.string_nodes@.contains_key("sha256"@)
        || p.string_nodes@.contains_key("outputHash"@))
}

/// Whether a `fetchTarball` call needs its hash computed.
pub open spec fn tarball_wants_hash(c: FetcherCall, moved: bool) -> bool {
    &&& (moved || empty_string(c.parsed, "hash"@) || empty_string(c.parsed, "sha256"@))
    &&& c.kind != FetcherKind::BuiltinsFetchGit
    &&& has_hash_field(c.parsed)
}

/// The `fetchpatch` options of the call: `stripLen` when not negative,
/// `relative`, `extraPrefix`, the `excludes` and `includes` lists, the
/// `hunks` that are not negative, and `revert`.
pub open spec fn spec_patch_options(p: ParsedAttrs, o: crate::utils::patch::PatchOptions) -> bool {
    &&& o.strip_len as int == (if p.ints@.contains_key("stripLen"@) && p.ints@["stripLen"@] >= 0
        && p.ints@["stripLen"@] <= usize::MAX {
        p.ints@["stripLen"@] as int
    } else {
        0
    })
    &&& opt_string_view(o.relative) == (if p.strings@.contains_key("relative"@) {
        Some(p.strings@["relative"@])
    } else {
        None
    })
    &&& opt_string_view(o.extra_prefix) == (if p.strings@.contains_key("extraPrefix"@) {
        Some(p.strings@["extraPrefix"@])
    } else {
        None
    })
    &&& crate::parser::tree::strings_view(o.excludes@) == (match pure_list(p, "excludes"@) {
        Some(v) => v,
        None => Seq::empty(),
    })
    &&& crate::parser::tree::strings_view(o.includes@) == (match pure_list(p, "includes"@) {
        Some(v) => v,
        None => Seq::empty(),
    })
    &&& o.hunks@.map_values(|h: usize| h as int) == (if p.list_ints@.contains_key("hunks"@) {
        nonneg(p.list_ints@["hunks"@], p.list_ints@["hunks"@].len() as int)
    } else {
        Seq::empty()
    })
    &&& o.revert == flag_set(p, "revert"@)
}

/// The entries of `v[..n]` that are not negative (and fit a `usize`).
pub open spec fn nonneg(v: Seq<i64>, n: int) -> Seq<int>
    decreases n,
{
    if n <= 0 {
        Seq::empty()
    } else if v[n - 1] >= 0 && v[n - 1] <= usize::MAX {
        nonneg(v, n - 1).push(v[n - 1] as int)
    } else {
        nonneg(v, n - 1)
    }
}

} // verus!

verus! {

/// The `fetchpatch` options of the call (see [`spec_patch_options`]).
pub fn patch_options(p: &ParsedAttrs) -> (o: crate::utils::patch::PatchOptions)
    ensures
        spec_patch_options(*p, o),
{
    let strip_len: usize = match p.ints.get("stripLen") {
        Some(n) => if *n >= 0 && (*n as u64) <= (usize::MAX as u64) {
            *n as usize
        } else {
            0
        },
        None => 0,
    };
    let relative = match p.strings.get("relative") {
        Some(s) => Some(s.clone()),
        None => None,
    };
    let extra_prefix = match p.strings.get("extraPrefix") {
        Some(s) => Some(s.clone()),
        None => None,
    };
    let excludes = match p.pure_string_list("excludes") {
        Some(v) => v,
        None => {
            let v: Vec<String> = Vec::new();
            assert(crate::parser::tree::strings_view(v@) =~= Seq::<Seq<char>>::empty());
            v
        },
    };
    let includes = match p.pure_string_list("includes") {
        Some(v) => v,
        None => {
            let v: Vec<String> = Vec::new();
            assert(crate::parser::tree::strings_view(v@) =~= Seq::<Seq<char>>::empty());
            v
        },
    };
    let mut hunks: Vec<usize> = Vec::new();
    match p.list_ints.get("hunks") {
        Some(v) => {
            let mut i: usize = 0;
            while i < v.len()
                invariant
                    i <= v@.len(),
                    hunks@.map_values(|h: usize| h as int) == nonneg(v@, i as int),
                decreases v.len() - i,
            {
                let x = v[i];
                if x >= 0 && (x as u64) <= (usize::MAX as u64) {
                    hunks.push(x as usize);
                    assert(hunks@.map_values(|h: usize| h as int) =~= nonneg(v@, i as int).push(x as int));
                }
                i += 1;
            }
        },
        None => {
            assert(hunks@.map_values(|h: usize| h as int) =~= Seq::<int>::empty());
        },
    }
    let revert = match p.bools.get("revert") {
        Some(b) => *b,
        None => false,
    };
    crate::utils::patch::PatchOptions { strip_len, relative, extra_prefix, excludes, includes, hunks, revert }
}

} // verus!

verus! {

/// The updates of the `hash`, `sha256` and `outputHash` literals of a
/// `fetchpatch` call.
pub open spec fn patch_hash_updates(p: ParsedAttrs, name: Seq<char>, h: NarHash) -> Seq<UpdateView> {
    hash_updates(p, name, h) + update_at(name + ".outputHash"@, quoted(h.sri@), range_of(p, "outputHash"@))
}

/// Adds what computing a URL's hash gave: `hu` on success; on failure a
/// warning about `url` that drops all updates; nothing when not computed.
pub open spec fn with_url_hash(
    url: Seq<char>,
    hash: Option<Result<NarHash, String>>,
    hu: Seq<UpdateView>,
    ups: Seq<UpdateView>,
    ws: Seq<CheckWarningView>,
) -> CheckResultView {
    match hash {
        None => grouped(ups, ws),
        Some(Ok(_)) => grouped(ups + hu, ws),
        Some(Err(e)) => CheckResultView {
            groups: Seq::empty(),
            warnings: ws.push(CheckWarningView::HashPrefetchFailed { url, rev: Seq::empty(), source: e@ }),
        },
    }
}

pub open spec fn hash_value(hash: Option<Result<NarHash, String>>) -> NarHash {
    hash->Some_0->Ok_0
}

/// The URL a `fetchpatch` or `fetchTarball` call ends at, and the update of
/// its `url` literal.
pub open spec fn moved_url(c: FetcherCall, url: Seq<char>, nu: Option<Seq<char>>) -> (Seq<char>, Seq<UpdateView>) {
    match nu {
        Some(n) => (n, update_at(kind_name(c.kind) + ".url"@, quoted(n), range_of(c.parsed, "url"@))),
        None => (url, Seq::empty()),
    }
}

/// What a `fetchpatch` call becomes, given what listing the remote's refs
/// gave and what hashing the patch gave (`None`: not computed).
pub open spec fn spec_check_patch(
    c: FetcherCall,
    refs: Result<Seq<GitRefView>, Seq<char>>,
    hash: Option<Result<NarHash, String>>,
) -> CheckResultView {
    match crate::rules::fetcher::kind::first_url(c.parsed) {
        None => CheckResultView { groups: Seq::empty(), warnings: Seq::empty() },
        Some(url) => {
            let (nu, ws) = spec_url_refs(c, url, refs);
            let (cur, ups) = moved_url(c, url, nu);
            if patch_wants_hash(c.parsed, nu is Some) {
                with_url_hash(cur, hash, patch_hash_updates(c.parsed, kind_name(c.kind), hash_value(hash)), ups, ws)
            } else {
                grouped(ups, ws)
            }
        },
    }
}

/// What a `fetchTarball` call becomes, given what listing the remote's
/// refs gave and what hashing the tarball gave (`None`: not computed).
pub open spec fn spec_check_tarball(
    c: FetcherCall,
    refs: Result<Seq<GitRefView>, Seq<char>>,
    hash: Option<Result<NarHash, String>>,
) -> CheckResultView {
    match crate::rules::fetcher::kind::first_url(c.parsed) {
        None => CheckResultView { groups: Seq::empty(), warnings: Seq::empty() },
        Some(url) => {
            let (nu, ws) = spec_url_refs(c, url, refs);
            let (cur, ups) = moved_url(c, url, nu);
            if tarball_wants_hash(c, nu is Some) {
                with_url_hash(cur, hash, hash_updates(c.parsed, kind_name(c.kind), hash_value(hash)), ups, ws)
            } else {
                grouped(ups, ws)
            }
        },
    }
}

/// The URL of the patch to hash and how to normalize it, when a
/// `fetchpatch` call needs its hash computed.
pub open spec fn spec_patch_request(c: FetcherCall, refs: Result<Seq<GitRefView>, Seq<char>>) -> Option<Seq<char>> {
    match crate::rules::fetcher::kind::first_url(c.parsed) {
        None => None,
        Some(url) => {
            let (nu, _) = spec_url_refs(c, url, refs);
            if patch_wants_hash(c.parsed, nu is Some) {
                Some(moved_url(c, url, nu).0)
            } else {
                None
            }
        },
    }
}

/// The URL of the tarball to hash, when a `fetchTarball` call needs its
/// hash computed.
pub open spec fn spec_tarball_request(c: FetcherCall, refs: Result<Seq<GitRefView>, Seq<char>>) -> Option<Seq<char>> {
    match crate::rules::fetcher::kind::first_url(c.parsed) {
        None => None,
        Some(url) => {
            let (nu, _) = spec_url_refs(c, url, refs);
            if tarball_wants_hash(c, nu is Some) {
                Some(moved_url(c, url, nu).0)
            } else {
                None
            }
        },
    }
}

fn nonempty_string_exec(p: &ParsedAttrs, key: &str) -> (b: bool)
    ensures
        b == nonempty_string(*p, key@),
{
    match p.strings.get(key) {
        Some(v) => v.unicode_len() > 0,
        None => false,
    }
}

fn nonempty_list_exec(p: &ParsedAttrs, key: &str) -> (b: bool)
    ensures
        b == nonempty_list(*p, key@),
{
    match p.pure_string_list(key) {
        Some(v) => v.len() > 0,
        None => false,
    }
}

fn flag_set_exec(p: &ParsedAttrs, key: &str) -> (b: bool)
    ensures
        b == flag_set(*p, key@),
{
    match p.bools.get(key) {
        Some(v) => *v,
        None => false,
    }
}

fn patch_wants_hash_exec(p: &ParsedAttrs, moved: bool) -> (b: bool)
    ensures
        b == patch_wants_hash(*p, moved),
{
    let changed = moved || has_empty_string(p, "hash") || has_empty_string(p, "sha256") || has_empty_string(
        p,
        "outputHash",
    );
    let other_algo = match p.strings.get("outputHashAlgo") {
        Some(a) => !str_eq(a.as_str(), "sha256"),
        None => false,
    };
    let can_decode = match p.strings.get("decode") {
        Some(d) => str_eq(d.as_str(), "cat"),
        None => true,
    };
    let hashable = !nonempty_string_exec(p, "postFetch") && !nonempty_string_exec(p, "curlOpts")
        && !nonempty_list_exec(p, "curlOptsList") && !nonempty_string_exec(p, "netrcPhase")
        && !nonempty_list_exec(p, "netrcImpureEnvVars") && !flag_set_exec(p, "recursiveHash") && !flag_set_exec(
        p,
        "showURLs",
    ) && !nonempty_string_exec(p, "sha1") && !nonempty_string_exec(p, "sha512") && !other_algo && can_decode;
    let has_source = p.has_string("hash") || p.has_string("sha256") || p.has_string("outputHash");
    changed && hashable && has_source
}

fn tarball_wants_hash_exec(call: &FetcherCall, moved: bool) -> (b: bool)
    ensures
        b == tarball_wants_hash(*call, moved),
{
    (moved || has_empty_string(&call.parsed, "hash") || has_empty_string(&call.parsed, "sha256"))
        && call.kind.needs_hash() && (call.parsed.has_string("hash") || call.parsed.has_string("sha256"))
}

/// The URL a call ends at and the update of its `url` literal.
fn moved_url_exec(call: &FetcherCall, url: String, nu: Option<String>, updates: &mut Vec<Update>) -> (r: String)
    ensures
        r@ == moved_url(*call, url@, opt_string_view(nu)).0,
        updates_view(final(updates)@) == updates_view(old(updates)@) + moved_url(*call, url@, opt_string_view(nu)).1,
{
    proof {
        reveal_strlit(".url");
        reveal_strlit("url");
    }
    match nu {
        Some(n) => {
            let field = concat_str(call.kind.name(), ".url");
            let q = quote(n.as_str());
            push_update_at(updates, &call.parsed, "url", field.as_str(), q.as_str());
            n
        },
        None => {
            assert(updates_view(updates@) =~= updates_view(updates@) + Seq::<UpdateView>::empty());
            url
        },
    }
}

/// The URL of the patch to hash, when a `fetchpatch` call needs its hash
/// computed (see [`spec_patch_request`]); [`patch_options`] says how to
/// normalize it.
pub fn patch_hash_url(call: &FetcherCall, refs: &Result<Vec<GitRef>, String>) -> (r: Option<String>)
    ensures
        opt_string_view(r) == spec_patch_request(*call, refs_result_view(*refs)),
{
    let url = match first_url_exec(&call.parsed) {
        Some(u) => u,
        None => return None,
    };
    let (nu, _) = url_refs(call, url.as_str(), refs);
    if !patch_wants_hash_exec(&call.parsed, nu.is_some()) {
        return None;
    }
    let mut scratch: Vec<Update> = Vec::new();
    Some(moved_url_exec(call, url, nu, &mut scratch))
}

/// The URL of the tarball to hash, when a `fetchTarball` call needs its
/// hash computed (see [`spec_tarball_request`]).
pub fn tarball_hash_url(call: &FetcherCall, refs: &Result<Vec<GitRef>, String>) -> (r: Option<String>)
    ensures
        opt_string_view(r) == spec_tarball_request(*call, refs_result_view(*refs)),
{
    let url = match first_url_exec(&call.parsed) {
        Some(u) => u,
        None => return None,
    };
    let (nu, _) = url_refs(call, url.as_str(), refs);
    if !tarball_wants_hash_exec(call, nu.is_some()) {
        return None;
    }
    let mut scratch: Vec<Update> = Vec::new();
    Some(moved_url_exec(call, url, nu, &mut scratch))
}

/// Adds what computing a URL's hash gave (see [`with_url_hash`]).
fn finish_url(
    url: String,
    hash: &Option<Result<NarHash, String>>,
    hash_ups: Vec<Update>,
    updates: Vec<Update>,
    warnings: Vec<CheckWarning>,
) -> (r: CheckResult)
    ensures
        result_view(r) == with_url_hash(
            url@,
            *hash,
            updates_view(hash_ups@),
            updates_view(updates@),
            warnings_view(warnings@),
        ),
{
    let mut updates = updates;
    let mut hash_ups = hash_ups;
    let mut warnings = warnings;
    match hash {
        None => group(updates, warnings),
        Some(Ok(_)) => {
            let ghost a = updates_view(updates@);
            let ghost b = updates_view(hash_ups@);
            updates.append(&mut hash_ups);
            assert(updates_view(updates@) =~= a + b);
            group(updates, warnings)
        },
        Some(Err(e)) => {
            let ghost before = warnings_view(warnings@);
            warnings.push(CheckWarning::HashPrefetchFailed { url, rev: String::new(), source: e.clone() });
            assert(warnings_view(warnings@) =~= before.push(
                CheckWarningView::HashPrefetchFailed { url: url@, rev: Seq::empty(), source: e@ },
            ));
            let res = CheckResult::with_warnings(warnings);
            assert(result_view(res).groups =~= Seq::<Seq<UpdateView>>::empty());
            res
        },
    }
}

/// The hash updates of a computed hash, if any.
fn computed_hash_updates(
    p: &ParsedAttrs,
    name: &str,
    hash: &Option<Result<NarHash, String>>,
    with_output_hash: bool,
) -> (r: Vec<Update>)
    ensures
        hash matches Some(Ok(h)) ==> updates_view(r@) == if with_output_hash {
            patch_hash_updates(*p, name@, *h)
        } else {
            hash_updates(*p, name@, *h)
        },
{
    proof {
        reveal_strlit(".outputHash");
        reveal_strlit("outputHash");
    }
    let mut ups: Vec<Update> = Vec::new();
    assert(updates_view(ups@) =~= Seq::<UpdateView>::empty());
    match hash {
        Some(Ok(h)) => {
            push_hash_updates(p, name, h, &mut ups);
            assert(updates_view(ups@) =~= hash_updates(*p, name@, *h));
            if with_output_hash {
                let f = concat_str(name, ".outputHash");
                let q = quote(h.sri.as_str());
                push_update_at(&mut ups, p, "outputHash", f.as_str(), q.as_str());
            }
            ups
        },
        _ => ups,
    }
}

/// What a `fetchpatch` call becomes (see [`spec_check_patch`]), given the
/// outcome of listing the remote's refs and of hashing the patch at the URL
/// [`patch_hash_url`] names.
pub fn check_fetchpatch_call(
    call: &FetcherCall,
    refs: &Result<Vec<GitRef>, String>,
    hash: &Option<Result<NarHash, String>>,
) -> (r: CheckResult)
    ensures
        result_view(r) == spec_check_patch(*call, refs_result_view(*refs), *hash),
{
    let url = match first_url_exec(&call.parsed) {
        Some(u) => u,
        None => {
            let r = CheckResult::empty();
            assert(result_view(r).groups =~= Seq::<Seq<UpdateView>>::empty());
            assert(result_view(r).warnings =~= Seq::<CheckWarningView>::empty());
            return r;
        },
    };
    let (nu, warnings) = url_refs(call, url.as_str(), refs);
    let moved = nu.is_some();
    let mut updates: Vec<Update> = Vec::new();
    assert(updates_view(updates@) =~= Seq::<UpdateView>::empty());
    let cur = moved_url_exec(call, url, nu, &mut updates);
    if patch_wants_hash_exec(&call.parsed, moved) {
        let hu = computed_hash_updates(&call.parsed, call.kind.name(), hash, true);
        finish_url(cur, hash, hu, updates, warnings)
    } else {
        group(updates, warnings)
    }
}

/// What a `fetchTarball` call becomes (see [`spec_check_tarball`]), given
/// the outcome of listing the remote's refs and of hashing the tarball at
/// the URL [`tarball_hash_url`] names.
pub fn check_fetchtarball_call(
    call: &FetcherCall,
    refs: &Result<Vec<GitRef>, String>,
    hash: &Option<Result<NarHash, String>>,
) -> (r: CheckResult)
    ensures
        result_view(r) == spec_check_tarball(*call, refs_result_view(*refs), *hash),
{
    let url = match first_url_exec(&call.parsed) {
        Some(u) => u,
        None => {
            let r = CheckResult::empty();
            assert(result_view(r).groups =~= Seq::<Seq<UpdateView>>::empty());
            assert(result_view(r).warnings =~= Seq::<CheckWarningView>::empty());
            return r;
        },
    };
    let (nu, warnings) = url_refs(call, url.as_str(), refs);
    let moved = nu.is_some();
    let mut updates: Vec<Update> = Vec::new();
    assert(updates_view(updates@) =~= Seq::<UpdateView>::empty());
    let cur = moved_url_exec(call, url, nu, &mut updates);
    if tarball_wants_hash_exec(call, moved) {
        let hu = computed_hash_updates(&call.parsed, call.kind.name(), hash, false);
        finish_url(cur, hash, hu, updates, warnings)
    } else {
        group(updates, warnings)
    }
}

} // verus!

verus! {

/// The result with every group about `target`.
pub fn set_target(base: CheckResult, target: Option<String>) -> (r: CheckResult)
    ensures
        result_view(r) == result_view(base),
        forall|j: int| 0 <= j < r.groups@.len() ==> opt_string_view(#[trigger] r.groups@[j].target) == opt_string_view(target),
{
        let ghost bv = result_view(base);
        let ghost orig = base.groups@;
        let mut rest = base.groups;
        let mut groups: Vec<UpdateGroup> = Vec::new();
        while rest.len() > 0
            invariant
                groups@.len() + rest@.len() == orig.len(),
                rest@ == orig.subrange(groups@.len() as int, orig.len() as int),
                forall|j: int| 0 <= j < groups@.len() ==> #[trigger] groups@[j].updates == orig[j].updates,
                forall|j: int|
                    0 <= j < groups@.len() ==> opt_string_view(#[trigger] groups@[j].target) == opt_string_view(target),
            decreases rest.len(),
        {
            let t = match &target {
                Some(t) => Some(t.clone()),
                None => None,
            };
            let g = rest.remove(0);
            assert(g == orig[groups@.len() as int]);
            groups.push(UpdateGroup { updates: g.updates, target: t });
            assert(rest@ =~= orig.subrange(groups@.len() as int, orig.len() as int));
        }
        let r = CheckResult { groups, warnings: base.warnings };
        assert(groups@.len() == orig.len());
        assert(result_view(r).groups =~= bv.groups);
        r
}

} // verus!
