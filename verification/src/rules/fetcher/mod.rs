//! The fetcher rule: calls of `fetchgit`, `fetchFromGitHub` and the other
//! forge fetchers, `builtins.fetchGit`, `fetchpatch` and `fetchTarball`.
use vstd::prelude::*;

use crate::parser::{NixKind, NixNode, ParsedAttrs};
use crate::rules::traits::{CheckResult, UpdateGroup};
use crate::utils::fetch::{opt_string_view, GitRef};
use crate::utils::nar::NarHash;
use dispatch::{
    check_fetcher_call, check_fetchpatch_call, set_target, check_fetchtarball_call, fetcher_refs_url, result_view, spec_check_fetcher, spec_check_patch, spec_check_tarball, spec_fetcher_refs_url, spec_url_refs_url,
    url_refs_url,
};
use extract::FetcherCall;
use follow::refs_result_view;
use kind::kind_display_target;
use extract::{is_src_of_owned_call, spec_is_src_of_owned_call};
use crate::text::chars_of;
use crate::utils::version::{is_version, VersionDetector};

use kind::FetcherKind;

pub mod dispatch;
pub mod extract;
pub mod follow;
pub mod hashing;
pub mod interpolate;
pub mod kind;
pub mod patch_url;
pub mod source_url;
pub mod ref_round_trip;

verus! {

pub open spec fn is_hex_digit(c: char) -> bool {
    ('0' <= c && c <= '9') || ('a' <= c && c <= 'f') || ('A' <= c && c <= 'F')
}

/// A full git commit hash: forty hexadecimal digits.
pub open spec fn spec_is_commit_hash(s: Seq<char>) -> bool {
    s.len() == 40 && forall|i: int| 0 <= i < s.len() ==> is_hex_digit(s[i])
}

/// Whether `s` is a full git commit hash.
pub fn is_commit_hash(s: &str) -> (b: bool)
    ensures
        b == spec_is_commit_hash(s@),
{
    let v = chars_of(s);
    if v.len() != 40 {
        return false;
    }
    let mut i: usize = 0;
    while i < v.len()
        invariant
            i <= v.len(),
            v@ == s@,
            forall|k: int| 0 <= k < i ==> is_hex_digit(v@[k]),
        decreases v.len() - i,
    {
        let c = v[i];
        if !(('0' <= c && c <= '9') || ('a' <= c && c <= 'f') || ('A' <= c && c <= 'F')) {
            return false;
        }
        i += 1;
    }
    true
}

/// A ref that names a version: neither a commit hash nor a non-version.
pub open spec fn is_version_ref(v: Seq<char>) -> bool {
    !spec_is_commit_hash(v) && is_version(v)
}

/// The attribute that pins a fetcher call to a version, with its value:
/// `tag` when present; otherwise `rev` when it is a version and not a
/// commit hash; otherwise, for `builtins.fetchGit` only, such a `ref`.
pub open spec fn spec_version_ref(kind: FetcherKind, s: Map<Seq<char>, Seq<char>>) -> Option<(Seq<char>, Seq<char>)> {
    if s.contains_key("tag"@) {
        Some(("tag"@, s["tag"@]))
    } else if s.contains_key("rev"@) {
        if is_version_ref(s["rev"@]) { Some(("rev"@, s["rev"@])) } else { None }
    } else if s.contains_key("ref"@) && kind == FetcherKind::BuiltinsFetchGit {
        if is_version_ref(s["ref"@]) { Some(("ref"@, s["ref"@])) } else { None }
    } else {
        None
    }
}

pub open spec fn opt_key_value_view(o: Option<(&'static str, String)>) -> Option<(Seq<char>, Seq<char>)> {
    match o {
        Some((k, v)) => Some((k@, v@)),
        None => None,
    }
}

/// The attribute that pins a call to a version and its value (see
/// [`spec_version_ref`]).
pub fn version_ref_key_and_value(kind: FetcherKind, parsed: &ParsedAttrs) -> (r: Option<(&'static str, String)>)
    ensures
        opt_key_value_view(r) == spec_version_ref(kind, parsed.strings@),
{
    if let Some(tag) = parsed.strings.get("tag") {
        return Some(("tag", tag.clone()));
    }
    if let Some(rev) = parsed.strings.get("rev") {
        if is_commit_hash(rev.as_str()) || !VersionDetector::is_version(rev.as_str()) {
            return None;
        }
        return Some(("rev", rev.clone()));
    }
    if kind == FetcherKind::BuiltinsFetchGit {
        if let Some(ref_val) = parsed.strings.get("ref") {
            if is_commit_hash(ref_val.as_str()) || !VersionDetector::is_version(ref_val.as_str()) {
                return None;
            }
            return Some(("ref", ref_val.clone()));
        }
    }
    None
}

/// The first of `tag`, `rev` and `ref` that is set.
pub open spec fn spec_preferred_ref_key(s: Map<Seq<char>, Seq<char>>) -> Option<Seq<char>> {
    if s.contains_key("tag"@) {
        Some("tag"@)
    } else if s.contains_key("rev"@) {
        Some("rev"@)
    } else if s.contains_key("ref"@) {
        Some("ref"@)
    } else {
        None
    }
}

pub open spec fn opt_static_view(o: Option<&'static str>) -> Option<Seq<char>> {
    match o {
        Some(k) => Some(k@),
        None => None,
    }
}

/// Which of `tag`, `rev` and `ref` a call pins its source with.
pub fn preferred_ref_key(parsed: &ParsedAttrs) -> (r: Option<&'static str>)
    ensures
        opt_static_view(r) == spec_preferred_ref_key(parsed.strings@),
{
    if parsed.strings.contains_key("tag") {
        Some("tag")
    } else if parsed.strings.contains_key("rev") {
        Some("rev")
    } else if parsed.strings.contains_key("ref") {
        Some("ref")
    } else {
        None
    }
}

/// The ref handed to the prefetcher for a repository: the ref as written,
/// symbolic or a commit hash; nothing for an empty one.
pub fn resolve_ref_for_prefetch(git_url: &str, ref_value: &str) -> (r: Option<String>)
    ensures
        ref_value@.len() == 0 ==> r is None,
        ref_value@.len() > 0 ==> (r matches Some(s) && s@ == ref_value@),
{
    if ref_value.unicode_len() == 0 {
        return None;
    }
    Some(String::from_str(ref_value))
}

/// The rule that updates fetcher calls.
#[derive(Debug, Clone, Copy, Default)]
pub struct FetcherRule;

impl FetcherRule {
    /// The rule.
    pub fn new() -> (r: Self) {
        FetcherRule
    }

    /// The rule's name.
    pub fn name(&self) -> (r: &'static str)
        ensures
            r@ == "fetcher"@,
    {
        "fetcher"
    }

    /// Whether `s` is a full git commit hash.
    pub fn is_commit_hash(s: &str) -> (b: bool)
        ensures
            b == spec_is_commit_hash(s@),
    {
        is_commit_hash(s)
    }

    /// The remote whose refs a call needs listed before [`Self::check_call`],
    /// if any: for `fetchpatch` and `fetchTarball` that of the URL's forge,
    /// else the call's git URL.
    pub fn refs_url(call: &FetcherCall) -> (r: Option<String>)
        ensures
            opt_string_view(r) == match call.kind {
                FetcherKind::FetchPatch | FetcherKind::FetchTarball => spec_url_refs_url(*call),
                _ => spec_fetcher_refs_url(*call),
            },
    {
        match call.kind {
            FetcherKind::FetchPatch | FetcherKind::FetchTarball => url_refs_url(call),
            _ => fetcher_refs_url(call),
        }
    }

    /// What a fetcher call becomes, given the outcome of listing the refs
    /// of [`Self::refs_url`] and of computing the hash it needs (the
    /// patch at [`dispatch::patch_hash_url`], the tarball at
    /// [`dispatch::tarball_hash_url`], or the revision of
    /// [`dispatch::fetcher_hash_rev`]); every group is about the call's
    /// display target.
    pub fn check_call(
        &self,
        call: &FetcherCall,
        refs: &Result<Vec<GitRef>, String>,
        hash: &Option<Result<NarHash, String>>,
    ) -> (r: CheckResult)
        ensures
            result_view(r) == match call.kind {
                FetcherKind::FetchPatch => spec_check_patch(*call, refs_result_view(*refs), *hash),
                FetcherKind::FetchTarball => spec_check_tarball(*call, refs_result_view(*refs), *hash),
                _ => spec_check_fetcher(*call, refs_result_view(*refs), *hash),
            },
            forall|j: int|
                0 <= j < r.groups@.len() ==> opt_string_view(#[trigger] r.groups@[j].target)
                    == kind_display_target(call.kind, call.parsed),
    {
        let target = call.kind.display_target(&call.parsed);
        let base = match call.kind {
            FetcherKind::FetchPatch => check_fetchpatch_call(call, refs, hash),
            FetcherKind::FetchTarball => check_fetchtarball_call(call, refs, hash),
            _ => check_fetcher_call(call, refs, hash),
        };
        set_target(base, target)
    }

    /// Whether the rule looks at `node`: a function application that is not
    /// the `src` of a builder that a derivation rule owns.
    pub fn matches(&self, node: &NixNode) -> (b: bool)
        requires
            node.wf(),
        ensures
            b == (node.t().kinds[node.i()] == NixKind::Apply && !spec_is_src_of_owned_call(node.t(), node.i())),
    {
        if node.kind() != NixKind::Apply {
            return false;
        }
        !is_src_of_owned_call(node)
    }
}

} // verus!
