//! Git hosting forges reached through `fetchFrom<Name>` nixpkgs fetchers
//! (GitHub, GitLab, Gitea, Forgejo, Codeberg, SourceHut, Bitbucket,
//! repo.or.cz, Gitiles): how each one turns fetcher attributes into a git
//! remote, a display target and an archive URL.
use vstd::prelude::*;

use crate::parser::{AttrSpec, AttrType, ParsedAttrs};
use crate::text::{chars_of, starts_with_exec, strip_prefix, strip_prefix_exec, to_string};

pub mod hosts;

pub use hosts::{Bitbucket, Codeberg, Forgejo, GitHub, GitLab, Gitea, Gitiles, RepoOrCz, SourceHut};

verus! {

/// The key and type of an attribute, as values.
pub open spec fn attr_view(a: AttrSpec) -> (Seq<char>, AttrType) {
    (a.key@, a.attr_type)
}

pub open spec fn attrs_view(v: Seq<AttrSpec>) -> Seq<(Seq<char>, AttrType)> {
    v.map_values(|a: AttrSpec| attr_view(a))
}

/// The attributes every forge fetcher accepts, besides the ones naming the
/// repository.
pub open spec fn common_git_attr_list() -> Seq<(Seq<char>, AttrType)> {
    seq![
        ("tag"@, AttrType::String),
        ("rev"@, AttrType::String),
        ("ref"@, AttrType::String),
        ("hash"@, AttrType::String),
        ("sha256"@, AttrType::String),
        ("fetchSubmodules"@, AttrType::Bool),
        ("deepClone"@, AttrType::Bool),
        ("leaveDotGit"@, AttrType::Bool),
        ("fetchLFS"@, AttrType::Bool),
        ("branchName"@, AttrType::String),
        ("rootDir"@, AttrType::String),
        ("sparseCheckout"@, AttrType::ListString),
        ("forceFetchGit"@, AttrType::Bool),
    ]
}

/// Appends `a` to `v`.
pub fn push_attr(v: &mut Vec<AttrSpec>, key: &'static str, attr_type: AttrType)
    ensures
        attrs_view(final(v)@) == attrs_view(old(v)@).push((key@, attr_type)),
{
    v.push(AttrSpec { key, attr_type });
    assert(attrs_view(v@) == attrs_view(old(v)@).push((key@, attr_type)));
}

/// The attributes every forge fetcher accepts, besides the ones naming the
/// repository.
pub fn common_git_attrs() -> (r: Vec<AttrSpec>)
    ensures
        attrs_view(r@) == common_git_attr_list(),
{
    let mut v: Vec<AttrSpec> = Vec::new();
    push_attr(&mut v, "tag", AttrType::String);
    push_attr(&mut v, "rev", AttrType::String);
    push_attr(&mut v, "ref", AttrType::String);
    push_attr(&mut v, "hash", AttrType::String);
    push_attr(&mut v, "sha256", AttrType::String);
    push_attr(&mut v, "fetchSubmodules", AttrType::Bool);
    push_attr(&mut v, "deepClone", AttrType::Bool);
    push_attr(&mut v, "leaveDotGit", AttrType::Bool);
    push_attr(&mut v, "fetchLFS", AttrType::Bool);
    push_attr(&mut v, "branchName", AttrType::String);
    push_attr(&mut v, "rootDir", AttrType::String);
    push_attr(&mut v, "sparseCheckout", AttrType::ListString);
    push_attr(&mut v, "forceFetchGit", AttrType::Bool);
    assert(attrs_view(v@) =~= common_git_attr_list());
    v
}

/// The common forge attributes followed by a forge's own.
pub fn compose_attr_spec(extra: &[AttrSpec]) -> (r: Vec<AttrSpec>)
    ensures
        attrs_view(r@) == common_git_attr_list() + attrs_view(extra@),
{
    let mut v = common_git_attrs();
    let mut i: usize = 0;
    while i < extra.len()
        invariant
            i <= extra@.len(),
            attrs_view(v@) == common_git_attr_list() + attrs_view(extra@.subrange(0, i as int)),
        decreases extra.len() - i,
    {
        let a = extra[i];
        push_attr(&mut v, a.key, a.attr_type);
        assert(attrs_view(extra@.subrange(0, i + 1)) == attrs_view(extra@.subrange(0, i as int)).push(attr_view(extra@[i as int])));
        i += 1;
    }
    assert(extra@.subrange(0, extra@.len() as int) == extra@);
    v
}

/// `m[k]`, or `d` when `k` is unbound.
pub open spec fn lookup_or(m: Map<Seq<char>, Seq<char>>, k: Seq<char>, d: Seq<char>) -> Seq<char> {
    if m.contains_key(k) { m[k] } else { d }
}

/// The string attribute `k`, or `d` when it is absent.
pub fn get_or(p: &ParsedAttrs, k: &str, d: &str) -> (r: String)
    ensures
        r@ == lookup_or(p.strings@, k@, d@),
{
    match p.strings.get(k) {
        Some(v) => v.clone(),
        None => String::from_str(d),
    }
}

/// An owner with the `~` SourceHut requires, added when missing.
pub open spec fn tilde_owner(owner: Seq<char>) -> Seq<char> {
    if owner.len() > 0 && owner[0] == '~' { owner } else { seq!['~'] + owner }
}

/// `owner` with a leading `~`, added when missing.
pub fn ensure_tilde(owner: &str) -> (r: String)
    ensures
        r@ == tilde_owner(owner@),
{
    let v = chars_of(owner);
    if v.len() > 0 && v[0] == '~' {
        String::from_str(owner)
    } else {
        let mut r = String::from_str("~");
        r.append(owner);
        proof { reveal_strlit("~"); }
        assert("~"@ == seq!['~']);
        r
    }
}

/// `url` without a leading `https://`, `http://`, `ssh://` or `git://`.
pub open spec fn without_scheme(url: Seq<char>) -> Seq<char> {
    match strip_prefix(url, "https://"@) {
        Some(r) => r,
        None => match strip_prefix(url, "http://"@) {
            Some(r) => r,
            None => match strip_prefix(url, "ssh://"@) {
                Some(r) => r,
                None => match strip_prefix(url, "git://"@) {
                    Some(r) => r,
                    None => url,
                },
            },
        },
    }
}

/// `url` without its scheme, for display.
pub fn strip_url_scheme(url: &str) -> (r: String)
    ensures
        r@ == without_scheme(url@),
{
    let v = chars_of(url);
    match strip_prefix_exec(&v, &chars_of("https://")) {
        Some(r) => to_string(&r),
        None => match strip_prefix_exec(&v, &chars_of("http://")) {
            Some(r) => to_string(&r),
            None => match strip_prefix_exec(&v, &chars_of("ssh://")) {
                Some(r) => to_string(&r),
                None => match strip_prefix_exec(&v, &chars_of("git://")) {
                    Some(r) => to_string(&r),
                    None => String::from_str(url),
                },
            },
        },
    }
}

/// The archive path segment for `rev`: `refs/tags/{rev}` when the call
/// pins by `tag`, else `rev`.
pub open spec fn tag_or_rev_of(strings: Map<Seq<char>, Seq<char>>, rev: Seq<char>) -> Seq<char> {
    if strings.contains_key("tag"@) { "refs/tags/"@ + rev } else { rev }
}

pub fn tag_or_rev(parsed: &ParsedAttrs, rev: &str) -> (r: String)
    ensures
        r@ == tag_or_rev_of(parsed.strings@, rev@),
{
    if parsed.strings.contains_key("tag") {
        let mut r = String::from_str("refs/tags/");
        r.append(rev);
        r
    } else {
        String::from_str(rev)
    }
}

/// A forge reachable through a `fetchFrom<Name>` nixpkgs fetcher.
pub trait Forge {
    /// Stable identifier.
    fn id(&self) -> &'static str;

    /// The nixpkgs fetcher function, e.g. `fetchFromGitHub`.
    fn nixpkgs_fn_name(&self) -> &'static str;

    /// HTTPS remote for `git ls-remote`.
    fn git_url(&self, parsed: &ParsedAttrs) -> Option<String>;

    /// The same without the scheme, for display.
    fn display_target(&self, parsed: &ParsedAttrs) -> Option<String>;

    /// Tarball URL of a revision.
    fn archive_url(&self, parsed: &ParsedAttrs, rev: &str) -> Result<String, String>;

    /// The attribute schema of the fetcher.
    fn attr_spec(&self) -> Vec<AttrSpec>;
}

/// A forge that also has a `scheme:owner/repo` flake input shorthand.
pub trait FlakeForge: Forge {
    /// The scheme, e.g. `github`.
    fn flake_scheme(&self) -> &'static str;

    /// HTTPS remote for the shorthand.
    fn remote_url_for_flake(&self, owner: &str, repo: &str) -> String;

    /// The same, for display.
    fn display_for_flake(&self, owner: &str, repo: &str) -> String;
}

/// One of the registered forges.
#[derive(Debug, Clone, Copy, PartialEq, Eq, Structural)]
pub enum ForgeId {
    GitHub,
    GitLab,
    Gitea,
    Forgejo,
    Codeberg,
    SourceHut,
    Bitbucket,
    RepoOrCz,
    Gitiles,
}

pub open spec fn forge_id_of(f: ForgeId) -> Seq<char> {
    match f {
        ForgeId::GitHub => "github"@,
        ForgeId::GitLab => "gitlab"@,
        ForgeId::Gitea => "gitea"@,
        ForgeId::Forgejo => "forgejo"@,
        ForgeId::Codeberg => "codeberg"@,
        ForgeId::SourceHut => "sourcehut"@,
        ForgeId::Bitbucket => "bitbucket"@,
        ForgeId::RepoOrCz => "repoorcz"@,
        ForgeId::Gitiles => "gitiles"@,
    }
}

pub open spec fn forge_fn_name_of(f: ForgeId) -> Seq<char> {
    match f {
        ForgeId::GitHub => "fetchFromGitHub"@,
        ForgeId::GitLab => "fetchFromGitLab"@,
        ForgeId::Gitea => "fetchFromGitea"@,
        ForgeId::Forgejo => "fetchFromForgejo"@,
        ForgeId::Codeberg => "fetchFromCodeberg"@,
        ForgeId::SourceHut => "fetchFromSourcehut"@,
        ForgeId::Bitbucket => "fetchFromBitbucket"@,
        ForgeId::RepoOrCz => "fetchFromRepoOrCz"@,
        ForgeId::Gitiles => "fetchFromGitiles"@,
    }
}

pub open spec fn forge_git_url(f: ForgeId, s: Map<Seq<char>, Seq<char>>) -> Option<Seq<char>> {
    match f {
        ForgeId::GitHub => hosts::github_git_url(s),
        ForgeId::GitLab => hosts::gitlab_git_url(s),
        ForgeId::Gitea => hosts::gitea_git_url(s),
        ForgeId::Forgejo => hosts::forgejo_git_url(s),
        ForgeId::Codeberg => hosts::codeberg_git_url(s),
        ForgeId::SourceHut => hosts::sourcehut_git_url(s),
        ForgeId::Bitbucket => hosts::bitbucket_git_url(s),
        ForgeId::RepoOrCz => hosts::repoorcz_git_url(s),
        ForgeId::Gitiles => hosts::gitiles_git_url(s),
    }
}

pub open spec fn forge_display(f: ForgeId, s: Map<Seq<char>, Seq<char>>) -> Option<Seq<char>> {
    match f {
        ForgeId::GitHub => hosts::github_display(s),
        ForgeId::GitLab => hosts::gitlab_display(s),
        ForgeId::Gitea => hosts::gitea_display(s),
        ForgeId::Forgejo => hosts::forgejo_display(s),
        ForgeId::Codeberg => hosts::codeberg_display(s),
        ForgeId::SourceHut => hosts::sourcehut_display(s),
        ForgeId::Bitbucket => hosts::bitbucket_display(s),
        ForgeId::RepoOrCz => hosts::repoorcz_display(s),
        ForgeId::Gitiles => hosts::gitiles_display(s),
    }
}

pub open spec fn forge_archive(f: ForgeId, s: Map<Seq<char>, Seq<char>>, rev: Seq<char>) -> Result<Seq<char>, Seq<char>> {
    match f {
        ForgeId::GitHub => hosts::github_archive(s, rev),
        ForgeId::GitLab => hosts::gitlab_archive(s, rev),
        ForgeId::Gitea => hosts::gitea_archive(s, rev),
        ForgeId::Forgejo => hosts::forgejo_archive(s, rev),
        ForgeId::Codeberg => hosts::codeberg_archive(s, rev),
        ForgeId::SourceHut => hosts::sourcehut_archive(s, rev),
        ForgeId::Bitbucket => hosts::bitbucket_archive(s, rev),
        ForgeId::RepoOrCz => hosts::repoorcz_archive(s, rev),
        ForgeId::Gitiles => hosts::gitiles_archive(s, rev),
    }
}

pub open spec fn forge_attrs(f: ForgeId) -> Seq<(Seq<char>, AttrType)> {
    match f {
        ForgeId::GitHub => hosts::github_attrs(),
        ForgeId::GitLab => hosts::gitlab_attrs(),
        ForgeId::Gitea => hosts::gitea_attrs(),
        ForgeId::Forgejo => hosts::forgejo_attrs(),
        ForgeId::Codeberg => hosts::codeberg_attrs(),
        ForgeId::SourceHut => hosts::sourcehut_attrs(),
        ForgeId::Bitbucket => hosts::bitbucket_attrs(),
        ForgeId::RepoOrCz => hosts::repoorcz_attrs(),
        ForgeId::Gitiles => hosts::gitiles_attrs(),
    }
}

/// The flake shorthand scheme of the forges that have one.
pub open spec fn forge_flake_scheme(f: ForgeId) -> Option<Seq<char>> {
    match f {
        ForgeId::GitHub => Some("github"@),
        ForgeId::GitLab => Some("gitlab"@),
        ForgeId::SourceHut => Some("sourcehut"@),
        _ => None,
    }
}

/// All registered forges, in lookup order.
pub open spec fn all_forges() -> Seq<ForgeId> {
    seq![ForgeId::GitHub, ForgeId::GitLab, ForgeId::Gitea, ForgeId::Forgejo, ForgeId::Codeberg, ForgeId::SourceHut, ForgeId::Bitbucket, ForgeId::RepoOrCz, ForgeId::Gitiles]
}

/// The forges with a flake shorthand.
pub open spec fn all_flake_forges() -> Seq<ForgeId> {
    seq![ForgeId::GitHub, ForgeId::GitLab, ForgeId::SourceHut]
}

impl ForgeId {
    pub fn id(&self) -> (r: &'static str)
        ensures
            r@ == forge_id_of(*self),
    {
        match self {
            ForgeId::GitHub => GitHub.id(),
            ForgeId::GitLab => GitLab.id(),
            ForgeId::Gitea => Gitea.id(),
            ForgeId::Forgejo => Forgejo.id(),
            ForgeId::Codeberg => Codeberg.id(),
            ForgeId::SourceHut => SourceHut.id(),
            ForgeId::Bitbucket => Bitbucket.id(),
            ForgeId::RepoOrCz => RepoOrCz.id(),
            ForgeId::Gitiles => Gitiles.id(),
        }
    }

    pub fn nixpkgs_fn_name(&self) -> (r: &'static str)
        ensures
            r@ == forge_fn_name_of(*self),
    {
        match self {
            ForgeId::GitHub => GitHub.nixpkgs_fn_name(),
            ForgeId::GitLab => GitLab.nixpkgs_fn_name(),
            ForgeId::Gitea => Gitea.nixpkgs_fn_name(),
            ForgeId::Forgejo => Forgejo.nixpkgs_fn_name(),
            ForgeId::Codeberg => Codeberg.nixpkgs_fn_name(),
            ForgeId::SourceHut => SourceHut.nixpkgs_fn_name(),
            ForgeId::Bitbucket => Bitbucket.nixpkgs_fn_name(),
            ForgeId::RepoOrCz => RepoOrCz.nixpkgs_fn_name(),
            ForgeId::Gitiles => Gitiles.nixpkgs_fn_name(),
        }
    }

    pub fn git_url(&self, parsed: &ParsedAttrs) -> (r: Option<String>)
        ensures
            match r {
                Some(u) => forge_git_url(*self, parsed.strings@) == Some(u@),
                None => forge_git_url(*self, parsed.strings@) is None,
            },
    {
        match self {
            ForgeId::GitHub => GitHub.git_url(parsed),
            ForgeId::GitLab => GitLab.git_url(parsed),
            ForgeId::Gitea => Gitea.git_url(parsed),
            ForgeId::Forgejo => Forgejo.git_url(parsed),
            ForgeId::Codeberg => Codeberg.git_url(parsed),
            ForgeId::SourceHut => SourceHut.git_url(parsed),
            ForgeId::Bitbucket => Bitbucket.git_url(parsed),
            ForgeId::RepoOrCz => RepoOrCz.git_url(parsed),
            ForgeId::Gitiles => Gitiles.git_url(parsed),
        }
    }

    pub fn display_target(&self, parsed: &ParsedAttrs) -> (r: Option<String>)
        ensures
            match r {
                Some(u) => forge_display(*self, parsed.strings@) == Some(u@),
                None => forge_display(*self, parsed.strings@) is None,
            },
    {
        match self {
            ForgeId::GitHub => GitHub.display_target(parsed),
            ForgeId::GitLab => GitLab.display_target(parsed),
            ForgeId::Gitea => Gitea.display_target(parsed),
            ForgeId::Forgejo => Forgejo.display_target(parsed),
            ForgeId::Codeberg => Codeberg.display_target(parsed),
            ForgeId::SourceHut => SourceHut.display_target(parsed),
            ForgeId::Bitbucket => Bitbucket.display_target(parsed),
            ForgeId::RepoOrCz => RepoOrCz.display_target(parsed),
            ForgeId::Gitiles => Gitiles.display_target(parsed),
        }
    }

    pub fn archive_url(&self, parsed: &ParsedAttrs, rev: &str) -> (r: Result<String, String>)
        ensures
            match r {
                Ok(u) => forge_archive(*self, parsed.strings@, rev@) == Ok::<Seq<char>, Seq<char>>(u@),
                Err(e) => forge_archive(*self, parsed.strings@, rev@) == Err::<Seq<char>, Seq<char>>(e@),
            },
    {
        match self {
            ForgeId::GitHub => GitHub.archive_url(parsed, rev),
            ForgeId::GitLab => GitLab.archive_url(parsed, rev),
            ForgeId::Gitea => Gitea.archive_url(parsed, rev),
            ForgeId::Forgejo => Forgejo.archive_url(parsed, rev),
            ForgeId::Codeberg => Codeberg.archive_url(parsed, rev),
            ForgeId::SourceHut => SourceHut.archive_url(parsed, rev),
            ForgeId::Bitbucket => Bitbucket.archive_url(parsed, rev),
            ForgeId::RepoOrCz => RepoOrCz.archive_url(parsed, rev),
            ForgeId::Gitiles => Gitiles.archive_url(parsed, rev),
        }
    }

    pub fn attr_spec(&self) -> (r: Vec<AttrSpec>)
        ensures
            attrs_view(r@) == forge_attrs(*self),
    {
        match self {
            ForgeId::GitHub => GitHub.attr_spec(),
            ForgeId::GitLab => GitLab.attr_spec(),
            ForgeId::Gitea => Gitea.attr_spec(),
            ForgeId::Forgejo => Forgejo.attr_spec(),
            ForgeId::Codeberg => Codeberg.attr_spec(),
            ForgeId::SourceHut => SourceHut.attr_spec(),
            ForgeId::Bitbucket => Bitbucket.attr_spec(),
            ForgeId::RepoOrCz => RepoOrCz.attr_spec(),
            ForgeId::Gitiles => Gitiles.attr_spec(),
        }
    }

    /// The flake shorthand scheme, for the forges that have one.
    pub fn flake_scheme(&self) -> (r: Option<&'static str>)
        ensures
            match r {
                Some(s) => forge_flake_scheme(*self) == Some(s@),
                None => forge_flake_scheme(*self) is None,
            },
    {
        match self {
            ForgeId::GitHub => Some(GitHub.flake_scheme()),
            ForgeId::GitLab => Some(GitLab.flake_scheme()),
            ForgeId::SourceHut => Some(SourceHut.flake_scheme()),
            _ => None,
        }
    }
}

/// All registered forges, in lookup order.
pub fn forges() -> (r: Vec<ForgeId>)
    ensures
        r@ == all_forges(),
{
    let r = vec![ForgeId::GitHub, ForgeId::GitLab, ForgeId::Gitea, ForgeId::Forgejo, ForgeId::Codeberg, ForgeId::SourceHut, ForgeId::Bitbucket, ForgeId::RepoOrCz, ForgeId::Gitiles];
    assert(r@ == all_forges());
    r
}

/// The forges with a flake shorthand.
pub fn flake_forges() -> (r: Vec<ForgeId>)
    ensures
        r@ == all_flake_forges(),
{
    let r = vec![ForgeId::GitHub, ForgeId::GitLab, ForgeId::SourceHut];
    assert(r@ == all_flake_forges());
    r
}

/// Index of the first forge whose fetcher function is `name`.
pub open spec fn forge_index_by_fn_name(name: Seq<char>, n: int) -> Option<int>
    decreases n,
{
    if n <= 0 {
        None
    } else {
        match forge_index_by_fn_name(name, n - 1) {
            Some(i) => Some(i),
            None => if forge_fn_name_of(all_forges()[n - 1]) == name { Some(n - 1) } else { None },
        }
    }
}

/// The forge whose fetcher function is `name`.
pub open spec fn forge_by_fn_name(name: Seq<char>) -> Option<ForgeId> {
    match forge_index_by_fn_name(name, 9) {
        Some(i) => Some(all_forges()[i]),
        None => None,
    }
}

/// The first registered forge whose fetcher function is `name`.
pub fn find_by_fn_name(name: &str) -> (r: Option<ForgeId>)
    ensures
        r == forge_by_fn_name(name@),
{
    let all = forges();
    let target = String::from_str(name);
    let mut i: usize = 0;
    while i < all.len()
        invariant
            all@ == all_forges(),
            i <= 9,
            target@ == name@,
            forge_index_by_fn_name(name@, i as int) is None,
        decreases all.len() - i,
    {
        let f = all[i];
        let candidate = String::from_str(f.nixpkgs_fn_name());
        if candidate == target {
            assert(forge_index_by_fn_name(name@, i + 1) == Some(i as int));
            proof { lemma_forge_index_stable(name@, i + 1, 9); }
            return Some(f);
        }
        i += 1;
    }
    None
}

proof fn lemma_forge_index_stable(name: Seq<char>, k: int, n: int)
    requires
        0 <= k <= n,
        forge_index_by_fn_name(name, k) is Some,
    ensures
        forge_index_by_fn_name(name, n) == forge_index_by_fn_name(name, k),
    decreases n - k,
{
    if k < n {
        lemma_forge_index_stable(name, k, n - 1);
    }
}

/// Registered forges have distinct identifiers, distinct fetcher functions
/// and, where they have one, distinct flake schemes, so lookups by any of
/// them are unambiguous.
pub proof fn forge_names_are_unique()
    ensures
        forall|i: int, j: int| 0 <= i < j < all_forges().len() ==> forge_id_of(all_forges()[i]) != forge_id_of(all_forges()[j]),
        forall|i: int, j: int| 0 <= i < j < all_forges().len() ==> forge_fn_name_of(all_forges()[i]) != forge_fn_name_of(all_forges()[j]),
        forall|i: int, j: int| 0 <= i < j < all_flake_forges().len() ==> forge_flake_scheme(all_flake_forges()[i]) != forge_flake_scheme(all_flake_forges()[j]),
{
    reveal_strlit("github");
    reveal_strlit("fetchFromGitHub");
    reveal_strlit("gitlab");
    reveal_strlit("fetchFromGitLab");
    reveal_strlit("gitea");
    reveal_strlit("fetchFromGitea");
    reveal_strlit("forgejo");
    reveal_strlit("fetchFromForgejo");
    reveal_strlit("codeberg");
    reveal_strlit("fetchFromCodeberg");
    reveal_strlit("sourcehut");
    reveal_strlit("fetchFromSourcehut");
    reveal_strlit("bitbucket");
    reveal_strlit("fetchFromBitbucket");
    reveal_strlit("repoorcz");
    reveal_strlit("fetchFromRepoOrCz");
    reveal_strlit("gitiles");
    reveal_strlit("fetchFromGitiles");
    reveal_strlit("github");
    reveal_strlit("gitlab");
    reveal_strlit("sourcehut");
    assert(forge_id_of(ForgeId::GitHub)[3] == 'h' && forge_id_of(ForgeId::GitLab)[3] == 'l');
    assert(forge_id_of(ForgeId::GitHub).len() != forge_id_of(ForgeId::Gitea).len());
    assert(forge_id_of(ForgeId::GitHub).len() != forge_id_of(ForgeId::Forgejo).len());
    assert(forge_id_of(ForgeId::GitHub).len() != forge_id_of(ForgeId::Codeberg).len());
    assert(forge_id_of(ForgeId::GitHub).len() != forge_id_of(ForgeId::SourceHut).len());
    assert(forge_id_of(ForgeId::GitHub).len() != forge_id_of(ForgeId::Bitbucket).len());
    assert(forge_id_of(ForgeId::GitHub).len() != forge_id_of(ForgeId::RepoOrCz).len());
    assert(forge_id_of(ForgeId::GitHub).len() != forge_id_of(ForgeId::Gitiles).len());
    assert(forge_id_of(ForgeId::GitLab).len() != forge_id_of(ForgeId::Gitea).len());
    assert(forge_id_of(ForgeId::GitLab).len() != forge_id_of(ForgeId::Forgejo).len());
    assert(forge_id_of(ForgeId::GitLab).len() != forge_id_of(ForgeId::Codeberg).len());
    assert(forge_id_of(ForgeId::GitLab).len() != forge_id_of(ForgeId::SourceHut).len());
    assert(forge_id_of(ForgeId::GitLab).len() != forge_id_of(ForgeId::Bitbucket).len());
    assert(forge_id_of(ForgeId::GitLab).len() != forge_id_of(ForgeId::RepoOrCz).len());
    assert(forge_id_of(ForgeId::GitLab).len() != forge_id_of(ForgeId::Gitiles).len());
    assert(forge_id_of(ForgeId::Gitea).len() != forge_id_of(ForgeId::Forgejo).len());
    assert(forge_id_of(ForgeId::Gitea).len() != forge_id_of(ForgeId::Codeberg).len());
    assert(forge_id_of(ForgeId::Gitea).len() != forge_id_of(ForgeId::SourceHut).len());
    assert(forge_id_of(ForgeId::Gitea).len() != forge_id_of(ForgeId::Bitbucket).len());
    assert(forge_id_of(ForgeId::Gitea).len() != forge_id_of(ForgeId::RepoOrCz).len());
    assert(forge_id_of(ForgeId::Gitea).len() != forge_id_of(ForgeId::Gitiles).len());
    assert(forge_id_of(ForgeId::Forgejo).len() != forge_id_of(ForgeId::Codeberg).len());
    assert(forge_id_of(ForgeId::Forgejo).len() != forge_id_of(ForgeId::SourceHut).len());
    assert(forge_id_of(ForgeId::Forgejo).len() != forge_id_of(ForgeId::Bitbucket).len());
    assert(forge_id_of(ForgeId::Forgejo).len() != forge_id_of(ForgeId::RepoOrCz).len());
    assert(forge_id_of(ForgeId::Forgejo)[0] == 'f' && forge_id_of(ForgeId::Gitiles)[0] == 'g');
    assert(forge_id_of(ForgeId::Codeberg).len() != forge_id_of(ForgeId::SourceHut).len());
    assert(forge_id_of(ForgeId::Codeberg).len() != forge_id_of(ForgeId::Bitbucket).len());
    assert(forge_id_of(ForgeId::Codeberg)[0] == 'c' && forge_id_of(ForgeId::RepoOrCz)[0] == 'r');
    assert(forge_id_of(ForgeId::Codeberg).len() != forge_id_of(ForgeId::Gitiles).len());
    assert(forge_id_of(ForgeId::SourceHut)[0] == 's' && forge_id_of(ForgeId::Bitbucket)[0] == 'b');
    assert(forge_id_of(ForgeId::SourceHut).len() != forge_id_of(ForgeId::RepoOrCz).len());
    assert(forge_id_of(ForgeId::SourceHut).len() != forge_id_of(ForgeId::Gitiles).len());
    assert(forge_id_of(ForgeId::Bitbucket).len() != forge_id_of(ForgeId::RepoOrCz).len());
    assert(forge_id_of(ForgeId::Bitbucket).len() != forge_id_of(ForgeId::Gitiles).len());
    assert(forge_id_of(ForgeId::RepoOrCz).len() != forge_id_of(ForgeId::Gitiles).len());
    assert(forge_fn_name_of(ForgeId::GitHub)[12] == 'H' && forge_fn_name_of(ForgeId::GitLab)[12] == 'L');
    assert(forge_fn_name_of(ForgeId::GitHub).len() != forge_fn_name_of(ForgeId::Gitea).len());
    assert(forge_fn_name_of(ForgeId::GitHub).len() != forge_fn_name_of(ForgeId::Forgejo).len());
    assert(forge_fn_name_of(ForgeId::GitHub).len() != forge_fn_name_of(ForgeId::Codeberg).len());
    assert(forge_fn_name_of(ForgeId::GitHub).len() != forge_fn_name_of(ForgeId::SourceHut).len());
    assert(forge_fn_name_of(ForgeId::GitHub).len() != forge_fn_name_of(ForgeId::Bitbucket).len());
    assert(forge_fn_name_of(ForgeId::GitHub).len() != forge_fn_name_of(ForgeId::RepoOrCz).len());
    assert(forge_fn_name_of(ForgeId::GitHub).len() != forge_fn_name_of(ForgeId::Gitiles).len());
    assert(forge_fn_name_of(ForgeId::GitLab).len() != forge_fn_name_of(ForgeId::Gitea).len());
    assert(forge_fn_name_of(ForgeId::GitLab).len() != forge_fn_name_of(ForgeId::Forgejo).len());
    assert(forge_fn_name_of(ForgeId::GitLab).len() != forge_fn_name_of(ForgeId::Codeberg).len());
    assert(forge_fn_name_of(ForgeId::GitLab).len() != forge_fn_name_of(ForgeId::SourceHut).len());
    assert(forge_fn_name_of(ForgeId::GitLab).len() != forge_fn_name_of(ForgeId::Bitbucket).len());
    assert(forge_fn_name_of(ForgeId::GitLab).len() != forge_fn_name_of(ForgeId::RepoOrCz).len());
    assert(forge_fn_name_of(ForgeId::GitLab).len() != forge_fn_name_of(ForgeId::Gitiles).len());
    assert(forge_fn_name_of(ForgeId::Gitea).len() != forge_fn_name_of(ForgeId::Forgejo).len());
    assert(forge_fn_name_of(ForgeId::Gitea).len() != forge_fn_name_of(ForgeId::Codeberg).len());
    assert(forge_fn_name_of(ForgeId::Gitea).len() != forge_fn_name_of(ForgeId::SourceHut).len());
    assert(forge_fn_name_of(ForgeId::Gitea).len() != forge_fn_name_of(ForgeId::Bitbucket).len());
    assert(forge_fn_name_of(ForgeId::Gitea).len() != forge_fn_name_of(ForgeId::RepoOrCz).len());
    assert(forge_fn_name_of(ForgeId::Gitea).len() != forge_fn_name_of(ForgeId::Gitiles).len());
    assert(forge_fn_name_of(ForgeId::Forgejo).len() != forge_fn_name_of(ForgeId::Codeberg).len());
    assert(forge_fn_name_of(ForgeId::Forgejo).len() != forge_fn_name_of(ForgeId::SourceHut).len());
    assert(forge_fn_name_of(ForgeId::Forgejo).len() != forge_fn_name_of(ForgeId::Bitbucket).len());
    assert(forge_fn_name_of(ForgeId::Forgejo).len() != forge_fn_name_of(ForgeId::RepoOrCz).len());
    assert(forge_fn_name_of(ForgeId::Forgejo)[9] == 'F' && forge_fn_name_of(ForgeId::Gitiles)[9] == 'G');
    assert(forge_fn_name_of(ForgeId::Codeberg).len() != forge_fn_name_of(ForgeId::SourceHut).len());
    assert(forge_fn_name_of(ForgeId::Codeberg).len() != forge_fn_name_of(ForgeId::Bitbucket).len());
    assert(forge_fn_name_of(ForgeId::Codeberg)[9] == 'C' && forge_fn_name_of(ForgeId::RepoOrCz)[9] == 'R');
    assert(forge_fn_name_of(ForgeId::Codeberg).len() != forge_fn_name_of(ForgeId::Gitiles).len());
    assert(forge_fn_name_of(ForgeId::SourceHut)[9] == 'S' && forge_fn_name_of(ForgeId::Bitbucket)[9] == 'B');
    assert(forge_fn_name_of(ForgeId::SourceHut).len() != forge_fn_name_of(ForgeId::RepoOrCz).len());
    assert(forge_fn_name_of(ForgeId::SourceHut).len() != forge_fn_name_of(ForgeId::Gitiles).len());
    assert(forge_fn_name_of(ForgeId::Bitbucket).len() != forge_fn_name_of(ForgeId::RepoOrCz).len());
    assert(forge_fn_name_of(ForgeId::Bitbucket).len() != forge_fn_name_of(ForgeId::Gitiles).len());
    assert(forge_fn_name_of(ForgeId::RepoOrCz).len() != forge_fn_name_of(ForgeId::Gitiles).len());
}

/// The host a forge fetcher's repository lives on, as its attributes give it.
pub open spec fn forge_host_is(f: ForgeId, s: Map<Seq<char>, Seq<char>>, host: Seq<char>) -> bool {
    match f {
        ForgeId::GitHub => host == lookup_or(s, "githubBase"@, "github.com"@),
        ForgeId::GitLab => host == lookup_or(s, "domain"@, "gitlab.com"@),
        ForgeId::Gitea => s.contains_key("domain"@) && host == s["domain"@],
        ForgeId::Forgejo => s.contains_key("domain"@) && host == s["domain"@],
        ForgeId::Codeberg => host == "codeberg.org"@,
        ForgeId::SourceHut => host == lookup_or(s, "vc"@, "git"@) + "."@ + lookup_or(s, "domain"@, "sr.ht"@),
        ForgeId::Bitbucket => host == "bitbucket.org"@,
        ForgeId::RepoOrCz => host == "repo.or.cz"@,
        ForgeId::Gitiles => false,
    }
}

/// The project path of a forge fetcher's repository on its host: the owner,
/// then the repository (a SourceHut owner with a leading `~`, added when
/// the attribute has none); on repo.or.cz the repository with `.git`.
pub open spec fn forge_project_is(f: ForgeId, s: Map<Seq<char>, Seq<char>>, project: Seq<char>) -> bool {
    match f {
        ForgeId::SourceHut => s.contains_key("owner"@) && s.contains_key("repo"@) && if s["owner"@].len() > 0
            && s["owner"@][0] == '~' {
            project == s["owner"@] + "/"@ + s["repo"@]
        } else {
            project == "~"@ + s["owner"@] + "/"@ + s["repo"@]
        },
        ForgeId::RepoOrCz => s.contains_key("repo"@) && project == s["repo"@] + ".git"@,
        _ => s.contains_key("owner"@) && s.contains_key("repo"@) && project == s["owner"@] + "/"@ + s["repo"@],
    }
}

/// The git remote a forge fetcher queries is the one that a source URL of
/// the same project on the same host names
/// ([`crate::rules::fetcher::source_url::ParsedSourceUrl::git_remote_url`]):
/// the host, then the owner, then the repository.
pub proof fn forge_git_url_is_source_url_remote(f: ForgeId, s: Map<Seq<char>, Seq<char>>, url: Seq<char>)
    requires
        crate::rules::fetcher::source_url::spec_parse_source_url(url) matches Some(u) && forge_project_is(
            f,
            s,
            u.project,
        ) && forge_host_is(f, s, u.domain),
    ensures
        forge_git_url(f, s) == Some(
            "https://"@ + crate::rules::fetcher::source_url::spec_parse_source_url(url).unwrap().domain + "/"@
                + crate::rules::fetcher::source_url::spec_parse_source_url(url).unwrap().project,
        ),
{
    let u = crate::rules::fetcher::source_url::spec_parse_source_url(url).unwrap();
    reveal_strlit("https://");
    reveal_strlit("https://codeberg.org/");
    reveal_strlit("https://bitbucket.org/");
    reveal_strlit("https://repo.or.cz/");
    reveal_strlit("codeberg.org");
    reveal_strlit("bitbucket.org");
    reveal_strlit("repo.or.cz");
    reveal_strlit("/");
    reveal_strlit("~");
    if f == ForgeId::RepoOrCz {
        let r = s["repo"@];
        assert("https://repo.or.cz/"@ + r + ".git"@ =~= "https://"@ + u.domain + "/"@ + u.project);
    } else if f == ForgeId::SourceHut {
        let o = s["owner"@];
        let r = s["repo"@];
        if !(o.len() > 0 && o[0] == '~') {
            assert(u.project =~= seq!['~'] + o + "/"@ + r);
        }
        assert("https://"@ + lookup_or(s, "vc"@, "git"@) + "."@ + lookup_or(s, "domain"@, "sr.ht"@) + "/"@
            + tilde_owner(o) + "/"@ + r =~= "https://"@ + u.domain + "/"@ + u.project);
    } else {
        let o = s["owner"@];
        let r = s["repo"@];
        assert("https://"@ + u.domain + "/"@ + u.project =~= "https://"@ + u.domain + "/"@ + o + "/"@ + r);
        if f == ForgeId::Codeberg {
            assert("https://codeberg.org/"@ + o + "/"@ + r =~= "https://"@ + u.domain + "/"@ + o + "/"@ + r);
        } else if f == ForgeId::Bitbucket {
            assert("https://bitbucket.org/"@ + o + "/"@ + r =~= "https://"@ + u.domain + "/"@ + o + "/"@ + r);
        }
    }
}

} // verus!

