//! Fetcher kinds: the `fetchFrom<Name>` forges and the plain `fetchgit`,
//! `builtins.fetchGit`, `fetchpatch` and `fetchTarball` fetchers, with the
//! attributes each accepts and how each is hashed.
use vstd::prelude::*;

use crate::forge::{
    attrs_view, common_git_attr_list, compose_attr_spec, find_by_fn_name, forge_attrs, forge_by_fn_name,
    forge_display, forge_fn_name_of, forge_git_url, push_attr, strip_url_scheme, without_scheme, ForgeId,
};
use crate::parser::ast::{pure_list_prefix, strings_view};
use crate::parser::{AttrSpec, AttrType, ParsedAttrs};
use crate::rules::fetcher::source_url::{parse_source_url, spec_parse_source_url};
use crate::text::{after_last, after_last_exec, chars_of, eq_str};

verus! {

/// A fetcher kind.
#[derive(Debug, Clone, Copy, PartialEq, Eq, Structural)]
pub enum FetcherKind {
    Forge(ForgeId),
    FetchGit,
    BuiltinsFetchGit,
    FetchPatch,
    FetchTarball,
}

/// How the hash of a fetcher call is computed.
#[derive(Debug, Clone, Copy, PartialEq, Eq, Structural)]
pub enum HashStrategy {
    Tarball,
    Git,
    NotNeeded,
    Patch,
}

/// The kind a fetcher function name denotes, by its last `.`-segment.
pub open spec fn kind_from_name(name: Seq<char>) -> Option<FetcherKind> {
    let short = after_last(name, '.');
    if short == "fetchgit"@ || short == "fetchgitPrivate"@ {
        Some(FetcherKind::FetchGit)
    } else if short == "fetchGit"@ {
        Some(FetcherKind::BuiltinsFetchGit)
    } else if short == "fetchpatch"@ {
        Some(FetcherKind::FetchPatch)
    } else if short == "fetchTarball"@ {
        Some(FetcherKind::FetchTarball)
    } else {
        match forge_by_fn_name(short) {
            Some(f) => Some(FetcherKind::Forge(f)),
            None => None,
        }
    }
}

pub open spec fn kind_name(k: FetcherKind) -> Seq<char> {
    match k {
        FetcherKind::Forge(f) => forge_fn_name_of(f),
        FetcherKind::FetchGit => "fetchgit"@,
        FetcherKind::BuiltinsFetchGit => "builtins.fetchGit"@,
        FetcherKind::FetchPatch => "fetchpatch"@,
        FetcherKind::FetchTarball => "fetchTarball"@,
    }
}

/// A boolean attribute that is present and true.
pub open spec fn flag(b: Map<Seq<char>, bool>, k: Seq<char>) -> bool {
    b.contains_key(k) && b[k]
}

pub open spec fn kind_uses_fetch_submodules(k: FetcherKind, b: Map<Seq<char>, bool>) -> bool {
    match k {
        FetcherKind::FetchGit | FetcherKind::Forge(_) => flag(b, "fetchSubmodules"@),
        FetcherKind::BuiltinsFetchGit => flag(b, "submodules"@),
        _ => false,
    }
}

pub open spec fn kind_uses_fetchgit(k: FetcherKind, s: Map<Seq<char>, Seq<char>>, b: Map<Seq<char>, bool>, sparse: bool) -> bool {
    match k {
        FetcherKind::FetchGit | FetcherKind::BuiltinsFetchGit => true,
        FetcherKind::Forge(_) => flag(b, "forceFetchGit"@) || flag(b, "leaveDotGit"@) || flag(b, "deepClone"@)
            || flag(b, "fetchLFS"@) || flag(b, "fetchSubmodules"@)
            || (s.contains_key("rootDir"@) && s["rootDir"@].len() > 0) || sparse,
        _ => false,
    }
}

pub open spec fn kind_uses_tarball(k: FetcherKind, s: Map<Seq<char>, Seq<char>>, b: Map<Seq<char>, bool>, sparse: bool) -> bool {
    !kind_uses_fetchgit(k, s, b, sparse) && !kind_uses_fetch_submodules(k, b)
}

pub open spec fn kind_hash_strategy(k: FetcherKind, s: Map<Seq<char>, Seq<char>>, b: Map<Seq<char>, bool>, sparse: bool) -> HashStrategy {
    match k {
        FetcherKind::BuiltinsFetchGit => HashStrategy::NotNeeded,
        FetcherKind::FetchPatch => HashStrategy::Patch,
        FetcherKind::FetchTarball => HashStrategy::Tarball,
        FetcherKind::FetchGit => HashStrategy::Git,
        FetcherKind::Forge(_) => if kind_uses_tarball(k, s, b, sparse) { HashStrategy::Tarball } else { HashStrategy::Git },
    }
}

pub open spec fn kind_git_url(k: FetcherKind, s: Map<Seq<char>, Seq<char>>) -> Option<Seq<char>> {
    match k {
        FetcherKind::Forge(f) => forge_git_url(f, s),
        _ => if s.contains_key("url"@) { Some(s["url"@]) } else { None },
    }
}

pub open spec fn fetch_git_attrs() -> Seq<(Seq<char>, AttrType)> {
    common_git_attr_list() + seq![("url"@, AttrType::String), ("submodules"@, AttrType::Bool)]
}

pub open spec fn builtins_fetch_git_attrs() -> Seq<(Seq<char>, AttrType)> {
    seq![
        ("url"@, AttrType::String),
        ("tag"@, AttrType::String),
        ("rev"@, AttrType::String),
        ("ref"@, AttrType::String),
        ("submodules"@, AttrType::Bool),
        ("sparseCheckout"@, AttrType::ListString),
    ]
}

pub open spec fn fetch_patch_attrs() -> Seq<(Seq<char>, AttrType)> {
    seq![
        ("url"@, AttrType::String),
        ("urls"@, AttrType::ListString),
        ("hash"@, AttrType::String),
        ("sha256"@, AttrType::String),
        ("sha1"@, AttrType::String),
        ("sha512"@, AttrType::String),
        ("outputHash"@, AttrType::String),
        ("outputHashAlgo"@, AttrType::String),
        ("name"@, AttrType::String),
        ("pname"@, AttrType::String),
        ("version"@, AttrType::String),
        ("stripLen"@, AttrType::Int),
        ("relative"@, AttrType::String),
        ("extraPrefix"@, AttrType::String),
        ("revert"@, AttrType::Bool),
        ("excludes"@, AttrType::ListString),
        ("includes"@, AttrType::ListString),
        ("hunks"@, AttrType::ListInt),
        ("decode"@, AttrType::String),
        ("postFetch"@, AttrType::String),
        ("curlOpts"@, AttrType::String),
        ("curlOptsList"@, AttrType::ListString),
        ("downloadToTemp"@, AttrType::Bool),
        ("executable"@, AttrType::Bool),
        ("showURLs"@, AttrType::Bool),
        ("recursiveHash"@, AttrType::Bool),
        ("netrcPhase"@, AttrType::String),
        ("netrcImpureEnvVars"@, AttrType::ListString),
    ]
}

pub open spec fn fetch_tarball_attrs() -> Seq<(Seq<char>, AttrType)> {
    seq![
        ("url"@, AttrType::String),
        ("urls"@, AttrType::ListString),
        ("sha256"@, AttrType::String),
        ("hash"@, AttrType::String),
        ("name"@, AttrType::String),
    ]
}

pub open spec fn kind_attrs(k: FetcherKind) -> Seq<(Seq<char>, AttrType)> {
    match k {
        FetcherKind::Forge(f) => forge_attrs(f),
        FetcherKind::FetchGit => fetch_git_attrs(),
        FetcherKind::BuiltinsFetchGit => builtins_fetch_git_attrs(),
        FetcherKind::FetchPatch => fetch_patch_attrs(),
        FetcherKind::FetchTarball => fetch_tarball_attrs(),
    }
}

/// The URL a patch or tarball call downloads: `url`, else the first of
/// `urls` when all of them are plain strings.
pub open spec fn first_url(p: ParsedAttrs) -> Option<Seq<char>> {
    if p.strings@.contains_key("url"@) {
        Some(p.strings@["url"@])
    } else if p.list_strings@.contains_key("urls"@) {
        match pure_list_prefix(p.list_strings@["urls"@], p.list_strings@["urls"@].len() as int) {
            Some(urls) => if urls.len() > 0 { Some(urls[0]) } else { None },
            None => None,
        }
    } else {
        None
    }
}

/// `domain/project` of a recognised source URL, else the URL without scheme.
pub open spec fn url_target(url: Seq<char>) -> Seq<char> {
    match spec_parse_source_url(url) {
        Some(u) => u.domain + "/"@ + u.project,
        None => without_scheme(url),
    }
}

pub open spec fn kind_display_target(k: FetcherKind, p: ParsedAttrs) -> Option<Seq<char>> {
    match k {
        FetcherKind::Forge(f) => forge_display(f, p.strings@),
        FetcherKind::FetchPatch | FetcherKind::FetchTarball => match first_url(p) {
            Some(url) => Some(url_target(url)),
            None => None,
        },
        _ => if p.strings@.contains_key("url"@) { Some(without_scheme(p.strings@["url"@])) } else { None },
    }
}

fn flag_exec(p: &ParsedAttrs, k: &str) -> (b: bool)
    ensures
        b == flag(p.bools@, k@),
{
    match p.bools.get(k) {
        Some(v) => *v,
        None => false,
    }
}

impl FetcherKind {
    /// The kind named by a fetcher function (`pkgs.fetchgit`,
    /// `builtins.fetchGit`, `fetchFromGitHub`, ...).
    pub fn from_name(name: &str) -> (r: Option<FetcherKind>)
        ensures
            r == kind_from_name(name@),
    {
        let short_v = after_last_exec(&chars_of(name), '.');
        if eq_str(&short_v, "fetchgit") || eq_str(&short_v, "fetchgitPrivate") {
            Some(FetcherKind::FetchGit)
        } else if eq_str(&short_v, "fetchGit") {
            Some(FetcherKind::BuiltinsFetchGit)
        } else if eq_str(&short_v, "fetchpatch") {
            Some(FetcherKind::FetchPatch)
        } else if eq_str(&short_v, "fetchTarball") {
            Some(FetcherKind::FetchTarball)
        } else {
            let short = crate::text::to_string(&short_v);
            match find_by_fn_name(short.as_str()) {
                Some(f) => Some(FetcherKind::Forge(f)),
                None => None,
            }
        }
    }

    /// The fetcher function name.
    pub fn name(&self) -> (r: &'static str)
        ensures
            r@ == kind_name(*self),
    {
        match self {
            FetcherKind::Forge(f) => f.nixpkgs_fn_name(),
            FetcherKind::FetchGit => "fetchgit",
            FetcherKind::BuiltinsFetchGit => "builtins.fetchGit",
            FetcherKind::FetchPatch => "fetchpatch",
            FetcherKind::FetchTarball => "fetchTarball",
        }
    }

    /// Every kind but `builtins.fetchGit` carries a hash.
    pub fn needs_hash(&self) -> (b: bool)
        ensures
            b == !(*self == FetcherKind::BuiltinsFetchGit),
    {
        match self {
            FetcherKind::BuiltinsFetchGit => false,
            _ => true,
        }
    }

    pub fn hash_strategy(&self, parsed: &ParsedAttrs, has_sparse_checkout: bool) -> (r: HashStrategy)
        ensures
            r == kind_hash_strategy(*self, parsed.strings@, parsed.bools@, has_sparse_checkout),
    {
        match self {
            FetcherKind::BuiltinsFetchGit => HashStrategy::NotNeeded,
            FetcherKind::FetchPatch => HashStrategy::Patch,
            FetcherKind::FetchTarball => HashStrategy::Tarball,
            FetcherKind::FetchGit => HashStrategy::Git,
            FetcherKind::Forge(_) => if self.uses_tarball(parsed, has_sparse_checkout) {
                HashStrategy::Tarball
            } else {
                HashStrategy::Git
            },
        }
    }

    pub fn git_url(&self, parsed: &ParsedAttrs) -> (r: Option<String>)
        ensures
            match r {
                Some(u) => kind_git_url(*self, parsed.strings@) == Some(u@),
                None => kind_git_url(*self, parsed.strings@) is None,
            },
    {
        match self {
            FetcherKind::Forge(f) => f.git_url(parsed),
            _ => match parsed.strings.get("url") {
                Some(u) => Some(u.clone()),
                None => None,
            },
        }
    }

    pub fn uses_tarball(&self, parsed: &ParsedAttrs, has_sparse_checkout: bool) -> (b: bool)
        ensures
            b == kind_uses_tarball(*self, parsed.strings@, parsed.bools@, has_sparse_checkout),
    {
        !self.uses_fetchgit(parsed, has_sparse_checkout) && !self.uses_fetch_submodules(parsed)
    }

    pub fn uses_fetch_submodules(&self, parsed: &ParsedAttrs) -> (b: bool)
        ensures
            b == kind_uses_fetch_submodules(*self, parsed.bools@),
    {
        match self {
            FetcherKind::FetchGit | FetcherKind::Forge(_) => flag_exec(parsed, "fetchSubmodules"),
            FetcherKind::BuiltinsFetchGit => flag_exec(parsed, "submodules"),
            _ => false,
        }
    }

    pub fn uses_fetchgit(&self, parsed: &ParsedAttrs, has_sparse_checkout: bool) -> (b: bool)
        ensures
            b == kind_uses_fetchgit(*self, parsed.strings@, parsed.bools@, has_sparse_checkout),
    {
        match self {
            FetcherKind::FetchGit | FetcherKind::BuiltinsFetchGit => true,
            FetcherKind::Forge(_) => {
                let root_dir = match parsed.strings.get("rootDir") {
                    Some(v) => v.as_str().unicode_len() > 0,
                    None => false,
                };
                flag_exec(parsed, "forceFetchGit") || flag_exec(parsed, "leaveDotGit")
                    || flag_exec(parsed, "deepClone") || flag_exec(parsed, "fetchLFS")
                    || flag_exec(parsed, "fetchSubmodules") || root_dir || has_sparse_checkout
            },
            _ => false,
        }
    }

    /// The attribute schema of the fetcher.
    pub fn attr_spec(&self) -> (r: Vec<AttrSpec>)
        ensures
            attrs_view(r@) == kind_attrs(*self),
    {
        match self {
            FetcherKind::Forge(f) => f.attr_spec(),
            FetcherKind::FetchGit => {
                let mut extra: Vec<AttrSpec> = Vec::new();
                push_attr(&mut extra, "url", AttrType::String);
                push_attr(&mut extra, "submodules", AttrType::Bool);
                compose_attr_spec(extra.as_slice())
            },
            FetcherKind::BuiltinsFetchGit => {
                let mut v: Vec<AttrSpec> = Vec::new();
                push_attr(&mut v, "url", AttrType::String);
                push_attr(&mut v, "tag", AttrType::String);
                push_attr(&mut v, "rev", AttrType::String);
                push_attr(&mut v, "ref", AttrType::String);
                push_attr(&mut v, "submodules", AttrType::Bool);
                push_attr(&mut v, "sparseCheckout", AttrType::ListString);
                assert(attrs_view(v@) =~= builtins_fetch_git_attrs());
                v
            },
            FetcherKind::FetchPatch => {
                let mut v: Vec<AttrSpec> = Vec::new();
                push_attr(&mut v, "url", AttrType::String);
                push_attr(&mut v, "urls", AttrType::ListString);
                push_attr(&mut v, "hash", AttrType::String);
                push_attr(&mut v, "sha256", AttrType::String);
                push_attr(&mut v, "sha1", AttrType::String);
                push_attr(&mut v, "sha512", AttrType::String);
                push_attr(&mut v, "outputHash", AttrType::String);
                push_attr(&mut v, "outputHashAlgo", AttrType::String);
                push_attr(&mut v, "name", AttrType::String);
                push_attr(&mut v, "pname", AttrType::String);
                push_attr(&mut v, "version", AttrType::String);
                push_attr(&mut v, "stripLen", AttrType::Int);
                push_attr(&mut v, "relative", AttrType::String);
                push_attr(&mut v, "extraPrefix", AttrType::String);
                push_attr(&mut v, "revert", AttrType::Bool);
                push_attr(&mut v, "excludes", AttrType::ListString);
                push_attr(&mut v, "includes", AttrType::ListString);
                push_attr(&mut v, "hunks", AttrType::ListInt);
                push_attr(&mut v, "decode", AttrType::String);
                push_attr(&mut v, "postFetch", AttrType::String);
                push_attr(&mut v, "curlOpts", AttrType::String);
                push_attr(&mut v, "curlOptsList", AttrType::ListString);
                push_attr(&mut v, "downloadToTemp", AttrType::Bool);
                push_attr(&mut v, "executable", AttrType::Bool);
                push_attr(&mut v, "showURLs", AttrType::Bool);
                push_attr(&mut v, "recursiveHash", AttrType::Bool);
                push_attr(&mut v, "netrcPhase", AttrType::String);
                push_attr(&mut v, "netrcImpureEnvVars", AttrType::ListString);
                assert(attrs_view(v@) =~= fetch_patch_attrs());
                v
            },
            FetcherKind::FetchTarball => {
                let mut v: Vec<AttrSpec> = Vec::new();
                push_attr(&mut v, "url", AttrType::String);
                push_attr(&mut v, "urls", AttrType::ListString);
                push_attr(&mut v, "sha256", AttrType::String);
                push_attr(&mut v, "hash", AttrType::String);
                push_attr(&mut v, "name", AttrType::String);
                assert(attrs_view(v@) =~= fetch_tarball_attrs());
                v
            },
        }
    }

    /// The keys of the attribute schema.
    pub fn operational_keys(&self) -> (r: Vec<&'static str>)
        ensures
            r@.len() == kind_attrs(*self).len(),
            forall|i: int| 0 <= i < r@.len() ==> r@[i]@ == kind_attrs(*self)[i].0,
    {
        let spec = self.attr_spec();
        let mut r: Vec<&'static str> = Vec::new();
        let mut i: usize = 0;
        while i < spec.len()
            invariant
                i <= spec@.len(),
                attrs_view(spec@) == kind_attrs(*self),
                r@.len() == i,
                forall|j: int| 0 <= j < i ==> r@[j]@ == kind_attrs(*self)[j].0,
            decreases spec.len() - i,
        {
            r.push(spec[i].key);
            assert(attrs_view(spec@)[i as int] == (spec@[i as int].key@, spec@[i as int].attr_type));
            i += 1;
        }
        r
    }

    /// What the call fetches, for display.
    pub fn display_target(&self, parsed: &ParsedAttrs) -> (r: Option<String>)
        ensures
            match r {
                Some(t) => kind_display_target(*self, *parsed) == Some(t@),
                None => kind_display_target(*self, *parsed) is None,
            },
    {
        match self {
            FetcherKind::Forge(f) => f.display_target(parsed),
            FetcherKind::FetchPatch | FetcherKind::FetchTarball => {
                let url = match parsed.strings.get("url") {
                    Some(u) => u.clone(),
                    None => match parsed.pure_string_list("urls") {
                        Some(urls) => {
                            if urls.len() > 0 {
                                urls[0].clone()
                            } else {
                                return None;
                            }
                        },
                        None => return None,
                    },
                };
                match parse_source_url(url.as_str()) {
                    Some(p) => {
                        let mut t = p.domain.clone();
                        t.append("/");
                        t.append(p.project.as_str());
                        Some(t)
                    },
                    None => Some(strip_url_scheme(url.as_str())),
                }
            },
            _ => match parsed.strings.get("url") {
                Some(u) => Some(strip_url_scheme(u.as_str())),
                None => None,
            },
        }
    }
}

} // verus!
