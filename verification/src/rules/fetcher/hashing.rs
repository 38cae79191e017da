//! Which computation gives the hash of a fetcher call at a revision: the
//! NAR hash of a forge's archive, or of a git checkout.
use vstd::prelude::*;

use crate::forge::forge_archive;
use crate::parser::ParsedAttrs;
use crate::rules::fetcher::dispatch::{nonempty_list, pure_list};
use crate::rules::fetcher::kind::{kind_git_url, kind_hash_strategy, FetcherKind, HashStrategy};
use crate::utils::fetch::opt_string_view;

verus! {

/// What `nix-prefetch-git` is asked to check out and hash.
#[derive(Debug, Clone)]
pub struct PrefetchArgs {
    pub url: String,
    pub rev: String,
    pub fetch_submodules: bool,
    pub deep_clone: bool,
    pub leave_dot_git: bool,
    pub fetch_lfs: bool,
    pub branch_name: Option<String>,
    pub root_dir: Option<String>,
    pub sparse_checkout: Vec<String>,
}

/// How the hash of a call is computed.
#[derive(Debug, Clone)]
pub enum HashRequest {
    /// The NAR hash of the unpacked tarball at this URL.
    Tarball(String),
    /// The NAR hash of a git checkout.
    Git(PrefetchArgs),
}

/// The flag of `key`, `default` when unset.
pub open spec fn flag_or(b: Map<Seq<char>, bool>, key: Seq<char>, default: bool) -> bool {
    if b.contains_key(key) {
        b[key]
    } else {
        default
    }
}

/// The arguments of the git checkout of a call at `rev`: the call's git URL
/// and its submodule (`submodules` for `builtins.fetchGit`, else
/// `fetchSubmodules`; fetched unless set to false), deep clone, `.git`,
/// LFS, branch name, non-empty root directory and sparse checkout options.
pub open spec fn spec_git_args(k: FetcherKind, p: ParsedAttrs, rev: Seq<char>, a: PrefetchArgs) -> bool {
    let b = p.bools@;
    let s = p.strings@;
    let sub_key = if k == FetcherKind::BuiltinsFetchGit {
        "submodules"@
    } else {
        "fetchSubmodules"@
    };
    &&& kind_git_url(k, s) == Some(a.url@)
    &&& a.rev@ == rev
    &&& a.fetch_submodules == flag_or(b, sub_key, true)
    &&& a.deep_clone == flag_or(b, "deepClone"@, false)
    &&& a.leave_dot_git == flag_or(b, "leaveDotGit"@, false)
    &&& a.fetch_lfs == flag_or(b, "fetchLFS"@, false)
    &&& opt_string_view(a.branch_name) == (if s.contains_key("branchName"@) {
        Some(s["branchName"@])
    } else {
        None
    })
    &&& opt_string_view(a.root_dir) == (if s.contains_key("rootDir"@) && s["rootDir"@].len() > 0 {
        Some(s["rootDir"@])
    } else {
        None
    })
    &&& crate::parser::tree::strings_view(a.sparse_checkout@) == (match pure_list(p, "sparseCheckout"@) {
        Some(v) => v,
        None => Seq::empty(),
    })
}

/// The error text of a call whose hash cannot be computed at `rev`, or
/// `None` when [`dispatch_hash_strategy`] gives a request.
pub open spec fn hash_strategy_error(k: FetcherKind, p: ParsedAttrs, rev: Seq<char>) -> Option<Seq<char>> {
    match kind_hash_strategy(k, p.strings@, p.bools@, nonempty_list(p, "sparseCheckout"@)) {
        HashStrategy::Tarball => match k {
            FetcherKind::Forge(f) => match forge_archive(f, p.strings@, rev) {
                Ok(_) => None,
                Err(e) => Some(e),
            },
            _ => Some("Unsupported fetcher for tarball hashing"@),
        },
        HashStrategy::Git => if kind_git_url(k, p.strings@) is Some {
            None
        } else {
            Some("No git URL available"@)
        },
        HashStrategy::Patch => Some("Patch hashing should be handled via check_fetchpatch_call"@),
        HashStrategy::NotNeeded => Some("No hash needed for this fetcher"@),
    }
}

fn flag_or_exec(p: &ParsedAttrs, key: &str, default: bool) -> (r: bool)
    ensures
        r == flag_or(p.bools@, key@, default),
{
    match p.bools.get(key) {
        Some(b) => *b,
        None => default,
    }
}

/// How the hash of a git fetcher call at `rev` is computed: the forge's
/// archive when the call is fetched as a tarball, else a git checkout (see
/// [`spec_git_args`]); the error text when neither applies.
pub fn dispatch_hash_strategy(kind: &FetcherKind, parsed: &ParsedAttrs, rev: &str) -> (r: Result<HashRequest, String>)
    ensures
        match r {
            Ok(HashRequest::Tarball(u)) => hash_strategy_error(*kind, *parsed, rev@) is None
                && kind_hash_strategy(*kind, parsed.strings@, parsed.bools@, nonempty_list(*parsed, "sparseCheckout"@))
                == HashStrategy::Tarball && (*kind matches FetcherKind::Forge(f) && forge_archive(f, parsed.strings@, rev@)
                == Ok::<Seq<char>, Seq<char>>(u@)),
            Ok(HashRequest::Git(a)) => hash_strategy_error(*kind, *parsed, rev@) is None && kind_hash_strategy(
                *kind,
                parsed.strings@,
                parsed.bools@,
                nonempty_list(*parsed, "sparseCheckout"@),
            ) == HashStrategy::Git && spec_git_args(*kind, *parsed, rev@, a),
            Err(e) => hash_strategy_error(*kind, *parsed, rev@) == Some(e@),
        },
{
    let sparse = match parsed.pure_string_list("sparseCheckout") {
        Some(v) => v,
        None => {
            let v: Vec<String> = Vec::new();
            assert(crate::parser::tree::strings_view(v@) =~= Seq::<Seq<char>>::empty());
            v
        },
    };
    let has_sparse = sparse.len() > 0;
    match kind.hash_strategy(parsed, has_sparse) {
        HashStrategy::Tarball => match kind {
            FetcherKind::Forge(f) => match f.archive_url(parsed, rev) {
                Ok(u) => Ok(HashRequest::Tarball(u)),
                Err(e) => Err(e),
            },
            _ => Err(String::from_str("Unsupported fetcher for tarball hashing")),
        },
        HashStrategy::Git => {
            let url = match kind.git_url(parsed) {
                Some(u) => u,
                None => return Err(String::from_str("No git URL available")),
            };
            let sub_key = if *kind == FetcherKind::BuiltinsFetchGit {
                "submodules"
            } else {
                "fetchSubmodules"
            };
            let branch_name = match parsed.strings.get("branchName") {
                Some(b) => Some(b.clone()),
                None => None,
            };
            let root_dir = match parsed.strings.get("rootDir") {
                Some(d) => if d.unicode_len() > 0 {
                    Some(d.clone())
                } else {
                    None
                },
                None => None,
            };
            proof {
                reveal_strlit("submodules");
                reveal_strlit("fetchSubmodules");
            }
            Ok(
                HashRequest::Git(
                    PrefetchArgs {
                        url,
                        rev: String::from_str(rev),
                        fetch_submodules: flag_or_exec(parsed, sub_key, true),
                        deep_clone: flag_or_exec(parsed, "deepClone", false),
                        leave_dot_git: flag_or_exec(parsed, "leaveDotGit", false),
                        fetch_lfs: flag_or_exec(parsed, "fetchLFS", false),
                        branch_name,
                        root_dir,
                        sparse_checkout: sparse,
                    },
                ),
            )
        },
        HashStrategy::Patch => Err(String::from_str("Patch hashing should be handled via check_fetchpatch_call")),
        HashStrategy::NotNeeded => Err(String::from_str("No hash needed for this fetcher")),
    }
}

} // verus!

verus! {

/// The text of a failed git checkout: which repository and revision, and
/// whether submodules were fetched.
pub open spec fn git_prefetch_error_text(a: PrefetchArgs, e: Seq<char>) -> Seq<char> {
    "Failed to prefetch git repository "@ + a.url@ + " @ "@ + a.rev@ + (if a.fetch_submodules {
        " (with submodules)"@
    } else {
        ""@
    }) + ": "@ + e
}

/// The text of a failed git checkout (see [`git_prefetch_error_text`]).
pub fn git_prefetch_error(args: &PrefetchArgs, e: &str) -> (r: String)
    ensures
        r@ == git_prefetch_error_text(*args, e@),
{
    proof {
        reveal_strlit("");
    }
    let mut r = String::from_str("Failed to prefetch git repository ");
    r.append(args.url.as_str());
    r.append(" @ ");
    r.append(args.rev.as_str());
    if args.fetch_submodules {
        r.append(" (with submodules)");
    } else {
        r.append("");
    }
    r.append(": ");
    r.append(e);
    r
}

} // verus!
