//! Recognising patch URLs (commit and compare URLs) of the common hosting
//! platforms and the revision they name, for `fetchpatch` revision
//! following and version updates. Only `https://` URLs are recognised.
use vstd::prelude::*;

use crate::rules::fetcher::source_url::{
    contains_marker, dispatch_rest_exec, opt_url_view, parse_bitbucket, parse_bitbucket_exec,
    parse_gitlab, parse_gitlab_exec, parse_simple_commit_compare, parse_simple_commit_compare_exec,
    split_rest, split_rest_exec, strip_scheme, strip_scheme_exec, ParsedSourceUrl, RefTypeView,
    SourcePlatform, SourceRefType, SourceUrlView,
};
use crate::text::{chars_of, ends_with, ends_with_exec, eq_str, starts_with, starts_with_exec, trim, trim_exec};
use crate::utils::version::{is_version, VersionDetector};

verus! {

/// The hosting platform identified from a patch URL.
#[derive(Debug, Clone, Copy, PartialEq, Eq, Structural)]
pub enum PatchPlatform {
    GitHub,
    GitLab,
    /// Also covers Forgejo, Codeberg, and any other Gitea-compatible host.
    Gitea,
    SourceHut,
    Bitbucket,
}

/// The kind of reference a patch URL carries.
#[derive(Debug, Clone, PartialEq)]
pub enum PatchRefType {
    /// A commit (or tag) patch URL.
    Commit { sha: String, suffix: String },
    /// A compare range patch URL.
    Compare { base: String, head: String, suffix: String },
}

/// A parsed patch URL from a recognised hosting platform.
#[derive(Debug, Clone, PartialEq)]
pub struct ParsedPatchUrl {
    pub platform: PatchPlatform,
    pub domain: String,
    pub project: String,
    pub ref_type: PatchRefType,
    pub query: String,
}

pub enum PatchRefView {
    Commit { sha: Seq<char>, suffix: Seq<char> },
    Compare { base: Seq<char>, head: Seq<char>, suffix: Seq<char> },
}

pub struct PatchUrlView {
    pub platform: PatchPlatform,
    pub domain: Seq<char>,
    pub project: Seq<char>,
    pub ref_type: PatchRefView,
    pub query: Seq<char>,
}

impl View for ParsedPatchUrl {
    type V = PatchUrlView;

    open spec fn view(&self) -> PatchUrlView {
        PatchUrlView {
            platform: self.platform,
            domain: self.domain@,
            project: self.project@,
            ref_type: match self.ref_type {
                PatchRefType::Commit { sha, suffix } => PatchRefView::Commit { sha: sha@, suffix: suffix@ },
                PatchRefType::Compare { base, head, suffix } => PatchRefView::Compare {
                    base: base@,
                    head: head@,
                    suffix: suffix@,
                },
            },
            query: self.query@,
        }
    }
}

pub open spec fn opt_patch_view(o: Option<ParsedPatchUrl>) -> Option<PatchUrlView> {
    match o {
        Some(u) => Some(u@),
        None => None,
    }
}

pub open spec fn patch_platform_of(p: SourcePlatform) -> PatchPlatform {
    match p {
        SourcePlatform::GitHub => PatchPlatform::GitHub,
        SourcePlatform::GitLab => PatchPlatform::GitLab,
        SourcePlatform::Gitea | SourcePlatform::Gitiles | SourcePlatform::RepoOrCz => PatchPlatform::Gitea,
        SourcePlatform::SourceHut => PatchPlatform::SourceHut,
        SourcePlatform::Bitbucket => PatchPlatform::Bitbucket,
    }
}

/// A commit or compare source URL as a patch URL.
pub open spec fn as_patch_url(u: SourceUrlView) -> Option<PatchUrlView> {
    match u.ref_type {
        RefTypeView::Commit { sha, suffix } => Some(PatchUrlView {
            platform: patch_platform_of(u.platform),
            domain: u.domain,
            project: u.project,
            ref_type: PatchRefView::Commit { sha, suffix },
            query: u.query,
        }),
        RefTypeView::Compare { base, head, suffix } => Some(PatchUrlView {
            platform: patch_platform_of(u.platform),
            domain: u.domain,
            project: u.project,
            ref_type: PatchRefView::Compare { base, head, suffix },
            query: u.query,
        }),
        RefTypeView::Archive { .. } => None,
    }
}

/// Which parser a domain and path of a patch URL are handed to.
pub open spec fn patch_dispatch(domain: Seq<char>, path: Seq<char>, query: Seq<char>) -> Option<SourceUrlView> {
    if ends_with(domain, ".sr.ht"@) && starts_with(path, "~"@) {
        parse_simple_commit_compare(path, domain, SourcePlatform::SourceHut, query)
    } else if contains_marker(path, "/-/commit/"@) || contains_marker(path, "/-/compare/"@) {
        parse_gitlab(path, domain, query)
    } else if domain == "bitbucket.org"@ {
        parse_bitbucket(path, domain, query)
    } else if domain == "github.com"@ {
        parse_simple_commit_compare(path, domain, SourcePlatform::GitHub, query)
    } else {
        parse_simple_commit_compare(path, domain, SourcePlatform::Gitea, query)
    }
}

/// What [`parse_patch_url`] makes of a URL.
pub open spec fn spec_parse_patch_url(url: Seq<char>) -> Option<PatchUrlView> {
    match strip_scheme(trim(url), false) {
        Some(rest) => match split_rest(rest) {
            Some((domain, path, query)) => match patch_dispatch(domain, path, query) {
                Some(u) => as_patch_url(u),
                None => None,
            },
            None => None,
        },
        None => None,
    }
}

pub open spec fn patch_current_ref(r: PatchRefView) -> Seq<char> {
    match r {
        PatchRefView::Commit { sha, .. } => sha,
        PatchRefView::Compare { head, .. } => head,
    }
}

/// The URL [`ParsedPatchUrl::replace_ref`] builds, before the query.
pub open spec fn patch_replace_ref_base(u: PatchUrlView, new_ref: Seq<char>) -> Seq<char> {
    let head = "https://"@ + u.domain + "/"@ + u.project;
    match u.ref_type {
        PatchRefView::Commit { suffix, .. } => match u.platform {
            PatchPlatform::GitLab => head + "/-/commit/"@ + new_ref + suffix,
            PatchPlatform::Bitbucket => head + "/commits/"@ + new_ref + suffix,
            _ => head + "/commit/"@ + new_ref + suffix,
        },
        PatchRefView::Compare { base, suffix, .. } => match u.platform {
            PatchPlatform::GitLab => head + "/-/compare/"@ + base + "..."@ + new_ref + suffix,
            _ => head + "/compare/"@ + base + "..."@ + new_ref + suffix,
        },
    }
}

impl ParsedPatchUrl {
    /// The HTTPS git remote of the project, for `git ls-remote`.
    pub fn git_remote_url(&self) -> (r: String)
        ensures
            r@ == "https://"@ + self.domain@ + "/"@ + self.project@,
    {
        let mut r = String::from_str("https://");
        r.append(self.domain.as_str());
        r.append("/");
        r.append(self.project.as_str());
        r
    }

    /// The ref the URL names: the commit or the compare head.
    pub fn current_ref(&self) -> (r: &str)
        ensures
            r@ == patch_current_ref(self@.ref_type),
    {
        match &self.ref_type {
            PatchRefType::Commit { sha, .. } => sha.as_str(),
            PatchRefType::Compare { head, .. } => head.as_str(),
        }
    }

    /// Whether the current ref looks like a version.
    pub fn is_version_ref(&self) -> (b: bool)
        ensures
            b == is_version(patch_current_ref(self@.ref_type)),
    {
        VersionDetector::is_version(self.current_ref())
    }

    /// The URL with its ref replaced by `new_ref`, query string kept.
    pub fn replace_ref(&self, new_ref: &str) -> (r: String)
        ensures
            r@ == patch_replace_ref_base(self@, new_ref@) + self.query@,
    {
        let mut r = self.replace_ref_base(new_ref);
        r.append(self.query.as_str());
        r
    }

    pub fn replace_ref_base(&self, new_ref: &str) -> (r: String)
        ensures
            r@ == patch_replace_ref_base(self@, new_ref@),
    {
        let mut r = String::from_str("https://");
        r.append(self.domain.as_str());
        r.append("/");
        r.append(self.project.as_str());
        match &self.ref_type {
            PatchRefType::Commit { suffix, .. } => {
                match self.platform {
                    PatchPlatform::GitLab => r.append("/-/commit/"),
                    PatchPlatform::Bitbucket => r.append("/commits/"),
                    _ => r.append("/commit/"),
                }
                r.append(new_ref);
                r.append(suffix.as_str());
            },
            PatchRefType::Compare { base, suffix, .. } => {
                match self.platform {
                    PatchPlatform::GitLab => r.append("/-/compare/"),
                    _ => r.append("/compare/"),
                }
                r.append(base.as_str());
                r.append("...");
                r.append(new_ref);
                r.append(suffix.as_str());
            },
        }
        r
    }
}

fn as_patch_url_exec(u: ParsedSourceUrl) -> (r: Option<ParsedPatchUrl>)
    ensures
        opt_patch_view(r) == as_patch_url(u@),
{
    let platform = match u.platform {
        SourcePlatform::GitHub => PatchPlatform::GitHub,
        SourcePlatform::GitLab => PatchPlatform::GitLab,
        SourcePlatform::Gitea | SourcePlatform::Gitiles | SourcePlatform::RepoOrCz => PatchPlatform::Gitea,
        SourcePlatform::SourceHut => PatchPlatform::SourceHut,
        SourcePlatform::Bitbucket => PatchPlatform::Bitbucket,
    };
    match u.ref_type {
        SourceRefType::Commit { sha, suffix } => Some(ParsedPatchUrl {
            platform,
            domain: u.domain,
            project: u.project,
            ref_type: PatchRefType::Commit { sha, suffix },
            query: u.query,
        }),
        SourceRefType::Compare { base, head, suffix } => Some(ParsedPatchUrl {
            platform,
            domain: u.domain,
            project: u.project,
            ref_type: PatchRefType::Compare { base, head, suffix },
            query: u.query,
        }),
        SourceRefType::Archive { .. } => None,
    }
}

fn patch_dispatch_exec(domain: &Vec<char>, path: &Vec<char>, query: &Vec<char>) -> (r: Option<ParsedSourceUrl>)
    ensures
        opt_url_view(r) == patch_dispatch(domain@, path@, query@),
{
    if ends_with_exec(domain, &chars_of(".sr.ht")) && starts_with_exec(path, &chars_of("~")) {
        parse_simple_commit_compare_exec(path, domain, SourcePlatform::SourceHut, query)
    } else if dispatch_rest_exec(path, "/-/commit/") || dispatch_rest_exec(path, "/-/compare/") {
        parse_gitlab_exec(path, domain, query)
    } else if eq_str(domain, "bitbucket.org") {
        parse_bitbucket_exec(path, domain, query)
    } else if eq_str(domain, "github.com") {
        parse_simple_commit_compare_exec(path, domain, SourcePlatform::GitHub, query)
    } else {
        parse_simple_commit_compare_exec(path, domain, SourcePlatform::Gitea, query)
    }
}

/// Parses an `https://` patch URL (commit or compare URL) of a recognised
/// platform. `None` for anything else.
pub fn parse_patch_url(url: &str) -> (r: Option<ParsedPatchUrl>)
    ensures
        opt_patch_view(r) == spec_parse_patch_url(url@),
{
    let t = trim_exec(&chars_of(url));
    match strip_scheme_exec(&t, false) {
        Some(rest) => match split_rest_exec(&rest) {
            Some((domain, path, query)) => match patch_dispatch_exec(&domain, &path, &query) {
                Some(u) => as_patch_url_exec(u),
                None => None,
            },
            None => None,
        },
        None => None,
    }
}

} // verus!
