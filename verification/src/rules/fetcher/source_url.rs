//! Recognising source URLs of the common hosting platforms (GitHub, GitLab,
//! Gitea/Forgejo/Codeberg, SourceHut, Bitbucket) and the revision they name.
//!
//! Two URL categories are recognised: patch URLs (commit and compare URLs,
//! optionally ending in `.patch`, `.diff` or `.mbox`) and archive URLs
//! (`/archive/{ref}.tar.gz`, `/-/archive/{ref}/...`, `/get/{ref}.tar.gz`,
//! and the `.tar.bz2`, `.tar.xz` and `.zip` variants). A parsed URL can be
//! rebuilt around another revision.
use vstd::prelude::*;

use crate::text::{
    after_last, after_last_exec, append_chars, chars_of, copy_vec, contains, contains_exec, ends_with, ends_with_exec,
    eq_str, find, find_exec, has_char, has_char_exec, lemma_find_from, occurs_at, slice_vec, split_once,
    split_once_exec, starts_with, starts_with_exec, strip_prefix, strip_prefix_exec, strip_suffix,
    strip_suffix_exec, to_string, trim, trim_exec,
};
use crate::utils::version::{is_version, VersionDetector};

verus! {

/// The hosting platform identified from a source URL.
#[derive(Debug, Clone, Copy, PartialEq, Eq, Structural)]
pub enum SourcePlatform {
    GitHub,
    GitLab,
    /// Also covers Forgejo, Codeberg, and any other Gitea-compatible host.
    Gitea,
    SourceHut,
    Bitbucket,
    /// Gitiles (`googlesource.com` and the like): `/+archive/{ref}.tar.gz`.
    Gitiles,
    /// repo.or.cz and other gitweb hosts: `/snapshot/{ref}.tar.gz`.
    RepoOrCz,
}

/// The kind of reference a source URL carries.
#[derive(Debug, Clone, PartialEq)]
pub enum SourceRefType {
    /// A commit (or tag) URL: `/{project}/commit/{sha}[.patch|.diff|.mbox]`,
    /// GitLab's `/-/commit/`, Bitbucket's `/commits/{sha}`.
    Commit { sha: String, suffix: String },
    /// A compare range: `/{project}/compare/{base}...{head}[.ext]`.
    Compare { base: String, head: String, suffix: String },
    /// An archive download: `/archive/{ref}.tar.gz`, `/-/archive/{ref}/...`,
    /// `/get/{ref}.tar.gz`, `/+archive/{ref}.tar.gz`, `/snapshot/{ref}.tar.gz`.
    Archive { tag_ref: String, suffix: String },
}

/// A parsed source URL from a recognised hosting platform.
#[derive(Debug, Clone, PartialEq)]
pub struct ParsedSourceUrl {
    pub platform: SourcePlatform,
    /// Domain of the URL (`github.com`, `gitlab.example.com`, `git.sr.ht`).
    pub domain: String,
    /// Project path as it appears in the URL (`owner/repo`,
    /// `group/subgroup/project`, `~owner/repo`).
    pub project: String,
    /// For GitLab archive URLs, the last segment of the project path.
    pub repo_name: Option<String>,
    pub ref_type: SourceRefType,
    /// Query string of the URL including its leading `?`, or empty.
    pub query: String,
}

/// The mathematical form of [`SourceRefType`].
pub enum RefTypeView {
    Commit { sha: Seq<char>, suffix: Seq<char> },
    Compare { base: Seq<char>, head: Seq<char>, suffix: Seq<char> },
    Archive { tag_ref: Seq<char>, suffix: Seq<char> },
}

/// The mathematical form of [`ParsedSourceUrl`].
pub struct SourceUrlView {
    pub platform: SourcePlatform,
    pub domain: Seq<char>,
    pub project: Seq<char>,
    pub repo_name: Option<Seq<char>>,
    pub ref_type: RefTypeView,
    pub query: Seq<char>,
}

impl View for SourceRefType {
    type V = RefTypeView;

    open spec fn view(&self) -> RefTypeView {
        match self {
            SourceRefType::Commit { sha, suffix } => RefTypeView::Commit { sha: sha@, suffix: suffix@ },
            SourceRefType::Compare { base, head, suffix } => RefTypeView::Compare {
                base: base@,
                head: head@,
                suffix: suffix@,
            },
            SourceRefType::Archive { tag_ref, suffix } => RefTypeView::Archive {
                tag_ref: tag_ref@,
                suffix: suffix@,
            },
        }
    }
}

pub open spec fn opt_string_view(o: Option<String>) -> Option<Seq<char>> {
    match o {
        Some(s) => Some(s@),
        None => None,
    }
}

impl View for ParsedSourceUrl {
    type V = SourceUrlView;

    open spec fn view(&self) -> SourceUrlView {
        SourceUrlView {
            platform: self.platform,
            domain: self.domain@,
            project: self.project@,
            repo_name: opt_string_view(self.repo_name),
            ref_type: self.ref_type@,
            query: self.query@,
        }
    }
}

pub open spec fn opt_url_view(o: Option<ParsedSourceUrl>) -> Option<SourceUrlView> {
    match o {
        Some(u) => Some(u@),
        None => None,
    }
}

// ---------------------------------------------------------------------------
// Specification
// ---------------------------------------------------------------------------

/// The ref a URL names: the commit, the head of a compare range, or the
/// archived ref.
pub open spec fn current_ref_of(r: RefTypeView) -> Seq<char> {
    match r {
        RefTypeView::Commit { sha, .. } => sha,
        RefTypeView::Compare { head, .. } => head,
        RefTypeView::Archive { tag_ref, .. } => tag_ref,
    }
}

/// `s` split into a non-empty ref and one of the given extensions, tried in
/// order; a segment with no dot is a bare ref; another extension is refused.
pub open spec fn split_suffix_among(s: Seq<char>, exts: Seq<Seq<char>>) -> Option<(Seq<char>, Seq<char>)>
    decreases exts.len(),
{
    if s.len() == 0 {
        None
    } else if exts.len() == 0 {
        if has_char(s, '.') {
            None
        } else {
            Some((s, Seq::<char>::empty()))
        }
    } else {
        match strip_suffix(s, exts[0]) {
            Some(base) if base.len() > 0 => Some((base, exts[0])),
            _ => split_suffix_among(s, exts.drop_first()),
        }
    }
}

pub open spec fn patch_exts() -> Seq<Seq<char>> {
    seq![".patch"@, ".diff"@, ".mbox"@]
}

pub open spec fn archive_exts() -> Seq<Seq<char>> {
    seq![".tar.gz"@, ".tar.bz2"@, ".tar.xz"@, ".zip"@]
}

/// `{ref}.patch` split into ref and patch extension.
pub open spec fn split_ref_suffix(s: Seq<char>) -> Option<(Seq<char>, Seq<char>)> {
    split_suffix_among(s, patch_exts())
}

/// `{ref}.tar.gz` split into ref and archive extension.
pub open spec fn split_archive_suffix(s: Seq<char>) -> Option<(Seq<char>, Seq<char>)> {
    split_suffix_among(s, archive_exts())
}

/// `{base}...{head}.patch` split into base, head and extension.
pub open spec fn split_compare_ref(s: Seq<char>) -> Option<(Seq<char>, Seq<char>, Seq<char>)> {
    match split_ref_suffix(s) {
        Some((r, suffix)) => match split_once(r, "..."@) {
            Some((base, head)) => if base.len() > 0 && head.len() > 0 {
                Some((base, head, suffix))
            } else {
                None
            },
            None => None,
        },
        None => None,
    }
}

/// A project path: non-empty and containing a `/`.
pub open spec fn valid_project(project: Seq<char>) -> bool {
    project.len() > 0 && has_char(project, '/')
}

pub open spec fn mk_url(
    platform: SourcePlatform,
    domain: Seq<char>,
    project: Seq<char>,
    repo_name: Option<Seq<char>>,
    ref_type: RefTypeView,
    query: Seq<char>,
) -> SourceUrlView {
    SourceUrlView { platform, domain, project, repo_name, ref_type, query }
}

/// `{project}{marker}{ref}[.ext]` as a commit URL, or `{project}{cmp_marker}
/// {base}...{head}[.ext]` as a compare URL: the first marker present decides.
pub open spec fn parse_commit_compare(
    path: Seq<char>,
    domain: Seq<char>,
    platform: SourcePlatform,
    query: Seq<char>,
    commit_marker: Seq<char>,
    compare_marker: Seq<char>,
) -> Option<SourceUrlView> {
    let ci = find(path, commit_marker);
    let mi = find(path, compare_marker);
    if ci >= 0 {
        let project = path.subrange(0, ci);
        if !valid_project(project) {
            None
        } else {
            match split_ref_suffix(path.subrange(ci + commit_marker.len(), path.len() as int)) {
                Some((sha, suffix)) => Some(mk_url(platform, domain, project, None,
                    RefTypeView::Commit { sha, suffix }, query)),
                None => None,
            }
        }
    } else if mi >= 0 {
        let project = path.subrange(0, mi);
        if !valid_project(project) {
            None
        } else {
            match split_compare_ref(path.subrange(mi + compare_marker.len(), path.len() as int)) {
                Some((base, head, suffix)) => Some(mk_url(platform, domain, project, None,
                    RefTypeView::Compare { base, head, suffix }, query)),
                None => None,
            }
        }
    } else {
        None
    }
}

/// GitHub, Gitea and SourceHut commit/compare URLs.
pub open spec fn parse_simple_commit_compare(
    path: Seq<char>,
    domain: Seq<char>,
    platform: SourcePlatform,
    query: Seq<char>,
) -> Option<SourceUrlView> {
    parse_commit_compare(path, domain, platform, query, "/commit/"@, "/compare/"@)
}

/// GitLab `/-/commit/` and `/-/compare/` URLs.
pub open spec fn parse_gitlab(path: Seq<char>, domain: Seq<char>, query: Seq<char>) -> Option<SourceUrlView> {
    parse_commit_compare(path, domain, SourcePlatform::GitLab, query, "/-/commit/"@, "/-/compare/"@)
}

/// The first four `/`-separated segments of a path, if it has four.
pub open spec fn four_segments(path: Seq<char>) -> Option<(Seq<char>, Seq<char>, Seq<char>, Seq<char>)> {
    match split_once(path, "/"@) {
        Some((s0, r1)) => match split_once(r1, "/"@) {
            Some((s1, r2)) => match split_once(r2, "/"@) {
                Some((s2, r3)) => Some((s0, s1, s2, match split_once(r3, "/"@) {
                    Some((s3, _)) => s3,
                    None => r3,
                })),
                None => None,
            },
            None => None,
        },
        None => None,
    }
}

/// Bitbucket `/{owner}/{repo}/commits/{sha}`.
pub open spec fn parse_bitbucket(path: Seq<char>, domain: Seq<char>, query: Seq<char>) -> Option<SourceUrlView> {
    match four_segments(path) {
        Some((owner, repo, kind, sha)) => if kind == "commits"@ && sha.len() > 0 {
            Some(mk_url(SourcePlatform::Bitbucket, domain, owner + "/"@ + repo, None,
                RefTypeView::Commit { sha, suffix: Seq::<char>::empty() }, query))
        } else {
            None
        },
        None => None,
    }
}

/// `s` without a leading `refs/tags/`.
pub open spec fn strip_tags_prefix(s: Seq<char>) -> Seq<char> {
    match strip_prefix(s, "refs/tags/"@) {
        Some(r) => r,
        None => s,
    }
}

/// `/{project}/archive/[refs/tags/]{ref}.tar.gz` (GitHub, Gitea, SourceHut).
pub open spec fn parse_simple_archive(path: Seq<char>, domain: Seq<char>, platform: SourcePlatform, query: Seq<char>) -> Option<SourceUrlView> {
    let ai = find(path, "/archive/"@);
    if ai >= 0 {
        let project = path.subrange(0, ai);
        if !valid_project(project) {
            None
        } else {
            match split_archive_suffix(strip_tags_prefix(path.subrange(ai + "/archive/"@.len(), path.len() as int))) {
                Some((tag_ref, suffix)) => Some(mk_url(platform, domain, project, None,
                    RefTypeView::Archive { tag_ref, suffix }, query)),
                None => None,
            }
        }
    } else {
        None
    }
}

/// `/{project}{marker}{ref}.tar.gz` with a non-empty project and ref
/// (Gitiles' `/+archive/`, gitweb's `/snapshot/`).
pub open spec fn parse_marker_archive(
    path: Seq<char>,
    domain: Seq<char>,
    marker: Seq<char>,
    platform: SourcePlatform,
    query: Seq<char>,
) -> Option<SourceUrlView> {
    let ai = find(path, marker);
    if ai > 0 {
        match split_archive_suffix(path.subrange(ai + marker.len(), path.len() as int)) {
            Some((tag_ref, suffix)) => if tag_ref.len() > 0 {
                Some(mk_url(platform, domain, path.subrange(0, ai), None, RefTypeView::Archive { tag_ref, suffix }, query))
            } else {
                None
            },
            None => None,
        }
    } else {
        None
    }
}

/// GitLab `/{project}/-/archive/{ref}/{basename}.tar.gz`.
pub open spec fn parse_gitlab_archive(path: Seq<char>, domain: Seq<char>, query: Seq<char>) -> Option<SourceUrlView> {
    let ai = find(path, "/-/archive/"@);
    if ai >= 0 {
        let project = path.subrange(0, ai);
        if !valid_project(project) {
            None
        } else {
            match split_archive_suffix(path.subrange(ai + "/-/archive/"@.len(), path.len() as int)) {
                Some((rest, suffix)) => match split_once(rest, "/"@) {
                    Some((tag_ref, _)) => Some(mk_url(SourcePlatform::GitLab, domain, project,
                        Some(after_last(project, '/')), RefTypeView::Archive { tag_ref, suffix }, query)),
                    None => None,
                },
                None => None,
            }
        }
    } else {
        None
    }
}

/// Bitbucket `/{owner}/{repo}/get/[refs/tags/]{ref}.tar.gz`.
pub open spec fn parse_bitbucket_archive(path: Seq<char>, domain: Seq<char>, query: Seq<char>) -> Option<SourceUrlView> {
    match four_segments(path) {
        Some((owner, repo, kind, _)) => if kind == "get"@ {
            let gi = find(path, "/get/"@);
            match split_archive_suffix(strip_tags_prefix(path.subrange(gi + "/get/"@.len(), path.len() as int))) {
                Some((tag_ref, suffix)) => Some(mk_url(SourcePlatform::Bitbucket, domain,
                    owner + "/"@ + repo, None, RefTypeView::Archive { tag_ref, suffix }, query)),
                None => None,
            }
        } else {
            None
        },
        None => None,
    }
}

/// The scheme-less rest of an `https://` or `http://` URL.
pub open spec fn strip_scheme(url: Seq<char>, allow_http: bool) -> Option<Seq<char>> {
    match strip_prefix(url, "https://"@) {
        Some(r) => Some(r),
        None => if allow_http { strip_prefix(url, "http://"@) } else { None },
    }
}

/// Host and path of a URL rest, with its fragment dropped and its query
/// string (with the leading `?`, or empty) kept apart.
pub open spec fn split_rest(rest: Seq<char>) -> Option<(Seq<char>, Seq<char>, Seq<char>)> {
    let before_fragment = match split_once(rest, "#"@) {
        Some((b, _)) => b,
        None => rest,
    };
    let (host_path, query_str) = match split_once(before_fragment, "?"@) {
        Some((h, q)) => (h, q),
        None => (before_fragment, Seq::<char>::empty()),
    };
    let query = if query_str.len() == 0 { Seq::<char>::empty() } else { "?"@ + query_str };
    match split_once(host_path, "/"@) {
        Some((domain, path)) => Some((domain, path, query)),
        None => None,
    }
}

/// Whether the path contains `marker`.
pub open spec fn contains_marker(path: Seq<char>, marker: Seq<char>) -> bool {
    contains(path, marker)
}

/// Whether the path contains `marker`.
pub fn dispatch_rest_exec(path: &Vec<char>, marker: &str) -> (b: bool)
    ensures
        b == contains_marker(path@, marker@),
{
    contains_exec(path, &chars_of(marker))
}

/// Which parser a domain and path are handed to.
pub open spec fn dispatch(domain: Seq<char>, path: Seq<char>, query: Seq<char>) -> Option<SourceUrlView> {
    if ends_with(domain, ".sr.ht"@) && starts_with(path, "~"@) {
        match parse_simple_archive(path, domain, SourcePlatform::SourceHut, query) {
            Some(u) => Some(u),
            None => parse_simple_commit_compare(path, domain, SourcePlatform::SourceHut, query),
        }
    } else if contains(path, "/-/commit/"@) || contains(path, "/-/compare/"@) || contains(path, "/-/archive/"@) {
        match parse_gitlab_archive(path, domain, query) {
            Some(u) => Some(u),
            None => parse_gitlab(path, domain, query),
        }
    } else if domain == "bitbucket.org"@ {
        match parse_bitbucket_archive(path, domain, query) {
            Some(u) => Some(u),
            None => parse_bitbucket(path, domain, query),
        }
    } else if domain == "github.com"@ {
        match parse_simple_archive(path, domain, SourcePlatform::GitHub, query) {
            Some(u) => Some(u),
            None => parse_simple_commit_compare(path, domain, SourcePlatform::GitHub, query),
        }
    } else {
        match parse_simple_archive(path, domain, SourcePlatform::Gitea, query) {
            Some(u) => Some(u),
            None => match parse_marker_archive(path, domain, "/+archive/"@, SourcePlatform::Gitiles, query) {
                Some(u) => Some(u),
                None => match parse_marker_archive(path, domain, "/snapshot/"@, SourcePlatform::RepoOrCz, query) {
                    Some(u) => Some(u),
                    None => parse_simple_commit_compare(path, domain, SourcePlatform::Gitea, query),
                },
            },
        }
    }
}

/// What [`parse_source_url`] makes of a URL.
pub open spec fn spec_parse_source_url(url: Seq<char>) -> Option<SourceUrlView> {
    match strip_scheme(trim(url), true) {
        Some(rest) => match split_rest(rest) {
            Some((domain, path, query)) => dispatch(domain, path, query),
            None => None,
        },
        None => None,
    }
}

/// The URL [`ParsedSourceUrl::replace_ref`] builds, before the query.
pub open spec fn replace_ref_base(u: SourceUrlView, new_ref: Seq<char>) -> Seq<char> {
    let head = "https://"@ + u.domain + "/"@ + u.project;
    match u.ref_type {
        RefTypeView::Commit { suffix, .. } => match u.platform {
            SourcePlatform::GitLab => head + "/-/commit/"@ + new_ref + suffix,
            SourcePlatform::Bitbucket => head + "/commits/"@ + new_ref + suffix,
            _ => head + "/commit/"@ + new_ref + suffix,
        },
        RefTypeView::Compare { base, suffix, .. } => match u.platform {
            SourcePlatform::GitLab => head + "/-/compare/"@ + base + "..."@ + new_ref + suffix,
            _ => head + "/compare/"@ + base + "..."@ + new_ref + suffix,
        },
        RefTypeView::Archive { suffix, .. } => match u.platform {
            SourcePlatform::GitLab => head + "/-/archive/"@ + new_ref + "/"@ + match u.repo_name {
                Some(r) => r,
                None => after_last(u.project, '/'),
            } + "-"@ + new_ref + suffix,
            SourcePlatform::Bitbucket => head + "/get/"@ + new_ref + suffix,
            SourcePlatform::Gitiles => head + "/+archive/"@ + new_ref + suffix,
            SourcePlatform::RepoOrCz => head + "/snapshot/"@ + new_ref + suffix,
            _ => head + "/archive/"@ + new_ref + suffix,
        },
    }
}

/// The URL of `u` with its ref replaced, query string kept.
pub open spec fn replace_ref_url(u: SourceUrlView, new_ref: Seq<char>) -> Seq<char> {
    replace_ref_base(u, new_ref) + u.query
}

// ---------------------------------------------------------------------------
// Implementation
// ---------------------------------------------------------------------------

impl ParsedSourceUrl {
    /// The HTTPS git remote of the project, for `git ls-remote`.
    pub fn git_remote_url(&self) -> (r: String)
        ensures
            r@ == "https://"@ + self.domain@ + "/"@ + self.project@,
    {
        let mut r = String::from_str("https://");
        r.append(self.domain.as_str());
        r.append("/");
        r.append(self.project.as_str());
        r
    }

    /// The ref the URL names: the commit, the compare head or the archived ref.
    pub fn current_ref(&self) -> (r: &str)
        ensures
            r@ == current_ref_of(self.ref_type@),
    {
        match &self.ref_type {
            SourceRefType::Commit { sha, .. } => sha.as_str(),
            SourceRefType::Compare { head, .. } => head.as_str(),
            SourceRefType::Archive { tag_ref, .. } => tag_ref.as_str(),
        }
    }

    /// Whether the current ref looks like a version.
    pub fn is_version_ref(&self) -> (b: bool)
        ensures
            b == is_version(current_ref_of(self.ref_type@)),
    {
        VersionDetector::is_version(self.current_ref())
    }

    /// The URL with its ref replaced by `new_ref`, query string kept.
    pub fn replace_ref(&self, new_ref: &str) -> (r: String)
        ensures
            r@ == replace_ref_url(self@, new_ref@),
    {
        let mut r = self.replace_ref_base(new_ref);
        r.append(self.query.as_str());
        r
    }

    pub fn replace_ref_base(&self, new_ref: &str) -> (r: String)
        ensures
            r@ == replace_ref_base(self@, new_ref@),
    {
        let mut r = String::from_str("https://");
        r.append(self.domain.as_str());
        r.append("/");
        r.append(self.project.as_str());
        match &self.ref_type {
            SourceRefType::Commit { suffix, .. } => {
                match self.platform {
                    SourcePlatform::GitLab => r.append("/-/commit/"),
                    SourcePlatform::Bitbucket => r.append("/commits/"),
                    _ => r.append("/commit/"),
                }
                r.append(new_ref);
                r.append(suffix.as_str());
            },
            SourceRefType::Compare { base, suffix, .. } => {
                match self.platform {
                    SourcePlatform::GitLab => r.append("/-/compare/"),
                    _ => r.append("/compare/"),
                }
                r.append(base.as_str());
                r.append("...");
                r.append(new_ref);
                r.append(suffix.as_str());
            },
            SourceRefType::Archive { suffix, .. } => {
                match self.platform {
                    SourcePlatform::GitLab => {
                        r.append("/-/archive/");
                        r.append(new_ref);
                        r.append("/");
                        match &self.repo_name {
                            Some(name) => r.append(name.as_str()),
                            None => {
                                let pv = chars_of(self.project.as_str());
                                let last = after_last_exec(&pv, '/');
                                append_chars(&mut r, &last);
                            },
                        }
                        r.append("-");
                        r.append(new_ref);
                    },
                    SourcePlatform::Bitbucket => {
                        r.append("/get/");
                        r.append(new_ref);
                    },
                    SourcePlatform::Gitiles => {
                        r.append("/+archive/");
                        r.append(new_ref);
                    },
                    SourcePlatform::RepoOrCz => {
                        r.append("/snapshot/");
                        r.append(new_ref);
                    },
                    _ => {
                        r.append("/archive/");
                        r.append(new_ref);
                    },
                }
                r.append(suffix.as_str());
            },
        }
        r
    }
}

fn split_suffix_among_exec(s: &Vec<char>, exts: &Vec<Vec<char>>, k: usize) -> (r: Option<(Vec<char>, Vec<char>)>)
    requires
        k <= exts.len(),
    ensures
        match r {
            Some((a, b)) => split_suffix_among(s@, exts@.map_values(|e: Vec<char>| e@).skip(k as int)) == Some((a@, b@)),
            None => split_suffix_among(s@, exts@.map_values(|e: Vec<char>| e@).skip(k as int)) is None,
        },
    decreases exts.len() - k,
{
    let ghost es = exts@.map_values(|e: Vec<char>| e@).skip(k as int);
    if s.len() == 0 {
        return None;
    }
    if k == exts.len() {
        assert(es.len() == 0);
        if has_char_exec(s, '.') {
            return None;
        }
        return Some((copy_vec(s), Vec::new()));
    }
    assert(es[0] == exts@[k as int]@);
    assert(es.drop_first() == exts@.map_values(|e: Vec<char>| e@).skip(k + 1));
    match strip_suffix_exec(s, &exts[k]) {
        Some(base) => {
            if base.len() > 0 {
                let e = slice_vec(&exts[k], 0, exts[k].len());
                return Some((base, e));
            }
        },
        None => {},
    }
    split_suffix_among_exec(s, exts, k + 1)
}

pub fn split_ref_suffix_exec(s: &Vec<char>) -> (r: Option<(Vec<char>, Vec<char>)>)
    ensures
        match r {
            Some((a, b)) => split_ref_suffix(s@) == Some((a@, b@)),
            None => split_ref_suffix(s@) is None,
        },
{
    let exts = vec![chars_of(".patch"), chars_of(".diff"), chars_of(".mbox")];
    assert(exts@.map_values(|e: Vec<char>| e@).skip(0) == patch_exts());
    split_suffix_among_exec(s, &exts, 0)
}

pub fn split_archive_suffix_exec(s: &Vec<char>) -> (r: Option<(Vec<char>, Vec<char>)>)
    ensures
        match r {
            Some((a, b)) => split_archive_suffix(s@) == Some((a@, b@)),
            None => split_archive_suffix(s@) is None,
        },
{
    let exts = vec![chars_of(".tar.gz"), chars_of(".tar.bz2"), chars_of(".tar.xz"), chars_of(".zip")];
    assert(exts@.map_values(|e: Vec<char>| e@).skip(0) == archive_exts());
    split_suffix_among_exec(s, &exts, 0)
}

pub fn split_compare_ref_exec(s: &Vec<char>) -> (r: Option<(Vec<char>, Vec<char>, Vec<char>)>)
    ensures
        match r {
            Some((a, b, c)) => split_compare_ref(s@) == Some((a@, b@, c@)),
            None => split_compare_ref(s@) is None,
        },
{
    match split_ref_suffix_exec(s) {
        Some((r, suffix)) => {
            let dots = chars_of("...");
            match split_once_exec(&r, &dots) {
                Some((base, head)) => {
                    if base.len() > 0 && head.len() > 0 {
                        Some((base, head, suffix))
                    } else {
                        None
                    }
                },
                None => None,
            }
        },
        None => None,
    }
}

fn valid_project_exec(project: &Vec<char>) -> (b: bool)
    ensures
        b == valid_project(project@),
{
    project.len() > 0 && has_char_exec(project, '/')
}

fn build(
    platform: SourcePlatform,
    domain: &Vec<char>,
    project: &Vec<char>,
    repo_name: Option<String>,
    ref_type: SourceRefType,
    query: &Vec<char>,
) -> (r: ParsedSourceUrl)
    ensures
        r@ == mk_url(platform, domain@, project@, opt_string_view(repo_name), ref_type@, query@),
{
    ParsedSourceUrl {
        platform,
        domain: to_string(domain),
        project: to_string(project),
        repo_name,
        ref_type,
        query: to_string(query),
    }
}

fn parse_commit_compare_exec(
    path: &Vec<char>,
    domain: &Vec<char>,
    platform: SourcePlatform,
    query: &Vec<char>,
    commit_marker: &Vec<char>,
    compare_marker: &Vec<char>,
) -> (r: Option<ParsedSourceUrl>)
    ensures
        opt_url_view(r) == parse_commit_compare(path@, domain@, platform, query@, commit_marker@, compare_marker@),
{
    match find_exec(path, commit_marker) {
        Some(ci) => {
            proof { lemma_find_from(path@, commit_marker@, 0); }
            let n = path.len();
            assert(ci + commit_marker@.len() <= n);
            let project = slice_vec(path, 0, ci);
            if !valid_project_exec(&project) {
                return None;
            }
            let rest = slice_vec(path, ci + commit_marker.len(), path.len());
            match split_ref_suffix_exec(&rest) {
                Some((sha, suffix)) => Some(build(platform, domain, &project, None,
                    SourceRefType::Commit { sha: to_string(&sha), suffix: to_string(&suffix) }, query)),
                None => None,
            }
        },
        None => match find_exec(path, compare_marker) {
            Some(mi) => {
                proof { lemma_find_from(path@, compare_marker@, 0); }
                let n = path.len();
                assert(mi + compare_marker@.len() <= n);
                let project = slice_vec(path, 0, mi);
                if !valid_project_exec(&project) {
                    return None;
                }
                let rest = slice_vec(path, mi + compare_marker.len(), path.len());
                match split_compare_ref_exec(&rest) {
                    Some((base, head, suffix)) => Some(build(platform, domain, &project, None,
                        SourceRefType::Compare {
                            base: to_string(&base),
                            head: to_string(&head),
                            suffix: to_string(&suffix),
                        }, query)),
                    None => None,
                }
            },
            None => None,
        },
    }
}

pub(crate) fn parse_simple_commit_compare_exec(path: &Vec<char>, domain: &Vec<char>, platform: SourcePlatform, query: &Vec<char>) -> (r: Option<ParsedSourceUrl>)
    ensures
        opt_url_view(r) == parse_simple_commit_compare(path@, domain@, platform, query@),
{
    parse_commit_compare_exec(path, domain, platform, query, &chars_of("/commit/"), &chars_of("/compare/"))
}

pub(crate) fn parse_gitlab_exec(path: &Vec<char>, domain: &Vec<char>, query: &Vec<char>) -> (r: Option<ParsedSourceUrl>)
    ensures
        opt_url_view(r) == parse_gitlab(path@, domain@, query@),
{
    parse_commit_compare_exec(path, domain, SourcePlatform::GitLab, query, &chars_of("/-/commit/"), &chars_of("/-/compare/"))
}

pub fn four_segments_exec(path: &Vec<char>) -> (r: Option<(Vec<char>, Vec<char>, Vec<char>, Vec<char>)>)
    ensures
        match r {
            Some((a, b, c, d)) => four_segments(path@) == Some((a@, b@, c@, d@)),
            None => four_segments(path@) is None,
        },
{
    let slash = chars_of("/");
    match split_once_exec(path, &slash) {
        Some((s0, r1)) => match split_once_exec(&r1, &slash) {
            Some((s1, r2)) => match split_once_exec(&r2, &slash) {
                Some((s2, r3)) => {
                    let s3 = match split_once_exec(&r3, &slash) {
                        Some((s3, _)) => s3,
                        None => r3,
                    };
                    Some((s0, s1, s2, s3))
                },
                None => None,
            },
            None => None,
        },
        None => None,
    }
}

fn join_owner_repo(owner: &Vec<char>, repo: &Vec<char>) -> (r: Vec<char>)
    ensures
        r@ == owner@ + "/"@ + repo@,
{
    let mut r = copy_vec(owner);
    r.push('/');
    r.append(&mut copy_vec(repo));
    assert("/"@ == seq!['/']) by { reveal_strlit("/"); }
    r
}

pub(crate) fn parse_bitbucket_exec(path: &Vec<char>, domain: &Vec<char>, query: &Vec<char>) -> (r: Option<ParsedSourceUrl>)
    ensures
        opt_url_view(r) == parse_bitbucket(path@, domain@, query@),
{
    match four_segments_exec(path) {
        Some((owner, repo, kind, sha)) => {
            if eq_str(&kind, "commits") && sha.len() > 0 {
                let project = join_owner_repo(&owner, &repo);
                Some(build(SourcePlatform::Bitbucket, domain, &project, None,
                    SourceRefType::Commit { sha: to_string(&sha), suffix: String::new() }, query))
            } else {
                None
            }
        },
        None => None,
    }
}

fn strip_tags_prefix_exec(s: &Vec<char>) -> (r: Vec<char>)
    ensures
        r@ == strip_tags_prefix(s@),
{
    match strip_prefix_exec(s, &chars_of("refs/tags/")) {
        Some(r) => r,
        None => copy_vec(s),
    }
}

fn parse_simple_archive_exec(path: &Vec<char>, domain: &Vec<char>, platform: SourcePlatform, query: &Vec<char>) -> (r: Option<ParsedSourceUrl>)
    ensures
        opt_url_view(r) == parse_simple_archive(path@, domain@, platform, query@),
{
    let marker = chars_of("/archive/");
    match find_exec(path, &marker) {
        Some(ai) => {
            proof { lemma_find_from(path@, marker@, 0); }
            let n = path.len();
            assert(ai + marker@.len() <= n);
            let project = slice_vec(path, 0, ai);
            if !valid_project_exec(&project) {
                return None;
            }
            let rest = strip_tags_prefix_exec(&slice_vec(path, ai + marker.len(), path.len()));
            match split_archive_suffix_exec(&rest) {
                Some((tag_ref, suffix)) => Some(build(platform, domain, &project, None,
                    SourceRefType::Archive { tag_ref: to_string(&tag_ref), suffix: to_string(&suffix) }, query)),
                None => None,
            }
        },
        None => None,
    }
}

fn parse_marker_archive_exec(
    path: &Vec<char>,
    domain: &Vec<char>,
    marker: &str,
    platform: SourcePlatform,
    query: &Vec<char>,
) -> (r: Option<ParsedSourceUrl>)
    ensures
        opt_url_view(r) == parse_marker_archive(path@, domain@, marker@, platform, query@),
{
    let m = chars_of(marker);
    match find_exec(path, &m) {
        Some(ai) => {
            proof { lemma_find_from(path@, m@, 0); }
            let n = path.len();
            assert(ai + m@.len() <= n);
            let rest = slice_vec(path, ai + m.len(), path.len());
            if ai == 0 {
                return None;
            }
            match split_archive_suffix_exec(&rest) {
                Some((tag_ref, suffix)) => if tag_ref.len() > 0 {
                    let project = slice_vec(path, 0, ai);
                    Some(build(platform, domain, &project, None,
                        SourceRefType::Archive { tag_ref: to_string(&tag_ref), suffix: to_string(&suffix) }, query))
                } else {
                    None
                },
                None => None,
            }
        },
        None => None,
    }
}

fn parse_gitlab_archive_exec(path: &Vec<char>, domain: &Vec<char>, query: &Vec<char>) -> (r: Option<ParsedSourceUrl>)
    ensures
        opt_url_view(r) == parse_gitlab_archive(path@, domain@, query@),
{
    let marker = chars_of("/-/archive/");
    match find_exec(path, &marker) {
        Some(ai) => {
            proof { lemma_find_from(path@, marker@, 0); }
            let n = path.len();
            assert(ai + marker@.len() <= n);
            let project = slice_vec(path, 0, ai);
            if !valid_project_exec(&project) {
                return None;
            }
            let after = slice_vec(path, ai + marker.len(), path.len());
            match split_archive_suffix_exec(&after) {
                Some((rest, suffix)) => match split_once_exec(&rest, &chars_of("/")) {
                    Some((tag_ref, _)) => {
                        let name = after_last_exec(&project, '/');
                        Some(build(SourcePlatform::GitLab, domain, &project, Some(to_string(&name)),
                            SourceRefType::Archive { tag_ref: to_string(&tag_ref), suffix: to_string(&suffix) }, query))
                    },
                    None => None,
                },
                None => None,
            }
        },
        None => None,
    }
}

fn parse_bitbucket_archive_exec(path: &Vec<char>, domain: &Vec<char>, query: &Vec<char>) -> (r: Option<ParsedSourceUrl>)
    ensures
        opt_url_view(r) == parse_bitbucket_archive(path@, domain@, query@),
{
    match four_segments_exec(path) {
        Some((owner, repo, kind, _)) => {
            if !eq_str(&kind, "get") {
                return None;
            }
            let marker = chars_of("/get/");
            let gi = match find_exec(path, &marker) {
                Some(gi) => gi,
                None => {
                    proof { bitbucket_get_marker(path@); }
                    return None;
                },
            };
            proof { lemma_find_from(path@, marker@, 0); }
            let n = path.len();
            assert(gi + marker@.len() <= n);
            let rest = strip_tags_prefix_exec(&slice_vec(path, gi + marker.len(), path.len()));
            match split_archive_suffix_exec(&rest) {
                Some((tag_ref, suffix)) => {
                    let project = join_owner_repo(&owner, &repo);
                    Some(build(SourcePlatform::Bitbucket, domain, &project, None,
                        SourceRefType::Archive { tag_ref: to_string(&tag_ref), suffix: to_string(&suffix) }, query))
                },
                None => None,
            }
        },
        None => None,
    }
}

/// A path whose third segment is `get` contains `/get/`.
proof fn bitbucket_get_marker(path: Seq<char>)
    requires
        four_segments(path) matches Some((_, _, kind, _)) && kind == "get"@,
    ensures
        find(path, "/get/"@) >= 0,
{
    reveal_strlit("/");
    reveal_strlit("get");
    reveal_strlit("/get/");
    let (s0, r1) = split_once(path, "/"@).unwrap();
    let (s1, r2) = split_once(r1, "/"@).unwrap();
    let (s2, r3) = split_once(r2, "/"@).unwrap();
    let i0 = find(path, "/"@);
    let i1 = find(r1, "/"@);
    let i2 = find(r2, "/"@);
    lemma_find_from(path, "/"@, 0);
    lemma_find_from(r1, "/"@, 0);
    lemma_find_from(r2, "/"@, 0);
    let j = i0 + 1 + i1;
    assert(path.subrange(j, j + 5) == "/get/"@) by {
        assert(r1 == path.subrange(i0 + 1, path.len() as int));
        assert(r2 == r1.subrange(i1 + 1, r1.len() as int));
        assert(s2 == r2.subrange(0, i2));
        assert(occurs_at(r1, "/"@, i1));
        assert(occurs_at(r2, "/"@, i2));
        assert(r1.subrange(i1, i1 + 1) == "/"@);
        assert(r1[i1] == r1.subrange(i1, i1 + 1)[0]);
        assert(r2.subrange(i2, i2 + 1)[0] == '/');
        assert(s2 == "get"@);
        assert("get"@.len() == 3);
        assert(i2 >= 0);
        assert(s2.len() == i2);
        assert(i2 == 3);
        assert("get"@[0] == 'g' && "get"@[1] == 'e' && "get"@[2] == 't');
        assert(r2[0] == s2[0] && r2[1] == s2[1] && r2[2] == s2[2]);
        assert(r2[3] == r2.subrange(i2, i2 + 1)[0]);
        assert(r2[0] == 'g' && r2[1] == 'e' && r2[2] == 't' && r2[3] == '/');
        assert(path[j] == r1[i1]);
        assert(path[j] == '/');
        assert(path[j + 1] == 'g');
        assert(path[j + 2] == 'e');
        assert(path[j + 3] == 't');
        assert(path[j + 4] == '/');
    }
    assert(occurs_at(path, "/get/"@, j));
    lemma_find_from(path, "/get/"@, 0);
}

fn dispatch_exec(domain: &Vec<char>, path: &Vec<char>, query: &Vec<char>) -> (r: Option<ParsedSourceUrl>)
    ensures
        opt_url_view(r) == dispatch(domain@, path@, query@),
{
    if ends_with_exec(domain, &chars_of(".sr.ht")) && starts_with_exec(path, &chars_of("~")) {
        match parse_simple_archive_exec(path, domain, SourcePlatform::SourceHut, query) {
            Some(u) => Some(u),
            None => parse_simple_commit_compare_exec(path, domain, SourcePlatform::SourceHut, query),
        }
    } else if contains_exec(path, &chars_of("/-/commit/")) || contains_exec(path, &chars_of("/-/compare/"))
        || contains_exec(path, &chars_of("/-/archive/")) {
        match parse_gitlab_archive_exec(path, domain, query) {
            Some(u) => Some(u),
            None => parse_gitlab_exec(path, domain, query),
        }
    } else if eq_str(domain, "bitbucket.org") {
        match parse_bitbucket_archive_exec(path, domain, query) {
            Some(u) => Some(u),
            None => parse_bitbucket_exec(path, domain, query),
        }
    } else if eq_str(domain, "github.com") {
        match parse_simple_archive_exec(path, domain, SourcePlatform::GitHub, query) {
            Some(u) => Some(u),
            None => parse_simple_commit_compare_exec(path, domain, SourcePlatform::GitHub, query),
        }
    } else {
        match parse_simple_archive_exec(path, domain, SourcePlatform::Gitea, query) {
            Some(u) => Some(u),
            None => match parse_marker_archive_exec(path, domain, "/+archive/", SourcePlatform::Gitiles, query) {
                Some(u) => Some(u),
                None => match parse_marker_archive_exec(path, domain, "/snapshot/", SourcePlatform::RepoOrCz, query) {
                    Some(u) => Some(u),
                    None => parse_simple_commit_compare_exec(path, domain, SourcePlatform::Gitea, query),
                },
            },
        }
    }
}

/// Scheme-less rest of an `https://` (or, when allowed, `http://`) URL.
pub fn strip_scheme_exec(url: &Vec<char>, allow_http: bool) -> (r: Option<Vec<char>>)
    ensures
        match r {
            Some(a) => strip_scheme(url@, allow_http) == Some(a@),
            None => strip_scheme(url@, allow_http) is None,
        },
{
    match strip_prefix_exec(url, &chars_of("https://")) {
        Some(r) => Some(r),
        None => if allow_http {
            strip_prefix_exec(url, &chars_of("http://"))
        } else {
            None
        },
    }
}

/// Domain, path and query string of a scheme-less URL rest.
pub fn split_rest_exec(rest: &Vec<char>) -> (r: Option<(Vec<char>, Vec<char>, Vec<char>)>)
    ensures
        match r {
            Some((d, p, q)) => split_rest(rest@) == Some((d@, p@, q@)),
            None => split_rest(rest@) is None,
        },
{
    let before_fragment = match split_once_exec(rest, &chars_of("#")) {
        Some((b, _)) => b,
        None => copy_vec(rest),
    };
    let (host_path, query_str) = match split_once_exec(&before_fragment, &chars_of("?")) {
        Some((h, q)) => (h, q),
        None => (copy_vec(&before_fragment), Vec::new()),
    };
    let query = if query_str.len() == 0 {
        Vec::new()
    } else {
        let mut q = chars_of("?");
        let mut tail = copy_vec(&query_str);
        q.append(&mut tail);
        q
    };
    match split_once_exec(&host_path, &chars_of("/")) {
        Some((domain, path)) => Some((domain, path, query)),
        None => None,
    }
}

/// Parses a source URL of a recognised platform: patch (commit or compare)
/// URLs and archive URLs, see the module documentation. `None` for anything
/// else.
pub fn parse_source_url(url: &str) -> (r: Option<ParsedSourceUrl>)
    ensures
        opt_url_view(r) == spec_parse_source_url(url@),
{
    let t = trim_exec(&chars_of(url));
    match strip_scheme_exec(&t, true) {
        Some(rest) => match split_rest_exec(&rest) {
            Some((domain, path, query)) => dispatch_exec(&domain, &path, &query),
            None => None,
        },
        None => None,
    }
}

/// The same as [`parse_source_url`].
pub fn parse_patch_url(url: &str) -> (r: Option<ParsedSourceUrl>)
    ensures
        opt_url_view(r) == spec_parse_source_url(url@),
{
    parse_source_url(url)
}

} // verus!
