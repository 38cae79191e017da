//! The forge implementations.
use vstd::prelude::*;

use crate::forge::{
    common_git_attr_list, compose_attr_spec, ensure_tilde, get_or, lookup_or, push_attr, strip_url_scheme,
    tag_or_rev, tag_or_rev_of, tilde_owner, without_scheme, attrs_view, FlakeForge, Forge,
};
use crate::parser::{AttrSpec, AttrType, ParsedAttrs};

verus! {

/// The `fetchFromGitHub` fetcher.
pub struct GitHub;

pub open spec fn github_git_url(s: Map<Seq<char>, Seq<char>>) -> Option<Seq<char>> {
    if s.contains_key("owner"@) && s.contains_key("repo"@) { Some("https://"@ + lookup_or(s, "githubBase"@, "github.com"@) + "/"@ + s["owner"@] + "/"@ + s["repo"@]) } else { None }
}

pub open spec fn github_display(s: Map<Seq<char>, Seq<char>>) -> Option<Seq<char>> {
    if s.contains_key("owner"@) && s.contains_key("repo"@) { Some("github.com/"@ + s["owner"@] + "/"@ + s["repo"@]) } else { None }
}
pub open spec fn github_archive(s: Map<Seq<char>, Seq<char>>, rev: Seq<char>) -> Result<Seq<char>, Seq<char>> {
    if !s.contains_key("owner"@) { Err("missing 'owner' parameter for fetchFromGitHub"@) } else { if !s.contains_key("repo"@) { Err("missing 'repo' parameter for fetchFromGitHub"@) } else { Ok("https://"@ + lookup_or(s, "githubBase"@, "github.com"@) + "/"@ + s["owner"@] + "/"@ + s["repo"@] + "/archive/"@ + rev + ".tar.gz"@) } }
}

pub open spec fn github_attrs() -> Seq<(Seq<char>, AttrType)> {
    common_git_attr_list() + seq![("owner"@, AttrType::String), ("repo"@, AttrType::String), ("githubBase"@, AttrType::String)]
}
impl Forge for GitHub {
    fn id(&self) -> (r: &'static str)
        ensures
            r@ == "github"@,
    {
        "github"
    }

    fn nixpkgs_fn_name(&self) -> (r: &'static str)
        ensures
            r@ == "fetchFromGitHub"@,
    {
        "fetchFromGitHub"
    }

    fn git_url(&self, parsed: &ParsedAttrs) -> (r: Option<String>)
        ensures
            match r {
                Some(u) => github_git_url(parsed.strings@) == Some(u@),
                None => github_git_url(parsed.strings@) is None,
            },
    {
        let v_owner = match parsed.strings.get("owner") { Some(v) => v, None => return None };
        let v_repo = match parsed.strings.get("repo") { Some(v) => v, None => return None };
        let mut r = String::new();
        r.append("https://");
        r.append(get_or(parsed, "githubBase", "github.com").as_str());
        r.append("/");
        r.append(v_owner.as_str());
        r.append("/");
        r.append(v_repo.as_str());
        Some(r)
    }

    fn display_target(&self, parsed: &ParsedAttrs) -> (r: Option<String>)
        ensures
            match r {
                Some(u) => github_display(parsed.strings@) == Some(u@),
                None => github_display(parsed.strings@) is None,
            },
    {
        let v_owner = match parsed.strings.get("owner") { Some(v) => v, None => return None };
        let v_repo = match parsed.strings.get("repo") { Some(v) => v, None => return None };
        let mut r = String::new();
        r.append("github.com/");
        r.append(v_owner.as_str());
        r.append("/");
        r.append(v_repo.as_str());
        Some(r)
    }

    fn archive_url(&self, parsed: &ParsedAttrs, rev: &str) -> (r: Result<String, String>)
        ensures
            match r {
                Ok(u) => github_archive(parsed.strings@, rev@) == Ok::<Seq<char>, Seq<char>>(u@),
                Err(e) => github_archive(parsed.strings@, rev@) == Err::<Seq<char>, Seq<char>>(e@),
            },
    {
        let v_owner = match parsed.strings.get("owner") { Some(v) => v, None => return Err(String::from_str("missing 'owner' parameter for fetchFromGitHub")) };
        let v_repo = match parsed.strings.get("repo") { Some(v) => v, None => return Err(String::from_str("missing 'repo' parameter for fetchFromGitHub")) };
        let mut r = String::new();
        r.append("https://");
        r.append(get_or(parsed, "githubBase", "github.com").as_str());
        r.append("/");
        r.append(v_owner.as_str());
        r.append("/");
        r.append(v_repo.as_str());
        r.append("/archive/");
        r.append(rev);
        r.append(".tar.gz");
        Ok(r)
    }

    fn attr_spec(&self) -> (r: Vec<AttrSpec>)
        ensures
            attrs_view(r@) == github_attrs(),
    {
        let mut extra: Vec<AttrSpec> = Vec::new();
        push_attr(&mut extra, "owner", AttrType::String);
        push_attr(&mut extra, "repo", AttrType::String);
        push_attr(&mut extra, "githubBase", AttrType::String);
        compose_attr_spec(extra.as_slice())
    }
}

pub open spec fn github_flake_remote(owner: Seq<char>, repo: Seq<char>) -> Seq<char> {
    "https://github.com/"@ + owner + "/"@ + repo
}

pub open spec fn github_flake_display(owner: Seq<char>, repo: Seq<char>) -> Seq<char> {
    "github.com/"@ + owner + "/"@ + repo
}

impl FlakeForge for GitHub {
    fn flake_scheme(&self) -> (r: &'static str)
        ensures
            r@ == "github"@,
    {
        "github"
    }

    fn remote_url_for_flake(&self, owner: &str, repo: &str) -> (r: String)
        ensures
            r@ == github_flake_remote(owner@, repo@),
    {
        let mut r = String::new();
        r.append("https://github.com/");
        r.append(owner);
        r.append("/");
        r.append(repo);
        r
    }

    fn display_for_flake(&self, owner: &str, repo: &str) -> (r: String)
        ensures
            r@ == github_flake_display(owner@, repo@),
    {
        let mut r = String::new();
        r.append("github.com/");
        r.append(owner);
        r.append("/");
        r.append(repo);
        r
    }
}

/// The `fetchFromGitLab` fetcher.
pub struct GitLab;

pub open spec fn gitlab_git_url(s: Map<Seq<char>, Seq<char>>) -> Option<Seq<char>> {
    if s.contains_key("owner"@) && s.contains_key("repo"@) { Some("https://"@ + lookup_or(s, "domain"@, "gitlab.com"@) + "/"@ + s["owner"@] + "/"@ + s["repo"@]) } else { None }
}

pub open spec fn gitlab_display(s: Map<Seq<char>, Seq<char>>) -> Option<Seq<char>> {
    if s.contains_key("owner"@) && s.contains_key("repo"@) { Some(lookup_or(s, "domain"@, "gitlab.com"@) + "/"@ + s["owner"@] + "/"@ + s["repo"@]) } else { None }
}
pub open spec fn gitlab_archive(s: Map<Seq<char>, Seq<char>>, rev: Seq<char>) -> Result<Seq<char>, Seq<char>> {
    if !s.contains_key("owner"@) { Err("missing 'owner' parameter for fetchFromGitLab"@) } else { if !s.contains_key("repo"@) { Err("missing 'repo' parameter for fetchFromGitLab"@) } else { Ok("https://"@ + lookup_or(s, "domain"@, "gitlab.com"@) + "/"@ + s["owner"@] + "/"@ + s["repo"@] + "/-/archive/"@ + rev + "/"@ + s["repo"@] + "-"@ + rev + ".tar.gz"@) } }
}

pub open spec fn gitlab_attrs() -> Seq<(Seq<char>, AttrType)> {
    common_git_attr_list() + seq![("owner"@, AttrType::String), ("repo"@, AttrType::String), ("domain"@, AttrType::String)]
}
impl Forge for GitLab {
    fn id(&self) -> (r: &'static str)
        ensures
            r@ == "gitlab"@,
    {
        "gitlab"
    }

    fn nixpkgs_fn_name(&self) -> (r: &'static str)
        ensures
            r@ == "fetchFromGitLab"@,
    {
        "fetchFromGitLab"
    }

    fn git_url(&self, parsed: &ParsedAttrs) -> (r: Option<String>)
        ensures
            match r {
                Some(u) => gitlab_git_url(parsed.strings@) == Some(u@),
                None => gitlab_git_url(parsed.strings@) is None,
            },
    {
        let v_owner = match parsed.strings.get("owner") { Some(v) => v, None => return None };
        let v_repo = match parsed.strings.get("repo") { Some(v) => v, None => return None };
        let mut r = String::new();
        r.append("https://");
        r.append(get_or(parsed, "domain", "gitlab.com").as_str());
        r.append("/");
        r.append(v_owner.as_str());
        r.append("/");
        r.append(v_repo.as_str());
        Some(r)
    }

    fn display_target(&self, parsed: &ParsedAttrs) -> (r: Option<String>)
        ensures
            match r {
                Some(u) => gitlab_display(parsed.strings@) == Some(u@),
                None => gitlab_display(parsed.strings@) is None,
            },
    {
        let v_owner = match parsed.strings.get("owner") { Some(v) => v, None => return None };
        let v_repo = match parsed.strings.get("repo") { Some(v) => v, None => return None };
        let mut r = String::new();
        r.append(get_or(parsed, "domain", "gitlab.com").as_str());
        r.append("/");
        r.append(v_owner.as_str());
        r.append("/");
        r.append(v_repo.as_str());
        Some(r)
    }

    fn archive_url(&self, parsed: &ParsedAttrs, rev: &str) -> (r: Result<String, String>)
        ensures
            match r {
                Ok(u) => gitlab_archive(parsed.strings@, rev@) == Ok::<Seq<char>, Seq<char>>(u@),
                Err(e) => gitlab_archive(parsed.strings@, rev@) == Err::<Seq<char>, Seq<char>>(e@),
            },
    {
        let v_owner = match parsed.strings.get("owner") { Some(v) => v, None => return Err(String::from_str("missing 'owner' parameter for fetchFromGitLab")) };
        let v_repo = match parsed.strings.get("repo") { Some(v) => v, None => return Err(String::from_str("missing 'repo' parameter for fetchFromGitLab")) };
        let mut r = String::new();
        r.append("https://");
        r.append(get_or(parsed, "domain", "gitlab.com").as_str());
        r.append("/");
        r.append(v_owner.as_str());
        r.append("/");
        r.append(v_repo.as_str());
        r.append("/-/archive/");
        r.append(rev);
        r.append("/");
        r.append(v_repo.as_str());
        r.append("-");
        r.append(rev);
        r.append(".tar.gz");
        Ok(r)
    }

    fn attr_spec(&self) -> (r: Vec<AttrSpec>)
        ensures
            attrs_view(r@) == gitlab_attrs(),
    {
        let mut extra: Vec<AttrSpec> = Vec::new();
        push_attr(&mut extra, "owner", AttrType::String);
        push_attr(&mut extra, "repo", AttrType::String);
        push_attr(&mut extra, "domain", AttrType::String);
        compose_attr_spec(extra.as_slice())
    }
}

pub open spec fn gitlab_flake_remote(owner: Seq<char>, repo: Seq<char>) -> Seq<char> {
    "https://gitlab.com/"@ + owner + "/"@ + repo
}

pub open spec fn gitlab_flake_display(owner: Seq<char>, repo: Seq<char>) -> Seq<char> {
    "gitlab.com/"@ + owner + "/"@ + repo
}

impl FlakeForge for GitLab {
    fn flake_scheme(&self) -> (r: &'static str)
        ensures
            r@ == "gitlab"@,
    {
        "gitlab"
    }

    fn remote_url_for_flake(&self, owner: &str, repo: &str) -> (r: String)
        ensures
            r@ == gitlab_flake_remote(owner@, repo@),
    {
        let mut r = String::new();
        r.append("https://gitlab.com/");
        r.append(owner);
        r.append("/");
        r.append(repo);
        r
    }

    fn display_for_flake(&self, owner: &str, repo: &str) -> (r: String)
        ensures
            r@ == gitlab_flake_display(owner@, repo@),
    {
        let mut r = String::new();
        r.append("gitlab.com/");
        r.append(owner);
        r.append("/");
        r.append(repo);
        r
    }
}

/// The `fetchFromGitea` fetcher.
pub struct Gitea;

pub open spec fn gitea_git_url(s: Map<Seq<char>, Seq<char>>) -> Option<Seq<char>> {
    if s.contains_key("domain"@) && s.contains_key("owner"@) && s.contains_key("repo"@) { Some("https://"@ + s["domain"@] + "/"@ + s["owner"@] + "/"@ + s["repo"@]) } else { None }
}

pub open spec fn gitea_display(s: Map<Seq<char>, Seq<char>>) -> Option<Seq<char>> {
    if s.contains_key("domain"@) && s.contains_key("owner"@) && s.contains_key("repo"@) { Some(s["domain"@] + "/"@ + s["owner"@] + "/"@ + s["repo"@]) } else { None }
}
pub open spec fn gitea_archive(s: Map<Seq<char>, Seq<char>>, rev: Seq<char>) -> Result<Seq<char>, Seq<char>> {
    if !s.contains_key("domain"@) { Err("missing 'domain' parameter for fetchFromGitea"@) } else { if !s.contains_key("owner"@) { Err("missing 'owner' parameter for fetchFromGitea"@) } else { if !s.contains_key("repo"@) { Err("missing 'repo' parameter for fetchFromGitea"@) } else { Ok("https://"@ + s["domain"@] + "/"@ + s["owner"@] + "/"@ + s["repo"@] + "/archive/"@ + rev + ".tar.gz"@) } } }
}

pub open spec fn gitea_attrs() -> Seq<(Seq<char>, AttrType)> {
    common_git_attr_list() + seq![("owner"@, AttrType::String), ("repo"@, AttrType::String), ("domain"@, AttrType::String)]
}
impl Forge for Gitea {
    fn id(&self) -> (r: &'static str)
        ensures
            r@ == "gitea"@,
    {
        "gitea"
    }

    fn nixpkgs_fn_name(&self) -> (r: &'static str)
        ensures
            r@ == "fetchFromGitea"@,
    {
        "fetchFromGitea"
    }

    fn git_url(&self, parsed: &ParsedAttrs) -> (r: Option<String>)
        ensures
            match r {
                Some(u) => gitea_git_url(parsed.strings@) == Some(u@),
                None => gitea_git_url(parsed.strings@) is None,
            },
    {
        let v_domain = match parsed.strings.get("domain") { Some(v) => v, None => return None };
        let v_owner = match parsed.strings.get("owner") { Some(v) => v, None => return None };
        let v_repo = match parsed.strings.get("repo") { Some(v) => v, None => return None };
        let mut r = String::new();
        r.append("https://");
        r.append(v_domain.as_str());
        r.append("/");
        r.append(v_owner.as_str());
        r.append("/");
        r.append(v_repo.as_str());
        Some(r)
    }

    fn display_target(&self, parsed: &ParsedAttrs) -> (r: Option<String>)
        ensures
            match r {
                Some(u) => gitea_display(parsed.strings@) == Some(u@),
                None => gitea_display(parsed.strings@) is None,
            },
    {
        let v_domain = match parsed.strings.get("domain") { Some(v) => v, None => return None };
        let v_owner = match parsed.strings.get("owner") { Some(v) => v, None => return None };
        let v_repo = match parsed.strings.get("repo") { Some(v) => v, None => return None };
        let mut r = String::new();
        r.append(v_domain.as_str());
        r.append("/");
        r.append(v_owner.as_str());
        r.append("/");
        r.append(v_repo.as_str());
        Some(r)
    }

    fn archive_url(&self, parsed: &ParsedAttrs, rev: &str) -> (r: Result<String, String>)
        ensures
            match r {
                Ok(u) => gitea_archive(parsed.strings@, rev@) == Ok::<Seq<char>, Seq<char>>(u@),
                Err(e) => gitea_archive(parsed.strings@, rev@) == Err::<Seq<char>, Seq<char>>(e@),
            },
    {
        let v_domain = match parsed.strings.get("domain") { Some(v) => v, None => return Err(String::from_str("missing 'domain' parameter for fetchFromGitea")) };
        let v_owner = match parsed.strings.get("owner") { Some(v) => v, None => return Err(String::from_str("missing 'owner' parameter for fetchFromGitea")) };
        let v_repo = match parsed.strings.get("repo") { Some(v) => v, None => return Err(String::from_str("missing 'repo' parameter for fetchFromGitea")) };
        let mut r = String::new();
        r.append("https://");
        r.append(v_domain.as_str());
        r.append("/");
        r.append(v_owner.as_str());
        r.append("/");
        r.append(v_repo.as_str());
        r.append("/archive/");
        r.append(rev);
        r.append(".tar.gz");
        Ok(r)
    }

    fn attr_spec(&self) -> (r: Vec<AttrSpec>)
        ensures
            attrs_view(r@) == gitea_attrs(),
    {
        let mut extra: Vec<AttrSpec> = Vec::new();
        push_attr(&mut extra, "owner", AttrType::String);
        push_attr(&mut extra, "repo", AttrType::String);
        push_attr(&mut extra, "domain", AttrType::String);
        compose_attr_spec(extra.as_slice())
    }
}

/// The `fetchFromForgejo` fetcher.
pub struct Forgejo;

pub open spec fn forgejo_git_url(s: Map<Seq<char>, Seq<char>>) -> Option<Seq<char>> {
    if s.contains_key("domain"@) && s.contains_key("owner"@) && s.contains_key("repo"@) { Some("https://"@ + s["domain"@] + "/"@ + s["owner"@] + "/"@ + s["repo"@]) } else { None }
}

pub open spec fn forgejo_display(s: Map<Seq<char>, Seq<char>>) -> Option<Seq<char>> {
    if s.contains_key("domain"@) && s.contains_key("owner"@) && s.contains_key("repo"@) { Some(s["domain"@] + "/"@ + s["owner"@] + "/"@ + s["repo"@]) } else { None }
}
pub open spec fn forgejo_archive(s: Map<Seq<char>, Seq<char>>, rev: Seq<char>) -> Result<Seq<char>, Seq<char>> {
    if !s.contains_key("domain"@) { Err("missing 'domain' parameter for fetchFromForgejo"@) } else { if !s.contains_key("owner"@) { Err("missing 'owner' parameter for fetchFromForgejo"@) } else { if !s.contains_key("repo"@) { Err("missing 'repo' parameter for fetchFromForgejo"@) } else { Ok("https://"@ + s["domain"@] + "/"@ + s["owner"@] + "/"@ + s["repo"@] + "/archive/"@ + rev + ".tar.gz"@) } } }
}

pub open spec fn forgejo_attrs() -> Seq<(Seq<char>, AttrType)> {
    common_git_attr_list() + seq![("owner"@, AttrType::String), ("repo"@, AttrType::String), ("domain"@, AttrType::String)]
}
impl Forge for Forgejo {
    fn id(&self) -> (r: &'static str)
        ensures
            r@ == "forgejo"@,
    {
        "forgejo"
    }

    fn nixpkgs_fn_name(&self) -> (r: &'static str)
        ensures
            r@ == "fetchFromForgejo"@,
    {
        "fetchFromForgejo"
    }

    fn git_url(&self, parsed: &ParsedAttrs) -> (r: Option<String>)
        ensures
            match r {
                Some(u) => forgejo_git_url(parsed.strings@) == Some(u@),
                None => forgejo_git_url(parsed.strings@) is None,
            },
    {
        let v_domain = match parsed.strings.get("domain") { Some(v) => v, None => return None };
        let v_owner = match parsed.strings.get("owner") { Some(v) => v, None => return None };
        let v_repo = match parsed.strings.get("repo") { Some(v) => v, None => return None };
        let mut r = String::new();
        r.append("https://");
        r.append(v_domain.as_str());
        r.append("/");
        r.append(v_owner.as_str());
        r.append("/");
        r.append(v_repo.as_str());
        Some(r)
    }

    fn display_target(&self, parsed: &ParsedAttrs) -> (r: Option<String>)
        ensures
            match r {
                Some(u) => forgejo_display(parsed.strings@) == Some(u@),
                None => forgejo_display(parsed.strings@) is None,
            },
    {
        let v_domain = match parsed.strings.get("domain") { Some(v) => v, None => return None };
        let v_owner = match parsed.strings.get("owner") { Some(v) => v, None => return None };
        let v_repo = match parsed.strings.get("repo") { Some(v) => v, None => return None };
        let mut r = String::new();
        r.append(v_domain.as_str());
        r.append("/");
        r.append(v_owner.as_str());
        r.append("/");
        r.append(v_repo.as_str());
        Some(r)
    }

    fn archive_url(&self, parsed: &ParsedAttrs, rev: &str) -> (r: Result<String, String>)
        ensures
            match r {
                Ok(u) => forgejo_archive(parsed.strings@, rev@) == Ok::<Seq<char>, Seq<char>>(u@),
                Err(e) => forgejo_archive(parsed.strings@, rev@) == Err::<Seq<char>, Seq<char>>(e@),
            },
    {
        let v_domain = match parsed.strings.get("domain") { Some(v) => v, None => return Err(String::from_str("missing 'domain' parameter for fetchFromForgejo")) };
        let v_owner = match parsed.strings.get("owner") { Some(v) => v, None => return Err(String::from_str("missing 'owner' parameter for fetchFromForgejo")) };
        let v_repo = match parsed.strings.get("repo") { Some(v) => v, None => return Err(String::from_str("missing 'repo' parameter for fetchFromForgejo")) };
        let mut r = String::new();
        r.append("https://");
        r.append(v_domain.as_str());
        r.append("/");
        r.append(v_owner.as_str());
        r.append("/");
        r.append(v_repo.as_str());
        r.append("/archive/");
        r.append(rev);
        r.append(".tar.gz");
        Ok(r)
    }

    fn attr_spec(&self) -> (r: Vec<AttrSpec>)
        ensures
            attrs_view(r@) == forgejo_attrs(),
    {
        let mut extra: Vec<AttrSpec> = Vec::new();
        push_attr(&mut extra, "owner", AttrType::String);
        push_attr(&mut extra, "repo", AttrType::String);
        push_attr(&mut extra, "domain", AttrType::String);
        compose_attr_spec(extra.as_slice())
    }
}

/// The `fetchFromCodeberg` fetcher.
pub struct Codeberg;

pub open spec fn codeberg_git_url(s: Map<Seq<char>, Seq<char>>) -> Option<Seq<char>> {
    if s.contains_key("owner"@) && s.contains_key("repo"@) { Some("https://codeberg.org/"@ + s["owner"@] + "/"@ + s["repo"@]) } else { None }
}

pub open spec fn codeberg_display(s: Map<Seq<char>, Seq<char>>) -> Option<Seq<char>> {
    if s.contains_key("owner"@) && s.contains_key("repo"@) { Some("codeberg.org/"@ + s["owner"@] + "/"@ + s["repo"@]) } else { None }
}
pub open spec fn codeberg_archive(s: Map<Seq<char>, Seq<char>>, rev: Seq<char>) -> Result<Seq<char>, Seq<char>> {
    if !s.contains_key("owner"@) { Err("missing 'owner' parameter for fetchFromCodeberg"@) } else { if !s.contains_key("repo"@) { Err("missing 'repo' parameter for fetchFromCodeberg"@) } else { Ok("https://codeberg.org/"@ + s["owner"@] + "/"@ + s["repo"@] + "/archive/"@ + rev + ".tar.gz"@) } }
}

pub open spec fn codeberg_attrs() -> Seq<(Seq<char>, AttrType)> {
    common_git_attr_list() + seq![("owner"@, AttrType::String), ("repo"@, AttrType::String)]
}
impl Forge for Codeberg {
    fn id(&self) -> (r: &'static str)
        ensures
            r@ == "codeberg"@,
    {
        "codeberg"
    }

    fn nixpkgs_fn_name(&self) -> (r: &'static str)
        ensures
            r@ == "fetchFromCodeberg"@,
    {
        "fetchFromCodeberg"
    }

    fn git_url(&self, parsed: &ParsedAttrs) -> (r: Option<String>)
        ensures
            match r {
                Some(u) => codeberg_git_url(parsed.strings@) == Some(u@),
                None => codeberg_git_url(parsed.strings@) is None,
            },
    {
        let v_owner = match parsed.strings.get("owner") { Some(v) => v, None => return None };
        let v_repo = match parsed.strings.get("repo") { Some(v) => v, None => return None };
        let mut r = String::new();
        r.append("https://codeberg.org/");
        r.append(v_owner.as_str());
        r.append("/");
        r.append(v_repo.as_str());
        Some(r)
    }

    fn display_target(&self, parsed: &ParsedAttrs) -> (r: Option<String>)
        ensures
            match r {
                Some(u) => codeberg_display(parsed.strings@) == Some(u@),
                None => codeberg_display(parsed.strings@) is None,
            },
    {
        let v_owner = match parsed.strings.get("owner") { Some(v) => v, None => return None };
        let v_repo = match parsed.strings.get("repo") { Some(v) => v, None => return None };
        let mut r = String::new();
        r.append("codeberg.org/");
        r.append(v_owner.as_str());
        r.append("/");
        r.append(v_repo.as_str());
        Some(r)
    }

    fn archive_url(&self, parsed: &ParsedAttrs, rev: &str) -> (r: Result<String, String>)
        ensures
            match r {
                Ok(u) => codeberg_archive(parsed.strings@, rev@) == Ok::<Seq<char>, Seq<char>>(u@),
                Err(e) => codeberg_archive(parsed.strings@, rev@) == Err::<Seq<char>, Seq<char>>(e@),
            },
    {
        let v_owner = match parsed.strings.get("owner") { Some(v) => v, None => return Err(String::from_str("missing 'owner' parameter for fetchFromCodeberg")) };
        let v_repo = match parsed.strings.get("repo") { Some(v) => v, None => return Err(String::from_str("missing 'repo' parameter for fetchFromCodeberg")) };
        let mut r = String::new();
        r.append("https://codeberg.org/");
        r.append(v_owner.as_str());
        r.append("/");
        r.append(v_repo.as_str());
        r.append("/archive/");
        r.append(rev);
        r.append(".tar.gz");
        Ok(r)
    }

    fn attr_spec(&self) -> (r: Vec<AttrSpec>)
        ensures
            attrs_view(r@) == codeberg_attrs(),
    {
        let mut extra: Vec<AttrSpec> = Vec::new();
        push_attr(&mut extra, "owner", AttrType::String);
        push_attr(&mut extra, "repo", AttrType::String);
        compose_attr_spec(extra.as_slice())
    }
}

/// The `fetchFromSourcehut` fetcher.
pub struct SourceHut;

pub open spec fn sourcehut_git_url(s: Map<Seq<char>, Seq<char>>) -> Option<Seq<char>> {
    if s.contains_key("owner"@) && s.contains_key("repo"@) { Some("https://"@ + lookup_or(s, "vc"@, "git"@) + "."@ + lookup_or(s, "domain"@, "sr.ht"@) + "/"@ + tilde_owner(s["owner"@]) + "/"@ + s["repo"@]) } else { None }
}

pub open spec fn sourcehut_display(s: Map<Seq<char>, Seq<char>>) -> Option<Seq<char>> {
    if s.contains_key("owner"@) && s.contains_key("repo"@) { Some(lookup_or(s, "vc"@, "git"@) + "."@ + lookup_or(s, "domain"@, "sr.ht"@) + "/"@ + tilde_owner(s["owner"@]) + "/"@ + s["repo"@]) } else { None }
}
pub open spec fn sourcehut_archive(s: Map<Seq<char>, Seq<char>>, rev: Seq<char>) -> Result<Seq<char>, Seq<char>> {
    if !s.contains_key("owner"@) { Err("missing 'owner' parameter for fetchFromSourcehut"@) } else { if !s.contains_key("repo"@) { Err("missing 'repo' parameter for fetchFromSourcehut"@) } else { Ok("https://"@ + lookup_or(s, "vc"@, "git"@) + "."@ + lookup_or(s, "domain"@, "sr.ht"@) + "/"@ + tilde_owner(s["owner"@]) + "/"@ + s["repo"@] + "/archive/"@ + rev + ".tar.gz"@) } }
}

pub open spec fn sourcehut_attrs() -> Seq<(Seq<char>, AttrType)> {
    common_git_attr_list() + seq![("owner"@, AttrType::String), ("repo"@, AttrType::String), ("domain"@, AttrType::String), ("vc"@, AttrType::String)]
}
impl Forge for SourceHut {
    fn id(&self) -> (r: &'static str)
        ensures
            r@ == "sourcehut"@,
    {
        "sourcehut"
    }

    fn nixpkgs_fn_name(&self) -> (r: &'static str)
        ensures
            r@ == "fetchFromSourcehut"@,
    {
        "fetchFromSourcehut"
    }

    fn git_url(&self, parsed: &ParsedAttrs) -> (r: Option<String>)
        ensures
            match r {
                Some(u) => sourcehut_git_url(parsed.strings@) == Some(u@),
                None => sourcehut_git_url(parsed.strings@) is None,
            },
    {
        let v_owner = match parsed.strings.get("owner") { Some(v) => v, None => return None };
        let v_repo = match parsed.strings.get("repo") { Some(v) => v, None => return None };
        let mut r = String::new();
        r.append("https://");
        r.append(get_or(parsed, "vc", "git").as_str());
        r.append(".");
        r.append(get_or(parsed, "domain", "sr.ht").as_str());
        r.append("/");
        r.append(ensure_tilde(v_owner.as_str()).as_str());
        r.append("/");
        r.append(v_repo.as_str());
        Some(r)
    }

    fn display_target(&self, parsed: &ParsedAttrs) -> (r: Option<String>)
        ensures
            match r {
                Some(u) => sourcehut_display(parsed.strings@) == Some(u@),
                None => sourcehut_display(parsed.strings@) is None,
            },
    {
        let v_owner = match parsed.strings.get("owner") { Some(v) => v, None => return None };
        let v_repo = match parsed.strings.get("repo") { Some(v) => v, None => return None };
        let mut r = String::new();
        r.append(get_or(parsed, "vc", "git").as_str());
        r.append(".");
        r.append(get_or(parsed, "domain", "sr.ht").as_str());
        r.append("/");
        r.append(ensure_tilde(v_owner.as_str()).as_str());
        r.append("/");
        r.append(v_repo.as_str());
        Some(r)
    }

    fn archive_url(&self, parsed: &ParsedAttrs, rev: &str) -> (r: Result<String, String>)
        ensures
            match r {
                Ok(u) => sourcehut_archive(parsed.strings@, rev@) == Ok::<Seq<char>, Seq<char>>(u@),
                Err(e) => sourcehut_archive(parsed.strings@, rev@) == Err::<Seq<char>, Seq<char>>(e@),
            },
    {
        let v_owner = match parsed.strings.get("owner") { Some(v) => v, None => return Err(String::from_str("missing 'owner' parameter for fetchFromSourcehut")) };
        let v_repo = match parsed.strings.get("repo") { Some(v) => v, None => return Err(String::from_str("missing 'repo' parameter for fetchFromSourcehut")) };
        let mut r = String::new();
        r.append("https://");
        r.append(get_or(parsed, "vc", "git").as_str());
        r.append(".");
        r.append(get_or(parsed, "domain", "sr.ht").as_str());
        r.append("/");
        r.append(ensure_tilde(v_owner.as_str()).as_str());
        r.append("/");
        r.append(v_repo.as_str());
        r.append("/archive/");
        r.append(rev);
        r.append(".tar.gz");
        Ok(r)
    }

    fn attr_spec(&self) -> (r: Vec<AttrSpec>)
        ensures
            attrs_view(r@) == sourcehut_attrs(),
    {
        let mut extra: Vec<AttrSpec> = Vec::new();
        push_attr(&mut extra, "owner", AttrType::String);
        push_attr(&mut extra, "repo", AttrType::String);
        push_attr(&mut extra, "domain", AttrType::String);
        push_attr(&mut extra, "vc", AttrType::String);
        compose_attr_spec(extra.as_slice())
    }
}

pub open spec fn sourcehut_flake_remote(owner: Seq<char>, repo: Seq<char>) -> Seq<char> {
    "https://sr.ht/~"@ + owner + "/"@ + repo
}

pub open spec fn sourcehut_flake_display(owner: Seq<char>, repo: Seq<char>) -> Seq<char> {
    "git.sr.ht/"@ + tilde_owner(owner) + "/"@ + repo
}

impl FlakeForge for SourceHut {
    fn flake_scheme(&self) -> (r: &'static str)
        ensures
            r@ == "sourcehut"@,
    {
        "sourcehut"
    }

    fn remote_url_for_flake(&self, owner: &str, repo: &str) -> (r: String)
        ensures
            r@ == sourcehut_flake_remote(owner@, repo@),
    {
        let mut r = String::new();
        r.append("https://sr.ht/~");
        r.append(owner);
        r.append("/");
        r.append(repo);
        r
    }

    fn display_for_flake(&self, owner: &str, repo: &str) -> (r: String)
        ensures
            r@ == sourcehut_flake_display(owner@, repo@),
    {
        let mut r = String::new();
        r.append("git.sr.ht/");
        r.append(ensure_tilde(owner).as_str());
        r.append("/");
        r.append(repo);
        r
    }
}

/// The `fetchFromBitbucket` fetcher.
pub struct Bitbucket;

pub open spec fn bitbucket_git_url(s: Map<Seq<char>, Seq<char>>) -> Option<Seq<char>> {
    if s.contains_key("owner"@) && s.contains_key("repo"@) { Some("https://bitbucket.org/"@ + s["owner"@] + "/"@ + s["repo"@]) } else { None }
}

pub open spec fn bitbucket_display(s: Map<Seq<char>, Seq<char>>) -> Option<Seq<char>> {
    if s.contains_key("owner"@) && s.contains_key("repo"@) { Some("bitbucket.org/"@ + s["owner"@] + "/"@ + s["repo"@]) } else { None }
}
pub open spec fn bitbucket_archive(s: Map<Seq<char>, Seq<char>>, rev: Seq<char>) -> Result<Seq<char>, Seq<char>> {
    if !s.contains_key("owner"@) { Err("missing 'owner' parameter for fetchFromBitbucket"@) } else { if !s.contains_key("repo"@) { Err("missing 'repo' parameter for fetchFromBitbucket"@) } else { Ok("https://bitbucket.org/"@ + s["owner"@] + "/"@ + s["repo"@] + "/get/"@ + tag_or_rev_of(s, rev) + ".tar.gz"@) } }
}

pub open spec fn bitbucket_attrs() -> Seq<(Seq<char>, AttrType)> {
    common_git_attr_list() + seq![("owner"@, AttrType::String), ("repo"@, AttrType::String)]
}
impl Forge for Bitbucket {
    fn id(&self) -> (r: &'static str)
        ensures
            r@ == "bitbucket"@,
    {
        "bitbucket"
    }

    fn nixpkgs_fn_name(&self) -> (r: &'static str)
        ensures
            r@ == "fetchFromBitbucket"@,
    {
        "fetchFromBitbucket"
    }

    fn git_url(&self, parsed: &ParsedAttrs) -> (r: Option<String>)
        ensures
            match r {
                Some(u) => bitbucket_git_url(parsed.strings@) == Some(u@),
                None => bitbucket_git_url(parsed.strings@) is None,
            },
    {
        let v_owner = match parsed.strings.get("owner") { Some(v) => v, None => return None };
        let v_repo = match parsed.strings.get("repo") { Some(v) => v, None => return None };
        let mut r = String::new();
        r.append("https://bitbucket.org/");
        r.append(v_owner.as_str());
        r.append("/");
        r.append(v_repo.as_str());
        Some(r)
    }

    fn display_target(&self, parsed: &ParsedAttrs) -> (r: Option<String>)
        ensures
            match r {
                Some(u) => bitbucket_display(parsed.strings@) == Some(u@),
                None => bitbucket_display(parsed.strings@) is None,
            },
    {
        let v_owner = match parsed.strings.get("owner") { Some(v) => v, None => return None };
        let v_repo = match parsed.strings.get("repo") { Some(v) => v, None => return None };
        let mut r = String::new();
        r.append("bitbucket.org/");
        r.append(v_owner.as_str());
        r.append("/");
        r.append(v_repo.as_str());
        Some(r)
    }

    fn archive_url(&self, parsed: &ParsedAttrs, rev: &str) -> (r: Result<String, String>)
        ensures
            match r {
                Ok(u) => bitbucket_archive(parsed.strings@, rev@) == Ok::<Seq<char>, Seq<char>>(u@),
                Err(e) => bitbucket_archive(parsed.strings@, rev@) == Err::<Seq<char>, Seq<char>>(e@),
            },
    {
        let v_owner = match parsed.strings.get("owner") { Some(v) => v, None => return Err(String::from_str("missing 'owner' parameter for fetchFromBitbucket")) };
        let v_repo = match parsed.strings.get("repo") { Some(v) => v, None => return Err(String::from_str("missing 'repo' parameter for fetchFromBitbucket")) };
        let mut r = String::new();
        r.append("https://bitbucket.org/");
        r.append(v_owner.as_str());
        r.append("/");
        r.append(v_repo.as_str());
        r.append("/get/");
        r.append(tag_or_rev(parsed, rev).as_str());
        r.append(".tar.gz");
        Ok(r)
    }

    fn attr_spec(&self) -> (r: Vec<AttrSpec>)
        ensures
            attrs_view(r@) == bitbucket_attrs(),
    {
        let mut extra: Vec<AttrSpec> = Vec::new();
        push_attr(&mut extra, "owner", AttrType::String);
        push_attr(&mut extra, "repo", AttrType::String);
        compose_attr_spec(extra.as_slice())
    }
}

/// The `fetchFromRepoOrCz` fetcher.
pub struct RepoOrCz;

pub open spec fn repoorcz_git_url(s: Map<Seq<char>, Seq<char>>) -> Option<Seq<char>> {
    if s.contains_key("repo"@) { Some("https://repo.or.cz/"@ + s["repo"@] + ".git"@) } else { None }
}

pub open spec fn repoorcz_display(s: Map<Seq<char>, Seq<char>>) -> Option<Seq<char>> {
    if s.contains_key("repo"@) { Some("repo.or.cz/"@ + s["repo"@] + ".git"@) } else { None }
}
pub open spec fn repoorcz_archive(s: Map<Seq<char>, Seq<char>>, rev: Seq<char>) -> Result<Seq<char>, Seq<char>> {
    if !s.contains_key("repo"@) { Err("missing 'repo' parameter for fetchFromRepoOrCz"@) } else { Ok("https://repo.or.cz/"@ + s["repo"@] + ".git/snapshot/"@ + rev + ".tar.gz"@) }
}

pub open spec fn repoorcz_attrs() -> Seq<(Seq<char>, AttrType)> {
    common_git_attr_list() + seq![("repo"@, AttrType::String)]
}
impl Forge for RepoOrCz {
    fn id(&self) -> (r: &'static str)
        ensures
            r@ == "repoorcz"@,
    {
        "repoorcz"
    }

    fn nixpkgs_fn_name(&self) -> (r: &'static str)
        ensures
            r@ == "fetchFromRepoOrCz"@,
    {
        "fetchFromRepoOrCz"
    }

    fn git_url(&self, parsed: &ParsedAttrs) -> (r: Option<String>)
        ensures
            match r {
                Some(u) => repoorcz_git_url(parsed.strings@) == Some(u@),
                None => repoorcz_git_url(parsed.strings@) is None,
            },
    {
        let v_repo = match parsed.strings.get("repo") { Some(v) => v, None => return None };
        let mut r = String::new();
        r.append("https://repo.or.cz/");
        r.append(v_repo.as_str());
        r.append(".git");
        Some(r)
    }

    fn display_target(&self, parsed: &ParsedAttrs) -> (r: Option<String>)
        ensures
            match r {
                Some(u) => repoorcz_display(parsed.strings@) == Some(u@),
                None => repoorcz_display(parsed.strings@) is None,
            },
    {
        let v_repo = match parsed.strings.get("repo") { Some(v) => v, None => return None };
        let mut r = String::new();
        r.append("repo.or.cz/");
        r.append(v_repo.as_str());
        r.append(".git");
        Some(r)
    }

    fn archive_url(&self, parsed: &ParsedAttrs, rev: &str) -> (r: Result<String, String>)
        ensures
            match r {
                Ok(u) => repoorcz_archive(parsed.strings@, rev@) == Ok::<Seq<char>, Seq<char>>(u@),
                Err(e) => repoorcz_archive(parsed.strings@, rev@) == Err::<Seq<char>, Seq<char>>(e@),
            },
    {
        let v_repo = match parsed.strings.get("repo") { Some(v) => v, None => return Err(String::from_str("missing 'repo' parameter for fetchFromRepoOrCz")) };
        let mut r = String::new();
        r.append("https://repo.or.cz/");
        r.append(v_repo.as_str());
        r.append(".git/snapshot/");
        r.append(rev);
        r.append(".tar.gz");
        Ok(r)
    }

    fn attr_spec(&self) -> (r: Vec<AttrSpec>)
        ensures
            attrs_view(r@) == repoorcz_attrs(),
    {
        let mut extra: Vec<AttrSpec> = Vec::new();
        push_attr(&mut extra, "repo", AttrType::String);
        compose_attr_spec(extra.as_slice())
    }
}

/// The `fetchFromGitiles` fetcher.
pub struct Gitiles;

pub open spec fn gitiles_git_url(s: Map<Seq<char>, Seq<char>>) -> Option<Seq<char>> {
    if s.contains_key("url"@) { Some(s["url"@]) } else { None }
}

pub open spec fn gitiles_display(s: Map<Seq<char>, Seq<char>>) -> Option<Seq<char>> {
    if s.contains_key("url"@) { Some(without_scheme(s["url"@])) } else { None }
}
pub open spec fn gitiles_archive(s: Map<Seq<char>, Seq<char>>, rev: Seq<char>) -> Result<Seq<char>, Seq<char>> {
    if !s.contains_key("url"@) { Err("missing 'url' parameter for fetchFromGitiles"@) } else { Ok(s["url"@] + "/+archive/"@ + tag_or_rev_of(s, rev) + ".tar.gz"@) }
}

pub open spec fn gitiles_attrs() -> Seq<(Seq<char>, AttrType)> {
    common_git_attr_list() + seq![("url"@, AttrType::String)]
}
impl Forge for Gitiles {
    fn id(&self) -> (r: &'static str)
        ensures
            r@ == "gitiles"@,
    {
        "gitiles"
    }

    fn nixpkgs_fn_name(&self) -> (r: &'static str)
        ensures
            r@ == "fetchFromGitiles"@,
    {
        "fetchFromGitiles"
    }

    fn git_url(&self, parsed: &ParsedAttrs) -> (r: Option<String>)
        ensures
            match r {
                Some(u) => gitiles_git_url(parsed.strings@) == Some(u@),
                None => gitiles_git_url(parsed.strings@) is None,
            },
    {
        let v_url = match parsed.strings.get("url") { Some(v) => v, None => return None };
        let mut r = String::new();
        r.append(v_url.as_str());
        Some(r)
    }

    fn display_target(&self, parsed: &ParsedAttrs) -> (r: Option<String>)
        ensures
            match r {
                Some(u) => gitiles_display(parsed.strings@) == Some(u@),
                None => gitiles_display(parsed.strings@) is None,
            },
    {
        let v_url = match parsed.strings.get("url") { Some(v) => v, None => return None };
        let mut r = String::new();
        r.append(strip_url_scheme(v_url.as_str()).as_str());
        Some(r)
    }

    fn archive_url(&self, parsed: &ParsedAttrs, rev: &str) -> (r: Result<String, String>)
        ensures
            match r {
                Ok(u) => gitiles_archive(parsed.strings@, rev@) == Ok::<Seq<char>, Seq<char>>(u@),
                Err(e) => gitiles_archive(parsed.strings@, rev@) == Err::<Seq<char>, Seq<char>>(e@),
            },
    {
        let v_url = match parsed.strings.get("url") { Some(v) => v, None => return Err(String::from_str("missing 'url' parameter for fetchFromGitiles")) };
        let mut r = String::new();
        r.append(v_url.as_str());
        r.append("/+archive/");
        r.append(tag_or_rev(parsed, rev).as_str());
        r.append(".tar.gz");
        Ok(r)
    }

    fn attr_spec(&self) -> (r: Vec<AttrSpec>)
        ensures
            attrs_view(r@) == gitiles_attrs(),
    {
        let mut extra: Vec<AttrSpec> = Vec::new();
        push_attr(&mut extra, "url", AttrType::String);
        compose_attr_spec(extra.as_slice())
    }
}

} // verus!
