use nix_update_git::forge::{Forge, GitLab};
use nix_update_git::parser::ParsedAttrs;
use nix_update_git::rules::fetcher::kind::FetcherKind;

fn attrs(pairs: &[(&str, &str)]) -> ParsedAttrs {
    let mut parsed = ParsedAttrs::default();
    for (k, v) in pairs {
        parsed.strings.insert(k.to_string(), v.to_string());
    }
    parsed
}

#[test]
fn test_git_url_defaults_to_gitlab_com() {
    let parsed = attrs(&[("owner", "foo"), ("repo", "bar")]);
    assert_eq!(
        GitLab.git_url(&parsed),
        Some("https://gitlab.com/foo/bar".to_string())
    );
}

#[test]
fn test_git_url_honors_self_hosted_domain() {
    let parsed = attrs(&[
        ("owner", "foo"),
        ("repo", "bar"),
        ("domain", "gitlab.example.com"),
    ]);
    assert_eq!(
        GitLab.git_url(&parsed),
        Some("https://gitlab.example.com/foo/bar".to_string())
    );
}

#[test]
fn test_display_target_honors_self_hosted_domain() {
    let parsed = attrs(&[
        ("owner", "foo"),
        ("repo", "bar"),
        ("domain", "gitlab.example.com"),
    ]);
    assert_eq!(
        GitLab.display_target(&parsed),
        Some("gitlab.example.com/foo/bar".to_string())
    );
}

#[test]
fn test_archive_url_shape() {
    let parsed = attrs(&[("owner", "foo"), ("repo", "bar")]);
    assert_eq!(
        GitLab.archive_url(&parsed, "v1.0.0").unwrap(),
        "https://gitlab.com/foo/bar/-/archive/v1.0.0/bar-v1.0.0.tar.gz"
    );
}

fn kind(fn_name: &str) -> FetcherKind {
    FetcherKind::from_name(fn_name).unwrap()
}

fn params(entries: &[(&str, &str)]) -> ParsedAttrs {
    let mut p = ParsedAttrs::default();
    for (k, v) in entries {
        p.strings.insert(k.to_string(), v.to_string());
    }
    p
}

fn archive_url(k: &FetcherKind, parsed: &ParsedAttrs, rev: &str) -> String {
    match k {
        FetcherKind::Forge(forge) => forge.archive_url(parsed, rev).unwrap(),
        _ => panic!("not a forge"),
    }
}

#[test]
fn test_build_tarball_url_gitea() {
    let p = params(&[
        ("domain", "gitea.example"),
        ("owner", "alice"),
        ("repo", "proj"),
    ]);
    let url = archive_url(&kind("fetchFromGitea"), &p, "v1.2.3");
    assert_eq!(
        url,
        "https://gitea.example/alice/proj/archive/v1.2.3.tar.gz"
    );
}

#[test]
fn test_build_tarball_url_bitbucket_tag_is_refs_tags() {
    let mut p = ParsedAttrs::default();
    p.strings.insert("owner".to_string(), "o".to_string());
    p.strings.insert("repo".to_string(), "r".to_string());
    p.strings.insert("tag".to_string(), "v1.0.0".to_string());
    let url = archive_url(&kind("fetchFromBitbucket"), &p, "v2.0.0");
    assert_eq!(url, "https://bitbucket.org/o/r/get/refs/tags/v2.0.0.tar.gz");
}

#[test]
fn test_build_tarball_url_gitiles_tag_is_refs_tags() {
    let mut p = ParsedAttrs::default();
    p.strings
        .insert("url".to_string(), "https://g.example/repo".to_string());
    p.strings.insert("tag".to_string(), "v1.0.0".to_string());
    let url = archive_url(&kind("fetchFromGitiles"), &p, "v2.0.0");
    assert_eq!(
        url,
        "https://g.example/repo/+archive/refs/tags/v2.0.0.tar.gz"
    );
}
