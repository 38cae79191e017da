use nix_update_git::rules::fetcher::patch_url::{parse_patch_url, PatchPlatform, PatchRefType};

// -- GitHub commit -------------------------------------------------------

#[test]
fn patch_url_test_parse_github_commit_patch() {
    let info =
        parse_patch_url("https://github.com/owner/repo/commit/abc123def456.patch").unwrap();
    assert_eq!(info.platform, PatchPlatform::GitHub);
    assert_eq!(info.domain, "github.com");
    assert_eq!(info.project, "owner/repo");
    assert_eq!(info.current_ref(), "abc123def456");
    assert_eq!(info.git_remote_url(), "https://github.com/owner/repo");
    assert_eq!(
        info.replace_ref("newsha789"),
        "https://github.com/owner/repo/commit/newsha789.patch"
    );
}

#[test]
fn patch_url_test_parse_github_commit_diff() {
    let info = parse_patch_url("https://github.com/owner/repo/commit/abc123.diff").unwrap();
    assert_eq!(info.current_ref(), "abc123");
    assert_eq!(
        info.replace_ref("newsha"),
        "https://github.com/owner/repo/commit/newsha.diff"
    );
}

#[test]
fn patch_url_test_parse_github_commit_full_sha() {
    let sha = "0f14e030b3a9391e761c03ce3c260730a78a4db6";
    let url = format!("https://github.com/owner/repo/commit/{}.patch", sha);
    let info = parse_patch_url(&url).unwrap();
    assert_eq!(info.current_ref(), sha);
}

#[test]
fn patch_url_test_parse_github_commit_tag_as_ref() {
    // GitHub allows using a tag name instead of a SHA in commit URLs.
    let info = parse_patch_url("https://github.com/owner/repo/commit/v1.0.0.patch").unwrap();
    assert_eq!(info.current_ref(), "v1.0.0");
}

// -- GitHub compare ------------------------------------------------------

#[test]
fn patch_url_test_parse_github_compare_patch() {
    let info =
        parse_patch_url("https://github.com/owner/repo/compare/v1.0.0...v2.0.0.patch").unwrap();
    assert_eq!(info.platform, PatchPlatform::GitHub);
    assert_eq!(info.project, "owner/repo");
    match &info.ref_type {
        PatchRefType::Compare { base, head, suffix } => {
            assert_eq!(base, "v1.0.0");
            assert_eq!(head, "v2.0.0");
            assert_eq!(suffix, ".patch");
        }
        other => panic!("expected Compare, got {:?}", other),
    }
    assert_eq!(info.current_ref(), "v2.0.0");
    assert_eq!(
        info.replace_ref("v3.0.0"),
        "https://github.com/owner/repo/compare/v1.0.0...v3.0.0.patch"
    );
}

#[test]
fn patch_url_test_parse_github_compare_diff() {
    let info =
        parse_patch_url("https://github.com/owner/repo/compare/v1.0.0...v2.0.0.diff").unwrap();
    assert_eq!(info.current_ref(), "v2.0.0");
    assert_eq!(
        info.replace_ref("v3.0.0"),
        "https://github.com/owner/repo/compare/v1.0.0...v3.0.0.diff"
    );
}

#[test]
fn patch_url_test_parse_github_commit_with_query() {
    let info =
        parse_patch_url("https://github.com/owner/repo/commit/abc123.patch?full_index=1")
            .unwrap();
    assert_eq!(info.current_ref(), "abc123");
    assert_eq!(info.query, "?full_index=1");
    assert_eq!(
        info.replace_ref("newsha"),
        "https://github.com/owner/repo/commit/newsha.patch?full_index=1"
    );
}

#[test]
fn patch_url_test_parse_github_compare_with_query() {
    let info =
        parse_patch_url("https://github.com/owner/repo/compare/v1.0.0...v2.0.0.patch?w=1")
            .unwrap();
    assert_eq!(info.query, "?w=1");
    assert_eq!(
        info.replace_ref("v3.0.0"),
        "https://github.com/owner/repo/compare/v1.0.0...v3.0.0.patch?w=1"
    );
}

#[test]
fn patch_url_test_parse_github_commit_with_fragment() {
    // Fragment is stripped; query is preserved.
    let info =
        parse_patch_url("https://github.com/owner/repo/commit/abc123.patch#diff").unwrap();
    assert_eq!(info.current_ref(), "abc123");
    assert_eq!(info.query, "");
}

#[test]
fn patch_url_test_parse_github_commit_with_query_and_fragment() {
    let info =
        parse_patch_url("https://github.com/owner/repo/commit/abc123.patch?full_index=1#diff")
            .unwrap();
    assert_eq!(info.current_ref(), "abc123");
    assert_eq!(info.query, "?full_index=1");
}

// -- GitLab commit -------------------------------------------------------

#[test]
fn patch_url_test_parse_gitlab_commit_patch() {
    let info = parse_patch_url("https://gitlab.com/owner/repo/-/commit/abc123.patch").unwrap();
    assert_eq!(info.platform, PatchPlatform::GitLab);
    assert_eq!(info.domain, "gitlab.com");
    assert_eq!(info.project, "owner/repo");
    assert_eq!(info.current_ref(), "abc123");
    assert_eq!(info.git_remote_url(), "https://gitlab.com/owner/repo");
}

#[test]
fn patch_url_test_parse_gitlab_compare_patch() {
    let info = parse_patch_url("https://gitlab.com/owner/repo/-/compare/v1.0.0...v2.0.0.diff")
        .unwrap();
    assert_eq!(info.current_ref(), "v2.0.0");
    assert_eq!(
        info.replace_ref("v3.0.0"),
        "https://gitlab.com/owner/repo/-/compare/v1.0.0...v3.0.0.diff"
    );
}

#[test]
fn patch_url_test_parse_gitlab_custom_domain() {
    let info =
        parse_patch_url("https://gitlab.example.com/group/project/-/commit/abc123.patch")
            .unwrap();
    assert_eq!(info.platform, PatchPlatform::GitLab);
    assert_eq!(info.domain, "gitlab.example.com");
    assert_eq!(info.project, "group/project");
}

#[test]
fn patch_url_test_parse_gitlab_nested_group() {
    let info =
        parse_patch_url("https://gitlab.com/group/subgroup/project/-/commit/abc123.patch")
            .unwrap();
    assert_eq!(info.project, "group/subgroup/project");
    assert_eq!(
        info.git_remote_url(),
        "https://gitlab.com/group/subgroup/project"
    );
}

#[test]
fn patch_url_test_parse_gitlab_compare_custom_domain() {
    let info =
        parse_patch_url("https://gitlab.corp.com/team/lib/-/compare/v1.0.0...v2.0.0.patch")
            .unwrap();
    assert_eq!(info.current_ref(), "v2.0.0");
    assert_eq!(
        info.replace_ref("v3.0.0"),
        "https://gitlab.corp.com/team/lib/-/compare/v1.0.0...v3.0.0.patch"
    );
}

// -- Codeberg / Gitea / Forgejo -----------------------------------------

#[test]
fn patch_url_test_parse_codeberg_commit_patch() {
    let info = parse_patch_url("https://codeberg.org/owner/repo/commit/abc123.patch").unwrap();
    assert_eq!(info.platform, PatchPlatform::Gitea);
    assert_eq!(info.domain, "codeberg.org");
    assert_eq!(info.project, "owner/repo");
    assert_eq!(info.git_remote_url(), "https://codeberg.org/owner/repo");
}

#[test]
fn patch_url_test_parse_gitea_commit_patch() {
    let info =
        parse_patch_url("https://gitea.example.com/owner/repo/commit/abc123.patch").unwrap();
    assert_eq!(info.platform, PatchPlatform::Gitea);
    assert_eq!(info.domain, "gitea.example.com");
    assert_eq!(
        info.git_remote_url(),
        "https://gitea.example.com/owner/repo"
    );
}

#[test]
fn patch_url_test_parse_gitea_compare_patch() {
    let info =
        parse_patch_url("https://gitea.example.com/owner/repo/compare/v1.0.0...v2.0.0.patch")
            .unwrap();
    assert_eq!(info.current_ref(), "v2.0.0");
}

#[test]
fn patch_url_test_parse_forgejo_compare_diff() {
    let info =
        parse_patch_url("https://forgejo.dev/org/proj/compare/v0.1...v0.2.diff").unwrap();
    assert_eq!(info.current_ref(), "v0.2");
}

// -- SourceHut ------------------------------------------------------------

#[test]
fn patch_url_test_parse_sourcehut_commit_patch() {
    let info = parse_patch_url("https://git.sr.ht/~owner/repo/commit/abc123.patch").unwrap();
    assert_eq!(info.platform, PatchPlatform::SourceHut);
    assert_eq!(info.domain, "git.sr.ht");
    assert_eq!(info.project, "~owner/repo");
    assert_eq!(info.current_ref(), "abc123");
    assert_eq!(info.git_remote_url(), "https://git.sr.ht/~owner/repo");
    assert_eq!(
        info.replace_ref("newsha"),
        "https://git.sr.ht/~owner/repo/commit/newsha.patch"
    );
}

#[test]
fn patch_url_test_parse_sourcehut_commit_mbox() {
    let info = parse_patch_url("https://git.sr.ht/~owner/repo/commit/abc123.mbox").unwrap();
    assert_eq!(info.current_ref(), "abc123");
    assert_eq!(
        info.replace_ref("newsha"),
        "https://git.sr.ht/~owner/repo/commit/newsha.mbox"
    );
}

#[test]
fn patch_url_test_parse_sourcehut_custom_domain() {
    let info =
        parse_patch_url("https://git.custom.sr.ht/~owner/repo/commit/abc123.patch").unwrap();
    assert_eq!(info.domain, "git.custom.sr.ht");
    assert_eq!(info.project, "~owner/repo");
}

// -- Bitbucket -----------------------------------------------------------

#[test]
fn patch_url_test_parse_bitbucket_commit() {
    let info = parse_patch_url("https://bitbucket.org/owner/repo/commits/abc123").unwrap();
    assert_eq!(info.platform, PatchPlatform::Bitbucket);
    assert_eq!(info.domain, "bitbucket.org");
    assert_eq!(info.project, "owner/repo");
    assert_eq!(info.current_ref(), "abc123");
    assert_eq!(info.git_remote_url(), "https://bitbucket.org/owner/repo");
    assert_eq!(
        info.replace_ref("newsha"),
        "https://bitbucket.org/owner/repo/commits/newsha"
    );
}

#[test]
fn patch_url_test_parse_bitbucket_commit_full_sha() {
    let sha = "0f14e030b3a9391e761c03ce3c260730a78a4db6";
    let url = format!("https://bitbucket.org/owner/repo/commits/{}", sha);
    let info = parse_patch_url(&url).unwrap();
    assert_eq!(info.current_ref(), sha);
}

// -- Edge cases ----------------------------------------------------------

#[test]
fn patch_url_test_parse_unknown_url_returns_none() {
    assert_eq!(parse_patch_url("https://example.com/some/path"), None);
}

#[test]
fn test_parse_http_returns_none() {
    assert_eq!(
        parse_patch_url("http://github.com/owner/repo/commit/abc123.patch"),
        None
    );
}

#[test]
fn patch_url_test_parse_compare_no_ellipsis_returns_none() {
    // Single-ref compare URLs (no "...") are not supported.
    assert_eq!(
        parse_patch_url("https://github.com/owner/repo/compare/v1.0.0.patch"),
        None
    );
}

#[test]
fn patch_url_test_parse_empty_url_returns_none() {
    assert_eq!(parse_patch_url(""), None);
}

#[test]
fn patch_url_test_parse_no_domain_path_returns_none() {
    assert_eq!(parse_patch_url("https://github.com"), None);
}

#[test]
fn patch_url_test_parse_wrong_extension_returns_none() {
    assert_eq!(
        parse_patch_url("https://github.com/owner/repo/commit/abc123.txt"),
        None
    );
}

#[test]
fn patch_url_test_parse_github_no_extension() {
    // Without a recognised extension the entire segment is the ref.
    let info = parse_patch_url("https://github.com/owner/repo/commit/abc123").unwrap();
    assert_eq!(info.current_ref(), "abc123");
    assert_eq!(
        info.replace_ref("newsha"),
        "https://github.com/owner/repo/commit/newsha"
    );
}

#[test]
fn patch_url_test_is_version_ref() {
    let info =
        parse_patch_url("https://github.com/owner/repo/compare/v1.0.0...v2.0.0.patch").unwrap();
    assert!(info.is_version_ref());
}

#[test]
fn patch_url_test_parse_github_compare_with_sha_head() {
    let info =
        parse_patch_url("https://github.com/owner/repo/compare/v1.0.0...abc123def456.patch")
            .unwrap();
    // head is a SHA, not a version
    assert!(!info.is_version_ref());
}
