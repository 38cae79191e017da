use nix_update_git::rules::fetcher::source_url::{parse_patch_url, parse_source_url, SourcePlatform, SourceRefType};

// -- GitHub commit (patch) ---------------------------------------------------

#[test]
fn source_url_test_parse_github_commit_patch() {
    let info =
        parse_source_url("https://github.com/owner/repo/commit/abc123def456.patch").unwrap();
    assert_eq!(info.platform, SourcePlatform::GitHub);
    assert_eq!(info.domain, "github.com");
    assert_eq!(info.project, "owner/repo");
    assert_eq!(info.current_ref(), "abc123def456");
    assert_eq!(info.git_remote_url(), "https://github.com/owner/repo");
    assert_eq!(
        info.replace_ref("newsha789"),
        "https://github.com/owner/repo/commit/newsha789.patch"
    );
}

#[test]
fn source_url_test_parse_github_commit_diff() {
    let info = parse_source_url("https://github.com/owner/repo/commit/abc123.diff").unwrap();
    assert_eq!(info.current_ref(), "abc123");
    assert_eq!(
        info.replace_ref("newsha"),
        "https://github.com/owner/repo/commit/newsha.diff"
    );
}

#[test]
fn source_url_test_parse_github_commit_full_sha() {
    let sha = "0f14e030b3a9391e761c03ce3c260730a78a4db6";
    let url = format!("https://github.com/owner/repo/commit/{}.patch", sha);
    let info = parse_source_url(&url).unwrap();
    assert_eq!(info.current_ref(), sha);
}

#[test]
fn source_url_test_parse_github_commit_tag_as_ref() {
    let info = parse_source_url("https://github.com/owner/repo/commit/v1.0.0.patch").unwrap();
    assert_eq!(info.current_ref(), "v1.0.0");
}

// -- GitHub compare (patch) -------------------------------------------------

#[test]
fn source_url_test_parse_github_compare_patch() {
    let info = parse_source_url("https://github.com/owner/repo/compare/v1.0.0...v2.0.0.patch")
        .unwrap();
    assert_eq!(info.platform, SourcePlatform::GitHub);
    assert_eq!(info.project, "owner/repo");
    match &info.ref_type {
        SourceRefType::Compare { base, head, suffix } => {
            assert_eq!(base, "v1.0.0");
            assert_eq!(head, "v2.0.0");
            assert_eq!(suffix, ".patch");
        }
        other => panic!("expected Compare, got {:?}", other),
    }
    assert_eq!(info.current_ref(), "v2.0.0");
    assert_eq!(
        info.replace_ref("v3.0.0"),
        "https://github.com/owner/repo/compare/v1.0.0...v3.0.0.patch"
    );
}

#[test]
fn source_url_test_parse_github_compare_diff() {
    let info =
        parse_source_url("https://github.com/owner/repo/compare/v1.0.0...v2.0.0.diff").unwrap();
    assert_eq!(info.current_ref(), "v2.0.0");
    assert_eq!(
        info.replace_ref("v3.0.0"),
        "https://github.com/owner/repo/compare/v1.0.0...v3.0.0.diff"
    );
}

#[test]
fn source_url_test_parse_github_commit_with_query() {
    let info =
        parse_source_url("https://github.com/owner/repo/commit/abc123.patch?full_index=1")
            .unwrap();
    assert_eq!(info.current_ref(), "abc123");
    assert_eq!(info.query, "?full_index=1");
    assert_eq!(
        info.replace_ref("newsha"),
        "https://github.com/owner/repo/commit/newsha.patch?full_index=1"
    );
}

#[test]
fn source_url_test_parse_github_compare_with_query() {
    let info =
        parse_source_url("https://github.com/owner/repo/compare/v1.0.0...v2.0.0.patch?w=1")
            .unwrap();
    assert_eq!(info.query, "?w=1");
    assert_eq!(
        info.replace_ref("v3.0.0"),
        "https://github.com/owner/repo/compare/v1.0.0...v3.0.0.patch?w=1"
    );
}

#[test]
fn source_url_test_parse_github_commit_with_fragment() {
    let info =
        parse_source_url("https://github.com/owner/repo/commit/abc123.patch#diff").unwrap();
    assert_eq!(info.current_ref(), "abc123");
    assert_eq!(info.query, "");
}

#[test]
fn source_url_test_parse_github_commit_with_query_and_fragment() {
    let info =
        parse_source_url("https://github.com/owner/repo/commit/abc123.patch?full_index=1#diff")
            .unwrap();
    assert_eq!(info.current_ref(), "abc123");
    assert_eq!(info.query, "?full_index=1");
}

// -- GitHub archive (tarball) -----------------------------------------------

#[test]
fn test_parse_github_archive_tarball() {
    let info = parse_source_url("https://github.com/owner/repo/archive/v1.0.0.tar.gz").unwrap();
    assert_eq!(info.platform, SourcePlatform::GitHub);
    assert_eq!(info.project, "owner/repo");
    match &info.ref_type {
        SourceRefType::Archive { tag_ref, suffix } => {
            assert_eq!(tag_ref, "v1.0.0");
            assert_eq!(suffix, ".tar.gz");
        }
        other => panic!("expected Archive, got {:?}", other),
    }
    assert_eq!(info.current_ref(), "v1.0.0");
    assert!(info.is_version_ref());
    assert_eq!(
        info.replace_ref("v2.0.0"),
        "https://github.com/owner/repo/archive/v2.0.0.tar.gz"
    );
}

#[test]
fn test_parse_github_archive_refs_tags() {
    let info =
        parse_source_url("https://github.com/owner/repo/archive/refs/tags/v1.0.0.tar.gz")
            .unwrap();
    assert_eq!(info.platform, SourcePlatform::GitHub);
    match &info.ref_type {
        SourceRefType::Archive { tag_ref, suffix } => {
            assert_eq!(tag_ref, "v1.0.0");
            assert_eq!(suffix, ".tar.gz");
        }
        other => panic!("expected Archive, got {:?}", other),
    }
    // Replace should produce the shorter form without refs/tags
    assert_eq!(
        info.replace_ref("v2.0.0"),
        "https://github.com/owner/repo/archive/v2.0.0.tar.gz"
    );
}

#[test]
fn test_parse_github_archive_zip() {
    let info = parse_source_url("https://github.com/owner/repo/archive/v1.0.0.zip").unwrap();
    match &info.ref_type {
        SourceRefType::Archive { tag_ref, suffix } => {
            assert_eq!(tag_ref, "v1.0.0");
            assert_eq!(suffix, ".zip");
        }
        other => panic!("expected Archive, got {:?}", other),
    }
    assert_eq!(
        info.replace_ref("v2.0.0"),
        "https://github.com/owner/repo/archive/v2.0.0.zip"
    );
}

// -- GitLab commit (patch) ---------------------------------------------------

#[test]
fn source_url_test_parse_gitlab_commit_patch() {
    let info = parse_source_url("https://gitlab.com/owner/repo/-/commit/abc123.patch").unwrap();
    assert_eq!(info.platform, SourcePlatform::GitLab);
    assert_eq!(info.domain, "gitlab.com");
    assert_eq!(info.project, "owner/repo");
    assert_eq!(info.current_ref(), "abc123");
    assert_eq!(info.git_remote_url(), "https://gitlab.com/owner/repo");
}

#[test]
fn source_url_test_parse_gitlab_compare_patch() {
    let info = parse_source_url("https://gitlab.com/owner/repo/-/compare/v1.0.0...v2.0.0.diff")
        .unwrap();
    assert_eq!(info.current_ref(), "v2.0.0");
    assert_eq!(
        info.replace_ref("v3.0.0"),
        "https://gitlab.com/owner/repo/-/compare/v1.0.0...v3.0.0.diff"
    );
}

#[test]
fn source_url_test_parse_gitlab_custom_domain() {
    let info =
        parse_source_url("https://gitlab.example.com/group/project/-/commit/abc123.patch")
            .unwrap();
    assert_eq!(info.platform, SourcePlatform::GitLab);
    assert_eq!(info.domain, "gitlab.example.com");
    assert_eq!(info.project, "group/project");
}

#[test]
fn source_url_test_parse_gitlab_nested_group() {
    let info =
        parse_source_url("https://gitlab.com/group/subgroup/project/-/commit/abc123.patch")
            .unwrap();
    assert_eq!(info.project, "group/subgroup/project");
    assert_eq!(
        info.git_remote_url(),
        "https://gitlab.com/group/subgroup/project"
    );
}

#[test]
fn source_url_test_parse_gitlab_compare_custom_domain() {
    let info =
        parse_source_url("https://gitlab.corp.com/team/lib/-/compare/v1.0.0...v2.0.0.patch")
            .unwrap();
    assert_eq!(info.current_ref(), "v2.0.0");
    assert_eq!(
        info.replace_ref("v3.0.0"),
        "https://gitlab.corp.com/team/lib/-/compare/v1.0.0...v3.0.0.patch"
    );
}

// -- GitLab archive (tarball) -----------------------------------------------

#[test]
fn test_parse_gitlab_archive_tarball() {
    let info =
        parse_source_url("https://gitlab.com/owner/repo/-/archive/v1.0.0/repo-v1.0.0.tar.gz")
            .unwrap();
    assert_eq!(info.platform, SourcePlatform::GitLab);
    assert_eq!(info.project, "owner/repo");
    match &info.ref_type {
        SourceRefType::Archive { tag_ref, suffix } => {
            assert_eq!(tag_ref, "v1.0.0");
            assert_eq!(suffix, ".tar.gz");
        }
        other => panic!("expected Archive, got {:?}", other),
    }
    assert_eq!(info.current_ref(), "v1.0.0");
    assert_eq!(
        info.replace_ref("v2.0.0"),
        "https://gitlab.com/owner/repo/-/archive/v2.0.0/repo-v2.0.0.tar.gz"
    );
}

#[test]
fn test_parse_gitlab_archive_zip() {
    let info =
        parse_source_url("https://gitlab.com/owner/repo/-/archive/v1.0.0/repo-v1.0.0.zip")
            .unwrap();
    match &info.ref_type {
        SourceRefType::Archive { tag_ref, suffix } => {
            assert_eq!(tag_ref, "v1.0.0");
            assert_eq!(suffix, ".zip");
        }
        other => panic!("expected Archive, got {:?}", other),
    }
}

#[test]
fn test_parse_gitlab_archive_nested_group() {
    let info = parse_source_url(
        "https://gitlab.com/group/subgroup/proj/-/archive/v1.0.0/proj-v1.0.0.tar.gz",
    )
    .unwrap();
    assert_eq!(info.project, "group/subgroup/proj");
    assert_eq!(info.repo_name, Some("proj".to_string()));
    assert_eq!(
        info.replace_ref("v2.0.0"),
        "https://gitlab.com/group/subgroup/proj/-/archive/v2.0.0/proj-v2.0.0.tar.gz"
    );
}

// -- Codeberg / Gitea / Forgejo (patch) --------------------------------------

#[test]
fn source_url_test_parse_codeberg_commit_patch() {
    let info = parse_source_url("https://codeberg.org/owner/repo/commit/abc123.patch").unwrap();
    assert_eq!(info.platform, SourcePlatform::Gitea);
    assert_eq!(info.domain, "codeberg.org");
    assert_eq!(info.project, "owner/repo");
    assert_eq!(info.git_remote_url(), "https://codeberg.org/owner/repo");
}

#[test]
fn source_url_test_parse_gitea_commit_patch() {
    let info =
        parse_source_url("https://gitea.example.com/owner/repo/commit/abc123.patch").unwrap();
    assert_eq!(info.platform, SourcePlatform::Gitea);
    assert_eq!(info.domain, "gitea.example.com");
    assert_eq!(
        info.git_remote_url(),
        "https://gitea.example.com/owner/repo"
    );
}

#[test]
fn source_url_test_parse_gitea_compare_patch() {
    let info =
        parse_source_url("https://gitea.example.com/owner/repo/compare/v1.0.0...v2.0.0.patch")
            .unwrap();
    assert_eq!(info.current_ref(), "v2.0.0");
}

#[test]
fn source_url_test_parse_forgejo_compare_diff() {
    let info =
        parse_source_url("https://forgejo.dev/org/proj/compare/v0.1...v0.2.diff").unwrap();
    assert_eq!(info.current_ref(), "v0.2");
}

// -- Gitea/Codeberg archive (tarball) ---------------------------------------

#[test]
fn test_parse_gitea_archive_tarball() {
    let info =
        parse_source_url("https://gitea.example.com/owner/repo/archive/v1.0.0.tar.gz").unwrap();
    assert_eq!(info.platform, SourcePlatform::Gitea);
    assert_eq!(info.project, "owner/repo");
    match &info.ref_type {
        SourceRefType::Archive { tag_ref, suffix } => {
            assert_eq!(tag_ref, "v1.0.0");
            assert_eq!(suffix, ".tar.gz");
        }
        other => panic!("expected Archive, got {:?}", other),
    }
    assert_eq!(
        info.replace_ref("v2.0.0"),
        "https://gitea.example.com/owner/repo/archive/v2.0.0.tar.gz"
    );
}

#[test]
fn test_parse_codeberg_archive_tarball() {
    let info =
        parse_source_url("https://codeberg.org/owner/repo/archive/v1.0.0.tar.gz").unwrap();
    assert_eq!(info.platform, SourcePlatform::Gitea);
    assert_eq!(
        info.replace_ref("v2.0.0"),
        "https://codeberg.org/owner/repo/archive/v2.0.0.tar.gz"
    );
}

// -- SourceHut (patch) -------------------------------------------------------

#[test]
fn source_url_test_parse_sourcehut_commit_patch() {
    let info = parse_source_url("https://git.sr.ht/~owner/repo/commit/abc123.patch").unwrap();
    assert_eq!(info.platform, SourcePlatform::SourceHut);
    assert_eq!(info.domain, "git.sr.ht");
    assert_eq!(info.project, "~owner/repo");
    assert_eq!(info.current_ref(), "abc123");
    assert_eq!(info.git_remote_url(), "https://git.sr.ht/~owner/repo");
    assert_eq!(
        info.replace_ref("newsha"),
        "https://git.sr.ht/~owner/repo/commit/newsha.patch"
    );
}

#[test]
fn source_url_test_parse_sourcehut_commit_mbox() {
    let info = parse_source_url("https://git.sr.ht/~owner/repo/commit/abc123.mbox").unwrap();
    assert_eq!(info.current_ref(), "abc123");
    assert_eq!(
        info.replace_ref("newsha"),
        "https://git.sr.ht/~owner/repo/commit/newsha.mbox"
    );
}

#[test]
fn source_url_test_parse_sourcehut_custom_domain() {
    let info =
        parse_source_url("https://git.custom.sr.ht/~owner/repo/commit/abc123.patch").unwrap();
    assert_eq!(info.domain, "git.custom.sr.ht");
    assert_eq!(info.project, "~owner/repo");
}

// -- SourceHut archive (tarball) ---------------------------------------------

#[test]
fn test_parse_sourcehut_archive_tarball() {
    let info = parse_source_url("https://git.sr.ht/~owner/repo/archive/v1.0.0.tar.gz").unwrap();
    assert_eq!(info.platform, SourcePlatform::SourceHut);
    assert_eq!(info.project, "~owner/repo");
    match &info.ref_type {
        SourceRefType::Archive { tag_ref, suffix } => {
            assert_eq!(tag_ref, "v1.0.0");
            assert_eq!(suffix, ".tar.gz");
        }
        other => panic!("expected Archive, got {:?}", other),
    }
    assert_eq!(
        info.replace_ref("v2.0.0"),
        "https://git.sr.ht/~owner/repo/archive/v2.0.0.tar.gz"
    );
}

// -- Bitbucket (patch) ------------------------------------------------------

#[test]
fn source_url_test_parse_bitbucket_commit() {
    let info = parse_source_url("https://bitbucket.org/owner/repo/commits/abc123").unwrap();
    assert_eq!(info.platform, SourcePlatform::Bitbucket);
    assert_eq!(info.domain, "bitbucket.org");
    assert_eq!(info.project, "owner/repo");
    assert_eq!(info.current_ref(), "abc123");
    assert_eq!(info.git_remote_url(), "https://bitbucket.org/owner/repo");
    assert_eq!(
        info.replace_ref("newsha"),
        "https://bitbucket.org/owner/repo/commits/newsha"
    );
}

#[test]
fn source_url_test_parse_bitbucket_commit_full_sha() {
    let sha = "0f14e030b3a9391e761c03ce3c260730a78a4db6";
    let url = format!("https://bitbucket.org/owner/repo/commits/{}", sha);
    let info = parse_source_url(&url).unwrap();
    assert_eq!(info.current_ref(), sha);
}

// -- Bitbucket archive (tarball) ---------------------------------------------

#[test]
fn test_parse_bitbucket_archive_tarball() {
    let info = parse_source_url("https://bitbucket.org/owner/repo/get/v1.0.0.tar.gz").unwrap();
    assert_eq!(info.platform, SourcePlatform::Bitbucket);
    assert_eq!(info.project, "owner/repo");
    match &info.ref_type {
        SourceRefType::Archive { tag_ref, suffix } => {
            assert_eq!(tag_ref, "v1.0.0");
            assert_eq!(suffix, ".tar.gz");
        }
        other => panic!("expected Archive, got {:?}", other),
    }
    assert_eq!(
        info.replace_ref("v2.0.0"),
        "https://bitbucket.org/owner/repo/get/v2.0.0.tar.gz"
    );
}

#[test]
fn test_parse_bitbucket_archive_refs_tags() {
    let info = parse_source_url("https://bitbucket.org/owner/repo/get/refs/tags/v1.0.0.tar.gz")
        .unwrap();
    match &info.ref_type {
        SourceRefType::Archive { tag_ref, suffix } => {
            assert_eq!(tag_ref, "v1.0.0");
            assert_eq!(suffix, ".tar.gz");
        }
        other => panic!("expected Archive, got {:?}", other),
    }
    // Replace should produce the shorter form without refs/tags
    assert_eq!(
        info.replace_ref("v2.0.0"),
        "https://bitbucket.org/owner/repo/get/v2.0.0.tar.gz"
    );
}

// -- Edge cases --------------------------------------------------------------

#[test]
fn source_url_test_parse_unknown_url_returns_none() {
    assert_eq!(parse_source_url("https://example.com/some/path"), None);
}

#[test]
fn test_parse_http_url() {
    let result = parse_source_url("http://github.com/owner/repo/commit/abc123.patch").unwrap();
    assert_eq!(result.domain, "github.com");
    assert_eq!(result.project, "owner/repo");
}

#[test]
fn source_url_test_parse_compare_no_ellipsis_returns_none() {
    assert_eq!(
        parse_source_url("https://github.com/owner/repo/compare/v1.0.0.patch"),
        None
    );
}

#[test]
fn source_url_test_parse_empty_url_returns_none() {
    assert_eq!(parse_source_url(""), None);
}

#[test]
fn source_url_test_parse_no_domain_path_returns_none() {
    assert_eq!(parse_source_url("https://github.com"), None);
}

#[test]
fn source_url_test_parse_wrong_extension_returns_none() {
    assert_eq!(
        parse_source_url("https://github.com/owner/repo/commit/abc123.txt"),
        None
    );
}

#[test]
fn source_url_test_parse_github_no_extension() {
    let info = parse_source_url("https://github.com/owner/repo/commit/abc123").unwrap();
    assert_eq!(info.current_ref(), "abc123");
    assert_eq!(
        info.replace_ref("newsha"),
        "https://github.com/owner/repo/commit/newsha"
    );
}

#[test]
fn source_url_test_is_version_ref() {
    let info = parse_source_url("https://github.com/owner/repo/compare/v1.0.0...v2.0.0.patch")
        .unwrap();
    assert!(info.is_version_ref());
}

#[test]
fn source_url_test_parse_github_compare_with_sha_head() {
    let info =
        parse_source_url("https://github.com/owner/repo/compare/v1.0.0...abc123def456.patch")
            .unwrap();
    // head is a SHA, not a version
    assert!(!info.is_version_ref());
}

#[test]
fn test_archive_version_ref() {
    let info = parse_source_url("https://github.com/owner/repo/archive/v1.0.0.tar.gz").unwrap();
    assert!(info.is_version_ref());
}

#[test]
fn test_archive_sha_ref_not_version() {
    let info =
        parse_source_url("https://github.com/owner/repo/archive/abc123def456.tar.gz").unwrap();
    assert!(!info.is_version_ref());
}

// -- Backward-compatible alias -----------------------------------------------

#[test]
fn test_parse_patch_url_alias() {
    let info = parse_patch_url("https://github.com/owner/repo/commit/abc123.patch").unwrap();
    assert_eq!(info.platform, SourcePlatform::GitHub);
    assert_eq!(info.current_ref(), "abc123");
}

#[test]
fn gitiles_archive_url_is_recognised() {
    let p = parse_source_url("https://android.googlesource.com/platform/manifest/+archive/v1.0.0.tar.gz").unwrap();
    assert_eq!(p.current_ref(), "v1.0.0");
    assert!(matches!(&p.ref_type, SourceRefType::Archive { tag_ref, suffix } if tag_ref == "v1.0.0" && suffix == ".tar.gz"));
    assert_eq!(
        p.replace_ref("v2.0.0"),
        "https://android.googlesource.com/platform/manifest/+archive/v2.0.0.tar.gz"
    );
}

#[test]
fn snapshot_archive_url_is_recognised() {
    let p = parse_source_url("https://repo.or.cz/proj.git/snapshot/v1.2.zip?x=1").unwrap();
    assert_eq!(p.current_ref(), "v1.2");
    assert_eq!(p.project, "proj.git");
    assert_eq!(p.replace_ref("v1.3"), "https://repo.or.cz/proj.git/snapshot/v1.3.zip?x=1");
}

#[test]
fn replaced_ref_parses_back_to_the_same_url() {
    let cases = [
        "https://github.com/owner/repo/archive/v1.0.0.tar.gz",
        "https://github.com/owner/repo/commit/abc123.patch?full_index=1",
        "https://github.com/owner/repo/compare/v1.0...v1.1.diff",
        "https://gitlab.com/group/project/-/archive/v1.0/project-v1.0.tar.gz",
        "https://gitlab.com/group/sub/project/-/commit/abc123.patch",
        "https://gitlab.com/group/project/-/compare/v1.0...v1.1.patch",
        "https://bitbucket.org/owner/repo/get/v1.0.tar.gz",
        "https://bitbucket.org/owner/repo/commits/abc123",
        "https://git.sr.ht/~user/repo/archive/v1.0.tar.gz",
        "https://codeberg.org/owner/repo/commit/abc123",
        "https://android.googlesource.com/platform/manifest/+archive/v1.0.0.tar.gz",
        "https://repo.or.cz/project.git/snapshot/v1.0.tar.gz",
    ];
    for url in cases {
        let before = parse_source_url(url).unwrap();
        let rebuilt = before.replace_ref("new-ref_2");
        let after = parse_source_url(&rebuilt).unwrap();
        assert_eq!(after.current_ref(), "new-ref_2");
        assert_eq!(after.platform, before.platform);
        assert_eq!(after.domain, before.domain);
        assert_eq!(after.project, before.project);
        assert_eq!(after.repo_name, before.repo_name);
        assert_eq!(after.query, before.query);
        let suffix = |t: &SourceRefType| match t {
            SourceRefType::Commit { suffix, .. } => suffix.clone(),
            SourceRefType::Compare { suffix, .. } => suffix.clone(),
            SourceRefType::Archive { suffix, .. } => suffix.clone(),
        };
        assert_eq!(suffix(&after.ref_type), suffix(&before.ref_type));
    }
}
