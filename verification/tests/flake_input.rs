use nix_update_git::rules::flake_input::{FlakeInputRule, FlakeUrl};

#[test]
fn test_parse_github_url() {
    let result = FlakeInputRule::parse_flake_url("github:NixOS/nixpkgs").unwrap();
    assert!(matches!(result.flake_url, FlakeUrl::GitHub { .. }));
    if let FlakeUrl::GitHub { owner, repo } = result.flake_url {
        assert_eq!(owner, "NixOS");
        assert_eq!(repo, "nixpkgs");
    }
    assert!(result.inline_ref.is_none());
}

#[test]
fn test_parse_gitlab_url() {
    let result = FlakeInputRule::parse_flake_url("gitlab:foo/bar").unwrap();
    assert!(matches!(result.flake_url, FlakeUrl::GitLab { .. }));
    assert!(result.inline_ref.is_none());
}

#[test]
fn test_parse_sourcehut_url() {
    let result = FlakeInputRule::parse_flake_url("sourcehut:~user/repo").unwrap();
    assert!(matches!(result.flake_url, FlakeUrl::SourceHut { .. }));
    assert!(result.inline_ref.is_none());
}

#[test]
fn test_parse_git_https_url() {
    let result = FlakeInputRule::parse_flake_url("git+https://example.com/repo.git").unwrap();
    assert!(matches!(result.flake_url, FlakeUrl::GitRemote { .. }));
    assert!(result.inline_ref.is_none());
}

#[test]
fn test_parse_git_ssh_url() {
    let result = FlakeInputRule::parse_flake_url("git+ssh://git@example.com/repo.git").unwrap();
    assert!(matches!(result.flake_url, FlakeUrl::GitRemote { .. }));
}

#[test]
fn test_parse_git_file_url() {
    let result = FlakeInputRule::parse_flake_url("git+file:///path/to/repo").unwrap();
    assert!(matches!(result.flake_url, FlakeUrl::GitLocal { .. }));
}

#[test]
fn test_parse_git_url_strips_query_params() {
    let result =
        FlakeInputRule::parse_flake_url("git+https://example.com/repo.git?ref=v1.0").unwrap();
    if let FlakeUrl::GitRemote { url } = result.flake_url {
        assert_eq!(url, "https://example.com/repo.git");
    } else {
        panic!("Expected GitRemote");
    }
    assert_eq!(result.inline_ref.as_deref(), Some("v1.0"));
}

#[test]
fn test_parse_github_url_with_ref() {
    let result =
        FlakeInputRule::parse_flake_url("github:gmodena/nix-flatpak/?ref=v0.6.0").unwrap();
    if let FlakeUrl::GitHub { owner, repo } = result.flake_url {
        assert_eq!(owner, "gmodena");
        assert_eq!(repo, "nix-flatpak");
    } else {
        panic!("Expected GitHub");
    }
    assert_eq!(result.inline_ref.as_deref(), Some("v0.6.0"));
}

#[test]
fn test_parse_gitlab_url_with_ref() {
    let result = FlakeInputRule::parse_flake_url("gitlab:foo/bar?ref=v1.0.0").unwrap();
    if let FlakeUrl::GitLab { owner, repo } = result.flake_url {
        assert_eq!(owner, "foo");
        assert_eq!(repo, "bar");
    } else {
        panic!("Expected GitLab");
    }
    assert_eq!(result.inline_ref.as_deref(), Some("v1.0.0"));
}

#[test]
fn test_parse_sourcehut_url_with_ref() {
    let result = FlakeInputRule::parse_flake_url("sourcehut:~user/repo?ref=v2.0").unwrap();
    if let FlakeUrl::SourceHut { owner, repo } = result.flake_url {
        assert_eq!(owner, "~user");
        assert_eq!(repo, "repo");
    } else {
        panic!("Expected SourceHut");
    }
    assert_eq!(result.inline_ref.as_deref(), Some("v2.0"));
}

#[test]
fn test_gitlocal_to_remote_url() {
    let result = FlakeInputRule::parse_flake_url("git+file:///tmp/repo");
    assert!(result.is_some());
    if let Some(parsed) = result {
        assert!(parsed.flake_url.to_remote_url().is_some());
    }
}

#[test]
fn test_reconstruct_github_url() {
    let new_url =
        FlakeInputRule::reconstruct_url("github:gmodena/nix-flatpak/?ref=v0.6.0", "v0.7.0");
    assert_eq!(
        new_url,
        Some("github:gmodena/nix-flatpak?ref=v0.7.0".to_string())
    );
}

#[test]
fn test_reconstruct_github_url_without_ref() {
    let new_url = FlakeInputRule::reconstruct_url("github:NixOS/nixpkgs", "v2.0.0");
    assert_eq!(new_url, Some("github:NixOS/nixpkgs?ref=v2.0.0".to_string()));
}

#[test]
fn test_reconstruct_git_https_url() {
    let new_url =
        FlakeInputRule::reconstruct_url("git+https://example.com/repo.git?ref=v1.0", "v2.0");
    assert_eq!(
        new_url,
        Some("git+https://example.com/repo.git?ref=v2.0".to_string())
    );
}

#[test]
fn test_parse_plain_url_returns_none() {
    assert!(FlakeInputRule::parse_flake_url("https://example.com/repo").is_none());
}

#[test]
fn test_parse_github_url_trailing_slash() {
    let result = FlakeInputRule::parse_flake_url("github:owner/repo/").unwrap();
    if let FlakeUrl::GitHub { owner, repo } = result.flake_url {
        assert_eq!(owner, "owner");
        assert_eq!(repo, "repo/");
    } else {
        panic!("Expected GitHub");
    }
    assert_eq!(result.inline_ref, None);
}

#[test]
fn test_parse_git_https_without_ref() {
    let result = FlakeInputRule::parse_flake_url("git+https://example.com/repo.git").unwrap();
    if let FlakeUrl::GitRemote { url } = result.flake_url {
        assert_eq!(url, "https://example.com/repo.git");
    } else {
        panic!("Expected GitRemote");
    }
    assert_eq!(result.inline_ref, None);
}

#[test]
fn test_parse_url_with_multiple_query_params() {
    let result =
        FlakeInputRule::parse_flake_url("github:owner/repo?ref=v1&rev=abc123&submodules=true")
            .unwrap();
    if let FlakeUrl::GitHub { owner, repo } = result.flake_url {
        assert_eq!(owner, "owner");
        assert_eq!(repo, "repo");
    } else {
        panic!("Expected GitHub");
    }
    assert_eq!(result.inline_ref.as_deref(), Some("v1"));
}

#[test]
fn test_reconstruct_url_round_trip() {
    let test_cases = vec![
        "github:owner/repo?ref=v1.0",
        "gitlab:foo/bar?ref=main",
        "sourcehut:~user/repo?ref=dev",
        "git+https://example.com/repo.git?ref=master",
        "git+ssh://git@example.com/repo.git?ref=main",
    ];

    for url in test_cases {
        let parsed = FlakeInputRule::parse_flake_url(url).unwrap();
        let ref_value = parsed.inline_ref.as_deref().unwrap_or("new-ref");
        let reconstructed = FlakeInputRule::reconstruct_url(url, ref_value).unwrap();
        let _reparsed = FlakeInputRule::parse_flake_url(&reconstructed).unwrap();
    }
}

#[test]
fn reconstructed_urls_reparse_with_the_new_ref() {
    let cases = [
        "github:owner/repo?ref=v1.0",
        "gitlab:foo/bar",
        "sourcehut:~user/repo?ref=dev",
        "git+https://example.com/repo.git?ref=master",
        "git+ssh://git@example.com/repo.git?ref=main",
        "git+http://example.com/repo.git",
        "git+file:///tmp/repo?ref=v1",
        "  github:owner/repo/?rev=abc&ref=v2  ",
    ];
    for url in cases {
        let rebuilt = FlakeInputRule::reconstruct_url(url, "v9.9.9").unwrap();
        let reparsed = FlakeInputRule::parse_flake_url(&rebuilt).unwrap();
        assert_eq!(reparsed.inline_ref.as_deref(), Some("v9.9.9"));
    }
}

#[test]
fn reconstruct_keeps_the_scheme_of_git_urls() {
    assert_eq!(
        FlakeInputRule::reconstruct_url("git+ssh://git@example.com/r.git?ref=a", "b"),
        Some("git+ssh://git@example.com/r.git?ref=b".to_string())
    );
    assert_eq!(
        FlakeInputRule::reconstruct_url("git+http://example.com/r", "b"),
        Some("git+http://example.com/r?ref=b".to_string())
    );
    assert_eq!(
        FlakeInputRule::reconstruct_url("git+file:///srv/r?ref=a", "b"),
        Some("git+file:///srv/r?ref=b".to_string())
    );
    assert_eq!(FlakeInputRule::reconstruct_url("path:/srv/r", "b"), None);
}

#[test]
fn slash_only_repository_does_not_survive_a_rebuild() {
    let rebuilt = FlakeInputRule::reconstruct_url("github:owner/", "v1").unwrap();
    assert_eq!(rebuilt, "github:owner/?ref=v1");
    assert!(FlakeInputRule::parse_flake_url(&rebuilt).is_none());
}

#[test]
fn remote_urls_and_short_names() {
    let gh = FlakeInputRule::parse_flake_url("github:NixOS/nixpkgs").unwrap();
    assert_eq!(gh.flake_url.to_remote_url().as_deref(), Some("https://github.com/NixOS/nixpkgs"));
    assert_eq!(gh.flake_url.display_short(), "NixOS/nixpkgs");
    let gl = FlakeInputRule::parse_flake_url("gitlab:foo/bar").unwrap();
    assert_eq!(gl.flake_url.to_remote_url().as_deref(), Some("https://gitlab.com/foo/bar"));
    let sh = FlakeInputRule::parse_flake_url("sourcehut:user/repo").unwrap();
    assert_eq!(sh.flake_url.to_remote_url().as_deref(), Some("https://sr.ht/~user/repo"));
    let local = FlakeInputRule::parse_flake_url("git+file:///tmp/repo").unwrap();
    assert_eq!(local.flake_url.to_remote_url().as_deref(), Some("/tmp/repo"));
    assert_eq!(local.flake_url.display_short(), "/tmp/repo");
}

#[test]
fn extract_ref_takes_the_first_ref_parameter() {
    assert_eq!(
        FlakeInputRule::extract_ref_from_url("o/r//?a=1&ref=x&ref=y", true),
        ("o/r".to_string(), Some("x".to_string()))
    );
    assert_eq!(
        FlakeInputRule::extract_ref_from_url("o/r/?a=1", false),
        ("o/r/".to_string(), None)
    );
    assert_eq!(
        FlakeInputRule::extract_ref_from_url("o/r/", true),
        ("o/r/".to_string(), None)
    );
}

#[test]
fn rebuilt_urls_keep_the_repository_and_rebuild_to_themselves() {
    let cases = [
        "github:owner/repo?ref=v1.0",
        "gitlab:foo/bar",
        "sourcehut:~user/repo?ref=dev",
        "git+https://example.com/repo.git?ref=master",
        "git+ssh://git@example.com/repo.git?ref=main",
        "git+file:///tmp/repo?ref=v1",
    ];
    for url in cases {
        let before = FlakeInputRule::parse_flake_url(url).unwrap();
        let rebuilt = FlakeInputRule::reconstruct_url(url, "v9.9.9").unwrap();
        let after = FlakeInputRule::parse_flake_url(&rebuilt).unwrap();
        assert_eq!(format!("{:?}", after.flake_url), format!("{:?}", before.flake_url));
        assert_eq!(after.inline_ref.as_deref(), Some("v9.9.9"));
        assert_eq!(FlakeInputRule::reconstruct_url(&rebuilt, "v9.9.9"), Some(rebuilt.clone()));
    }
}

#[test]
fn repeated_scheme_is_not_rebuilt_exactly() {
    let rebuilt = FlakeInputRule::reconstruct_url("git+https://https://host/repo", "v1").unwrap();
    assert_eq!(rebuilt, "git+https://host/repo?ref=v1");
}
