use nix_update_git::parser::{NixFile, NixKind, NixNode};
use nix_update_git::rules::fetcher::extract::{is_src_of_owned_call, try_extract_call};
use nix_update_git::rules::fetcher::FetcherRule;

fn find_fetcher_apply<'a>(root: &NixNode<'a>, name: &str) -> Option<NixNode<'a>> {
    root.traverse().into_iter().find(|node| {
        node.kind() == NixKind::Apply && node.apply_function_name().as_deref() == Some(name)
    })
}

    #[test]
    fn test_is_src_of_mk_derivation_returns_true() {
        let content = r#"
stdenv.mkDerivation rec {
  name = "foo-${version}";
  version = "v1.0.0";
  src = fetchgit {
    url = "https://example.com/repo";
    rev = "0000000000000000000000000000000000000000";
    sha256 = "0nmyp5yrzl9dbq85wyiimsj9fklb8637a1936nw7zzvlnzkgh28n";
  };
}
"#;
        let file = NixFile::parse(content).unwrap();
        let root = file.root_node();
        let fetcher_node = find_fetcher_apply(&root, "fetchgit").unwrap();
        assert!(is_src_of_owned_call(&fetcher_node));
    }

    #[test]
    fn test_standalone_fetcher_returns_false() {
        let content = r#"
{
  src = fetchgit {
    url = "https://example.com/repo";
    rev = "v1.0.0";
    hash = "sha256-AAA=";
  };
}
"#;
        let file = NixFile::parse(content).unwrap();
        let root = file.root_node();
        let fetcher_node = find_fetcher_apply(&root, "fetchgit").unwrap();
        assert!(!is_src_of_owned_call(&fetcher_node));
    }

    #[test]
    fn test_pkgs_dot_stdenv_dot_mk_derivation_returns_true() {
        let content = r#"
pkgs.stdenv.mkDerivation rec {
  name = "foo-${version}";
  version = "v1.0.0";
  src = fetchgit {
    url = "https://example.com/repo";
    rev = "0000000000000000000000000000000000000000";
    sha256 = "0nmyp5yrzl9dbq85wyiimsj9fklb8637a1936nw7zzvlnzkgh28n";
  };
}
"#;
        let file = NixFile::parse(content).unwrap();
        let root = file.root_node();
        let fetcher_node = find_fetcher_apply(&root, "fetchgit").unwrap();
        assert!(is_src_of_owned_call(&fetcher_node));
    }

    #[test]
    fn test_fetcher_non_src_attr_returns_false() {
        let content = r#"
stdenv.mkDerivation rec {
  name = "foo-${version}";
  version = "v1.0.0";
  patches = fetchgit {
    url = "https://example.com/repo";
    rev = "v1.0.0";
    hash = "sha256-AAA=";
  };
}
"#;
        let file = NixFile::parse(content).unwrap();
        let root = file.root_node();
        let fetcher_node = find_fetcher_apply(&root, "fetchgit").unwrap();
        assert!(!is_src_of_owned_call(&fetcher_node));
    }

    #[test]
    fn test_fetcher_in_non_mk_derivation_returns_false() {
        let content = r#"
someOtherFunc rec {
  name = "foo-${version}";
  version = "v1.0.0";
  src = fetchgit {
    url = "https://example.com/repo";
    rev = "v1.0.0";
    hash = "sha256-AAA=";
  };
}
"#;
        let file = NixFile::parse(content).unwrap();
        let root = file.root_node();
        let fetcher_node = find_fetcher_apply(&root, "fetchgit").unwrap();
        assert!(!is_src_of_owned_call(&fetcher_node));
    }

    #[test]
    fn test_is_src_of_build_rust_package_returns_true() {
        let content = r#"
rustPlatform.buildRustPackage rec {
  pname = "foo";
  version = "1.0.0";
  src = fetchgit {
    url = "https://example.com/repo";
    rev = "0000000000000000000000000000000000000000";
    sha256 = "0nmyp5yrzl9dbq85wyiimsj9fklb8637a1936nw7zzvlnzkgh28n";
  };
  cargoHash = "";
}
"#;
        let file = NixFile::parse(content).unwrap();
        let root = file.root_node();
        let fetcher_node = find_fetcher_apply(&root, "fetchgit").unwrap();
        assert!(is_src_of_owned_call(&fetcher_node));
    }

    #[test]
    fn test_is_src_of_lambda_wrapped_mk_derivation_returns_true() {
        let content = r#"
stdenv.mkDerivation (finalAttrs: {
  version = "v1.0.0";
  src = fetchgit {
    url = "https://example.com/repo";
    rev = "0000000000000000000000000000000000000000";
    sha256 = "0nmyp5yrzl9dbq85wyiimsj9fklb8637a1936nw7zzvlnzkgh28n";
  };
})
"#;
        let file = NixFile::parse(content).unwrap();
        let root = file.root_node();
        let fetcher_node = find_fetcher_apply(&root, "fetchgit").unwrap();
        assert!(is_src_of_owned_call(&fetcher_node));
    }

    #[test]
    fn test_fetcher_skips_interpolated_operational_key() {
        let content = r#"
{
  src = fetchgit {
    url = "https://example.com/${name}";
    rev = "v1.0.0";
    hash = "sha256-AAA=";
  };
}
"#;
        let file = NixFile::parse(content).unwrap();
        let root = file.root_node();
        let fetcher_node = find_fetcher_apply(&root, "fetchgit").unwrap();
        assert!(try_extract_call(&fetcher_node).is_none());
    }

    #[test]
    fn test_fetcher_allows_unknown_interpolated_key() {
        let content = r#"
{
  src = fetchgit {
    url = "https://example.com/repo";
    rev = "v1.0.0";
    hash = "sha256-AAA=";
    name = "foo-${version}";
  };
}
"#;
        let file = NixFile::parse(content).unwrap();
        let root = file.root_node();
        let fetcher_node = find_fetcher_apply(&root, "fetchgit").unwrap();
        let call = try_extract_call(&fetcher_node);
        assert!(call.is_some());
        assert_eq!(
            call.unwrap().parsed.strings.get("rev"),
            Some(&"v1.0.0".to_string())
        );
    }

    #[test]
    fn test_matches_excludes_src_in_mk_derivation() {
        let content = r#"
stdenv.mkDerivation rec {
  name = "foo-${version}";
  version = "v1.0.0";
  src = fetchgit {
    url = "https://example.com/repo";
    rev = "0000000000000000000000000000000000000000";
    sha256 = "0nmyp5yrzl9dbq85wyiimsj9fklb8637a1936nw7zzvlnzkgh28n";
  };
}
"#;
        let file = NixFile::parse(content).unwrap();
        let root = file.root_node();
        let fetcher_node = find_fetcher_apply(&root, "fetchgit").unwrap();
        let rule = FetcherRule;
        assert!(!rule.matches(&fetcher_node));
    }

    #[test]
    fn test_matches_allows_standalone_fetcher() {
        let content = r#"
{
  src = fetchgit {
    url = "https://example.com/repo";
    rev = "v1.0.0";
    hash = "sha256-AAA=";
  };
}
"#;
        let file = NixFile::parse(content).unwrap();
        let root = file.root_node();
        let fetcher_node = find_fetcher_apply(&root, "fetchgit").unwrap();
        let rule = FetcherRule;
        assert!(rule.matches(&fetcher_node));
    }

    #[test]
    fn test_matches_allows_patches_in_mk_derivation() {
        let content = r#"
stdenv.mkDerivation rec {
  name = "foo-${version}";
  version = "v1.0.0";
  patches = fetchgit {
    url = "https://example.com/repo";
    rev = "v1.0.0";
    hash = "sha256-AAA=";
  };
}
"#;
        let file = NixFile::parse(content).unwrap();
        let root = file.root_node();
        let fetcher_node = find_fetcher_apply(&root, "fetchgit").unwrap();
        let rule = FetcherRule;
        assert!(rule.matches(&fetcher_node));
    }

    #[test]
    fn test_matches_excludes_src_in_lambda_wrapped_mk_derivation() {
        let content = r#"
stdenv.mkDerivation (finalAttrs: {
  version = "v1.0.0";
  src = fetchgit {
    url = "https://example.com/repo";
    rev = "0000000000000000000000000000000000000000";
    sha256 = "0nmyp5yrzl9dbq85wyiimsj9fklb8637a1936nw7zzvlnzkgh28n";
  };
})
"#;
        let file = NixFile::parse(content).unwrap();
        let root = file.root_node();
        let fetcher_node = find_fetcher_apply(&root, "fetchgit").unwrap();
        let rule = FetcherRule;
        assert!(!rule.matches(&fetcher_node));
    }
