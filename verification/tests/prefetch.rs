use nix_update_git::utils::prefetch::{parse_prefetch_json, CommandOutput, GitPrefetchArgs, NixPrefetcher};

#[test]
fn test_parse_prefetch_json() {
    let json = r#"{"url": "https://example.com", "rev": "abc123", "sha256": "0abc", "hash": "sha256-xyz"}"#;
    let result = parse_prefetch_json(json).unwrap();
    assert_eq!(result.sha256_nix, "0abc");
    assert_eq!(result.sri_hash, "sha256-xyz");
    assert_eq!(result.rev, "abc123");
}

#[test]
fn test_parse_prefetch_json_with_escaped_quotes() {
    let json = r#"{"url": "https://example.com/repo", "rev": "abc123", "sha256": "0abc", "hash": "sha256-xyz"}"#;
    let result = parse_prefetch_json(json).unwrap();
    assert_eq!(result.sha256_nix, "0abc");
    assert_eq!(result.sri_hash, "sha256-xyz");
}

#[test]
fn test_parse_prefetch_json_missing_fields() {
    let json = r#"{"url": "https://example.com"}"#;
    let result = parse_prefetch_json(json);
    assert!(result.is_err());
}

#[test]
fn test_parse_prefetch_json_invalid_json() {
    let result = parse_prefetch_json("not json");
    assert!(result.is_err());
}

#[test]
fn parse_prefetch_json_error_texts() {
    assert_eq!(parse_prefetch_json("not json").unwrap_err(), "Failed to parse nix-prefetch-git JSON output");
    assert_eq!(
        parse_prefetch_json(r#"{"rev": "abc"}"#).unwrap_err(),
        "nix-prefetch-git output missing sha256 and hash fields"
    );
}

#[test]
fn prefetch_git_args_follow_the_options() {
    let a = GitPrefetchArgs {
        fetch_submodules: true,
        deep_clone: true,
        branch_name: Some("main".to_string()),
        sparse_checkout: vec!["src".to_string(), "doc".to_string()],
        ..Default::default()
    };
    assert_eq!(
        NixPrefetcher::prefetch_git_args("https://x/r", "v1", &a),
        vec![
            "--url", "https://x/r", "--rev", "v1", "--quiet", "--no-add-path", "--fetch-submodules", "--deepClone",
            "--branch-name", "main", "--sparse-checkout", "src", "--sparse-checkout", "doc",
        ]
    );
}

#[test]
fn prefetch_git_failure_reports_both_outputs() {
    let a = GitPrefetchArgs { fetch_submodules: true, ..Default::default() };
    let out = CommandOutput::Finished { success: false, stdout: b" partial \n".to_vec(), stderr: b"boom\n".to_vec() };
    assert_eq!(
        NixPrefetcher::prefetch_git("https://x/r", "v1", &a, &out).unwrap_err(),
        "nix-prefetch-git (with submodules)  failed for https://x/r @ v1: boom\npartial"
    );
    let none = CommandOutput::NotStarted("not found".to_string());
    assert_eq!(
        NixPrefetcher::prefetch_git("https://x/r", "v1", &GitPrefetchArgs::default(), &none).unwrap_err(),
        "Failed to execute nix-prefetch-git  for https://x/r @ v1"
    );
}

#[test]
fn prefetch_git_reads_the_json_it_printed() {
    let out = CommandOutput::Finished {
        success: true,
        stdout: br#"{"rev": "r1", "sha256": "0h", "hash": "sha256-h"}"#.to_vec(),
        stderr: vec![],
    };
    let r = NixPrefetcher::prefetch_git("u", "v", &GitPrefetchArgs::default(), &out).unwrap();
    assert_eq!((r.rev.as_str(), r.sha256_nix.as_str(), r.sri_hash.as_str()), ("r1", "0h", "sha256-h"));
}

#[test]
fn prefetch_archive_trims_the_hash() {
    let out = CommandOutput::Finished { success: true, stdout: b"0abc\n".to_vec(), stderr: vec![] };
    assert_eq!(NixPrefetcher::prefetch_archive("https://x/a.tar.gz", &out).unwrap(), "0abc");
    let bad = CommandOutput::Finished { success: false, stdout: vec![], stderr: b"404".to_vec() };
    assert_eq!(
        NixPrefetcher::prefetch_archive("https://x/a.tar.gz", &bad).unwrap_err(),
        "nix-prefetch-url --unpack failed: 404"
    );
    assert_eq!(NixPrefetcher::prefetch_archive_args("u"), vec!["--unpack", "u"]);
}
