use nix_update_git::parser::{NixFile, NixKind, NixNode};
use nix_update_git::rules::fetcher::dispatch::{
    check_fetcher_call, check_fetchpatch_call, check_fetchtarball_call, fetcher_hash_rev, fetcher_refs_url,
    patch_hash_url, patch_options, tarball_hash_url, url_refs_url,
};
use nix_update_git::rules::fetcher::extract::{try_extract_call, FetcherCall};
use nix_update_git::rules::fetcher::hashing::{dispatch_hash_strategy, git_prefetch_error, HashRequest};
use nix_update_git::rules::fetcher::FetcherRule;
use nix_update_git::rules::traits::CheckWarning;
use nix_update_git::utils::fetch::parse_ls_remote_output;
use nix_update_git::utils::NarHash;

fn first_apply<'a>(root: &NixNode<'a>) -> NixNode<'a> {
    root.traverse()
        .into_iter()
        .find(|n| n.kind() == NixKind::Apply)
        .unwrap()
}

fn call_of(content: &str) -> FetcherCall {
    let file = NixFile::parse(content).unwrap();
    let root = file.root_node();
    let node = first_apply(&root);
    try_extract_call(&node).unwrap()
}

fn nar(sri: &str, nix32: &str) -> NarHash {
    NarHash { sri: sri.to_string(), nix32: nix32.to_string(), hex: String::new() }
}

const TAGS: &str = "1111111111111111111111111111111111111111\trefs/heads/main\n\
2222222222222222222222222222222222222222\trefs/tags/v1.0.0\n\
3333333333333333333333333333333333333333\trefs/tags/v1.2.0\n";

const GITHUB_TAG: &str = r#"fetchFromGitHub {
  owner = "foo";
  repo = "bar";
  tag = "v1.0.0";
  hash = "sha256-old";
}"#;

#[test]
fn test_fetcher_call_moves_to_latest_tag_and_rehashes() {
    let call = call_of(GITHUB_TAG);
    assert_eq!(fetcher_refs_url(&call).as_deref(), Some("https://github.com/foo/bar"));
    let refs = Ok(parse_ls_remote_output(TAGS));
    assert_eq!(fetcher_hash_rev(&call, &refs).as_deref(), Some("v1.2.0"));
    let hash = Some(Ok(nar("sha256-new", "abc")));
    let result = check_fetcher_call(&call, &refs, &hash);
    assert_eq!(result.groups.len(), 1);
    let ups = &result.groups[0].updates;
    assert_eq!(ups.len(), 2);
    assert_eq!(ups[0].field, "fetchFromGitHub.tag");
    assert_eq!(ups[0].replacement, "\"v1.2.0\"");
    assert_eq!(ups[1].field, "fetchFromGitHub.hash");
    assert_eq!(ups[1].replacement, "\"sha256-new\"");
    assert!(result.warnings.is_empty());
}

#[test]
fn test_fetcher_call_hash_failure_drops_updates() {
    let call = call_of(GITHUB_TAG);
    let refs = Ok(parse_ls_remote_output(TAGS));
    let hash = Some(Err("download failed".to_string()));
    let result = check_fetcher_call(&call, &refs, &hash);
    assert!(result.groups.is_empty());
    assert_eq!(result.warnings.len(), 1);
    match &result.warnings[0] {
        CheckWarning::HashPrefetchFailed { url, rev, source } => {
            assert_eq!(url, "https://github.com/foo/bar");
            assert_eq!(rev, "v1.2.0");
            assert_eq!(source, "download failed");
        }
        other => panic!("unexpected {:?}", other),
    }
}

#[test]
fn test_fetcher_call_listing_failure_warns() {
    let call = call_of(GITHUB_TAG);
    let refs = Err("unreachable".to_string());
    let result = check_fetcher_call(&call, &refs, &None);
    assert!(result.groups.is_empty());
    assert!(matches!(result.warnings[0], CheckWarning::FollowResolutionFailed { .. }));
}

#[test]
fn test_pinned_fetcher_call_lists_nothing() {
    let call = call_of(
        r#"fetchFromGitHub {
  # pin
  owner = "foo";
  repo = "bar";
  tag = "v1.0.0";
  hash = "sha256-old";
}"#,
    );
    assert!(call.pinned);
    assert!(fetcher_refs_url(&call).is_none());
    let refs = Ok(parse_ls_remote_output(TAGS));
    let result = check_fetcher_call(&call, &refs, &None);
    assert!(result.groups.is_empty());
    assert!(result.warnings.is_empty());
}

#[test]
fn test_fetcher_call_follow_branch_moves_rev() {
    let call = call_of(
        r#"fetchgit {
  # follow: branch main
  url = "https://example.com/repo";
  rev = "0000000000000000000000000000000000000000";
  hash = "sha256-old";
}"#,
    );
    let refs = Ok(parse_ls_remote_output(TAGS));
    let result = check_fetcher_call(&call, &refs, &Some(Ok(nar("sha256-new", "n"))));
    let ups = &result.groups[0].updates;
    assert_eq!(ups[0].field, "fetchgit.rev");
    assert_eq!(ups[0].replacement, "\"1111111111111111111111111111111111111111\"");
}

#[test]
fn test_empty_hash_is_filled_at_current_rev() {
    let call = call_of(
        r#"fetchgit {
  url = "https://example.com/repo";
  rev = "4f56fd184ef6020626492a6f954a486d54f8b7ba";
  hash = "";
}"#,
    );
    assert!(fetcher_refs_url(&call).is_none());
    let refs = Ok(Vec::new());
    assert_eq!(
        fetcher_hash_rev(&call, &refs).as_deref(),
        Some("4f56fd184ef6020626492a6f954a486d54f8b7ba")
    );
    let result = check_fetcher_call(&call, &refs, &Some(Ok(nar("sha256-xyz", "n"))));
    assert_eq!(result.groups[0].updates[0].replacement, "\"sha256-xyz\"");
}

#[test]
fn test_dispatch_hash_strategy_tarball_for_plain_forge() {
    let call = call_of(GITHUB_TAG);
    match dispatch_hash_strategy(&call.kind, &call.parsed, "v1.2.0").unwrap() {
        HashRequest::Tarball(url) => {
            assert_eq!(url, "https://github.com/foo/bar/archive/v1.2.0.tar.gz")
        }
        other => panic!("unexpected {:?}", other),
    }
}

#[test]
fn test_dispatch_hash_strategy_git_for_fetchgit() {
    let call = call_of(
        r#"fetchgit {
  url = "https://example.com/repo";
  rev = "v1";
  hash = "";
  deepClone = true;
}"#,
    );
    match dispatch_hash_strategy(&call.kind, &call.parsed, "v2").unwrap() {
        HashRequest::Git(args) => {
            assert_eq!(args.url, "https://example.com/repo");
            assert_eq!(args.rev, "v2");
            assert!(args.deep_clone);
            assert!(args.fetch_submodules);
            assert_eq!(
                git_prefetch_error(&args, "boom"),
                "Failed to prefetch git repository https://example.com/repo @ v2 (with submodules): boom"
            );
        }
        other => panic!("unexpected {:?}", other),
    }
}

#[test]
fn test_builtins_fetch_git_needs_no_hash() {
    let call = call_of(
        r#"builtins.fetchGit {
  url = "https://example.com/repo";
  ref = "v1.0.0";
}"#,
    );
    assert_eq!(
        dispatch_hash_strategy(&call.kind, &call.parsed, "v1").unwrap_err(),
        "No hash needed for this fetcher"
    );
}

const PATCH: &str = r#"fetchpatch {
  url = "https://github.com/owner/repo/commit/0000000000000000000000000000000000000000.patch";
  hash = "sha256-old";
  stripLen = 1;
  excludes = [ "docs/*" ];
  hunks = [ 1 3 ];
  revert = true;
}"#;

#[test]
fn test_fetchpatch_follow_branch_rewrites_url_and_rehashes() {
    let call = call_of(&PATCH.replace("fetchpatch {", "fetchpatch {\n  # follow: branch main"));
    assert_eq!(url_refs_url(&call).as_deref(), Some("https://github.com/owner/repo"));
    let refs = Ok(parse_ls_remote_output(TAGS));
    let new_url = "https://github.com/owner/repo/commit/1111111111111111111111111111111111111111.patch";
    assert_eq!(patch_hash_url(&call, &refs).as_deref(), Some(new_url));
    let result = check_fetchpatch_call(&call, &refs, &Some(Ok(nar("sha256-p", "n"))));
    let ups = &result.groups[0].updates;
    assert_eq!(ups[0].field, "fetchpatch.url");
    assert_eq!(ups[0].replacement, format!("\"{}\"", new_url));
    assert_eq!(ups[1].field, "fetchpatch.hash");
}

#[test]
fn test_patch_options_from_attributes() {
    let call = call_of(PATCH);
    let o = patch_options(&call.parsed);
    assert_eq!(o.strip_len, 1);
    assert_eq!(o.excludes, vec!["docs/*".to_string()]);
    assert!(o.includes.is_empty());
    assert!(o.revert);
    assert!(o.relative.is_none());
}

#[test]
fn test_fetchtarball_version_url_moves() {
    let call = call_of(
        r#"fetchTarball {
  url = "https://github.com/foo/bar/archive/v1.0.0.tar.gz";
  sha256 = "old";
}"#,
    );
    let refs = Ok(parse_ls_remote_output(TAGS));
    assert_eq!(
        tarball_hash_url(&call, &refs).as_deref(),
        Some("https://github.com/foo/bar/archive/v1.2.0.tar.gz")
    );
    let result = check_fetchtarball_call(&call, &refs, &Some(Ok(nar("sha256-t", "nix32t"))));
    let ups = &result.groups[0].updates;
    assert_eq!(ups[0].field, "fetchTarball.url");
    assert_eq!(ups[1].field, "fetchTarball.sha256");
    assert_eq!(ups[1].replacement, "\"nix32t\"");
}

#[test]
fn test_check_call_sets_display_target() {
    let call = call_of(GITHUB_TAG);
    let refs = Ok(parse_ls_remote_output(TAGS));
    let result = FetcherRule.check_call(&call, &refs, &Some(Ok(nar("sha256-new", "abc"))));
    assert_eq!(result.groups[0].target.as_deref(), Some("github.com/foo/bar"));
}
