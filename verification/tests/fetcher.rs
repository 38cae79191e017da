use nix_update_git::parser::ParsedAttrs;
use nix_update_git::rules::fetcher::kind::FetcherKind;
use nix_update_git::rules::fetcher::{
    is_commit_hash, preferred_ref_key, resolve_ref_for_prefetch, version_ref_key_and_value, FetcherRule,
};

#[test]
fn test_resolve_ref_for_prefetch_keeps_symbolic_ref() {
    let result = resolve_ref_for_prefetch("https://example.com/repo", "v1.2.3");
    assert_eq!(result.as_deref(), Some("v1.2.3"));
}

#[test]
fn test_resolve_ref_for_prefetch_keeps_commit_hash() {
    let rev = "4f56fd184ef6020626492a6f954a486d54f8b7ba";
    let result = resolve_ref_for_prefetch("https://example.com/repo", rev);
    assert_eq!(result.as_deref(), Some(rev));
}

#[test]
fn test_is_commit_hash() {
    assert!(FetcherRule::is_commit_hash(
        "abc123def456abc123def456abc123def456abc1"
    ));
    assert!(!FetcherRule::is_commit_hash("v1.0.0"));
    assert!(!FetcherRule::is_commit_hash("main"));
    assert!(!FetcherRule::is_commit_hash("short"));
}

#[test]
fn core_test_is_commit_hash_valid() {
    assert!(is_commit_hash("4f56fd184ef6020626492a6f954a486d54f8b7ba"));
    assert!(is_commit_hash("0000000000000000000000000000000000000000"));
}

#[test]
fn core_test_is_commit_hash_invalid() {
    assert!(!is_commit_hash("v1.0.0"));
    assert!(!is_commit_hash("main"));
    assert!(!is_commit_hash("short"));
    assert!(!is_commit_hash("4f56fd184ef6020626492a6f954a486d54f8b7ba0"));
    assert!(!is_commit_hash("4f56fd184ef6020626492a6f954a486d54f8b7b"));
}

#[test]
fn mk_derivation_test_is_commit_hash_valid() {
    assert!(is_commit_hash("4f56fd184ef6020626492a6f954a486d54f8b7ba"));
    assert!(is_commit_hash("0000000000000000000000000000000000000000"));
}

#[test]
fn mk_derivation_test_is_commit_hash_invalid() {
    assert!(!is_commit_hash("v1.0.0"));
    assert!(!is_commit_hash("main"));
    assert!(!is_commit_hash("short"));
    assert!(!is_commit_hash("4f56fd184ef6020626492a6f954a486d54f8b7ba0"));
    assert!(!is_commit_hash("4f56fd184ef6020626492a6f954a486d54f8b7b"));
}

#[test]
fn commit_hash_accepts_upper_case_hex_and_rejects_other_letters() {
    assert!(is_commit_hash("4F56FD184EF6020626492A6F954A486D54F8B7BA"));
    assert!(!is_commit_hash("4f56fd184ef6020626492a6f954a486d54f8b7bg"));
}

#[test]
fn resolve_ref_for_prefetch_rejects_empty_ref() {
    assert_eq!(resolve_ref_for_prefetch("https://example.com/repo", ""), None);
}

fn attrs(pairs: &[(&str, &str)]) -> ParsedAttrs {
    let mut p = ParsedAttrs::empty();
    for (k, v) in pairs {
        p.strings.insert(k.to_string(), v.to_string());
    }
    p
}

#[test]
fn version_ref_prefers_tag() {
    let p = attrs(&[("rev", "v1.0.0"), ("tag", "v2.0.0")]);
    assert_eq!(
        version_ref_key_and_value(FetcherKind::FetchGit, &p),
        Some(("tag", "v2.0.0".to_string()))
    );
}

#[test]
fn version_ref_takes_versioned_rev_only() {
    let p = attrs(&[("rev", "v1.0.0")]);
    assert_eq!(
        version_ref_key_and_value(FetcherKind::FetchGit, &p),
        Some(("rev", "v1.0.0".to_string()))
    );
    let p = attrs(&[("rev", "4f56fd184ef6020626492a6f954a486d54f8b7ba")]);
    assert_eq!(version_ref_key_and_value(FetcherKind::FetchGit, &p), None);
    let p = attrs(&[("rev", "main")]);
    assert_eq!(version_ref_key_and_value(FetcherKind::FetchGit, &p), None);
}

#[test]
fn version_ref_reads_ref_for_builtins_fetch_git_only() {
    let p = attrs(&[("ref", "v1.2")]);
    assert_eq!(
        version_ref_key_and_value(FetcherKind::BuiltinsFetchGit, &p),
        Some(("ref", "v1.2".to_string()))
    );
    assert_eq!(version_ref_key_and_value(FetcherKind::FetchGit, &p), None);
}

#[test]
fn preferred_ref_key_order() {
    assert_eq!(preferred_ref_key(&attrs(&[("ref", "a"), ("rev", "b")])), Some("rev"));
    assert_eq!(preferred_ref_key(&attrs(&[("ref", "a"), ("tag", "b")])), Some("tag"));
    assert_eq!(preferred_ref_key(&attrs(&[("ref", "a")])), Some("ref"));
    assert_eq!(preferred_ref_key(&attrs(&[("url", "a")])), None);
}
