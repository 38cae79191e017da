use std::collections::HashSet;

use nix_update_git::forge::{find_by_fn_name, flake_forges, forges, tag_or_rev, ForgeId};
use nix_update_git::parser::ParsedAttrs;

#[test]
fn test_forge_ids_are_unique() {
    let all = forges();
    let ids: HashSet<&str> = all.iter().map(|f| f.id()).collect();
    assert_eq!(ids.len(), all.len(), "duplicate Forge::id() in FORGES");
}

#[test]
fn test_forge_fn_names_are_unique() {
    let all = forges();
    let names: HashSet<&str> = all.iter().map(|f| f.nixpkgs_fn_name()).collect();
    assert_eq!(
        names.len(),
        all.len(),
        "duplicate Forge::nixpkgs_fn_name() in FORGES"
    );
}

#[test]
fn test_flake_forge_schemes_are_unique() {
    let all = flake_forges();
    let schemes: HashSet<&str> = all.iter().map(|f| f.flake_scheme().unwrap()).collect();
    assert_eq!(
        schemes.len(),
        all.len(),
        "duplicate FlakeForge::flake_scheme() in FLAKE_FORGES"
    );
}

#[test]
fn test_tag_or_rev_uses_bare_rev_without_tag_key() {
    let parsed = ParsedAttrs::empty();
    assert_eq!(tag_or_rev(&parsed, "v1.0.0"), "v1.0.0");
}

#[test]
fn test_tag_or_rev_uses_refs_tags_path_with_tag_key() {
    let mut parsed = ParsedAttrs::empty();
    parsed
        .strings
        .insert("tag".to_string(), "v1.0.0".to_string());
    assert_eq!(tag_or_rev(&parsed, "v1.0.0"), "refs/tags/v1.0.0");
}

#[test]
fn find_by_fn_name_finds_each_forge_and_nothing_else() {
    for f in forges() {
        assert_eq!(find_by_fn_name(f.nixpkgs_fn_name()), Some(f));
    }
    assert_eq!(find_by_fn_name("fetchgit"), None);
    assert_eq!(find_by_fn_name("fetchFromGitHub"), Some(ForgeId::GitHub));
}
