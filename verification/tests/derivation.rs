use nix_update_git::parser::{NixFile, NixKind, NixNode};
use nix_update_git::rules::derivation::extract::{try_extract_call, SourceRefValue};
use nix_update_git::rules::derivation::resolve::{
    check_derivation_call, derivation_hash_rev, extract_version_from_interpolated_ref,
};
use nix_update_git::rules::derivation::rule::derivation_refs_url;
use nix_update_git::rules::derivation::{build_rust_package_rule, mk_derivation_rule};
use nix_update_git::rules::traits::CheckWarning;
use nix_update_git::strmap::StrMap;
use nix_update_git::utils::fetch::parse_ls_remote_output;
use nix_update_git::utils::NarHash;

fn first_apply<'a>(root: &NixNode<'a>) -> NixNode<'a> {
    root.traverse()
        .into_iter()
        .find(|n| n.kind() == NixKind::Apply)
        .unwrap()
}

fn nar(sri: &str, nix32: &str) -> NarHash {
    NarHash { sri: sri.to_string(), nix32: nix32.to_string(), hex: String::new() }
}

const TAGS: &str = "2222222222222222222222222222222222222222\trefs/tags/v1.0.0\n\
3333333333333333333333333333333333333333\trefs/tags/v1.2.0\n";

const REC_INTERP: &str = r#"stdenv.mkDerivation rec {
  pname = "foo";
  version = "1.0.0";
  src = fetchFromGitHub {
    owner = "o";
    repo = pname;
    rev = "v${version}";
    hash = "sha256-old";
  };
}"#;

#[test]
fn test_extract_interpolated_rev() {
    let file = NixFile::parse(REC_INTERP).unwrap();
    let root = file.root_node();
    let rule = mk_derivation_rule();
    let call = try_extract_call(&rule.func_names, &first_apply(&root)).unwrap();
    assert_eq!(call.version_value, "1.0.0");
    assert_eq!(call.source_ref_key.as_deref(), Some("rev"));
    assert_eq!(call.fetcher_parsed.strings.get("repo"), Some(&"foo".to_string()));
    match &call.source_ref_value {
        SourceRefValue::InterpolatedFromVersion { version_var, .. } => assert_eq!(version_var, "version"),
        _ => panic!("expected an interpolated ref"),
    }
    assert!(!call.pinned);
}

#[test]
fn test_other_builder_is_not_extracted() {
    let file = NixFile::parse(REC_INTERP).unwrap();
    let root = file.root_node();
    let rule = build_rust_package_rule();
    assert!(try_extract_call(&rule.func_names, &first_apply(&root)).is_none());
}

#[test]
fn test_interpolated_rev_moves_version_and_rehashes() {
    let file = NixFile::parse(REC_INTERP).unwrap();
    let root = file.root_node();
    let call = try_extract_call(&mk_derivation_rule().func_names, &first_apply(&root)).unwrap();
    assert_eq!(derivation_refs_url(&call).as_deref(), Some("https://github.com/o/foo"));
    let refs = Ok(parse_ls_remote_output(TAGS));
    assert_eq!(derivation_hash_rev(&call, &refs).as_deref(), Some("v1.2.0"));
    let result = check_derivation_call("mk-derivation", &call, &refs, &Some(Ok(nar("sha256-new", "n"))));
    let ups = &result.groups[0].updates;
    assert_eq!(ups.len(), 2);
    assert_eq!(ups[0].field, "mk-derivation.version");
    assert_eq!(ups[0].replacement, "\"1.2.0\"");
    assert_eq!(ups[1].field, "fetchFromGitHub.hash");
    assert_eq!(ups[1].replacement, "\"sha256-new\"");
}

#[test]
fn test_pure_tag_equal_to_version_moves_both() {
    let src = r#"stdenv.mkDerivation {
  version = "v1.0.0";
  src = fetchgit {
    url = "https://example.com/repo";
    rev = "v1.0.0";
    hash = "sha256-old";
  };
}"#;
    let file = NixFile::parse(src).unwrap();
    let root = file.root_node();
    let call = try_extract_call(&mk_derivation_rule().func_names, &first_apply(&root)).unwrap();
    let refs = Ok(parse_ls_remote_output(TAGS));
    let result = check_derivation_call("mk-derivation", &call, &refs, &Some(Ok(nar("sha256-x", "n"))));
    let ups = &result.groups[0].updates;
    assert_eq!(ups[0].replacement, "\"v1.2.0\"");
    assert_eq!(ups[1].field, "fetchgit.rev");
    assert_eq!(ups[1].replacement, "\"v1.2.0\"");
    assert_eq!(ups[2].field, "fetchgit.hash");
}

#[test]
fn test_listing_failure_gives_only_a_warning() {
    let file = NixFile::parse(REC_INTERP).unwrap();
    let root = file.root_node();
    let call = try_extract_call(&mk_derivation_rule().func_names, &first_apply(&root)).unwrap();
    let result = check_derivation_call("mk-derivation", &call, &Err("offline".to_string()), &None);
    assert!(result.groups.is_empty());
    assert!(matches!(result.warnings[0], CheckWarning::FollowResolutionFailed { .. }));
}

#[test]
fn test_extract_version_from_interpolated_ref() {
    let file = NixFile::parse(r#"{ rev = "release-${version}-final"; }"#).unwrap();
    let root = file.root_node();
    let node = root
        .traverse()
        .into_iter()
        .find(|n| n.kind() == NixKind::String)
        .unwrap();
    let template = node.string_value().unwrap();
    let vars: StrMap<String> = StrMap::new();
    assert_eq!(
        extract_version_from_interpolated_ref(&template, "release-2.0-final", "version", &vars).as_deref(),
        Some("2.0")
    );
    assert!(extract_version_from_interpolated_ref(&template, "release--final", "version", &vars).is_none());
    assert!(extract_version_from_interpolated_ref(&template, "other-2.0", "version", &vars).is_none());
}
