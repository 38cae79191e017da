use nix_update_git::parser::{NixFile, NixKind};
use nix_update_git::rules::fetcher::interpolate::{parse_fetcher_attrset, InterpolationSpec};
use nix_update_git::rules::fetcher::kind::FetcherKind;
use nix_update_git::strmap::StrMap;

fn vars(pairs: &[(&str, &str)]) -> StrMap<String> {
    StrMap::from_pairs(pairs.iter().map(|(k, v)| (k.to_string(), v.to_string())).collect())
}

#[test]
fn test_interpolation_spec_vars_for_field_merge() {
    let mut spec = InterpolationSpec::none();
    spec.allow_all(vars(&[("pname", "foo")]));
    spec.allow("rev", vars(&[("version", "1.0")]));
    let rev_vars = spec.vars_for_field("rev").unwrap();
    assert_eq!(rev_vars.get("pname"), Some(&"foo".to_string()));
    assert_eq!(rev_vars.get("version"), Some(&"1.0".to_string()));
    let owner_vars = spec.vars_for_field("owner").unwrap();
    assert_eq!(owner_vars.get("pname"), Some(&"foo".to_string()));
    assert!(!owner_vars.contains_key("version"));
    let unknown_vars = spec.vars_for_field("name").unwrap();
    assert_eq!(unknown_vars.get("pname"), Some(&"foo".to_string()));
}

#[test]
fn test_interpolation_spec_vars_for_field_none() {
    let spec = InterpolationSpec::none();
    assert!(spec.vars_for_field("rev").is_none());
}

#[test]
fn test_interpolation_spec_vars_for_field_only_allow_all() {
    let mut spec = InterpolationSpec::none();
    spec.allow_all(vars(&[("pname", "foo")]));
    let vars = spec.vars_for_field("owner").unwrap();
    assert_eq!(vars.get("pname"), Some(&"foo".to_string()));
}

#[test]
fn test_interpolation_spec_vars_for_field_only_field_specific() {
    let mut spec = InterpolationSpec::none();
    spec.allow("rev", vars(&[("version", "1.0")]));
    let rev_vars = spec.vars_for_field("rev").unwrap();
    assert_eq!(rev_vars.get("version"), Some(&"1.0".to_string()));
    assert!(spec.vars_for_field("owner").is_none());
}

#[test]
fn field_bindings_win_over_catch_all_bindings() {
    let mut spec = InterpolationSpec::none();
    spec.allow_all(vars(&[("version", "0.9"), ("pname", "foo")]));
    spec.allow("rev", vars(&[("version", "1.0")]));
    let rev_vars = spec.vars_for_field("rev").unwrap();
    assert_eq!(rev_vars.get("version"), Some(&"1.0".to_string()));
    assert_eq!(rev_vars.get("pname"), Some(&"foo".to_string()));
}

    #[test]
    fn test_parse_fetcher_attrset_pure_strings() {
        let content = r#"{ url = "https://example.com"; rev = "v1.0"; fetchSubmodules = true; }"#;
        let file = NixFile::parse(content).unwrap();
        let root = file.root_node();
        let attr_set = root
            .traverse()
            .into_iter()
            .find(|n| n.kind() == NixKind::AttrSet)
            .unwrap();
        let attrs = parse_fetcher_attrset(
            FetcherKind::FetchGit,
            &attr_set,
            &InterpolationSpec::none(),
        )
        .unwrap();
        assert_eq!(
            attrs.parsed.strings.get("url"),
            Some(&"https://example.com".to_string())
        );
        assert_eq!(attrs.parsed.strings.get("rev"), Some(&"v1.0".to_string()));
        assert_eq!(attrs.parsed.bools.get("fetchSubmodules"), Some(&true));
        assert!(attrs.interpolated.is_empty());
        assert_eq!(
            attrs.interpolated_unresolved,
            [] as [std::string::String; 0]
        );
        assert!(attrs.parsed.has_string("url"));
        assert!(attrs.parsed.has_string("rev"));
    }

    #[test]
    fn test_parse_fetcher_attrset_interpolated_unresolved_with_no_spec() {
        let content = r#"{ url = "https://example.com/${name}"; rev = "v1.0"; }"#;
        let file = NixFile::parse(content).unwrap();
        let root = file.root_node();
        let attr_set = root
            .traverse()
            .into_iter()
            .find(|n| n.kind() == NixKind::AttrSet)
            .unwrap();
        let attrs = parse_fetcher_attrset(
            FetcherKind::FetchGit,
            &attr_set,
            &InterpolationSpec::none(),
        )
        .unwrap();
        assert!(!attrs.parsed.strings.contains_key("url"));
        assert_eq!(attrs.interpolated_unresolved, vec!["url"]);
        assert_eq!(attrs.parsed.strings.get("rev"), Some(&"v1.0".to_string()));
        assert!(attrs.interpolated.is_empty());
        assert!(attrs.parsed.has_string("url"));
    }

    #[test]
    fn test_parse_fetcher_attrset_interpolated_allowed_by_spec() {
        let content = r#"{ rev = "v${version}"; version = "1.0"; }"#;
        let file = NixFile::parse(content).unwrap();
        let root = file.root_node();
        let attr_set = root
            .traverse()
            .into_iter()
            .find(|n| n.kind() == NixKind::AttrSet)
            .unwrap();
        let mut spec = InterpolationSpec::none();
        spec.allow(
            "rev",
            vars(&[("version", "1.0")]),
        );
        let attrs =
            parse_fetcher_attrset(FetcherKind::FetchGit, &attr_set, &spec).unwrap();
        assert!(attrs.interpolated.contains_key("rev"));
        assert_eq!(
            attrs.interpolated_unresolved,
            [] as [std::string::String; 0]
        );
        assert!(!attrs.parsed.strings.contains_key("rev"));
        assert_eq!(
            attrs.parsed.strings.get("version"),
            Some(&"1.0".to_string())
        );
    }

    #[test]
    fn test_parse_fetcher_attrset_interpolated_not_matching_spec() {
        let content = r#"{ rev = "v${unknown}"; }"#;
        let file = NixFile::parse(content).unwrap();
        let root = file.root_node();
        let attr_set = root
            .traverse()
            .into_iter()
            .find(|n| n.kind() == NixKind::AttrSet)
            .unwrap();
        let mut spec = InterpolationSpec::none();
        spec.allow(
            "rev",
            vars(&[("version", "1.0")]),
        );
        let attrs =
            parse_fetcher_attrset(FetcherKind::FetchGit, &attr_set, &spec).unwrap();
        assert!(attrs.interpolated.is_empty());
        assert_eq!(attrs.interpolated_unresolved, vec!["rev"]);
    }

    #[test]
    fn test_parse_fetcher_attrset_dual_interpolation_vars() {
        let content = r#"{ rev = "v${version}"; owner = "test"; }"#;
        let file = NixFile::parse(content).unwrap();
        let root = file.root_node();
        let attr_set = root
            .traverse()
            .into_iter()
            .find(|n| n.kind() == NixKind::AttrSet)
            .unwrap();
        let mut spec = InterpolationSpec::none();
        spec.allow(
            "rev",
            vars(&[("version", "1.0"), ("finalAttrs.version", "1.0")]),
        );
        let attrs =
            parse_fetcher_attrset(FetcherKind::FetchGit, &attr_set, &spec).unwrap();
        assert!(attrs.interpolated.contains_key("rev"));
        assert_eq!(
            attrs.interpolated_unresolved,
            [] as [std::string::String; 0]
        );
        assert!(!attrs.parsed.strings.contains_key("rev"));
        assert_eq!(attrs.parsed.strings.get("owner"), Some(&"test".to_string()));
    }

    #[test]
    fn test_parse_fetcher_attrset_dual_interpolation_vars_dotted() {
        let content = r#"{ rev = "v${finalAttrs.version}"; owner = "test"; }"#;
        let file = NixFile::parse(content).unwrap();
        let root = file.root_node();
        let attr_set = root
            .traverse()
            .into_iter()
            .find(|n| n.kind() == NixKind::AttrSet)
            .unwrap();
        let mut spec = InterpolationSpec::none();
        spec.allow(
            "rev",
            vars(&[("version", "1.0"), ("finalAttrs.version", "1.0")]),
        );
        let attrs =
            parse_fetcher_attrset(FetcherKind::FetchGit, &attr_set, &spec).unwrap();
        assert!(attrs.interpolated.contains_key("rev"));
        assert_eq!(
            attrs.interpolated_unresolved,
            [] as [std::string::String; 0]
        );
        assert!(!attrs.parsed.strings.contains_key("rev"));
        assert_eq!(attrs.parsed.strings.get("owner"), Some(&"test".to_string()));
    }

    #[test]
    fn test_parse_fetcher_attrset_ident_resolution() {
        let content = r#"{ repo = pname; owner = "test-org"; rev = "v1.0.0"; }"#;
        let file = NixFile::parse(content).unwrap();
        let root = file.root_node();
        let attr_set = root
            .traverse()
            .into_iter()
            .find(|n| n.kind() == NixKind::AttrSet)
            .unwrap();
        let mut spec = InterpolationSpec::none();
        spec.allow_idents(vars(&[("pname", "my-pkg")]));
        let attrs = parse_fetcher_attrset(
            FetcherKind::from_name("fetchFromGitHub").unwrap(),
            &attr_set,
            &spec,
        )
        .unwrap();
        assert_eq!(
            attrs.parsed.strings.get("repo"),
            Some(&"my-pkg".to_string())
        );
        assert_eq!(
            attrs.parsed.strings.get("owner"),
            Some(&"test-org".to_string())
        );
        assert_eq!(attrs.parsed.strings.get("rev"), Some(&"v1.0.0".to_string()));
    }

    #[test]
    fn test_parse_fetcher_attrset_ident_not_in_idents_returns_error() {
        let content = r#"{ repo = pname; owner = "test-org"; }"#;
        let file = NixFile::parse(content).unwrap();
        let root = file.root_node();
        let attr_set = root
            .traverse()
            .into_iter()
            .find(|n| n.kind() == NixKind::AttrSet)
            .unwrap();
        let spec = InterpolationSpec::none();
        let result = parse_fetcher_attrset(
            FetcherKind::from_name("fetchFromGitHub").unwrap(),
            &attr_set,
            &spec,
        );
        assert!(result.is_err());
    }

    #[test]
    fn test_parse_fetcher_attrset_select_resolution() {
        let content = r#"{ rev = finalAttrs.version; owner = "test-org"; }"#;
        let file = NixFile::parse(content).unwrap();
        let root = file.root_node();
        let attr_set = root
            .traverse()
            .into_iter()
            .find(|n| n.kind() == NixKind::AttrSet)
            .unwrap();
        let mut spec = InterpolationSpec::none();
        spec.allow_idents(vars(&[("finalAttrs.version", "1.0.0")]));
        let attrs = parse_fetcher_attrset(
            FetcherKind::from_name("fetchFromGitHub").unwrap(),
            &attr_set,
            &spec,
        )
        .unwrap();
        assert_eq!(attrs.parsed.strings.get("rev"), Some(&"1.0.0".to_string()));
        assert_eq!(
            attrs.parsed.strings.get("owner"),
            Some(&"test-org".to_string())
        );
        assert_eq!(
            attrs.parsed.ident_resolved.get("rev"),
            Some(&"finalAttrs.version".to_string())
        );
    }

    #[test]
    fn test_parse_fetcher_attrset_allow_all_interpolation() {
        let content = r#"{ owner = "${pname}-org"; rev = "v1.0.0"; }"#;
        let file = NixFile::parse(content).unwrap();
        let root = file.root_node();
        let attr_set = root
            .traverse()
            .into_iter()
            .find(|n| n.kind() == NixKind::AttrSet)
            .unwrap();
        let mut spec = InterpolationSpec::none();
        spec.allow_all(vars(&[("pname", "foo")]));
        let attrs = parse_fetcher_attrset(
            FetcherKind::from_name("fetchFromGitHub").unwrap(),
            &attr_set,
            &spec,
        )
        .unwrap();
        assert!(attrs.interpolated.contains_key("owner"));
        assert!(!attrs.interpolated_unresolved.iter().any(|k| k == "owner"));
        assert_eq!(attrs.parsed.strings.get("rev"), Some(&"v1.0.0".to_string()));
    }

    #[test]
    fn test_parse_fetcher_attrset_allow_all_and_field_specific_merge() {
        let content = r#"{ rev = "${pname}-${version}"; owner = "${pname}-org"; }"#;
        let file = NixFile::parse(content).unwrap();
        let root = file.root_node();
        let attr_set = root
            .traverse()
            .into_iter()
            .find(|n| n.kind() == NixKind::AttrSet)
            .unwrap();
        let mut spec = InterpolationSpec::none();
        spec.allow_all(vars(&[("pname", "foo")]));
        spec.allow(
            "rev",
            vars(&[("version", "1.0")]),
        );
        let attrs = parse_fetcher_attrset(
            FetcherKind::from_name("fetchFromGitHub").unwrap(),
            &attr_set,
            &spec,
        )
        .unwrap();
        assert!(attrs.interpolated.contains_key("rev"));
        assert!(attrs.interpolated.contains_key("owner"));
        assert_eq!(
            attrs.interpolated_unresolved,
            [] as [std::string::String; 0]
        );
    }
