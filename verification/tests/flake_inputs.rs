use nix_update_git::parser::NixFile;
use nix_update_git::rules::flake_input::FlakeInputRule;
use nix_update_git::utils::fetch::parse_ls_remote_output;

const FLAKE: &str = r#"{
  description = "demo";
  inputs = {
    nixpkgs.url = "github:NixOS/nixpkgs/v23.05";
    foo = {
      url = "git+https://example.com/foo";
      ref = "v1.0.0";
    };
    bar.url = "github:o/b";
    bar.ref = "1.0";
  };
  inputs.baz.url = "github:o/baz?ref=v0.1.0";
  outputs = { self, ... }: { };
}"#;

#[test]
fn test_collect_inputs_in_order() {
    let file = NixFile::parse(FLAKE).unwrap();
    let root = file.root_node();
    let set = FlakeInputRule::find_root_attr_set(&root).unwrap();
    let defs = FlakeInputRule::collect_inputs_from_root(&set);
    let names: Vec<&str> = defs.iter().map(|d| d.name.as_str()).collect();
    assert_eq!(names, vec!["nixpkgs", "foo", "bar", "baz"]);
    assert_eq!(defs[1].ref_value.as_ref().unwrap().value, "v1.0.0");
    assert!(!defs[1].inline_ref);
    assert_eq!(defs[2].ref_value.as_ref().unwrap().value, "1.0");
    assert!(defs[3].inline_ref);
    assert_eq!(defs[3].ref_value.as_ref().unwrap().value, "v0.1.0");
}

#[test]
fn test_input_remote_and_update() {
    let file = NixFile::parse(FLAKE).unwrap();
    let root = file.root_node();
    let set = FlakeInputRule::find_root_attr_set(&root).unwrap();
    let defs = FlakeInputRule::collect_inputs_from_root(&set);
    assert_eq!(
        FlakeInputRule::input_remote(&defs[1]).as_deref(),
        Some("https://example.com/foo")
    );
    let tags = "aaaa\trefs/tags/v1.0.0\nbbbb\trefs/tags/v1.1.0\ncccc\trefs/tags/v0.2.0\n";
    let refs: Vec<Result<Vec<_>, String>> = defs
        .iter()
        .map(|_| Ok(parse_ls_remote_output(tags)))
        .collect();
    let result = FlakeInputRule::check_inputs(&defs, &refs);
    let ups: Vec<_> = result.groups.iter().map(|g| &g.updates[0]).collect();
    assert_eq!(ups.len(), 2);
    assert_eq!(ups[0].field, "inputs.foo.ref");
    assert_eq!(ups[0].replacement, "\"v1.1.0\"");
    assert_eq!(ups[0].target.as_deref(), Some("https://example.com/foo"));
    assert_eq!(ups[1].field, "inputs.baz.url");
    assert_eq!(ups[1].replacement, "\"github:o/baz?ref=v1.1.0\"");
}

#[test]
fn test_root_rule_matches_only_root() {
    let file = NixFile::parse(FLAKE).unwrap();
    let root = file.root_node();
    assert!(FlakeInputRule.matches(&root));
    let set = FlakeInputRule::find_root_attr_set(&root).unwrap();
    assert!(!FlakeInputRule.matches(&set));
}
