use std::collections::HashSet;

use nix_update_git::rules::{
    build_registry, default_rule_ids, rule_value_names, rules, selected_rules, MkDerivationRule, ALL_RULES_SENTINEL,
};

#[test]
fn test_rule_ids_are_unique() {
    let all = rules();
    let ids: HashSet<&str> = all.iter().map(|r| r.id).collect();
    assert_eq!(ids.len(), all.len(), "duplicate RuleDescriptor::id in RULES");
}

#[test]
fn test_build_registry_all_enables_every_rule() {
    let registry = build_registry(&vec![ALL_RULES_SENTINEL.to_string()]);
    assert_eq!(registry.len(), rules().len());
}

#[test]
fn test_build_registry_unknown_id_is_a_no_op() {
    let registry = build_registry(&vec!["not-a-real-rule".to_string()]);
    assert_eq!(registry.len(), 0);
}

#[test]
fn test_build_registry_selects_only_requested_rules() {
    let registry = build_registry(&vec!["flake".to_string()]);
    assert_eq!(registry.len(), 1);
}

#[test]
fn default_rules_are_the_first_four() {
    assert_eq!(
        default_rule_ids(),
        vec!["flake", "fetcher", "mk-derivation", "build-vim-plugin"]
    );
}

#[test]
fn rule_values_end_with_all() {
    let names = rule_value_names();
    assert_eq!(names.len(), rules().len() + 1);
    assert_eq!(names.last(), Some(&"all"));
    assert_eq!(names[0], "flake");
}

#[test]
fn selection_keeps_registration_order() {
    let selected = selected_rules(&vec!["build-gem".to_string(), "fetcher".to_string()]);
    let ids: Vec<&str> = selected.iter().map(|r| r.id).collect();
    assert_eq!(ids, vec!["fetcher", "build-gem"]);
}

#[test]
fn mk_derivation_rule_owns_mk_derivation() {
    let r = MkDerivationRule;
    assert_eq!(r.name(), "mk-derivation");
    let d = r.rule();
    assert_eq!(d.rule_name, "mk-derivation");
    assert_eq!(d.func_names, vec!["mkDerivation".to_string()]);
}
