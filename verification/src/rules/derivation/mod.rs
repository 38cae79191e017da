//! Rules for package builders (`mkDerivation`, `buildRustPackage`, ...):
//! which builder functions each rule owns.
use vstd::prelude::*;

pub mod extract;
pub mod resolve;
pub mod rule;

pub use rule::DerivationRule;

verus! {

/// The builder functions whose `src` a derivation rule owns.
pub open spec fn owned_func_names() -> Seq<Seq<char>> {
    seq![
        "mkDerivation"@, "buildRustPackage"@, "buildGoModule"@, "buildGoPackage"@,
        "buildPythonPackage"@, "buildPythonApplication"@, "buildDunePackage"@,
        "buildNpmPackage"@, "buildMixPackage"@, "buildRebar3Release"@, "buildGem"@,
        "buildHaskellPackage"@, "mkHaskellPackage"@, "buildEmscriptenPackage"@,
    ]
}

/// The builder functions whose `src` a derivation rule owns.
pub fn owned_func_name_list() -> (r: Vec<&'static str>)
    ensures
        r@.map_values(|s: &str| s@) == owned_func_names(),
{
    let r = vec![
        "mkDerivation", "buildRustPackage", "buildGoModule", "buildGoPackage",
        "buildPythonPackage", "buildPythonApplication", "buildDunePackage",
        "buildNpmPackage", "buildMixPackage", "buildRebar3Release", "buildGem",
        "buildHaskellPackage", "mkHaskellPackage", "buildEmscriptenPackage",
    ];
    assert(r@.map_values(|s: &str| s@) =~= owned_func_names());
    r
}

fn rule1(name: &str, f: &str) -> (r: DerivationRule)
    ensures
        r.rule_name@ == name@,
        r.func_names@.len() == 1,
        r.func_names@[0]@ == f@,
{
    DerivationRule::new(name, vec![String::from_str(f)])
}

fn rule2(name: &str, f: &str, g: &str) -> (r: DerivationRule)
    ensures
        r.rule_name@ == name@,
        r.func_names@.len() == 2,
        r.func_names@[0]@ == f@,
        r.func_names@[1]@ == g@,
{
    DerivationRule::new(name, vec![String::from_str(f), String::from_str(g)])
}

/// The `mk-derivation` rule as a type of its own.
#[derive(Debug, Default, Clone, Copy)]
pub struct MkDerivationRule;

impl MkDerivationRule {
    /// The rule's name.
    pub fn name(&self) -> (r: &'static str)
        ensures
            r@ == "mk-derivation"@,
    {
        "mk-derivation"
    }

    /// The derivation rule it is: the one owning `mkDerivation`.
    pub fn rule(&self) -> (r: DerivationRule)
        ensures
            r.rule_name@ == "mk-derivation"@,
            r.func_names@.len() == 1,
            r.func_names@[0]@ == "mkDerivation"@,
    {
        mk_derivation_rule()
    }
}

/// The `mk-derivation` rule: `mkDerivation`.
pub fn mk_derivation_rule() -> (r: DerivationRule)
    ensures
        r.rule_name@ == "mk-derivation"@,
        r.func_names@.len() == 1,
        r.func_names@[0]@ == "mkDerivation"@,
{
    rule1("mk-derivation", "mkDerivation")
}

/// The `build-vim-plugin` rule: `buildVimPlugin`.
pub fn build_vim_plugin_rule() -> (r: DerivationRule)
    ensures
        r.rule_name@ == "build-vim-plugin"@,
        r.func_names@.len() == 1,
        r.func_names@[0]@ == "buildVimPlugin"@,
{
    rule1("build-vim-plugin", "buildVimPlugin")
}

/// The `build-rust-package` rule: `buildRustPackage`.
pub fn build_rust_package_rule() -> (r: DerivationRule)
    ensures
        r.rule_name@ == "build-rust-package"@,
        r.func_names@.len() == 1,
        r.func_names@[0]@ == "buildRustPackage"@,
{
    rule1("build-rust-package", "buildRustPackage")
}

/// The `build-go-module` rule: `buildGoModule`, `buildGoPackage`.
pub fn build_go_module_rule() -> (r: DerivationRule)
    ensures
        r.rule_name@ == "build-go-module"@,
        r.func_names@.len() == 2,
        r.func_names@[0]@ == "buildGoModule"@,
        r.func_names@[1]@ == "buildGoPackage"@,
{
    rule2("build-go-module", "buildGoModule", "buildGoPackage")
}

/// The `build-python-package` rule: `buildPythonPackage`, `buildPythonApplication`.
pub fn build_python_package_rule() -> (r: DerivationRule)
    ensures
        r.rule_name@ == "build-python-package"@,
        r.func_names@.len() == 2,
        r.func_names@[0]@ == "buildPythonPackage"@,
        r.func_names@[1]@ == "buildPythonApplication"@,
{
    rule2("build-python-package", "buildPythonPackage", "buildPythonApplication")
}

/// The `build-dune-package` rule: `buildDunePackage`.
pub fn build_dune_package_rule() -> (r: DerivationRule)
    ensures
        r.rule_name@ == "build-dune-package"@,
        r.func_names@.len() == 1,
        r.func_names@[0]@ == "buildDunePackage"@,
{
    rule1("build-dune-package", "buildDunePackage")
}

/// The `build-npm-package` rule: `buildNpmPackage`.
pub fn build_npm_package_rule() -> (r: DerivationRule)
    ensures
        r.rule_name@ == "build-npm-package"@,
        r.func_names@.len() == 1,
        r.func_names@[0]@ == "buildNpmPackage"@,
{
    rule1("build-npm-package", "buildNpmPackage")
}

/// The `build-mix-package` rule: `buildMixPackage`.
pub fn build_mix_package_rule() -> (r: DerivationRule)
    ensures
        r.rule_name@ == "build-mix-package"@,
        r.func_names@.len() == 1,
        r.func_names@[0]@ == "buildMixPackage"@,
{
    rule1("build-mix-package", "buildMixPackage")
}

/// The `build-rebar3-release` rule: `buildRebar3Release`.
pub fn build_rebar3_release_rule() -> (r: DerivationRule)
    ensures
        r.rule_name@ == "build-rebar3-release"@,
        r.func_names@.len() == 1,
        r.func_names@[0]@ == "buildRebar3Release"@,
{
    rule1("build-rebar3-release", "buildRebar3Release")
}

/// The `build-gem` rule: `buildGem`.
pub fn build_gem_rule() -> (r: DerivationRule)
    ensures
        r.rule_name@ == "build-gem"@,
        r.func_names@.len() == 1,
        r.func_names@[0]@ == "buildGem"@,
{
    rule1("build-gem", "buildGem")
}

/// The `build-haskell-package` rule: `buildHaskellPackage`, `mkHaskellPackage`.
pub fn build_haskell_package_rule() -> (r: DerivationRule)
    ensures
        r.rule_name@ == "build-haskell-package"@,
        r.func_names@.len() == 2,
        r.func_names@[0]@ == "buildHaskellPackage"@,
        r.func_names@[1]@ == "mkHaskellPackage"@,
{
    rule2("build-haskell-package", "buildHaskellPackage", "mkHaskellPackage")
}

/// The `build-emscripten-package` rule: `buildEmscriptenPackage`.
pub fn build_emscripten_package_rule() -> (r: DerivationRule)
    ensures
        r.rule_name@ == "build-emscripten-package"@,
        r.func_names@.len() == 1,
        r.func_names@[0]@ == "buildEmscriptenPackage"@,
{
    rule1("build-emscripten-package", "buildEmscriptenPackage")
}

} // verus!
