//! The update rules: which exist, which run by default, and which a
//! `--rules` selection enables.
use vstd::prelude::*;

use crate::text::{chars_of, eq_str, seq_eq_exec};

pub mod derivation;
pub mod fetcher;
pub mod flake_input;
pub mod traits;

pub use derivation::{
    build_dune_package_rule, build_emscripten_package_rule, build_gem_rule, build_go_module_rule,
    build_haskell_package_rule, build_mix_package_rule, build_npm_package_rule, build_python_package_rule,
    build_rebar3_release_rule, build_rust_package_rule, build_vim_plugin_rule, mk_derivation_rule, DerivationRule,
    MkDerivationRule,
};
pub use fetcher::FetcherRule;
pub use flake_input::FlakeInputRule;
pub use traits::{Update, UpdateGroup};

verus! {

/// A registered rule: the id the command line names it by, and whether it
/// runs by default.
#[derive(Debug, Clone, Copy)]
pub struct RuleDescriptor {
    pub id: &'static str,
    pub default_enabled: bool,
}

/// The registered rules, in order.
pub open spec fn rule_table() -> Seq<(Seq<char>, bool)> {
    seq![
        ("flake"@, true),
        ("fetcher"@, true),
        ("mk-derivation"@, true),
        ("build-vim-plugin"@, true),
        ("build-rust-package"@, false),
        ("build-go-module"@, false),
        ("build-python-package"@, false),
        ("build-dune-package"@, false),
        ("build-npm-package"@, false),
        ("build-mix-package"@, false),
        ("build-rebar3-release"@, false),
        ("build-gem"@, false),
        ("build-haskell-package"@, false),
        ("build-emscripten-package"@, false)
    ]
}

pub open spec fn descriptors_view(v: Seq<RuleDescriptor>) -> Seq<(Seq<char>, bool)> {
    v.map_values(|d: RuleDescriptor| (d.id@, d.default_enabled))
}

/// The registered rules, in order.
pub fn rules() -> (r: Vec<RuleDescriptor>)
    ensures
        descriptors_view(r@) == rule_table(),
{
    let mut v: Vec<RuleDescriptor> = Vec::new();
    v.push(RuleDescriptor { id: "flake", default_enabled: true });
    v.push(RuleDescriptor { id: "fetcher", default_enabled: true });
    v.push(RuleDescriptor { id: "mk-derivation", default_enabled: true });
    v.push(RuleDescriptor { id: "build-vim-plugin", default_enabled: true });
    v.push(RuleDescriptor { id: "build-rust-package", default_enabled: false });
    v.push(RuleDescriptor { id: "build-go-module", default_enabled: false });
    v.push(RuleDescriptor { id: "build-python-package", default_enabled: false });
    v.push(RuleDescriptor { id: "build-dune-package", default_enabled: false });
    v.push(RuleDescriptor { id: "build-npm-package", default_enabled: false });
    v.push(RuleDescriptor { id: "build-mix-package", default_enabled: false });
    v.push(RuleDescriptor { id: "build-rebar3-release", default_enabled: false });
    v.push(RuleDescriptor { id: "build-gem", default_enabled: false });
    v.push(RuleDescriptor { id: "build-haskell-package", default_enabled: false });
    v.push(RuleDescriptor { id: "build-emscripten-package", default_enabled: false });
    assert(descriptors_view(v@) =~= rule_table());
    v
}

/// The `--rules` value that enables every rule.
pub const ALL_RULES_SENTINEL: &'static str = "all";

/// Ids of the rules among `t` that run by default, in order.
pub open spec fn default_ids(t: Seq<(Seq<char>, bool)>) -> Seq<Seq<char>>
    decreases t.len(),
{
    if t.len() == 0 {
        Seq::empty()
    } else if t.last().1 {
        default_ids(t.drop_last()).push(t.last().0)
    } else {
        default_ids(t.drop_last())
    }
}

/// Ids of the rules that run by default.
pub fn default_rule_ids() -> (r: Vec<String>)
    ensures
        r@.map_values(|s: String| s@) == default_ids(rule_table()),
{
    let all = rules();
    let mut r: Vec<String> = Vec::new();
    let mut i: usize = 0;
    while i < all.len()
        invariant
            i <= all@.len(),
            descriptors_view(all@) == rule_table(),
            r@.map_values(|s: String| s@) == default_ids(descriptors_view(all@).subrange(0, i as int)),
        decreases all.len() - i,
    {
        let ghost t = descriptors_view(all@);
        assert(t.subrange(0, i + 1).drop_last() == t.subrange(0, i as int));
        if all[i].default_enabled {
            r.push(String::from_str(all[i].id));
        }
        assert(r@.map_values(|s: String| s@) == default_ids(t.subrange(0, i + 1)));
        i += 1;
    }
    assert(descriptors_view(all@).subrange(0, all@.len() as int) == rule_table());
    r
}

/// Every value `--rules` accepts: each rule id, then `all`.
pub fn rule_value_names() -> (r: Vec<&'static str>)
    ensures
        r@.map_values(|s: &str| s@) == rule_table().map_values(|e: (Seq<char>, bool)| e.0).push("all"@),
{
    let all = rules();
    let mut r: Vec<&'static str> = Vec::new();
    let mut i: usize = 0;
    while i < all.len()
        invariant
            i <= all@.len(),
            descriptors_view(all@) == rule_table(),
            r@.len() == i,
            forall|j: int| 0 <= j < i ==> r@[j]@ == rule_table()[j].0,
        decreases all.len() - i,
    {
        r.push(all[i].id);
        i += 1;
    }
    r.push(ALL_RULES_SENTINEL);
    assert(r@.map_values(|s: &str| s@) =~= rule_table().map_values(|e: (Seq<char>, bool)| e.0).push("all"@));
    r
}

/// Whether a `--rules` selection enables the rule `id`: it names `all` or
/// the id itself.
pub open spec fn selects(requested: Seq<Seq<char>>, id: Seq<char>) -> bool {
    requested.contains("all"@) || requested.contains(id)
}

fn seq_contains_str(requested: &Vec<String>, s: &str) -> (b: bool)
    ensures
        b == requested@.map_values(|x: String| x@).contains(s@),
{
    let target = String::from_str(s);
    let mut i: usize = 0;
    while i < requested.len()
        invariant
            i <= requested@.len(),
            target@ == s@,
            forall|j: int| 0 <= j < i ==> requested@[j]@ != s@,
        decreases requested.len() - i,
    {
        if requested[i] == target {
            assert(requested@.map_values(|x: String| x@)[i as int] == s@);
            return true;
        }
        i += 1;
    }
    false
}

/// The entries of `t` that a `--rules` selection enables, in order.
pub open spec fn selected_entries(t: Seq<(Seq<char>, bool)>, requested: Seq<Seq<char>>) -> Seq<(Seq<char>, bool)>
    decreases t.len(),
{
    if t.len() == 0 {
        Seq::empty()
    } else if selects(requested, t.last().0) {
        selected_entries(t.drop_last(), requested).push(t.last())
    } else {
        selected_entries(t.drop_last(), requested)
    }
}

/// The rules a `--rules` selection enables, in registration order.
pub fn selected_rules(requested: &Vec<String>) -> (r: Vec<RuleDescriptor>)
    ensures
        descriptors_view(r@) == selected_entries(rule_table(), requested@.map_values(|x: String| x@)),
{
    let all = rules();
    let everything = seq_contains_str(requested, ALL_RULES_SENTINEL);
    let ghost req = requested@.map_values(|x: String| x@);
    let mut r: Vec<RuleDescriptor> = Vec::new();
    let mut i: usize = 0;
    while i < all.len()
        invariant
            i <= all@.len(),
            descriptors_view(all@) == rule_table(),
            req == requested@.map_values(|x: String| x@),
            everything == req.contains("all"@),
            descriptors_view(r@) == selected_entries(descriptors_view(all@).subrange(0, i as int), req),
        decreases all.len() - i,
    {
        let d = all[i];
        let ghost t = descriptors_view(all@);
        assert(t[i as int] == (d.id@, d.default_enabled));
        assert(t.subrange(0, i + 1).drop_last() == t.subrange(0, i as int));
        let ghost before = r@;
        if everything || seq_contains_str(requested, d.id) {
            r.push(d);
            assert(descriptors_view(r@) == descriptors_view(before).push((d.id@, d.default_enabled)));
        }
        i += 1;
    }
    assert(descriptors_view(all@).subrange(0, all@.len() as int) == descriptors_view(all@));
    r
}

/// The rules a run uses, in registration order.
pub struct RuleRegistry {
    pub rules: Vec<RuleDescriptor>,
}

impl RuleRegistry {
    /// No rule.
    pub fn new() -> (r: Self)
        ensures
            r.rules@.len() == 0,
    {
        RuleRegistry { rules: Vec::new() }
    }

    /// Adds a rule after the others.
    pub fn register(&mut self, rule: RuleDescriptor)
        ensures
            final(self).rules@ == old(self).rules@.push(rule),
    {
        self.rules.push(rule);
    }

    /// How many rules there are.
    pub fn len(&self) -> (n: usize)
        ensures
            n == self.rules@.len(),
    {
        self.rules.len()
    }
}

/// The registry of the rules a `--rules` selection enables (`all` enables
/// every rule), in registration order.
pub fn build_registry(requested: &Vec<String>) -> (r: RuleRegistry)
    ensures
        descriptors_view(r.rules@) == selected_entries(rule_table(), requested@.map_values(|x: String| x@)),
{
    RuleRegistry { rules: selected_rules(requested) }
}

/// The builder functions of each derivation rule, by id.
pub open spec fn builder_funcs(id: Seq<char>) -> Option<Seq<Seq<char>>> {
    if id == "mk-derivation"@ {
        Some(seq!["mkDerivation"@])
    } else if id == "build-vim-plugin"@ {
        Some(seq!["buildVimPlugin"@])
    } else if id == "build-rust-package"@ {
        Some(seq!["buildRustPackage"@])
    } else if id == "build-go-module"@ {
        Some(seq!["buildGoModule"@, "buildGoPackage"@])
    } else if id == "build-python-package"@ {
        Some(seq!["buildPythonPackage"@, "buildPythonApplication"@])
    } else if id == "build-dune-package"@ {
        Some(seq!["buildDunePackage"@])
    } else if id == "build-npm-package"@ {
        Some(seq!["buildNpmPackage"@])
    } else if id == "build-mix-package"@ {
        Some(seq!["buildMixPackage"@])
    } else if id == "build-rebar3-release"@ {
        Some(seq!["buildRebar3Release"@])
    } else if id == "build-gem"@ {
        Some(seq!["buildGem"@])
    } else if id == "build-haskell-package"@ {
        Some(seq!["buildHaskellPackage"@, "mkHaskellPackage"@])
    } else if id == "build-emscripten-package"@ {
        Some(seq!["buildEmscriptenPackage"@])
    } else {
        None
    }
}

/// A rule, ready to run.
pub enum Rule {
    Flake(FlakeInputRule),
    Fetcher(FetcherRule),
    Derivation(DerivationRule),
}

pub open spec fn names_view(v: Seq<String>) -> Seq<Seq<char>> {
    v.map_values(|s: String| s@)
}

fn derivation(d: DerivationRule) -> (r: Option<Rule>)
    ensures
        r == Some(Rule::Derivation(d)),
{
    Some(Rule::Derivation(d))
}

/// The rule registered under `id`: the flake rule, the fetcher rule, or the
/// derivation rule owning [`builder_funcs`]; `None` for an unknown id.
pub fn rule_by_id(id: &str) -> (r: Option<Rule>)
    ensures
        match r {
            None => id@ != "flake"@ && id@ != "fetcher"@ && builder_funcs(id@) is None,
            Some(Rule::Flake(_)) => id@ == "flake"@,
            Some(Rule::Fetcher(_)) => id@ == "fetcher"@,
            Some(Rule::Derivation(d)) => d.rule_name@ == id@ && builder_funcs(id@) == Some(names_view(d.func_names@)),
        },
{
    let v = chars_of(id);
    let r = if eq_str(&v, "flake") {
        Some(Rule::Flake(FlakeInputRule))
    } else if eq_str(&v, "fetcher") {
        Some(Rule::Fetcher(FetcherRule))
    } else if eq_str(&v, "mk-derivation") {
        derivation(mk_derivation_rule())
    } else if eq_str(&v, "build-vim-plugin") {
        derivation(build_vim_plugin_rule())
    } else if eq_str(&v, "build-rust-package") {
        derivation(build_rust_package_rule())
    } else if eq_str(&v, "build-go-module") {
        derivation(build_go_module_rule())
    } else if eq_str(&v, "build-python-package") {
        derivation(build_python_package_rule())
    } else if eq_str(&v, "build-dune-package") {
        derivation(build_dune_package_rule())
    } else if eq_str(&v, "build-npm-package") {
        derivation(build_npm_package_rule())
    } else if eq_str(&v, "build-mix-package") {
        derivation(build_mix_package_rule())
    } else if eq_str(&v, "build-rebar3-release") {
        derivation(build_rebar3_release_rule())
    } else if eq_str(&v, "build-gem") {
        derivation(build_gem_rule())
    } else if eq_str(&v, "build-haskell-package") {
        derivation(build_haskell_package_rule())
    } else if eq_str(&v, "build-emscripten-package") {
        derivation(build_emscripten_package_rule())
    } else {
        None
    };
    assert(r matches Some(Rule::Derivation(d)) ==> (names_view(d.func_names@) =~= builder_funcs(id@)->Some_0));
    r
}

/// Registered rules have distinct ids, so a `--rules` value enables at
/// most one rule.
pub proof fn rule_ids_are_unique()
    ensures
        forall|i: int, j: int| 0 <= i < j < rule_table().len() ==> rule_table()[i].0 != rule_table()[j].0,
{
    reveal_strlit("flake");
    reveal_strlit("fetcher");
    reveal_strlit("mk-derivation");
    reveal_strlit("build-vim-plugin");
    reveal_strlit("build-rust-package");
    reveal_strlit("build-go-module");
    reveal_strlit("build-python-package");
    reveal_strlit("build-dune-package");
    reveal_strlit("build-npm-package");
    reveal_strlit("build-mix-package");
    reveal_strlit("build-rebar3-release");
    reveal_strlit("build-gem");
    reveal_strlit("build-haskell-package");
    reveal_strlit("build-emscripten-package");
    assert(rule_table()[0].0.len() != rule_table()[1].0.len());
    assert(rule_table()[0].0.len() != rule_table()[2].0.len());
    assert(rule_table()[0].0.len() != rule_table()[3].0.len());
    assert(rule_table()[0].0.len() != rule_table()[4].0.len());
    assert(rule_table()[0].0.len() != rule_table()[5].0.len());
    assert(rule_table()[0].0.len() != rule_table()[6].0.len());
    assert(rule_table()[0].0.len() != rule_table()[7].0.len());
    assert(rule_table()[0].0.len() != rule_table()[8].0.len());
    assert(rule_table()[0].0.len() != rule_table()[9].0.len());
    assert(rule_table()[0].0.len() != rule_table()[10].0.len());
    assert(rule_table()[0].0.len() != rule_table()[11].0.len());
    assert(rule_table()[0].0.len() != rule_table()[12].0.len());
    assert(rule_table()[0].0.len() != rule_table()[13].0.len());
    assert(rule_table()[1].0.len() != rule_table()[2].0.len());
    assert(rule_table()[1].0.len() != rule_table()[3].0.len());
    assert(rule_table()[1].0.len() != rule_table()[4].0.len());
    assert(rule_table()[1].0.len() != rule_table()[5].0.len());
    assert(rule_table()[1].0.len() != rule_table()[6].0.len());
    assert(rule_table()[1].0.len() != rule_table()[7].0.len());
    assert(rule_table()[1].0.len() != rule_table()[8].0.len());
    assert(rule_table()[1].0.len() != rule_table()[9].0.len());
    assert(rule_table()[1].0.len() != rule_table()[10].0.len());
    assert(rule_table()[1].0.len() != rule_table()[11].0.len());
    assert(rule_table()[1].0.len() != rule_table()[12].0.len());
    assert(rule_table()[1].0.len() != rule_table()[13].0.len());
    assert(rule_table()[2].0.len() != rule_table()[3].0.len());
    assert(rule_table()[2].0.len() != rule_table()[4].0.len());
    assert(rule_table()[2].0.len() != rule_table()[5].0.len());
    assert(rule_table()[2].0.len() != rule_table()[6].0.len());
    assert(rule_table()[2].0.len() != rule_table()[7].0.len());
    assert(rule_table()[2].0.len() != rule_table()[8].0.len());
    assert(rule_table()[2].0.len() != rule_table()[9].0.len());
    assert(rule_table()[2].0.len() != rule_table()[10].0.len());
    assert(rule_table()[2].0.len() != rule_table()[11].0.len());
    assert(rule_table()[2].0.len() != rule_table()[12].0.len());
    assert(rule_table()[2].0.len() != rule_table()[13].0.len());
    assert(rule_table()[3].0.len() != rule_table()[4].0.len());
    assert(rule_table()[3].0.len() != rule_table()[5].0.len());
    assert(rule_table()[3].0.len() != rule_table()[6].0.len());
    assert(rule_table()[3].0.len() != rule_table()[7].0.len());
    assert(rule_table()[3].0.len() != rule_table()[8].0.len());
    assert(rule_table()[3].0.len() != rule_table()[9].0.len());
    assert(rule_table()[3].0.len() != rule_table()[10].0.len());
    assert(rule_table()[3].0.len() != rule_table()[11].0.len());
    assert(rule_table()[3].0.len() != rule_table()[12].0.len());
    assert(rule_table()[3].0.len() != rule_table()[13].0.len());
    assert(rule_table()[4].0.len() != rule_table()[5].0.len());
    assert(rule_table()[4].0.len() != rule_table()[6].0.len());
    assert(rule_table()[4].0[6] == 'r' && rule_table()[7].0[6] == 'd');
    assert(rule_table()[4].0.len() != rule_table()[8].0.len());
    assert(rule_table()[4].0.len() != rule_table()[9].0.len());
    assert(rule_table()[4].0.len() != rule_table()[10].0.len());
    assert(rule_table()[4].0.len() != rule_table()[11].0.len());
    assert(rule_table()[4].0.len() != rule_table()[12].0.len());
    assert(rule_table()[4].0.len() != rule_table()[13].0.len());
    assert(rule_table()[5].0.len() != rule_table()[6].0.len());
    assert(rule_table()[5].0.len() != rule_table()[7].0.len());
    assert(rule_table()[5].0.len() != rule_table()[8].0.len());
    assert(rule_table()[5].0.len() != rule_table()[9].0.len());
    assert(rule_table()[5].0.len() != rule_table()[10].0.len());
    assert(rule_table()[5].0.len() != rule_table()[11].0.len());
    assert(rule_table()[5].0.len() != rule_table()[12].0.len());
    assert(rule_table()[5].0.len() != rule_table()[13].0.len());
    assert(rule_table()[6].0.len() != rule_table()[7].0.len());
    assert(rule_table()[6].0.len() != rule_table()[8].0.len());
    assert(rule_table()[6].0.len() != rule_table()[9].0.len());
    assert(rule_table()[6].0[6] == 'p' && rule_table()[10].0[6] == 'r');
    assert(rule_table()[6].0.len() != rule_table()[11].0.len());
    assert(rule_table()[6].0.len() != rule_table()[12].0.len());
    assert(rule_table()[6].0.len() != rule_table()[13].0.len());
    assert(rule_table()[7].0.len() != rule_table()[8].0.len());
    assert(rule_table()[7].0.len() != rule_table()[9].0.len());
    assert(rule_table()[7].0.len() != rule_table()[10].0.len());
    assert(rule_table()[7].0.len() != rule_table()[11].0.len());
    assert(rule_table()[7].0.len() != rule_table()[12].0.len());
    assert(rule_table()[7].0.len() != rule_table()[13].0.len());
    assert(rule_table()[8].0[6] == 'n' && rule_table()[9].0[6] == 'm');
    assert(rule_table()[8].0.len() != rule_table()[10].0.len());
    assert(rule_table()[8].0.len() != rule_table()[11].0.len());
    assert(rule_table()[8].0.len() != rule_table()[12].0.len());
    assert(rule_table()[8].0.len() != rule_table()[13].0.len());
    assert(rule_table()[9].0.len() != rule_table()[10].0.len());
    assert(rule_table()[9].0.len() != rule_table()[11].0.len());
    assert(rule_table()[9].0.len() != rule_table()[12].0.len());
    assert(rule_table()[9].0.len() != rule_table()[13].0.len());
    assert(rule_table()[10].0.len() != rule_table()[11].0.len());
    assert(rule_table()[10].0.len() != rule_table()[12].0.len());
    assert(rule_table()[10].0.len() != rule_table()[13].0.len());
    assert(rule_table()[11].0.len() != rule_table()[12].0.len());
    assert(rule_table()[11].0.len() != rule_table()[13].0.len());
    assert(rule_table()[12].0.len() != rule_table()[13].0.len());
}

} // verus!
