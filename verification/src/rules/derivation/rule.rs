//! A derivation rule: a named rule owning some builder functions.
use vstd::prelude::*;

use crate::parser::{NixKind, NixNode};
use crate::rules::derivation::extract::{source_ref_view, DerivationCall, SourceRefValue, SourceRefView};
use crate::rules::derivation::resolve::{check_derivation_call, spec_check_derivation};
use crate::rules::fetcher::dispatch::{result_view, set_target};
use crate::rules::fetcher::follow::refs_result_view;
use crate::rules::fetcher::kind::{kind_display_target, kind_git_url};
use crate::rules::fetcher::{is_commit_hash, spec_is_commit_hash};
use crate::rules::traits::CheckResult;
use crate::utils::fetch::{opt_string_view, GitRef};
use crate::utils::nar::NarHash;
use crate::utils::version::{is_version, VersionDetector};

verus! {

pub struct DerivationRule {
    pub rule_name: String,
    pub func_names: Vec<String>,
}

/// The remote whose refs a builder call needs listed: its source's git
/// URL, when the call is not pinned and its ref is read against the tags:
/// a literal equal to the version, a commit, an empty literal, an
/// interpolation that resolves, or an identifier.
pub open spec fn spec_derivation_refs_url(c: DerivationCall) -> Option<Seq<char>> {
    match kind_git_url(c.fetcher_kind, c.fetcher_parsed.strings@) {
        None => None,
        Some(u) => if c.pinned {
            None
        } else {
            let listed = match source_ref_view(c.source_ref_value) {
                SourceRefView::Pure(cur) => cur.len() == 0 || spec_is_commit_hash(cur) || (is_version(cur) && cur
                    == c.version_value@),
                SourceRefView::InterpolatedFromVersion { parts, version_var } => crate::parser::ast::interp_content(
                    parts,
                    c.extra_vars@.insert(version_var, c.version_value@),
                ) is Some,
                SourceRefView::IdentFromVersion => true,
                SourceRefView::Missing => false,
            };
            if listed {
                Some(u)
            } else {
                None
            }
        },
    }
}

/// The remote whose refs a builder call needs listed, if any (see
/// [`spec_derivation_refs_url`]).
pub fn derivation_refs_url(call: &DerivationCall) -> (r: Option<String>)
    ensures
        opt_string_view(r) == spec_derivation_refs_url(*call),
{
    let u = match call.fetcher_kind.git_url(&call.fetcher_parsed) {
        Some(u) => u,
        None => return None,
    };
    if call.pinned {
        return None;
    }
    let listed = match &call.source_ref_value {
        SourceRefValue::Pure(cur) => cur.unicode_len() == 0 || is_commit_hash(cur.as_str()) || (
        VersionDetector::is_version(cur.as_str()) && crate::text::eq_str(
            &crate::text::chars_of(cur.as_str()),
            call.version_value.as_str(),
        )),
        SourceRefValue::InterpolatedFromVersion { template, version_var } => {
            let mut vars = call.extra_vars.copy();
            vars.insert(version_var.clone(), call.version_value.clone());
            assert(vars@.map_values(|v: Seq<char>| v) =~= vars@);
            template.interpolated_string_content(&vars).is_some()
        },
        SourceRefValue::IdentFromVersion => true,
        SourceRefValue::Missing => false,
    };
    if listed {
        Some(u)
    } else {
        None
    }
}

impl DerivationRule {
    pub fn new(rule_name: &str, func_names: Vec<String>) -> (r: Self)
        ensures
            r.rule_name@ == rule_name@,
            r.func_names == func_names,
    {
        DerivationRule { rule_name: String::from_str(rule_name), func_names }
    }

    /// The rule's name.
    pub fn name(&self) -> (r: &str)
        ensures
            r@ == self.rule_name@,
    {
        self.rule_name.as_str()
    }

    /// Whether the rule looks at `node`: any function application.
    pub fn matches(&self, node: &NixNode) -> (b: bool)
        requires
            node.wf(),
        ensures
            b == (node.t().kinds[node.i()] == NixKind::Apply),
    {
        node.kind() == NixKind::Apply
    }

    /// What a builder call becomes under this rule, given the outcome of
    /// listing the refs of [`derivation_refs_url`] and of computing the
    /// hash of [`crate::rules::derivation::resolve::derivation_hash_rev`]'s
    /// revision; every group is about the fetcher's display target.
    pub fn check_call(
        &self,
        call: &DerivationCall,
        refs: &Result<Vec<GitRef>, String>,
        hash: &Option<Result<NarHash, String>>,
    ) -> (r: CheckResult)
        ensures
            result_view(r) == spec_check_derivation(self.rule_name@, *call, refs_result_view(*refs), *hash),
            forall|j: int|
                0 <= j < r.groups@.len() ==> opt_string_view(#[trigger] r.groups@[j].target) == kind_display_target(
                    call.fetcher_kind,
                    call.fetcher_parsed,
                ),
    {
        let target = call.fetcher_kind.display_target(&call.fetcher_parsed);
        let base = check_derivation_call(self.rule_name.as_str(), call, refs, hash);
        set_target(base, target)
    }
}

} // verus!
