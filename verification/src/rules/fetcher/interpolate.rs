//! Which fetcher attributes may hold `${...}` interpolations, and with which
//! variable bindings they are resolved.
use vstd::prelude::*;

use crate::parser::ast::{interp_content, parts_view, pure_content, sv_equiv, ParsedAttrs, StringValue};
use crate::parser::attrs::{attrs_rel, spec_parse_attrs, step_matches, AttrsModel};
use crate::parser::NixNode;
use crate::rules::fetcher::kind::{kind_attrs, FetcherKind};
use crate::strmap::{lemma_map_of_concat, map_of, StrMap};

verus! {

/// Controls which fetcher fields may contain interpolation: `allow` for
/// field-specific bindings, `allow_all` for catch-all bindings that the
/// field-specific ones override, `allow_idents` for bare identifiers
/// (e.g. `repo = pname`).
pub struct InterpolationSpec {
    pub allowed: StrMap<StrMap<String>>,
    pub allow_all_vars: Option<StrMap<String>>,
    pub ident_vars: StrMap<String>,
}

pub open spec fn opt_map_view(o: Option<StrMap<String>>) -> Option<Map<Seq<char>, Seq<char>>> {
    match o {
        Some(m) => Some(m@),
        None => None,
    }
}

/// The bindings a field is resolved with: its own over the catch-all ones.
pub open spec fn spec_vars_for_field(
    all: Option<Map<Seq<char>, Seq<char>>>,
    allowed: Map<Seq<char>, Map<Seq<char>, Seq<char>>>,
    field: Seq<char>,
) -> Option<Map<Seq<char>, Seq<char>>> {
    match (all, allowed.contains_key(field)) {
        (None, false) => None,
        (None, true) => Some(allowed[field]),
        (Some(d), false) => Some(d),
        (Some(d), true) => Some(d.union_prefer_right(allowed[field])),
    }
}

impl InterpolationSpec {
    /// No interpolation allowed anywhere.
    pub fn none() -> (r: Self)
        ensures
            r.allowed@ == Map::<Seq<char>, Map<Seq<char>, Seq<char>>>::empty(),
            r.allow_all_vars is None,
            r.ident_vars@ == Map::<Seq<char>, Seq<char>>::empty(),
    {
        InterpolationSpec { allowed: StrMap::new(), allow_all_vars: None, ident_vars: StrMap::new() }
    }

    /// Allows interpolation in `field`, resolved with `vars`.
    pub fn allow(&mut self, field: &str, vars: StrMap<String>)
        ensures
            final(self).allowed@ == old(self).allowed@.insert(field@, vars@),
            opt_map_view(final(self).allow_all_vars) == opt_map_view(old(self).allow_all_vars),
            final(self).ident_vars@ == old(self).ident_vars@,
    {
        self.allowed.insert(String::from_str(field), vars);
    }

    /// Allows interpolation in every field, resolved with `vars`.
    pub fn allow_all(&mut self, vars: StrMap<String>)
        ensures
            final(self).allowed@ == old(self).allowed@,
            opt_map_view(final(self).allow_all_vars) == Some(vars@),
            final(self).ident_vars@ == old(self).ident_vars@,
    {
        self.allow_all_vars = Some(vars);
    }

    /// Resolves bare identifiers with `idents`.
    pub fn allow_idents(&mut self, idents: StrMap<String>)
        ensures
            final(self).allowed@ == old(self).allowed@,
            opt_map_view(final(self).allow_all_vars) == opt_map_view(old(self).allow_all_vars),
            final(self).ident_vars@ == idents@,
    {
        self.ident_vars = idents;
    }

    /// The bindings `field` is resolved with, if it may be interpolated.
    pub fn vars_for_field(&self, field: &str) -> (r: Option<StrMap<String>>)
        ensures
            opt_map_view(r) == spec_vars_for_field(opt_map_view(self.allow_all_vars), self.allowed@, field@),
    {
        match (&self.allow_all_vars, self.allowed.get(field)) {
            (None, None) => None,
            (None, Some(f)) => Some(f.copy()),
            (Some(d), None) => Some(d.copy()),
            (Some(d), Some(f)) => {
                let mut merged = d.copy();
                let mut i: usize = 0;
                while i < f.entries.len()
                    invariant
                        i <= f.entries@.len(),
                        merged@ == d@.union_prefer_right(crate::strmap::map_of(f.entries@.subrange(0, i as int))),
                    decreases f.entries.len() - i,
                {
                    let k = f.entries[i].0.clone();
                    let v = f.entries[i].1.clone();
                    let ghost before = f.entries@.subrange(0, i as int);
                    let ghost after = f.entries@.subrange(0, i + 1);
                    assert(after.drop_last() == before);
                    merged.insert(k, v);
                    assert(merged@ =~= d@.union_prefer_right(crate::strmap::map_of(after)));
                    i += 1;
                }
                assert(f.entries@.subrange(0, f.entries@.len() as int) == f.entries@);
                Some(merged)
            },
        }
    }
}

/// Resolving a field never lets the catch-all bindings shadow the field's
/// own: where both bind a variable, the field's value is used.
pub proof fn field_bindings_override_catch_all(
    all: Map<Seq<char>, Seq<char>>,
    allowed: Map<Seq<char>, Map<Seq<char>, Seq<char>>>,
    field: Seq<char>,
    var: Seq<char>,
)
    requires
        allowed.contains_key(field),
        allowed[field].contains_key(var),
    ensures
        spec_vars_for_field(Some(all), allowed, field) matches Some(m) && m.contains_key(var)
            && m[var] == allowed[field][var],
{
}


/// How a string attribute reads: literally, through the bindings allowed
/// for its field, or not at all.
#[derive(Debug, Clone, Copy, PartialEq, Eq, Structural)]
pub enum StringClass {
    Pure,
    Interpolated,
    Unresolved,
}

pub open spec fn classify(
    all: Option<Map<Seq<char>, Seq<char>>>,
    allowed: Map<Seq<char>, Map<Seq<char>, Seq<char>>>,
    key: Seq<char>,
    sv: StringValue,
) -> StringClass {
    if pure_content(parts_view(sv.parts@)) is Some {
        StringClass::Pure
    } else {
        match spec_vars_for_field(all, allowed, key) {
            Some(m) => if interp_content(parts_view(sv.parts@), m) is Some {
                StringClass::Interpolated
            } else {
                StringClass::Unresolved
            },
            None => StringClass::Unresolved,
        }
    }
}

/// A fetcher's attributes: those read as literals, and the interpolated
/// strings that the allowed bindings resolve or do not.
pub struct FetcherAttrs {
    pub parsed: ParsedAttrs,
    pub interpolated: StrMap<StringValue>,
    pub interpolated_unresolved: Vec<String>,
}

/// The string attributes of `nodes` in class `c`, with their values.
pub open spec fn class_map(
    spec: InterpolationSpec,
    nodes: Map<Seq<char>, StringValue>,
    c: StringClass,
) -> Map<Seq<char>, StringValue> {
    nodes.restrict(
        nodes.dom().filter(
            |k: Seq<char>| classify(opt_map_view(spec.allow_all_vars), spec.allowed@, k, nodes[k]) == c,
        ),
    )
}

pub open spec fn strings_view(v: Seq<String>) -> Seq<Seq<char>> {
    v.map_values(|s: String| s@)
}

impl InterpolationSpec {
    /// How string attribute `key` with value `sv` reads.
    pub fn classify(&self, key: &str, sv: &StringValue) -> (c: StringClass)
        ensures
            c == classify(opt_map_view(self.allow_all_vars), self.allowed@, key@, *sv),
    {
        if sv.pure_string_content().is_some() {
            return StringClass::Pure;
        }
        match self.vars_for_field(key) {
            Some(vars) => if {
                assert(vars@.map_values(|v: Seq<char>| v) =~= vars@);
                sv.interpolated_string_content(&vars).is_some()
            } {
                StringClass::Interpolated
            } else {
                StringClass::Unresolved
            },
            None => StringClass::Unresolved,
        }
    }
}

/// Sorts the string attributes of `parsed` by how they read: interpolated
/// ones that resolve, and the keys of those that do not.
pub fn classify_strings(parsed: ParsedAttrs, spec: &InterpolationSpec) -> (r: FetcherAttrs)
    ensures
        r.parsed == parsed,
        r.interpolated@.dom() == class_map(*spec, parsed.string_nodes@, StringClass::Interpolated).dom(),
        forall|k: Seq<char>| #[trigger] r.interpolated@.contains_key(k) ==> sv_equiv(r.interpolated@[k], parsed.string_nodes@[k]),
        strings_view(r.interpolated_unresolved@).to_set() == class_map(*spec, parsed.string_nodes@, StringClass::Unresolved).dom(),
        strings_view(r.interpolated_unresolved@).no_duplicates(),
{
    let ghost es = parsed.string_nodes.entries@;
    let ghost whole = parsed.string_nodes@;
    let mut seen: StrMap<bool> = StrMap::new();
    let mut interpolated: StrMap<StringValue> = StrMap::new();
    let mut unresolved: Vec<String> = Vec::new();
    let n = parsed.string_nodes.entries.len();
    let mut i = n;
    proof {
        assert(es.subrange(n as int, n as int) =~= Seq::<(String, StringValue)>::empty());
        assert(interpolated@.dom() =~= class_map(*spec, map_of(es.subrange(n as int, n as int)), StringClass::Interpolated).dom());
        assert(strings_view(unresolved@).to_set() =~= class_map(*spec, map_of(es.subrange(n as int, n as int)), StringClass::Unresolved).dom());
        assert(seen@.dom() =~= map_of(es.subrange(n as int, n as int)).dom());
    }
    while i > 0
        invariant
            i <= n,
            n == es.len(),
            es == parsed.string_nodes.entries@,
            whole == parsed.string_nodes@,
            whole == map_of(es),
            seen@.dom() == map_of(es.subrange(i as int, n as int)).dom(),
            interpolated@.dom() == class_map(*spec, map_of(es.subrange(i as int, n as int)), StringClass::Interpolated).dom(),
            forall|k: Seq<char>| #[trigger] interpolated@.contains_key(k) ==> sv_equiv(interpolated@[k], map_of(es.subrange(i as int, n as int))[k]),
            map_of(es.subrange(i as int, n as int)).dom().subset_of(whole.dom()),
            forall|k: Seq<char>| #[trigger] map_of(es.subrange(i as int, n as int)).contains_key(k) ==> map_of(es.subrange(i as int, n as int))[k] == whole[k],
            strings_view(unresolved@).to_set() == class_map(*spec, map_of(es.subrange(i as int, n as int)), StringClass::Unresolved).dom(),
            strings_view(unresolved@).no_duplicates(),
        decreases i,
    {
        let ghost rest = es.subrange(i as int, n as int);
        let ghost next = es.subrange(i - 1, n as int);
        proof {
            assert(next =~= seq![es[i - 1]] + rest);
            lemma_map_of_concat(seq![es[i - 1]], rest);
            assert(map_of(seq![es[i - 1]]) =~= Map::<Seq<char>, StringValue>::empty().insert(es[i - 1].0@, es[i - 1].1@)) by {
                assert(seq![es[i - 1]].drop_last() =~= Seq::<(String, StringValue)>::empty());
                assert(map_of(Seq::<(String, StringValue)>::empty()) =~= Map::<Seq<char>, StringValue>::empty());
            }
            assert(es =~= es.subrange(0, i - 1) + next);
            lemma_map_of_concat(es.subrange(0, i - 1), next);
        }
        let key = &parsed.string_nodes.entries[i - 1].0;
        let sv = &parsed.string_nodes.entries[i - 1].1;
        if !seen.contains_key(key.as_str()) {
            let ghost mr = map_of(rest);
            let ghost mn = map_of(next);
            assert(mn =~= mr.insert(key@, *sv));
            let c = spec.classify(key.as_str(), sv);
            seen.insert(key.clone(), true);
            if c == StringClass::Interpolated {
                let ghost before = interpolated@;
                interpolated.insert(key.clone(), sv.copy());
                assert(interpolated@.dom() =~= class_map(*spec, mn, StringClass::Interpolated).dom());
                assert forall|k: Seq<char>| #[trigger] interpolated@.contains_key(k) implies sv_equiv(interpolated@[k], mn[k]) by {
                    if k != key@ {
                        assert(before.contains_key(k));
                    }
                }
            } else {
                assert(interpolated@.dom() =~= class_map(*spec, mn, StringClass::Interpolated).dom());
            }
            if c == StringClass::Unresolved {
                let ghost before = unresolved@;
                unresolved.push(key.clone());
                proof {
                    let sb = strings_view(before);
                    let sa = strings_view(unresolved@);
                    assert(sa =~= sb.push(key@));
                    assert(!mr.contains_key(key@));
                    assert(!sb.contains(key@)) by {
                        if sb.contains(key@) {
                            assert(sb.to_set().contains(key@));
                        }
                    }
                    assert forall|x: Seq<char>| sa.to_set().contains(x) <==> class_map(*spec, mn, StringClass::Unresolved).dom().contains(x) by {
                        if sa.contains(x) {
                            let j = choose|j: int| 0 <= j < sa.len() && sa[j] == x;
                            if j < sb.len() {
                                assert(sb[j] == x);
                                assert(sb.to_set().contains(x));
                            }
                        }
                        if x != key@ && sb.to_set().contains(x) {
                            let j = choose|j: int| 0 <= j < sb.len() && sb[j] == x;
                            assert(sa[j] == x);
                        }
                        if x == key@ {
                            assert(sa[sb.len() as int] == x);
                        }
                    }
                    assert(sa.to_set() =~= class_map(*spec, mn, StringClass::Unresolved).dom());
                }
            } else {
                assert(strings_view(unresolved@).to_set() =~= class_map(*spec, mn, StringClass::Unresolved).dom());
            }
        } else {
            proof {
                let mr = map_of(rest);
                let mn = map_of(next);
                assert(mn =~= mr);
            }
        }
        i -= 1;
    }
    proof {
        assert(es.subrange(0, n as int) =~= es);
        assert(class_map(*spec, whole, StringClass::Interpolated).dom() =~= class_map(*spec, map_of(es.subrange(0, n as int)), StringClass::Interpolated).dom());
    }
    FetcherAttrs { parsed, interpolated, interpolated_unresolved: unresolved }
}


/// The identifier bindings a fetcher's attributes are read with: none when
/// the spec has no identifiers.
pub open spec fn ident_bindings(spec: InterpolationSpec) -> Option<Map<Seq<char>, Seq<char>>> {
    if spec.ident_vars@.dom().len() == 0 {
        None
    } else {
        Some(spec.ident_vars@)
    }
}

/// Reads a fetcher call's attribute set against the kind's schema, with
/// the identifier bindings of `spec`, and sorts its interpolated strings.
/// Whether `fa` is what reading attribute set `a` of a `kind` call under
/// `spec` gives: the schema's reading of the literals, and the string
/// attributes sorted by how `spec` lets them read.
pub open spec fn fetcher_attrs_of(f: crate::parser::tree::NixFile, a: int, kind: FetcherKind, spec: InterpolationSpec, fa: FetcherAttrs) -> bool {
    &&& spec_parse_attrs(f, a, kind_attrs(kind), ident_bindings(spec)) matches Ok(m) && attrs_rel(fa.parsed, m, f)
    &&& fa.interpolated@.dom() == class_map(spec, fa.parsed.string_nodes@, StringClass::Interpolated).dom()
    &&& forall|k: Seq<char>| #[trigger] fa.interpolated@.contains_key(k) ==> sv_equiv(fa.interpolated@[k], fa.parsed.string_nodes@[k])
    &&& strings_view(fa.interpolated_unresolved@).to_set() == class_map(spec, fa.parsed.string_nodes@, StringClass::Unresolved).dom()
    &&& strings_view(fa.interpolated_unresolved@).no_duplicates()
}

pub fn parse_fetcher_attrset(kind: FetcherKind, attr_set: &NixNode, spec: &InterpolationSpec) -> (r: Result<
    FetcherAttrs,
    String,
>)
    requires
        attr_set.wf(),
    ensures
        match r {
            Ok(fa) => fetcher_attrs_of(*attr_set.file, attr_set.i(), kind, *spec, fa),
            Err(e) => spec_parse_attrs(*attr_set.file, attr_set.i(), kind_attrs(kind), ident_bindings(*spec)) == Err::<
                AttrsModel,
                Seq<char>,
            >(e@),
        },
{
    let specs = kind.attr_spec();
    let ident = if spec.ident_vars.is_empty() {
        None
    } else {
        Some(&spec.ident_vars)
    };
    assert(crate::parser::attrs::opt_map_view(ident) == ident_bindings(*spec));
    match attr_set.parse_attrs(specs.as_slice(), ident) {
        Ok(parsed) => Ok(classify_strings(parsed, spec)),
        Err(e) => Err(e),
    }
}

} // verus!
