//! Turning a function application into a fetcher call, and recognizing a
//! fetcher call that a derivation rule owns instead (the `src` of
//! `mkDerivation` and the other builders).
use vstd::prelude::*;

use crate::parser::ast::ParsedAttrs;
use crate::parser::attrs::{attrs_rel, spec_parse_attrs, AttrsModel};
use crate::parser::node::{
    first_child_of_kind, opt_string_view, spec_apply_function_name, spec_attrpath_segments, spec_follow_branch,
    spec_has_pin_comment, spec_pure_string,
};
use crate::parser::{NixKind, NixNode};
use crate::rules::derivation::{owned_func_name_list, owned_func_names};
use crate::rules::fetcher::interpolate::{
    class_map, ident_bindings, parse_fetcher_attrset, strings_view, InterpolationSpec, StringClass,
};
use crate::rules::fetcher::kind::{kind_attrs, kind_from_name, FetcherKind};
use crate::text::{after_last, after_last_exec, chars_of, eq_str, seq_eq_exec};

verus! {

/// A fetcher call read out of the syntax tree.
pub struct FetcherCall {
    pub kind: FetcherKind,
    pub parsed: ParsedAttrs,
    /// A `# pin` comment on the call or its argument.
    pub pinned: bool,
    /// The branch of a `# follow: <branch>` comment, on the argument first.
    pub follow: Option<String>,
}

impl FetcherCall {
    pub fn kind(&self) -> (k: FetcherKind)
        ensures
            k == self.kind,
    {
        self.kind
    }

    pub fn parsed(&self) -> (p: &ParsedAttrs)
        ensures
            *p == self.parsed,
    {
        &self.parsed
    }

    pub fn pinned(&self) -> (b: bool)
        ensures
            b == self.pinned,
    {
        self.pinned
    }

    pub fn follow(&self) -> (r: Option<&str>)
        ensures
            match r {
                Some(s) => self.follow matches Some(f) && s@ == f@,
                None => self.follow is None,
            },
    {
        match &self.follow {
            Some(f) => Some(f.as_str()),
            None => None,
        }
    }
}

/// Whether one of the strings among the attributes that the kind's schema
/// names could not be read literally.
pub open spec fn has_unresolved_operational(f: crate::parser::NixFile, kind: FetcherKind, m: AttrsModel) -> bool {
    exists|k: Seq<char>|
        #![trigger m.string_nodes.contains_key(k)]
        m.string_nodes.contains_key(k) && spec_pure_string(f, m.string_nodes[k]) is None && exists|j: int|
            0 <= j < kind_attrs(kind).len() && kind_attrs(kind)[j].0 == k
}

/// The fetcher call of application `i`: its kind (by function name), its
/// attribute-set argument and what reading it gives; `None` when any is
/// missing or a named attribute is interpolated.
pub open spec fn spec_extract_call(f: crate::parser::NixFile, i: int) -> Option<(FetcherKind, int, AttrsModel)> {
    let t = f.table();
    match spec_apply_function_name(t, i) {
        None => None,
        Some(name) => match kind_from_name(name) {
            None => None,
            Some(kind) => match first_child_of_kind(t, i, NixKind::AttrSet, 0) {
                None => None,
                Some(a) => match spec_parse_attrs(f, a, kind_attrs(kind), None) {
                    Err(_) => None,
                    Ok(m) => if has_unresolved_operational(f, kind, m) {
                        None
                    } else {
                        Some((kind, a, m))
                    },
                },
            },
        },
    }
}

/// Reads the fetcher call that application `node` makes, if it is one.
pub fn try_extract_call(node: &NixNode) -> (r: Option<FetcherCall>)
    requires
        node.wf(),
    ensures
        match r {
            Some(c) => spec_extract_call(*node.file, node.i()) matches Some((kind, a, m)) && c.kind == kind
                && attrs_rel(c.parsed, m, *node.file) && c.pinned == (spec_has_pin_comment(node.t(), a)
                || spec_has_pin_comment(node.t(), node.i())) && opt_string_view(c.follow) == match spec_follow_branch(
                node.t(),
                a,
                0,
            ) {
                Some(b) => Some(b),
                None => spec_follow_branch(node.t(), node.i(), 0),
            },
            None => spec_extract_call(*node.file, node.i()) is None,
        },
{
    let ghost f = *node.file;
    let func_name = match node.apply_function_name() {
        Some(n) => n,
        None => return None,
    };
    let kind = match FetcherKind::from_name(func_name.as_str()) {
        Some(k) => k,
        None => return None,
    };
    let arg = match node.apply_argument() {
        Some(a) => a,
        None => return None,
    };
    let op_keys = kind.operational_keys();
    let none = InterpolationSpec::none();
    assert(ident_bindings(none) is None) by {
        assert(none.ident_vars@.dom() =~= Set::<Seq<char>>::empty());
    }
    let attrs = match parse_fetcher_attrset(kind, &arg, &none) {
        Ok(a) => a,
        Err(_) => return None,
    };
    let ghost m = spec_parse_attrs(f, arg.i(), kind_attrs(kind), None)->Ok_0;
    let ghost cm = class_map(none, attrs.parsed.string_nodes@, StringClass::Unresolved);
    assert(has_unresolved_operational(f, kind, m) ==> spec_extract_call(f, node.i()) is None);
    let mut q: usize = 0;
    while q < attrs.interpolated_unresolved.len()
        invariant
            f == *node.file,
            attrs_rel(attrs.parsed, m, f),
            none.allow_all_vars is None,
            none.allowed@ == Map::<Seq<char>, Map<Seq<char>, Seq<char>>>::empty(),
            cm == class_map(none, attrs.parsed.string_nodes@, StringClass::Unresolved),
            has_unresolved_operational(f, kind, m) ==> spec_extract_call(f, node.i()) is None,
            q <= attrs.interpolated_unresolved@.len(),
            strings_view(attrs.interpolated_unresolved@).to_set() == cm.dom(),
            op_keys@.len() == kind_attrs(kind).len(),
            forall|j: int| 0 <= j < op_keys@.len() ==> op_keys@[j]@ == kind_attrs(kind)[j].0,
            forall|p: int| 0 <= p < q ==> !(exists|j: int| 0 <= j < kind_attrs(kind).len() && kind_attrs(kind)[j].0
                == #[trigger] strings_view(attrs.interpolated_unresolved@)[p]),
        decreases attrs.interpolated_unresolved.len() - q,
    {
        let key = &attrs.interpolated_unresolved[q];
        let kv = chars_of(key.as_str());
        let mut j: usize = 0;
        while j < op_keys.len()
            invariant
                j <= op_keys@.len(),
                op_keys@.len() == kind_attrs(kind).len(),
                forall|jj: int| 0 <= jj < op_keys@.len() ==> op_keys@[jj]@ == kind_attrs(kind)[jj].0,
                kv@ == key@,
                f == *node.file,
                attrs_rel(attrs.parsed, m, f),
                none.allow_all_vars is None,
                none.allowed@ == Map::<Seq<char>, Map<Seq<char>, Seq<char>>>::empty(),
                cm == class_map(none, attrs.parsed.string_nodes@, StringClass::Unresolved),
                has_unresolved_operational(f, kind, m) ==> spec_extract_call(f, node.i()) is None,
                q < attrs.interpolated_unresolved@.len(),
                key@ == strings_view(attrs.interpolated_unresolved@)[q as int],
                strings_view(attrs.interpolated_unresolved@).to_set() == cm.dom(),
                forall|jj: int| 0 <= jj < j ==> kind_attrs(kind)[jj].0 != key@,
            decreases op_keys.len() - j,
        {
            if eq_str(&kv, op_keys[j]) {
                proof {
                    let k = key@;
                    assert(strings_view(attrs.interpolated_unresolved@)[q as int] == k);
                    assert(strings_view(attrs.interpolated_unresolved@).to_set().contains(k));
                    assert(cm.dom().contains(k));
                    lemma_unresolved_reads_nothing(f, kind, m, attrs.parsed, none, k, j as int);
                }
                return None;
            }
            j += 1;
        }
        q += 1;
    }
    proof {
        if has_unresolved_operational(f, kind, m) {
            let k = choose|k: Seq<char>|
                #![trigger m.string_nodes.contains_key(k)]
                m.string_nodes.contains_key(k) && spec_pure_string(f, m.string_nodes[k]) is None && exists|j: int|
                    0 <= j < kind_attrs(kind).len() && kind_attrs(kind)[j].0 == k;
            lemma_unresolved_listed(f, m, attrs.parsed, none, k);
            assert(strings_view(attrs.interpolated_unresolved@).to_set().contains(k));
            let p = choose|p: int| 0 <= p < attrs.interpolated_unresolved@.len() && strings_view(attrs.interpolated_unresolved@)[p] == k;
            assert(false);
        }
    }
    let pinned = arg.has_pin_comment() || node.has_pin_comment();
    let follow = match arg.follow_branch_comment() {
        Some(b) => Some(b),
        None => node.follow_branch_comment(),
    };
    Some(FetcherCall { kind, parsed: attrs.parsed, pinned, follow })
}

/// A string attribute of the model that does not read literally is among
/// those the classification leaves unresolved.
proof fn lemma_unresolved_listed(
    f: crate::parser::NixFile,
    m: AttrsModel,
    p: ParsedAttrs,
    none: InterpolationSpec,
    k: Seq<char>,
)
    requires
        attrs_rel(p, m, f),
        none.allow_all_vars is None,
        none.allowed@ == Map::<Seq<char>, Map<Seq<char>, Seq<char>>>::empty(),
        m.string_nodes.contains_key(k),
        spec_pure_string(f, m.string_nodes[k]) is None,
    ensures
        class_map(none, p.string_nodes@, StringClass::Unresolved).dom().contains(k),
{
    assert(p.string_nodes@.contains_key(k));
    let sv = p.string_nodes@[k];
    assert(crate::parser::attrs::sv_matches(sv, f, m.string_nodes[k]));
    crate::parser::attrs::lemma_node_parts_pure(f, m.string_nodes[k]);
}

/// An attribute the classification leaves unresolved is a string of the
/// model that does not read literally.
proof fn lemma_unresolved_reads_nothing(
    f: crate::parser::NixFile,
    kind: FetcherKind,
    m: AttrsModel,
    p: ParsedAttrs,
    none: InterpolationSpec,
    k: Seq<char>,
    j: int,
)
    requires
        attrs_rel(p, m, f),
        none.allow_all_vars is None,
        none.allowed@ == Map::<Seq<char>, Map<Seq<char>, Seq<char>>>::empty(),
        class_map(none, p.string_nodes@, StringClass::Unresolved).dom().contains(k),
        0 <= j < kind_attrs(kind).len(),
        kind_attrs(kind)[j].0 == k,
    ensures
        has_unresolved_operational(f, kind, m),
{
    assert(p.string_nodes@.contains_key(k));
    let sv = p.string_nodes@[k];
    assert(crate::parser::attrs::sv_matches(sv, f, m.string_nodes[k]));
    crate::parser::attrs::lemma_node_parts_pure(f, m.string_nodes[k]);
    assert(m.string_nodes.contains_key(k));
}

// ---------------------------------------------------------------------------
// Fetchers owned by derivation rules
// ---------------------------------------------------------------------------

/// The nearest enclosing node of `j` (itself included) that is not a
/// parenthesis.
pub open spec fn skip_parens(t: crate::parser::tree::Table, j: int) -> Option<int>
    decreases j,
{
    if j < 0 || j >= t.kinds.len() {
        None
    } else if t.kinds[j] == NixKind::Paren {
        match t.parents[j] {
            Some(p) => if p < j {
                skip_parens(t, p as int)
            } else {
                None
            },
            None => None,
        }
    } else {
        Some(j)
    }
}

/// Whether fetcher call `i` is the `src` of a derivation builder call: its
/// binding (through parentheses) is `src = ...;` in an attribute set that is
/// the argument (possibly through `(x: ...)`) of a builder `rules` own.
pub open spec fn spec_is_src_of_owned_call(t: crate::parser::tree::Table, i: int) -> bool {
    match t.parents[i] {
        None => false,
        Some(p0) => match skip_parens(t, p0 as int) {
            None => false,
            Some(cur) => {
                &&& t.kinds[cur] == NixKind::AttrpathValue
                &&& spec_attrpath_segments(t, cur) == seq!["src"@]
                &&& t.parents[cur] matches Some(aset)
                &&& t.kinds[aset as int] == NixKind::AttrSet
                &&& t.parents[aset as int] matches Some(a1)
                &&& {
                    let a2 = if t.kinds[a1 as int] == NixKind::Lambda {
                        t.parents[a1 as int]
                    } else {
                        Some(a1)
                    };
                    &&& a2 matches Some(a2v)
                    &&& {
                        let a3 = if t.kinds[a2v as int] == NixKind::Paren {
                            t.parents[a2v as int]
                        } else {
                            Some(a2v)
                        };
                        &&& a3 matches Some(app)
                        &&& t.kinds[app as int] == NixKind::Apply
                        &&& spec_apply_function_name(t, app as int) matches Some(name)
                        &&& owned_func_names().contains(after_last(name, '.'))
                    }
                }
            },
        },
    }
}

/// Whether fetcher call `node` is the `src` of a builder that a derivation
/// rule owns (see [`spec_is_src_of_owned_call`]).
pub fn is_src_of_owned_call(node: &NixNode) -> (b: bool)
    requires
        node.wf(),
    ensures
        b == spec_is_src_of_owned_call(node.t(), node.i()),
{
    let ghost t = node.t();
    proof { reveal_strlit("src"); }
    let mut current = match node.parent() {
        Some(p) => p,
        None => return false,
    };
    let ghost p0: usize = current.index;
    while current.kind() == NixKind::Paren
        invariant
            current.wf(),
            current.file == node.file,
            t == node.t(),
            skip_parens(t, current.i()) == skip_parens(t, p0 as int),
            node.wf(),
            node.t().parents[node.i()] == Some(p0),
        decreases current.index,
    {
        let ghost prev = current.i();
        current = match current.parent() {
            Some(p) => p,
            None => {
                assert(skip_parens(t, prev) is None);
                return false;
            },
        };
        assert(t.parents[prev] == Some(current.index));
        assert(skip_parens(t, prev) == skip_parens(t, current.i()));
    }
    assert(skip_parens(t, p0 as int) == Some(current.i()));
    if current.kind() != NixKind::AttrpathValue {
        return false;
    }
    let segments = current.attrpath_segments();
    if segments.len() != 1 || !eq_str(&chars_of(segments[0].as_str()), "src") {
        proof {
            if strings_view(segments@) == seq!["src"@] {
                assert(strings_view(segments@).len() == 1);
                assert(strings_view(segments@)[0] == segments@[0]@);
            }
        }
        return false;
    }
    assert(strings_view(segments@) =~= seq!["src"@]);
    let attr_set = match current.parent() {
        Some(p) => p,
        None => return false,
    };
    if attr_set.kind() != NixKind::AttrSet {
        return false;
    }
    let mut apply_node = match attr_set.parent() {
        Some(p) => p,
        None => return false,
    };
    if apply_node.kind() == NixKind::Lambda {
        apply_node = match apply_node.parent() {
            Some(p) => p,
            None => return false,
        };
    }
    if apply_node.kind() == NixKind::Paren {
        apply_node = match apply_node.parent() {
            Some(p) => p,
            None => return false,
        };
    }
    if apply_node.kind() != NixKind::Apply {
        return false;
    }
    let func_name = match apply_node.apply_function_name() {
        Some(n) => n,
        None => return false,
    };
    let short = after_last_exec(&chars_of(func_name.as_str()), '.');
    let owned = owned_func_name_list();
    assert(spec_is_src_of_owned_call(t, node.i()) == owned_func_names().contains(short@));
    let mut k: usize = 0;
    while k < owned.len()
        invariant
            t == node.t(),
            spec_is_src_of_owned_call(t, node.i()) == owned_func_names().contains(short@),
            k <= owned@.len(),
            owned@.map_values(|s: &str| s@) == owned_func_names(),
            forall|q: int| 0 <= q < k ==> owned_func_names()[q] != short@,
        decreases owned.len() - k,
    {
        if eq_str(&short, owned[k]) {
            assert(owned_func_names()[k as int] == short@);
            assert(owned_func_names().contains(short@));
            return true;
        }
        k += 1;
    }
    false
}

} // verus!
