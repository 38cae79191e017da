//! Reading a builder call such as `mkDerivation rec { version = "..."; src =
//! fetchX { ... }; }` (or its `(finalAttrs: { ... })` form) into what a
//! derivation rule updates: the version, the source's ref and the fetcher.
use vstd::prelude::*;

use crate::parser::ast::{interp_content, parts_view, ParsedAttrs, StringValue, TextRange};
use crate::parser::node::{
    first_child_of_kind, opt_string_view, spec_apply_argument_attrset, spec_apply_function_name, spec_apply_lambda_param,
    spec_attr_value, spec_attrpath_segments, spec_find_attr, spec_has_pin_comment, spec_pure_string,
};
use crate::parser::tree::{NixFile, Table};
use crate::parser::{NixKind, NixNode};
use crate::rules::fetcher::interpolate::{opt_map_view, InterpolationSpec};
use crate::rules::fetcher::kind::{kind_from_name, FetcherKind};
use crate::strmap::{map_of, StrMap};
use crate::text::{after_last, chars_of, is_white, lead_white_from, starts_with};
use crate::utils::version::{is_version, VersionDetector};

verus! {

/// `s` without leading whitespace.
pub open spec fn trim_start(s: Seq<char>) -> Seq<char> {
    s.subrange(lead_white_from(s, 0), s.len() as int)
}

/// The string attributes of an attribute set that read literally, other
/// than `version`, from its first `n` children `cs`.
pub open spec fn stable_attrs(f: NixFile, cs: Seq<usize>, n: int) -> Map<Seq<char>, Seq<char>>
    decreases n,
{
    if n <= 0 || n > cs.len() {
        Map::empty()
    } else {
        let m = stable_attrs(f, cs, n - 1);
        let t = f.table();
        let c = cs[n - 1] as int;
        let segs = spec_attrpath_segments(t, c);
        if t.kinds[c] == NixKind::AttrpathValue && segs.len() == 1 && segs[0] != "version"@ {
            match spec_attr_value(t, c) {
                Some(v) => match spec_pure_string(f, v) {
                    Some(content) => m.insert(segs[0], content),
                    None => m,
                },
                None => m,
            }
        } else {
            m
        }
    }
}

/// The names a version can be referred to by: `version` in a recursive
/// set, `<param>.version` under a lambda.
pub open spec fn version_vars(is_rec: bool, param: Option<Seq<char>>) -> Seq<Seq<char>> {
    let a: Seq<Seq<char>> = if is_rec {
        seq!["version"@]
    } else {
        Seq::empty()
    };
    match param {
        Some(p) => a.push(p + ".version"@),
        None => a,
    }
}

/// `m` with each key `k` renamed `<p>.k`.
pub open spec fn dotted_map(p: Seq<char>, m: Map<Seq<char>, Seq<char>>) -> Map<Seq<char>, Seq<char>> {
    Map::new(
        |k: Seq<char>|
            exists|kk: Seq<char>| #![trigger m.contains_key(kk)] m.contains_key(kk) && k == p + "."@ + kk,
        |k: Seq<char>| m[k.subrange(p.len() as int + 1, k.len() as int)],
    )
}

/// The bindings interpolations of the source may use: the stable
/// attributes by name in a recursive set, and as `<param>.name` under a
/// lambda.
pub open spec fn interp_vars(stable: Map<Seq<char>, Seq<char>>, is_rec: bool, param: Option<Seq<char>>) -> Map<
    Seq<char>,
    Seq<char>,
> {
    let a = if is_rec {
        stable
    } else {
        Map::empty()
    };
    match param {
        Some(p) => a.union_prefer_right(dotted_map(p, stable)),
        None => a,
    }
}

/// The bindings bare identifiers of the source may use: in a recursive set
/// the stable attributes and `version`; under a lambda `<param>.version`.
pub open spec fn ident_map(
    stable: Map<Seq<char>, Seq<char>>,
    is_rec: bool,
    param: Option<Seq<char>>,
    version: Seq<char>,
) -> Map<Seq<char>, Seq<char>> {
    let a = if is_rec {
        stable.insert("version"@, version)
    } else {
        Map::empty()
    };
    match param {
        Some(p) => a.insert(p + ".version"@, version),
        None => a,
    }
}

/// Each of `vars` bound to `version`.
pub open spec fn version_bindings(vars: Seq<Seq<char>>, version: Seq<char>) -> Map<Seq<char>, Seq<char>> {
    Map::new(|k: Seq<char>| vars.contains(k), |k: Seq<char>| version)
}

/// What is read of a builder call before its source's attributes: where
/// its version is and what it says, the stable attributes, whether the
/// set is recursive, the lambda parameter, the source fetcher's kind, its
/// application and attribute set.
pub struct ContextView {
    pub arg: int,
    pub version_node: int,
    pub version: Seq<char>,
    pub stable: Map<Seq<char>, Seq<char>>,
    pub is_rec: bool,
    pub param: Option<Seq<char>>,
    pub src_value: int,
    pub kind: FetcherKind,
    pub src_arg: int,
}

/// Reading builder call `i` up to its source (see [`ContextView`]): the
/// builder's name (its last `.`-segment) is among `names`; its argument
/// attribute set binds `version` to a literal that is a version and `src`
/// to the application of a fetcher to an attribute set.
pub open spec fn spec_context(f: NixFile, i: int, names: Seq<Seq<char>>) -> Option<ContextView> {
    let t = f.table();
    match spec_apply_function_name(t, i) {
        None => None,
        Some(name) => if !names.contains(after_last(name, '.')) {
            None
        } else {
            match spec_apply_argument_attrset(t, i) {
                None => None,
                Some(arg) => match spec_find_attr(t, arg, "version"@) {
                    None => None,
                    Some(vb) => match spec_attr_value(t, vb) {
                        None => None,
                        Some(vn) => if t.kinds[vn] != NixKind::String {
                            None
                        } else {
                            match spec_pure_string(f, vn) {
                                None => None,
                                Some(version) => if !is_version(version) {
                                    None
                                } else {
                                    match spec_find_attr(t, arg, "src"@) {
                                        None => None,
                                        Some(sb) => match spec_attr_value(t, sb) {
                                            None => None,
                                            Some(sv) => if t.kinds[sv] != NixKind::Apply {
                                                None
                                            } else {
                                                match spec_apply_function_name(t, sv) {
                                                    None => None,
                                                    Some(fname) => match kind_from_name(fname) {
                                                        None => None,
                                                        Some(kind) => match first_child_of_kind(
                                                            t,
                                                            sv,
                                                            NixKind::AttrSet,
                                                            0,
                                                        ) {
                                                            None => None,
                                                            Some(sa) => Some(
                                                                ContextView {
                                                                    arg,
                                                                    version_node: vn,
                                                                    version,
                                                                    stable: stable_attrs(
                                                                        f,
                                                                        t.children[arg],
                                                                        t.children[arg].len() as int,
                                                                    ),
                                                                    is_rec: starts_with(
                                                                        trim_start(t.texts[arg]),
                                                                        "rec"@,
                                                                    ),
                                                                    param: spec_apply_lambda_param(t, i),
                                                                    src_value: sv,
                                                                    kind,
                                                                    src_arg: sa,
                                                                },
                                                            ),
                                                        },
                                                    },
                                                }
                                            },
                                        },
                                    }
                                },
                            }
                        },
                    },
                },
            }
        },
    }
}

/// Whether `spec` allows what a builder call's context allows: catch-all
/// interpolation with the stable bindings, identifiers, and the version
/// names in `tag`, `rev` and `ref`; each only when there is something to
/// allow.
pub open spec fn context_spec(c: ContextView, spec: InterpolationSpec) -> bool {
    let iv = interp_vars(c.stable, c.is_rec, c.param);
    let idv = ident_map(c.stable, c.is_rec, c.param, c.version);
    let vv = version_vars(c.is_rec, c.param);
    let vb = version_bindings(vv, c.version);
    &&& opt_map_view(spec.allow_all_vars) == (if iv.dom().len() > 0 {
        Some(iv)
    } else {
        None
    })
    &&& spec.ident_vars@ == (if idv.dom().len() > 0 {
        idv
    } else {
        Map::empty()
    })
    &&& spec.allowed@ == (if vv.len() > 0 {
        Map::<Seq<char>, Map<Seq<char>, Seq<char>>>::empty().insert("tag"@, vb).insert("rev"@, vb).insert("ref"@, vb)
    } else {
        Map::empty()
    })
}

} // verus!

verus! {

/// What is read of a builder call before its source's attributes.
pub struct DerivationContext<'a> {
    pub arg: NixNode<'a>,
    pub version_node: NixNode<'a>,
    pub version: String,
    pub stable: StrMap<String>,
    pub is_rec: bool,
    pub param: Option<String>,
    pub src_value: NixNode<'a>,
    pub kind: FetcherKind,
    pub src_arg: NixNode<'a>,
}

impl<'a> DerivationContext<'a> {
    pub open spec fn matches(&self, v: ContextView) -> bool {
        &&& self.arg.i() == v.arg && self.version_node.i() == v.version_node && self.src_value.i() == v.src_value
        &&& self.src_arg.i() == v.src_arg
        &&& self.version@ == v.version && self.stable@ == v.stable && self.is_rec == v.is_rec
        &&& opt_string_view(self.param) == v.param && self.kind == v.kind
    }

    pub open spec fn wf(&self, node: &NixNode<'a>) -> bool {
        &&& self.arg.wf() && self.version_node.wf() && self.src_value.wf() && self.src_arg.wf()
        &&& self.arg.file == node.file && self.version_node.file == node.file
        &&& self.src_value.file == node.file && self.src_arg.file == node.file
    }
}

proof fn lemma_dotted_key(p: Seq<char>, kk: Seq<char>)
    ensures
        (p + "."@ + kk).subrange(p.len() as int + 1, (p + "."@ + kk).len() as int) == kk,
        (p + "."@ + kk).len() == p.len() + 1 + kk.len(),
{
    reveal_strlit(".");
    assert((p + "."@ + kk).subrange(p.len() as int + 1, (p + "."@ + kk).len() as int) =~= kk);
}

proof fn lemma_dotted_insert(p: Seq<char>, m: Map<Seq<char>, Seq<char>>, k: Seq<char>, v: Seq<char>)
    ensures
        dotted_map(p, m.insert(k, v)) == dotted_map(p, m).insert(p + "."@ + k, v),
{
    let l = dotted_map(p, m.insert(k, v));
    let r = dotted_map(p, m).insert(p + "."@ + k, v);
    lemma_dotted_key(p, k);
    assert forall|x: Seq<char>| #[trigger] l.contains_key(x) <==> r.contains_key(x) by {
        let mi = m.insert(k, v);
        if l.contains_key(x) {
            let kk = choose|kk: Seq<char>| #![trigger mi.contains_key(kk)] mi.contains_key(kk) && x == p + "."@ + kk;
            if kk != k {
                assert(m.contains_key(kk));
                assert(dotted_map(p, m).contains_key(x));
            }
        }
        if r.contains_key(x) {
            if x == p + "."@ + k {
                assert(mi.contains_key(k));
            } else {
                assert(dotted_map(p, m).contains_key(x));
                let kk = choose|kk: Seq<char>| #![trigger m.contains_key(kk)] m.contains_key(kk) && x == p + "."@ + kk;
                assert(mi.contains_key(kk));
            }
        }
    }
    assert forall|x: Seq<char>| #[trigger] l.contains_key(x) implies l[x] == r[x] by {
        let kk = choose|kk: Seq<char>| #![trigger m.insert(k, v).contains_key(kk)] m.insert(k, v).contains_key(kk) && x == p + "."@ + kk;
        lemma_dotted_key(p, kk);
        if kk == k {
        } else {
            assert(m.contains_key(kk));
            assert(x != p + "."@ + k) by {
                if x == p + "."@ + k {
                    lemma_dotted_key(p, k);
                }
            }
        }
    }
    assert(l =~= r);
}

proof fn lemma_dotted_empty(p: Seq<char>)
    ensures
        dotted_map(p, Map::<Seq<char>, Seq<char>>::empty()) == Map::<Seq<char>, Seq<char>>::empty(),
{
    assert(dotted_map(p, Map::<Seq<char>, Seq<char>>::empty()) =~= Map::<Seq<char>, Seq<char>>::empty());
}

fn dotted_key(p: &str, k: &str) -> (r: String)
    ensures
        r@ == p@ + "."@ + k@,
{
    proof { reveal_strlit("."); }
    let mut r = String::from_str(p);
    r.append(".");
    r.append(k);
    r
}

/// The stable attributes of attribute set `arg` (see [`stable_attrs`]).
fn stable_attrs_exec(arg: &NixNode) -> (r: StrMap<String>)
    requires
        arg.wf(),
    ensures
        r@ == stable_attrs(*arg.file, arg.t().children[arg.i()], arg.t().children[arg.i()].len() as int),
{
    proof { reveal_strlit("version"); }
    let ghost f = *arg.file;
    let ghost cs = arg.t().children[arg.i()];
    let children = arg.children();
    let mut m: StrMap<String> = StrMap::new();
    let mut k: usize = 0;
    while k < children.len()
        invariant
            k <= children@.len(),
            children@.len() == cs.len(),
            forall|j: int|
                0 <= j < children@.len() ==> (#[trigger] children@[j]).wf() && children@[j].file == arg.file
                    && children@[j].index == cs[j],
            m@ == stable_attrs(f, cs, k as int),
            f == *arg.file,
        decreases children.len() - k,
    {
        let c = &children[k];
        assert(c.index == cs[k as int]);
        if c.kind() == NixKind::AttrpathValue {
            let segs = c.attrpath_segments();
            if segs.len() == 1 {
                assert(crate::parser::tree::strings_view(segs@)[0] == segs@[0]@);
                if !crate::text::eq_str(&chars_of(segs[0].as_str()), "version") {
                    match c.attr_value() {
                        Some(v) => match v.pure_string_content() {
                            Some(content) => {
                                m.insert(segs[0].clone(), content);
                            },
                            None => {},
                        },
                        None => {},
                    }
                }
            }
        }
        k += 1;
    }
    m
}

/// Whether the text of a node starts with `rec` after its leading
/// whitespace.
fn starts_with_rec(text: &str) -> (b: bool)
    ensures
        b == starts_with(trim_start(text@), "rec"@),
{
    proof { reveal_strlit("rec"); }
    let v = chars_of(text);
    let mut i: usize = 0;
    while i < v.len() && crate::text::is_white_exec(v[i])
        invariant
            i <= v@.len(),
            v@ == text@,
            lead_white_from(v@, 0) == i + lead_white_from(v@, i as int),
        decreases v.len() - i,
    {
        i += 1;
    }
    assert(lead_white_from(v@, i as int) == 0);
    let rest = crate::text::slice_vec(&v, i, v.len());
    crate::text::starts_with_exec(&rest, &chars_of("rec"))
}

/// Reads builder call `node` up to its source (see [`spec_context`]).
pub fn read_context<'a>(node: &NixNode<'a>, func_names: &Vec<String>) -> (r: Option<DerivationContext<'a>>)
    requires
        node.wf(),
    ensures
        match r {
            Some(c) => c.wf(node) && (spec_context(*node.file, node.i(), crate::parser::tree::strings_view(
                func_names@,
            )) matches Some(v) && c.matches(v)),
            None => spec_context(*node.file, node.i(), crate::parser::tree::strings_view(func_names@)) is None,
        },
{
    proof {
        reveal_strlit("version");
        reveal_strlit("src");
    }
    let ghost names = crate::parser::tree::strings_view(func_names@);
    let func_name = match node.apply_function_name() {
        Some(n) => n,
        None => return None,
    };
    let short = crate::text::after_last_exec(&chars_of(func_name.as_str()), '.');
    let mut found = false;
    let mut q: usize = 0;
    while q < func_names.len()
        invariant
            q <= func_names@.len(),
            names == crate::parser::tree::strings_view(func_names@),
            found <==> exists|j: int| 0 <= j < q && names[j] == short@,
        decreases func_names.len() - q,
    {
        assert(names[q as int] == func_names@[q as int]@);
        if crate::text::eq_str(&short, func_names[q].as_str()) {
            found = true;
        }
        q += 1;
    }
    if !found {
        proof {
            if names.contains(short@) {
                let j = choose|j: int| 0 <= j < names.len() && names[j] == short@;
            }
        }
        return None;
    }
    let arg = match node.apply_argument_attrset() {
        Some(a) => a,
        None => return None,
    };
    let version_entry = match arg.find_attr_by_key("version") {
        Some(b) => b,
        None => return None,
    };
    let version_node = match version_entry.attr_value() {
        Some(v) => v,
        None => return None,
    };
    if version_node.kind() != NixKind::String {
        return None;
    }
    let version = match version_node.pure_string_content() {
        Some(v) => v,
        None => return None,
    };
    if !VersionDetector::is_version(version.as_str()) {
        return None;
    }
    let stable = stable_attrs_exec(&arg);
    let is_rec = starts_with_rec(arg.text().as_str());
    let param = node.apply_lambda_param();
    let src_entry = match arg.find_attr_by_key("src") {
        Some(b) => b,
        None => return None,
    };
    let src_value = match src_entry.attr_value() {
        Some(v) => v,
        None => return None,
    };
    if src_value.kind() != NixKind::Apply {
        return None;
    }
    let src_func = match src_value.apply_function_name() {
        Some(n) => n,
        None => return None,
    };
    let kind = match FetcherKind::from_name(src_func.as_str()) {
        Some(k) => k,
        None => return None,
    };
    let src_arg = match src_value.apply_argument() {
        Some(a) => a,
        None => return None,
    };
    Some(DerivationContext { arg, version_node, version, stable, is_rec, param, src_value, kind, src_arg })
}

} // verus!

verus! {

/// The interpolation bindings of a context (see [`interp_vars`]).
fn interp_vars_exec(stable: &StrMap<String>, is_rec: bool, param: &Option<String>) -> (r: StrMap<String>)
    ensures
        r@ == interp_vars(stable@, is_rec, opt_string_view(*param)),
{
    let mut m: StrMap<String> = if is_rec {
        stable.copy()
    } else {
        StrMap::new()
    };
    let ghost a = m@;
    match param {
        None => m,
        Some(p) => {
            proof { lemma_dotted_empty(p@); }
            assert(a.union_prefer_right(dotted_map(p@, map_of(stable.entries@.subrange(0, 0)))) =~= a);
            let mut i: usize = 0;
            while i < stable.entries.len()
                invariant
                    i <= stable.entries@.len(),
                    m@ == a.union_prefer_right(dotted_map(p@, map_of(stable.entries@.subrange(0, i as int)))),
                decreases stable.entries.len() - i,
            {
                let ghost before = stable.entries@.subrange(0, i as int);
                let ghost after = stable.entries@.subrange(0, i + 1);
                assert(after.drop_last() == before);
                let key = dotted_key(p.as_str(), stable.entries[i].0.as_str());
                let v = stable.entries[i].1.clone();
                proof {
                    lemma_dotted_insert(p@, map_of(before), stable.entries@[i as int].0@, stable.entries@[i as int].1@);
                }
                m.insert(key, v);
                assert(m@ =~= a.union_prefer_right(dotted_map(p@, map_of(after))));
                i += 1;
            }
            assert(stable.entries@.subrange(0, stable.entries@.len() as int) == stable.entries@);
            m
        },
    }
}

/// The identifier bindings of a context (see [`ident_map`]).
fn ident_map_exec(stable: &StrMap<String>, is_rec: bool, param: &Option<String>, version: &String) -> (r: StrMap<
    String,
>)
    ensures
        r@ == ident_map(stable@, is_rec, opt_string_view(*param), version@),
{
    proof { reveal_strlit("version"); reveal_strlit(".version"); }
    let mut m: StrMap<String> = if is_rec {
        let mut s = stable.copy();
        s.insert(String::from_str("version"), version.clone());
        s
    } else {
        StrMap::new()
    };
    match param {
        Some(p) => {
            let mut k = String::from_str(p.as_str());
            k.append(".version");
            m.insert(k, version.clone());
            m
        },
        None => m,
    }
}

/// The names of the version (see [`version_vars`]).
fn version_vars_exec(is_rec: bool, param: &Option<String>) -> (r: Vec<String>)
    ensures
        crate::parser::tree::strings_view(r@) == version_vars(is_rec, opt_string_view(*param)),
{
    proof { reveal_strlit("version"); reveal_strlit(".version"); }
    let mut v: Vec<String> = Vec::new();
    if is_rec {
        v.push(String::from_str("version"));
    }
    match param {
        Some(p) => {
            let mut k = String::from_str(p.as_str());
            k.append(".version");
            v.push(k);
        },
        None => {},
    }
    assert(crate::parser::tree::strings_view(v@) =~= version_vars(is_rec, opt_string_view(*param)));
    v
}

/// Each of `vars` bound to `version` (see [`version_bindings`]).
fn version_bindings_exec(vars: &Vec<String>, version: &String) -> (r: StrMap<String>)
    ensures
        r@ == version_bindings(crate::parser::tree::strings_view(vars@), version@),
{
    let ghost sv = crate::parser::tree::strings_view(vars@);
    let mut m: StrMap<String> = StrMap::new();
    let mut i: usize = 0;
    while i < vars.len()
        invariant
            i <= vars@.len(),
            sv == crate::parser::tree::strings_view(vars@),
            m@ == version_bindings(sv.subrange(0, i as int), version@),
        decreases vars.len() - i,
    {
        m.insert(vars[i].clone(), version.clone());
        let ghost pre = sv.subrange(0, i as int);
        let ghost post = sv.subrange(0, i + 1);
        assert(post =~= pre.push(vars@[i as int]@));
        assert forall|k: Seq<char>| post.contains(k) <==> (pre.contains(k) || k == vars@[i as int]@) by {
            if post.contains(k) {
                let j = choose|j: int| 0 <= j < post.len() && post[j] == k;
                if j < i {
                    assert(pre[j] == k);
                }
            }
            if pre.contains(k) {
                let j = choose|j: int| 0 <= j < pre.len() && pre[j] == k;
                assert(post[j] == k);
            }
            if k == vars@[i as int]@ {
                assert(post[i as int] == k);
            }
        }
        assert(m@ =~= version_bindings(post, version@));
        i += 1;
    }
    assert(sv.subrange(0, sv.len() as int) =~= sv);
    m
}

/// The interpolation rules of a context (see [`context_spec`]), with its
/// interpolation bindings and version names.
pub fn context_spec_exec(c: &DerivationContext, Ghost(v): Ghost<ContextView>) -> (r: (
    InterpolationSpec,
    StrMap<String>,
    Vec<String>,
))
    requires
        c.matches(v),
    ensures
        context_spec(v, r.0),
        r.1@ == interp_vars(v.stable, v.is_rec, v.param),
        crate::parser::tree::strings_view(r.2@) == version_vars(v.is_rec, v.param),
{
    proof {
        reveal_strlit("tag");
        reveal_strlit("rev");
        reveal_strlit("ref");
    }
    let interp = interp_vars_exec(&c.stable, c.is_rec, &c.param);
    let ident = ident_map_exec(&c.stable, c.is_rec, &c.param, &c.version);
    let vv = version_vars_exec(c.is_rec, &c.param);
    let mut spec = InterpolationSpec::none();
    if !interp.is_empty() {
        spec.allow_all(interp.copy());
    }
    if !ident.is_empty() {
        spec.allow_idents(ident);
    }
    if vv.len() > 0 {
        let vb = version_bindings_exec(&vv, &c.version);
        spec.allow("tag", vb.copy());
        spec.allow("rev", vb.copy());
        spec.allow("ref", vb);
    }
    (spec, interp, vv)
}

} // verus!

verus! {

/// Whether `k` names a source ref: `tag`, `rev` or `ref`.
pub open spec fn is_ref_key(k: Seq<char>) -> bool {
    k == "tag"@ || k == "rev"@ || k == "ref"@
}

/// The interpolated attributes, other than refs, that `vars` resolves.
pub open spec fn resolvable(interp: Map<Seq<char>, StringValue>, vars: Map<Seq<char>, Seq<char>>) -> Set<Seq<char>> {
    interp.dom().filter(
        |k: Seq<char>| !is_ref_key(k) && interp_content(parts_view(interp[k].parts@), vars) is Some,
    )
}

/// What `vars` resolves the resolvable attributes to.
pub open spec fn resolved_values(interp: Map<Seq<char>, StringValue>, vars: Map<Seq<char>, Seq<char>>) -> Map<
    Seq<char>,
    Seq<char>,
> {
    Map::new(
        |k: Seq<char>| resolvable(interp, vars).contains(k),
        |k: Seq<char>| interp_content(parts_view(interp[k].parts@), vars)->Some_0,
    )
}

fn is_ref_key_exec(k: &str) -> (b: bool)
    ensures
        b == is_ref_key(k@),
{
    let v = chars_of(k);
    crate::text::eq_str(&v, "tag") || crate::text::eq_str(&v, "rev") || crate::text::eq_str(&v, "ref")
}

/// Resolves the interpolated attributes other than refs with `vars`: those
/// that resolve join the strings, the others stay interpolated.
fn resolve_interpolated(
    parsed: ParsedAttrs,
    interpolated: &StrMap<StringValue>,
    vars: &StrMap<String>,
) -> (r: (ParsedAttrs, StrMap<StringValue>))
    ensures
        r.0.strings@ == parsed.strings@.union_prefer_right(resolved_values(interpolated@, vars@)),
        r.0.bools == parsed.bools && r.0.ints == parsed.ints && r.0.list_strings == parsed.list_strings,
        r.0.list_ints == parsed.list_ints && r.0.string_nodes == parsed.string_nodes,
        r.0.unknown_keys == parsed.unknown_keys && r.0.ident_resolved == parsed.ident_resolved,
        r.1@.dom() == interpolated@.dom().difference(resolvable(interpolated@, vars@)),
        forall|k: Seq<char>| #[trigger] r.1@.contains_key(k) ==> crate::parser::ast::sv_equiv(r.1@[k], interpolated@[k]),
{
    proof {
        reveal_strlit("tag");
        reveal_strlit("rev");
        reveal_strlit("ref");
    }
    let ghost es = interpolated.entries@;
    let ghost im = interpolated@;
    let ghost vm = vars@;
    let ghost rv = resolved_values(im, vm);
    let ghost rs = resolvable(im, vm);
    let ghost s0 = parsed.strings@;
    proof { crate::strmap::lemma_map_of_dom(es); }
    let mut p = parsed;
    let mut rem: StrMap<StringValue> = StrMap::new();
    let mut i: usize = 0;
    assert(crate::strmap::keys_upto(es, 0) =~= Set::<Seq<char>>::empty());
    assert(s0.union_prefer_right(rv.restrict(Set::<Seq<char>>::empty())) =~= s0);
    assert(rem@.dom() =~= Set::<Seq<char>>::empty().difference(rs));
    while i < interpolated.entries.len()
        invariant
            i <= es.len(),
            es == interpolated.entries@,
            im == interpolated@,
            vm == vars@,
            rv == resolved_values(im, vm),
            rs == resolvable(im, vm),
            im.dom() == crate::strmap::keys_upto(es, es.len() as int),
            p.strings@ == s0.union_prefer_right(rv.restrict(crate::strmap::keys_upto(es, i as int))),
            rem@.dom() == crate::strmap::keys_upto(es, i as int).difference(rs),
            forall|x: Seq<char>| #[trigger] rem@.contains_key(x) ==> crate::parser::ast::sv_equiv(rem@[x], im[x]),
            p.bools == parsed.bools && p.ints == parsed.ints && p.list_strings == parsed.list_strings,
            p.list_ints == parsed.list_ints && p.string_nodes == parsed.string_nodes,
            p.unknown_keys == parsed.unknown_keys && p.ident_resolved == parsed.ident_resolved,
        decreases es.len() - i,
    {
        let key = &interpolated.entries[i].0;
        let ghost k = key@;
        assert(es[i as int].0@ == k);
        let ghost before = crate::strmap::keys_upto(es, i as int);
        let ghost after = crate::strmap::keys_upto(es, i + 1);
        assert(after =~= before.insert(k)) by {
            assert forall|x: Seq<char>| after.contains(x) <==> before.insert(k).contains(x) by {
                if after.contains(x) {
                    let j = choose|j: int| 0 <= j < i + 1 && #[trigger] es[j].0@ == x;
                    if j < i {
                        assert(before.contains(x));
                    }
                }
                if before.contains(x) {
                    let j = choose|j: int| 0 <= j < i && #[trigger] es[j].0@ == x;
                    assert(after.contains(x));
                }
                if x == k {
                    assert(es[i as int].0@ == x);
                    assert(after.contains(x));
                }
            }
        }
        assert(im.dom().contains(k));
        let cur = match interpolated.get(key.as_str()) {
            Some(c) => c,
            None => {
                assert(false);
                return (p, rem);
            },
        };
        let resolved = if is_ref_key_exec(key.as_str()) {
            None
        } else {
            cur.interpolated_string_content(vars)
        };
        assert(vm.map_values(|v: Seq<char>| v) =~= vm);
        match resolved {
            Some(s) => {
                assert(rs.contains(k));
                p.strings.insert(key.clone(), s);
                assert(p.strings@ =~= s0.union_prefer_right(rv.restrict(after)));
                assert(rem@.dom() =~= after.difference(rs));
            },
            None => {
                assert(!rs.contains(k));
                rem.insert(key.clone(), cur.copy());
                assert(p.strings@ =~= s0.union_prefer_right(rv.restrict(after)));
                assert(rem@.dom() =~= after.difference(rs));
            },
        }
        i += 1;
    }
    assert(rv.restrict(im.dom()) =~= rv);
    (p, rem)
}

} // verus!

verus! {

/// How the source names its ref.
pub enum SourceRefValue {
    /// No ref attribute.
    Missing,
    /// A literal.
    Pure(String),
    /// An identifier that names the version (`rev = version;`).
    IdentFromVersion,
    /// A string that interpolates the version (`rev = "v${version}";`),
    /// with the name it refers to the version by.
    InterpolatedFromVersion { template: StringValue, version_var: String },
}

pub enum SourceRefView {
    Missing,
    Pure(Seq<char>),
    IdentFromVersion,
    InterpolatedFromVersion { parts: Seq<crate::parser::ast::StrPartView>, version_var: Seq<char> },
}

pub open spec fn source_ref_view(s: SourceRefValue) -> SourceRefView {
    match s {
        SourceRefValue::Missing => SourceRefView::Missing,
        SourceRefValue::Pure(v) => SourceRefView::Pure(v@),
        SourceRefValue::IdentFromVersion => SourceRefView::IdentFromVersion,
        SourceRefValue::InterpolatedFromVersion { template, version_var } => SourceRefView::InterpolatedFromVersion {
            parts: parts_view(template.parts@),
            version_var: version_var@,
        },
    }
}

/// A builder call that a derivation rule may update.
pub struct DerivationCall {
    pub version_value: String,
    pub version_range: TextRange,
    pub source_ref_key: Option<String>,
    pub source_ref_value: SourceRefValue,
    pub source_ref_range: Option<TextRange>,
    pub fetcher_kind: FetcherKind,
    pub fetcher_parsed: ParsedAttrs,
    /// The bindings interpolations of the source may use.
    pub extra_vars: StrMap<String>,
    pub pinned: bool,
}

/// The ref attribute of the source: the preferred one among the literals,
/// else `tag`, `rev` or `ref` among the interpolated ones.
pub open spec fn spec_source_ref_key(strings: Map<Seq<char>, Seq<char>>, interp: Set<Seq<char>>) -> Option<Seq<char>> {
    match crate::rules::fetcher::spec_preferred_ref_key(strings) {
        Some(k) => Some(k),
        None => if interp.contains("tag"@) {
            Some("tag"@)
        } else if interp.contains("rev"@) {
            Some("rev"@)
        } else if interp.contains("ref"@) {
            Some("ref"@)
        } else {
            None
        },
    }
}

/// The first of `vv[j..]` that the template interpolates.
pub open spec fn first_affix_var(
    parts: Seq<crate::parser::ast::StrPartView>,
    vv: Seq<Seq<char>>,
    iv: Map<Seq<char>, Seq<char>>,
    j: int,
) -> Option<Seq<char>>
    decreases vv.len() - j,
{
    if j < 0 || j >= vv.len() {
        None
    } else if crate::parser::ast::var_affixes(parts, vv[j], iv) is Some {
        Some(vv[j])
    } else {
        first_affix_var(parts, vv, iv, j + 1)
    }
}

/// The name a template refers to the version by: the first version name
/// it interpolates, else the first version name, else empty.
pub open spec fn template_version_var(
    parts: Seq<crate::parser::ast::StrPartView>,
    vv: Seq<Seq<char>>,
    iv: Map<Seq<char>, Seq<char>>,
) -> Seq<char> {
    match first_affix_var(parts, vv, iv, 0) {
        Some(v) => v,
        None => if vv.len() > 0 {
            vv[0]
        } else {
            Seq::empty()
        },
    }
}

/// How the source names its ref `key` (see [`SourceRefValue`]).
pub open spec fn spec_source_ref_value(
    p: ParsedAttrs,
    rem: Map<Seq<char>, StringValue>,
    key: Option<Seq<char>>,
    vv: Seq<Seq<char>>,
    iv: Map<Seq<char>, Seq<char>>,
) -> SourceRefView {
    match key {
        None => SourceRefView::Missing,
        Some(k) => if p.ident_resolved@.contains_key(k) && vv.contains(p.ident_resolved@[k]) {
            SourceRefView::IdentFromVersion
        } else if p.strings@.contains_key(k) {
            SourceRefView::Pure(p.strings@[k])
        } else if rem.contains_key(k) {
            SourceRefView::InterpolatedFromVersion {
                parts: parts_view(rem[k].parts@),
                version_var: template_version_var(parts_view(rem[k].parts@), vv, iv),
            }
        } else {
            SourceRefView::Missing
        },
    }
}

pub open spec fn opt_static(o: Option<String>) -> Option<Seq<char>> {
    match o {
        Some(s) => Some(s@),
        None => None,
    }
}

fn first_affix_var_exec(template: &StringValue, vv: &Vec<String>, iv: &StrMap<String>) -> (r: String)
    ensures
        r@ == template_version_var(
            parts_view(template.parts@),
            crate::parser::tree::strings_view(vv@),
            iv@,
        ),
{
    let ghost sv = crate::parser::tree::strings_view(vv@);
    let ghost pv = parts_view(template.parts@);
    assert(iv@.map_values(|v: Seq<char>| v) =~= iv@);
    let mut j: usize = 0;
    while j < vv.len()
        invariant
            j <= vv@.len(),
            sv == crate::parser::tree::strings_view(vv@),
            pv == parts_view(template.parts@),
            iv@.map_values(|v: Seq<char>| v) == iv@,
            first_affix_var(pv, sv, iv@, 0) == first_affix_var(pv, sv, iv@, j as int),
        decreases vv.len() - j,
    {
        assert(sv[j as int] == vv@[j as int]@);
        if template.interpolated_var_affixes(vv[j].as_str(), iv).is_some() {
            return vv[j].clone();
        }
        j += 1;
    }
    if vv.len() > 0 {
        assert(sv[0] == vv@[0]@);
        vv[0].clone()
    } else {
        String::new()
    }
}

fn vv_contains(vv: &Vec<String>, s: &str) -> (b: bool)
    ensures
        b == crate::parser::tree::strings_view(vv@).contains(s@),
{
    let ghost sv = crate::parser::tree::strings_view(vv@);
    let mut j: usize = 0;
    while j < vv.len()
        invariant
            j <= vv@.len(),
            sv == crate::parser::tree::strings_view(vv@),
            forall|q: int| 0 <= q < j ==> sv[q] != s@,
        decreases vv.len() - j,
    {
        assert(sv[j as int] == vv@[j as int]@);
        if crate::text::eq_str(&chars_of(vv[j].as_str()), s) {
            assert(sv[j as int] == s@);
            return true;
        }
        j += 1;
    }
    false
}

/// Finishes reading a builder call from its context and its source's
/// attributes, interpolations resolved: `None` when an attribute the
/// fetcher needs stays unresolved.
fn derivation_call_from(
    node: &NixNode,
    c: &DerivationContext,
    parsed: ParsedAttrs,
    rem: StrMap<StringValue>,
    unresolved: &Vec<String>,
    vv: &Vec<String>,
    iv: StrMap<String>,
) -> (r: Option<DerivationCall>)
    requires
        node.wf(),
        c.wf(node),
    ensures
        match r {
            Some(d) => {
                &&& !(exists|j: int, q: int|
                    0 <= j < unresolved@.len() && 0 <= q < crate::rules::fetcher::kind::kind_attrs(c.kind).len()
                        && unresolved@[j]@ == crate::rules::fetcher::kind::kind_attrs(c.kind)[q].0)
                &&& d.version_value@ == c.version@ && d.version_range == node.t().ranges[c.version_node.i()]
                &&& opt_static(d.source_ref_key) == spec_source_ref_key(parsed.strings@, rem@.dom())
                &&& source_ref_view(d.source_ref_value) == spec_source_ref_value(
                    parsed,
                    rem@,
                    spec_source_ref_key(parsed.strings@, rem@.dom()),
                    crate::parser::tree::strings_view(vv@),
                    iv@,
                )
                &&& d.source_ref_range == match spec_source_ref_key(parsed.strings@, rem@.dom()) {
                    Some(k) => crate::rules::fetcher::dispatch::range_of(parsed, k),
                    None => None,
                }
                &&& d.fetcher_kind == c.kind && d.fetcher_parsed == parsed && d.extra_vars@ == iv@
                &&& d.pinned == (spec_has_pin_comment(node.t(), c.arg.i()) || spec_has_pin_comment(node.t(), node.i())
                    || spec_has_pin_comment(node.t(), c.src_arg.i()) || spec_has_pin_comment(
                    node.t(),
                    c.src_value.i(),
                ))
            },
            None => exists|j: int, q: int|
                0 <= j < unresolved@.len() && 0 <= q < crate::rules::fetcher::kind::kind_attrs(c.kind).len()
                    && unresolved@[j]@ == crate::rules::fetcher::kind::kind_attrs(c.kind)[q].0,
        },
{
    proof {
        reveal_strlit("tag");
        reveal_strlit("rev");
        reveal_strlit("ref");
    }
    let op_keys = c.kind.operational_keys();
    let mut j: usize = 0;
    while j < unresolved.len()
        invariant
            j <= unresolved@.len(),
            op_keys@.len() == crate::rules::fetcher::kind::kind_attrs(c.kind).len(),
            forall|q: int| 0 <= q < op_keys@.len() ==> op_keys@[q]@ == crate::rules::fetcher::kind::kind_attrs(c.kind)[q].0,
            forall|jj: int, q: int|
                0 <= jj < j && 0 <= q < op_keys@.len() ==> unresolved@[jj]@ != crate::rules::fetcher::kind::kind_attrs(
                    c.kind,
                )[q].0,
        decreases unresolved.len() - j,
    {
        let kv = chars_of(unresolved[j].as_str());
        let mut q: usize = 0;
        while q < op_keys.len()
            invariant
                q <= op_keys@.len(),
                j < unresolved@.len(),
                kv@ == unresolved@[j as int]@,
                op_keys@.len() == crate::rules::fetcher::kind::kind_attrs(c.kind).len(),
                forall|qq: int| 0 <= qq < op_keys@.len() ==> op_keys@[qq]@ == crate::rules::fetcher::kind::kind_attrs(c.kind)[qq].0,
                forall|qq: int| 0 <= qq < q ==> unresolved@[j as int]@ != crate::rules::fetcher::kind::kind_attrs(c.kind)[qq].0,
            decreases op_keys.len() - q,
        {
            if crate::text::eq_str(&kv, op_keys[q]) {
                return None;
            }
            q += 1;
        }
        j += 1;
    }
    let key: Option<String> = match crate::rules::fetcher::preferred_ref_key(&parsed) {
        Some(k) => Some(String::from_str(k)),
        None => if rem.contains_key("tag") {
            Some(String::from_str("tag"))
        } else if rem.contains_key("rev") {
            Some(String::from_str("rev"))
        } else if rem.contains_key("ref") {
            Some(String::from_str("ref"))
        } else {
            None
        },
    };
    let value = match &key {
        None => SourceRefValue::Missing,
        Some(k) => {
            let ident_version = match parsed.ident_resolved.get(k.as_str()) {
                Some(name) => vv_contains(vv, name.as_str()),
                None => false,
            };
            if ident_version {
                SourceRefValue::IdentFromVersion
            } else {
                match parsed.strings.get(k.as_str()) {
                    Some(v) => SourceRefValue::Pure(v.clone()),
                    None => match rem.get(k.as_str()) {
                        Some(t) => {
                            let var = first_affix_var_exec(t, vv, &iv);
                            let template = t.copy();
                            SourceRefValue::InterpolatedFromVersion { template, version_var: var }
                        },
                        None => SourceRefValue::Missing,
                    },
                }
            }
        },
    };
    let range = match &key {
        Some(k) => parsed.string_range(k.as_str()),
        None => None,
    };
    let pinned = c.arg.has_pin_comment() || node.has_pin_comment() || c.src_arg.has_pin_comment()
        || c.src_value.has_pin_comment();
    Some(
        DerivationCall {
            version_value: c.version.clone(),
            version_range: c.version_node.text_range(),
            source_ref_key: key,
            source_ref_value: value,
            source_ref_range: range,
            fetcher_kind: c.kind,
            fetcher_parsed: parsed,
            extra_vars: iv,
            pinned,
        },
    )
}

} // verus!

verus! {

/// Whether `d` is what a builder call with context `v` gives when its
/// source's attributes read as `fa` under the context's rules: the
/// interpolations other than refs resolved with the context's bindings,
/// no attribute the fetcher needs left unresolved, and the ref attribute,
/// its value and range, and pins read off the result.
pub open spec fn call_from_attrs(f: NixFile, i: int, v: ContextView, fa: crate::rules::fetcher::interpolate::FetcherAttrs, d: DerivationCall) -> bool {
    let iv = interp_vars(v.stable, v.is_rec, v.param);
    let vv = version_vars(v.is_rec, v.param);
    let im = fa.interpolated@;
    let rs = resolvable(im, iv);
    let p = d.fetcher_parsed;
    let key = spec_source_ref_key(p.strings@, im.dom().difference(rs));
    let t = f.table();
    &&& !(exists|j: int, q: int|
        0 <= j < fa.interpolated_unresolved@.len() && 0 <= q < crate::rules::fetcher::kind::kind_attrs(v.kind).len()
            && fa.interpolated_unresolved@[j]@ == crate::rules::fetcher::kind::kind_attrs(v.kind)[q].0)
    &&& p.strings@ == fa.parsed.strings@.union_prefer_right(resolved_values(im, iv))
    &&& p.bools == fa.parsed.bools && p.ints == fa.parsed.ints && p.list_strings == fa.parsed.list_strings
    &&& p.list_ints == fa.parsed.list_ints && p.string_nodes == fa.parsed.string_nodes
    &&& p.unknown_keys == fa.parsed.unknown_keys && p.ident_resolved == fa.parsed.ident_resolved
    &&& d.version_value@ == v.version && d.version_range == t.ranges[v.version_node]
    &&& opt_static(d.source_ref_key) == key
    &&& source_ref_view(d.source_ref_value) == spec_source_ref_value(p, im.remove_keys(rs), key, vv, iv)
    &&& d.source_ref_range == match key {
        Some(k) => crate::rules::fetcher::dispatch::range_of(p, k),
        None => None,
    }
    &&& d.fetcher_kind == v.kind && d.extra_vars@ == iv
    &&& d.pinned == (spec_has_pin_comment(t, v.arg) || spec_has_pin_comment(t, i) || spec_has_pin_comment(t, v.src_arg)
        || spec_has_pin_comment(t, v.src_value))
}

/// The identifier bindings of a context, if any.
pub open spec fn context_idents(v: ContextView) -> Option<Map<Seq<char>, Seq<char>>> {
    let idv = ident_map(v.stable, v.is_rec, v.param, v.version);
    if idv.dom().len() > 0 {
        Some(idv)
    } else {
        None
    }
}

/// Whether an attribute the fetcher needs stays unresolved.
pub open spec fn needs_unresolved(kind: FetcherKind, fa: crate::rules::fetcher::interpolate::FetcherAttrs) -> bool {
    exists|j: int, q: int|
        0 <= j < fa.interpolated_unresolved@.len() && 0 <= q < crate::rules::fetcher::kind::kind_attrs(kind).len()
            && fa.interpolated_unresolved@[j]@ == crate::rules::fetcher::kind::kind_attrs(kind)[q].0
}

/// Reads builder call `node` of one of `func_names`: `None` unless its
/// context reads (see [`spec_context`]); otherwise what its source's
/// attributes give under the context's interpolation rules (see
/// [`call_from_attrs`]), `None` when they do not read or leave an
/// attribute the fetcher needs unresolved.
pub fn try_extract_call(func_names: &Vec<String>, node: &NixNode) -> (r: Option<DerivationCall>)
    requires
        node.wf(),
    ensures
        spec_context(*node.file, node.i(), crate::parser::tree::strings_view(func_names@)) is None ==> r is None,
        r matches Some(d) ==> (spec_context(*node.file, node.i(), crate::parser::tree::strings_view(func_names@)) matches Some(v)
            && exists|spec: InterpolationSpec, fa: crate::rules::fetcher::interpolate::FetcherAttrs|
                #[trigger] context_spec(v, spec) && #[trigger] crate::rules::fetcher::interpolate::fetcher_attrs_of(*node.file, v.src_arg, v.kind, spec, fa)
                    && call_from_attrs(*node.file, node.i(), v, fa, d)),
        r is None ==> match spec_context(*node.file, node.i(), crate::parser::tree::strings_view(func_names@)) {
            None => true,
            Some(v) => crate::parser::attrs::spec_parse_attrs(
                *node.file,
                v.src_arg,
                crate::rules::fetcher::kind::kind_attrs(v.kind),
                context_idents(v),
            ) is Err || exists|spec: InterpolationSpec, fa: crate::rules::fetcher::interpolate::FetcherAttrs|
                #[trigger] context_spec(v, spec) && #[trigger] crate::rules::fetcher::interpolate::fetcher_attrs_of(*node.file, v.src_arg, v.kind, spec, fa)
                    && needs_unresolved(v.kind, fa),
        },
{
    let ghost names = crate::parser::tree::strings_view(func_names@);
    let ctx = match read_context(node, func_names) {
        Some(c) => c,
        None => return None,
    };
    let ghost v = spec_context(*node.file, node.i(), names)->Some_0;
    let (spec, iv, vv) = context_spec_exec(&ctx, Ghost(v));
    let attrs = match crate::rules::fetcher::interpolate::parse_fetcher_attrset(ctx.kind, &ctx.src_arg, &spec) {
        Ok(a) => a,
        Err(_) => {
            return None;
        },
    };
    let ghost im = attrs.interpolated@;
    let ghost fa0 = attrs;
    let (parsed, rem) = resolve_interpolated(attrs.parsed, &attrs.interpolated, &iv);
    let unresolved = attrs.interpolated_unresolved;
    let r = derivation_call_from(node, &ctx, parsed, rem, &unresolved, &vv, iv);
    proof {
        let rs = resolvable(im, iv@);
        let rr = r;
        match rr {
            Some(d) => {
                let key = spec_source_ref_key(d.fetcher_parsed.strings@, im.dom().difference(rs));
                assert(rem@.dom() == im.remove_keys(rs).dom());
                assert(spec_source_ref_value(d.fetcher_parsed, rem@, key, vv@.map_values(|s: String| s@), iv@)
                    == spec_source_ref_value(d.fetcher_parsed, im.remove_keys(rs), key, vv@.map_values(|s: String| s@), iv@)) by {
                    match key {
                        Some(k) => {
                            if rem@.contains_key(k) {
                                assert(crate::parser::ast::sv_equiv(rem@[k], im[k]));
                            }
                        },
                        None => {},
                    }
                }
                assert(call_from_attrs(*node.file, node.i(), v, fa0, d));
            },
            None => {
                assert(needs_unresolved(v.kind, fa0));
            },
        }
    }
    r
}

} // verus!
