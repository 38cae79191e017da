//! Reading an attribute set against a schema of expected keys and types.
use vstd::prelude::*;

use crate::parser::ast::{parts_view, pure_content, AttrSpec, AttrType, ParsedAttrs, StrPart, StrPartView, StringValue};
use crate::parser::node::{
    join_dot, opt_string_view, select_parts, spec_attr_value, spec_attrpath_segments, spec_pure_string, spec_string_parts, NixNode,
};
use crate::parser::tree::{spec_rnix_name, strings_view, NixFile, NixKind, Table};
use crate::strmap::StrMap;
use crate::text::{chars_of, eq_str, trim};

verus! {

// ---------------------------------------------------------------------------
// Integer literals
// ---------------------------------------------------------------------------

pub open spec fn is_digit(c: char) -> bool {
    '0' <= c && c <= '9'
}

/// The value of a string of decimal digits.
pub open spec fn decimal_value(d: Seq<char>) -> int
    decreases d.len(),
{
    if d.len() == 0 {
        0
    } else {
        10 * decimal_value(d.drop_last()) + (d.last() as int - '0' as int)
    }
}

/// What `str::parse::<i64>` accepts: an optional sign, then at least one
/// ASCII digit and nothing else, with a value that fits.
pub open spec fn split_sign(s: Seq<char>) -> (bool, Seq<char>) {
    if s.len() > 0 && s[0] == '-' {
        (true, s.subrange(1, s.len() as int))
    } else if s.len() > 0 && s[0] == '+' {
        (false, s.subrange(1, s.len() as int))
    } else {
        (false, s)
    }
}

pub open spec fn spec_parse_i64(s: Seq<char>) -> Option<i64> {
    let neg = split_sign(s).0;
    let d = split_sign(s).1;
    let v = if neg { -decimal_value(d) } else { decimal_value(d) };
    if d.len() > 0 && (forall|i: int| 0 <= i < d.len() ==> is_digit(d[i])) && i64::MIN <= v <= i64::MAX {
        Some(v as i64)
    } else {
        None
    }
}

proof fn lemma_decimal_nonneg(d: Seq<char>)
    requires
        forall|i: int| 0 <= i < d.len() ==> is_digit(d[i]),
    ensures
        decimal_value(d) >= 0,
        d.len() > 0 ==> decimal_value(d) >= decimal_value(d.drop_last()),
    decreases d.len(),
{
    if d.len() > 0 {
        lemma_decimal_nonneg(d.drop_last());
    }
}

/// Parses a decimal integer as `str::parse::<i64>` does.
pub fn parse_i64(s: &str) -> (r: Option<i64>)
    ensures
        r == spec_parse_i64(s@),
{
    let v = chars_of(s);
    let mut start: usize = 0;
    let mut neg = false;
    if v.len() > 0 && v[0] == '-' {
        neg = true;
        start = 1;
    } else if v.len() > 0 && v[0] == '+' {
        start = 1;
    }
    let ghost d = v@.subrange(start as int, v@.len() as int);
    assert(split_sign(s@) == (neg, d));
    if start >= v.len() {
        return None;
    }
    let mut acc: u128 = 0;
    let mut i: usize = start;
    while i < v.len()
        invariant
            start <= i <= v@.len(),
            start < v@.len(),
            d == v@.subrange(start as int, v@.len() as int),
            v@ == s@,
            split_sign(s@) == (neg, d),
            forall|k: int| start <= k < i ==> is_digit(v@[k]),
            acc as int == decimal_value(v@.subrange(start as int, i as int)),
            acc <= 0x8000_0000_0000_0000u128,
        decreases v.len() - i,
    {
        let c = v[i];
        let ghost prefix = v@.subrange(start as int, i + 1);
        assert(prefix.drop_last() =~= v@.subrange(start as int, i as int));
        if !('0' <= c && c <= '9') {
            proof {
                assert(d[i - start] == c);
            }
            return None;
        }
        let digit = (c as u32 - '0' as u32) as u128;
        let next = acc * 10 + digit;
        if next > 0x8000_0000_0000_0000u128 {
            proof {
                if forall|k: int| 0 <= k < d.len() ==> is_digit(d[k]) {
                    lemma_decimal_prefix(d, i + 1 - start);
                    assert(d.subrange(0, i + 1 - start) =~= prefix);
                }
            }
            return None;
        }
        acc = next;
        i += 1;
    }
    assert(v@.subrange(start as int, v@.len() as int) == d);
    assert(forall|k: int| 0 <= k < d.len() ==> is_digit(d[k])) by {
        assert forall|k: int| 0 <= k < d.len() implies is_digit(d[k]) by {
            assert(d[k] == v@[start + k]);
        }
    }
    if neg {
        let r = (0i128 - (acc as i128)) as i64;
        Some(r)
    } else {
        if acc > 0x7fff_ffff_ffff_ffffu128 {
            return None;
        }
        Some(acc as i64)
    }
}

/// A number's digits never have a smaller value than a prefix of them.
proof fn lemma_decimal_prefix(d: Seq<char>, n: int)
    requires
        0 <= n <= d.len(),
        forall|i: int| 0 <= i < d.len() ==> is_digit(d[i]),
    ensures
        decimal_value(d) >= decimal_value(d.subrange(0, n)),
    decreases d.len(),
{
    if n < d.len() {
        lemma_decimal_prefix(d.drop_last(), n);
        assert(d.drop_last().subrange(0, n) =~= d.subrange(0, n));
        lemma_decimal_nonneg(d.drop_last());
    } else {
        assert(d.subrange(0, n) =~= d);
    }
}


// ---------------------------------------------------------------------------
// Attribute sets against a schema
// ---------------------------------------------------------------------------

/// What reading an attribute set produces, with string literals given by
/// their node numbers.
pub struct AttrsModel {
    pub strings: Map<Seq<char>, Seq<char>>,
    pub bools: Map<Seq<char>, bool>,
    pub ints: Map<Seq<char>, i64>,
    pub list_strings: Map<Seq<char>, Seq<int>>,
    pub list_ints: Map<Seq<char>, Seq<i64>>,
    pub string_nodes: Map<Seq<char>, int>,
    pub unknown_keys: Seq<Seq<char>>,
    pub ident_resolved: Map<Seq<char>, Seq<char>>,
}

pub open spec fn empty_model() -> AttrsModel {
    AttrsModel {
        strings: Map::empty(),
        bools: Map::empty(),
        ints: Map::empty(),
        list_strings: Map::empty(),
        list_ints: Map::empty(),
        string_nodes: Map::empty(),
        unknown_keys: Seq::empty(),
        ident_resolved: Map::empty(),
    }
}

/// The type the schema gives `key` (the last entry for it, as a map built
/// from the schema keeps).
pub open spec fn type_of_key(specs: Seq<(Seq<char>, AttrType)>, key: Seq<char>, n: int) -> Option<AttrType>
    decreases n,
{
    if n <= 0 || n > specs.len() {
        None
    } else if specs[n - 1].0 == key {
        Some(specs[n - 1].1)
    } else {
        type_of_key(specs, key, n - 1)
    }
}

/// The string literals among the nodes `cs`.
pub open spec fn string_items(t: Table, cs: Seq<usize>) -> Seq<int>
    decreases cs.len(),
{
    if cs.len() == 0 {
        Seq::empty()
    } else if t.kinds[cs.last() as int] == NixKind::String {
        string_items(t, cs.drop_last()).push(cs.last() as int)
    } else {
        string_items(t, cs.drop_last())
    }
}

/// The integer literals `cs`, when all of them are.
pub open spec fn int_items(t: Table, cs: Seq<usize>) -> Option<Seq<i64>>
    decreases cs.len(),
{
    if cs.len() == 0 {
        Some(Seq::empty())
    } else {
        match int_items(t, cs.drop_last()) {
            Some(acc) => if t.kinds[cs.last() as int] == NixKind::Literal {
                match spec_parse_i64(trim(t.texts[cs.last() as int])) {
                    Some(v) => Some(acc.push(v)),
                    None => None,
                }
            } else {
                None
            },
            None => None,
        }
    }
}

/// An error about `key`.
pub open spec fn key_error(key: Seq<char>, rest: Seq<char>) -> Seq<char> {
    "key \""@ + key + "\" "@ + rest
}

/// Reading binding `c` into `m`.
pub open spec fn attrs_step(
    f: NixFile,
    specs: Seq<(Seq<char>, AttrType)>,
    ident: Option<Map<Seq<char>, Seq<char>>>,
    m: AttrsModel,
    c: int,
) -> Result<AttrsModel, Seq<char>> {
    let t = f.table();
    let segs = spec_attrpath_segments(t, c);
    if t.kinds[c] != NixKind::AttrpathValue || segs.len() != 1 {
        Ok(m)
    } else {
        let key = segs[0];
        match spec_attr_value(t, c) {
            None => Ok(m),
            Some(v) => {
                let k = t.kinds[v];
                let tx = trim(t.texts[v]);
                match type_of_key(specs, key, specs.len() as int) {
                    Some(AttrType::String) => if k == NixKind::String {
                        let m2 = AttrsModel { string_nodes: m.string_nodes.insert(key, v), ..m };
                        match spec_pure_string(f, v) {
                            Some(content) => Ok(AttrsModel { strings: m2.strings.insert(key, content), ..m2 }),
                            None => Ok(m2),
                        }
                    } else if k == NixKind::Ident {
                        if tx == "true"@ || tx == "false"@ {
                            Err(key_error(key, "expected string but found bool"@))
                        } else if ident matches Some(iv) && iv.contains_key(tx) {
                            Ok(AttrsModel {
                                strings: m.strings.insert(key, ident.unwrap()[tx]),
                                ident_resolved: m.ident_resolved.insert(key, tx),
                                ..m
                            })
                        } else {
                            Err(key_error(key, "expected string but found ident '"@ + tx + "'"@))
                        }
                    } else if k == NixKind::Select && (ident matches Some(iv) && iv.contains_key(
                        join_dot(select_parts(t, v)),
                    )) {
                        let name = join_dot(select_parts(t, v));
                        Ok(AttrsModel {
                            strings: m.strings.insert(key, ident.unwrap()[name]),
                            ident_resolved: m.ident_resolved.insert(key, name),
                            ..m
                        })
                    } else {
                        Err(key_error(key, "expected string but found "@ + spec_rnix_name(k)))
                    },
                    Some(AttrType::Bool) => if k == NixKind::Ident {
                        if tx == "true"@ {
                            Ok(AttrsModel { bools: m.bools.insert(key, true), ..m })
                        } else if tx == "false"@ {
                            Ok(AttrsModel { bools: m.bools.insert(key, false), ..m })
                        } else {
                            Err(key_error(key, "expected bool but found ident '"@ + tx + "'"@))
                        }
                    } else {
                        Err(key_error(key, "expected bool but found "@ + spec_rnix_name(k)))
                    },
                    Some(AttrType::Int) => if k == NixKind::Literal {
                        match spec_parse_i64(tx) {
                            Some(n) => Ok(AttrsModel { ints: m.ints.insert(key, n), ..m }),
                            None => Err(key_error(key, "expected int but found non-numeric literal"@)),
                        }
                    } else {
                        Err(key_error(key, "expected int but found "@ + spec_rnix_name(k)))
                    },
                    Some(AttrType::ListString) => if k == NixKind::List {
                        Ok(AttrsModel { list_strings: m.list_strings.insert(key, string_items(t, t.children[v])), ..m })
                    } else {
                        Err(key_error(key, "expected list of strings but found "@ + spec_rnix_name(k)))
                    },
                    Some(AttrType::ListInt) => if k == NixKind::List {
                        match int_items(t, t.children[v]) {
                            Some(items) => Ok(AttrsModel { list_ints: m.list_ints.insert(key, items), ..m }),
                            None => Err(key_error(key, "list contains non-integer item"@)),
                        }
                    } else {
                        Err(key_error(key, "expected list of ints but found "@ + spec_rnix_name(k)))
                    },
                    None => {
                        let m2 = if k == NixKind::String {
                            let m3 = AttrsModel { string_nodes: m.string_nodes.insert(key, v), ..m };
                            match spec_pure_string(f, v) {
                                Some(content) => AttrsModel { strings: m3.strings.insert(key, content), ..m3 },
                                None => m3,
                            }
                        } else if k == NixKind::Ident && tx == "true"@ {
                            AttrsModel { bools: m.bools.insert(key, true), ..m }
                        } else if k == NixKind::Ident && tx == "false"@ {
                            AttrsModel { bools: m.bools.insert(key, false), ..m }
                        } else {
                            m
                        };
                        Ok(AttrsModel { unknown_keys: m2.unknown_keys.push(key), ..m2 })
                    },
                }
            },
        }
    }
}

/// Reading the bindings `cs` in order, stopping at the first error.
pub open spec fn attrs_fold(
    f: NixFile,
    specs: Seq<(Seq<char>, AttrType)>,
    ident: Option<Map<Seq<char>, Seq<char>>>,
    cs: Seq<usize>,
) -> Result<AttrsModel, Seq<char>>
    decreases cs.len(),
{
    if cs.len() == 0 {
        Ok(empty_model())
    } else {
        match attrs_fold(f, specs, ident, cs.drop_last()) {
            Ok(m) => attrs_step(f, specs, ident, m, cs.last() as int),
            Err(e) => Err(e),
        }
    }
}

/// What [`NixNode::parse_attrs`] makes of node `i`: nothing for a node that
/// is not an attribute set; otherwise its single-segment bindings read in
/// order against the schema.
pub open spec fn spec_parse_attrs(
    f: NixFile,
    i: int,
    specs: Seq<(Seq<char>, AttrType)>,
    ident: Option<Map<Seq<char>, Seq<char>>>,
) -> Result<AttrsModel, Seq<char>> {
    if f.table().kinds[i] != NixKind::AttrSet {
        Ok(empty_model())
    } else {
        attrs_fold(f, specs, ident, f.table().children[i])
    }
}

/// The parts a string node is read with; a string whose parts `rnix` does
/// not give is held as one unresolvable interpolation.
pub open spec fn node_parts(f: NixFile, v: int) -> Seq<StrPartView> {
    match spec_string_parts(f, v) {
        Some(p) => p,
        None => seq![StrPartView::Interpolation(None)],
    }
}

/// A string value read from node `v`.
pub open spec fn sv_matches(s: StringValue, f: NixFile, v: int) -> bool {
    s.range == f.ranges@[v] && parts_view(s.parts@) == node_parts(f, v)
}

/// The parsed attributes hold what the model says.
pub open spec fn attrs_rel(p: ParsedAttrs, m: AttrsModel, f: NixFile) -> bool {
    &&& p.strings@ == m.strings
    &&& p.bools@ == m.bools
    &&& p.ints@ == m.ints
    &&& p.list_ints@ == m.list_ints
    &&& strings_view(p.unknown_keys@) == m.unknown_keys
    &&& p.ident_resolved@ == m.ident_resolved
    &&& p.string_nodes@.dom() == m.string_nodes.dom()
    &&& forall|k: Seq<char>| #[trigger] p.string_nodes@.contains_key(k) ==> sv_matches(p.string_nodes@[k], f, m.string_nodes[k])
    &&& p.list_strings@.dom() == m.list_strings.dom()
    &&& forall|k: Seq<char>| #[trigger] p.list_strings@.contains_key(k) ==> p.list_strings@[k].len() == m.list_strings[k].len()
        && forall|j: int| 0 <= j < p.list_strings@[k].len() ==> sv_matches(#[trigger] p.list_strings@[k][j], f, m.list_strings[k][j])
}

pub open spec fn opt_map_view(o: Option<&StrMap<String>>) -> Option<Map<Seq<char>, Seq<char>>> {
    match o {
        Some(m) => Some(m@),
        None => None,
    }
}

fn key_error_exec(key: &str, rest: &str) -> (r: String)
    ensures
        r@ == key_error(key@, rest@),
{
    let mut r = String::from_str("key \"");
    r.append(key);
    r.append("\" ");
    r.append(rest);
    r
}

fn type_of_key_exec(specs: &[AttrSpec], key: &str) -> (r: Option<AttrType>)
    ensures
        r == type_of_key(crate::forge::attrs_view(specs@), key@, specs@.len() as int),
{
    let ghost sv = crate::forge::attrs_view(specs@);
    let mut n = specs.len();
    while n > 0
        invariant
            n <= specs@.len(),
            sv == crate::forge::attrs_view(specs@),
            type_of_key(sv, key@, n as int) == type_of_key(sv, key@, specs@.len() as int),
        decreases n,
    {
        if eq_str(&chars_of(specs[n - 1].key), key) {
            return Some(specs[n - 1].attr_type);
        }
        n -= 1;
    }
    None
}

impl<'a> NixNode<'a> {
    /// The string value of a string node (see [`node_parts`]).
    fn read_string(&self) -> (r: StringValue)
        requires
            self.wf(),
        ensures
            sv_matches(r, *self.file, self.i()),
    {
        match self.string_value() {
            Some(v) => v,
            None => {
                let mut parts: Vec<StrPart> = Vec::new();
                parts.push(StrPart::Interpolation(None));
                assert(parts_view(parts@) =~= seq![StrPartView::Interpolation(None)]);
                StringValue { range: self.text_range(), parts }
            },
        }
    }
}


/// Binding a string literal to `key` keeps the relation.
proof fn lemma_insert_string_node(p: ParsedAttrs, q: ParsedAttrs, m: AttrsModel, f: NixFile, key: Seq<char>, v: int, sv: StringValue)
    requires
        attrs_rel(p, m, f),
        sv_matches(sv, f, v),
        q.string_nodes@ == p.string_nodes@.insert(key, sv),
        q.strings@ == p.strings@,
        q.bools@ == p.bools@,
        q.ints@ == p.ints@,
        q.list_ints@ == p.list_ints@,
        q.list_strings@ == p.list_strings@,
        q.unknown_keys@ == p.unknown_keys@,
        q.ident_resolved@ == p.ident_resolved@,
    ensures
        attrs_rel(q, AttrsModel { string_nodes: m.string_nodes.insert(key, v), ..m }, f),
{
    let m2 = AttrsModel { string_nodes: m.string_nodes.insert(key, v), ..m };
    assert(q.string_nodes@.dom() =~= m2.string_nodes.dom());
    assert forall|k: Seq<char>| #[trigger] q.string_nodes@.contains_key(k) implies sv_matches(
        q.string_nodes@[k],
        f,
        m2.string_nodes[k],
    ) by {
        if k != key {
            assert(p.string_nodes@.contains_key(k));
        }
    }
}

impl<'a> NixNode<'a> {
    /// The string literals among this list's items.
    fn list_string_items(&self) -> (r: Vec<StringValue>)
        requires
            self.wf(),
        ensures
            r@.len() == string_items(self.t(), self.t().children[self.i()]).len(),
            forall|j: int| 0 <= j < r@.len() ==> sv_matches(#[trigger] r@[j], *self.file, string_items(self.t(), self.t().children[self.i()])[j]),
    {
        let cs = self.children();
        let ghost t = self.t();
        let ghost ch = t.children[self.i()];
        let mut items: Vec<StringValue> = Vec::new();
        let mut k: usize = 0;
        while k < cs.len()
            invariant
                self.wf(),
                t == self.t(),
                ch == t.children[self.i()],
                cs@.len() == ch.len(),
                forall|q: int| 0 <= q < cs@.len() ==> (#[trigger] cs@[q]).wf() && cs@[q].file == self.file && cs@[q].index == ch[q],
                k <= cs@.len(),
                items@.len() == string_items(t, ch.subrange(0, k as int)).len(),
                forall|j: int| 0 <= j < items@.len() ==> sv_matches(#[trigger] items@[j], *self.file, string_items(t, ch.subrange(0, k as int))[j]),
            decreases cs.len() - k,
        {
            let c = cs[k];
            assert(ch.subrange(0, k + 1).drop_last() =~= ch.subrange(0, k as int));
            assert(ch.subrange(0, k + 1).last() == c.index);
            if c.kind() == NixKind::String {
                let sv = c.read_string();
                items.push(sv);
            }
            k += 1;
        }
        assert(ch.subrange(0, ch.len() as int) =~= ch);
        items
    }

    /// The integer literals that are this list's items, when all are.
    fn list_int_items(&self) -> (r: Option<Vec<i64>>)
        requires
            self.wf(),
        ensures
            match r {
                Some(v) => int_items(self.t(), self.t().children[self.i()]) == Some(v@),
                None => int_items(self.t(), self.t().children[self.i()]) is None,
            },
    {
        let cs = self.children();
        let ghost t = self.t();
        let ghost ch = t.children[self.i()];
        let mut items: Vec<i64> = Vec::new();
        let mut k: usize = 0;
        while k < cs.len()
            invariant
                self.wf(),
                t == self.t(),
                ch == t.children[self.i()],
                cs@.len() == ch.len(),
                forall|q: int| 0 <= q < cs@.len() ==> (#[trigger] cs@[q]).wf() && cs@[q].file == self.file && cs@[q].index == ch[q],
                k <= cs@.len(),
                int_items(t, ch.subrange(0, k as int)) == Some(items@),
            decreases cs.len() - k,
        {
            let c = cs[k];
            assert(ch.subrange(0, k + 1).drop_last() =~= ch.subrange(0, k as int));
            assert(ch.subrange(0, k + 1).last() == c.index);
            if c.kind() != NixKind::Literal {
                proof { lemma_int_items_none(t, ch, k as int + 1); }
                return None;
            }
            match parse_i64(c.text_trimmed().as_str()) {
                Some(n) => items.push(n),
                None => {
                    proof { lemma_int_items_none(t, ch, k as int + 1); }
                    return None;
                },
            }
            k += 1;
        }
        assert(ch.subrange(0, ch.len() as int) =~= ch);
        Some(items)
    }
}

/// Once a prefix of the items fails, the whole list does.
proof fn lemma_int_items_none(t: Table, ch: Seq<usize>, k: int)
    requires
        0 < k <= ch.len(),
        int_items(t, ch.subrange(0, k)) is None,
    ensures
        int_items(t, ch) is None,
    decreases ch.len() - k,
{
    if k < ch.len() {
        assert(ch.subrange(0, k + 1).drop_last() =~= ch.subrange(0, k));
        lemma_int_items_none(t, ch, k + 1);
    } else {
        assert(ch.subrange(0, k) =~= ch);
    }
}


pub open spec fn step_matches(r: Result<ParsedAttrs, String>, s: Result<AttrsModel, Seq<char>>, f: NixFile) -> bool {
    match (r, s) {
        (Ok(p), Ok(m)) => attrs_rel(p, m, f),
        (Err(e), Err(e2)) => e@ == e2,
        _ => false,
    }
}

impl<'a> NixNode<'a> {
    /// Reads binding `c` into `p` (see [`attrs_step`]).
    fn read_binding(
        c: NixNode<'a>,
        specs: &[AttrSpec],
        ident_vars: Option<&StrMap<String>>,
        p: ParsedAttrs,
        Ghost(m): Ghost<AttrsModel>,
    ) -> (r: Result<ParsedAttrs, String>)
        requires
            c.wf(),
            attrs_rel(p, m, *c.file),
        ensures
            step_matches(r, attrs_step(*c.file, crate::forge::attrs_view(specs@), opt_map_view(ident_vars), m, c.i()), *c.file),
    {
        let ghost f = *c.file;
        let ghost t = c.t();
        proof {
            reveal_strlit("true");
            reveal_strlit("false");
        }
        if c.kind() != NixKind::AttrpathValue {
            return Ok(p);
        }
        let segs = c.attrpath_segments();
        if segs.len() != 1 {
            return Ok(p);
        }
        let key = segs[0].clone();
        assert(strings_view(segs@)[0] == key@);
        let v = match c.attr_value() {
            Some(v) => v,
            None => {
                return Ok(p);
            },
        };
        let k = v.kind();
        let tx = v.text_trimmed();
        let txv = chars_of(tx.as_str());
        let mut p = p;
        match type_of_key_exec(specs, key.as_str()) {
            Some(AttrType::String) => {
                if k == NixKind::String {
                    let sv = v.read_string();
                    let ghost p0 = p;
                    p.string_nodes.insert(key.clone(), sv);
                    proof { lemma_insert_string_node(p0, p, m, f, key@, v.i(), sv); }
                    match v.pure_string_content() {
                        Some(content) => {
                            p.strings.insert(key, content);
                        },
                        None => {},
                    }
                    Ok(p)
                } else if k == NixKind::Ident {
                    if eq_str(&txv, "true") || eq_str(&txv, "false") {
                        Err(key_error_exec(key.as_str(), "expected string but found bool"))
                    } else {
                        let resolved = match ident_vars {
                            Some(iv) => match iv.get(tx.as_str()) {
                                Some(r) => Some(r.clone()),
                                None => None,
                            },
                            None => None,
                        };
                        match resolved {
                            Some(r) => {
                                p.strings.insert(key.clone(), r);
                                p.ident_resolved.insert(key, tx.clone());
                                Ok(p)
                            },
                            None => {
                                let mut rest = String::from_str("expected string but found ident '");
                                rest.append(tx.as_str());
                                rest.append("'");
                                Err(key_error_exec(key.as_str(), rest.as_str()))
                            },
                        }
                    }
                } else {
                    if k == NixKind::Select {
                        let name = v.select_name();
                        let resolved = match ident_vars {
                            Some(iv) => match iv.get(name.as_str()) {
                                Some(r) => Some(r.clone()),
                                None => None,
                            },
                            None => None,
                        };
                        if let Some(r) = resolved {
                            p.strings.insert(key.clone(), r);
                            p.ident_resolved.insert(key, name);
                            return Ok(p);
                        }
                    }
                    let mut rest = String::from_str("expected string but found ");
                    rest.append(k.rnix_name());
                    Err(key_error_exec(key.as_str(), rest.as_str()))
                }
            },
            Some(AttrType::Bool) => {
                if k == NixKind::Ident {
                    if eq_str(&txv, "true") {
                        p.bools.insert(key, true);
                        Ok(p)
                    } else if eq_str(&txv, "false") {
                        p.bools.insert(key, false);
                        Ok(p)
                    } else {
                        let mut rest = String::from_str("expected bool but found ident '");
                        rest.append(tx.as_str());
                        rest.append("'");
                        Err(key_error_exec(key.as_str(), rest.as_str()))
                    }
                } else {
                    let mut rest = String::from_str("expected bool but found ");
                    rest.append(k.rnix_name());
                    Err(key_error_exec(key.as_str(), rest.as_str()))
                }
            },
            Some(AttrType::Int) => {
                if k == NixKind::Literal {
                    match parse_i64(tx.as_str()) {
                        Some(n) => {
                            p.ints.insert(key, n);
                            Ok(p)
                        },
                        None => Err(key_error_exec(key.as_str(), "expected int but found non-numeric literal")),
                    }
                } else {
                    let mut rest = String::from_str("expected int but found ");
                    rest.append(k.rnix_name());
                    Err(key_error_exec(key.as_str(), rest.as_str()))
                }
            },
            Some(AttrType::ListString) => {
                if k == NixKind::List {
                    let items = v.list_string_items();
                    let ghost p0 = p;
                    let ghost m2 = AttrsModel { list_strings: m.list_strings.insert(key@, string_items(t, t.children[v.i()])), ..m };
                    p.list_strings.insert(key.clone(), items);
                    proof {
                        assert(p.list_strings@.dom() =~= m2.list_strings.dom());
                        assert forall|kk: Seq<char>| #[trigger] p.list_strings@.contains_key(kk) implies p.list_strings@[kk].len() == m2.list_strings[kk].len()
                            && forall|j: int| 0 <= j < p.list_strings@[kk].len() ==> sv_matches(#[trigger] p.list_strings@[kk][j], f, m2.list_strings[kk][j]) by {
                            if kk != key@ {
                                assert(p0.list_strings@.contains_key(kk));
                            }
                        }
                    }
                    Ok(p)
                } else {
                    let mut rest = String::from_str("expected list of strings but found ");
                    rest.append(k.rnix_name());
                    Err(key_error_exec(key.as_str(), rest.as_str()))
                }
            },
            Some(AttrType::ListInt) => {
                if k == NixKind::List {
                    match v.list_int_items() {
                        Some(items) => {
                            p.list_ints.insert(key, items);
                            Ok(p)
                        },
                        None => Err(key_error_exec(key.as_str(), "list contains non-integer item")),
                    }
                } else {
                    let mut rest = String::from_str("expected list of ints but found ");
                    rest.append(k.rnix_name());
                    Err(key_error_exec(key.as_str(), rest.as_str()))
                }
            },
            None => {
                if k == NixKind::String {
                    let sv = v.read_string();
                    let ghost p0 = p;
                    p.string_nodes.insert(key.clone(), sv);
                    proof { lemma_insert_string_node(p0, p, m, f, key@, v.i(), sv); }
                    match v.pure_string_content() {
                        Some(content) => {
                            p.strings.insert(key.clone(), content);
                        },
                        None => {},
                    }
                } else if k == NixKind::Ident && eq_str(&txv, "true") {
                    p.bools.insert(key.clone(), true);
                } else if k == NixKind::Ident && eq_str(&txv, "false") {
                    p.bools.insert(key.clone(), false);
                }
                let ghost before = p.unknown_keys@;
                p.unknown_keys.push(key);
                assert(strings_view(p.unknown_keys@) =~= strings_view(before).push(segs@[0]@));
                Ok(p)
            },
        }
    }
}


impl<'a> NixNode<'a> {
    /// Reads this attribute set against a schema: each single-segment
    /// binding of a known key must have the schema's type (a string may
    /// also be an identifier resolved through `ident_vars`); unknown keys
    /// are recorded, and read as strings or booleans when they are ones.
    /// A node that is not an attribute set reads as empty.
    pub fn parse_attrs(&self, specs: &[AttrSpec], ident_vars: Option<&StrMap<String>>) -> (r: Result<
        ParsedAttrs,
        String,
    >)
        requires
            self.wf(),
        ensures
            step_matches(
                r,
                spec_parse_attrs(*self.file, self.i(), crate::forge::attrs_view(specs@), opt_map_view(ident_vars)),
                *self.file,
            ),
    {
        let mut p = ParsedAttrs::empty();
        let ghost f = *self.file;
        let ghost sv = crate::forge::attrs_view(specs@);
        let ghost iv = opt_map_view(ident_vars);
        proof {
            assert(p.strings@ =~= empty_model().strings);
            assert(strings_view(p.unknown_keys@) =~= Seq::<Seq<char>>::empty());
            assert(p.string_nodes@.dom() =~= Set::<Seq<char>>::empty());
            assert(p.list_strings@.dom() =~= Set::<Seq<char>>::empty());
        }
        if self.kind() != NixKind::AttrSet {
            return Ok(p);
        }
        let cs = self.children();
        let ghost ch = self.t().children[self.i()];
        let ghost mut m = empty_model();
        let mut k: usize = 0;
        while k < cs.len()
            invariant
                self.wf(),
                f == *self.file,
                ch == self.t().children[self.i()],
                cs@.len() == ch.len(),
                forall|q: int| 0 <= q < cs@.len() ==> (#[trigger] cs@[q]).wf() && cs@[q].file == self.file && cs@[q].index == ch[q],
                k <= cs@.len(),
                attrs_fold(f, sv, iv, ch.subrange(0, k as int)) == Ok::<AttrsModel, Seq<char>>(m),
                attrs_rel(p, m, f),
                sv == crate::forge::attrs_view(specs@),
                iv == opt_map_view(ident_vars),
                self.t().kinds[self.i()] == NixKind::AttrSet,
            decreases cs.len() - k,
        {
            let c = cs[k];
            assert(ch.subrange(0, k + 1).drop_last() =~= ch.subrange(0, k as int));
            assert(ch.subrange(0, k + 1).last() == c.index);
            let ghost step = attrs_step(f, sv, iv, m, c.i());
            match Self::read_binding(c, specs, ident_vars, p, Ghost(m)) {
                Ok(p2) => {
                    p = p2;
                    proof { m = step.get_Ok_0(); }
                },
                Err(e) => {
                    proof {
                        assert(attrs_fold(f, sv, iv, ch.subrange(0, k + 1)) == step);
                        lemma_fold_err(f, sv, iv, ch, k as int + 1);
                    }
                    return Err(e);
                },
            }
            k += 1;
        }
        assert(ch.subrange(0, ch.len() as int) =~= ch);
        Ok(p)
    }
}

/// Once reading a prefix of the bindings fails, reading all of them fails
/// with the same error.
proof fn lemma_fold_err(
    f: NixFile,
    specs: Seq<(Seq<char>, AttrType)>,
    ident: Option<Map<Seq<char>, Seq<char>>>,
    ch: Seq<usize>,
    k: int,
)
    requires
        0 < k <= ch.len(),
        attrs_fold(f, specs, ident, ch.subrange(0, k)) is Err,
    ensures
        attrs_fold(f, specs, ident, ch) == attrs_fold(f, specs, ident, ch.subrange(0, k)),
    decreases ch.len() - k,
{
    if k < ch.len() {
        assert(ch.subrange(0, k + 1).drop_last() =~= ch.subrange(0, k));
        lemma_fold_err(f, specs, ident, ch, k + 1);
    } else {
        assert(ch.subrange(0, k) =~= ch);
    }
}


/// A string read from a node reads literally exactly when the node does.
pub proof fn lemma_node_parts_pure(f: NixFile, v: int)
    ensures
        pure_content(node_parts(f, v)) == spec_pure_string(f, v),
{
    match spec_string_parts(f, v) {
        Some(p) => {},
        None => {
            let s = seq![StrPartView::Interpolation(None)];
            assert(crate::parser::ast::pure_prefix(s, 0) == Some(Seq::<char>::empty()));
        },
    }
}

} // verus!
