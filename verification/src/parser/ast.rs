//! Values read out of Nix attribute sets: string literals with their
//! interpolation parts and source ranges, and attribute sets parsed against
//! a schema of expected keys.
use vstd::prelude::*;

use crate::strmap::StrMap;
use crate::text::{chars_of, string_push, to_string, trim, trim_exec};

verus! {

/// Errors from reading a Nix file.
#[derive(Debug)]
pub enum NixError {
    ParseError(String),
    InvalidNode(String),
}

impl NixError {
    /// The message shown for the error.
    pub fn message(&self) -> (r: String)
        ensures
            r@ == match self {
                NixError::ParseError(m) => "Parse error: "@ + m@,
                NixError::InvalidNode(m) => "Invalid node: "@ + m@,
            },
    {
        match self {
            NixError::ParseError(m) => {
                let mut r = String::from_str("Parse error: ");
                r.append(m.as_str());
                r
            },
            NixError::InvalidNode(m) => {
                let mut r = String::from_str("Invalid node: ");
                r.append(m.as_str());
                r
            },
        }
    }
}

/// A range of byte offsets in the source text.
#[derive(Debug, Clone, Copy, PartialEq, Eq, Structural)]
pub struct TextRange {
    pub start: usize,
    pub end: usize,
}

impl View for TextRange {
    type V = TextRange;

    open spec fn view(&self) -> TextRange {
        *self
    }
}

/// The type an attribute is expected to have.
#[derive(Debug, Clone, Copy, PartialEq, Eq, Structural)]
pub enum AttrType {
    String,
    Bool,
    Int,
    ListString,
    ListInt,
}

impl AttrType {
    /// The name of the type as shown in messages.
    pub fn name(&self) -> (r: &'static str)
        ensures
            r@ == match self {
                AttrType::String => "string"@,
                AttrType::Bool => "bool"@,
                AttrType::Int => "int"@,
                AttrType::ListString => "list of strings"@,
                AttrType::ListInt => "list of ints"@,
            },
    {
        match self {
            AttrType::String => "string",
            AttrType::Bool => "bool",
            AttrType::Int => "int",
            AttrType::ListString => "list of strings",
            AttrType::ListInt => "list of ints",
        }
    }
}

/// An expected attribute key and its type.
#[derive(Debug, Clone, Copy, PartialEq, Eq)]
pub struct AttrSpec {
    pub key: &'static str,
    pub attr_type: AttrType,
}

/// One part of a Nix string: literal text (unescaped, indentation
/// stripped), or an interpolation `${...}` with the source text of its
/// expression (`None` when the interpolation has no expression).
#[derive(Debug, Clone)]
pub enum StrPart {
    Literal(String),
    Interpolation(Option<String>),
}

/// A Nix string literal: where it stands and its parts.
#[derive(Debug, Clone)]
pub struct StringValue {
    pub range: TextRange,
    pub parts: Vec<StrPart>,
}

impl View for StringValue {
    type V = StringValue;

    open spec fn view(&self) -> StringValue {
        *self
    }
}

pub enum StrPartView {
    Literal(Seq<char>),
    Interpolation(Option<Seq<char>>),
}

impl View for StrPart {
    type V = StrPartView;

    open spec fn view(&self) -> StrPartView {
        match self {
            StrPart::Literal(s) => StrPartView::Literal(s@),
            StrPart::Interpolation(None) => StrPartView::Interpolation(None),
            StrPart::Interpolation(Some(e)) => StrPartView::Interpolation(Some(e@)),
        }
    }
}

/// The mathematical form of a sequence of string parts.
pub open spec fn parts_view(parts: Seq<StrPart>) -> Seq<StrPartView> {
    parts.map_values(|p: StrPart| p@)
}

/// The content of the first `n` parts when none is an interpolation.
pub open spec fn pure_prefix(parts: Seq<StrPartView>, n: int) -> Option<Seq<char>>
    decreases n,
{
    if n <= 0 {
        Some(Seq::empty())
    } else {
        match pure_prefix(parts, n - 1) {
            Some(acc) => match parts[n - 1] {
                StrPartView::Literal(l) => Some(acc + l),
                StrPartView::Interpolation(_) => None,
            },
            None => None,
        }
    }
}

/// The content of a string without interpolations.
pub open spec fn pure_content(parts: Seq<StrPartView>) -> Option<Seq<char>> {
    pure_prefix(parts, parts.len() as int)
}

/// The content of the first `n` parts with each interpolation replaced by
/// the value `vars` gives its (trimmed) expression text.
pub open spec fn interp_prefix(parts: Seq<StrPartView>, vars: Map<Seq<char>, Seq<char>>, n: int) -> Option<Seq<char>>
    decreases n,
{
    if n <= 0 {
        Some(Seq::empty())
    } else {
        match interp_prefix(parts, vars, n - 1) {
            Some(acc) => match parts[n - 1] {
                StrPartView::Literal(l) => Some(acc + l),
                StrPartView::Interpolation(Some(e)) => if vars.contains_key(trim(e)) {
                    Some(acc + vars[trim(e)])
                } else {
                    None
                },
                StrPartView::Interpolation(None) => None,
            },
            None => None,
        }
    }
}

pub open spec fn interp_content(parts: Seq<StrPartView>, vars: Map<Seq<char>, Seq<char>>) -> Option<Seq<char>> {
    interp_prefix(parts, vars, parts.len() as int)
}

/// Scanning state of [`affix_prefix`]: whether the variable was seen, and
/// the text before and after it.
pub open spec fn affix_prefix(parts: Seq<StrPartView>, var: Seq<char>, vars: Map<Seq<char>, Seq<char>>, n: int) -> Option<(bool, Seq<char>, Seq<char>)>
    decreases n,
{
    if n <= 0 {
        Some((false, Seq::empty(), Seq::empty()))
    } else {
        match affix_prefix(parts, var, vars, n - 1) {
            Some((seen, pre, suf)) => match parts[n - 1] {
                StrPartView::Literal(l) => if seen { Some((seen, pre, suf + l)) } else { Some((seen, pre + l, suf)) },
                StrPartView::Interpolation(Some(e)) => if trim(e) == var {
                    if seen { None } else { Some((true, pre, suf)) }
                } else if vars.contains_key(trim(e)) {
                    if seen { Some((seen, pre, suf + vars[trim(e)])) } else { Some((seen, pre + vars[trim(e)], suf)) }
                } else {
                    None
                },
                StrPartView::Interpolation(None) => None,
            },
            None => None,
        }
    }
}

/// Prefix and suffix around the single occurrence of `var`.
pub open spec fn var_affixes(parts: Seq<StrPartView>, var: Seq<char>, vars: Map<Seq<char>, Seq<char>>) -> Option<(Seq<char>, Seq<char>)> {
    match affix_prefix(parts, var, vars, parts.len() as int) {
        Some((true, pre, suf)) => Some((pre, suf)),
        _ => None,
    }
}

/// Two string values at the same place with the same parts.
pub open spec fn sv_equiv(a: StringValue, b: StringValue) -> bool {
    a.range == b.range && parts_view(a.parts@) == parts_view(b.parts@)
}

impl StrPart {
    /// A copy of the part.
    pub fn copy(&self) -> (r: StrPart)
        ensures
            r@ == self@,
    {
        match self {
            StrPart::Literal(l) => StrPart::Literal(l.clone()),
            StrPart::Interpolation(Some(e)) => StrPart::Interpolation(Some(e.clone())),
            StrPart::Interpolation(None) => StrPart::Interpolation(None),
        }
    }
}

impl StringValue {
    /// A copy of the string value.
    pub fn copy(&self) -> (r: StringValue)
        ensures
            sv_equiv(r, *self),
    {
        let mut parts: Vec<StrPart> = Vec::new();
        let mut i: usize = 0;
        while i < self.parts.len()
            invariant
                i <= self.parts@.len(),
                parts_view(parts@) == parts_view(self.parts@).subrange(0, i as int),
            decreases self.parts.len() - i,
        {
            let ghost before = parts@;
            parts.push(self.parts[i].copy());
            assert(parts_view(parts@) =~= parts_view(before).push(self.parts@[i as int]@));
            assert(parts_view(self.parts@).subrange(0, i + 1) =~= parts_view(self.parts@).subrange(0, i as int).push(
                self.parts@[i as int]@,
            ));
            i += 1;
        }
        assert(parts_view(self.parts@).subrange(0, self.parts@.len() as int) =~= parts_view(self.parts@));
        StringValue { range: self.range, parts }
    }

    /// The string's content when it has no interpolation.
    pub fn pure_string_content(&self) -> (r: Option<String>)
        ensures
            match r {
                Some(s) => pure_content(parts_view(self.parts@)) == Some(s@),
                None => pure_content(parts_view(self.parts@)) is None,
            },
    {
        let mut acc = String::new();
        let mut i: usize = 0;
        while i < self.parts.len()
            invariant
                i <= parts_view(self.parts@).len(),
                pure_prefix(parts_view(self.parts@), i as int) == Some(acc@),
            decreases self.parts.len() - i,
        {
            match &self.parts[i] {
                StrPart::Literal(l) => {
                    acc.append(l.as_str());
                },
                StrPart::Interpolation(_) => {
                    proof { lemma_pure_prefix_none(parts_view(self.parts@), i as int + 1, parts_view(self.parts@).len() as int); }
                    return None;
                },
            }
            i += 1;
        }
        Some(acc)
    }

    /// The string's content with every interpolation resolved from `vars`
    /// by its trimmed expression text; `None` if one cannot be.
    pub fn interpolated_string_content(&self, vars: &StrMap<String>) -> (r: Option<String>)
        ensures
            match r {
                Some(s) => interp_content(parts_view(self.parts@), vars@.map_values(|v: Seq<char>| v)) == Some(s@),
                None => interp_content(parts_view(self.parts@), vars@.map_values(|v: Seq<char>| v)) is None,
            },
    {
        let ghost m = vars@.map_values(|v: Seq<char>| v);
        let mut acc = String::new();
        let mut i: usize = 0;
        while i < self.parts.len()
            invariant
                i <= parts_view(self.parts@).len(),
                m == vars@.map_values(|v: Seq<char>| v),
                interp_prefix(parts_view(self.parts@), m, i as int) == Some(acc@),
            decreases self.parts.len() - i,
        {
            match &self.parts[i] {
                StrPart::Literal(l) => {
                    acc.append(l.as_str());
                },
                StrPart::Interpolation(Some(e)) => {
                    let t = to_string(&trim_exec(&chars_of(e.as_str())));
                    match vars.get(t.as_str()) {
                        Some(v) => acc.append(v.as_str()),
                        None => {
                            proof { lemma_interp_prefix_none(parts_view(self.parts@), m, i as int + 1, parts_view(self.parts@).len() as int); }
                            return None;
                        },
                    }
                },
                StrPart::Interpolation(None) => {
                    proof { lemma_interp_prefix_none(parts_view(self.parts@), m, i as int + 1, parts_view(self.parts@).len() as int); }
                    return None;
                },
            }
            i += 1;
        }
        Some(acc)
    }

    /// Prefix and suffix around the single interpolation of `var_name`,
    /// with other interpolations resolved from `vars`. `None` if the
    /// variable occurs more than once, not at all, or another
    /// interpolation cannot be resolved.
    pub fn interpolated_var_affixes(&self, var_name: &str, vars: &StrMap<String>) -> (r: Option<(String, String)>)
        ensures
            match r {
                Some((p, s)) => var_affixes(parts_view(self.parts@), var_name@, vars@.map_values(|v: Seq<char>| v)) == Some((p@, s@)),
                None => var_affixes(parts_view(self.parts@), var_name@, vars@.map_values(|v: Seq<char>| v)) is None,
            },
    {
        let ghost m = vars@.map_values(|v: Seq<char>| v);
        let mut seen = false;
        let mut pre = String::new();
        let mut suf = String::new();
        let mut i: usize = 0;
        let var = String::from_str(var_name);
        while i < self.parts.len()
            invariant
                i <= parts_view(self.parts@).len(),
                var@ == var_name@,
                m == vars@.map_values(|v: Seq<char>| v),
                affix_prefix(parts_view(self.parts@), var_name@, m, i as int) == Some((seen, pre@, suf@)),
            decreases self.parts.len() - i,
        {
            match &self.parts[i] {
                StrPart::Literal(l) => {
                    if seen {
                        suf.append(l.as_str());
                    } else {
                        pre.append(l.as_str());
                    }
                },
                StrPart::Interpolation(Some(e)) => {
                    let t = to_string(&trim_exec(&chars_of(e.as_str())));
                    if t == var {
                        if seen {
                            proof { lemma_affix_prefix_none(parts_view(self.parts@), var_name@, m, i as int + 1, parts_view(self.parts@).len() as int); }
                            return None;
                        }
                        seen = true;
                    } else {
                        match vars.get(t.as_str()) {
                            Some(v) => {
                                if seen {
                                    suf.append(v.as_str());
                                } else {
                                    pre.append(v.as_str());
                                }
                            },
                            None => {
                                proof { lemma_affix_prefix_none(parts_view(self.parts@), var_name@, m, i as int + 1, parts_view(self.parts@).len() as int); }
                                return None;
                            },
                        }
                    }
                },
                StrPart::Interpolation(None) => {
                    proof { lemma_affix_prefix_none(parts_view(self.parts@), var_name@, m, i as int + 1, parts_view(self.parts@).len() as int); }
                    return None;
                },
            }
            i += 1;
        }
        if seen {
            Some((pre, suf))
        } else {
            None
        }
    }
}

pub proof fn lemma_pure_prefix_none(parts: Seq<StrPartView>, k: int, n: int)
    requires
        0 <= k <= n,
        pure_prefix(parts, k) is None,
    ensures
        pure_prefix(parts, n) is None,
    decreases n - k,
{
    if k < n {
        lemma_pure_prefix_none(parts, k + 1, n);
    }
}

pub proof fn lemma_interp_prefix_none(parts: Seq<StrPartView>, m: Map<Seq<char>, Seq<char>>, k: int, n: int)
    requires
        0 <= k <= n,
        interp_prefix(parts, m, k) is None,
    ensures
        interp_prefix(parts, m, n) is None,
    decreases n - k,
{
    if k < n {
        lemma_interp_prefix_none(parts, m, k + 1, n);
    }
}

pub proof fn lemma_affix_prefix_none(parts: Seq<StrPartView>, var: Seq<char>, m: Map<Seq<char>, Seq<char>>, k: int, n: int)
    requires
        0 <= k <= n,
        affix_prefix(parts, var, m, k) is None,
    ensures
        affix_prefix(parts, var, m, n) is None,
    decreases n - k,
{
    if k < n {
        lemma_affix_prefix_none(parts, var, m, k + 1, n);
    }
}

/// Attributes of an attribute set, read against a schema of expected keys.
#[derive(Debug)]
pub struct ParsedAttrs {
    pub strings: StrMap<String>,
    pub bools: StrMap<bool>,
    pub ints: StrMap<i64>,
    pub list_strings: StrMap<Vec<StringValue>>,
    pub list_ints: StrMap<Vec<i64>>,
    pub string_nodes: StrMap<StringValue>,
    pub unknown_keys: Vec<String>,
    /// For a string attribute bound to an identifier or a select path that
    /// was resolved, that name.
    pub ident_resolved: StrMap<String>,
}

/// The contents of a list of strings when all are without interpolation.
pub open spec fn pure_list_prefix(items: Seq<StringValue>, n: int) -> Option<Seq<Seq<char>>>
    decreases n,
{
    if n <= 0 {
        Some(Seq::empty())
    } else {
        match pure_list_prefix(items, n - 1) {
            Some(acc) => match pure_content(parts_view(items[n - 1].parts@)) {
                Some(c) => Some(acc.push(c)),
                None => None,
            },
            None => None,
        }
    }
}

pub open spec fn strings_view(v: Seq<String>) -> Seq<Seq<char>> {
    v.map_values(|s: String| s@)
}

impl Default for ParsedAttrs {
    fn default() -> (r: Self)
        ensures
            r.strings@ == Map::<Seq<char>, Seq<char>>::empty(),
            r.bools@ == Map::<Seq<char>, bool>::empty(),
            r.ints@ == Map::<Seq<char>, i64>::empty(),
            r.list_strings@ == Map::<Seq<char>, Seq<StringValue>>::empty(),
            r.list_ints@ == Map::<Seq<char>, Seq<i64>>::empty(),
            r.string_nodes@ == Map::<Seq<char>, StringValue>::empty(),
            r.unknown_keys@.len() == 0,
            r.ident_resolved@ == Map::<Seq<char>, Seq<char>>::empty(),
    {
        ParsedAttrs::empty()
    }
}

impl ParsedAttrs {
    /// Attributes with nothing in them.
    pub fn empty() -> (r: Self)
        ensures
            r.strings@ == Map::<Seq<char>, Seq<char>>::empty(),
            r.bools@ == Map::<Seq<char>, bool>::empty(),
            r.ints@ == Map::<Seq<char>, i64>::empty(),
            r.list_strings@ == Map::<Seq<char>, Seq<StringValue>>::empty(),
            r.list_ints@ == Map::<Seq<char>, Seq<i64>>::empty(),
            r.string_nodes@ == Map::<Seq<char>, StringValue>::empty(),
            r.unknown_keys@.len() == 0,
            r.ident_resolved@ == Map::<Seq<char>, Seq<char>>::empty(),
    {
        ParsedAttrs {
            strings: StrMap::new(),
            bools: StrMap::new(),
            ints: StrMap::new(),
            list_strings: StrMap::new(),
            list_ints: StrMap::new(),
            string_nodes: StrMap::new(),
            unknown_keys: Vec::new(),
            ident_resolved: StrMap::new(),
        }
    }

    /// Where the string literal of `key` stands.
    pub fn string_range(&self, key: &str) -> (r: Option<TextRange>)
        ensures
            match r {
                Some(t) => self.string_nodes@.contains_key(key@) && self.string_nodes@[key@].range == t,
                None => !self.string_nodes@.contains_key(key@),
            },
    {
        match self.string_nodes.get(key) {
            Some(n) => Some(n.range),
            None => None,
        }
    }

    /// Whether `key` is bound to a string literal.
    pub fn has_string(&self, key: &str) -> (b: bool)
        ensures
            b == self.string_nodes@.contains_key(key@),
    {
        self.string_nodes.contains_key(key)
    }

    /// The contents of the list of strings bound to `key`, when none of
    /// them has an interpolation.
    pub fn pure_string_list(&self, key: &str) -> (r: Option<Vec<String>>)
        ensures
            match r {
                Some(v) => self.list_strings@.contains_key(key@)
                    && pure_list_prefix(self.list_strings@[key@], self.list_strings@[key@].len() as int) == Some(strings_view(v@)),
                None => !self.list_strings@.contains_key(key@)
                    || pure_list_prefix(self.list_strings@[key@], self.list_strings@[key@].len() as int) is None,
            },
    {
        let items = match self.list_strings.get(key) {
            Some(items) => items,
            None => return None,
        };
        let mut out: Vec<String> = Vec::new();
        let mut i: usize = 0;
        while i < items.len()
            invariant
                i <= items@.len(),
                pure_list_prefix(items@, i as int) == Some(strings_view(out@)),
                self.list_strings@.contains_key(key@),
                self.list_strings@[key@] == items@,
            decreases items.len() - i,
        {
            match items[i].pure_string_content() {
                Some(c) => {
                    out.push(c);
                    assert(strings_view(out@) == strings_view(out@.drop_last()).push(c@));
                },
                None => {
                    proof { lemma_pure_list_prefix_none(items@, i as int + 1, items@.len() as int); }
                    return None;
                },
            }
            i += 1;
        }
        Some(out)
    }
}

pub proof fn lemma_pure_list_prefix_none(items: Seq<StringValue>, k: int, n: int)
    requires
        0 <= k <= n,
        pure_list_prefix(items, k) is None,
    ensures
        pure_list_prefix(items, n) is None,
    decreases n - k,
{
    if k < n {
        lemma_pure_list_prefix_none(items, k + 1, n);
    }
}

} // verus!
