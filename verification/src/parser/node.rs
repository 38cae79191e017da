//! Navigating a parsed Nix file: nodes, their children and text, the
//! comments on them, attribute paths and values, string contents.
use vstd::prelude::*;
use vstd::utf8::encode_utf8;

use crate::parser::ast::{parts_view, pure_content, NixError, StrPart, StrPartView, StringValue, TextRange};
use crate::parser::tree::{
    build_table, rnix_parse, rnix_parse_of, rnix_string_parts, rnix_string_parts_of, strings_view, table_of,
    NixFile, NixKind, Table,
};
use crate::text::{
    chars_of, eq_str, starts_with, starts_with_exec, strip_prefix, strip_prefix_exec, to_string, trim, trim_exec,
};

verus! {

/// The messages joined with `", "`.
pub open spec fn join_messages(ms: Seq<Seq<char>>) -> Seq<char>
    decreases ms.len(),
{
    if ms.len() == 0 {
        Seq::empty()
    } else if ms.len() == 1 {
        ms[0]
    } else {
        join_messages(ms.drop_last()) + ", "@ + ms.last()
    }
}

fn join_strings(ms: &Vec<String>) -> (r: String)
    ensures
        r@ == join_messages(strings_view(ms@)),
{
    let mut r = String::new();
    let mut i: usize = 0;
    while i < ms.len()
        invariant
            i <= ms@.len(),
            r@ == join_messages(strings_view(ms@).subrange(0, i as int)),
        decreases ms.len() - i,
    {
        let ghost sub = strings_view(ms@).subrange(0, i + 1);
        assert(sub.drop_last() =~= strings_view(ms@).subrange(0, i as int));
        if i > 0 {
            r.append(", ");
        }
        r.append(ms[i].as_str());
        i += 1;
    }
    assert(strings_view(ms@).subrange(0, ms@.len() as int) =~= strings_view(ms@));
    r
}

impl NixFile {
    /// Parses a Nix file with `rnix`. A file with parse errors is refused
    /// with their messages; so, defensively, is a walk without any node.
    pub fn parse(content: &str) -> (r: Result<NixFile, NixError>)
        requires
            encode_utf8(content@).len() <= u32::MAX,
        ensures
            match r {
                Ok(f) => {
                    &&& rnix_parse_of(content@).1.len() == 0
                    &&& f.table() == table_of(rnix_parse_of(content@).0)
                    &&& f.wf()
                    &&& f.len() > 0
                    &&& f.source@ == content@
                },
                Err(e) => {
                    ||| rnix_parse_of(content@).1.len() > 0 && (e matches NixError::ParseError(m) && m@
                        == join_messages(rnix_parse_of(content@).1))
                    ||| rnix_parse_of(content@).1.len() == 0 && table_of(rnix_parse_of(content@).0).kinds.len()
                        == 0
                },
            },
    {
        let (events, errors) = rnix_parse(content);
        if errors.len() > 0 {
            return Err(NixError::ParseError(join_strings(&errors)));
        }
        let f = build_table(String::from_str(content), &events);
        if f.kinds.len() == 0 {
            return Err(NixError::InvalidNode(String::from_str("empty syntax tree")));
        }
        Ok(f)
    }

    /// The file's source text.
    pub fn source(&self) -> (r: &str)
        ensures
            r@ == self.source@,
    {
        self.source.as_str()
    }

    /// The root node.
    pub fn root_node(&self) -> (n: NixNode<'_>)
        requires
            self.wf(),
            self.len() > 0,
        ensures
            n.wf(),
            n.index == 0,
            n.file == self,
    {
        NixNode { file: self, index: 0 }
    }
}

/// A node of a parsed file.
#[derive(Debug, Clone, Copy)]
pub struct NixNode<'a> {
    pub file: &'a NixFile,
    pub index: usize,
}

/// The kinds of nodes that can be the value of an attribute.
pub open spec fn is_value_kind(k: NixKind) -> bool {
    k == NixKind::String || k == NixKind::AttrSet || k == NixKind::List || k == NixKind::Literal || k
        == NixKind::Ident || k == NixKind::Apply || k == NixKind::Select || k == NixKind::Paren || k
        == NixKind::UnaryOp || k == NixKind::BinOp || k == NixKind::IfElse || k == NixKind::With || k
        == NixKind::Assert || k == NixKind::LetIn || k == NixKind::Lambda
}

pub fn is_value_kind_exec(k: NixKind) -> (b: bool)
    ensures
        b == is_value_kind(k),
{
    k == NixKind::String || k == NixKind::AttrSet || k == NixKind::List || k == NixKind::Literal || k
        == NixKind::Ident || k == NixKind::Apply || k == NixKind::Select || k == NixKind::Paren || k
        == NixKind::UnaryOp || k == NixKind::BinOp || k == NixKind::IfElse || k == NixKind::With || k
        == NixKind::Assert || k == NixKind::LetIn || k == NixKind::Lambda
}

/// The first child of node `i` of kind `k`, by position in its children.
pub open spec fn first_child_of_kind(t: Table, i: int, k: NixKind, from: int) -> Option<int>
    decreases t.children[i].len() - from,
{
    if from < 0 || from >= t.children[i].len() {
        None
    } else if t.kinds[t.children[i][from] as int] == k {
        Some(t.children[i][from] as int)
    } else {
        first_child_of_kind(t, i, k, from + 1)
    }
}

/// The first child of node `i` that can be an attribute value.
pub open spec fn first_value_child(t: Table, i: int, from: int) -> Option<int>
    decreases t.children[i].len() - from,
{
    if from < 0 || from >= t.children[i].len() {
        None
    } else if is_value_kind(t.kinds[t.children[i][from] as int]) {
        Some(t.children[i][from] as int)
    } else {
        first_value_child(t, i, from + 1)
    }
}

/// The text of a comment without its `#` marks and surrounding whitespace.
pub open spec fn comment_content(c: Seq<char>) -> Seq<char> {
    trim(trim_start_hash(trim(c)))
}

/// `s` without its leading `#` characters.
pub open spec fn trim_start_hash(s: Seq<char>) -> Seq<char>
    decreases s.len(),
{
    if s.len() > 0 && s[0] == '#' {
        trim_start_hash(s.subrange(1, s.len() as int))
    } else {
        s
    }
}

/// Whether one of the comments directly inside node `i` starts with `pin`.
pub open spec fn spec_has_pin_comment(t: Table, i: int) -> bool {
    exists|k: int| 0 <= k < t.comments[i].len() && starts_with(comment_content(t.comments[i][k]), "pin"@)
}

/// The branch named by the first `# follow: <branch>` comment directly
/// inside node `i`, from comment `from` on.
pub open spec fn spec_follow_branch(t: Table, i: int, from: int) -> Option<Seq<char>>
    decreases t.comments[i].len() - from,
{
    if from < 0 || from >= t.comments[i].len() {
        None
    } else {
        match strip_prefix(comment_content(t.comments[i][from]), "follow:"@) {
            Some(rest) => Some(trim(rest)),
            None => spec_follow_branch(t, i, from + 1),
        }
    }
}

/// The names of the identifier children of `a`'s children list, trimmed.
pub open spec fn ident_texts(t: Table, cs: Seq<usize>) -> Seq<Seq<char>>
    decreases cs.len(),
{
    if cs.len() == 0 {
        Seq::empty()
    } else if t.kinds[cs.last() as int] == NixKind::Ident {
        ident_texts(t, cs.drop_last()).push(trim(t.texts[cs.last() as int]))
    } else {
        ident_texts(t, cs.drop_last())
    }
}

/// The identifier segments of the attribute path of an `a.b.c = ...;`
/// binding; empty for any other node.
pub open spec fn spec_attrpath_segments(t: Table, i: int) -> Seq<Seq<char>> {
    if t.kinds[i] != NixKind::AttrpathValue {
        Seq::empty()
    } else {
        match first_child_of_kind(t, i, NixKind::Attrpath, 0) {
            Some(p) => ident_texts(t, t.children[p]),
            None => Seq::empty(),
        }
    }
}

/// The value node of an attribute binding.
pub open spec fn spec_attr_value(t: Table, i: int) -> Option<int> {
    if t.kinds[i] != NixKind::AttrpathValue {
        None
    } else {
        first_value_child(t, i, 0)
    }
}

impl<'a> NixNode<'a> {
    /// A node of a well-formed table.
    pub open spec fn wf(&self) -> bool {
        self.file.wf() && self.index < self.file.len()
    }

    pub open spec fn t(&self) -> Table {
        self.file.table()
    }

    pub open spec fn i(&self) -> int {
        self.index as int
    }

    fn at(&self, j: usize) -> (n: NixNode<'a>)
        requires
            self.wf(),
            j < self.file.len(),
        ensures
            n.wf(),
            n.file == self.file,
            n.index == j,
    {
        NixNode { file: self.file, index: j }
    }

    /// The node's kind.
    pub fn kind(&self) -> (k: NixKind)
        requires
            self.wf(),
        ensures
            k == self.t().kinds[self.i()],
    {
        self.file.kinds[self.index]
    }

    /// The node's text.
    pub fn text(&self) -> (r: String)
        requires
            self.wf(),
        ensures
            r@ == self.t().texts[self.i()],
    {
        self.file.texts[self.index].clone()
    }

    /// The node's text without surrounding whitespace.
    pub fn text_trimmed(&self) -> (r: String)
        requires
            self.wf(),
        ensures
            r@ == trim(self.t().texts[self.i()]),
    {
        to_string(&trim_exec(&chars_of(self.file.texts[self.index].as_str())))
    }

    /// The node's byte range in the source.
    pub fn text_range(&self) -> (r: TextRange)
        requires
            self.wf(),
        ensures
            r == self.t().ranges[self.i()],
    {
        self.file.ranges[self.index]
    }

    /// The node's children, in order.
    pub fn children(&self) -> (r: Vec<NixNode<'a>>)
        requires
            self.wf(),
        ensures
            r@.len() == self.t().children[self.i()].len(),
            forall|k: int|
                0 <= k < r@.len() ==> (#[trigger] r@[k]).wf() && r@[k].file == self.file && r@[k].index
                    == self.t().children[self.i()][k],
    {
        let cs = &self.file.children[self.index];
        let ghost tc = self.t().children[self.i()];
        assert(tc == cs@);
        let mut r: Vec<NixNode<'a>> = Vec::new();
        let mut k: usize = 0;
        while k < cs.len()
            invariant
                self.wf(),
                k <= cs@.len(),
                tc == cs@,
                cs@ == self.file.children@[self.i()]@,
                r@.len() == k,
                forall|m: int|
                    0 <= m < k ==> (#[trigger] r@[m]).wf() && r@[m].file == self.file && r@[m].index == tc[m],
            decreases cs.len() - k,
        {
            assert(self.t().children[self.i()][k as int] == cs@[k as int]);
            assert(self.i() < cs@[k as int] < self.file.len());
            r.push(self.at(cs[k]));
            k += 1;
        }
        r
    }

    /// The node and all its descendants, in preorder.
    pub fn traverse(&self) -> (r: Vec<NixNode<'a>>)
        requires
            self.wf(),
        ensures
            r@.len() == self.t().ends[self.i()] - self.i(),
            forall|k: int|
                0 <= k < r@.len() ==> (#[trigger] r@[k]).wf() && r@[k].file == self.file && r@[k].index
                    == self.i() + k,
    {
        let end = self.file.ends[self.index];
        let mut r: Vec<NixNode<'a>> = Vec::new();
        let mut j: usize = self.index;
        while j < end
            invariant
                self.wf(),
                end == self.t().ends[self.i()],
                self.i() <= j <= end <= self.file.len(),
                r@.len() == j - self.i(),
                forall|m: int|
                    0 <= m < r@.len() ==> (#[trigger] r@[m]).wf() && r@[m].file == self.file && r@[m].index
                        == self.i() + m,
            decreases end - j,
        {
            r.push(self.at(j));
            j += 1;
        }
        r
    }

    /// The node's parent.
    pub fn parent(&self) -> (r: Option<NixNode<'a>>)
        requires
            self.wf(),
        ensures
            match r {
                Some(p) => p.wf() && p.file == self.file && self.t().parents[self.i()] == Some(p.index),
                None => self.t().parents[self.i()] is None,
            },
    {
        match self.file.parents[self.index] {
            Some(p) => Some(self.at(p)),
            None => None,
        }
    }

    /// The first child of kind `k`.
    pub fn find_child(&self, k: NixKind) -> (r: Option<NixNode<'a>>)
        requires
            self.wf(),
        ensures
            match r {
                Some(c) => c.wf() && c.file == self.file && first_child_of_kind(self.t(), self.i(), k, 0) == Some(
                    c.i(),
                ),
                None => first_child_of_kind(self.t(), self.i(), k, 0) is None,
            },
    {
        let cs = &self.file.children[self.index];
        let ghost t = self.t();
        let mut m: usize = 0;
        while m < cs.len()
            invariant
                self.wf(),
                t == self.t(),
                cs@ == t.children[self.i()],
                m <= cs@.len(),
                first_child_of_kind(t, self.i(), k, m as int) == first_child_of_kind(t, self.i(), k, 0),
            decreases cs.len() - m,
        {
            let c = cs[m];
            assert(self.i() < c < self.file.len());
            if self.file.kinds[c] == k {
                return Some(self.at(c));
            }
            m += 1;
        }
        None
    }

    /// Whether a comment directly inside the node starts with `pin`
    /// (after its `#` and surrounding whitespace).
    pub fn has_pin_comment(&self) -> (b: bool)
        requires
            self.wf(),
        ensures
            b == spec_has_pin_comment(self.t(), self.i()),
    {
        let cs = &self.file.comments[self.index];
        let ghost t = self.t();
        proof { reveal_strlit("pin"); }
        let mut m: usize = 0;
        while m < cs.len()
            invariant
                self.wf(),
                t == self.t(),
                strings_view(cs@) == t.comments[self.i()],
                m <= cs@.len(),
                forall|q: int| 0 <= q < m ==> !starts_with(comment_content(t.comments[self.i()][q]), "pin"@),
            decreases cs.len() - m,
        {
            let content = comment_text(cs[m].as_str());
            assert(t.comments[self.i()][m as int] == cs@[m as int]@);
            if starts_with_exec(&content, &chars_of("pin")) {
                return true;
            }
            m += 1;
        }
        false
    }

    /// The branch named by a `# follow: <branch>` comment directly inside
    /// the node.
    pub fn follow_branch_comment(&self) -> (r: Option<String>)
        requires
            self.wf(),
        ensures
            match r {
                Some(s) => spec_follow_branch(self.t(), self.i(), 0) == Some(s@),
                None => spec_follow_branch(self.t(), self.i(), 0) is None,
            },
    {
        let cs = &self.file.comments[self.index];
        let ghost t = self.t();
        let mut m: usize = 0;
        while m < cs.len()
            invariant
                self.wf(),
                t == self.t(),
                strings_view(cs@) == t.comments[self.i()],
                m <= cs@.len(),
                spec_follow_branch(t, self.i(), m as int) == spec_follow_branch(t, self.i(), 0),
            decreases cs.len() - m,
        {
            let content = comment_text(cs[m].as_str());
            if let Some(rest) = strip_prefix_exec(&content, &chars_of("follow:")) {
                return Some(to_string(&trim_exec(&rest)));
            }
            m += 1;
        }
        None
    }

    /// The identifier segments of an attribute binding's path.
    pub fn attrpath_segments(&self) -> (r: Vec<String>)
        requires
            self.wf(),
        ensures
            strings_view(r@) == spec_attrpath_segments(self.t(), self.i()),
    {
        if self.kind() != NixKind::AttrpathValue {
            return Vec::new();
        }
        match self.find_child(NixKind::Attrpath) {
            Some(p) => {
                let cs = &self.file.children[p.index];
                let ghost t = self.t();
                let mut r: Vec<String> = Vec::new();
                let mut m: usize = 0;
                while m < cs.len()
                    invariant
                        p.wf(),
                        p.file == self.file,
                        t == self.t(),
                        cs@ == t.children[p.i()],
                        m <= cs@.len(),
                        strings_view(r@) == ident_texts(t, cs@.subrange(0, m as int)),
                    decreases cs.len() - m,
                {
                    let c = cs[m];
                    assert(p.i() < c < self.file.len());
                    assert(cs@.subrange(0, m + 1).drop_last() =~= cs@.subrange(0, m as int));
                    let n = p.at(c);
                    if n.kind() == NixKind::Ident {
                        r.push(n.text_trimmed());
                        assert(strings_view(r@) =~= ident_texts(t, cs@.subrange(0, m as int)).push(
                            trim(t.texts[c as int]),
                        ));
                    }
                    m += 1;
                }
                assert(cs@.subrange(0, cs@.len() as int) =~= cs@);
                r
            },
            None => Vec::new(),
        }
    }

    /// The value of an attribute binding.
    pub fn attr_value(&self) -> (r: Option<NixNode<'a>>)
        requires
            self.wf(),
        ensures
            match r {
                Some(v) => v.wf() && v.file == self.file && spec_attr_value(self.t(), self.i()) == Some(v.i()),
                None => spec_attr_value(self.t(), self.i()) is None,
            },
    {
        if self.kind() != NixKind::AttrpathValue {
            return None;
        }
        let cs = &self.file.children[self.index];
        let ghost t = self.t();
        let mut m: usize = 0;
        while m < cs.len()
            invariant
                self.wf(),
                t == self.t(),
                cs@ == t.children[self.i()],
                m <= cs@.len(),
                first_value_child(t, self.i(), m as int) == first_value_child(t, self.i(), 0),
                t.kinds[self.i()] == NixKind::AttrpathValue,
            decreases cs.len() - m,
        {
            let c = cs[m];
            assert(self.i() < c < self.file.len());
            if is_value_kind_exec(self.file.kinds[c]) {
                assert(first_value_child(t, self.i(), m as int) == Some(c as int));
                return Some(self.at(c));
            }
            m += 1;
        }
        None
    }
}

/// The content of a comment token: without surrounding whitespace and
/// leading `#` marks.
fn comment_text(c: &str) -> (r: Vec<char>)
    ensures
        r@ == comment_content(c@),
{
    let t = trim_exec(&chars_of(c));
    let mut k: usize = 0;
    assert(t@.subrange(0, t@.len() as int) =~= t@);
    while k < t.len() && t[k] == '#'
        invariant
            k <= t@.len(),
            trim_start_hash(t@.subrange(k as int, t@.len() as int)) == trim_start_hash(t@),
        decreases t.len() - k,
    {
        assert(t@.subrange(k as int, t@.len() as int).subrange(1, t@.len() - k) =~= t@.subrange(
            k + 1,
            t@.len() as int,
        ));
        k += 1;
    }
    assert(t@.subrange(0, t@.len() as int) =~= t@);
    let rest = crate::text::slice_vec(&t, k, t.len());
    trim_exec(&rest)
}


// ---------------------------------------------------------------------------
// Strings, attribute lookups, function applications
// ---------------------------------------------------------------------------

/// The normalized parts of string node `i` of `f`, as `rnix` gives them.
pub open spec fn spec_string_parts(f: NixFile, i: int) -> Option<Seq<StrPartView>> {
    let r = f.ranges@[i];
    if f.kinds@[i] != NixKind::String {
        None
    } else if !(r.start <= r.end && r.end <= encode_utf8(f.source@).len() && encode_utf8(f.source@).len()
        <= u32::MAX) {
        None
    } else {
        rnix_string_parts_of(f.source@, r.start, r.end)
    }
}

/// The content of string node `i` when it has no interpolation.
pub open spec fn spec_pure_string(f: NixFile, i: int) -> Option<Seq<char>> {
    match spec_string_parts(f, i) {
        Some(p) => pure_content(p),
        None => None,
    }
}

/// The first child of attribute set `i` that binds exactly `key`.
pub open spec fn first_binding_of(t: Table, i: int, key: Seq<char>, from: int) -> Option<int>
    decreases t.children[i].len() - from,
{
    if from < 0 || from >= t.children[i].len() {
        None
    } else if spec_attrpath_segments(t, t.children[i][from] as int) == seq![key] {
        Some(t.children[i][from] as int)
    } else {
        first_binding_of(t, i, key, from + 1)
    }
}

/// The binding of `key` in attribute set `i`.
pub open spec fn spec_find_attr(t: Table, i: int, key: Seq<char>) -> Option<int> {
    if t.kinds[i] != NixKind::AttrSet {
        None
    } else {
        first_binding_of(t, i, key, 0)
    }
}

/// The value node bound to `key` in attribute set `i`.
pub open spec fn spec_find_value(t: Table, i: int, key: Seq<char>) -> Option<int> {
    match spec_find_attr(t, i, key) {
        Some(b) => spec_attr_value(t, b),
        None => None,
    }
}

/// The boolean `true` or `false` bound to `key` in attribute set `i`.
pub open spec fn spec_find_bool(t: Table, i: int, key: Seq<char>) -> Option<bool> {
    match spec_find_value(t, i, key) {
        Some(v) => if t.kinds[v] == NixKind::Ident && trim(t.texts[v]) == "true"@ {
            Some(true)
        } else if t.kinds[v] == NixKind::Ident && trim(t.texts[v]) == "false"@ {
            Some(false)
        } else {
            None
        },
        None => None,
    }
}

/// A string node bound to `key` in attribute set `i`.
pub open spec fn spec_find_string_node(t: Table, i: int, key: Seq<char>) -> Option<int> {
    match spec_find_value(t, i, key) {
        Some(v) => if t.kinds[v] == NixKind::String {
            Some(v)
        } else {
            None
        },
        None => None,
    }
}

/// The `.`-joined path of a select expression, as the parts of its
/// identifiers: the left operand's parts, then those of the attribute path.
pub open spec fn select_parts(t: Table, n: int) -> Seq<Seq<char>>
    decreases t.kinds.len() - n, 0int,
{
    if !(0 <= n < t.kinds.len()) || t.children[n].len() < 2 {
        Seq::empty()
    } else {
        let first = t.children[n][0] as int;
        let last = t.children[n][t.children[n].len() - 1] as int;
        let left = if !(n < first < t.kinds.len()) {
            Seq::empty()
        } else if t.kinds[first] == NixKind::Select {
            select_parts(t, first)
        } else if t.kinds[first] == NixKind::Ident {
            seq![trim(t.texts[first])]
        } else {
            Seq::empty()
        };
        let right = if !(n < last < t.kinds.len()) {
            Seq::empty()
        } else if t.kinds[last] == NixKind::Attrpath {
            attrpath_parts(t, last, t.children[last].len() as int)
        } else if t.kinds[last] == NixKind::Ident {
            seq![trim(t.texts[last])]
        } else {
            Seq::empty()
        };
        left + right
    }
}

/// The parts of the first `k` children of attribute path `a`: identifiers,
/// and the parts of nested selects.
pub open spec fn attrpath_parts(t: Table, a: int, k: int) -> Seq<Seq<char>>
    decreases t.kinds.len() - a, 1int, k,
{
    if k <= 0 || !(0 <= a < t.kinds.len()) || k > t.children[a].len() {
        Seq::empty()
    } else {
        let c = t.children[a][k - 1] as int;
        let prev = attrpath_parts(t, a, k - 1);
        if !(a < c < t.kinds.len()) {
            prev
        } else if t.kinds[c] == NixKind::Ident {
            prev.push(trim(t.texts[c]))
        } else if t.kinds[c] == NixKind::Select {
            prev + select_parts(t, c)
        } else {
            prev
        }
    }
}

/// The parts joined with `.`.
pub open spec fn join_dot(ps: Seq<Seq<char>>) -> Seq<char>
    decreases ps.len(),
{
    if ps.len() == 0 {
        Seq::empty()
    } else if ps.len() == 1 {
        ps[0]
    } else {
        join_dot(ps.drop_last()) + "."@ + ps.last()
    }
}

/// The name of the function applied by application `i`, from its children
/// `from` on: an identifier, or a non-empty select path joined with `.`.
pub open spec fn apply_name_from(t: Table, i: int, from: int) -> Option<Seq<char>>
    decreases t.children[i].len() - from,
{
    if from < 0 || from >= t.children[i].len() {
        None
    } else {
        let c = t.children[i][from] as int;
        if t.kinds[c] == NixKind::Ident {
            Some(trim(t.texts[c]))
        } else if t.kinds[c] == NixKind::Select && select_parts(t, c).len() > 0 {
            Some(join_dot(select_parts(t, c)))
        } else {
            apply_name_from(t, i, from + 1)
        }
    }
}

pub open spec fn spec_apply_function_name(t: Table, i: int) -> Option<Seq<char>> {
    if t.kinds[i] != NixKind::Apply {
        None
    } else {
        apply_name_from(t, i, 0)
    }
}

/// The attribute-set argument of application `i`: a direct attribute set
/// child, or the body of a parenthesized lambda `(x: { ... })`.
pub open spec fn spec_apply_argument_attrset(t: Table, i: int) -> Option<int> {
    if t.kinds[i] != NixKind::Apply {
        None
    } else {
        match first_child_of_kind(t, i, NixKind::AttrSet, 0) {
            Some(a) => Some(a),
            None => match first_child_of_kind(t, i, NixKind::Paren, 0) {
                Some(p) => match first_child_of_kind(t, p, NixKind::Lambda, 0) {
                    Some(l) => first_child_of_kind(t, l, NixKind::AttrSet, 0),
                    None => None,
                },
                None => None,
            },
        }
    }
}

/// The parameter name of a parenthesized lambda argument `(x: { ... })`.
pub open spec fn spec_apply_lambda_param(t: Table, i: int) -> Option<Seq<char>> {
    if t.kinds[i] != NixKind::Apply || first_child_of_kind(t, i, NixKind::AttrSet, 0) is Some {
        None
    } else {
        match first_child_of_kind(t, i, NixKind::Paren, 0) {
            Some(p) => match first_child_of_kind(t, p, NixKind::Lambda, 0) {
                Some(l) => match first_child_of_kind(t, l, NixKind::IdentParam, 0) {
                    Some(q) => Some(trim(t.texts[q])),
                    None => None,
                },
                None => None,
            },
            None => None,
        }
    }
}

fn join_dot_exec(ps: &Vec<String>) -> (r: String)
    ensures
        r@ == join_dot(strings_view(ps@)),
{
    let mut r = String::new();
    let mut i: usize = 0;
    while i < ps.len()
        invariant
            i <= ps@.len(),
            r@ == join_dot(strings_view(ps@).subrange(0, i as int)),
        decreases ps.len() - i,
    {
        let ghost sub = strings_view(ps@).subrange(0, i + 1);
        assert(sub.drop_last() =~= strings_view(ps@).subrange(0, i as int));
        if i > 0 {
            r.append(".");
        }
        r.append(ps[i].as_str());
        i += 1;
    }
    assert(strings_view(ps@).subrange(0, ps@.len() as int) =~= strings_view(ps@));
    r
}

impl<'a> NixNode<'a> {
    /// The string literal at this node: its range and normalized parts.
    pub fn string_value(&self) -> (r: Option<StringValue>)
        requires
            self.wf(),
        ensures
            match r {
                Some(v) => spec_string_parts(*self.file, self.i()) == Some(parts_view(v.parts@)) && v.range
                    == self.t().ranges[self.i()],
                None => spec_string_parts(*self.file, self.i()) is None,
            },
    {
        if self.kind() != NixKind::String {
            return None;
        }
        let r = self.text_range();
        let src = self.file.source.as_str();
        let n = src.as_bytes().len();
        if !(r.start <= r.end && r.end <= n && n <= 0xffff_ffffusize) {
            return None;
        }
        match rnix_string_parts(src, r.start, r.end) {
            Some(parts) => Some(StringValue { range: r, parts }),
            None => None,
        }
    }

    /// The string's content when it has no interpolation.
    pub fn pure_string_content(&self) -> (r: Option<String>)
        requires
            self.wf(),
        ensures
            opt_string_view(r) == spec_pure_string(*self.file, self.i()),
    {
        match self.string_value() {
            Some(v) => v.pure_string_content(),
            None => None,
        }
    }

    /// The string's content with each interpolation resolved from `vars`
    /// by its trimmed expression text.
    pub fn interpolated_string_content(&self, vars: &crate::strmap::StrMap<String>) -> (r: Option<String>)
        requires
            self.wf(),
        ensures
            opt_string_view(r) == match spec_string_parts(*self.file, self.i()) {
                Some(p) => crate::parser::ast::interp_content(p, vars@.map_values(|v: Seq<char>| v)),
                None => None,
            },
    {
        match self.string_value() {
            Some(v) => v.interpolated_string_content(vars),
            None => None,
        }
    }

    /// Prefix and suffix around the single interpolation of `var_name`, the
    /// other interpolations resolved from `vars`.
    pub fn interpolated_var_affixes(&self, var_name: &str, vars: &crate::strmap::StrMap<String>) -> (r: Option<
        (String, String),
    >)
        requires
            self.wf(),
        ensures
            match r {
                Some((p, s)) => spec_string_parts(*self.file, self.i()) matches Some(parts)
                    && crate::parser::ast::var_affixes(parts, var_name@, vars@.map_values(|v: Seq<char>| v)) == Some(
                    (p@, s@),
                ),
                None => spec_string_parts(*self.file, self.i()) matches Some(parts) ==> crate::parser::ast::var_affixes(
                    parts,
                    var_name@,
                    vars@.map_values(|v: Seq<char>| v),
                ) is None,
            },
    {
        match self.string_value() {
            Some(v) => v.interpolated_var_affixes(var_name, vars),
            None => None,
        }
    }

    /// The binding of `key` directly in this attribute set.
    pub fn find_attr_by_key(&self, key: &str) -> (r: Option<NixNode<'a>>)
        requires
            self.wf(),
        ensures
            match r {
                Some(b) => b.wf() && b.file == self.file && spec_find_attr(self.t(), self.i(), key@) == Some(b.i()),
                None => spec_find_attr(self.t(), self.i(), key@) is None,
            },
    {
        if self.kind() != NixKind::AttrSet {
            return None;
        }
        let cs = self.children();
        let ghost t = self.t();
        let mut m: usize = 0;
        while m < cs.len()
            invariant
                self.wf(),
                t == self.t(),
                t.kinds[self.i()] == NixKind::AttrSet,
                cs@.len() == t.children[self.i()].len(),
                forall|k: int|
                    0 <= k < cs@.len() ==> (#[trigger] cs@[k]).wf() && cs@[k].file == self.file && cs@[k].index
                        == t.children[self.i()][k],
                m <= cs@.len(),
                first_binding_of(t, self.i(), key@, m as int) == first_binding_of(t, self.i(), key@, 0),
            decreases cs.len() - m,
        {
            let c = cs[m];
            let segs = c.attrpath_segments();
            if segs.len() == 1 && eq_str(&chars_of(segs[0].as_str()), key) {
                assert(strings_view(segs@) =~= seq![key@]);
                return Some(c);
            }
            proof {
                if strings_view(segs@) == seq![key@] {
                    assert(strings_view(segs@).len() == 1);
                    assert(segs@.len() == 1);
                    assert(strings_view(segs@)[0] == segs@[0]@);
                }
                assert(cs@[m as int].index == t.children[self.i()][m as int]);
            }
            m += 1;
        }
        None
    }

    /// The string content bound to `key` in this attribute set.
    pub fn find_string_value(&self, key: &str) -> (r: Option<String>)
        requires
            self.wf(),
        ensures
            opt_string_view(r) == match spec_find_value(self.t(), self.i(), key@) {
                Some(v) => spec_pure_string(*self.file, v),
                None => None,
            },
    {
        match self.find_attr_by_key(key) {
            Some(b) => match b.attr_value() {
                Some(v) => v.pure_string_content(),
                None => None,
            },
            None => None,
        }
    }

    /// The string node bound to `key` in this attribute set.
    pub fn find_string_node(&self, key: &str) -> (r: Option<NixNode<'a>>)
        requires
            self.wf(),
        ensures
            match r {
                Some(n) => n.wf() && n.file == self.file && spec_find_string_node(self.t(), self.i(), key@)
                    == Some(n.i()),
                None => spec_find_string_node(self.t(), self.i(), key@) is None,
            },
    {
        match self.find_attr_by_key(key) {
            Some(b) => match b.attr_value() {
                Some(v) => if v.kind() == NixKind::String {
                    Some(v)
                } else {
                    None
                },
                None => None,
            },
            None => None,
        }
    }

    /// The boolean bound to `key` in this attribute set.
    pub fn find_bool_value(&self, key: &str) -> (r: Option<bool>)
        requires
            self.wf(),
        ensures
            r == spec_find_bool(self.t(), self.i(), key@),
    {
        proof {
            reveal_strlit("true");
            reveal_strlit("false");
        }
        match self.find_attr_by_key(key) {
            Some(b) => match b.attr_value() {
                Some(v) => {
                    if v.kind() != NixKind::Ident {
                        return None;
                    }
                    let t = chars_of(v.text_trimmed().as_str());
                    if eq_str(&t, "true") {
                        Some(true)
                    } else if eq_str(&t, "false") {
                        Some(false)
                    } else {
                        None
                    }
                },
                None => None,
            },
            None => None,
        }
    }

    /// The `.`-joined path of a select expression.
    pub fn select_name(&self) -> (r: String)
        requires
            self.wf(),
        ensures
            r@ == join_dot(select_parts(self.t(), self.i())),
    {
        let parts = self.select_path();
        join_dot_exec(&parts)
    }

    fn select_path(&self) -> (r: Vec<String>)
        requires
            self.wf(),
        ensures
            strings_view(r@) == select_parts(self.t(), self.i()),
        decreases self.file.len() - self.i(), 0int,
    {
        let ghost t = self.t();
        let cs = &self.file.children[self.index];
        if cs.len() < 2 {
            return Vec::new();
        }
        let first = cs[0];
        let last = cs[cs.len() - 1];
        assert(t.children[self.i()][0] == first);
        assert(t.children[self.i()][cs@.len() - 1] == last);
        let mut parts: Vec<String> = Vec::new();
        let f = self.at(first);
        if f.kind() == NixKind::Select {
            parts = f.select_path();
        } else if f.kind() == NixKind::Ident {
            parts.push(f.text_trimmed());
            assert(strings_view(parts@) =~= seq![trim(t.texts[first as int])]);
        } else {
            assert(strings_view(parts@) =~= Seq::<Seq<char>>::empty());
        }
        let l = self.at(last);
        let ghost left = strings_view(parts@);
        if l.kind() == NixKind::Attrpath {
            let more = l.attrpath_path(l.file.children[l.index].len());
            let mut k: usize = 0;
            while k < more.len()
                invariant
                    k <= more@.len(),
                    strings_view(parts@) == left + strings_view(more@).subrange(0, k as int),
                decreases more.len() - k,
            {
                let ghost old_parts = parts@;
                let item = more[k].clone();
                parts.push(item);
                assert(strings_view(parts@) =~= strings_view(old_parts).push(more@[k as int]@));
                assert(strings_view(more@).subrange(0, k + 1) =~= strings_view(more@).subrange(0, k as int).push(
                    more@[k as int]@,
                ));
                assert(strings_view(parts@) =~= left + strings_view(more@).subrange(0, k + 1));
                k += 1;
            }
            assert(strings_view(more@).subrange(0, more@.len() as int) =~= strings_view(more@));
        } else if l.kind() == NixKind::Ident {
            parts.push(l.text_trimmed());
            assert(strings_view(parts@) =~= left + seq![trim(t.texts[last as int])]);
        } else {
            assert(strings_view(parts@) =~= left + Seq::<Seq<char>>::empty());
        }
        parts
    }

    fn attrpath_path(&self, k: usize) -> (r: Vec<String>)
        requires
            self.wf(),
            k <= self.t().children[self.i()].len(),
        ensures
            strings_view(r@) == attrpath_parts(self.t(), self.i(), k as int),
        decreases self.file.len() - self.i(), 1int, k,
    {
        if k == 0 {
            return Vec::new();
        }
        let ghost t = self.t();
        let mut prev = self.attrpath_path(k - 1);
        let c = self.file.children[self.index][k - 1];
        assert(t.children[self.i()][k - 1] == c);
        let n = self.at(c);
        if n.kind() == NixKind::Ident {
            prev.push(n.text_trimmed());
            assert(strings_view(prev@) =~= attrpath_parts(t, self.i(), k - 1).push(trim(t.texts[c as int])));
        } else if n.kind() == NixKind::Select {
            let ghost before = strings_view(prev@);
            let more = n.select_path();
            let mut q: usize = 0;
            while q < more.len()
                invariant
                    q <= more@.len(),
                    strings_view(prev@) == before + strings_view(more@).subrange(0, q as int),
                decreases more.len() - q,
            {
                let ghost old_prev = prev@;
                let item = more[q].clone();
                prev.push(item);
                assert(strings_view(prev@) =~= strings_view(old_prev).push(more@[q as int]@));
                assert(strings_view(more@).subrange(0, q + 1) =~= strings_view(more@).subrange(0, q as int).push(
                    more@[q as int]@,
                ));
                assert(strings_view(prev@) =~= before + strings_view(more@).subrange(0, q + 1));
                q += 1;
            }
            assert(strings_view(more@).subrange(0, more@.len() as int) =~= strings_view(more@));
        }
        prev
    }

    /// The name of the applied function: an identifier, or a select path
    /// such as `pkgs.fetchFromGitHub` joined with `.`.
    pub fn apply_function_name(&self) -> (r: Option<String>)
        requires
            self.wf(),
        ensures
            opt_string_view(r) == spec_apply_function_name(self.t(), self.i()),
    {
        if self.kind() != NixKind::Apply {
            return None;
        }
        let cs = &self.file.children[self.index];
        let ghost t = self.t();
        let mut m: usize = 0;
        while m < cs.len()
            invariant
                self.wf(),
                t == self.t(),
                cs@ == t.children[self.i()],
                m <= cs@.len(),
                apply_name_from(t, self.i(), m as int) == apply_name_from(t, self.i(), 0),
                t.kinds[self.i()] == NixKind::Apply,
            decreases cs.len() - m,
        {
            let c = cs[m];
            assert(t.children[self.i()][m as int] == c);
            let n = self.at(c);
            if n.kind() == NixKind::Ident {
                return Some(n.text_trimmed());
            } else if n.kind() == NixKind::Select {
                let parts = n.select_path();
                if parts.len() > 0 {
                    return Some(join_dot_exec(&parts));
                }
            }
            m += 1;
        }
        None
    }

    /// The direct attribute-set argument of a function application.
    pub fn apply_argument(&self) -> (r: Option<NixNode<'a>>)
        requires
            self.wf(),
        ensures
            match r {
                Some(a) => a.wf() && a.file == self.file && self.t().kinds[self.i()] == NixKind::Apply
                    && first_child_of_kind(self.t(), self.i(), NixKind::AttrSet, 0) == Some(a.i()),
                None => self.t().kinds[self.i()] != NixKind::Apply || first_child_of_kind(
                    self.t(),
                    self.i(),
                    NixKind::AttrSet,
                    0,
                ) is None,
            },
    {
        if self.kind() != NixKind::Apply {
            return None;
        }
        self.find_child(NixKind::AttrSet)
    }

    /// The attribute-set argument of a function application, looking
    /// through a parenthesized lambda `f (x: { ... })`.
    pub fn apply_argument_attrset(&self) -> (r: Option<NixNode<'a>>)
        requires
            self.wf(),
        ensures
            match r {
                Some(a) => a.wf() && a.file == self.file && spec_apply_argument_attrset(self.t(), self.i()) == Some(
                    a.i(),
                ),
                None => spec_apply_argument_attrset(self.t(), self.i()) is None,
            },
    {
        if self.kind() != NixKind::Apply {
            return None;
        }
        if let Some(a) = self.apply_argument() {
            return Some(a);
        }
        match self.find_child(NixKind::Paren) {
            Some(p) => match p.find_child(NixKind::Lambda) {
                Some(l) => l.find_child(NixKind::AttrSet),
                None => None,
            },
            None => None,
        }
    }

    /// The parameter of a parenthesized lambda argument `f (x: { ... })`.
    pub fn apply_lambda_param(&self) -> (r: Option<String>)
        requires
            self.wf(),
        ensures
            opt_string_view(r) == spec_apply_lambda_param(self.t(), self.i()),
    {
        if self.kind() != NixKind::Apply {
            return None;
        }
        if self.apply_argument().is_some() {
            return None;
        }
        match self.find_child(NixKind::Paren) {
            Some(p) => match p.find_child(NixKind::Lambda) {
                Some(l) => match l.find_child(NixKind::IdentParam) {
                    Some(q) => Some(q.text_trimmed()),
                    None => None,
                },
                None => None,
            },
            None => None,
        }
    }
}

pub open spec fn opt_string_view(o: Option<String>) -> Option<Seq<char>> {
    match o {
        Some(s) => Some(s@),
        None => None,
    }
}

} // verus!
