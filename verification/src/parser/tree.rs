//! A Nix file's syntax tree, read from `rnix` as a preorder walk and held
//! as a table of nodes.
//!
//! `rnix` parses; the walk it produces (node and token entries and exits,
//! with their kinds, byte ranges and token texts) is turned here into a
//! table in which every node knows its parent, its children, the comments
//! directly inside it, its text and the extent of its subtree. Nodes are
//! numbered in preorder, so a node's subtree is the range of numbers from
//! the node to its `end`.
use vstd::prelude::*;

use vstd::utf8::encode_utf8;

use crate::parser::ast::{StrPart, StrPartView, TextRange};

verus! {

/// The node kinds of `rnix`, with comments among the tokens; any other
/// token is `OtherToken`, and a node kind beyond those `rnix` 0.15 knows
/// is `OtherNode`.
#[derive(Debug, Clone, Copy, PartialEq, Eq, Structural)]
pub enum NixKind {
    Apply,
    Assert,
    AttrSet,
    Attrpath,
    AttrpathValue,
    BinOp,
    CurPos,
    Dynamic,
    Error,
    HasAttr,
    Ident,
    IdentParam,
    IfElse,
    Inherit,
    InheritFrom,
    Interpol,
    Lambda,
    LegacyLet,
    LetIn,
    List,
    Literal,
    Paren,
    PatBind,
    PatEntry,
    Pattern,
    PathAbs,
    PathHome,
    PathRel,
    PathSearch,
    Root,
    Select,
    String,
    UnaryOp,
    With,
    OtherNode,
    Comment,
    OtherToken,
}

/// The kind that `rnix`'s `SyntaxKind` discriminant `raw` stands for.
pub open spec fn spec_kind_of_raw(raw: u16) -> NixKind {
    if raw == 7 {
        NixKind::Comment
    } else if raw < 59 {
        NixKind::OtherToken
    } else if raw == 59 {
        NixKind::Apply
    } else if raw == 60 {
        NixKind::Assert
    } else if raw == 61 {
        NixKind::AttrSet
    } else if raw == 62 {
        NixKind::Attrpath
    } else if raw == 63 {
        NixKind::AttrpathValue
    } else if raw == 64 {
        NixKind::BinOp
    } else if raw == 65 {
        NixKind::CurPos
    } else if raw == 66 {
        NixKind::Dynamic
    } else if raw == 67 {
        NixKind::Error
    } else if raw == 68 {
        NixKind::HasAttr
    } else if raw == 69 {
        NixKind::Ident
    } else if raw == 70 {
        NixKind::IdentParam
    } else if raw == 71 {
        NixKind::IfElse
    } else if raw == 72 {
        NixKind::Inherit
    } else if raw == 73 {
        NixKind::InheritFrom
    } else if raw == 74 {
        NixKind::Interpol
    } else if raw == 75 {
        NixKind::Lambda
    } else if raw == 76 {
        NixKind::LegacyLet
    } else if raw == 77 {
        NixKind::LetIn
    } else if raw == 78 {
        NixKind::List
    } else if raw == 79 {
        NixKind::Literal
    } else if raw == 80 {
        NixKind::Paren
    } else if raw == 81 {
        NixKind::PatBind
    } else if raw == 82 {
        NixKind::PatEntry
    } else if raw == 83 {
        NixKind::Pattern
    } else if raw == 84 {
        NixKind::PathAbs
    } else if raw == 85 {
        NixKind::PathHome
    } else if raw == 86 {
        NixKind::PathRel
    } else if raw == 87 {
        NixKind::PathSearch
    } else if raw == 88 {
        NixKind::Root
    } else if raw == 89 {
        NixKind::Select
    } else if raw == 90 {
        NixKind::String
    } else if raw == 91 {
        NixKind::UnaryOp
    } else if raw == 92 {
        NixKind::With
    } else {
        NixKind::OtherNode
    }
}

/// The name `rnix` gives a kind (`NODE_ATTR_SET`, ...).
pub open spec fn spec_rnix_name(k: NixKind) -> Seq<char> {
    match k {
            NixKind::Apply => "NODE_APPLY"@,
            NixKind::Assert => "NODE_ASSERT"@,
            NixKind::AttrSet => "NODE_ATTR_SET"@,
            NixKind::Attrpath => "NODE_ATTRPATH"@,
            NixKind::AttrpathValue => "NODE_ATTRPATH_VALUE"@,
            NixKind::BinOp => "NODE_BIN_OP"@,
            NixKind::CurPos => "NODE_CUR_POS"@,
            NixKind::Dynamic => "NODE_DYNAMIC"@,
            NixKind::Error => "NODE_ERROR"@,
            NixKind::HasAttr => "NODE_HAS_ATTR"@,
            NixKind::Ident => "NODE_IDENT"@,
            NixKind::IdentParam => "NODE_IDENT_PARAM"@,
            NixKind::IfElse => "NODE_IF_ELSE"@,
            NixKind::Inherit => "NODE_INHERIT"@,
            NixKind::InheritFrom => "NODE_INHERIT_FROM"@,
            NixKind::Interpol => "NODE_INTERPOL"@,
            NixKind::Lambda => "NODE_LAMBDA"@,
            NixKind::LegacyLet => "NODE_LEGACY_LET"@,
            NixKind::LetIn => "NODE_LET_IN"@,
            NixKind::List => "NODE_LIST"@,
            NixKind::Literal => "NODE_LITERAL"@,
            NixKind::Paren => "NODE_PAREN"@,
            NixKind::PatBind => "NODE_PAT_BIND"@,
            NixKind::PatEntry => "NODE_PAT_ENTRY"@,
            NixKind::Pattern => "NODE_PATTERN"@,
            NixKind::PathAbs => "NODE_PATH_ABS"@,
            NixKind::PathHome => "NODE_PATH_HOME"@,
            NixKind::PathRel => "NODE_PATH_REL"@,
            NixKind::PathSearch => "NODE_PATH_SEARCH"@,
            NixKind::Root => "NODE_ROOT"@,
            NixKind::Select => "NODE_SELECT"@,
            NixKind::String => "NODE_STRING"@,
            NixKind::UnaryOp => "NODE_UNARY_OP"@,
            NixKind::With => "NODE_WITH"@,
            NixKind::OtherNode => "NODE_OTHER"@,
            NixKind::Comment => "TOKEN_COMMENT"@,
            NixKind::OtherToken => "TOKEN_OTHER"@,
    }
}

impl NixKind {
    /// The name `rnix` gives the kind (`NODE_ATTR_SET`, ...).
    pub fn rnix_name(&self) -> (r: &'static str)
        ensures
            r@ == spec_rnix_name(*self),
    {
        match self {
            NixKind::Apply => "NODE_APPLY",
            NixKind::Assert => "NODE_ASSERT",
            NixKind::AttrSet => "NODE_ATTR_SET",
            NixKind::Attrpath => "NODE_ATTRPATH",
            NixKind::AttrpathValue => "NODE_ATTRPATH_VALUE",
            NixKind::BinOp => "NODE_BIN_OP",
            NixKind::CurPos => "NODE_CUR_POS",
            NixKind::Dynamic => "NODE_DYNAMIC",
            NixKind::Error => "NODE_ERROR",
            NixKind::HasAttr => "NODE_HAS_ATTR",
            NixKind::Ident => "NODE_IDENT",
            NixKind::IdentParam => "NODE_IDENT_PARAM",
            NixKind::IfElse => "NODE_IF_ELSE",
            NixKind::Inherit => "NODE_INHERIT",
            NixKind::InheritFrom => "NODE_INHERIT_FROM",
            NixKind::Interpol => "NODE_INTERPOL",
            NixKind::Lambda => "NODE_LAMBDA",
            NixKind::LegacyLet => "NODE_LEGACY_LET",
            NixKind::LetIn => "NODE_LET_IN",
            NixKind::List => "NODE_LIST",
            NixKind::Literal => "NODE_LITERAL",
            NixKind::Paren => "NODE_PAREN",
            NixKind::PatBind => "NODE_PAT_BIND",
            NixKind::PatEntry => "NODE_PAT_ENTRY",
            NixKind::Pattern => "NODE_PATTERN",
            NixKind::PathAbs => "NODE_PATH_ABS",
            NixKind::PathHome => "NODE_PATH_HOME",
            NixKind::PathRel => "NODE_PATH_REL",
            NixKind::PathSearch => "NODE_PATH_SEARCH",
            NixKind::Root => "NODE_ROOT",
            NixKind::Select => "NODE_SELECT",
            NixKind::String => "NODE_STRING",
            NixKind::UnaryOp => "NODE_UNARY_OP",
            NixKind::With => "NODE_WITH",
            NixKind::OtherNode => "NODE_OTHER",
            NixKind::Comment => "TOKEN_COMMENT",
            NixKind::OtherToken => "TOKEN_OTHER",
        }
    }
}

/// The kind of `rnix`'s `SyntaxKind` with discriminant `raw`
/// (`SyntaxKind` is `repr(u16)`; tokens come first, from 0 to 58, with
/// `TOKEN_COMMENT` at 7, then the nodes from `NODE_APPLY` at 59).
pub fn kind_of_raw(raw: u16) -> (k: NixKind)
    ensures
        k == spec_kind_of_raw(raw),
{
    if raw == 7 {
        NixKind::Comment
    } else if raw < 59 {
        NixKind::OtherToken
    } else if raw == 59 {
        NixKind::Apply
    } else if raw == 60 {
        NixKind::Assert
    } else if raw == 61 {
        NixKind::AttrSet
    } else if raw == 62 {
        NixKind::Attrpath
    } else if raw == 63 {
        NixKind::AttrpathValue
    } else if raw == 64 {
        NixKind::BinOp
    } else if raw == 65 {
        NixKind::CurPos
    } else if raw == 66 {
        NixKind::Dynamic
    } else if raw == 67 {
        NixKind::Error
    } else if raw == 68 {
        NixKind::HasAttr
    } else if raw == 69 {
        NixKind::Ident
    } else if raw == 70 {
        NixKind::IdentParam
    } else if raw == 71 {
        NixKind::IfElse
    } else if raw == 72 {
        NixKind::Inherit
    } else if raw == 73 {
        NixKind::InheritFrom
    } else if raw == 74 {
        NixKind::Interpol
    } else if raw == 75 {
        NixKind::Lambda
    } else if raw == 76 {
        NixKind::LegacyLet
    } else if raw == 77 {
        NixKind::LetIn
    } else if raw == 78 {
        NixKind::List
    } else if raw == 79 {
        NixKind::Literal
    } else if raw == 80 {
        NixKind::Paren
    } else if raw == 81 {
        NixKind::PatBind
    } else if raw == 82 {
        NixKind::PatEntry
    } else if raw == 83 {
        NixKind::Pattern
    } else if raw == 84 {
        NixKind::PathAbs
    } else if raw == 85 {
        NixKind::PathHome
    } else if raw == 86 {
        NixKind::PathRel
    } else if raw == 87 {
        NixKind::PathSearch
    } else if raw == 88 {
        NixKind::Root
    } else if raw == 89 {
        NixKind::Select
    } else if raw == 90 {
        NixKind::String
    } else if raw == 91 {
        NixKind::UnaryOp
    } else if raw == 92 {
        NixKind::With
    } else {
        NixKind::OtherNode
    }
}

/// One step of `rnix`'s preorder walk with tokens: entering or leaving a
/// node or token, with its kind, its byte range, and a token's text.
#[derive(Debug, Clone)]
pub struct SyntaxEvent {
    pub enter: bool,
    pub kind: u16,
    pub start: usize,
    pub end: usize,
    pub token: Option<String>,
}

/// The mathematical form of a [`SyntaxEvent`].
pub struct EventView {
    pub enter: bool,
    pub kind: u16,
    pub start: usize,
    pub end: usize,
    pub token: Option<Seq<char>>,
}

pub open spec fn event_view(e: SyntaxEvent) -> EventView {
    EventView {
        enter: e.enter,
        kind: e.kind,
        start: e.start,
        end: e.end,
        token: match e.token {
            Some(t) => Some(t@),
            None => None,
        },
    }
}

pub open spec fn strings_view(v: Seq<String>) -> Seq<Seq<char>> {
    v.map_values(|s: String| s@)
}

/// The preorder walk (with tokens) of the tree `rnix::Root::parse` builds
/// for `src`, and the messages of the parse errors it reports.
pub uninterp spec fn rnix_parse_of(src: Seq<char>) -> (Seq<EventView>, Seq<Seq<char>>);

/// `rnix::Root::parse`, walked with `preorder_with_tokens`, each step
/// converted to plain values (the kind by its `repr(u16)` discriminant);
/// the errors by their messages. The contract names the result. Sources
/// too long for `rowan`'s 32-bit offsets are left out.
#[verifier::external_body]
pub(crate) fn rnix_parse(src: &str) -> (r: (Vec<SyntaxEvent>, Vec<String>))
    requires
        encode_utf8(src@).len() <= u32::MAX,
    ensures
        (r.0@.map_values(|e: SyntaxEvent| event_view(e)), strings_view(r.1@)) == rnix_parse_of(src@),
{
    let parse = rnix::Root::parse(src);
    let errors = parse.errors().iter().map(|e| e.to_string()).collect();
    let events = parse.syntax().preorder_with_tokens().map(|ev| {
        let (enter, el) = match ev {
            rowan::WalkEvent::Enter(el) => (true, el),
            rowan::WalkEvent::Leave(el) => (false, el),
        };
        let range = el.text_range();
        let token = el.as_token().map(|t| t.text().to_string());
        SyntaxEvent { enter, kind: el.kind() as u16, start: range.start().into(), end: range.end().into(), token }
    }).collect();
    (events, errors)
}

/// The normalized parts (`rnix::ast::Str::normalized_parts`) of the string
/// node of `src` at byte range `start..end`, each interpolation given by
/// the text of its expression; `None` when no string node has that range.
pub uninterp spec fn rnix_string_parts_of(src: Seq<char>, start: usize, end: usize) -> Option<Seq<StrPartView>>;

pub open spec fn opt_parts_view(r: Option<Vec<StrPart>>) -> Option<Seq<StrPartView>> {
    match r {
        Some(v) => Some(v@.map_values(|p: StrPart| p@)),
        None => None,
    }
}

/// Parses `src` with `rnix`, takes the element covering `start..end`, and
/// when it is a string node returns `Str::normalized_parts`, converted.
/// The contract names the result. Ranges outside the source, where
/// `rowan` panics, are left out.
#[verifier::external_body]
pub(crate) fn rnix_string_parts(src: &str, start: usize, end: usize) -> (r: Option<Vec<StrPart>>)
    requires
        start <= end,
        end <= encode_utf8(src@).len(),
        encode_utf8(src@).len() <= u32::MAX,
    ensures
        opt_parts_view(r) == rnix_string_parts_of(src@, start, end),
{
    let root = rnix::Root::parse(src).syntax();
    let range = rowan::TextRange::new((start as u32).into(), (end as u32).into());
    let node = root.covering_element(range).into_node()?;
    let s = <rnix::ast::Str as rowan::ast::AstNode>::cast(node)?;
    Some(s.normalized_parts().into_iter().map(|p| match p {
        rnix::ast::InterpolPart::Literal(l) => StrPart::Literal(l),
        rnix::ast::InterpolPart::Interpolation(i) => StrPart::Interpolation(
            rnix::ast::Interpol::expr(&i).map(|e| rowan::ast::AstNode::syntax(&e).text().to_string()),
        ),
    }).collect())
}


// ---------------------------------------------------------------------------
// The node table
// ---------------------------------------------------------------------------

/// The node table as mathematical sequences, one entry per node in
/// preorder, with the stack of nodes still open while it is being built.
#[verifier::ext_equal]
pub struct Table {
    pub kinds: Seq<NixKind>,
    pub ranges: Seq<TextRange>,
    pub parents: Seq<Option<usize>>,
    pub children: Seq<Seq<usize>>,
    pub comments: Seq<Seq<Seq<char>>>,
    pub texts: Seq<Seq<char>>,
    pub ends: Seq<usize>,
    pub stack: Seq<usize>,
}

/// Node `i` is open.
pub open spec fn on_stack(stack: Seq<usize>, i: int) -> bool {
    exists|m: int| 0 <= m < stack.len() && stack[m] as int == i
}

pub open spec fn empty_table() -> Table {
    Table {
        kinds: Seq::empty(),
        ranges: Seq::empty(),
        parents: Seq::empty(),
        children: Seq::empty(),
        comments: Seq::empty(),
        texts: Seq::empty(),
        ends: Seq::empty(),
        stack: Seq::empty(),
    }
}

/// The innermost open node.
pub open spec fn open_top(t: Table) -> Option<usize> {
    if t.stack.len() > 0 {
        Some(t.stack.last())
    } else {
        None
    }
}

/// Entering a node: it becomes the last child of the innermost open node,
/// and is open itself.
pub open spec fn enter_node(t: Table, e: EventView) -> Table {
    let idx = t.kinds.len() as usize;
    let ch = match open_top(t) {
        Some(p) => t.children.update(p as int, t.children[p as int].push(idx)),
        None => t.children,
    };
    Table {
        kinds: t.kinds.push(spec_kind_of_raw(e.kind)),
        ranges: t.ranges.push(TextRange { start: e.start, end: e.end }),
        parents: t.parents.push(open_top(t)),
        children: ch.push(Seq::empty()),
        comments: t.comments.push(Seq::empty()),
        texts: t.texts.push(Seq::empty()),
        ends: t.ends.push((idx + 1) as usize),
        stack: t.stack.push(idx),
    }
}

/// Entering a token: its text is part of the text of every open node, and
/// a comment is recorded on the innermost one.
pub open spec fn enter_token(t: Table, kind: u16, tok: Seq<char>) -> Table {
    Table {
        texts: Seq::new(
            t.texts.len(),
            |i: int|
                if on_stack(t.stack, i) {
                    t.texts[i] + tok
                } else {
                    t.texts[i]
                },
        ),
        comments: if spec_kind_of_raw(kind) == NixKind::Comment && t.stack.len() > 0 {
            t.comments.update(t.stack.last() as int, t.comments[t.stack.last() as int].push(tok))
        } else {
            t.comments
        },
        ..t
    }
}

/// Leaving a node: its subtree ends with the nodes entered so far.
pub open spec fn leave_node(t: Table) -> Table {
    if t.stack.len() > 0 {
        Table {
            ends: t.ends.update(t.stack.last() as int, t.kinds.len() as usize),
            stack: t.stack.drop_last(),
            ..t
        }
    } else {
        t
    }
}

pub open spec fn table_step(t: Table, e: EventView) -> Table {
    match e.token {
        Some(tok) => if e.enter {
            enter_token(t, e.kind, tok)
        } else {
            t
        },
        None => if e.enter {
            enter_node(t, e)
        } else {
            leave_node(t)
        },
    }
}

pub open spec fn table_run(events: Seq<EventView>) -> Table
    decreases events.len(),
{
    if events.len() == 0 {
        empty_table()
    } else {
        table_step(table_run(events.drop_last()), events.last())
    }
}

/// Nodes never left end with the last node.
pub open spec fn table_finish(t: Table) -> Table {
    Table {
        ends: Seq::new(
            t.ends.len(),
            |i: int|
                if on_stack(t.stack, i) {
                    t.kinds.len() as usize
                } else {
                    t.ends[i]
                },
        ),
        stack: Seq::empty(),
        ..t
    }
}

/// The node table of a walk.
pub open spec fn table_of(events: Seq<EventView>) -> Table {
    table_finish(table_run(events))
}

/// What holds of the table while it is built: parents come before their
/// children, children after their parent, every subtree ends after its
/// node and within the table, and the open nodes are distinct and ordered.
pub open spec fn table_inv(t: Table) -> bool {
    let n = t.kinds.len();
    &&& t.ranges.len() == n && t.parents.len() == n && t.children.len() == n
    &&& t.comments.len() == n && t.texts.len() == n && t.ends.len() == n
    &&& forall|i: int| 0 <= i < n ==> (#[trigger] t.parents[i] matches Some(p) ==> p < i)
    &&& forall|i: int, k: int| 0 <= i < n && 0 <= k < t.children[i].len() ==> i < #[trigger] t.children[i][k] < n
    &&& forall|i: int| 0 <= i < n ==> i < #[trigger] t.ends[i] <= n
    &&& forall|j: int| 0 <= j < t.stack.len() ==> #[trigger] t.stack[j] < n
    &&& forall|j: int, k: int| 0 <= j < k < t.stack.len() ==> #[trigger] t.stack[j] < #[trigger] t.stack[k]
}

/// A finished table: the building invariant with no open node.
pub open spec fn table_wf(t: Table) -> bool {
    table_inv(t) && t.stack.len() == 0
}

pub proof fn lemma_step_inv(t: Table, e: EventView)
    requires
        table_inv(t),
        t.kinds.len() < usize::MAX,
    ensures
        table_inv(table_step(t, e)),
{
    let n = t.kinds.len();
    match e.token {
        Some(tok) => {},
        None => {
            if e.enter {
                let t2 = enter_node(t, e);
                assert forall|i: int, k: int| 0 <= i < n + 1 && 0 <= k < t2.children[i].len() implies i
                    < #[trigger] t2.children[i][k] < n + 1 by {
                    if i < n && open_top(t) == Some(i as usize) && k == t.children[i].len() {
                    } else if i < n {
                        assert(t2.children[i][k] == t.children[i][k]);
                    }
                }
                assert forall|i: int| 0 <= i < n + 1 implies i < #[trigger] t2.ends[i] <= n + 1 by {
                    if i < n {
                        assert(t2.ends[i] == t.ends[i]);
                    }
                }
            } else {
                if t.stack.len() > 0 {
                    let t2 = leave_node(t);
                    assert forall|i: int| 0 <= i < n implies i < #[trigger] t2.ends[i] <= n by {
                        if i != t.stack.last() {
                            assert(t2.ends[i] == t.ends[i]);
                        }
                    }
                }
            }
        },
    }
}

pub proof fn lemma_run_inv(events: Seq<EventView>)
    requires
        events.len() < usize::MAX,
    ensures
        table_inv(table_run(events)),
        table_run(events).kinds.len() <= events.len(),
    decreases events.len(),
{
    if events.len() > 0 {
        lemma_run_inv(events.drop_last());
        lemma_step_inv(table_run(events.drop_last()), events.last());
    }
}

pub proof fn lemma_finish_wf(t: Table)
    requires
        table_inv(t),
        t.kinds.len() <= usize::MAX,
    ensures
        table_wf(table_finish(t)),
{
    let f = table_finish(t);
    assert forall|i: int| 0 <= i < t.kinds.len() implies i < #[trigger] f.ends[i] <= t.kinds.len() by {
        if on_stack(t.stack, i) {
        }
    }
}


// ---------------------------------------------------------------------------
// Parsed files
// ---------------------------------------------------------------------------

/// A parsed Nix file: its source and its node table.
#[derive(Debug)]
pub struct NixFile {
    pub source: String,
    pub kinds: Vec<NixKind>,
    pub ranges: Vec<TextRange>,
    pub parents: Vec<Option<usize>>,
    pub children: Vec<Vec<usize>>,
    pub comments: Vec<Vec<String>>,
    pub texts: Vec<String>,
    pub ends: Vec<usize>,
}

pub open spec fn comments_view(v: Seq<Vec<String>>) -> Seq<Seq<Seq<char>>> {
    v.map_values(|c: Vec<String>| strings_view(c@))
}

pub open spec fn children_view(v: Seq<Vec<usize>>) -> Seq<Seq<usize>> {
    v.map_values(|c: Vec<usize>| c@)
}

impl NixFile {
    /// The node table of the file.
    pub open spec fn table(&self) -> Table {
        Table {
            kinds: self.kinds@,
            ranges: self.ranges@,
            parents: self.parents@,
            children: children_view(self.children@),
            comments: comments_view(self.comments@),
            texts: strings_view(self.texts@),
            ends: self.ends@,
            stack: Seq::empty(),
        }
    }

    /// A table that could have come from a walk.
    pub open spec fn wf(&self) -> bool {
        table_wf(self.table())
    }

    /// The number of nodes.
    pub open spec fn len(&self) -> nat {
        self.kinds@.len()
    }
}

/// The table state of the builder.
pub open spec fn building(
    kinds: Seq<NixKind>,
    ranges: Seq<TextRange>,
    parents: Seq<Option<usize>>,
    children: Seq<Vec<usize>>,
    comments: Seq<Vec<String>>,
    texts: Seq<String>,
    ends: Seq<usize>,
    stack: Seq<usize>,
) -> Table {
    Table {
        kinds,
        ranges,
        parents,
        children: children_view(children),
        comments: comments_view(comments),
        texts: strings_view(texts),
        ends,
        stack,
    }
}

/// Builds the node table of a walk (see [`table_of`]).
pub fn build_table(source: String, events: &Vec<SyntaxEvent>) -> (f: NixFile)
    ensures
        f.table() == table_of(events@.map_values(|e: SyntaxEvent| event_view(e))),
        f.wf(),
        f.source == source,
{
    let ghost evs = events@.map_values(|e: SyntaxEvent| event_view(e));
    let mut kinds: Vec<NixKind> = Vec::new();
    let mut ranges: Vec<TextRange> = Vec::new();
    let mut parents: Vec<Option<usize>> = Vec::new();
    let mut children: Vec<Vec<usize>> = Vec::new();
    let mut comments: Vec<Vec<String>> = Vec::new();
    let mut texts: Vec<String> = Vec::new();
    let mut ends: Vec<usize> = Vec::new();
    let mut stack: Vec<usize> = Vec::new();
    let mut k: usize = 0;
    assert(building(kinds@, ranges@, parents@, children@, comments@, texts@, ends@, stack@) =~= empty_table());
    while k < events.len()
        invariant
            k <= events@.len(),
            evs == events@.map_values(|e: SyntaxEvent| event_view(e)),
            building(kinds@, ranges@, parents@, children@, comments@, texts@, ends@, stack@) == table_run(
                evs.subrange(0, k as int),
            ),
            table_inv(table_run(evs.subrange(0, k as int))),
            kinds@.len() <= k,
        decreases events.len() - k,
    {
        let ghost t = table_run(evs.subrange(0, k as int));
        let e = &events[k];
        assert(evs.subrange(0, k + 1).drop_last() =~= evs.subrange(0, k as int));
        assert(evs.subrange(0, k + 1).last() == event_view(*e));
        proof { lemma_step_inv(t, event_view(*e)); }
        match &e.token {
            Some(tok) => {
                if e.enter {
                    let ghost texts0 = texts@;
                    let mut j: usize = 0;
                    while j < stack.len()
                        invariant
                            j <= stack@.len(),
                            texts@.len() == texts0.len(),
                            stack@ == t.stack,
                            table_inv(t),
                            t.texts == strings_view(texts0),
                            forall|i: int| 0 <= i < texts@.len() ==> #[trigger] texts@[i]@ == if on_stack(stack@.subrange(0, j as int), i) {
                                texts0[i]@ + tok@
                            } else {
                                texts0[i]@
                            },
                        decreases stack.len() - j,
                    {
                        let s = stack[j];
                        let ghost before = texts@;
                        let mut cur = String::new();
                        std::mem::swap(&mut cur, &mut texts[s]);
                        cur.append(tok.as_str());
                        texts.set(s, cur);
                        assert forall|i: int| 0 <= i < texts@.len() implies #[trigger] texts@[i]@ == if on_stack(stack@.subrange(0, j + 1), i) {
                            texts0[i]@ + tok@
                        } else {
                            texts0[i]@
                        } by {
                            let sub = stack@.subrange(0, j as int);
                            assert(before[i]@ == if on_stack(sub, i) { texts0[i]@ + tok@ } else { texts0[i]@ });
                            assert(stack@.subrange(0, j + 1) =~= sub.push(s));
                            if on_stack(sub.push(s), i) {
                                let m = choose|m: int| 0 <= m < j + 1 && sub.push(s)[m] as int == i;
                                if m < j {
                                    assert(sub[m] as int == i);
                                }
                            }
                            if on_stack(sub, i) {
                                let m = choose|m: int| 0 <= m < j && sub[m] as int == i;
                                assert(sub.push(s)[m] as int == i);
                            }
                            if i == s as int {
                                assert(sub.push(s)[j as int] == s);
                                assert(on_stack(sub.push(s), i));
                                assert(!on_stack(sub, i)) by {
                                    if on_stack(sub, i) {
                                        let m = choose|m: int| 0 <= m < j && sub[m] as int == i;
                                        assert(stack@[m] < stack@[j as int]);
                                    }
                                }
                            }
                        }
                        j += 1;
                    }
                    assert(stack@.subrange(0, stack@.len() as int) =~= stack@);
                    if kind_of_raw(e.kind) == NixKind::Comment && stack.len() > 0 {
                        let top = stack[stack.len() - 1];
                        let mut cs: Vec<String> = Vec::new();
                        std::mem::swap(&mut cs, &mut comments[top]);
                        cs.push(tok.clone());
                        comments.set(top, cs);
                    }
                    assert(strings_view(texts@) =~= enter_token(t, e.kind, tok@).texts);
                    assert(comments_view(comments@) =~~= enter_token(t, e.kind, tok@).comments);
                }
            },
            None => {
                if e.enter {
                    let idx = kinds.len();
                    kinds.push(kind_of_raw(e.kind));
                    ranges.push(TextRange { start: e.start, end: e.end });
                    let top = if stack.len() > 0 { Some(stack[stack.len() - 1]) } else { None };
                    parents.push(top);
                    match top {
                        Some(p) => {
                            let mut cs: Vec<usize> = Vec::new();
                            std::mem::swap(&mut cs, &mut children[p]);
                            cs.push(idx);
                            children.set(p, cs);
                        },
                        None => {},
                    }
                    children.push(Vec::new());
                    comments.push(Vec::new());
                    texts.push(String::new());
                    ends.push(idx + 1);
                    stack.push(idx);
                    assert(children_view(children@) =~= enter_node(t, event_view(*e)).children);
                    assert(comments_view(comments@) =~~= enter_node(t, event_view(*e)).comments);
                    assert(strings_view(texts@) =~= enter_node(t, event_view(*e)).texts);
                } else if stack.len() > 0 {
                    let top = stack.pop().unwrap();
                    ends.set(top, kinds.len());
                }
            },
        }
        assert(building(kinds@, ranges@, parents@, children@, comments@, texts@, ends@, stack@) =~= table_run(
            evs.subrange(0, k + 1),
        ));
        k += 1;
    }
    assert(evs.subrange(0, events@.len() as int) =~= evs);
    let ghost t = table_run(evs);
    let mut j: usize = 0;
    let ghost ends0 = ends@;
    while j < stack.len()
        invariant
            j <= stack@.len(),
            stack@ == t.stack,
            table_inv(t),
            t.ends == ends0,
            ends@.len() == ends0.len(),
            kinds@.len() == t.kinds.len(),
            forall|i: int| 0 <= i < ends@.len() ==> #[trigger] ends@[i] == if on_stack(stack@.subrange(0, j as int), i) {
                kinds@.len() as usize
            } else {
                ends0[i]
            },
        decreases stack.len() - j,
    {
        let s = stack[j];
        let ghost before = ends@;
        ends.set(s, kinds.len());
        assert forall|i: int| 0 <= i < ends@.len() implies #[trigger] ends@[i] == if on_stack(stack@.subrange(0, j + 1), i) {
            kinds@.len() as usize
        } else {
            ends0[i]
        } by {
            let sub = stack@.subrange(0, j as int);
            assert(before[i] == if on_stack(sub, i) { kinds@.len() as usize } else { ends0[i] });
            assert(stack@.subrange(0, j + 1) =~= sub.push(s));
            if on_stack(sub.push(s), i) {
                let m = choose|m: int| 0 <= m < j + 1 && sub.push(s)[m] as int == i;
                if m < j {
                    assert(sub[m] as int == i);
                }
            }
            if on_stack(sub, i) {
                let m = choose|m: int| 0 <= m < j && sub[m] as int == i;
                assert(sub.push(s)[m] as int == i);
            }
            if i == s as int {
                assert(sub.push(s)[j as int] == s);
                assert(on_stack(sub.push(s), i));
            }
        }
        j += 1;
    }
    assert(stack@.subrange(0, stack@.len() as int) =~= stack@);
    let f = NixFile { source, kinds, ranges, parents, children, comments, texts, ends };
    assert(f.table() =~= table_of(evs));
    proof { lemma_finish_wf(t); }
    f
}

} // verus!
