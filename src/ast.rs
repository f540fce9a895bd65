//! The part of a parsed compilation unit that the sandbox inspects.
//!
//! The pipeline's visitor walks the whole expanded tree; a unit is modelled
//! here as the nodes that visitor presents, in traversal order (which is
//! source order). Every node carries its span.
use vstd::prelude::*;

verus! {

/// A region of source text, as byte offsets into the unit's file.
#[derive(Clone, Copy, Debug, PartialEq, Eq, Structural)]
pub struct Span {
    pub lo: u32,
    pub hi: u32,
}

pub open spec fn dummy_span() -> Span {
    Span { lo: 0, hi: 0 }
}

impl Span {
    /// The span given to nodes that no user wrote.
    pub fn dummy() -> (r: Span)
        ensures
            r == dummy_span(),
    {
        Span { lo: 0, hi: 0 }
    }
}

/// How a block was marked.
#[derive(Clone, Copy, Debug, PartialEq, Eq, Structural)]
pub enum BlockRules {
    /// An ordinary block.
    Default,
    /// An `unsafe { .. }` block written in the source.
    UserUnsafe,
    /// An unsafe block inserted by an earlier stage of the pipeline.
    CompilerUnsafe,
}

/// What a node is, as far as the policy passes care.
#[derive(Debug)]
pub enum NodeKind {
    /// A block expression.
    Block { rules: BlockRules },
    /// A function or static declared inside an `extern` block.
    ForeignItem,
    /// An attribute, by the word that names it (`feature`, `no_mangle`, ...).
    Attribute { word: String },
    /// `extern crate`: `ident` is the name the code uses, `name` the crate
    /// linked under it when the two differ.
    ExternCrate { ident: String, name: Option<String> },
    /// A `use` import, by its path.
    Use { path: String },
    /// Any other node.
    Other,
}

#[derive(Debug)]
pub struct Node {
    pub kind: NodeKind,
    pub span: Span,
}

/// One source module, as the pipeline's visitor presents it.
#[derive(Debug)]
pub struct CompilationUnit {
    pub nodes: Vec<Node>,
}

/// The mathematical value of a `NodeKind`: strings become character sequences.
pub enum KindView {
    Block { rules: BlockRules },
    ForeignItem,
    Attribute { word: Seq<char> },
    ExternCrate { ident: Seq<char>, name: Option<Seq<char>> },
    Use { path: Seq<char> },
    Other,
}

pub struct NodeView {
    pub kind: KindView,
    pub span: Span,
}

pub open spec fn opt_view(o: Option<String>) -> Option<Seq<char>> {
    match o {
        Some(s) => Some(s@),
        None => None,
    }
}

impl View for NodeKind {
    type V = KindView;

    open spec fn view(&self) -> KindView {
        match self {
            NodeKind::Block { rules } => KindView::Block { rules: *rules },
            NodeKind::ForeignItem => KindView::ForeignItem,
            NodeKind::Attribute { word } => KindView::Attribute { word: word@ },
            NodeKind::ExternCrate { ident, name } => KindView::ExternCrate {
                ident: ident@,
                name: opt_view(*name),
            },
            NodeKind::Use { path } => KindView::Use { path: path@ },
            NodeKind::Other => KindView::Other,
        }
    }
}

impl View for Node {
    type V = NodeView;

    open spec fn view(&self) -> NodeView {
        NodeView { kind: self.kind@, span: self.span }
    }
}

pub open spec fn nodes_view(ns: Seq<Node>) -> Seq<NodeView> {
    ns.map_values(|n: Node| n@)
}

impl View for CompilationUnit {
    type V = Seq<NodeView>;

    open spec fn view(&self) -> Seq<NodeView> {
        nodes_view(self.nodes@)
    }
}

/// Copies an optional string, keeping its value.
pub fn copy_opt(o: &Option<String>) -> (r: Option<String>)
    ensures
        opt_view(r) == opt_view(*o),
{
    match o {
        Some(s) => Some(s.clone()),
        None => None,
    }
}

/// Whether a string holds exactly the characters of `w`.
pub fn is_word(s: &String, w: &str) -> (r: bool)
    ensures
        r == (s@ == w@),
{
    let a = s.as_str();
    let n = a.unicode_len();
    if n != w.unicode_len() {
        return false;
    }
    let mut i: usize = 0;
    while i < n
        invariant
            n == a@.len(),
            n == w@.len(),
            a@ == s@,
            i <= n,
            a@.subrange(0, i as int) == w@.subrange(0, i as int),
        decreases n - i,
    {
        if a.get_char(i) != w.get_char(i) {
            assert(a@[i as int] != w@[i as int]);
            return false;
        }
        assert(a@.subrange(0, i + 1) =~= a@.subrange(0, i as int).push(a@[i as int]));
        assert(w@.subrange(0, i + 1) =~= w@.subrange(0, i as int).push(w@[i as int]));
        i = i + 1;
    }
    assert(a@ =~= a@.subrange(0, n as int));
    assert(w@ =~= w@.subrange(0, n as int));
    true
}

impl NodeKind {
    /// Whether two kinds are the same node kind with the same names.
    pub fn same_as(&self, o: &NodeKind) -> (r: bool)
        ensures
            r == (self@ == o@),
    {
        match (self, o) {
            (NodeKind::Block { rules: a }, NodeKind::Block { rules: b }) => *a == *b,
            (NodeKind::ForeignItem, NodeKind::ForeignItem) => true,
            (NodeKind::Attribute { word: a }, NodeKind::Attribute { word: b }) => *a == *b,
            (NodeKind::ExternCrate { ident: a, name: na }, NodeKind::ExternCrate { ident: b, name: nb }) => {
                if *a != *b {
                    return false;
                }
                match (na, nb) {
                    (Some(x), Some(y)) => *x == *y,
                    (None, None) => true,
                    _ => false,
                }
            },
            (NodeKind::Use { path: a }, NodeKind::Use { path: b }) => *a == *b,
            (NodeKind::Other, NodeKind::Other) => true,
            _ => false,
        }
    }

    pub fn duplicate(&self) -> (r: NodeKind)
        ensures
            r@ == self@,
    {
        match self {
            NodeKind::Block { rules } => NodeKind::Block { rules: *rules },
            NodeKind::ForeignItem => NodeKind::ForeignItem,
            NodeKind::Attribute { word } => NodeKind::Attribute { word: word.clone() },
            NodeKind::ExternCrate { ident, name } => NodeKind::ExternCrate {
                ident: ident.clone(),
                name: copy_opt(name),
            },
            NodeKind::Use { path } => NodeKind::Use { path: path.clone() },
            NodeKind::Other => NodeKind::Other,
        }
    }
}

/// Whether the nodes stand in source order, as the pipeline's visitor
/// presents a unit: no node starts before the one ahead of it.
pub open spec fn in_source_order(ns: Seq<NodeView>) -> bool {
    forall|i: int, j: int| 0 <= i < j < ns.len() ==> ns[i].span.lo <= ns[j].span.lo
}

impl CompilationUnit {
    /// Whether the unit's nodes stand in source order.
    pub fn in_source_order(&self) -> (r: bool)
        ensures
            r == in_source_order(self@),
    {
        let n = self.nodes.len();
        if n == 0 {
            return true;
        }
        let mut i: usize = 1;
        while i < n
            invariant
                n == self.nodes@.len(),
                n == self@.len(),
                1 <= i <= n,
                forall|a: int, b: int| 0 <= a < b < i ==> self@[a].span.lo <= self@[b].span.lo,
            decreases n - i,
        {
            if self.nodes[i - 1].span.lo > self.nodes[i].span.lo {
                assert(self@[i - 1].span.lo > self@[i as int].span.lo);
                return false;
            }
            assert forall|a: int, b: int| 0 <= a < b < i + 1 implies self@[a].span.lo
                <= self@[b].span.lo by {
                if b == i && a < i - 1 {
                    assert(self@[a].span.lo <= self@[i - 1].span.lo);
                }
            }
            i = i + 1;
        }
        true
    }

    pub fn new(nodes: Vec<Node>) -> (r: CompilationUnit)
        ensures
            r.nodes@ == nodes@,
    {
        CompilationUnit { nodes }
    }
}

} // verus!
