//! Expressions, as far as a declaration of routes is made of them.

use crate::text::texts;
use vstd::prelude::*;

verus! {

/// A range of the text that an expression was read from, in bytes.
#[derive(Debug, Clone, Copy, PartialEq, Eq, Structural)]
pub struct SourceSpan {
    pub start: usize,
    pub end: usize,
}

/// The forms of expression that a route declaration is made of.
#[derive(Debug, PartialEq, Eq)]
pub enum NodeKind {
    /// A call `func(args)`.
    Call(Box<Node>, Vec<Node>),
    /// A method call `receiver.method(args)`.
    MethodCall(Box<Node>, String, Vec<Node>),
    /// A path such as `handlers::find_pets`, as its segments.
    Path(Vec<String>),
    /// A string literal, as the string it denotes.
    StrLit(String),
    /// Any other expression.
    Other,
}

/// An expression together with where it stands in the text.
#[derive(Debug, PartialEq, Eq)]
pub struct Node {
    pub span: SourceSpan,
    pub kind: NodeKind,
}

/// The mathematical value of a [`NodeKind`].
pub enum NodeKindView {
    Call(Box<NodeView>, Seq<NodeView>),
    MethodCall(Box<NodeView>, Seq<char>, Seq<NodeView>),
    Path(Seq<Seq<char>>),
    StrLit(Seq<char>),
    Other,
}

/// The mathematical value of a [`Node`].
pub struct NodeView {
    pub span: SourceSpan,
    pub kind: NodeKindView,
}

pub open spec fn node_view(e: Node) -> NodeView
    decreases e,
{
    NodeView {
        span: e.span,
        kind: match e.kind {
            NodeKind::Call(func, args) => NodeKindView::Call(
                Box::new(node_view(*func)),
                Seq::new(
                    args.len() as nat,
                    |i: int|
                        if 0 <= i < args.len() {
                            node_view(args[i])
                        } else {
                            arbitrary()
                        },
                ),
            ),
            NodeKind::MethodCall(receiver, method, args) => NodeKindView::MethodCall(
                Box::new(node_view(*receiver)),
                method@,
                Seq::new(
                    args.len() as nat,
                    |i: int|
                        if 0 <= i < args.len() {
                            node_view(args[i])
                        } else {
                            arbitrary()
                        },
                ),
            ),
            NodeKind::Path(segs) => NodeKindView::Path(texts(segs@)),
            NodeKind::StrLit(s) => NodeKindView::StrLit(s@),
            NodeKind::Other => NodeKindView::Other,
        },
    }
}

impl View for Node {
    type V = NodeView;

    open spec fn view(&self) -> NodeView {
        node_view(*self)
    }
}

/// The values of a list of expressions.
pub open spec fn node_views(v: Seq<Node>) -> Seq<NodeView> {
    Seq::new(v.len(), |i: int| v[i]@)
}

/// The value of a call is made of the values of its parts.
pub proof fn lemma_node_view(e: Node)
    ensures
        e@.span == e.span,
        match e.kind {
            NodeKind::Call(func, args) => e@.kind == NodeKindView::Call(
                Box::new(func@),
                node_views(args@),
            ),
            NodeKind::MethodCall(receiver, method, args) => e@.kind == NodeKindView::MethodCall(
                Box::new(receiver@),
                method@,
                node_views(args@),
            ),
            NodeKind::Path(segs) => e@.kind == NodeKindView::Path(texts(segs@)),
            NodeKind::StrLit(s) => e@.kind == NodeKindView::StrLit(s@),
            NodeKind::Other => e@.kind == NodeKindView::Other,
        },
{
    match e.kind {
        NodeKind::Call(func, args) => {
            assert(e@.kind->Call_1 =~= node_views(args@));
        },
        NodeKind::MethodCall(receiver, method, args) => {
            assert(e@.kind->MethodCall_2 =~= node_views(args@));
        },
        _ => {},
    }
}

/// The string that a string literal denotes.
pub open spec fn string_literal(e: NodeView) -> Option<Seq<char>> {
    match e.kind {
        NodeKindView::StrLit(s) => Some(s),
        _ => None,
    }
}

/// The segments of the path that names a handler.
pub open spec fn handler_path(e: NodeView) -> Option<Seq<Seq<char>>> {
    match e.kind {
        NodeKindView::Path(segs) => Some(segs),
        _ => None,
    }
}

/// The string that `expr` denotes, if it is a string literal.
pub fn expr_string_lit(expr: &Node) -> (r: Option<String>)
    ensures
        match r {
            Some(s) => Some(s@),
            None => None,
        } == string_literal(expr@),
{
    proof {
        lemma_node_view(*expr);
    }
    match &expr.kind {
        NodeKind::StrLit(s) => Some(s.clone()),
        _ => None,
    }
}

/// The segments of `expr`, if it is a path.
pub fn expr_path(expr: &Node) -> (r: Option<&Vec<String>>)
    ensures
        match r {
            Some(segs) => Some(texts(segs@)),
            None => None,
        } == handler_path(expr@),
{
    proof {
        lemma_node_view(*expr);
    }
    match &expr.kind {
        NodeKind::Path(segs) => Some(segs),
        _ => None,
    }
}

} // verus!
