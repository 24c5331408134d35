//! Reading a route declaration from text.  The text is Rust syntax and is
//! parsed by the `syn` crate.  Nothing is claimed of what the parser makes
//! of a text: where in the text an expression stands, and even how the
//! text is cut into tokens, depends on where the parser runs.  What is
//! stated is what holds of every outcome, and the decoding of the
//! expression that was read is exact.

use crate::chain::{RouteError, RouteErrorKind};
use crate::document::{distinct_paths, path_views, PathDescription};
use crate::expr::{Node, NodeKind, NodeView, SourceSpan};
use crate::routes::{
    declared_paths, keyed_by_templates, lemma_templates_in_order_distinct, parse_routes,
    route_table, Routes, routes, templates_in_order, well_formed_table,
};
use syn::spanned::Spanned;
use vstd::prelude::*;

verus! {

/// An expression as `syn` holds it.  Nothing is known of its contents.
#[verifier::external_type_specification]
#[verifier::external_body]
pub struct ExSyntaxTree(syn::Expr);

/// A region of source text as `proc_macro2` holds it.  Nothing is known of
/// its contents.
#[verifier::external_type_specification]
#[verifier::external_body]
pub struct ExTokenSpan(proc_macro2::Span);

/// Calls `proc_macro2::Span::byte_range` and hands on the two ends of the
/// range.  Nothing is claimed of them.
#[verifier::external_body]
fn span_range(span: proc_macro2::Span) -> SourceSpan {
    let range = span.byte_range();
    SourceSpan { start: range.start, end: range.end }
}

/// Tells the variants `Path` and `Lit` of `syn::Expr` from the others.  A
/// path is handed on as the identifiers of its segments (`Ident::to_string`),
/// a string literal as the string it denotes (`LitStr::value`).  Nothing is
/// claimed of the outcome.
#[verifier::external_body]
fn lower_leaf(e: &syn::Expr) -> NodeKind {
    match e {
        syn::Expr::Path(p) => NodeKind::Path(
            p.path.segments.iter().map(|segment| segment.ident.to_string()).collect(),
        ),
        syn::Expr::Lit(syn::ExprLit { lit: syn::Lit::Str(s), .. }) => NodeKind::StrLit(s.value()),
        _ => NodeKind::Other,
    }
}

/// Hands on a `syn::Expr` as a [`Node`]: the variants `Call` and
/// `MethodCall` with their parts, each part handed on in the same way, and
/// the span of the whole expression (`Spanned::span`).  Nothing is claimed
/// of the outcome.
#[verifier::external_body]
fn lower_expr(e: &syn::Expr) -> Node {
    let kind = match e {
        syn::Expr::Call(c) => NodeKind::Call(
            Box::new(lower_expr(&c.func)),
            c.args.iter().map(lower_expr).collect(),
        ),
        syn::Expr::MethodCall(m) => NodeKind::MethodCall(
            Box::new(lower_expr(&m.receiver)),
            m.method.to_string(),
            m.args.iter().map(lower_expr).collect(),
        ),
        _ => lower_leaf(e),
    };
    Node { span: span_range(e.span()), kind }
}

/// Calls `syn::parse_str::<syn::Expr>` and hands on the expression, or
/// the span of the error (`syn::Error::span`).  Nothing is claimed of the
/// outcome.
#[verifier::external_body]
fn parse_expr(source: &str) -> Result<Node, SourceSpan> {
    match syn::parse_str::<syn::Expr>(source) {
        Ok(e) => Ok(lower_expr(&e)),
        Err(error) => Err(span_range(error.span())),
    }
}

/// Reads a text as one expression.  The only error is a text that is no
/// expression.
pub fn read_expression(source: &str) -> (r: Result<Node, RouteError>)
    ensures
        r matches Err(e) ==> e.kind == RouteErrorKind::Syntax,
{
    match parse_expr(source) {
        Ok(e) => Ok(e),
        Err(span) => Err(RouteError { kind: RouteErrorKind::Syntax, span }),
    }
}

/// The outcome `r` is the table of routes that the expression `tree`
/// declares, or the error of that declaration.
pub open spec fn table_of(r: Result<Routes, RouteError>, tree: NodeView) -> bool {
    match route_table(tree) {
        Ok(table) => r is Ok && r->Ok_0@ == table,
        Err(e) => r is Err && r->Err_0 == e,
    }
}

/// The outcome `r` is the path items that the expression `tree` declares,
/// or the error of that declaration.
pub open spec fn paths_of(r: Result<Vec<PathDescription>, RouteError>, tree: NodeView) -> bool {
    match declared_paths(tree) {
        Ok(paths) => r is Ok && path_views(r->Ok_0@) == paths,
        Err(e) => r is Err && r->Err_0 == e,
    }
}

/// Reads a declaration of routes from text and decodes it into the table
/// of routes.
///
/// Whatever expression the text is read as, the outcome is the table that
/// this expression declares ([`parse_routes`]); a text that is read as no
/// expression gives a syntax error.  A table is in the order of its path
/// templates and binds no method twice for a path.
pub fn parse_routes_source(source: &str) -> (r: Result<Routes, RouteError>)
    ensures
        (r matches Err(e) && e.kind == RouteErrorKind::Syntax) || exists|tree: NodeView|
            table_of(r, tree),
        r matches Ok(table) ==> well_formed_table(table@) && keyed_by_templates(table@),
{
    match read_expression(source) {
        Ok(e) => {
            let r = parse_routes(&e);
            assert(table_of(r, e@));
            r
        },
        Err(error) => Err(error),
    }
}

/// Reads a declaration of routes from text and gives the path items that
/// it declares.
///
/// Whatever expression the text is read as, the outcome is the path items
/// that this expression declares ([`routes`]); a text that is read as no
/// expression gives a syntax error.  The path items stand in the order of
/// their paths, one for each path template.
pub fn routes_source(source: &str) -> (r: Result<Vec<PathDescription>, RouteError>)
    ensures
        (r matches Err(e) && e.kind == RouteErrorKind::Syntax) || exists|tree: NodeView|
            paths_of(r, tree),
        r matches Ok(paths) ==> templates_in_order(path_views(paths@)) && distinct_paths(
            path_views(paths@),
        ),
{
    match read_expression(source) {
        Ok(e) => {
            let r = routes(&e);
            proof {
                assert(paths_of(r, e@));
                if r is Ok {
                    lemma_templates_in_order_distinct(path_views(r->Ok_0@));
                }
            }
            r
        },
        Err(error) => Err(error),
    }
}

} // verus!
