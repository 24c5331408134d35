//! Chains of calls.  A declaration of routes is a chain
//! `route(..).route(..)`, and the handlers of one route are a chain
//! `get(..).post(..)`.  A chain is an expression whose outermost call is
//! the call written last.

use crate::expr::{
    expr_path, handler_path, lemma_node_view, Node, node_views, NodeKind, NodeKindView, NodeView,
    SourceSpan,
};
use crate::method::{HttpMethod, method_named};
use crate::text::{clone_strings, texts};
use vstd::prelude::*;

verus! {

/// What is wrong with a route declaration.
#[derive(Debug, Clone, Copy, PartialEq, Eq, Structural)]
pub enum RouteErrorKind {
    /// The text is not an expression.
    Syntax,
    /// Neither a call nor a method call stands where one is expected.
    ExpectedCall,
    /// What is called is not named by a path.
    ExpectedFunction,
    /// What is called is named by a path without segments.
    EmptyPath,
    /// Something other than `route` is called where routes are declared.
    ExpectedRoute,
    /// `route` is called with fewer than two arguments.
    ExpectedTwoArguments,
    /// The first argument of `route` is not a string literal.
    ExpectedPathLiteral,
    /// A method is called that is none of the eight.
    UnknownMethod,
    /// A method is called without an argument.
    ExpectedOneArgument,
    /// A method is bound twice for one path.
    DuplicateMethod,
}

/// An error, and the expression that it was found at.
#[derive(Debug, Clone, Copy, PartialEq, Eq, Structural)]
pub struct RouteError {
    pub kind: RouteErrorKind,
    pub span: SourceSpan,
}

/// What a kind of error says, in words.
pub open spec fn route_error_text(kind: RouteErrorKind) -> Seq<char> {
    match kind {
        RouteErrorKind::Syntax => "expected an expression"@,
        RouteErrorKind::ExpectedCall => "expected method or function call"@,
        RouteErrorKind::ExpectedFunction => "expected call to function"@,
        RouteErrorKind::EmptyPath => "empty path"@,
        RouteErrorKind::ExpectedRoute => "expected call to `route`"@,
        RouteErrorKind::ExpectedTwoArguments => "expected two arguments"@,
        RouteErrorKind::ExpectedPathLiteral => "expected path string literal"@,
        RouteErrorKind::UnknownMethod => "unknown http method"@,
        RouteErrorKind::ExpectedOneArgument => "expected one argument"@,
        RouteErrorKind::DuplicateMethod => "method bound twice for one path"@,
    }
}

impl RouteError {
    /// What the error says, in words.
    pub fn message(&self) -> (r: &'static str)
        ensures
            r@ == route_error_text(self.kind),
    {
        match self.kind {
            RouteErrorKind::Syntax => "expected an expression",
            RouteErrorKind::ExpectedCall => "expected method or function call",
            RouteErrorKind::ExpectedFunction => "expected call to function",
            RouteErrorKind::EmptyPath => "empty path",
            RouteErrorKind::ExpectedRoute => "expected call to `route`",
            RouteErrorKind::ExpectedTwoArguments => "expected two arguments",
            RouteErrorKind::ExpectedPathLiteral => "expected path string literal",
            RouteErrorKind::UnknownMethod => "unknown http method",
            RouteErrorKind::ExpectedOneArgument => "expected one argument",
            RouteErrorKind::DuplicateMethod => "method bound twice for one path",
        }
    }
}

/// One call of a chain: the name that is called, the arguments, and where
/// the call stands.
pub struct Invocation {
    pub name: Seq<char>,
    pub args: Seq<NodeView>,
    pub span: SourceSpan,
}

/// One call of a chain, as the decoder holds it.
pub struct CallSite<'a> {
    pub name: &'a String,
    pub args: &'a Vec<Node>,
    pub span: SourceSpan,
}

impl<'a> View for CallSite<'a> {
    type V = Invocation;

    open spec fn view(&self) -> Invocation {
        Invocation { name: self.name@, args: node_views(self.args@), span: self.span }
    }
}

/// The values of a list of calls.
pub open spec fn call_views<'a>(v: Seq<CallSite<'a>>) -> Seq<Invocation> {
    Seq::new(v.len(), |i: int| v[i]@)
}

/// The calls of a chain `f(..).m1(..).m2(..)`, the outermost first:
/// `m2`, `m1`, `f`.  A function is called by the last segment of its path.
/// Where the chain does not begin with the call of a named function, the
/// calls are the method calls alone.
pub open spec fn invocations(e: NodeView) -> Seq<Invocation>
    decreases e,
{
    match e.kind {
        NodeKindView::MethodCall(receiver, method, args) => seq![
            Invocation { name: method, args, span: e.span },
        ] + invocations(*receiver),
        NodeKindView::Call(func, args) => match func.kind {
            NodeKindView::Path(segs) => if segs.len() > 0 {
                seq![Invocation { name: segs.last(), args, span: e.span }]
            } else {
                Seq::empty()
            },
            _ => Seq::empty(),
        },
        _ => Seq::empty(),
    }
}

/// What is wrong with the beginning of a chain, if anything: it must be the
/// call of a function that a path with at least one segment names.
pub open spec fn chain_error(e: NodeView) -> Option<RouteError>
    decreases e,
{
    match e.kind {
        NodeKindView::MethodCall(receiver, method, args) => chain_error(*receiver),
        NodeKindView::Call(func, args) => match func.kind {
            NodeKindView::Path(segs) => if segs.len() > 0 {
                None
            } else {
                Some(RouteError { kind: RouteErrorKind::EmptyPath, span: func.span })
            },
            _ => Some(RouteError { kind: RouteErrorKind::ExpectedFunction, span: func.span }),
        },
        _ => Some(RouteError { kind: RouteErrorKind::ExpectedCall, span: e.span }),
    }
}

/// Walks down a chain of calls and appends them to `calls`, the outermost
/// first.  Gives back what is wrong with the beginning of the chain.
pub fn method_or_call<'a>(expr: &'a Node, calls: &mut Vec<CallSite<'a>>) -> (r: Option<RouteError>)
    ensures
        call_views(final(calls)@) == call_views(old(calls)@) + invocations(expr@),
        r == chain_error(expr@),
    decreases expr,
{
    let ghost before = call_views(calls@);
    proof {
        lemma_node_view(*expr);
    }
    match &expr.kind {
        NodeKind::MethodCall(receiver, method, args) => {
            let site = CallSite { name: method, args, span: expr.span };
            calls.push(site);
            assert(call_views(calls@) =~= before.push(site@));
            let inner: &Node = &**receiver;
            let r = method_or_call(inner, calls);
            assert(call_views(calls@) =~= before + invocations(expr@));
            r
        },
        NodeKind::Call(func, args) => {
            let callee: &Node = &**func;
            proof {
                lemma_node_view(*callee);
            }
            match &callee.kind {
                NodeKind::Path(segs) => {
                    if segs.len() > 0 {
                        let site = CallSite { name: &segs[segs.len() - 1], args, span: expr.span };
                        calls.push(site);
                        assert(texts(segs@).last() == segs[segs.len() - 1]@);
                        assert(call_views(calls@) =~= before + invocations(expr@));
                        None
                    } else {
                        assert(call_views(calls@) =~= before + invocations(expr@));
                        Some(RouteError { kind: RouteErrorKind::EmptyPath, span: callee.span })
                    }
                },
                _ => {
                    assert(call_views(calls@) =~= before + invocations(expr@));
                    Some(RouteError { kind: RouteErrorKind::ExpectedFunction, span: callee.span })
                },
            }
        },
        _ => {
            assert(call_views(calls@) =~= before + invocations(expr@));
            Some(RouteError { kind: RouteErrorKind::ExpectedCall, span: expr.span })
        },
    }
}

/// The binding of a method to a handler.  The handler is known by the path
/// that names it; a handler written in place, such as a closure, has none.
#[derive(Debug, PartialEq, Eq)]
pub struct RouteOperation {
    pub method: HttpMethod,
    pub path: Option<Vec<String>>,
}

/// The mathematical value of a [`RouteOperation`].
pub struct RouteOperationView {
    pub method: HttpMethod,
    pub path: Option<Seq<Seq<char>>>,
}

impl View for RouteOperation {
    type V = RouteOperationView;

    open spec fn view(&self) -> RouteOperationView {
        RouteOperationView {
            method: self.method,
            path: match self.path {
                Some(segs) => Some(texts(segs@)),
                None => None,
            },
        }
    }
}

impl Clone for RouteOperation {
    fn clone(&self) -> (r: RouteOperation)
        ensures
            r@ == self@,
    {
        RouteOperation {
            method: self.method,
            path: match &self.path {
                Some(segs) => Some(clone_strings(segs)),
                None => None,
            },
        }
    }
}

/// The values of a list of bindings.
pub open spec fn binding_views(v: Seq<RouteOperation>) -> Seq<RouteOperationView> {
    Seq::new(v.len(), |i: int| v[i]@)
}

/// Copies a list of bindings.
pub fn clone_bindings(v: &Vec<RouteOperation>) -> (r: Vec<RouteOperation>)
    ensures
        binding_views(r@) == binding_views(v@),
{
    let mut out: Vec<RouteOperation> = Vec::new();
    let mut i: usize = 0;
    while i < v.len()
        invariant
            i <= v.len(),
            out.len() == i,
            forall|j: int| 0 <= j < i ==> out[j]@ == v[j]@,
        decreases v.len() - i,
    {
        out.push(v[i].clone());
        i += 1;
    }
    assert(binding_views(out@) =~= binding_views(v@));
    out
}

/// The binding that one call of a method chain declares: the method that is
/// called, bound to the handler that the first argument names.
pub open spec fn binding_of(call: Invocation) -> Result<RouteOperationView, RouteError> {
    match method_named(call.name) {
        None => Err(RouteError { kind: RouteErrorKind::UnknownMethod, span: call.span }),
        Some(method) => if call.args.len() == 0 {
            Err(RouteError { kind: RouteErrorKind::ExpectedOneArgument, span: call.span })
        } else {
            Ok(RouteOperationView { method, path: handler_path(call.args[0]) })
        },
    }
}

/// The bindings that the calls declare, in the order of the calls, or the
/// error of the first call that declares none.
pub open spec fn bindings(calls: Seq<Invocation>) -> Result<Seq<RouteOperationView>, RouteError>
    decreases calls.len(),
{
    if calls.len() == 0 {
        Ok(Seq::empty())
    } else {
        match bindings(calls.drop_last()) {
            Err(e) => Err(e),
            Ok(ops) => match binding_of(calls.last()) {
                Err(e) => Err(e),
                Ok(op) => Ok(ops.push(op)),
            },
        }
    }
}

/// The bindings of a method chain such as `get(a).post(b)`, in the order
/// in which they are written: first `get`, then `post`.
pub open spec fn method_chain(e: NodeView) -> Result<Seq<RouteOperationView>, RouteError> {
    match bindings(invocations(e)) {
        Err(error) => Err(error),
        Ok(ops) => match chain_error(e) {
            Some(error) => Err(error),
            None => Ok(ops.reverse()),
        },
    }
}

/// An error among the first calls is the error of them all.
pub proof fn lemma_bindings_error_stays(calls: Seq<Invocation>, n: int)
    requires
        0 <= n <= calls.len(),
    ensures
        bindings(calls.take(n)) is Err ==> bindings(calls) == bindings(calls.take(n)),
    decreases calls.len() - n,
{
    if n < calls.len() {
        lemma_bindings_error_stays(calls, n + 1);
        assert(calls.take(n + 1).drop_last() =~= calls.take(n));
    } else {
        assert(calls.take(n) =~= calls);
    }
}

/// Decodes a method chain.
pub fn decode_method_chain(expr: &Node) -> (r: Result<Vec<RouteOperation>, RouteError>)
    ensures
        match method_chain(expr@) {
            Ok(ops) => r is Ok && binding_views(r->Ok_0@) == ops,
            Err(e) => r is Err && r->Err_0 == e,
        },
{
    let mut calls: Vec<CallSite> = Vec::new();
    assert(call_views(calls@) =~= Seq::empty());
    let end = method_or_call(expr, &mut calls);
    let ghost all = call_views(calls@);
    assert(all =~= invocations(expr@));
    let mut ops: Vec<RouteOperation> = Vec::new();
    let mut i: usize = 0;
    proof {
        assert(all.take(0) =~= Seq::empty());
        assert(binding_views(ops@) =~= Seq::empty());
    }
    while i < calls.len()
        invariant
            i <= calls.len(),
            all == call_views(calls@),
            all == invocations(expr@),
            bindings(all.take(i as int)) == Ok::<_, RouteError>(binding_views(ops@)),
        decreases calls.len() - i,
    {
        let call = &calls[i];
        let ghost before = binding_views(ops@);
        proof {
            assert(all.take(i + 1).drop_last() =~= all.take(i as int));
            assert(all.take(i + 1).last() == call@);
            lemma_bindings_error_stays(all, i + 1);
        }
        let method = match HttpMethod::from_name(call.name.as_str()) {
            Some(method) => method,
            None => {
                return Err(RouteError { kind: RouteErrorKind::UnknownMethod, span: call.span });
            },
        };
        if call.args.len() == 0 {
            return Err(RouteError { kind: RouteErrorKind::ExpectedOneArgument, span: call.span });
        }
        let op = RouteOperation {
            method,
            path: match expr_path(&call.args[0]) {
                Some(segs) => Some(clone_strings(segs)),
                None => None,
            },
        };
        ops.push(op);
        assert(binding_views(ops@) =~= before.push(op@));
        i += 1;
    }
    assert(all.take(i as int) =~= all);
    match end {
        Some(error) => Err(error),
        None => {
            let ghost forward = binding_views(ops@);
            let mut reversed: Vec<RouteOperation> = Vec::new();
            let mut k: usize = ops.len();
            assert(binding_views(reversed@) =~= forward.reverse().take(0));
            while k > 0
                invariant
                    k <= ops.len(),
                    forward == binding_views(ops@),
                    binding_views(reversed@) == forward.reverse().take(ops.len() - k),
                decreases k,
            {
                let ghost before = binding_views(reversed@);
                k -= 1;
                let op = ops[k].clone();
                reversed.push(op);
                proof {
                    assert(binding_views(reversed@) =~= before.push(op@));
                    assert(forward.reverse()[ops.len() - k - 1] == forward[k as int]);
                    assert(forward.reverse().take(ops.len() - k) =~= before.push(forward[k as int]));
                }
            }
            assert(forward.reverse().take(ops.len() as int) =~= forward.reverse());
            Ok(reversed)
        },
    }
}

/// The bindings of a sequence of calls are the binding of the first call
/// followed by the bindings of the rest.
pub proof fn lemma_bindings_front(first: Invocation, rest: Seq<Invocation>)
    ensures
        bindings(seq![first] + rest) == match binding_of(first) {
            Err(e) => Err::<Seq<RouteOperationView>, _>(e),
            Ok(op) => match bindings(rest) {
                Err(e) => Err(e),
                Ok(ops) => Ok(seq![op] + ops),
            },
        },
    decreases rest.len(),
{
    let all = seq![first] + rest;
    if rest.len() == 0 {
        assert(all.drop_last() =~= Seq::empty());
        assert(all.last() == first);
        assert(rest =~= Seq::empty());
        assert(bindings(Seq::<Invocation>::empty()) == Ok::<_, RouteError>(
            Seq::<RouteOperationView>::empty(),
        ));
        match binding_of(first) {
            Err(e) => {},
            Ok(op) => {
                assert(Seq::<RouteOperationView>::empty().push(op) =~= seq![op] + Seq::empty());
            },
        }
    } else {
        assert(all.drop_last() =~= seq![first] + rest.drop_last());
        assert(all.last() == rest.last());
        lemma_bindings_front(first, rest.drop_last());
        match binding_of(first) {
            Err(e) => {},
            Ok(op) => match bindings(rest.drop_last()) {
                Err(e) => {},
                Ok(ops) => match binding_of(rest.last()) {
                    Err(e) => {},
                    Ok(last) => {
                        assert((seq![op] + ops).push(last) =~= seq![op] + ops.push(last));
                    },
                },
            },
        }
    }
}

/// A method chain lists its bindings in the order in which they are
/// written.  The chain `receiver.method(handler)` has the bindings of
/// `receiver` and then the binding of `method`: the method that is called
/// last comes last, although it is the outermost call of the expression.
pub proof fn lemma_method_chain_in_written_order(e: NodeView)
    requires
        e.kind is MethodCall,
    ensures
        method_chain(e) == match binding_of(
            Invocation { name: e.kind->MethodCall_1, args: e.kind->MethodCall_2, span: e.span },
        ) {
            Err(error) => Err::<Seq<RouteOperationView>, _>(error),
            Ok(op) => match method_chain(*e.kind->MethodCall_0) {
                Err(error) => Err(error),
                Ok(ops) => Ok(ops.push(op)),
            },
        },
{
    let call = Invocation { name: e.kind->MethodCall_1, args: e.kind->MethodCall_2, span: e.span };
    let receiver = *e.kind->MethodCall_0;
    lemma_bindings_front(call, invocations(receiver));
    match binding_of(call) {
        Err(error) => {},
        Ok(op) => match bindings(invocations(receiver)) {
            Err(error) => {},
            Ok(ops) => {
                assert((seq![op] + ops).reverse() =~= ops.reverse().push(op));
            },
        },
    }
}

/// A method chain of one call, `method(handler)`, has the one binding of
/// that call.
pub proof fn lemma_method_chain_of_one_call(e: NodeView)
    requires
        e.kind is Call,
        e.kind->Call_0.kind is Path,
        e.kind->Call_0.kind->Path_0.len() > 0,
    ensures
        method_chain(e) == match binding_of(
            Invocation {
                name: e.kind->Call_0.kind->Path_0.last(),
                args: e.kind->Call_1,
                span: e.span,
            },
        ) {
            Err(error) => Err::<Seq<RouteOperationView>, _>(error),
            Ok(op) => Ok(seq![op]),
        },
{
    let call = Invocation {
        name: e.kind->Call_0.kind->Path_0.last(),
        args: e.kind->Call_1,
        span: e.span,
    };
    assert(invocations(e) =~= seq![call]);
    assert(invocations(e).drop_last() =~= Seq::empty());
    assert(invocations(e).last() == call);
    assert(bindings(Seq::<Invocation>::empty()) == Ok::<_, RouteError>(
        Seq::<RouteOperationView>::empty(),
    ));
    assert(chain_error(e) is None);
    match binding_of(call) {
        Err(error) => {},
        Ok(op) => {
            assert(Seq::<RouteOperationView>::empty().push(op).reverse() =~= seq![op]);
        },
    }
}

} // verus!
