//! Describing a service from its routes as they are at run time: each
//! route has a path and, for some of the methods, a handler whose
//! parameters are known.

use crate::assemble::{
    AssemblyError, AssemblyErrorView, find_path, insert_path, lemma_with_path_distinct,
    path_position, with_path,
};
use crate::document::{
    clone_paths, distinct_paths, Document, DocumentView, empty_path_item, path_views,
    PathDescription, PathDescriptionView, PathItem, PathItemView, schema_views,
};
use crate::handler::{
    lemma_with_parameters_error_stays, OperationError, OperationParameter, OperationParameterView,
    parameter_kind_views, with_parameters,
};
use crate::merge::{resolve_operation, resolved_operation};
use crate::method::{HttpMethod, methods_in_order};
use crate::operation::{empty_operation, Operation, OperationView};
use crate::path::{axum_path_to_openapi, openapi_path, path_parameters, path_params};
use crate::text::texts;
use vstd::prelude::*;
use vstd::string::*;

verus! {

/// How the operation of a handler is known.
#[derive(Debug, PartialEq, Eq)]
pub enum OperationHandler {
    /// From the parameters that the handler declares, in order.
    Function(Vec<OperationParameter>),
    /// Not at all: the handler says nothing of its operation.
    Ignore,
    /// The operation is given.
    With(Operation),
}

/// The mathematical value of an [`OperationHandler`].
pub enum OperationHandlerView {
    Function(Seq<OperationParameterView>),
    Ignore,
    With(OperationView),
}

impl View for OperationHandler {
    type V = OperationHandlerView;

    open spec fn view(&self) -> OperationHandlerView {
        match *self {
            OperationHandler::Function(parameters) => OperationHandlerView::Function(
                parameter_kind_views(parameters@),
            ),
            OperationHandler::Ignore => OperationHandlerView::Ignore,
            OperationHandler::With(operation) => OperationHandlerView::With(operation@),
        }
    }
}

/// The operation `op` after the handler has said what it has to say: the
/// parameters of a function are declared in turn, a given operation takes
/// the place of `op`, and a handler that is ignored changes nothing.
pub open spec fn handled(op: OperationView, handler: OperationHandlerView) -> Result<
    OperationView,
    OperationError,
> {
    match handler {
        OperationHandlerView::Function(parameters) => with_parameters(op, parameters),
        OperationHandlerView::Ignore => Ok(op),
        OperationHandlerView::With(operation) => Ok(operation),
    }
}

impl OperationHandler {
    /// Writes into `op` what the handler says of its operation.  On an
    /// error `op` is left as it was.
    pub fn modify_op(&self, op: &mut Operation) -> (r: Result<(), OperationError>)
        ensures
            match handled(old(op)@, self@) {
                Ok(v) => r is Ok && final(op)@ == v,
                Err(e) => r == Err::<(), _>(e) && final(op)@ == old(op)@,
            },
    {
        match self {
            OperationHandler::Function(parameters) => {
                let mut next = op.clone();
                let ghost start = op@;
                let ghost kinds = parameter_kind_views(parameters@);
                let mut i: usize = 0;
                assert(kinds.take(0) =~= Seq::empty());
                while i < parameters.len()
                    invariant
                        i <= parameters.len(),
                        start == op@,
                        *op == *old(op),
                        *self == OperationHandler::Function(*parameters),
                        kinds == parameter_kind_views(parameters@),
                        with_parameters(start, kinds.take(i as int)) == Ok::<_, OperationError>(
                            next@,
                        ),
                    decreases parameters.len() - i,
                {
                    proof {
                        assert(kinds.take(i + 1).drop_last() =~= kinds.take(i as int));
                        assert(kinds.take(i + 1).last() == parameters@[i as int]@);
                        lemma_with_parameters_error_stays(start, kinds, i + 1);
                    }
                    match parameters[i].check(&next, true) {
                        Err(e) => {
                            return Err(e);
                        },
                        Ok(_) => {},
                    }
                    parameters[i].modify_op(&mut next, true);
                    i += 1;
                }
                assert(kinds.take(i as int) =~= kinds);
                *op = next;
                Ok(())
            },
            OperationHandler::Ignore => Ok(()),
            OperationHandler::With(operation) => {
                *op = operation.clone();
                Ok(())
            },
        }
    }
}

/// Why a service has no document.
#[derive(Debug, PartialEq, Eq)]
pub enum OpenapiError {
    /// A handler declares parameters that make up no operation.
    Handler(OperationError),
    /// A path binds a method twice, in one route or in two routes with one
    /// path template.
    DuplicateMethod(HttpMethod),
    /// A handler declares more path parameters than its path has.
    Document(AssemblyError),
}

/// The mathematical value of an [`OpenapiError`].
pub enum OpenapiErrorView {
    Handler(OperationError),
    DuplicateMethod(HttpMethod),
    Document(AssemblyErrorView),
}

impl View for OpenapiError {
    type V = OpenapiErrorView;

    open spec fn view(&self) -> OpenapiErrorView {
        match *self {
            OpenapiError::Handler(e) => OpenapiErrorView::Handler(e),
            OpenapiError::DuplicateMethod(method) => OpenapiErrorView::DuplicateMethod(method),
            OpenapiError::Document(e) => OpenapiErrorView::Document(e@),
        }
    }
}

/// A handler bound to one method of a path.
#[derive(Debug, PartialEq, Eq)]
pub struct MethodHandler {
    pub method: HttpMethod,
    pub handler: OperationHandler,
}

/// The handlers of one path, in the order in which they were bound.
#[derive(Debug, PartialEq, Eq)]
pub struct OperationAtPath {
    pub handlers: Vec<MethodHandler>,
}

/// The mathematical value of a [`MethodHandler`].
pub struct MethodHandlerView {
    pub method: HttpMethod,
    pub handler: OperationHandlerView,
}

impl View for MethodHandler {
    type V = MethodHandlerView;

    open spec fn view(&self) -> MethodHandlerView {
        MethodHandlerView { method: self.method, handler: self.handler@ }
    }
}

/// The values of a list of handlers.
pub open spec fn handler_views(v: Seq<MethodHandler>) -> Seq<MethodHandlerView> {
    Seq::new(v.len(), |i: int| v[i]@)
}

impl View for OperationAtPath {
    type V = Seq<MethodHandlerView>;

    open spec fn view(&self) -> Seq<MethodHandlerView> {
        handler_views(self.handlers@)
    }
}

/// The path item after each handler, in order, has written the operation of
/// its method; or the error of the first handler that fails.  A handler
/// writes into the operation that says nothing.  A method that the path
/// item has an operation for cannot be bound again: that is an error.
pub open spec fn item_after(item: PathItemView, handlers: Seq<MethodHandlerView>) -> Result<
    PathItemView,
    OpenapiErrorView,
>
    decreases handlers.len(),
{
    if handlers.len() == 0 {
        Ok(item)
    } else {
        let last = handlers.last();
        match item_after(item, handlers.drop_last()) {
            Err(e) => Err(e),
            Ok(before) => if before.slot(last.method) is Some {
                Err(OpenapiErrorView::DuplicateMethod(last.method))
            } else {
                match handled(empty_operation(), last.handler) {
                    Err(e) => Err(OpenapiErrorView::Handler(e)),
                    Ok(op) => Ok(before.with_slot(last.method, Some(op))),
                }
            },
        }
    }
}

/// An error among the first handlers is the error of them all.
pub proof fn lemma_item_after_error_stays(
    item: PathItemView,
    handlers: Seq<MethodHandlerView>,
    n: int,
)
    requires
        0 <= n <= handlers.len(),
    ensures
        item_after(item, handlers.take(n)) is Err ==> item_after(item, handlers) == item_after(
            item,
            handlers.take(n),
        ),
    decreases handlers.len() - n,
{
    if n < handlers.len() {
        lemma_item_after_error_stays(item, handlers, n + 1);
        assert(handlers.take(n + 1).drop_last() =~= handlers.take(n));
    } else {
        assert(handlers.take(n) =~= handlers);
    }
}

/// The handlers of a path write beside what the path item has: an
/// operation that is there stays as it is, and a method has an operation
/// afterwards just when it had one or a handler was bound to it.
pub proof fn lemma_item_after_keeps(
    item: PathItemView,
    handlers: Seq<MethodHandlerView>,
    method: HttpMethod,
)
    ensures
        item_after(item, handlers) matches Ok(after) ==> (item.slot(method) is Some ==> after.slot(
            method,
        ) == item.slot(method)) && (after.slot(method) is Some <==> item.slot(method) is Some
            || exists|i: int| 0 <= i < handlers.len() && (#[trigger] handlers[i]).method == method),
    decreases handlers.len(),
{
    if handlers.len() > 0 {
        let fewer = handlers.drop_last();
        let last = handlers.last();
        lemma_item_after_keeps(item, fewer, method);
        match item_after(item, handlers) {
            Err(e) => {},
            Ok(after) => {
                let before = item_after(item, fewer)->Ok_0;
                if last.method == method {
                    assert(handlers[handlers.len() - 1].method == method);
                } else {
                    assert(after.slot(method) == before.slot(method));
                    if exists|i: int| 0 <= i < handlers.len() && (#[trigger] handlers[i]).method == method {
                        let i = choose|i: int|
                            0 <= i < handlers.len() && (#[trigger] handlers[i]).method == method;
                        assert(fewer[i] == handlers[i]);
                    }
                    if exists|i: int| 0 <= i < fewer.len() && (#[trigger] fewer[i]).method == method {
                        let i = choose|i: int|
                            0 <= i < fewer.len() && (#[trigger] fewer[i]).method == method;
                        assert(handlers[i] == fewer[i]);
                    }
                }
            },
        }
    }
}

impl OperationAtPath {
    /// Writes the operations of the handlers into the path item.  On an
    /// error the path item is left as it was.
    pub fn modify_path_item(&self, path_item: &mut PathItem) -> (r: Result<(), OpenapiError>)
        ensures
            match item_after(old(path_item)@, self@) {
                Ok(v) => r is Ok && final(path_item)@ == v,
                Err(e) => r is Err && r->Err_0@ == e && final(path_item)@ == old(path_item)@,
            },
    {
        let mut next = path_item.clone();
        let ghost start = path_item@;
        let ghost all = self@;
        let mut i: usize = 0;
        assert(all.take(0) =~= Seq::empty());
        while i < self.handlers.len()
            invariant
                i <= self.handlers.len(),
                start == path_item@,
                all == self@,
                item_after(start, all.take(i as int)) == Ok::<_, OpenapiErrorView>(next@),
            decreases self.handlers.len() - i,
        {
            let bound = &self.handlers[i];
            proof {
                assert(all.take(i + 1).drop_last() =~= all.take(i as int));
                assert(all.take(i + 1).last() == bound@);
                lemma_item_after_error_stays(start, all, i + 1);
            }
            if next.operation(bound.method).is_some() {
                return Err(OpenapiError::DuplicateMethod(bound.method));
            }
            let mut op = Operation::default();
            match bound.handler.modify_op(&mut op) {
                Err(e) => {
                    return Err(OpenapiError::Handler(e));
                },
                Ok(_) => {},
            }
            next.set_operation(bound.method, Some(op));
            i += 1;
        }
        assert(all.take(i as int) =~= all);
        *path_item = next;
        Ok(())
    }
}

/// A route of a service: a path as the routes declare it, with `:name` for
/// a parameter, and its handlers.
#[derive(Debug, PartialEq, Eq)]
pub struct AppRoute {
    pub path: String,
    pub service: OperationAtPath,
}

/// A service: its routes in the order in which they were declared.
#[derive(Debug, PartialEq, Eq)]
pub struct OpenapiApp {
    pub routes: Vec<AppRoute>,
}

/// The mathematical value of an [`AppRoute`].
pub struct AppRouteView {
    pub path: Seq<char>,
    pub service: Seq<MethodHandlerView>,
}

impl View for AppRoute {
    type V = AppRouteView;

    open spec fn view(&self) -> AppRouteView {
        AppRouteView { path: self.path@, service: self.service@ }
    }
}

/// The values of a list of routes.
pub open spec fn route_views(v: Seq<AppRoute>) -> Seq<AppRouteView> {
    Seq::new(v.len(), |i: int| v[i]@)
}

impl View for OpenapiApp {
    type V = Seq<AppRouteView>;

    open spec fn view(&self) -> Seq<AppRouteView> {
        route_views(self.routes@)
    }
}

/// The path item that the list has for `path`, or the path item without
/// operations where it has none.
pub open spec fn listed_item(paths: Seq<PathDescriptionView>, path: Seq<char>) -> PathItemView {
    let k = path_position(paths, path);
    if k < paths.len() {
        paths[k as int].path_item
    } else {
        empty_path_item()
    }
}

/// The path items after each route, in order, was listed.  A route stands
/// under its path template.  Its handlers write into the path item that the
/// list has for that template, so that routes with one template make up one
/// path item; where the list has none, they write into a new one at the
/// end.
pub open spec fn paths_after(paths: Seq<PathDescriptionView>, routes: Seq<AppRouteView>) -> Result<
    Seq<PathDescriptionView>,
    OpenapiErrorView,
>
    decreases routes.len(),
{
    if routes.len() == 0 {
        Ok(paths)
    } else {
        let last = routes.last();
        let path = openapi_path(last.path);
        match paths_after(paths, routes.drop_last()) {
            Err(e) => Err(e),
            Ok(before) => match item_after(listed_item(before, path), last.service) {
                Err(e) => Err(e),
                Ok(item) => Ok(with_path(before, PathDescriptionView { path, path_item: item })),
            },
        }
    }
}

/// An error among the first routes is the error of them all.
pub proof fn lemma_paths_after_error_stays(
    paths: Seq<PathDescriptionView>,
    routes: Seq<AppRouteView>,
    n: int,
)
    requires
        0 <= n <= routes.len(),
    ensures
        paths_after(paths, routes.take(n)) is Err ==> paths_after(paths, routes) == paths_after(
            paths,
            routes.take(n),
        ),
    decreases routes.len() - n,
{
    if n < routes.len() {
        lemma_paths_after_error_stays(paths, routes, n + 1);
        assert(routes.take(n + 1).drop_last() =~= routes.take(n));
    } else {
        assert(routes.take(n) =~= routes);
    }
}

/// Listing routes keeps a list of path items without repeated paths.
pub proof fn lemma_paths_after_distinct(paths: Seq<PathDescriptionView>, routes: Seq<AppRouteView>)
    requires
        distinct_paths(paths),
    ensures
        paths_after(paths, routes) matches Ok(listed) ==> distinct_paths(listed),
    decreases routes.len(),
{
    if routes.len() > 0 {
        let last = routes.last();
        let path = openapi_path(last.path);
        lemma_paths_after_distinct(paths, routes.drop_last());
        match paths_after(paths, routes.drop_last()) {
            Err(e) => {},
            Ok(before) => match item_after(listed_item(before, path), last.service) {
                Err(e) => {},
                Ok(item) => {
                    lemma_with_path_distinct(before, PathDescriptionView { path, path_item: item });
                },
            },
        }
    }
}

/// Routes with one path template make up one path item: a later route for
/// a template that is listed writes into the path item that is listed
/// there, at its place, and every operation of the earlier routes stays.
pub proof fn lemma_routes_with_one_template_accumulate(
    listed: Seq<PathDescriptionView>,
    route: AppRouteView,
    method: HttpMethod,
)
    requires
        path_position(listed, openapi_path(route.path)) < listed.len(),
    ensures
        paths_after(listed, seq![route]) matches Ok(after) ==> {
            let k = path_position(listed, openapi_path(route.path)) as int;
            &&& after.len() == listed.len()
            &&& after[k].path == openapi_path(route.path)
            &&& item_after(listed[k].path_item, route.service) == Ok::<_, OpenapiErrorView>(
                after[k].path_item,
            )
            &&& listed[k].path_item.slot(method) is Some ==> after[k].path_item.slot(method)
                == listed[k].path_item.slot(method)
            &&& forall|i: int| 0 <= i < listed.len() && i != k ==> after[i] == listed[i]
        },
{
    let routes = seq![route];
    assert(routes.drop_last() =~= Seq::empty());
    assert(routes.last() == route);
    assert(paths_after(listed, routes.drop_last()) == Ok::<_, OpenapiErrorView>(listed));
    let k = path_position(listed, openapi_path(route.path)) as int;
    lemma_item_after_keeps(listed[k].path_item, route.service, method);
}

/// The path item at `path` after the operations of the first `k` methods
/// got the parameter names of the path template; or the first error.
pub open spec fn fixed_upto(item: PathItemView, path: Seq<char>, k: nat) -> Result<
    PathItemView,
    AssemblyErrorView,
>
    decreases k,
{
    if k == 0 || k > 8 {
        Ok(item)
    } else {
        let method = methods_in_order()[k - 1];
        match fixed_upto(item, path, (k - 1) as nat) {
            Err(e) => Err(e),
            Ok(before) => match before.slot(method) {
                None => Ok(before),
                Some(op) => match resolved_operation(op, path) {
                    Err(e) => Err(e),
                    Ok(named) => Ok(before.with_slot(method, Some(named))),
                },
            },
        }
    }
}

/// The path items with the parameter names of their path templates; or the
/// first error.
pub open spec fn fixed_paths(paths: Seq<PathDescriptionView>) -> Result<
    Seq<PathDescriptionView>,
    AssemblyErrorView,
>
    decreases paths.len(),
{
    if paths.len() == 0 {
        Ok(Seq::empty())
    } else {
        let last = paths.last();
        match fixed_paths(paths.drop_last()) {
            Err(e) => Err(e),
            Ok(before) => match fixed_upto(last.path_item, last.path, 8) {
                Err(e) => Err(e),
                Ok(item) => Ok(
                    before.push(PathDescriptionView { path: last.path, path_item: item }),
                ),
            },
        }
    }
}

pub proof fn lemma_fixed_upto_error_stays(item: PathItemView, path: Seq<char>, k: nat)
    requires
        k <= 8,
    ensures
        fixed_upto(item, path, k) is Err ==> fixed_upto(item, path, 8) == fixed_upto(item, path, k),
    decreases 8 - k,
{
    if k < 8 {
        lemma_fixed_upto_error_stays(item, path, k + 1);
    }
}

pub proof fn lemma_fixed_paths_error_stays(paths: Seq<PathDescriptionView>, n: int)
    requires
        0 <= n <= paths.len(),
    ensures
        fixed_paths(paths.take(n)) is Err ==> fixed_paths(paths) == fixed_paths(paths.take(n)),
    decreases paths.len() - n,
{
    if n < paths.len() {
        lemma_fixed_paths_error_stays(paths, n + 1);
        assert(paths.take(n + 1).drop_last() =~= paths.take(n));
    } else {
        assert(paths.take(n) =~= paths);
    }
}

/// Naming the parameters changes neither the paths nor their order.
pub proof fn lemma_fixed_paths_keep_paths(paths: Seq<PathDescriptionView>)
    ensures
        fixed_paths(paths) matches Ok(fixed) ==> fixed.len() == paths.len() && forall|i: int|
            0 <= i < paths.len() ==> (#[trigger] fixed[i]).path == paths[i].path,
    decreases paths.len(),
{
    if paths.len() > 0 {
        lemma_fixed_paths_keep_paths(paths.drop_last());
        match fixed_paths(paths) {
            Err(e) => {},
            Ok(fixed) => {
                let before = fixed_paths(paths.drop_last())->Ok_0;
                assert forall|i: int| 0 <= i < paths.len() implies (#[trigger] fixed[i]).path
                    == paths[i].path by {
                    if i < before.len() {
                        assert(fixed[i] == before[i]);
                        assert(paths[i] == paths.drop_last()[i]);
                    }
                }
            },
        }
    }
}

/// Gives the path parameters of every operation of the path item at `path`
/// the names of the placeholders of the path.  On an error the path item
/// is left as it was.
pub fn patch_operations(path_item: &mut PathItem, path: &str) -> (r: Result<(), AssemblyError>)
    ensures
        match fixed_upto(old(path_item)@, path@, 8) {
            Ok(v) => r is Ok && final(path_item)@ == v,
            Err(e) => r is Err && r->Err_0@ == e && final(path_item)@ == old(path_item)@,
        },
{
    let names = path_params(path);
    let methods = HttpMethod::all();
    let mut next = path_item.clone();
    let ghost start = path_item@;
    let mut k: usize = 0;
    while k < 8
        invariant
            k <= 8,
            methods@ == methods_in_order(),
            texts(names@) == path_parameters(path@),
            start == path_item@,
            fixed_upto(start, path@, k as nat) == Ok::<_, AssemblyErrorView>(next@),
        decreases 8 - k,
    {
        let method = methods[k];
        proof {
            lemma_fixed_upto_error_stays(start, path@, (k + 1) as nat);
            assert(methods_in_order()[k as int] == method);
        }
        let named = match next.operation(method) {
            None => None,
            Some(op) => match resolve_operation(op, &names, path) {
                Err(e) => {
                    return Err(e);
                },
                Ok(named) => Some(named),
            },
        };
        match named {
            None => {},
            Some(op) => {
                next.set_operation(method, Some(op));
            },
        }
        k += 1;
    }
    *path_item = next;
    Ok(())
}

/// Gives the path parameters of every operation of the document the names
/// of the placeholders of its path.  On an error the document is left as
/// it was.
pub fn fix_path_params(openapi: &mut Document) -> (r: Result<(), AssemblyError>)
    ensures
        match fixed_paths(old(openapi)@.paths) {
            Ok(paths) => r is Ok && final(openapi)@ == (DocumentView { paths, ..old(openapi)@ }),
            Err(e) => r is Err && r->Err_0@ == e && final(openapi)@ == old(openapi)@,
        },
        old(openapi)@.well_formed() ==> final(openapi)@.well_formed(),
{
    proof {
        lemma_fixed_paths_keep_paths(openapi@.paths);
    }
    let ghost all = path_views(openapi.paths@);
    let mut fixed: Vec<PathDescription> = Vec::new();
    let mut i: usize = 0;
    proof {
        assert(all.take(0) =~= Seq::empty());
        assert(path_views(fixed@) =~= Seq::empty());
    }
    while i < openapi.paths.len()
        invariant
            i <= openapi.paths.len(),
            *openapi == *old(openapi),
            all == path_views(openapi.paths@),
            fixed_paths(all.take(i as int)) == Ok::<_, AssemblyErrorView>(path_views(fixed@)),
        decreases openapi.paths.len() - i,
    {
        let entry = &openapi.paths[i];
        let ghost before = path_views(fixed@);
        proof {
            assert(all.take(i + 1).drop_last() =~= all.take(i as int));
            assert(all.take(i + 1).last() == entry@);
            lemma_fixed_paths_error_stays(all, i + 1);
        }
        let mut item = entry.path_item.clone();
        match patch_operations(&mut item, entry.path.as_str()) {
            Err(e) => {
                return Err(e);
            },
            Ok(_) => {},
        }
        let named = PathDescription { path: entry.path.clone(), path_item: item };
        fixed.push(named);
        assert(path_views(fixed@) =~= before.push(named@));
        i += 1;
    }
    assert(all.take(i as int) =~= all);
    openapi.paths = fixed;
    Ok(())
}

/// The document of a service: the path items of its routes, with the
/// parameter names of their path templates, and no named schemas.
pub open spec fn app_document(routes: Seq<AppRouteView>) -> Result<DocumentView, OpenapiErrorView> {
    match paths_after(Seq::empty(), routes) {
        Err(e) => Err(e),
        Ok(paths) => match fixed_paths(paths) {
            Err(e) => Err(OpenapiErrorView::Document(e)),
            Ok(fixed) => Ok(DocumentView { openapi: "3.0.3"@, paths: fixed, schemas: Seq::empty() }),
        },
    }
}

impl OpenapiApp {
    /// Lists the path items of the routes in the document.  On an error
    /// the document is left as it was.
    pub fn modify_openapi(&self, api: &mut Document) -> (r: Result<(), OpenapiError>)
        ensures
            match paths_after(old(api)@.paths, self@) {
                Ok(paths) => r is Ok && final(api)@ == (DocumentView { paths, ..old(api)@ }),
                Err(e) => r is Err && r->Err_0@ == e && final(api)@ == old(api)@,
            },
            old(api)@.well_formed() ==> final(api)@.well_formed(),
    {
        let mut paths = clone_paths(&api.paths);
        let ghost start = path_views(api.paths@);
        let ghost all = self@;
        let mut i: usize = 0;
        proof {
            if api@.well_formed() {
                lemma_paths_after_distinct(api@.paths, all);
            }
            assert(all.take(0) =~= Seq::empty());
        }
        while i < self.routes.len()
            invariant
                i <= self.routes.len(),
                *api == *old(api),
                start == path_views(api.paths@),
                all == self@,
                paths_after(start, all.take(i as int)) == Ok::<_, OpenapiErrorView>(
                    path_views(paths@),
                ),
            decreases self.routes.len() - i,
        {
            let route = &self.routes[i];
            proof {
                assert(all.take(i + 1).drop_last() =~= all.take(i as int));
                assert(all.take(i + 1).last() == route@);
                lemma_paths_after_error_stays(start, all, i + 1);
            }
            let path = axum_path_to_openapi(route.path.as_str());
            let k = find_path(&paths, &path);
            let mut path_item = if k < paths.len() {
                assert(path_views(paths@)[k as int].path_item == paths[k as int].path_item@);
                paths[k].path_item.clone()
            } else {
                PathItem::default()
            };
            match route.service.modify_path_item(&mut path_item) {
                Err(e) => {
                    return Err(e);
                },
                Ok(_) => {},
            }
            insert_path(&mut paths, PathDescription { path, path_item });
            i += 1;
        }
        assert(all.take(i as int) =~= all);
        api.paths = paths;
        Ok(())
    }

    /// The document of the service.
    pub fn openapi(&self) -> (r: Result<Document, OpenapiError>)
        ensures
            match app_document(self@) {
                Ok(d) => r is Ok && r->Ok_0@ == d,
                Err(e) => r is Err && r->Err_0@ == e,
            },
            r matches Ok(d) ==> d@.well_formed(),
    {
        let mut openapi = Document {
            openapi: String::from_str("3.0.3"),
            paths: Vec::new(),
            schemas: Vec::new(),
        };
        proof {
            assert(path_views(openapi.paths@) =~= Seq::empty());
            assert(schema_views(openapi.schemas@) =~= Seq::empty());
        }
        match self.modify_openapi(&mut openapi) {
            Err(e) => {
                return Err(e);
            },
            Ok(_) => {},
        }
        match fix_path_params(&mut openapi) {
            Err(e) => {
                return Err(OpenapiError::Document(e));
            },
            Ok(_) => {},
        }
        Ok(openapi)
    }
}

} // verus!
