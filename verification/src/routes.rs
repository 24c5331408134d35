//! Route declarations.  A declaration is an expression such as
//! `route("/pets", get(find_pets).post(add_pet)).route("/pets/:id", get(find_pet))`;
//! this module decodes it into a table from path templates to the bindings
//! of methods to handlers, and into the path items of a document.

use crate::chain::{
    binding_of, binding_views, call_views, CallSite, chain_error, clone_bindings,
    decode_method_chain, Invocation, invocations, method_chain, method_or_call, RouteError,
    RouteErrorKind, RouteOperation, RouteOperationView,
};
use crate::document::{
    distinct_paths, optional_operation, path_views, PathDescription, PathDescriptionView, PathItem,
    PathItemView,
};
use crate::expr::{expr_string_lit, Node, NodeView, string_literal};
use crate::method::{HttpMethod, method_named};
use crate::operation::{empty_operation, Operation, OperationView};
use crate::path::{axum_path_to_openapi, lemma_openapi_path_idempotent, openapi_path};
use crate::text::{
    comes_before, lemma_text_before_total, lemma_text_before_transitive, same_text, text_before,
    texts,
};
use vstd::prelude::*;
use vstd::string::*;

verus! {

/// The bindings of one path template.
#[derive(Debug, PartialEq, Eq)]
pub struct RouteEntry {
    pub path: String,
    pub operations: Vec<RouteOperation>,
}

/// The mathematical value of a [`RouteEntry`].
pub struct RouteEntryView {
    pub path: Seq<char>,
    pub operations: Seq<RouteOperationView>,
}

impl View for RouteEntry {
    type V = RouteEntryView;

    open spec fn view(&self) -> RouteEntryView {
        RouteEntryView { path: self.path@, operations: binding_views(self.operations@) }
    }
}

/// The values of a list of entries.
pub open spec fn entry_views(v: Seq<RouteEntry>) -> Seq<RouteEntryView> {
    Seq::new(v.len(), |i: int| v[i]@)
}

/// The table of routes: for each path template the bindings of methods to
/// handlers.  The entries stand in the order of their path templates, no
/// template has two entries, and no entry binds a method twice.
#[derive(Debug, PartialEq, Eq)]
pub struct Routes {
    pub paths: Vec<RouteEntry>,
}

impl View for Routes {
    type V = Seq<RouteEntryView>;

    open spec fn view(&self) -> Seq<RouteEntryView> {
        entry_views(self.paths@)
    }
}

/// No two bindings are for the same method.
pub open spec fn distinct_methods(ops: Seq<RouteOperationView>) -> bool {
    forall|i: int, j: int|
        0 <= i < j < ops.len() ==> (#[trigger] ops[i]).method != (#[trigger] ops[j]).method
}

/// The entries stand in the strict order of their path templates.
pub open spec fn ordered_by_path(table: Seq<RouteEntryView>) -> bool {
    forall|i: int, j: int|
        0 <= i < j < table.len() ==> text_before((#[trigger] table[i]).path, (#[trigger] table[j]).path)
}

/// What holds of every table of routes.
pub open spec fn well_formed_table(table: Seq<RouteEntryView>) -> bool {
    &&& ordered_by_path(table)
    &&& forall|i: int| 0 <= i < table.len() ==> distinct_methods((#[trigger] table[i]).operations)
}

/// How many entries at the beginning of the table have a path template
/// that comes before `path`.
pub open spec fn entry_position(table: Seq<RouteEntryView>, path: Seq<char>) -> nat
    decreases table.len(),
{
    if table.len() == 0 || !text_before(table[0].path, path) {
        0
    } else {
        1 + entry_position(table.drop_first(), path)
    }
}

/// The table after the bindings `ops` were declared for `path`: they come
/// after the bindings that the table has for that path, or make up a new
/// entry at the place that the order of path templates gives it.  There is
/// no such table where a method would be bound twice for the path.
pub open spec fn with_route(
    table: Seq<RouteEntryView>,
    path: Seq<char>,
    ops: Seq<RouteOperationView>,
) -> Option<Seq<RouteEntryView>> {
    let k = entry_position(table, path) as int;
    if k < table.len() && table[k].path == path {
        let all = table[k].operations + ops;
        if distinct_methods(all) {
            Some(table.update(k, RouteEntryView { path, operations: all }))
        } else {
            None
        }
    } else {
        if distinct_methods(ops) {
            Some(table.insert(k, RouteEntryView { path, operations: ops }))
        } else {
            None
        }
    }
}

/// The route that one call of the outer chain declares: `route` is called
/// with a string literal, the path, and a method chain.  The path is
/// rewritten to the template of a document.
pub open spec fn route_of(call: Invocation) -> Result<(Seq<char>, Seq<RouteOperationView>), RouteError> {
    if call.name != "route"@ {
        Err(RouteError { kind: RouteErrorKind::ExpectedRoute, span: call.span })
    } else if call.args.len() < 2 {
        Err(RouteError { kind: RouteErrorKind::ExpectedTwoArguments, span: call.span })
    } else {
        match string_literal(call.args[0]) {
            None => Err(
                RouteError { kind: RouteErrorKind::ExpectedPathLiteral, span: call.args[0].span },
            ),
            Some(path) => match method_chain(call.args[1]) {
                Err(e) => Err(e),
                Ok(ops) => Ok((openapi_path(path), ops)),
            },
        }
    }
}

/// The table after the routes of the calls were declared in the order of
/// the calls, or the error of the first call that fails.
pub open spec fn table_after(calls: Seq<Invocation>) -> Result<Seq<RouteEntryView>, RouteError>
    decreases calls.len(),
{
    if calls.len() == 0 {
        Ok(Seq::empty())
    } else {
        match table_after(calls.drop_last()) {
            Err(e) => Err(e),
            Ok(table) => match route_of(calls.last()) {
                Err(e) => Err(e),
                Ok((path, ops)) => match with_route(table, path, ops) {
                    None => Err(
                        RouteError { kind: RouteErrorKind::DuplicateMethod, span: calls.last().span },
                    ),
                    Some(next) => Ok(next),
                },
            },
        }
    }
}

/// The table of routes that a declaration such as
/// `route(a, x).route(b, y)` declares.  The calls of `route`
/// are taken from the outermost inwards.
pub open spec fn route_table(e: NodeView) -> Result<Seq<RouteEntryView>, RouteError> {
    match table_after(invocations(e)) {
        Err(error) => Err(error),
        Ok(table) => match chain_error(e) {
            Some(error) => Err(error),
            None => Ok(table),
        },
    }
}

pub proof fn lemma_entry_position_is(table: Seq<RouteEntryView>, path: Seq<char>, k: int)
    requires
        0 <= k <= table.len(),
        forall|i: int| 0 <= i < k ==> text_before((#[trigger] table[i]).path, path),
        k < table.len() ==> !text_before(table[k].path, path),
    ensures
        entry_position(table, path) == k,
    decreases table.len(),
{
    if table.len() == 0 || !text_before(table[0].path, path) {
        if k > 0 {
            assert(text_before(table[0].path, path));
        }
    } else {
        let rest = table.drop_first();
        assert forall|i: int| 0 <= i < k - 1 implies text_before((#[trigger] rest[i]).path, path) by {
            assert(rest[i] == table[i + 1]);
        }
        lemma_entry_position_is(rest, path, k - 1);
    }
}

pub proof fn lemma_entry_position_bounds(table: Seq<RouteEntryView>, path: Seq<char>)
    ensures
        entry_position(table, path) <= table.len(),
        forall|i: int|
            0 <= i < entry_position(table, path) ==> text_before((#[trigger] table[i]).path, path),
        entry_position(table, path) < table.len() ==> !text_before(
            table[entry_position(table, path) as int].path,
            path,
        ),
    decreases table.len(),
{
    if table.len() == 0 || !text_before(table[0].path, path) {
    } else {
        let rest = table.drop_first();
        lemma_entry_position_bounds(rest, path);
        assert forall|i: int| 0 <= i < entry_position(table, path) implies text_before(
            (#[trigger] table[i]).path,
            path,
        ) by {
            if i > 0 {
                assert(table[i] == rest[i - 1]);
            }
        }
    }
}

/// Declaring a route keeps a table in order.
pub proof fn lemma_with_route_well_formed(
    table: Seq<RouteEntryView>,
    path: Seq<char>,
    ops: Seq<RouteOperationView>,
)
    requires
        well_formed_table(table),
    ensures
        with_route(table, path, ops) matches Some(next) ==> well_formed_table(next),
{
    lemma_entry_position_bounds(table, path);
    let k = entry_position(table, path) as int;
    match with_route(table, path, ops) {
        None => {},
        Some(next) => {
            if k < table.len() && table[k].path == path {
                assert forall|i: int, j: int| 0 <= i < j < next.len() implies text_before(
                    (#[trigger] next[i]).path,
                    (#[trigger] next[j]).path,
                ) by {
                    assert(next[i].path == table[i].path);
                    assert(next[j].path == table[j].path);
                }
                assert forall|i: int| 0 <= i < next.len() implies distinct_methods(
                    (#[trigger] next[i]).operations,
                ) by {
                    if i != k {
                        assert(next[i] == table[i]);
                    }
                }
            } else {
                assert forall|i: int, j: int| 0 <= i < j < next.len() implies text_before(
                    (#[trigger] next[i]).path,
                    (#[trigger] next[j]).path,
                ) by {
                    if j < k {
                        assert(next[i] == table[i] && next[j] == table[j]);
                    } else if j == k {
                        assert(next[i] == table[i]);
                    } else if i == k {
                        assert(next[j] == table[j - 1]);
                        lemma_text_before_total(path, table[k].path);
                        if j - 1 > k {
                            assert(text_before(table[k].path, table[j - 1].path));
                            lemma_text_before_transitive(path, table[k].path, table[j - 1].path);
                        }
                    } else if i < k {
                        assert(next[i] == table[i] && next[j] == table[j - 1]);
                    } else {
                        assert(next[i] == table[i - 1] && next[j] == table[j - 1]);
                    }
                }
                assert forall|i: int| 0 <= i < next.len() implies distinct_methods(
                    (#[trigger] next[i]).operations,
                ) by {
                    if i < k {
                        assert(next[i] == table[i]);
                    } else if i > k {
                        assert(next[i] == table[i - 1]);
                    }
                }
            }
        },
    }
}

/// Every table that a declaration declares is in order.
pub proof fn lemma_table_after_well_formed(calls: Seq<Invocation>)
    ensures
        table_after(calls) matches Ok(table) ==> well_formed_table(table),
    decreases calls.len(),
{
    if calls.len() > 0 {
        lemma_table_after_well_formed(calls.drop_last());
        match table_after(calls.drop_last()) {
            Err(e) => {},
            Ok(table) => match route_of(calls.last()) {
                Err(e) => {},
                Ok((path, ops)) => {
                    lemma_with_route_well_formed(table, path, ops);
                },
            },
        }
    }
}

/// An error among the first calls is the error of them all.
pub proof fn lemma_table_after_error_stays(calls: Seq<Invocation>, n: int)
    requires
        0 <= n <= calls.len(),
    ensures
        table_after(calls.take(n)) is Err ==> table_after(calls) == table_after(calls.take(n)),
    decreases calls.len() - n,
{
    if n < calls.len() {
        lemma_table_after_error_stays(calls, n + 1);
        assert(calls.take(n + 1).drop_last() =~= calls.take(n));
    } else {
        assert(calls.take(n) =~= calls);
    }
}

/// Whether no two bindings are for the same method.
pub fn methods_distinct(ops: &Vec<RouteOperation>) -> (r: bool)
    ensures
        r == distinct_methods(binding_views(ops@)),
{
    let ghost views = binding_views(ops@);
    let mut j: usize = 0;
    while j < ops.len()
        invariant
            j <= ops.len(),
            views == binding_views(ops@),
            forall|a: int, b: int|
                0 <= a < b < j ==> (#[trigger] views[a]).method != (#[trigger] views[b]).method,
        decreases ops.len() - j,
    {
        let mut i: usize = 0;
        while i < j
            invariant
                i <= j,
                j < ops.len(),
                views == binding_views(ops@),
                forall|a: int| 0 <= a < i ==> (#[trigger] views[a]).method != views[j as int].method,
            decreases j - i,
        {
            if ops[i].method == ops[j].method {
                assert(views[i as int].method == views[j as int].method);
                return false;
            }
            i += 1;
        }
        j += 1;
    }
    true
}

/// How many entries at the beginning of the table have a path template
/// that comes before `path`.
pub fn find_position(table: &Vec<RouteEntry>, path: &String) -> (r: usize)
    ensures
        r == entry_position(entry_views(table@), path@),
        r <= table.len(),
{
    let ghost views = entry_views(table@);
    let mut i: usize = 0;
    while i < table.len()
        invariant
            i <= table.len(),
            views == entry_views(table@),
            forall|j: int| 0 <= j < i ==> text_before((#[trigger] views[j]).path, path@),
        decreases table.len() - i,
    {
        if !comes_before(table[i].path.as_str(), path.as_str()) {
            proof {
                assert(views[i as int].path == table[i as int].path@);
                lemma_entry_position_is(views, path@, i as int);
            }
            return i;
        }
        assert(views[i as int].path == table[i as int].path@);
        i += 1;
    }
    proof {
        lemma_entry_position_is(views, path@, i as int);
    }
    i
}

/// Declares the bindings `ops` for `path` in the table.  Gives back whether
/// that could be done; where a method would be bound twice for the path,
/// the table is left as it was.
pub fn add_route(table: &mut Vec<RouteEntry>, path: String, ops: Vec<RouteOperation>) -> (r: bool)
    ensures
        match with_route(entry_views(old(table)@), path@, binding_views(ops@)) {
            Some(next) => r && entry_views(final(table)@) == next,
            None => !r && entry_views(final(table)@) == entry_views(old(table)@),
        },
{
    let ghost before = entry_views(table@);
    let k = find_position(table, &path);
    if k < table.len() && table[k].path == path {
        let mut all = clone_bindings(&table[k].operations);
        let mut ops = ops;
        let ghost added = binding_views(ops@);
        let ghost kept = binding_views(all@);
        all.append(&mut ops);
        assert(binding_views(all@) =~= kept + added);
        assert(before[k as int].operations == kept);
        assert(before[k as int].path == path@);
        if !methods_distinct(&all) {
            return false;
        }
        let entry = RouteEntry { path, operations: all };
        table.set(k, entry);
        assert(entry_views(table@) =~= before.update(k as int, entry@));
        true
    } else {
        if k < table.len() {
            assert(before[k as int].path == table[k as int].path@);
        }
        if !methods_distinct(&ops) {
            return false;
        }
        let entry = RouteEntry { path, operations: ops };
        table.insert(k, entry);
        assert(entry_views(table@) =~= before.insert(k as int, entry@));
        true
    }
}

/// The path template of a document for a path as a route declares it:
/// each segment written `:name` becomes `{name}`.
pub fn axum_path(path: &str) -> (r: String)
    ensures
        r@ == openapi_path(path@),
{
    axum_path_to_openapi(path)
}

/// Decodes one call of the outer chain.
pub fn decode_route(call: &CallSite) -> (r: Result<(String, Vec<RouteOperation>), RouteError>)
    ensures
        match route_of(call@) {
            Ok((path, ops)) => r is Ok && r->Ok_0.0@ == path && binding_views(r->Ok_0.1@) == ops,
            Err(e) => r is Err && r->Err_0 == e,
        },
{
    if !same_text(call.name.as_str(), "route") {
        return Err(RouteError { kind: RouteErrorKind::ExpectedRoute, span: call.span });
    }
    if call.args.len() < 2 {
        return Err(RouteError { kind: RouteErrorKind::ExpectedTwoArguments, span: call.span });
    }
    let path = match expr_string_lit(&call.args[0]) {
        Some(path) => path,
        None => {
            return Err(
                RouteError { kind: RouteErrorKind::ExpectedPathLiteral, span: call.args[0].span },
            );
        },
    };
    match decode_method_chain(&call.args[1]) {
        Err(e) => Err(e),
        Ok(ops) => Ok((axum_path(path.as_str()), ops)),
    }
}

/// Decodes a declaration of routes into the table of routes.
pub fn parse_routes(expr: &Node) -> (r: Result<Routes, RouteError>)
    ensures
        match route_table(expr@) {
            Ok(table) => r is Ok && r->Ok_0@ == table,
            Err(e) => r is Err && r->Err_0 == e,
        },
        r matches Ok(routes) ==> well_formed_table(routes@) && keyed_by_templates(routes@),
{
    let mut calls: Vec<CallSite> = Vec::new();
    assert(call_views(calls@) =~= Seq::empty());
    let end = method_or_call(expr, &mut calls);
    let ghost all = call_views(calls@);
    assert(all =~= invocations(expr@));
    let mut table: Vec<RouteEntry> = Vec::new();
    let mut i: usize = 0;
    proof {
        assert(all.take(0) =~= Seq::empty());
        assert(entry_views(table@) =~= Seq::empty());
    }
    while i < calls.len()
        invariant
            i <= calls.len(),
            all == call_views(calls@),
            all == invocations(expr@),
            table_after(all.take(i as int)) == Ok::<_, RouteError>(entry_views(table@)),
        decreases calls.len() - i,
    {
        let call = &calls[i];
        proof {
            assert(all.take(i + 1).drop_last() =~= all.take(i as int));
            assert(all.take(i + 1).last() == call@);
            lemma_table_after_error_stays(all, i + 1);
        }
        match decode_route(call) {
            Err(e) => {
                return Err(e);
            },
            Ok((path, ops)) => {
                if !add_route(&mut table, path, ops) {
                    return Err(
                        RouteError { kind: RouteErrorKind::DuplicateMethod, span: call.span },
                    );
                }
            },
        }
        i += 1;
    }
    proof {
        assert(all.take(i as int) =~= all);
        lemma_table_after_well_formed(all);
        lemma_table_keyed_by_templates(all);
    }
    match end {
        Some(error) => Err(error),
        None => Ok(Routes { paths: table }),
    }
}

/// Every path of the table is a path template: rewriting it changes
/// nothing.
pub open spec fn keyed_by_templates(table: Seq<RouteEntryView>) -> bool {
    forall|i: int| 0 <= i < table.len() ==> openapi_path((#[trigger] table[i]).path) == table[i].path
}

/// The table that a declaration declares is keyed by path templates:
/// every path was rewritten, and rewriting it again changes nothing.
pub proof fn lemma_table_keyed_by_templates(calls: Seq<Invocation>)
    ensures
        table_after(calls) matches Ok(table) ==> keyed_by_templates(table),
    decreases calls.len(),
{
    if calls.len() > 0 {
        lemma_table_keyed_by_templates(calls.drop_last());
        match table_after(calls.drop_last()) {
            Err(e) => {},
            Ok(table) => match route_of(calls.last()) {
                Err(e) => {},
                Ok((path, ops)) => {
                    let written = string_literal(calls.last().args[0])->Some_0;
                    lemma_openapi_path_idempotent(written);
                    lemma_entry_position_bounds(table, path);
                    let k = entry_position(table, path) as int;
                    match with_route(table, path, ops) {
                        None => {},
                        Some(next) => {
                            assert forall|i: int| 0 <= i < next.len() implies openapi_path(
                                (#[trigger] next[i]).path,
                            ) == next[i].path by {
                                if k < table.len() && table[k].path == path {
                                    if i != k {
                                        assert(next[i] == table[i]);
                                    }
                                } else {
                                    if i < k {
                                        assert(next[i] == table[i]);
                                    } else if i > k {
                                        assert(next[i] == table[i - 1]);
                                    }
                                }
                            }
                        },
                    }
                },
            },
        }
    }
}

/// The table of a declaration is keyed by path templates.
pub proof fn lemma_route_table_keyed_by_templates(e: NodeView)
    ensures
        route_table(e) matches Ok(table) ==> keyed_by_templates(table) && well_formed_table(table),
{
    lemma_table_keyed_by_templates(invocations(e));
    lemma_table_after_well_formed(invocations(e));
}

/// The first binding for `method`.
pub open spec fn find_binding(ops: Seq<RouteOperationView>, method: HttpMethod) -> Option<
    RouteOperationView,
>
    decreases ops.len(),
{
    if ops.len() == 0 {
        None
    } else if ops[0].method == method {
        Some(ops[0])
    } else {
        find_binding(ops.drop_first(), method)
    }
}

/// The identifier under which the operation of a handler is looked up: the
/// last segment of the path that names the handler.  A handler without a
/// name has none.
pub open spec fn operation_id_of(op: RouteOperationView) -> Option<Seq<char>> {
    match op.path {
        Some(segs) => if segs.len() > 0 {
            Some(segs.last())
        } else {
            None
        },
        None => None,
    }
}

/// The operation that stands in a path item for `method` until the
/// operation of the handler is merged into it: it says nothing but the
/// identifier of the handler.  A method without a binding has none.
pub open spec fn stub(ops: Seq<RouteOperationView>, method: HttpMethod) -> Option<OperationView> {
    match find_binding(ops, method) {
        Some(binding) => Some(
            OperationView { operation_id: operation_id_of(binding), ..empty_operation() },
        ),
        None => None,
    }
}

/// The path item of the bindings of one path.
pub open spec fn skeleton(ops: Seq<RouteOperationView>) -> PathItemView {
    PathItemView {
        get: stub(ops, HttpMethod::Get),
        put: stub(ops, HttpMethod::Put),
        post: stub(ops, HttpMethod::Post),
        delete: stub(ops, HttpMethod::Delete),
        options: stub(ops, HttpMethod::Options),
        head: stub(ops, HttpMethod::Head),
        patch: stub(ops, HttpMethod::Patch),
        trace: stub(ops, HttpMethod::Trace),
    }
}

/// The path items of a table of routes, one for each entry, in order.
pub open spec fn path_descriptions(table: Seq<RouteEntryView>) -> Seq<PathDescriptionView> {
    Seq::new(
        table.len(),
        |i: int|
            PathDescriptionView { path: table[i].path, path_item: skeleton(table[i].operations) },
    )
}

/// The path items that a declaration of routes declares.
pub open spec fn declared_paths(e: NodeView) -> Result<Seq<PathDescriptionView>, RouteError> {
    match route_table(e) {
        Ok(table) => Ok(path_descriptions(table)),
        Err(error) => Err(error),
    }
}

/// The path items stand in the strict order of their paths, so that no
/// path has two, and every path is a path template: rewriting it changes
/// nothing.
pub open spec fn templates_in_order(paths: Seq<PathDescriptionView>) -> bool {
    &&& forall|i: int, j: int|
        0 <= i < j < paths.len() ==> text_before((#[trigger] paths[i]).path, (#[trigger] paths[j]).path)
    &&& forall|i: int| 0 <= i < paths.len() ==> openapi_path((#[trigger] paths[i]).path) == paths[i].path
}

/// Path items in the order of their paths have different paths.
pub proof fn lemma_templates_in_order_distinct(paths: Seq<PathDescriptionView>)
    requires
        templates_in_order(paths),
    ensures
        distinct_paths(paths),
{
    assert forall|i: int, j: int| 0 <= i < j < paths.len() implies (#[trigger] paths[i]).path != (
    #[trigger] paths[j]).path by {
        lemma_text_before_total(paths[i].path, paths[j].path);
    }
}

/// The path items that a declaration declares stand in the order of their
/// paths, one for each path template.
pub proof fn lemma_declared_paths_in_order(e: NodeView)
    ensures
        declared_paths(e) matches Ok(paths) ==> templates_in_order(paths) && distinct_paths(paths),
{
    lemma_route_table_keyed_by_templates(e);
    match route_table(e) {
        Err(error) => {},
        Ok(table) => {
            let paths = path_descriptions(table);
            assert forall|i: int, j: int| 0 <= i < j < paths.len() implies text_before(
                (#[trigger] paths[i]).path,
                (#[trigger] paths[j]).path,
            ) by {
                assert(paths[i].path == table[i].path && paths[j].path == table[j].path);
            }
            assert forall|i: int| 0 <= i < paths.len() implies openapi_path(
                (#[trigger] paths[i]).path,
            ) == paths[i].path by {
                assert(paths[i].path == table[i].path);
            }
            lemma_templates_in_order_distinct(paths);
        },
    }
}

/// The operation that stands in a path item for `method`.
pub fn stub_for(ops: &Vec<RouteOperation>, method: HttpMethod) -> (r: Option<Operation>)
    ensures
        optional_operation(r) == stub(binding_views(ops@), method),
{
    let ghost views = binding_views(ops@);
    let mut i: usize = 0;
    assert(views.skip(0) =~= views);
    while i < ops.len()
        invariant
            i <= ops.len(),
            views == binding_views(ops@),
            find_binding(views, method) == find_binding(views.skip(i as int), method),
        decreases ops.len() - i,
    {
        proof {
            assert(views.skip(i as int)[0] == ops[i as int]@);
            assert(views.skip(i as int).drop_first() =~= views.skip(i + 1));
        }
        if ops[i].method == method {
            let mut operation = Operation::default();
            match &ops[i].path {
                Some(segs) => {
                    if segs.len() > 0 {
                        operation.operation_id = Some(segs[segs.len() - 1].clone());
                        assert(texts(segs@).last() == segs[segs.len() - 1]@);
                    }
                },
                None => {},
            }
            return Some(operation);
        }
        i += 1;
    }
    None
}

/// The path items that a declaration of routes declares: one for each path
/// template, in the order of the templates, with an operation for each
/// method that the declaration binds.
pub fn routes(expr: &Node) -> (r: Result<Vec<PathDescription>, RouteError>)
    ensures
        match declared_paths(expr@) {
            Ok(paths) => r is Ok && path_views(r->Ok_0@) == paths,
            Err(e) => r is Err && r->Err_0 == e,
        },
        r matches Ok(paths) ==> templates_in_order(path_views(paths@)),
{
    proof {
        lemma_declared_paths_in_order(expr@);
    }
    let table = match parse_routes(expr) {
        Ok(table) => table,
        Err(e) => {
            return Err(e);
        },
    };
    let ghost entries = table@;
    let mut out: Vec<PathDescription> = Vec::new();
    let mut i: usize = 0;
    while i < table.paths.len()
        invariant
            i <= table.paths.len(),
            entries == table@,
            out.len() == i,
            forall|j: int| 0 <= j < i ==> out[j]@ == path_descriptions(entries)[j],
        decreases table.paths.len() - i,
    {
        let entry = &table.paths[i];
        assert(entries[i as int] == entry@);
        let path_item = PathItem {
            get: stub_for(&entry.operations, HttpMethod::Get),
            put: stub_for(&entry.operations, HttpMethod::Put),
            post: stub_for(&entry.operations, HttpMethod::Post),
            delete: stub_for(&entry.operations, HttpMethod::Delete),
            options: stub_for(&entry.operations, HttpMethod::Options),
            head: stub_for(&entry.operations, HttpMethod::Head),
            patch: stub_for(&entry.operations, HttpMethod::Patch),
            trace: stub_for(&entry.operations, HttpMethod::Trace),
        };
        out.push(PathDescription { path: entry.path.clone(), path_item });
        i += 1;
    }
    assert(path_views(out@) =~= path_descriptions(entries));
    Ok(out)
}

/// A handler that is written in place, not named, is bound all the same:
/// the binding has no path, and the operation that stands for it in the
/// path item has no identifier.
pub proof fn lemma_unnamed_handler_is_bound(call: Invocation, method: HttpMethod)
    requires
        method_named(call.name) == Some(method),
        call.args.len() > 0,
        !(call.args[0].kind is Path),
    ensures
        binding_of(call) == Ok::<_, RouteError>(RouteOperationView { method, path: None }),
        stub(seq![binding_of(call)->Ok_0], method) == Some(empty_operation()),
{
    let op = binding_of(call)->Ok_0;
    assert(seq![op][0] == op);
}

} // verus!
