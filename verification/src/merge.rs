//! Merging the operations of handlers into a path item: where the path
//! item has an operation and an operation is registered under its
//! identifier, the registered operation takes its place, and its path
//! parameters get the names of the placeholders of the path template.

use crate::assemble::{AssemblyError, AssemblyErrorView};
use crate::document::{clone_operation, optional_operation, PathItem, PathItemView};
use crate::handler::{OperationDescription, OperationDescriptionView};
use crate::method::{HttpMethod, method_index, methods_in_order};
use crate::operation::{
    Operation, OperationView, Parameter, parameter_views, ParameterLocation, ParameterView,
    placeholder_for, positional_parameters,
};
use crate::path::{path_parameters, path_params};
use crate::registry::operation_views;
use crate::schema::SchemaRefView;
use crate::text::{
    decimal, has_prefix, lemma_parse_decimal_of_decimal, Ordinal, parse_decimal, read_ordinal,
    starts_with, texts,
};
use vstd::prelude::*;
use vstd::string::*;

verus! {

/// The position that a positional parameter name stands for: the number
/// after `__parameter`, where the name is of that form.
pub open spec fn placeholder_ordinal(name: Seq<char>) -> Option<nat> {
    if starts_with(name, "__parameter"@) {
        parse_decimal(name.skip("__parameter"@.len() as int))
    } else {
        None
    }
}

/// A parameter with the name that the path template gives it.  A path
/// parameter with a positional name takes the name of the placeholder at
/// that position; there is no result where the template has no such
/// placeholder.  Every other parameter stays as it is.
pub open spec fn resolved_parameter(p: ParameterView, names: Seq<Seq<char>>) -> Option<
    ParameterView,
> {
    if p.location == ParameterLocation::Path {
        match placeholder_ordinal(p.name) {
            Some(n) => if n < names.len() {
                Some(ParameterView { name: names[n as int], ..p })
            } else {
                None
            },
            None => Some(p),
        }
    } else {
        Some(p)
    }
}

/// The parameters with the names that the path template gives them, or the
/// name of the first parameter whose position the template does not have.
pub open spec fn resolved_parameters(ps: Seq<ParameterView>, names: Seq<Seq<char>>) -> Result<
    Seq<ParameterView>,
    Seq<char>,
>
    decreases ps.len(),
{
    if ps.len() == 0 {
        Ok(Seq::empty())
    } else {
        match resolved_parameters(ps.drop_last(), names) {
            Err(name) => Err(name),
            Ok(done) => match resolved_parameter(ps.last(), names) {
                None => Err(ps.last().name),
                Some(p) => Ok(done.push(p)),
            },
        }
    }
}

/// An operation at `path` with its path parameters named by `names`, the
/// names of the placeholders of a path template.
pub open spec fn named_operation(op: OperationView, names: Seq<Seq<char>>, path: Seq<char>) -> Result<
    OperationView,
    AssemblyErrorView,
> {
    match resolved_parameters(op.parameters, names) {
        Ok(ps) => Ok(OperationView { parameters: ps, ..op }),
        Err(name) => Err(
            AssemblyErrorView::ParameterOutOfRange {
                path,
                operation_id: op.operation_id,
                parameter: name,
            },
        ),
    }
}

/// An operation at `path` with its path parameters named by the template.
pub open spec fn resolved_operation(op: OperationView, path: Seq<char>) -> Result<
    OperationView,
    AssemblyErrorView,
> {
    named_operation(op, path_parameters(path), path)
}

/// The operation registered under the identifier `id`: of several, the one
/// registered last.
pub open spec fn find_operation(ops: Seq<OperationDescriptionView>, id: Seq<char>) -> Option<
    OperationView,
>
    decreases ops.len(),
{
    if ops.len() == 0 {
        None
    } else if ops.last().operation.operation_id == Some(id) {
        Some(ops.last().operation)
    } else {
        find_operation(ops.drop_last(), id)
    }
}

/// What takes the place of the operation `stub` of a path item at `path`:
/// the operation registered under the identifier of the stub, with its path
/// parameters named by the template.  `Ok(None)` says that the stub stays:
/// there is none, it has no identifier, or nothing is registered under it.
pub open spec fn replacement(
    stub: Option<OperationView>,
    ops: Seq<OperationDescriptionView>,
    path: Seq<char>,
) -> Result<Option<OperationView>, AssemblyErrorView> {
    match stub {
        Some(s) => match s.operation_id {
            Some(id) => match find_operation(ops, id) {
                Some(found) => match resolved_operation(found, path) {
                    Ok(op) => Ok(Some(op)),
                    Err(e) => Err(e),
                },
                None => Ok(None),
            },
            None => Ok(None),
        },
        None => Ok(None),
    }
}

/// The operation of a method after the merge: the registered operation
/// where one takes the place of what stood there, else what stood there.
pub open spec fn merged_slot(
    item: PathItemView,
    method: HttpMethod,
    ops: Seq<OperationDescriptionView>,
    path: Seq<char>,
) -> Option<OperationView> {
    match replacement(item.slot(method), ops, path) {
        Ok(Some(op)) => Some(op),
        _ => item.slot(method),
    }
}

/// The error of the first of the first `k` methods, in the order of
/// [`methods_in_order`], whose operation cannot be merged.
pub open spec fn merge_error(
    item: PathItemView,
    ops: Seq<OperationDescriptionView>,
    path: Seq<char>,
    k: nat,
) -> Option<AssemblyErrorView>
    decreases k,
{
    if k == 0 || k > 8 {
        None
    } else {
        match merge_error(item, ops, path, (k - 1) as nat) {
            Some(e) => Some(e),
            None => match replacement(item.slot(methods_in_order()[k - 1]), ops, path) {
                Err(e) => Some(e),
                Ok(_) => None,
            },
        }
    }
}

/// The path item whose first `k` methods, in the order of
/// [`methods_in_order`], have their merged operation, and whose other
/// methods have none.  With `k` at 8 every method has its merged
/// operation.
pub open spec fn merged_prefix(
    item: PathItemView,
    ops: Seq<OperationDescriptionView>,
    path: Seq<char>,
    k: nat,
) -> PathItemView {
    PathItemView {
        get: if k > 0 {
            merged_slot(item, HttpMethod::Get, ops, path)
        } else {
            None
        },
        put: if k > 1 {
            merged_slot(item, HttpMethod::Put, ops, path)
        } else {
            None
        },
        post: if k > 2 {
            merged_slot(item, HttpMethod::Post, ops, path)
        } else {
            None
        },
        delete: if k > 3 {
            merged_slot(item, HttpMethod::Delete, ops, path)
        } else {
            None
        },
        options: if k > 4 {
            merged_slot(item, HttpMethod::Options, ops, path)
        } else {
            None
        },
        head: if k > 5 {
            merged_slot(item, HttpMethod::Head, ops, path)
        } else {
            None
        },
        patch: if k > 6 {
            merged_slot(item, HttpMethod::Patch, ops, path)
        } else {
            None
        },
        trace: if k > 7 {
            merged_slot(item, HttpMethod::Trace, ops, path)
        } else {
            None
        },
    }
}

/// The path item at `path` with the registered operations merged into it:
/// every method has its merged operation.  There is no such path item
/// where the operation of some method cannot be merged; the error is that
/// of the first such method.
pub open spec fn merged_item(
    item: PathItemView,
    ops: Seq<OperationDescriptionView>,
    path: Seq<char>,
) -> Result<PathItemView, AssemblyErrorView> {
    match merge_error(item, ops, path, 8) {
        Some(e) => Err(e),
        None => Ok(merged_prefix(item, ops, path, 8)),
    }
}

/// Looks up the operation registered under `id`.
pub fn lookup_operation<'a>(ops: &'a Vec<OperationDescription>, id: &String) -> (r: Option<
    &'a Operation,
>)
    ensures
        match r {
            Some(op) => Some(op@),
            None => None,
        } == find_operation(operation_views(ops@), id@),
{
    let mut i: usize = ops.len();
    assert(operation_views(ops@).take(i as int) =~= operation_views(ops@));
    while i > 0
        invariant
            i <= ops.len(),
            find_operation(operation_views(ops@), id@) == find_operation(
                operation_views(ops@).take(i as int),
                id@,
            ),
        decreases i,
    {
        let ghost prefix = operation_views(ops@).take(i as int);
        proof {
            assert(prefix.last() == ops@[i - 1]@);
            assert(prefix.drop_last() =~= operation_views(ops@).take(i - 1));
        }
        i -= 1;
        match &ops[i].operation.operation_id {
            Some(found) => {
                if *found == *id {
                    return Some(&ops[i].operation);
                }
            },
            None => {},
        }
    }
    None
}

/// An error among the first parameters is the error of them all.
pub proof fn lemma_resolved_parameters_error_stays(
    ps: Seq<ParameterView>,
    names: Seq<Seq<char>>,
    n: int,
)
    requires
        0 <= n <= ps.len(),
    ensures
        resolved_parameters(ps.take(n), names) is Err ==> resolved_parameters(ps, names)
            == resolved_parameters(ps.take(n), names),
    decreases ps.len() - n,
{
    if n < ps.len() {
        lemma_resolved_parameters_error_stays(ps, names, n + 1);
        assert(ps.take(n + 1).drop_last() =~= ps.take(n));
    } else {
        assert(ps.take(n) =~= ps);
    }
}

/// Gives the path parameters of an operation at `path` the names `names`,
/// the names of the placeholders of a path template.
pub fn resolve_operation(op: &Operation, names: &Vec<String>, path: &str) -> (r: Result<
    Operation,
    AssemblyError,
>)
    ensures
        match named_operation(op@, texts(names@), path@) {
            Ok(v) => r is Ok && r->Ok_0@ == v,
            Err(e) => r is Err && r->Err_0@ == e,
        },
{
    let ghost ps = parameter_views(op.parameters@);
    let mut out: Vec<Parameter> = Vec::new();
    let mut i: usize = 0;
    proof {
        reveal_strlit("__parameter");
        assert(ps.take(0) =~= Seq::empty());
        assert(parameter_views(out@) =~= Seq::empty());
    }
    while i < op.parameters.len()
        invariant
            i <= op.parameters.len(),
            ps == parameter_views(op.parameters@),
            "__parameter"@.len() == 11,
            resolved_parameters(ps.take(i as int), texts(names@)) == Ok::<_, Seq<char>>(
                parameter_views(out@),
            ),
        decreases op.parameters.len() - i,
    {
        let p = &op.parameters[i];
        let ghost before = parameter_views(out@);
        proof {
            assert(ps.take(i + 1).drop_last() =~= ps.take(i as int));
            assert(ps.take(i + 1).last() == p@);
            lemma_resolved_parameters_error_stays(ps, texts(names@), i + 1);
        }
        let mut q = p.clone();
        match p.location {
            ParameterLocation::Path => {
                if has_prefix(p.name.as_str(), "__parameter") {
                    match read_ordinal(p.name.as_str(), 11, names.len()) {
                        Ordinal::Absent => {},
                        Ordinal::Within(n) => {
                            q.name = names[n].clone();
                            assert(q.name@ == texts(names@)[n as int]);
                        },
                        Ordinal::Beyond => {
                            return Err(
                                AssemblyError::ParameterOutOfRange {
                                    path: String::from_str(path),
                                    operation_id: match &op.operation_id {
                                        Some(id) => Some(id.clone()),
                                        None => None,
                                    },
                                    parameter: p.name.clone(),
                                },
                            );
                        },
                    }
                }
            },
            ParameterLocation::Query => {},
        }
        assert(resolved_parameter(p@, texts(names@)) == Some(q@));
        out.push(q);
        assert(parameter_views(out@) =~= before.push(q@));
        i += 1;
    }
    assert(ps.take(i as int) =~= ps);
    let operation = Operation {
        operation_id: match &op.operation_id {
            Some(id) => Some(id.clone()),
            None => None,
        },
        parameters: out,
        request_body: match &op.request_body {
            Some(b) => Some(b.clone()),
            None => None,
        },
        responses: op.responses.clone(),
    };
    Ok(operation)
}

/// What takes the place of the operation `stub` of a path item at `path`,
/// where `names` are the names of the placeholders of the path.
fn replace_operation(
    stub: &Option<Operation>,
    handler_ops: &Vec<OperationDescription>,
    names: &Vec<String>,
    path: &str,
) -> (r: Result<Option<Operation>, AssemblyError>)
    requires
        texts(names@) == path_parameters(path@),
    ensures
        match replacement(optional_operation(*stub), operation_views(handler_ops@), path@) {
            Ok(v) => r is Ok && optional_operation(r->Ok_0) == v,
            Err(e) => r is Err && r->Err_0@ == e,
        },
{
    match stub {
        Some(s) => match &s.operation_id {
            Some(id) => match lookup_operation(handler_ops, id) {
                Some(found) => match resolve_operation(found, names, path) {
                    Ok(op) => Ok(Some(op)),
                    Err(e) => Err(e),
                },
                None => Ok(None),
            },
            None => Ok(None),
        },
        None => Ok(None),
    }
}

/// An error among the first methods is the error of them all.
pub proof fn lemma_merge_error_stays(
    item: PathItemView,
    ops: Seq<OperationDescriptionView>,
    path: Seq<char>,
    k: nat,
)
    requires
        k <= 8,
    ensures
        merge_error(item, ops, path, k) is Some ==> merge_error(item, ops, path, 8) == merge_error(
            item,
            ops,
            path,
            k,
        ),
    decreases 8 - k,
{
    if k < 8 {
        lemma_merge_error_stays(item, ops, path, k + 1);
    }
}

/// The path item at `path` with the registered operations merged into it.
///
/// For each method, where the path item has an operation and an operation
/// is registered under its identifier, the registered operation takes its
/// place, with its path parameters named by the placeholders of the path.
/// A parameter whose position the path does not have is an error; of
/// several, the first in the order of the methods is reported.
pub fn merge_item(path_item: &PathItem, handler_ops: &Vec<OperationDescription>, path: &str) -> (r:
    Result<PathItem, AssemblyError>)
    ensures
        match merged_item(path_item@, operation_views(handler_ops@), path@) {
            Ok(v) => r is Ok && r->Ok_0@ == v,
            Err(e) => r is Err && r->Err_0@ == e,
        },
{
    let names = path_params(path);
    let methods = HttpMethod::all();
    let ghost start = path_item@;
    let ghost ops = operation_views(handler_ops@);
    let mut next = PathItem::default();
    let mut k: usize = 0;
    while k < 8
        invariant
            k <= 8,
            methods@ == methods_in_order(),
            texts(names@) == path_parameters(path@),
            ops == operation_views(handler_ops@),
            start == path_item@,
            merge_error(start, ops, path@, k as nat) is None,
            next@ == merged_prefix(start, ops, path@, k as nat),
        decreases 8 - k,
    {
        let method = methods[k];
        proof {
            lemma_merge_error_stays(start, ops, path@, (k + 1) as nat);
            assert(methods_in_order()[k as int] == method);
        }
        let stub = path_item.operation(method);
        let merged = match replace_operation(stub, handler_ops, &names, path) {
            Err(e) => {
                return Err(e);
            },
            Ok(None) => clone_operation(stub),
            Ok(Some(op)) => Some(op),
        };
        assert(optional_operation(merged) == merged_slot(start, method, ops, path@));
        next.set_operation(method, merged);
        assert(k == 0 || k == 1 || k == 2 || k == 3 || k == 4 || k == 5 || k == 6 || k == 7);
        k += 1;
    }
    Ok(next)
}

/// Merges the registered operations into the path item at `path`, as
/// [`merge_item`] does.  On an error the path item is left as it was.
pub fn patch_operations(
    path_item: &mut PathItem,
    handler_ops: &Vec<OperationDescription>,
    path: &str,
) -> (r: Result<(), AssemblyError>)
    ensures
        match merged_item(old(path_item)@, operation_views(handler_ops@), path@) {
            Ok(v) => r is Ok && final(path_item)@ == v,
            Err(e) => r is Err && r->Err_0@ == e && final(path_item)@ == old(path_item)@,
        },
{
    match merge_item(path_item, handler_ops, path) {
        Ok(next) => {
            *path_item = next;
            Ok(())
        },
        Err(e) => Err(e),
    }
}

/// The positional name of position `i` stands for position `i`.
pub proof fn lemma_placeholder_ordinal(i: nat)
    ensures
        placeholder_ordinal(placeholder_for(i)) == Some(i),
{
    let prefix = "__parameter"@;
    let name = placeholder_for(i);
    assert(name.take(prefix.len() as int) =~= prefix);
    assert(name.skip(prefix.len() as int) =~= decimal(i));
    lemma_parse_decimal_of_decimal(i);
}

/// The path parameters with the names of the first placeholders of a
/// template, in order.
pub open spec fn named_parameters(schemas: Seq<SchemaRefView>, names: Seq<Seq<char>>) -> Seq<
    ParameterView,
> {
    Seq::new(
        schemas.len(),
        |i: int|
            ParameterView {
                location: ParameterLocation::Path,
                name: names[i],
                required: true,
                schema: schemas[i],
            },
    )
}

/// The path parameters that a handler declares by position take the names
/// of the placeholders of the path template, the first parameter that of
/// the first placeholder and so on, as long as the template has as many
/// placeholders as the handler has path parameters.  Where it has fewer,
/// the first parameter without a placeholder is reported.
pub proof fn lemma_positional_parameters_resolve(
    schemas: Seq<SchemaRefView>,
    names: Seq<Seq<char>>,
)
    ensures
        schemas.len() <= names.len() ==> resolved_parameters(
            positional_parameters(schemas),
            names,
        ) == Ok::<_, Seq<char>>(named_parameters(schemas, names)),
        schemas.len() > names.len() ==> resolved_parameters(positional_parameters(schemas), names)
            == Err::<Seq<ParameterView>, _>(placeholder_for(names.len())),
    decreases schemas.len(),
{
    let ps = positional_parameters(schemas);
    if schemas.len() == 0 {
        assert(named_parameters(schemas, names) =~= Seq::empty());
    } else {
        let fewer = schemas.drop_last();
        let last = (schemas.len() - 1) as nat;
        lemma_positional_parameters_resolve(fewer, names);
        assert(ps.drop_last() =~= positional_parameters(fewer));
        lemma_placeholder_ordinal(last);
        assert(ps.last().name == placeholder_for(last));
        if schemas.len() <= names.len() {
            assert(named_parameters(fewer, names).push(
                ParameterView { name: names[last as int], ..ps.last() },
            ) =~= named_parameters(schemas, names));
        }
    }
}

/// Naming parameters neither adds nor drops one.
pub proof fn lemma_resolved_parameters_length(ps: Seq<ParameterView>, names: Seq<Seq<char>>)
    ensures
        resolved_parameters(ps, names) matches Ok(named) ==> named.len() == ps.len(),
    decreases ps.len(),
{
    if ps.len() > 0 {
        lemma_resolved_parameters_length(ps.drop_last(), names);
    }
}

/// Where a path item has an operation for a method and an operation is
/// registered under its identifier, the registered operation takes its
/// place as a whole: identifier, body and responses are those of the
/// registered operation, and so are the parameters but for the names that
/// the path template gives.  Nothing of the operation that stood there
/// stays.
pub proof fn lemma_registered_operation_replaces_stub(
    stub: OperationView,
    ops: Seq<OperationDescriptionView>,
    path: Seq<char>,
    id: Seq<char>,
    registered: OperationView,
)
    requires
        stub.operation_id == Some(id),
        find_operation(ops, id) == Some(registered),
    ensures
        match replacement(Some(stub), ops, path) {
            Ok(merged) => merged is Some && resolved_operation(registered, path) == Ok::<
                _,
                AssemblyErrorView,
            >(merged->Some_0) && merged->Some_0.operation_id == registered.operation_id
                && merged->Some_0.request_body == registered.request_body
                && merged->Some_0.responses == registered.responses
                && merged->Some_0.parameters.len() == registered.parameters.len(),
            Err(e) => resolved_operation(registered, path) == Err::<OperationView, _>(e),
        },
{
    lemma_resolved_parameters_length(registered.parameters, path_parameters(path));
}

/// Where the merge of a path item succeeds, every method has its merged
/// operation: the operation registered under the identifier of the
/// operation that stood there takes its place as a whole, with the
/// parameter names of the path template; and an operation without a
/// registered one stays.  The merge fails just when that of some method
/// does.
pub proof fn lemma_merged_item_by_method(
    item: PathItemView,
    ops: Seq<OperationDescriptionView>,
    path: Seq<char>,
    method: HttpMethod,
)
    ensures
        merged_item(item, ops, path) matches Ok(merged) ==> merged.slot(method) == merged_slot(
            item,
            method,
            ops,
            path,
        ) && replacement(item.slot(method), ops, path) is Ok,
        merged_item(item, ops, path) is Err ==> exists|other: HttpMethod|
            replacement(item.slot(other), ops, path) == Err::<Option<OperationView>, _>(
                merged_item(item, ops, path)->Err_0,
            ),
{
    reveal_with_fuel(merge_error, 9);
    let order = methods_in_order();
    assert(order[method_index(method) as int] == method);
    if merged_item(item, ops, path) is Err {
        let e = merged_item(item, ops, path)->Err_0;
        let failing = choose|i: int|
            0 <= i < 8 && replacement(item.slot(order[i]), ops, path) == Err::<
                Option<OperationView>,
                _,
            >(e);
        assert(replacement(item.slot(order[failing]), ops, path) is Err);
    }
}

/// No operation of the path item has the identifier `id`.
pub open spec fn unnamed_in(item: PathItemView, id: Option<Seq<char>>) -> bool {
    id is Some ==> forall|method: HttpMethod|
        (#[trigger] item.slot(method)) matches Some(op) ==> op.operation_id != id
}

/// An operation that is registered, at whatever place among the others,
/// is found under its own identifier only.
pub proof fn lemma_find_operation_of_others(
    ops: Seq<OperationDescriptionView>,
    at: int,
    extra: OperationDescriptionView,
    id: Seq<char>,
)
    requires
        0 <= at <= ops.len(),
        extra.operation.operation_id != Some(id),
    ensures
        find_operation(ops.insert(at, extra), id) == find_operation(ops, id),
    decreases ops.len(),
{
    let more = ops.insert(at, extra);
    if at == ops.len() {
        assert(more.last() == extra);
        assert(more.drop_last() =~= ops);
    } else {
        assert(more.last() == ops.last());
        assert(more.drop_last() =~= ops.drop_last().insert(at, extra));
        lemma_find_operation_of_others(ops.drop_last(), at, extra, id);
    }
}

/// An operation whose identifier no operation of a path item has changes
/// nothing in the merge of that path item.
pub proof fn lemma_merged_item_without(
    item: PathItemView,
    ops: Seq<OperationDescriptionView>,
    at: int,
    extra: OperationDescriptionView,
    path: Seq<char>,
)
    requires
        0 <= at <= ops.len(),
        unnamed_in(item, extra.operation.operation_id),
    ensures
        merged_item(item, ops.insert(at, extra), path) == merged_item(item, ops, path),
{
    let more = ops.insert(at, extra);
    assert forall|method: HttpMethod|
        replacement(#[trigger] item.slot(method), more, path) == replacement(
            item.slot(method),
            ops,
            path,
        ) by {
        match item.slot(method) {
            Some(stub) => match stub.operation_id {
                Some(id) => {
                    lemma_find_operation_of_others(ops, at, extra, id);
                },
                None => {},
            },
            None => {},
        }
    }
    reveal_with_fuel(merge_error, 9);
    let order = methods_in_order();
    assert(order[0] == HttpMethod::Get && order[1] == HttpMethod::Put && order[2]
        == HttpMethod::Post && order[3] == HttpMethod::Delete && order[4] == HttpMethod::Options
        && order[5] == HttpMethod::Head && order[6] == HttpMethod::Patch && order[7]
        == HttpMethod::Trace);
}

} // verus!
