//! Putting the document together: the path items of the registry, each
//! with the registered operations merged into it, and the named schemas.

use crate::derive::{SchemaDescription, SchemaDescriptionView};
use crate::document::{
    distinct_paths, distinct_schema_names, Document, DocumentView, path_views, PathDescription,
    PathDescriptionView, schema_views,
};
use crate::handler::OperationDescriptionView;
use crate::merge::{lemma_merged_item_without, merge_item, merged_item, unnamed_in};
use crate::operation::optional_text;
use crate::registry::{operation_views, Registry, RegistryView};
use vstd::prelude::*;
use vstd::string::*;

verus! {

/// Why no document can be put together.
#[derive(Debug, PartialEq, Eq)]
pub enum AssemblyError {
    /// An operation at `path` has a path parameter with the positional
    /// name `parameter`, and the path template has no placeholder at that
    /// position.
    ParameterOutOfRange { path: String, operation_id: Option<String>, parameter: String },
    /// Two schemas are registered under one name.
    DuplicateSchema { name: String },
}

/// The mathematical value of an [`AssemblyError`].
pub enum AssemblyErrorView {
    ParameterOutOfRange { path: Seq<char>, operation_id: Option<Seq<char>>, parameter: Seq<char> },
    DuplicateSchema { name: Seq<char> },
}

impl View for AssemblyError {
    type V = AssemblyErrorView;

    open spec fn view(&self) -> AssemblyErrorView {
        match *self {
            AssemblyError::ParameterOutOfRange {
                path,
                operation_id,
                parameter,
            } => AssemblyErrorView::ParameterOutOfRange {
                path: path@,
                operation_id: optional_text(operation_id),
                parameter: parameter@,
            },
            AssemblyError::DuplicateSchema { name } => AssemblyErrorView::DuplicateSchema {
                name: name@,
            },
        }
    }
}

impl Clone for AssemblyError {
    fn clone(&self) -> (r: AssemblyError)
        ensures
            r@ == self@,
    {
        match self {
            AssemblyError::ParameterOutOfRange {
                path,
                operation_id,
                parameter,
            } => AssemblyError::ParameterOutOfRange {
                path: path.clone(),
                operation_id: match operation_id {
                    Some(id) => Some(id.clone()),
                    None => None,
                },
                parameter: parameter.clone(),
            },
            AssemblyError::DuplicateSchema { name } => AssemblyError::DuplicateSchema {
                name: name.clone(),
            },
        }
    }
}

/// What an error says, in words.  A parameter out of range is reported
/// with its path and, where the operation has one, the identifier of the
/// operation.
pub open spec fn assembly_error_text(error: AssemblyErrorView) -> Seq<char> {
    match error {
        AssemblyErrorView::ParameterOutOfRange { path, operation_id, parameter } => "path "@ + path
            + " has no placeholder for parameter "@ + parameter + match operation_id {
            Some(id) => " of operation "@ + id,
            None => Seq::empty(),
        },
        AssemblyErrorView::DuplicateSchema { name } => "two schemas are named "@ + name,
    }
}

impl AssemblyError {
    /// What the error says, in words.
    pub fn message(&self) -> (r: String)
        ensures
            r@ == assembly_error_text(self@),
    {
        match self {
            AssemblyError::ParameterOutOfRange { path, operation_id, parameter } => {
                let mut text = String::from_str("path ");
                text.append(path.as_str());
                text.append(" has no placeholder for parameter ");
                text.append(parameter.as_str());
                match operation_id {
                    Some(id) => {
                        text.append(" of operation ");
                        text.append(id.as_str());
                    },
                    None => {
                        assert(text@ + Seq::<char>::empty() =~= text@);
                    },
                }
                text
            },
            AssemblyError::DuplicateSchema { name } => {
                let mut text = String::from_str("two schemas are named ");
                text.append(name.as_str());
                text
            },
        }
    }
}

/// The position of the first path item at `path`, or the length of the
/// list if there is none.
pub open spec fn path_position(paths: Seq<PathDescriptionView>, path: Seq<char>) -> nat
    decreases paths.len(),
{
    if paths.len() == 0 || paths[0].path == path {
        0
    } else {
        1 + path_position(paths.drop_first(), path)
    }
}

/// The list with `entry` as the path item of its path: in the place of the
/// one that the list has for that path, else at the end.
pub open spec fn with_path(paths: Seq<PathDescriptionView>, entry: PathDescriptionView) -> Seq<
    PathDescriptionView,
> {
    let k = path_position(paths, entry.path);
    if k < paths.len() {
        paths.update(k as int, entry)
    } else {
        paths.push(entry)
    }
}

/// The path items of the document: each registered path item with the
/// registered operations merged into it, in the order of registration; or
/// the first error met.
pub open spec fn assembled_paths(
    contributions: Seq<PathDescriptionView>,
    ops: Seq<OperationDescriptionView>,
) -> Result<Seq<PathDescriptionView>, AssemblyErrorView>
    decreases contributions.len(),
{
    if contributions.len() == 0 {
        Ok(Seq::empty())
    } else {
        let last = contributions.last();
        match assembled_paths(contributions.drop_last(), ops) {
            Err(e) => Err(e),
            Ok(paths) => match merged_item(last.path_item, ops, last.path) {
                Err(e) => Err(e),
                Ok(item) => Ok(
                    with_path(paths, PathDescriptionView { path: last.path, path_item: item }),
                ),
            },
        }
    }
}

/// Some schema of the list is called `name`.
pub open spec fn has_schema(schemas: Seq<SchemaDescriptionView>, name: Seq<char>) -> bool {
    exists|j: int| 0 <= j < schemas.len() && (#[trigger] schemas[j]).name == name
}

/// The named schemas of the document: the registered ones in the order of
/// registration; or an error for the first whose name was used before.
pub open spec fn assembled_schemas(contributions: Seq<SchemaDescriptionView>) -> Result<
    Seq<SchemaDescriptionView>,
    AssemblyErrorView,
>
    decreases contributions.len(),
{
    if contributions.len() == 0 {
        Ok(Seq::empty())
    } else {
        match assembled_schemas(contributions.drop_last()) {
            Err(e) => Err(e),
            Ok(schemas) => if has_schema(schemas, contributions.last().name) {
                Err(AssemblyErrorView::DuplicateSchema { name: contributions.last().name })
            } else {
                Ok(schemas.push(contributions.last()))
            },
        }
    }
}

/// The document of a registry, or why it has none.  The path items are
/// put together first, then the schemas.
pub open spec fn assembled(registry: RegistryView) -> Result<DocumentView, AssemblyErrorView> {
    match assembled_paths(registry.paths, registry.operations) {
        Err(e) => Err(e),
        Ok(paths) => match assembled_schemas(registry.schemas) {
            Err(e) => Err(e),
            Ok(schemas) => Ok(DocumentView { openapi: "3.0.3"@, paths, schemas }),
        },
    }
}

/// The first path item at `path` is where a scan from the left finds it.
pub proof fn lemma_path_position_is(paths: Seq<PathDescriptionView>, path: Seq<char>, k: int)
    requires
        0 <= k <= paths.len(),
        forall|i: int| 0 <= i < k ==> (#[trigger] paths[i]).path != path,
        k < paths.len() ==> paths[k].path == path,
    ensures
        path_position(paths, path) == k,
    decreases paths.len(),
{
    if paths.len() == 0 || paths[0].path == path {
    } else {
        let rest = paths.drop_first();
        assert forall|i: int| 0 <= i < k - 1 implies (#[trigger] rest[i]).path != path by {
            assert(rest[i] == paths[i + 1]);
        }
        lemma_path_position_is(rest, path, k - 1);
    }
}

/// Where a path is looked for, no earlier path item has it.
pub proof fn lemma_path_position_first(paths: Seq<PathDescriptionView>, path: Seq<char>)
    ensures
        path_position(paths, path) <= paths.len(),
        forall|i: int| 0 <= i < path_position(paths, path) ==> (#[trigger] paths[i]).path != path,
        path_position(paths, path) < paths.len() ==> paths[path_position(paths, path) as int].path
            == path,
    decreases paths.len(),
{
    if paths.len() == 0 || paths[0].path == path {
    } else {
        let rest = paths.drop_first();
        lemma_path_position_first(rest, path);
        assert forall|i: int| 0 <= i < path_position(paths, path) implies (
        #[trigger] paths[i]).path != path by {
            if i > 0 {
                assert(paths[i] == rest[i - 1]);
            }
        }
    }
}

/// Putting a path item into a list without repeated paths leaves it
/// without repeated paths.
pub proof fn lemma_with_path_distinct(paths: Seq<PathDescriptionView>, entry: PathDescriptionView)
    requires
        distinct_paths(paths),
    ensures
        distinct_paths(with_path(paths, entry)),
{
    lemma_path_position_first(paths, entry.path);
    let k = path_position(paths, entry.path);
    let after = with_path(paths, entry);
    assert forall|i: int, j: int| 0 <= i < j < after.len() implies (#[trigger] after[i]).path != (
    #[trigger] after[j]).path by {
        if k < paths.len() {
            assert(after[i].path == paths[i].path);
            assert(after[j].path == paths[j].path);
        } else {
            if j < paths.len() {
                assert(after[i] == paths[i] && after[j] == paths[j]);
            } else {
                assert(after[i] == paths[i]);
            }
        }
    }
}

/// The path items of a document have no repeated paths.
pub proof fn lemma_assembled_paths_distinct(
    contributions: Seq<PathDescriptionView>,
    ops: Seq<OperationDescriptionView>,
)
    ensures
        assembled_paths(contributions, ops) matches Ok(paths) ==> distinct_paths(paths),
    decreases contributions.len(),
{
    if contributions.len() > 0 {
        let last = contributions.last();
        lemma_assembled_paths_distinct(contributions.drop_last(), ops);
        match assembled_paths(contributions.drop_last(), ops) {
            Err(e) => {},
            Ok(paths) => match merged_item(last.path_item, ops, last.path) {
                Err(e) => {},
                Ok(item) => {
                    lemma_with_path_distinct(
                        paths,
                        PathDescriptionView { path: last.path, path_item: item },
                    );
                },
            },
        }
    }
}

/// The named schemas of a document are the registered ones, and no name
/// is used twice.
pub proof fn lemma_assembled_schemas_distinct(contributions: Seq<SchemaDescriptionView>)
    ensures
        assembled_schemas(contributions) matches Ok(schemas) ==> schemas == contributions
            && distinct_schema_names(schemas),
        assembled_schemas(contributions) is Ok <==> distinct_schema_names(contributions),
    decreases contributions.len(),
{
    if contributions.len() > 0 {
        let before = contributions.drop_last();
        lemma_assembled_schemas_distinct(before);
        match assembled_schemas(before) {
            Err(e) => {
                if distinct_schema_names(contributions) {
                    assert forall|i: int, j: int| 0 <= i < j < before.len() implies (
                    #[trigger] before[i]).name != (#[trigger] before[j]).name by {
                        assert(before[i] == contributions[i] && before[j] == contributions[j]);
                    }
                }
            },
            Ok(schemas) => {
                let last = contributions.last();
                if has_schema(schemas, last.name) {
                    let j = choose|j: int|
                        0 <= j < schemas.len() && (#[trigger] schemas[j]).name == last.name;
                    assert(contributions[j] == schemas[j]);
                    assert(contributions[contributions.len() - 1] == last);
                } else {
                    assert(schemas.push(last) =~= contributions);
                    assert forall|i: int, j: int| 0 <= i < j < contributions.len() implies (
                    #[trigger] contributions[i]).name != (#[trigger] contributions[j]).name by {
                        if j < schemas.len() {
                            assert(contributions[i] == schemas[i] && contributions[j]
                                == schemas[j]);
                        } else {
                            assert(contributions[i] == schemas[i]);
                        }
                    }
                }
            },
        }
    } else {
        assert(assembled_schemas(contributions)->Ok_0 =~= contributions);
    }
}

/// The only error of listing schemas is a name that is used twice.
pub proof fn lemma_assembled_schemas_error(contributions: Seq<SchemaDescriptionView>)
    ensures
        assembled_schemas(contributions) matches Err(e) ==> e is DuplicateSchema && has_schema(
            contributions,
            e->name,
        ),
    decreases contributions.len(),
{
    if contributions.len() > 0 {
        let before = contributions.drop_last();
        lemma_assembled_schemas_error(before);
        lemma_assembled_schemas_distinct(before);
        match assembled_schemas(before) {
            Err(e) => {
                let j = choose|j: int| 0 <= j < before.len() && (#[trigger] before[j]).name == e->name;
                assert(contributions[j] == before[j]);
            },
            Ok(schemas) => {
                if has_schema(schemas, contributions.last().name) {
                    assert(contributions[contributions.len() - 1].name == contributions.last().name);
                }
            },
        }
    }
}

/// An error among the first path items is the error of them all.
pub proof fn lemma_assembled_paths_error_stays(
    contributions: Seq<PathDescriptionView>,
    ops: Seq<OperationDescriptionView>,
    n: int,
)
    requires
        0 <= n <= contributions.len(),
    ensures
        assembled_paths(contributions.take(n), ops) is Err ==> assembled_paths(contributions, ops)
            == assembled_paths(contributions.take(n), ops),
    decreases contributions.len() - n,
{
    if n < contributions.len() {
        lemma_assembled_paths_error_stays(contributions, ops, n + 1);
        assert(contributions.take(n + 1).drop_last() =~= contributions.take(n));
    } else {
        assert(contributions.take(n) =~= contributions);
    }
}

/// An error among the first schemas is the error of them all.
pub proof fn lemma_assembled_schemas_error_stays(contributions: Seq<SchemaDescriptionView>, n: int)
    requires
        0 <= n <= contributions.len(),
    ensures
        assembled_schemas(contributions.take(n)) is Err ==> assembled_schemas(contributions)
            == assembled_schemas(contributions.take(n)),
    decreases contributions.len() - n,
{
    if n < contributions.len() {
        lemma_assembled_schemas_error_stays(contributions, n + 1);
        assert(contributions.take(n + 1).drop_last() =~= contributions.take(n));
    } else {
        assert(contributions.take(n) =~= contributions);
    }
}

/// The position of the first path item at `path`, or the length of the
/// list if there is none.
pub fn find_path(paths: &Vec<PathDescription>, path: &String) -> (r: usize)
    ensures
        r == path_position(path_views(paths@), path@),
        r <= paths.len(),
{
    let ghost views = path_views(paths@);
    let mut i: usize = 0;
    while i < paths.len()
        invariant
            i <= paths.len(),
            views == path_views(paths@),
            forall|j: int| 0 <= j < i ==> (#[trigger] views[j]).path != path@,
        decreases paths.len() - i,
    {
        if paths[i].path == *path {
            proof {
                assert(views[i as int].path == path@);
                lemma_path_position_is(views, path@, i as int);
            }
            return i;
        }
        assert(views[i as int].path != path@);
        i += 1;
    }
    proof {
        lemma_path_position_is(views, path@, i as int);
    }
    i
}

/// Puts `entry` into the list as the path item of its path.
pub fn insert_path(paths: &mut Vec<PathDescription>, entry: PathDescription)
    ensures
        path_views(final(paths)@) == with_path(path_views(old(paths)@), entry@),
        distinct_paths(path_views(old(paths)@)) ==> distinct_paths(path_views(final(paths)@)),
{
    let ghost before = path_views(paths@);
    proof {
        if distinct_paths(before) {
            lemma_with_path_distinct(before, entry@);
        }
    }
    let mut i: usize = 0;
    while i < paths.len()
        invariant
            i <= paths.len(),
            *paths == *old(paths),
            before == path_views(paths@),
            forall|j: int| 0 <= j < i ==> (#[trigger] before[j]).path != entry.path@,
        decreases paths.len() - i,
    {
        if paths[i].path == entry.path {
            proof {
                assert(before[i as int].path == entry.path@);
                lemma_path_position_is(before, entry.path@, i as int);
            }
            paths.set(i, entry);
            assert(path_views(paths@) =~= before.update(i as int, entry@));
            return ;
        }
        assert(before[i as int].path != entry.path@);
        i += 1;
    }
    proof {
        lemma_path_position_is(before, entry.path@, i as int);
    }
    paths.push(entry);
    assert(path_views(paths@) =~= before.push(entry@));
}

/// Whether a schema of the list is called `name`.
pub fn contains_schema(schemas: &Vec<SchemaDescription>, name: &String) -> (r: bool)
    ensures
        r == has_schema(schema_views(schemas@), name@),
{
    let mut i: usize = 0;
    while i < schemas.len()
        invariant
            i <= schemas.len(),
            forall|j: int| 0 <= j < i ==> schemas[j].name@ != name@,
        decreases schemas.len() - i,
    {
        if schemas[i].name == *name {
            assert(schema_views(schemas@)[i as int].name == name@);
            return true;
        }
        i += 1;
    }
    assert forall|j: int| 0 <= j < schema_views(schemas@).len() implies (#[trigger] schema_views(
        schemas@,
    )[j]).name != name@ by {
        assert(schema_views(schemas@)[j].name == schemas[j].name@);
    }
    false
}

/// Puts together the document of a registry.
///
/// For each registered path item, the path item with the registered
/// operations merged into it is listed under its path, in the place of an
/// earlier path item for the same path if there is one.  Each
/// registered schema is listed under its name.  The version of the format
/// is `3.0.3`.  A path parameter whose position the path template does not
/// have, and a schema name that is registered twice, are errors.
pub fn openapi(registry: &Registry) -> (r: Result<Document, AssemblyError>)
    ensures
        match assembled(registry@) {
            Ok(d) => r is Ok && r->Ok_0@ == d,
            Err(e) => r is Err && r->Err_0@ == e,
        },
        r matches Ok(d) ==> d@.well_formed(),
{
    let contributions = registry.paths();
    let handler_ops = registry.operations();
    let ghost ops = operation_views(handler_ops@);
    let ghost all = path_views(contributions@);
    let mut paths: Vec<PathDescription> = Vec::new();
    let mut i: usize = 0;
    proof {
        assert(all.take(0) =~= Seq::empty());
        assert(path_views(paths@) =~= Seq::empty());
    }
    while i < contributions.len()
        invariant
            i <= contributions.len(),
            ops == operation_views(handler_ops@),
            all == path_views(contributions@),
            all == registry@.paths,
            ops == registry@.operations,
            assembled_paths(all.take(i as int), ops) == Ok::<_, AssemblyErrorView>(
                path_views(paths@),
            ),
        decreases contributions.len() - i,
    {
        let contribution = &contributions[i];
        proof {
            assert(all.take(i + 1).drop_last() =~= all.take(i as int));
            assert(all.take(i + 1).last() == contribution@);
            lemma_assembled_paths_error_stays(all, ops, i + 1);
        }
        let item = match merge_item(&contribution.path_item, handler_ops, contribution.path.as_str()) {
            Err(e) => {
                return Err(e);
            },
            Ok(item) => item,
        };
        insert_path(&mut paths, PathDescription { path: contribution.path.clone(), path_item: item });
        i += 1;
    }
    let declared = registry.schemas();
    let ghost names = schema_views(declared@);
    let mut schemas: Vec<SchemaDescription> = Vec::new();
    let mut j: usize = 0;
    proof {
        assert(all.take(i as int) =~= all);
        assert(names.take(0) =~= Seq::empty());
        assert(schema_views(schemas@) =~= Seq::empty());
    }
    while j < declared.len()
        invariant
            j <= declared.len(),
            names == schema_views(declared@),
            names == registry@.schemas,
            assembled_paths(registry@.paths, registry@.operations) is Ok,
            assembled_schemas(names.take(j as int)) == Ok::<_, AssemblyErrorView>(
                schema_views(schemas@),
            ),
        decreases declared.len() - j,
    {
        let ghost before = schema_views(schemas@);
        proof {
            assert(names.take(j + 1).drop_last() =~= names.take(j as int));
            assert(names.take(j + 1).last() == declared[j as int]@);
            lemma_assembled_schemas_error_stays(names, j + 1);
        }
        if contains_schema(&schemas, &declared[j].name) {
            return Err(AssemblyError::DuplicateSchema { name: declared[j].name.clone() });
        }
        let copy = declared[j].clone();
        schemas.push(copy);
        assert(schema_views(schemas@) =~= before.push(copy@));
        j += 1;
    }
    proof {
        assert(names.take(j as int) =~= names);
        lemma_assembled_paths_distinct(all, ops);
        lemma_assembled_schemas_distinct(names);
    }
    Ok(Document { openapi: String::from_str("3.0.3"), paths, schemas })
}

/// Two schemas registered under one name make the registry have no
/// document: where all path items can be put together, the outcome is the
/// error that names a schema name used twice.  Neither schema is dropped
/// in silence.
pub proof fn lemma_duplicate_schema_is_an_error(registry: RegistryView, i: int, j: int)
    requires
        0 <= i < j < registry.schemas.len(),
        registry.schemas[i].name == registry.schemas[j].name,
    ensures
        assembled(registry) is Err,
        assembled_paths(registry.paths, registry.operations) is Ok ==> assembled(
            registry,
        )->Err_0 is DuplicateSchema,
{
    lemma_assembled_schemas_distinct(registry.schemas);
    lemma_assembled_schemas_error(registry.schemas);
}

/// An operation that no registered path item names changes nothing: the
/// document of a registry is the same with it, at whatever place among the
/// registered operations, as without it.  So is an operation without an
/// identifier.
pub proof fn lemma_unnamed_operation_changes_nothing(
    registry: RegistryView,
    at: int,
    extra: OperationDescriptionView,
)
    requires
        0 <= at <= registry.operations.len(),
        forall|i: int|
            0 <= i < registry.paths.len() ==> unnamed_in(
                (#[trigger] registry.paths[i]).path_item,
                extra.operation.operation_id,
            ),
    ensures
        assembled(RegistryView { operations: registry.operations.insert(at, extra), ..registry })
            == assembled(registry),
{
    lemma_assembled_paths_without(registry.paths, registry.operations, at, extra);
}

/// An operation that none of the path items names changes nothing in their
/// assembly.
pub proof fn lemma_assembled_paths_without(
    contributions: Seq<PathDescriptionView>,
    ops: Seq<OperationDescriptionView>,
    at: int,
    extra: OperationDescriptionView,
)
    requires
        0 <= at <= ops.len(),
        forall|i: int|
            0 <= i < contributions.len() ==> unnamed_in(
                (#[trigger] contributions[i]).path_item,
                extra.operation.operation_id,
            ),
    ensures
        assembled_paths(contributions, ops.insert(at, extra)) == assembled_paths(contributions, ops),
    decreases contributions.len(),
{
    if contributions.len() > 0 {
        let fewer = contributions.drop_last();
        let last = contributions.last();
        assert forall|i: int| 0 <= i < fewer.len() implies unnamed_in(
            (#[trigger] fewer[i]).path_item,
            extra.operation.operation_id,
        ) by {
            assert(fewer[i] == contributions[i]);
        }
        lemma_assembled_paths_without(fewer, ops, at, extra);
        assert(last == contributions[contributions.len() - 1]);
        lemma_merged_item_without(last.path_item, ops, at, extra, last.path);
    }
}

} // verus!
