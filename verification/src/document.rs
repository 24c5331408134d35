//! The document: the path items of a service and its named schemas.

use crate::derive::{SchemaDescription, SchemaDescriptionView};
use crate::method::HttpMethod;
use crate::operation::{Operation, OperationView};
use vstd::prelude::*;

verus! {

/// The operations of one path, one for each method at most.
#[derive(Debug, PartialEq, Eq)]
pub struct PathItem {
    pub get: Option<Operation>,
    pub put: Option<Operation>,
    pub post: Option<Operation>,
    pub delete: Option<Operation>,
    pub options: Option<Operation>,
    pub head: Option<Operation>,
    pub patch: Option<Operation>,
    pub trace: Option<Operation>,
}

/// The mathematical value of a [`PathItem`].
pub struct PathItemView {
    pub get: Option<OperationView>,
    pub put: Option<OperationView>,
    pub post: Option<OperationView>,
    pub delete: Option<OperationView>,
    pub options: Option<OperationView>,
    pub head: Option<OperationView>,
    pub patch: Option<OperationView>,
    pub trace: Option<OperationView>,
}

/// The value of an operation that may be absent.
pub open spec fn optional_operation(op: Option<Operation>) -> Option<OperationView> {
    match op {
        Some(op) => Some(op@),
        None => None,
    }
}

impl PathItemView {
    /// The operation of a method.
    pub open spec fn slot(self, method: HttpMethod) -> Option<OperationView> {
        match method {
            HttpMethod::Get => self.get,
            HttpMethod::Put => self.put,
            HttpMethod::Post => self.post,
            HttpMethod::Delete => self.delete,
            HttpMethod::Options => self.options,
            HttpMethod::Head => self.head,
            HttpMethod::Patch => self.patch,
            HttpMethod::Trace => self.trace,
        }
    }

    /// The path item with the operation of one method replaced.
    pub open spec fn with_slot(self, method: HttpMethod, op: Option<OperationView>) -> PathItemView {
        match method {
            HttpMethod::Get => PathItemView { get: op, ..self },
            HttpMethod::Put => PathItemView { put: op, ..self },
            HttpMethod::Post => PathItemView { post: op, ..self },
            HttpMethod::Delete => PathItemView { delete: op, ..self },
            HttpMethod::Options => PathItemView { options: op, ..self },
            HttpMethod::Head => PathItemView { head: op, ..self },
            HttpMethod::Patch => PathItemView { patch: op, ..self },
            HttpMethod::Trace => PathItemView { trace: op, ..self },
        }
    }
}

/// The path item without operations.
pub open spec fn empty_path_item() -> PathItemView {
    PathItemView {
        get: None,
        put: None,
        post: None,
        delete: None,
        options: None,
        head: None,
        patch: None,
        trace: None,
    }
}

impl View for PathItem {
    type V = PathItemView;

    open spec fn view(&self) -> PathItemView {
        PathItemView {
            get: optional_operation(self.get),
            put: optional_operation(self.put),
            post: optional_operation(self.post),
            delete: optional_operation(self.delete),
            options: optional_operation(self.options),
            head: optional_operation(self.head),
            patch: optional_operation(self.patch),
            trace: optional_operation(self.trace),
        }
    }
}

/// Copies an operation that may be absent.
pub fn clone_operation(op: &Option<Operation>) -> (r: Option<Operation>)
    ensures
        optional_operation(r) == optional_operation(*op),
{
    match op {
        Some(op) => Some(op.clone()),
        None => None,
    }
}

impl Clone for PathItem {
    fn clone(&self) -> (r: PathItem)
        ensures
            r@ == self@,
    {
        PathItem {
            get: clone_operation(&self.get),
            put: clone_operation(&self.put),
            post: clone_operation(&self.post),
            delete: clone_operation(&self.delete),
            options: clone_operation(&self.options),
            head: clone_operation(&self.head),
            patch: clone_operation(&self.patch),
            trace: clone_operation(&self.trace),
        }
    }
}

impl Default for PathItem {
    fn default() -> (r: PathItem)
        ensures
            r@ == empty_path_item(),
    {
        PathItem {
            get: None,
            put: None,
            post: None,
            delete: None,
            options: None,
            head: None,
            patch: None,
            trace: None,
        }
    }
}

impl PathItem {
    /// The operation of a method.
    pub fn operation(&self, method: HttpMethod) -> (r: &Option<Operation>)
        ensures
            optional_operation(*r) == self@.slot(method),
    {
        match method {
            HttpMethod::Get => &self.get,
            HttpMethod::Put => &self.put,
            HttpMethod::Post => &self.post,
            HttpMethod::Delete => &self.delete,
            HttpMethod::Options => &self.options,
            HttpMethod::Head => &self.head,
            HttpMethod::Patch => &self.patch,
            HttpMethod::Trace => &self.trace,
        }
    }

    /// Replaces the operation of a method.
    pub fn set_operation(&mut self, method: HttpMethod, op: Option<Operation>)
        ensures
            final(self)@ == old(self)@.with_slot(method, optional_operation(op)),
    {
        match method {
            HttpMethod::Get => {
                self.get = op;
            },
            HttpMethod::Put => {
                self.put = op;
            },
            HttpMethod::Post => {
                self.post = op;
            },
            HttpMethod::Delete => {
                self.delete = op;
            },
            HttpMethod::Options => {
                self.options = op;
            },
            HttpMethod::Head => {
                self.head = op;
            },
            HttpMethod::Patch => {
                self.patch = op;
            },
            HttpMethod::Trace => {
                self.trace = op;
            },
        }
    }
}

/// The path item of one path template.
#[derive(Debug, PartialEq, Eq)]
pub struct PathDescription {
    pub path: String,
    pub path_item: PathItem,
}

/// The mathematical value of a [`PathDescription`].
pub struct PathDescriptionView {
    pub path: Seq<char>,
    pub path_item: PathItemView,
}

impl View for PathDescription {
    type V = PathDescriptionView;

    open spec fn view(&self) -> PathDescriptionView {
        PathDescriptionView { path: self.path@, path_item: self.path_item@ }
    }
}

impl Clone for PathDescription {
    fn clone(&self) -> (r: PathDescription)
        ensures
            r@ == self@,
    {
        PathDescription { path: self.path.clone(), path_item: self.path_item.clone() }
    }
}

/// The values of a list of path items.
pub open spec fn path_views(v: Seq<PathDescription>) -> Seq<PathDescriptionView> {
    Seq::new(v.len(), |i: int| v[i]@)
}

/// The values of a list of named schemas.
pub open spec fn schema_views(v: Seq<SchemaDescription>) -> Seq<SchemaDescriptionView> {
    Seq::new(v.len(), |i: int| v[i]@)
}

/// The description of a service: the version of the format, the path items
/// by path template, and the named schemas by name.  No path template and
/// no name is listed twice.
#[derive(Debug, PartialEq, Eq)]
pub struct Document {
    pub openapi: String,
    pub paths: Vec<PathDescription>,
    pub schemas: Vec<SchemaDescription>,
}

/// The mathematical value of a [`Document`].
pub struct DocumentView {
    pub openapi: Seq<char>,
    pub paths: Seq<PathDescriptionView>,
    pub schemas: Seq<SchemaDescriptionView>,
}

impl View for Document {
    type V = DocumentView;

    open spec fn view(&self) -> DocumentView {
        DocumentView {
            openapi: self.openapi@,
            paths: path_views(self.paths@),
            schemas: schema_views(self.schemas@),
        }
    }
}

/// Copies a list of path items.
pub fn clone_paths(v: &Vec<PathDescription>) -> (r: Vec<PathDescription>)
    ensures
        path_views(r@) == path_views(v@),
{
    let mut out: Vec<PathDescription> = Vec::new();
    let mut i: usize = 0;
    while i < v.len()
        invariant
            i <= v.len(),
            out.len() == i,
            forall|j: int| 0 <= j < i ==> out[j]@ == v[j]@,
        decreases v.len() - i,
    {
        out.push(v[i].clone());
        i += 1;
    }
    assert(path_views(out@) =~= path_views(v@));
    out
}

/// Copies a list of named schemas.
pub fn clone_schemas(v: &Vec<SchemaDescription>) -> (r: Vec<SchemaDescription>)
    ensures
        schema_views(r@) == schema_views(v@),
{
    let mut out: Vec<SchemaDescription> = Vec::new();
    let mut i: usize = 0;
    while i < v.len()
        invariant
            i <= v.len(),
            out.len() == i,
            forall|j: int| 0 <= j < i ==> out[j]@ == v[j]@,
        decreases v.len() - i,
    {
        out.push(v[i].clone());
        i += 1;
    }
    assert(schema_views(out@) =~= schema_views(v@));
    out
}

impl Clone for Document {
    fn clone(&self) -> (r: Document)
        ensures
            r@ == self@,
    {
        Document {
            openapi: self.openapi.clone(),
            paths: clone_paths(&self.paths),
            schemas: clone_schemas(&self.schemas),
        }
    }
}

/// The paths of a list are all different.
pub open spec fn distinct_paths(paths: Seq<PathDescriptionView>) -> bool {
    forall|i: int, j: int|
        0 <= i < j < paths.len() ==> (#[trigger] paths[i]).path != (#[trigger] paths[j]).path
}

/// The names of a list of schemas are all different.
pub open spec fn distinct_schema_names(schemas: Seq<SchemaDescriptionView>) -> bool {
    forall|i: int, j: int|
        0 <= i < j < schemas.len() ==> (#[trigger] schemas[i]).name != (#[trigger] schemas[j]).name
}

impl DocumentView {
    /// No path template and no schema name is listed twice.
    pub open spec fn well_formed(self) -> bool {
        distinct_paths(self.paths) && distinct_schema_names(self.schemas)
    }
}

} // verus!
