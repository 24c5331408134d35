//! The registry: what was declared of a service, in the order in which it
//! was registered.  Contributions are added and read, never changed or
//! taken out.

use crate::derive::{SchemaDescription, SchemaDescriptionView};
use crate::document::{path_views, PathDescription, PathDescriptionView, schema_views};
use crate::handler::{OperationDescription, OperationDescriptionView};
use vstd::prelude::*;

verus! {

/// The values of a list of operation descriptions.
pub open spec fn operation_views(v: Seq<OperationDescription>) -> Seq<OperationDescriptionView> {
    Seq::new(v.len(), |i: int| v[i]@)
}

/// The contributions to a document: named schemas, path items and the
/// operations of handlers.
#[derive(Debug, PartialEq, Eq)]
pub struct Registry {
    schemas: Vec<SchemaDescription>,
    paths: Vec<PathDescription>,
    operations: Vec<OperationDescription>,
}

/// The mathematical value of a [`Registry`]: the contributions of each kind
/// in the order of registration.
pub struct RegistryView {
    pub schemas: Seq<SchemaDescriptionView>,
    pub paths: Seq<PathDescriptionView>,
    pub operations: Seq<OperationDescriptionView>,
}

/// The registry without contributions.
pub open spec fn empty_registry() -> RegistryView {
    RegistryView { schemas: Seq::empty(), paths: Seq::empty(), operations: Seq::empty() }
}

impl View for Registry {
    type V = RegistryView;

    closed spec fn view(&self) -> RegistryView {
        RegistryView {
            schemas: schema_views(self.schemas@),
            paths: path_views(self.paths@),
            operations: operation_views(self.operations@),
        }
    }
}

impl Registry {
    /// A registry without contributions.
    pub fn new() -> (r: Registry)
        ensures
            r@ == empty_registry(),
    {
        let r = Registry { schemas: Vec::new(), paths: Vec::new(), operations: Vec::new() };
        assert(schema_views(r.schemas@) =~= Seq::empty());
        assert(path_views(r.paths@) =~= Seq::empty());
        assert(operation_views(r.operations@) =~= Seq::empty());
        r
    }

    /// Adds a named schema after those registered before.
    pub fn register_schema(&mut self, schema: SchemaDescription)
        ensures
            final(self)@ == (RegistryView {
                schemas: old(self)@.schemas.push(schema@),
                ..old(self)@
            }),
    {
        self.schemas.push(schema);
        assert(schema_views(self.schemas@) =~= schema_views(old(self).schemas@).push(schema@));
    }

    /// Adds a path item after those registered before.
    pub fn register_path(&mut self, path: PathDescription)
        ensures
            final(self)@ == (RegistryView { paths: old(self)@.paths.push(path@), ..old(self)@ }),
    {
        self.paths.push(path);
        assert(path_views(self.paths@) =~= path_views(old(self).paths@).push(path@));
    }

    /// Adds the operation of a handler after those registered before.
    pub fn register_operation(&mut self, operation: OperationDescription)
        ensures
            final(self)@ == (RegistryView {
                operations: old(self)@.operations.push(operation@),
                ..old(self)@
            }),
    {
        self.operations.push(operation);
        assert(operation_views(self.operations@) =~= operation_views(old(self).operations@).push(
            operation@,
        ));
    }

    /// The named schemas in the order of registration.
    pub fn schemas(&self) -> (r: &Vec<SchemaDescription>)
        ensures
            schema_views(r@) == self@.schemas,
    {
        &self.schemas
    }

    /// The path items in the order of registration.
    pub fn paths(&self) -> (r: &Vec<PathDescription>)
        ensures
            path_views(r@) == self@.paths,
    {
        &self.paths
    }

    /// The operations of handlers in the order of registration.
    pub fn operations(&self) -> (r: &Vec<OperationDescription>)
        ensures
            operation_views(r@) == self@.operations,
    {
        &self.operations
    }
}

} // verus!
