//! The assembler: a registry together with the document that was built from
//! it.  The document is built once, at the first request; every later
//! request gets what the first one got.

use crate::assemble::{assembled, AssemblyError, AssemblyErrorView, openapi};
use crate::derive::SchemaDescription;
use crate::document::{Document, DocumentView, PathDescription};
use crate::handler::OperationDescription;
use crate::registry::{Registry, RegistryView};
use vstd::prelude::*;

verus! {

/// The outcome of building a document, as a mathematical value.
pub open spec fn outcome_view(outcome: Result<Document, AssemblyError>) -> Result<
    DocumentView,
    AssemblyErrorView,
> {
    match outcome {
        Ok(document) => Ok(document@),
        Err(error) => Err(error@),
    }
}

/// A registry and, once it was asked for, the outcome of building its
/// document.
#[derive(Debug, PartialEq, Eq)]
pub struct Assembler {
    registry: Registry,
    built: Option<Result<Document, AssemblyError>>,
}

/// The mathematical value of an [`Assembler`].  It is in one of two states:
/// nothing is built yet (`built` is `None`), or the outcome is there.
pub struct AssemblerView {
    pub registry: RegistryView,
    pub built: Option<Result<DocumentView, AssemblyErrorView>>,
}

impl AssemblerView {
    /// What a request for the document gets in this state: the outcome
    /// that is there, else the document of the registry as it is now.
    pub open spec fn outcome(self) -> Result<DocumentView, AssemblyErrorView> {
        match self.built {
            Some(outcome) => outcome,
            None => assembled(self.registry),
        }
    }

    /// The state after a request for the document.
    pub open spec fn after_build(self) -> AssemblerView {
        AssemblerView { built: Some(self.outcome()), ..self }
    }

    /// The state after something was registered: the registry is `registry`
    /// and what was built stays.
    pub open spec fn after_registration(self, registry: RegistryView) -> AssemblerView {
        AssemblerView { registry, ..self }
    }
}

impl View for Assembler {
    type V = AssemblerView;

    closed spec fn view(&self) -> AssemblerView {
        AssemblerView {
            registry: self.registry@,
            built: match self.built {
                Some(outcome) => Some(outcome_view(outcome)),
                None => None,
            },
        }
    }
}

/// Copies the outcome of building a document.
pub fn clone_outcome(outcome: &Result<Document, AssemblyError>) -> (r: Result<
    Document,
    AssemblyError,
>)
    ensures
        outcome_view(r) == outcome_view(*outcome),
{
    match outcome {
        Ok(document) => Ok(document.clone()),
        Err(error) => Err(error.clone()),
    }
}

impl Assembler {
    /// An assembler for `registry` that has built nothing yet.
    pub fn new(registry: Registry) -> (r: Assembler)
        ensures
            r@ == (AssemblerView { registry: registry@, built: None }),
    {
        Assembler { registry, built: None }
    }

    /// Whether the document was asked for before.
    pub fn is_built(&self) -> (r: bool)
        ensures
            r == self@.built is Some,
    {
        self.built.is_some()
    }

    /// Adds a named schema to the registry.  What was built stays as it is.
    pub fn register_schema(&mut self, schema: SchemaDescription)
        ensures
            final(self)@ == old(self)@.after_registration(
                RegistryView {
                    schemas: old(self)@.registry.schemas.push(schema@),
                    ..old(self)@.registry
                },
            ),
    {
        self.registry.register_schema(schema);
    }

    /// Adds a path item to the registry.  What was built stays as it is.
    pub fn register_path(&mut self, path: PathDescription)
        ensures
            final(self)@ == old(self)@.after_registration(
                RegistryView { paths: old(self)@.registry.paths.push(path@), ..old(self)@.registry },
            ),
    {
        self.registry.register_path(path);
    }

    /// Adds the operation of a handler to the registry.  What was built
    /// stays as it is.
    pub fn register_operation(&mut self, operation: OperationDescription)
        ensures
            final(self)@ == old(self)@.after_registration(
                RegistryView {
                    operations: old(self)@.registry.operations.push(operation@),
                    ..old(self)@.registry
                },
            ),
    {
        self.registry.register_operation(operation);
    }

    /// The document of the registry.  The first call builds it from the
    /// registry as it is then and keeps the outcome; every later call gives
    /// a copy of that outcome, whatever was registered in between.
    pub fn build_document(&mut self) -> (r: Result<Document, AssemblyError>)
        ensures
            outcome_view(r) == old(self)@.outcome(),
            final(self)@ == old(self)@.after_build(),
    {
        if let Some(outcome) = &self.built {
            return clone_outcome(outcome);
        }
        let outcome = openapi(&self.registry);
        let copy = clone_outcome(&outcome);
        self.built = Some(outcome);
        copy
    }
}

/// A second request for the document gets what the first one got, and so
/// does every later one: once built, the outcome does not change, whatever
/// is registered afterwards.
pub proof fn lemma_built_once(state: AssemblerView, later: RegistryView)
    ensures
        state.after_build().outcome() == state.outcome(),
        state.after_build().after_build() == state.after_build(),
        state.after_build().after_registration(later).outcome() == state.outcome(),
        state.after_build().after_registration(later).after_build().built
            == state.after_build().built,
{
}

} // verus!
