//! Handlers that say themselves what their operation is, or that it is not
//! to be described.

use crate::app::{OperationHandler, OperationHandlerView};
use crate::operation::Operation;
use vstd::prelude::*;

verus! {

/// A handler whose parameters say nothing of its operation.
#[derive(Debug)]
pub struct IgnoreOpenapiHandler<H> {
    handler: H,
}

/// A handler together with the operation that describes it.
#[derive(Debug)]
pub struct WithOpenapiHandler<H> {
    handler: H,
    operation: Operation,
}

impl<H> IgnoreOpenapiHandler<H> {
    /// The handler that is wrapped.
    pub closed spec fn inner(&self) -> H {
        self.handler
    }

    /// Wraps a handler.
    pub fn new(handler: H) -> (r: Self)
        ensures
            r.inner() == handler,
    {
        IgnoreOpenapiHandler { handler }
    }

    /// The handler that is wrapped.
    pub fn service(&self) -> (r: &H)
        ensures
            *r == self.inner(),
    {
        &self.handler
    }

    /// Gives the handler that is wrapped back.
    pub fn into_service(self) -> (r: H)
        ensures
            r == self.inner(),
    {
        self.handler
    }

    /// Leaves the operation as it is.
    pub fn modify_op(&self, op: &mut Operation)
        ensures
            *final(op) == *old(op),
    {
    }

    /// How the operation of this handler is known: not at all.
    pub fn operation_handler(&self) -> (r: OperationHandler)
        ensures
            r@ == OperationHandlerView::Ignore,
    {
        OperationHandler::Ignore
    }
}

impl<H> WithOpenapiHandler<H> {
    /// The handler that is wrapped.
    pub closed spec fn inner(&self) -> H {
        self.handler
    }

    /// The operation that describes the handler.
    pub closed spec fn described(&self) -> Operation {
        self.operation
    }

    /// Wraps a handler, with the operation that describes it.
    pub fn new(handler: H, operation: Operation) -> (r: Self)
        ensures
            r.inner() == handler,
            r.described() == operation,
    {
        WithOpenapiHandler { handler, operation }
    }

    /// The handler that is wrapped.
    pub fn service(&self) -> (r: &H)
        ensures
            *r == self.inner(),
    {
        &self.handler
    }

    /// Gives back the handler that is wrapped and the operation that
    /// describes it.
    pub fn into_parts(self) -> (r: (H, Operation))
        ensures
            r.0 == self.inner(),
            r.1 == self.described(),
    {
        (self.handler, self.operation)
    }

    /// Puts the operation that describes the handler in the place of `op`.
    pub fn modify_op(&self, op: &mut Operation)
        ensures
            final(op)@ == self.described()@,
    {
        *op = self.operation.clone();
    }

    /// How the operation of this handler is known: it is given.
    pub fn operation_handler(&self) -> (r: OperationHandler)
        ensures
            r@ == OperationHandlerView::With(self.described()@),
    {
        OperationHandler::With(self.operation.clone())
    }
}

/// Ways to say of any handler how it is described.
pub trait HandlerExt: Sized {
    /// The handler, not to be described.
    fn ignore_openapi(self) -> (r: IgnoreOpenapiHandler<Self>)
        ensures
            r.inner() == self,
    ;

    /// The handler, described by `operation`.
    fn with_openapi(self, operation: Operation) -> (r: WithOpenapiHandler<Self>)
        ensures
            r.inner() == self,
            r.described() == operation,
    ;
}

impl<H> HandlerExt for H {
    fn ignore_openapi(self) -> (r: IgnoreOpenapiHandler<Self>) {
        IgnoreOpenapiHandler::new(self)
    }

    fn with_openapi(self, operation: Operation) -> (r: WithOpenapiHandler<Self>) {
        WithOpenapiHandler::new(self, operation)
    }
}

} // verus!
