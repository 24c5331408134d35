//! Describes an HTTP service as an OpenAPI document, put together from
//! fragments that are declared independently of each other:
//!
//! - the routes, declared by an expression such as
//!   `route("/pets/:id", get(find_pet).delete(remove_pet))` ([`routes`],
//!   [`chain`], [`expr`], [`syntax`]);
//! - the handlers, each with the parameters it takes ([`handler`]);
//! - the data types, each with a schema derived from its members
//!   ([`schema`], [`derive`]).
//!
//! The fragments are collected in a [`registry`] and merged into one
//! [`document`] ([`merge`], [`assemble`], [`assembler`]).  A service can
//! also be described from its routes as they are at run time ([`app`]).
//!
//! Every function is verified against its contract with Verus.  The
//! contracts are stated over the mathematical values of the data, which
//! the types give as their views.  The only code that is not verified is
//! the call of the parser of Rust expressions in [`syntax`], and nothing
//! is claimed of what it returns.

pub mod adapters;
pub mod app;
pub mod assemble;
pub mod assembler;
pub mod chain;
pub mod derive;
pub mod document;
pub mod expr;
pub mod handler;
pub mod merge;
pub mod method;
pub mod operation;
pub mod path;
pub mod prelude;
pub mod registry;
pub mod response;
pub mod routes;
pub mod schema;
pub mod syntax;
pub mod text;

pub use crate::assemble::openapi;
pub use crate::derive::{derive_schema, SchemaDescription};
pub use crate::document::PathDescription;
pub use crate::handler::{handler, OperationDescription};
pub use crate::method::HttpMethod;
pub use crate::response::yaml_response;
pub use crate::routes::routes;
pub use crate::schema::{ty_schema, DescribeSchema};
