use axum_openapi::assemble::AssemblyError;
use axum_openapi::assembler::Assembler;
use axum_openapi::derive::SchemaDescription;
use axum_openapi::document::{Document, PathDescription, PathItem};
use axum_openapi::registry::Registry;
use axum_openapi::schema::{Primitive, Schema, SchemaKind};

fn schema(name: &str) -> SchemaDescription {
    SchemaDescription {
        name: name.to_string(),
        schema: Schema { nullable: false, kind: SchemaKind::Primitive(Primitive::Int32) },
    }
}

#[test]
fn the_document_is_built_once() {
    let mut registry = Registry::new();
    registry.register_schema(schema("Pet"));
    let mut assembler = Assembler::new(registry);
    assert!(!assembler.is_built());

    let first = assembler.build_document();
    assert!(assembler.is_built());
    assert_eq!(
        first,
        Ok(Document { openapi: "3.0.3".to_string(), paths: vec![], schemas: vec![schema("Pet")] })
    );

    assembler.register_schema(schema("Late"));
    assembler.register_path(PathDescription {
        path: "/late".to_string(),
        path_item: PathItem::default(),
    });
    let second = assembler.build_document();
    assert_eq!(second, first);
}

#[test]
fn what_is_registered_before_the_first_request_is_in_the_document() {
    let mut assembler = Assembler::new(Registry::new());
    assembler.register_schema(schema("Pet"));
    assembler.register_path(PathDescription {
        path: "/pets".to_string(),
        path_item: PathItem::default(),
    });
    let document = assembler.build_document().unwrap();
    assert_eq!(document.schemas, vec![schema("Pet")]);
    assert_eq!(document.paths.len(), 1);
}

#[test]
fn an_error_is_kept_like_a_document() {
    let mut assembler = Assembler::new(Registry::new());
    assembler.register_schema(schema("Pet"));
    assembler.register_schema(schema("Pet"));
    let first = assembler.build_document();
    assert_eq!(first, Err(AssemblyError::DuplicateSchema { name: "Pet".to_string() }));
    assert_eq!(assembler.build_document(), first);
}
