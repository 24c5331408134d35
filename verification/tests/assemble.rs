use axum_openapi::assemble::{insert_path, openapi, AssemblyError};
use axum_openapi::merge::{lookup_operation, merge_item, patch_operations, resolve_operation};
use axum_openapi::derive::SchemaDescription;
use axum_openapi::document::{Document, PathDescription, PathItem};
use axum_openapi::handler::{
    handler, HandlerSignature, OperationDescription, OperationParameter, OperationResult,
};
use axum_openapi::operation::{
    Operation, Parameter, ParameterLocation, RequestBody, Response, Responses,
};
use axum_openapi::registry::Registry;
use axum_openapi::schema::{Primitive, Schema, SchemaKind, SchemaRef, TypeShape};
use axum_openapi::syntax::routes_source;

fn int64() -> SchemaRef {
    SchemaRef::Item(Schema { nullable: false, kind: SchemaKind::Primitive(Primitive::Int64) })
}

fn stub(id: &str) -> Operation {
    Operation { operation_id: Some(id.to_string()), ..Operation::default() }
}

fn path_parameter(name: &str) -> Parameter {
    Parameter {
        location: ParameterLocation::Path,
        name: name.to_string(),
        required: true,
        schema: int64(),
    }
}

fn operation_with(id: &str, names: &[&str]) -> Operation {
    Operation {
        operation_id: Some(id.to_string()),
        parameters: names.iter().map(|name| path_parameter(name)).collect(),
        request_body: Some(RequestBody {
            content_type: "application/json".to_string(),
            schema: int64(),
            required: true,
        }),
        responses: Responses {
            default: Some(Response { description: "Default OK response".to_string() }),
            statuses: vec![],
        },
    }
}

fn get_only(op: Operation) -> PathItem {
    PathItem { get: Some(op), ..PathItem::default() }
}

fn ops(list: Vec<Operation>) -> Vec<OperationDescription> {
    list.into_iter().map(|operation| OperationDescription { operation }).collect()
}

fn schema(name: &str, primitive: Primitive) -> SchemaDescription {
    SchemaDescription {
        name: name.to_string(),
        schema: Schema { nullable: false, kind: SchemaKind::Primitive(primitive) },
    }
}

#[test]
fn a_registered_operation_replaces_the_stub_with_its_identifier() {
    let mut stub_with_junk = stub("find_pet_by_id");
    stub_with_junk.parameters.push(Parameter {
        location: ParameterLocation::Query,
        name: "junk".to_string(),
        required: false,
        schema: int64(),
    });
    let mut item = get_only(stub_with_junk);
    let registered = operation_with("find_pet_by_id", &[]);
    patch_operations(&mut item, &ops(vec![registered.clone()]), "/pets").unwrap();
    assert_eq!(item, get_only(registered));
}

#[test]
fn the_parameter_of_a_path_with_one_placeholder_takes_its_name() {
    let mut item = get_only(stub("find_pet_by_id"));
    let registered = operation_with("find_pet_by_id", &["__parameter0"]);
    patch_operations(&mut item, &ops(vec![registered]), "/pets/{id}").unwrap();
    assert_eq!(item, get_only(operation_with("find_pet_by_id", &["id"])));
}

#[test]
fn two_parameters_take_the_names_of_two_placeholders_in_order() {
    let mut item = get_only(stub("find"));
    let registered = operation_with("find", &["__parameter0", "__parameter1"]);
    patch_operations(&mut item, &ops(vec![registered]), "/pets/{id}/{tag}").unwrap();
    assert_eq!(item, get_only(operation_with("find", &["id", "tag"])));
}

#[test]
fn positions_need_not_come_in_order() {
    let mut item = get_only(stub("find"));
    let registered = operation_with("find", &["__parameter1", "__parameter0", "__parameter01"]);
    patch_operations(&mut item, &ops(vec![registered]), "/x/{a}/y/{b}").unwrap();
    assert_eq!(item, get_only(operation_with("find", &["b", "a", "b"])));
}

#[test]
fn a_position_that_the_template_does_not_have_is_an_error() {
    let mut item = get_only(stub("find"));
    let registered = operation_with("find", &["__parameter0", "__parameter1"]);
    let outcome = patch_operations(&mut item, &ops(vec![registered]), "/pets/{id}");
    assert_eq!(
        outcome,
        Err(AssemblyError::ParameterOutOfRange {
            path: "/pets/{id}".to_string(),
            operation_id: Some("find".to_string()),
            parameter: "__parameter1".to_string(),
        })
    );
    assert_eq!(item, get_only(stub("find")));
}

#[test]
fn a_position_too_large_for_any_list_is_an_error_too() {
    let op = operation_with("find", &["__parameter99999999999999999999999999999999"]);
    let outcome = resolve_operation(&op, &vec!["id".to_string()], "/pets/{id}");
    assert_eq!(
        outcome,
        Err(AssemblyError::ParameterOutOfRange {
            path: "/pets/{id}".to_string(),
            operation_id: Some("find".to_string()),
            parameter: "__parameter99999999999999999999999999999999".to_string(),
        })
    );
}

#[test]
fn names_that_are_no_positions_stay() {
    let names = ["id", "__parameter", "__parameterx", "__parameter+1", "_parameter0", "__parameter 1"];
    let op = operation_with("find", &names);
    let named = resolve_operation(&op, &vec![], "/pets").unwrap();
    assert_eq!(named, op);
}

#[test]
fn a_query_parameter_keeps_a_positional_name() {
    let mut op = operation_with("find", &[]);
    op.parameters.push(Parameter {
        location: ParameterLocation::Query,
        name: "__parameter0".to_string(),
        required: true,
        schema: int64(),
    });
    let named = resolve_operation(&op, &vec!["id".to_string()], "/pets/{id}").unwrap();
    assert_eq!(named, op);
}

#[test]
fn a_stub_without_a_registered_operation_stays() {
    let mut item = get_only(stub("unknown"));
    item.post = Some(Operation::default());
    let before = item.clone();
    patch_operations(&mut item, &ops(vec![operation_with("find", &["__parameter0"])]), "/pets")
        .unwrap();
    assert_eq!(item, before);
}

#[test]
fn a_merge_that_fails_leaves_the_path_item_as_it_was() {
    let mut item = PathItem {
        get: Some(stub("good")),
        put: Some(stub("bad")),
        post: Some(stub("worse")),
        ..PathItem::default()
    };
    let before = item.clone();
    let registered = ops(vec![
        operation_with("good", &["__parameter0"]),
        operation_with("bad", &["__parameter1"]),
        operation_with("worse", &["__parameter2"]),
    ]);
    let outcome = patch_operations(&mut item, &registered, "/pets/{id}");
    assert_eq!(
        outcome,
        Err(AssemblyError::ParameterOutOfRange {
            path: "/pets/{id}".to_string(),
            operation_id: Some("bad".to_string()),
            parameter: "__parameter1".to_string(),
        })
    );
    assert_eq!(item, before);
}

#[test]
fn every_method_of_a_path_item_is_merged() {
    let item = PathItem {
        get: Some(stub("a")),
        put: Some(stub("b")),
        post: Some(stub("a")),
        delete: Some(stub("none")),
        options: Some(Operation::default()),
        head: None,
        patch: Some(stub("b")),
        trace: Some(stub("a")),
    };
    let registered =
        ops(vec![operation_with("a", &["__parameter0"]), operation_with("b", &["__parameter1"])]);
    let merged = merge_item(&item, &registered, "/{x}/{y}").unwrap();
    assert_eq!(
        merged,
        PathItem {
            get: Some(operation_with("a", &["x"])),
            put: Some(operation_with("b", &["y"])),
            post: Some(operation_with("a", &["x"])),
            delete: Some(stub("none")),
            options: Some(Operation::default()),
            head: None,
            patch: Some(operation_with("b", &["y"])),
            trace: Some(operation_with("a", &["x"])),
        }
    );
}

#[test]
fn of_two_operations_with_one_identifier_the_later_one_is_found() {
    let first = operation_with("find", &["a"]);
    let second = operation_with("find", &["b"]);
    let without = Operation::default();
    let registered = ops(vec![first, second.clone(), without]);
    assert_eq!(lookup_operation(&registered, &"find".to_string()), Some(&second));
    assert_eq!(lookup_operation(&registered, &"other".to_string()), None);
}

#[test]
fn a_path_item_for_a_listed_path_takes_the_place_of_the_one_listed() {
    let mut paths = vec![
        PathDescription { path: "/a".to_string(), path_item: get_only(stub("a1")) },
        PathDescription { path: "/b".to_string(), path_item: get_only(stub("b")) },
    ];
    insert_path(
        &mut paths,
        PathDescription { path: "/a".to_string(), path_item: get_only(stub("a2")) },
    );
    insert_path(
        &mut paths,
        PathDescription { path: "/c".to_string(), path_item: get_only(stub("c")) },
    );
    assert_eq!(
        paths,
        vec![
            PathDescription { path: "/a".to_string(), path_item: get_only(stub("a2")) },
            PathDescription { path: "/b".to_string(), path_item: get_only(stub("b")) },
            PathDescription { path: "/c".to_string(), path_item: get_only(stub("c")) },
        ]
    );
}

#[test]
fn an_empty_registry_has_an_empty_document_of_version_3_0_3() {
    assert_eq!(
        openapi(&Registry::new()),
        Ok(Document { openapi: "3.0.3".to_string(), paths: vec![], schemas: vec![] })
    );
}

#[test]
fn two_schemas_with_one_name_are_an_error() {
    let mut registry = Registry::new();
    registry.register_schema(schema("Pet", Primitive::Int32));
    registry.register_schema(schema("Error", Primitive::Text));
    registry.register_schema(schema("Pet", Primitive::Text));
    assert_eq!(
        openapi(&registry),
        Err(AssemblyError::DuplicateSchema { name: "Pet".to_string() })
    );
}

#[test]
fn an_error_in_a_path_comes_before_an_error_in_the_schemas() {
    let mut registry = Registry::new();
    registry.register_schema(schema("Pet", Primitive::Int32));
    registry.register_schema(schema("Pet", Primitive::Text));
    registry.register_path(PathDescription {
        path: "/pets".to_string(),
        path_item: get_only(stub("find")),
    });
    registry.register_operation(OperationDescription {
        operation: operation_with("find", &["__parameter0"]),
    });
    assert_eq!(
        openapi(&registry),
        Err(AssemblyError::ParameterOutOfRange {
            path: "/pets".to_string(),
            operation_id: Some("find".to_string()),
            parameter: "__parameter0".to_string(),
        })
    );
}

#[test]
fn the_schemas_are_listed_in_the_order_of_registration() {
    let mut registry = Registry::new();
    registry.register_schema(schema("Pet", Primitive::Int32));
    registry.register_schema(schema("Error", Primitive::Text));
    let document = openapi(&registry).unwrap();
    assert_eq!(
        document.schemas,
        vec![schema("Pet", Primitive::Int32), schema("Error", Primitive::Text)]
    );
}

#[test]
fn the_registry_gives_back_what_was_registered_in_order() {
    let mut registry = Registry::new();
    registry.register_schema(schema("A", Primitive::Int32));
    registry.register_schema(schema("B", Primitive::Int32));
    registry.register_operation(OperationDescription { operation: stub("x") });
    registry.register_path(PathDescription { path: "/".to_string(), path_item: PathItem::default() });
    assert_eq!(registry.schemas(), &vec![schema("A", Primitive::Int32), schema("B", Primitive::Int32)]);
    assert_eq!(registry.operations(), &vec![OperationDescription { operation: stub("x") }]);
    assert_eq!(registry.paths().len(), 1);
}

#[test]
fn routes_handlers_and_schemas_make_up_a_document() {
    let mut registry = Registry::new();
    let declared = routes_source(
        "route(\"/pets\", get(find_pets).post(add_pet)).route(\"/pets/:id\", get(api::find_pet_by_id).delete(|| async {}))",
    )
    .unwrap();
    for path in declared {
        registry.register_path(path);
    }
    let find_pet = handler(&HandlerSignature {
        name: "find_pet_by_id".to_string(),
        parameters: vec![OperationParameter::UrlParams(vec![TypeShape::Int64])],
        result: OperationResult::Unit,
    })
    .unwrap();
    registry.register_operation(find_pet);
    registry.register_schema(schema("Pet", Primitive::Int32));

    let document = openapi(&registry).unwrap();
    assert_eq!(document.openapi, "3.0.3");
    assert_eq!(document.paths.len(), 2);
    assert_eq!(document.paths[0].path, "/pets");
    assert_eq!(
        document.paths[0].path_item,
        PathItem { get: Some(stub("find_pets")), post: Some(stub("add_pet")), ..PathItem::default() }
    );
    assert_eq!(document.paths[1].path, "/pets/{id}");
    assert_eq!(
        document.paths[1].path_item,
        PathItem {
            get: Some(Operation {
                operation_id: Some("find_pet_by_id".to_string()),
                parameters: vec![path_parameter("id")],
                request_body: None,
                responses: Responses {
                    default: Some(Response { description: "Default OK response".to_string() }),
                    statuses: vec![],
                },
            }),
            delete: Some(Operation::default()),
            ..PathItem::default()
        }
    );
    assert_eq!(document.schemas, vec![schema("Pet", Primitive::Int32)]);
}

#[test]
fn an_error_of_the_assembly_says_what_is_wrong() {
    assert_eq!(
        AssemblyError::DuplicateSchema { name: "Pet".to_string() }.message(),
        "two schemas are named Pet"
    );
    assert_eq!(
        AssemblyError::ParameterOutOfRange {
            path: "/pets".to_string(),
            operation_id: None,
            parameter: "__parameter0".to_string(),
        }
        .message(),
        "path /pets has no placeholder for parameter __parameter0"
    );
    assert_eq!(
        AssemblyError::ParameterOutOfRange {
            path: "/pets/{id}".to_string(),
            operation_id: Some("find_pet".to_string()),
            parameter: "__parameter1".to_string(),
        }
        .message(),
        "path /pets/{id} has no placeholder for parameter __parameter1 of operation find_pet"
    );
}

#[test]
fn an_operation_that_no_path_item_names_changes_nothing() {
    let build = |place: usize| {
        let mut registered = vec![
            operation_with("find", &["__parameter0"]),
            operation_with("add", &[]),
        ];
        if place <= registered.len() {
            registered.insert(place, operation_with("stray", &["__parameter9"]));
        }
        let mut registry = Registry::new();
        registry.register_path(PathDescription {
            path: "/pets/{id}".to_string(),
            path_item: PathItem {
                get: Some(stub("find")),
                post: Some(stub("add")),
                put: Some(stub("missing")),
                delete: Some(Operation::default()),
                ..PathItem::default()
            },
        });
        for operation in registered {
            registry.register_operation(OperationDescription { operation });
        }
        openapi(&registry)
    };
    let without = build(usize::MAX);
    assert!(without.is_ok());
    for place in 0..=2 {
        assert_eq!(build(place), without);
    }
}
