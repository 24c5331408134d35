use axum_openapi::app::{
    fix_path_params, patch_operations, AppRoute, MethodHandler, OpenapiApp, OpenapiError,
    OperationAtPath, OperationHandler,
};
use axum_openapi::assemble::AssemblyError;
use axum_openapi::document::{Document, PathDescription, PathItem};
use axum_openapi::handler::{OperationError, OperationParameter};
use axum_openapi::method::HttpMethod;
use axum_openapi::operation::{Operation, Parameter, ParameterLocation, RequestBody};
use axum_openapi::schema::{Primitive, Schema, SchemaKind, SchemaRef, TypeShape};

fn int64() -> SchemaRef {
    SchemaRef::Item(Schema { nullable: false, kind: SchemaKind::Primitive(Primitive::Int64) })
}

fn path_parameter(name: &str) -> Parameter {
    Parameter {
        location: ParameterLocation::Path,
        name: name.to_string(),
        required: true,
        schema: int64(),
    }
}

fn by_id() -> OperationHandler {
    OperationHandler::Function(vec![OperationParameter::UrlParams(vec![TypeShape::Int64])])
}

fn by_body() -> OperationHandler {
    OperationHandler::Function(vec![OperationParameter::Json(TypeShape::Str)])
}

fn route(path: &str, handlers: Vec<(HttpMethod, OperationHandler)>) -> AppRoute {
    AppRoute {
        path: path.to_string(),
        service: OperationAtPath {
            handlers: handlers
                .into_iter()
                .map(|(method, handler)| MethodHandler { method, handler })
                .collect(),
        },
    }
}

fn with_parameters(names: &[&str]) -> Operation {
    Operation {
        parameters: names.iter().map(|name| path_parameter(name)).collect(),
        ..Operation::default()
    }
}

#[test]
fn the_document_of_a_service_lists_its_routes() {
    let app = OpenapiApp {
        routes: vec![
            route(
                "/pets",
                vec![
                    (HttpMethod::Get, OperationHandler::Function(vec![])),
                    (
                        HttpMethod::Post,
                        OperationHandler::Function(vec![OperationParameter::Json(TypeShape::Str)]),
                    ),
                ],
            ),
            route("/pets/:id", vec![(HttpMethod::Get, by_id()), (HttpMethod::Delete, by_id())]),
        ],
    };
    let document = app.openapi().unwrap();
    assert_eq!(
        document,
        Document {
            openapi: "3.0.3".to_string(),
            paths: vec![
                PathDescription {
                    path: "/pets".to_string(),
                    path_item: PathItem {
                        get: Some(Operation::default()),
                        post: Some(Operation {
                            request_body: Some(RequestBody {
                                content_type: "application/json".to_string(),
                                schema: SchemaRef::Item(Schema {
                                    nullable: false,
                                    kind: SchemaKind::Primitive(Primitive::Text),
                                }),
                                required: true,
                            }),
                            ..Operation::default()
                        }),
                        ..PathItem::default()
                    },
                },
                PathDescription {
                    path: "/pets/{id}".to_string(),
                    path_item: PathItem {
                        get: Some(with_parameters(&["id"])),
                        delete: Some(with_parameters(&["id"])),
                        ..PathItem::default()
                    },
                },
            ],
            schemas: vec![],
        }
    );
}

#[test]
fn routes_with_one_template_make_up_one_path_item() {
    let app = OpenapiApp {
        routes: vec![
            route("/p", vec![(HttpMethod::Get, OperationHandler::Ignore)]),
            route("/b", vec![(HttpMethod::Get, OperationHandler::Ignore)]),
            route("/p", vec![(HttpMethod::Post, by_body())]),
            route("/:x", vec![(HttpMethod::Get, by_id())]),
            route("/{x}", vec![(HttpMethod::Delete, by_id())]),
        ],
    };
    let document = app.openapi().unwrap();
    let paths: Vec<&str> = document.paths.iter().map(|p| p.path.as_str()).collect();
    assert_eq!(paths, vec!["/p", "/b", "/{x}"]);
    assert_eq!(
        document.paths[0].path_item,
        PathItem {
            get: Some(Operation::default()),
            post: Some(Operation {
                request_body: Some(RequestBody {
                    content_type: "application/json".to_string(),
                    schema: SchemaRef::Item(Schema {
                        nullable: false,
                        kind: SchemaKind::Primitive(Primitive::Text),
                    }),
                    required: true,
                }),
                ..Operation::default()
            }),
            ..PathItem::default()
        }
    );
    assert_eq!(
        document.paths[2].path_item,
        PathItem {
            get: Some(with_parameters(&["x"])),
            delete: Some(with_parameters(&["x"])),
            ..PathItem::default()
        }
    );
}

#[test]
fn a_method_bound_twice_for_one_path_is_an_error() {
    let chain = OperationAtPath {
        handlers: vec![
            MethodHandler { method: HttpMethod::Get, handler: by_id() },
            MethodHandler { method: HttpMethod::Put, handler: by_id() },
            MethodHandler { method: HttpMethod::Get, handler: OperationHandler::Ignore },
        ],
    };
    let mut item = PathItem::default();
    assert_eq!(
        chain.modify_path_item(&mut item),
        Err(OpenapiError::DuplicateMethod(HttpMethod::Get))
    );
    assert_eq!(item, PathItem::default());

    let mut taken = PathItem { put: Some(Operation::default()), ..PathItem::default() };
    let before = taken.clone();
    assert_eq!(
        chain.modify_path_item(&mut taken),
        Err(OpenapiError::DuplicateMethod(HttpMethod::Put))
    );
    assert_eq!(taken, before);

    let app = OpenapiApp {
        routes: vec![
            route("/p/:id", vec![(HttpMethod::Get, by_id())]),
            route("/q", vec![(HttpMethod::Get, OperationHandler::Ignore)]),
            route("/p/{id}", vec![(HttpMethod::Post, by_id()), (HttpMethod::Get, by_id())]),
        ],
    };
    assert_eq!(app.openapi(), Err(OpenapiError::DuplicateMethod(HttpMethod::Get)));
}

#[test]
fn the_handlers_of_a_path_write_beside_what_is_there() {
    let chain = OperationAtPath {
        handlers: vec![MethodHandler { method: HttpMethod::Get, handler: by_id() }],
    };
    let mut item = PathItem { trace: Some(with_parameters(&["kept"])), ..PathItem::default() };
    chain.modify_path_item(&mut item).unwrap();
    assert_eq!(
        item,
        PathItem {
            get: Some(with_parameters(&["__parameter0"])),
            trace: Some(with_parameters(&["kept"])),
            ..PathItem::default()
        }
    );
}

#[test]
fn a_given_operation_is_taken_as_it_is() {
    let given = Operation { operation_id: Some("mine".to_string()), ..Operation::default() };
    let mut op = with_parameters(&["x"]);
    OperationHandler::With(given.clone()).modify_op(&mut op).unwrap();
    assert_eq!(op, given);
    let mut kept = with_parameters(&["x"]);
    OperationHandler::Ignore.modify_op(&mut kept).unwrap();
    assert_eq!(kept, with_parameters(&["x"]));
}

#[test]
fn a_handler_that_fails_leaves_everything_as_it_was() {
    let twice = OperationHandler::Function(vec![
        OperationParameter::UrlParams(vec![TypeShape::Int64]),
        OperationParameter::Json(TypeShape::Str),
        OperationParameter::Json(TypeShape::Str),
    ]);
    let mut op = Operation::default();
    assert_eq!(twice.modify_op(&mut op), Err(OperationError::DuplicateRequestBody));
    assert_eq!(op, Operation::default());

    let app = OpenapiApp {
        routes: vec![
            route("/fine", vec![(HttpMethod::Get, OperationHandler::Ignore)]),
            route("/twice", vec![(HttpMethod::Get, twice)]),
        ],
    };
    let mut document =
        Document { openapi: "3.0.3".to_string(), paths: vec![], schemas: vec![] };
    assert_eq!(
        app.modify_openapi(&mut document),
        Err(OpenapiError::Handler(OperationError::DuplicateRequestBody))
    );
    assert!(document.paths.is_empty());
    assert_eq!(app.openapi(), Err(OpenapiError::Handler(OperationError::DuplicateRequestBody)));
}

#[test]
fn more_path_parameters_than_the_path_has_are_an_error() {
    let app = OpenapiApp { routes: vec![route("/pets", vec![(HttpMethod::Get, by_id())])] };
    assert_eq!(
        app.openapi(),
        Err(OpenapiError::Document(AssemblyError::ParameterOutOfRange {
            path: "/pets".to_string(),
            operation_id: None,
            parameter: "__parameter0".to_string(),
        }))
    );
}

#[test]
fn every_operation_of_a_path_item_gets_its_names() {
    let mut item = PathItem {
        get: Some(with_parameters(&["__parameter0"])),
        trace: Some(with_parameters(&["__parameter1", "other"])),
        ..PathItem::default()
    };
    patch_operations(&mut item, "/{a}/{b}").unwrap();
    assert_eq!(
        item,
        PathItem {
            get: Some(with_parameters(&["a"])),
            trace: Some(with_parameters(&["b", "other"])),
            ..PathItem::default()
        }
    );

    let mut failing = PathItem {
        get: Some(with_parameters(&["__parameter0"])),
        put: Some(with_parameters(&["__parameter2"])),
        ..PathItem::default()
    };
    let before = failing.clone();
    assert!(patch_operations(&mut failing, "/{a}/{b}").is_err());
    assert_eq!(failing, before);
}

#[test]
fn the_names_of_a_document_are_fixed_path_by_path() {
    let mut document = Document {
        openapi: "3.0.3".to_string(),
        paths: vec![
            PathDescription {
                path: "/{x}".to_string(),
                path_item: PathItem {
                    get: Some(with_parameters(&["__parameter0"])),
                    ..PathItem::default()
                },
            },
            PathDescription {
                path: "/{y}".to_string(),
                path_item: PathItem {
                    post: Some(with_parameters(&["__parameter0"])),
                    ..PathItem::default()
                },
            },
        ],
        schemas: vec![],
    };
    fix_path_params(&mut document).unwrap();
    assert_eq!(document.paths[0].path_item.get, Some(with_parameters(&["x"])));
    assert_eq!(document.paths[1].path_item.post, Some(with_parameters(&["y"])));
}
