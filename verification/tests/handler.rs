use axum_openapi::handler::{
    handler, HandlerSignature, OperationError, OperationParameter, OperationResult,
};
use axum_openapi::operation::{
    url_params, Operation, Parameter, ParameterLocation, RequestBody, Response, Responses,
};
use axum_openapi::schema::{Field, Primitive, Record, Schema, SchemaKind, SchemaRef, TypeShape};

fn primitive(p: Primitive) -> SchemaRef {
    SchemaRef::Item(Schema { nullable: false, kind: SchemaKind::Primitive(p) })
}

fn query_record() -> TypeShape {
    TypeShape::Record(Record {
        name: "FindPetsQueryParams".to_string(),
        fields: vec![
            Field {
                name: "tags".to_string(),
                ty: TypeShape::Optional(Box::new(TypeShape::List(Box::new(TypeShape::Str)))),
            },
            Field { name: "limit".to_string(), ty: TypeShape::Optional(Box::new(TypeShape::Int32)) },
        ],
    })
}

fn new_pet() -> TypeShape {
    TypeShape::Record(Record {
        name: "NewPet".to_string(),
        fields: vec![Field { name: "name".to_string(), ty: TypeShape::Str }],
    })
}

fn signature(name: &str, parameters: Vec<OperationParameter>) -> HandlerSignature {
    HandlerSignature { name: name.to_string(), parameters, result: OperationResult::Unit }
}

fn default_responses() -> Responses {
    Responses {
        default: Some(Response { description: "Default OK response".to_string() }),
        statuses: vec![],
    }
}

#[test]
fn a_handler_without_parameters_has_its_name_and_the_default_response() {
    let described = handler(&signature("index", vec![])).unwrap();
    assert_eq!(
        described.operation,
        Operation {
            operation_id: Some("index".to_string()),
            parameters: vec![],
            request_body: None,
            responses: default_responses(),
        }
    );
}

#[test]
fn a_json_parameter_is_the_required_body() {
    let described =
        handler(&signature("add_pet", vec![OperationParameter::Json(new_pet())])).unwrap();
    assert_eq!(
        described.operation.request_body,
        Some(RequestBody {
            content_type: "application/json".to_string(),
            schema: SchemaRef::Reference("#/components/schemas/NewPet".to_string()),
            required: true,
        })
    );
    assert!(described.operation.parameters.is_empty());
}

#[test]
fn an_optional_json_parameter_is_a_body_that_is_not_required() {
    let described = handler(&signature(
        "add_pet",
        vec![OperationParameter::Optional(Box::new(OperationParameter::Json(TypeShape::Int32)))],
    ))
    .unwrap();
    assert_eq!(
        described.operation.request_body,
        Some(RequestBody {
            content_type: "application/json".to_string(),
            schema: primitive(Primitive::Int32),
            required: false,
        })
    );
}

#[test]
fn two_bodies_are_an_error() {
    let outcome = handler(&signature(
        "add_pet",
        vec![OperationParameter::Json(new_pet()), OperationParameter::Json(new_pet())],
    ));
    assert_eq!(outcome, Err(OperationError::DuplicateRequestBody));
}

#[test]
fn path_parameters_are_named_by_position() {
    let described = handler(&signature(
        "find",
        vec![OperationParameter::UrlParams(vec![TypeShape::Int64, TypeShape::Str])],
    ))
    .unwrap();
    assert_eq!(
        described.operation.parameters,
        vec![
            Parameter {
                location: ParameterLocation::Path,
                name: "__parameter0".to_string(),
                required: true,
                schema: primitive(Primitive::Int64),
            },
            Parameter {
                location: ParameterLocation::Path,
                name: "__parameter1".to_string(),
                required: true,
                schema: primitive(Primitive::Text),
            },
        ]
    );
}

#[test]
fn optional_path_parameters_stay_required() {
    let described = handler(&signature(
        "find",
        vec![OperationParameter::Optional(Box::new(OperationParameter::UrlParams(vec![
            TypeShape::Int64,
        ])))],
    ))
    .unwrap();
    assert_eq!(described.operation.parameters.len(), 1);
    assert!(described.operation.parameters[0].required);
}

#[test]
fn the_eleventh_path_parameter_is_number_ten() {
    let mut op = Operation::default();
    let schemas: Vec<SchemaRef> = (0..11).map(|_| primitive(Primitive::Int32)).collect();
    url_params(&mut op, &schemas);
    let names: Vec<&str> = op.parameters.iter().map(|p| p.name.as_str()).collect();
    assert_eq!(
        names,
        vec![
            "__parameter0",
            "__parameter1",
            "__parameter2",
            "__parameter3",
            "__parameter4",
            "__parameter5",
            "__parameter6",
            "__parameter7",
            "__parameter8",
            "__parameter9",
            "__parameter10",
        ]
    );
}

#[test]
fn path_parameters_come_after_the_parameters_that_are_there() {
    let mut op = Operation::default();
    url_params(&mut op, &vec![primitive(Primitive::Int32)]);
    url_params(&mut op, &vec![primitive(Primitive::Text)]);
    let names: Vec<&str> = op.parameters.iter().map(|p| p.name.as_str()).collect();
    assert_eq!(names, vec!["__parameter0", "__parameter0"]);
}

#[test]
fn a_query_record_gives_one_query_parameter_for_each_member() {
    let described =
        handler(&signature("find_pets", vec![OperationParameter::Query(query_record())])).unwrap();
    assert_eq!(
        described.operation.parameters,
        vec![
            Parameter {
                location: ParameterLocation::Query,
                name: "tags".to_string(),
                required: true,
                schema: SchemaRef::Item(Schema {
                    nullable: true,
                    kind: SchemaKind::Array {
                        items: Box::new(primitive(Primitive::Text)),
                        min_items: None,
                        max_items: None,
                    },
                }),
            },
            Parameter {
                location: ParameterLocation::Query,
                name: "limit".to_string(),
                required: true,
                schema: SchemaRef::Item(Schema {
                    nullable: true,
                    kind: SchemaKind::Primitive(Primitive::Int32),
                }),
            },
        ]
    );
}

#[test]
fn an_optional_query_record_gives_parameters_that_are_not_required() {
    let described = handler(&signature(
        "find_pets",
        vec![OperationParameter::Optional(Box::new(OperationParameter::Query(query_record())))],
    ))
    .unwrap();
    assert_eq!(described.operation.parameters.len(), 2);
    assert!(described.operation.parameters.iter().all(|p| !p.required));
}

#[test]
fn a_query_that_is_no_record_is_an_error() {
    let outcome = handler(&signature("find", vec![OperationParameter::Query(TypeShape::Int32)]));
    assert_eq!(outcome, Err(OperationError::UnsupportedQuerySchema));
}

#[test]
fn a_parameter_is_checked_before_it_is_declared() {
    let mut op = Operation::default();
    let body = OperationParameter::Json(TypeShape::Int32);
    assert_eq!(body.check(&op, true), Ok(()));
    body.modify_op(&mut op, true);
    assert!(op.request_body.is_some());
    assert_eq!(
        OperationParameter::Json(TypeShape::Str).check(&op, true),
        Err(OperationError::DuplicateRequestBody)
    );
    assert_eq!(
        OperationParameter::Optional(Box::new(OperationParameter::Json(TypeShape::Str)))
            .check(&op, true),
        Err(OperationError::DuplicateRequestBody)
    );
    assert_eq!(
        OperationParameter::Query(TypeShape::Str).check(&op, true),
        Err(OperationError::UnsupportedQuerySchema)
    );
    assert_eq!(
        OperationParameter::Query(TypeShape::List(Box::new(query_record()))).check(&op, false),
        Err(OperationError::UnsupportedQuerySchema)
    );
    assert_eq!(OperationParameter::Query(query_record()).check(&op, true), Ok(()));
    assert_eq!(
        OperationParameter::Query(TypeShape::Optional(Box::new(query_record()))).check(&op, true),
        Ok(())
    );
    assert_eq!(OperationParameter::UrlParams(vec![TypeShape::Str]).check(&op, true), Ok(()));
}

#[test]
fn a_query_of_an_optional_record_gives_the_parameters_of_the_record() {
    let mut op = Operation::default();
    let query = OperationParameter::Query(TypeShape::Optional(Box::new(query_record())));
    assert_eq!(query.check(&op, true), Ok(()));
    query.modify_op(&mut op, true);
    let names: Vec<&str> = op.parameters.iter().map(|p| p.name.as_str()).collect();
    assert_eq!(names, vec!["tags", "limit"]);
    assert!(op.request_body.is_none());
}

#[test]
fn only_records_and_optional_records_describe_objects() {
    assert!(query_record().describes_object());
    assert!(TypeShape::Optional(Box::new(TypeShape::Optional(Box::new(query_record()))))
        .describes_object());
    assert!(!TypeShape::Int32.describes_object());
    assert!(!TypeShape::List(Box::new(query_record())).describes_object());
    assert!(!TypeShape::Array(Box::new(query_record()), 2).describes_object());
    assert!(!TypeShape::Optional(Box::new(TypeShape::Str)).describes_object());
}

#[test]
fn the_parameters_are_taken_in_order() {
    let described = handler(&signature(
        "update",
        vec![
            OperationParameter::UrlParams(vec![TypeShape::Int64]),
            OperationParameter::Query(query_record()),
            OperationParameter::Json(new_pet()),
        ],
    ))
    .unwrap();
    let names: Vec<&str> =
        described.operation.parameters.iter().map(|p| p.name.as_str()).collect();
    assert_eq!(names, vec!["__parameter0", "tags", "limit"]);
    assert!(described.operation.request_body.is_some());
    assert_eq!(described.operation.responses, default_responses());
}

#[test]
fn the_result_sets_the_default_response_and_keeps_the_others() {
    let mut op = Operation::default();
    op.responses.statuses.push(axum_openapi::operation::StatusResponse {
        status: 404,
        response: Response { description: "not found".to_string() },
    });
    OperationResult::Unit.modify_op(&mut op);
    assert_eq!(
        op.responses.default,
        Some(Response { description: "Default OK response".to_string() })
    );
    assert_eq!(op.responses.statuses.len(), 1);
}

#[test]
fn an_error_of_a_handler_says_what_is_wrong() {
    assert_eq!(
        OperationError::UnsupportedQuerySchema.message(),
        "unsupported schema for query parameters"
    );
    assert_eq!(
        OperationError::DuplicateRequestBody.message(),
        "two parameters take the body of the request"
    );
}
