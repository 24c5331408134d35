//! From the declared parameters and result of a handler to its operation.

use crate::operation::{
    empty_operation, Operation, OperationView, Parameter, parameter_views, ParameterLocation,
    positional_parameters, query_parameters, RequestBody, RequestBodyView, Response, ResponsesView,
    ResponseView, schema_ref_views, url_params,
};
use crate::schema::{
    DescribeSchema, lemma_object_view, property_views, reference_or_schema_of, schema_of,
    SchemaKind, SchemaKindView, SchemaRef, SchemaRefView, TypeShape, TypeShapeView,
};
use vstd::prelude::*;
use vstd::string::*;

verus! {

/// What a parameter of a handler takes from the request.
#[derive(Debug, PartialEq, Eq)]
pub enum OperationParameter {
    /// The body, read as JSON into a value of the given shape.
    Json(TypeShape),
    /// The parameters of the path, one value for each, in order.
    UrlParams(Vec<TypeShape>),
    /// The query string, read into a record.
    Query(TypeShape),
    /// A parameter that may be missing.
    Optional(Box<OperationParameter>),
}

/// What a handler gives back.
#[derive(Debug, Clone, Copy, PartialEq, Eq, Structural)]
pub enum OperationResult {
    /// Nothing.
    Unit,
}

/// Why the parameters of a handler make up no operation.
#[derive(Debug, Clone, Copy, PartialEq, Eq, Structural)]
pub enum OperationError {
    /// Two parameters take the body.
    DuplicateRequestBody,
    /// The query string is read into something that is not a record.
    UnsupportedQuerySchema,
}

/// The mathematical value of an [`OperationParameter`].
pub enum OperationParameterView {
    Json(TypeShapeView),
    UrlParams(Seq<TypeShapeView>),
    Query(TypeShapeView),
    Optional(Box<OperationParameterView>),
}

/// The values of a list of shapes.
pub open spec fn shape_views(v: Seq<TypeShape>) -> Seq<TypeShapeView> {
    Seq::new(v.len(), |i: int| v[i]@)
}

pub open spec fn parameter_kind_view(kind: OperationParameter) -> OperationParameterView
    decreases kind,
{
    match kind {
        OperationParameter::Json(shape) => OperationParameterView::Json(shape@),
        OperationParameter::UrlParams(shapes) => OperationParameterView::UrlParams(
            shape_views(shapes@),
        ),
        OperationParameter::Query(shape) => OperationParameterView::Query(shape@),
        OperationParameter::Optional(inner) => OperationParameterView::Optional(
            Box::new(parameter_kind_view(*inner)),
        ),
    }
}

impl View for OperationParameter {
    type V = OperationParameterView;

    open spec fn view(&self) -> OperationParameterView {
        parameter_kind_view(*self)
    }
}

/// The schemas of a list of shapes, each a reference where it has a name.
pub open spec fn shape_references(shapes: Seq<TypeShapeView>) -> Seq<SchemaRefView> {
    Seq::new(shapes.len(), |i: int| reference_or_schema_of(shapes[i]))
}

/// The body that a JSON parameter of the given shape declares.
pub open spec fn json_body(shape: TypeShapeView, required: bool) -> RequestBodyView {
    RequestBodyView {
        content_type: "application/json"@,
        schema: reference_or_schema_of(shape),
        required,
    }
}

/// The operation `op` after a parameter of the given kind was declared.
///
/// - A JSON parameter sets the body; a second one is an error.
/// - The path parameters are appended, named by position and required.
/// - A query parameter is a record; each of its members becomes one query
///   parameter.
/// - What is written of an optional parameter is what is written of the
///   parameter itself, not required.
pub open spec fn with_parameter(
    op: OperationView,
    kind: OperationParameterView,
    required: bool,
) -> Result<OperationView, OperationError>
    decreases kind,
{
    match kind {
        OperationParameterView::Json(shape) => if op.request_body is Some {
            Err(OperationError::DuplicateRequestBody)
        } else {
            Ok(OperationView { request_body: Some(json_body(shape, required)), ..op })
        },
        OperationParameterView::UrlParams(shapes) => Ok(
            OperationView {
                parameters: op.parameters + positional_parameters(shape_references(shapes)),
                ..op
            },
        ),
        OperationParameterView::Query(shape) => match schema_of(shape).kind {
            SchemaKindView::Object { properties, required: _ } => Ok(
                OperationView {
                    parameters: op.parameters + query_parameters(properties, required),
                    ..op
                },
            ),
            _ => Err(OperationError::UnsupportedQuerySchema),
        },
        OperationParameterView::Optional(inner) => with_parameter(op, *inner, false),
    }
}

/// The response of a handler that says nothing of its result.
pub open spec fn default_response() -> ResponseView {
    ResponseView { description: "Default OK response"@ }
}

/// The operation `op` after the result of the handler was declared.
pub open spec fn with_result(op: OperationView, kind: OperationResult) -> OperationView {
    OperationView {
        responses: ResponsesView { default: Some(default_response()), ..op.responses },
        ..op
    }
}

impl OperationParameter {
    /// Whether a parameter of this kind can be declared on `op`, and why
    /// not where it cannot: a second body, or a query that is read into
    /// something that is not a record.
    pub fn check(&self, op: &Operation, required: bool) -> (r: Result<(), OperationError>)
        ensures
            match with_parameter(op@, self@, required) {
                Ok(_) => r is Ok,
                Err(e) => r == Err::<(), _>(e),
            },
        decreases self,
    {
        match self {
            OperationParameter::Json(_) => {
                if op.request_body.is_some() {
                    Err(OperationError::DuplicateRequestBody)
                } else {
                    Ok(())
                }
            },
            OperationParameter::UrlParams(_) => Ok(()),
            OperationParameter::Query(shape) => {
                if shape.describes_object() {
                    Ok(())
                } else {
                    Err(OperationError::UnsupportedQuerySchema)
                }
            },
            OperationParameter::Optional(inner) => {
                let inner: &OperationParameter = &**inner;
                inner.check(op, false)
            },
        }
    }

    /// Writes into `op` what a parameter of this kind declares.  The
    /// parameter must be one that can be declared on `op`
    /// ([`OperationParameter::check`]): a body is not written over a body,
    /// and a query is a record.
    pub fn modify_op(&self, op: &mut Operation, required: bool)
        requires
            with_parameter(old(op)@, self@, required) is Ok,
        ensures
            with_parameter(old(op)@, self@, required) == Ok::<_, OperationError>(final(op)@),
        decreases self,
    {
        match self {
            OperationParameter::Json(shape) => {
                op.request_body = Some(
                    RequestBody {
                        content_type: String::from_str("application/json"),
                        schema: shape.reference_or_schema(),
                        required,
                    },
                );
            },
            OperationParameter::UrlParams(shapes) => {
                let mut schemas: Vec<SchemaRef> = Vec::new();
                let mut i: usize = 0;
                while i < shapes.len()
                    invariant
                        i <= shapes.len(),
                        schemas.len() == i,
                        forall|j: int| 0 <= j < i ==> schemas[j]@ == reference_or_schema_of(shapes[j]@),
                    decreases shapes.len() - i,
                {
                    schemas.push(shapes[i].reference_or_schema());
                    i += 1;
                }
                assert(schema_ref_views(schemas@) =~= shape_references(shape_views(shapes@)));
                url_params(op, &schemas);
            },
            OperationParameter::Query(shape) => {
                let schema = shape.describe_schema();
                proof {
                    lemma_object_view(schema);
                }
                if let SchemaKind::Object { properties, required: _ } = &schema.kind {
                    let ghost start = op@;
                    let ghost added = query_parameters(property_views(properties@), required);
                    let mut i: usize = 0;
                    assert(start.parameters + added.take(0) =~= start.parameters);
                    while i < properties.len()
                        invariant
                            i <= properties.len(),
                            added == query_parameters(property_views(properties@), required),
                            op@ == (OperationView {
                                parameters: start.parameters + added.take(i as int),
                                ..start
                            }),
                        decreases properties.len() - i,
                    {
                        let ghost before = parameter_views(op.parameters@);
                        let p = Parameter {
                            location: ParameterLocation::Query,
                            name: properties[i].name.clone(),
                            required,
                            schema: properties[i].schema.clone(),
                        };
                        assert(p@ == added[i as int]);
                        op.parameters.push(p);
                        proof {
                            assert(parameter_views(op.parameters@) =~= before.push(p@));
                            assert(start.parameters + added.take(i + 1) =~= (start.parameters
                                + added.take(i as int)).push(added[i as int]));
                        }
                        i += 1;
                    }
                    assert(added.take(i as int) =~= added);
                }
            },
            OperationParameter::Optional(inner) => {
                let inner: &OperationParameter = &**inner;
                inner.modify_op(op, false);
            },
        }
    }
}

impl OperationResult {
    /// Writes into `op` what a result of this kind declares: the default
    /// response, without a schema.
    pub fn modify_op(&self, op: &mut Operation)
        ensures
            final(op)@ == with_result(old(op)@, *self),
    {
        op.responses.default = Some(
            Response { description: String::from_str("Default OK response") },
        );
    }
}

/// What is declared of a handler: its name, its parameters in order, and
/// its result.
#[derive(Debug, PartialEq, Eq)]
pub struct HandlerSignature {
    pub name: String,
    pub parameters: Vec<OperationParameter>,
    pub result: OperationResult,
}

/// The operation of one handler, to be looked up by its identifier.
#[derive(Debug, PartialEq, Eq)]
pub struct OperationDescription {
    pub operation: Operation,
}

/// The mathematical value of an [`OperationDescription`].
pub struct OperationDescriptionView {
    pub operation: OperationView,
}

impl View for OperationDescription {
    type V = OperationDescriptionView;

    open spec fn view(&self) -> OperationDescriptionView {
        OperationDescriptionView { operation: self.operation@ }
    }
}

impl Clone for OperationDescription {
    fn clone(&self) -> (r: OperationDescription)
        ensures
            r@ == self@,
    {
        OperationDescription { operation: self.operation.clone() }
    }
}

/// The mathematical value of a [`HandlerSignature`].
pub struct HandlerSignatureView {
    pub name: Seq<char>,
    pub parameters: Seq<OperationParameterView>,
    pub result: OperationResult,
}

/// The values of a list of parameter kinds.
pub open spec fn parameter_kind_views(v: Seq<OperationParameter>) -> Seq<OperationParameterView> {
    Seq::new(v.len(), |i: int| v[i]@)
}

impl View for HandlerSignature {
    type V = HandlerSignatureView;

    open spec fn view(&self) -> HandlerSignatureView {
        HandlerSignatureView {
            name: self.name@,
            parameters: parameter_kind_views(self.parameters@),
            result: self.result,
        }
    }
}

/// The operation `op` after each of the parameters was declared in turn,
/// every one of them as required; or the error of the first that fails.
pub open spec fn with_parameters(op: OperationView, kinds: Seq<OperationParameterView>) -> Result<
    OperationView,
    OperationError,
>
    decreases kinds.len(),
{
    if kinds.len() == 0 {
        Ok(op)
    } else {
        match with_parameters(op, kinds.drop_last()) {
            Err(e) => Err(e),
            Ok(before) => with_parameter(before, kinds.last(), true),
        }
    }
}

/// The operation of a handler: identified by the name of the handler, with
/// what its parameters declare, in order, and then what its result
/// declares.
pub open spec fn handler_operation(sig: HandlerSignatureView) -> Result<
    OperationDescriptionView,
    OperationError,
> {
    let named = OperationView { operation_id: Some(sig.name), ..empty_operation() };
    match with_parameters(named, sig.parameters) {
        Err(e) => Err(e),
        Ok(op) => Ok(OperationDescriptionView { operation: with_result(op, sig.result) }),
    }
}

/// An error among the first parameters is the error of them all.
pub proof fn lemma_with_parameters_error_stays(
    op: OperationView,
    kinds: Seq<OperationParameterView>,
    n: int,
)
    requires
        0 <= n <= kinds.len(),
    ensures
        with_parameters(op, kinds.take(n)) is Err ==> with_parameters(op, kinds)
            == with_parameters(op, kinds.take(n)),
    decreases kinds.len() - n,
{
    if n < kinds.len() {
        lemma_with_parameters_error_stays(op, kinds, n + 1);
        assert(kinds.take(n + 1).drop_last() =~= kinds.take(n));
    } else {
        assert(kinds.take(n) =~= kinds);
    }
}

/// Describes the operation of a handler.
pub fn handler(sig: &HandlerSignature) -> (r: Result<OperationDescription, OperationError>)
    ensures
        match handler_operation(sig@) {
            Ok(d) => r is Ok && r->Ok_0@ == d,
            Err(e) => r is Err && r->Err_0 == e,
        },
{
    let mut operation = Operation::default();
    operation.operation_id = Some(sig.name.clone());
    let ghost named = operation@;
    let ghost kinds = parameter_kind_views(sig.parameters@);
    let mut i: usize = 0;
    assert(kinds.take(0) =~= Seq::empty());
    while i < sig.parameters.len()
        invariant
            i <= sig.parameters.len(),
            kinds == parameter_kind_views(sig.parameters@),
            named == (OperationView { operation_id: Some(sig.name@), ..empty_operation() }),
            with_parameters(named, kinds.take(i as int)) == Ok::<_, OperationError>(operation@),
        decreases sig.parameters.len() - i,
    {
        proof {
            assert(kinds.take(i + 1).drop_last() =~= kinds.take(i as int));
            assert(kinds.take(i + 1).last() == sig.parameters@[i as int]@);
            lemma_with_parameters_error_stays(named, kinds, i + 1);
        }
        match sig.parameters[i].check(&operation, true) {
            Err(e) => {
                return Err(e);
            },
            Ok(_) => {},
        }
        sig.parameters[i].modify_op(&mut operation, true);
        i += 1;
    }
    assert(kinds.take(i as int) =~= kinds);
    sig.result.modify_op(&mut operation);
    Ok(OperationDescription { operation })
}

/// What an error says, in words.
pub open spec fn operation_error_text(error: OperationError) -> Seq<char> {
    match error {
        OperationError::DuplicateRequestBody => "two parameters take the body of the request"@,
        OperationError::UnsupportedQuerySchema => "unsupported schema for query parameters"@,
    }
}

impl OperationError {
    /// What the error says, in words.
    pub fn message(&self) -> (r: String)
        ensures
            r@ == operation_error_text(*self),
    {
        match self {
            OperationError::DuplicateRequestBody => String::from_str(
                "two parameters take the body of the request",
            ),
            OperationError::UnsupportedQuerySchema => String::from_str(
                "unsupported schema for query parameters",
            ),
        }
    }
}

} // verus!
