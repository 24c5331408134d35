//! Operations: what one handler at one path takes and gives.

use crate::schema::{PropertyView, SchemaRef, SchemaRefView};
use crate::text::{decimal, decimal_string};
use vstd::prelude::*;
use vstd::string::*;

verus! {

/// Where a parameter is taken from.
#[derive(Debug, Clone, Copy, PartialEq, Eq, Structural)]
pub enum ParameterLocation {
    Path,
    Query,
}

/// A parameter of an operation.
#[derive(Debug, PartialEq, Eq)]
pub struct Parameter {
    pub location: ParameterLocation,
    pub name: String,
    pub required: bool,
    pub schema: SchemaRef,
}

/// The body that an operation takes.
#[derive(Debug, PartialEq, Eq)]
pub struct RequestBody {
    pub content_type: String,
    pub schema: SchemaRef,
    pub required: bool,
}

/// A response of an operation.
#[derive(Debug, PartialEq, Eq)]
pub struct Response {
    pub description: String,
}

/// The response that an operation gives with one status code.
#[derive(Debug, PartialEq, Eq)]
pub struct StatusResponse {
    pub status: u16,
    pub response: Response,
}

/// The responses of an operation: the default one, and those for single
/// status codes.
#[derive(Debug, PartialEq, Eq)]
pub struct Responses {
    pub default: Option<Response>,
    pub statuses: Vec<StatusResponse>,
}

/// The description of one handler at one path.
#[derive(Debug, PartialEq, Eq)]
pub struct Operation {
    pub operation_id: Option<String>,
    pub parameters: Vec<Parameter>,
    pub request_body: Option<RequestBody>,
    pub responses: Responses,
}

/// The mathematical value of a [`Parameter`].
pub struct ParameterView {
    pub location: ParameterLocation,
    pub name: Seq<char>,
    pub required: bool,
    pub schema: SchemaRefView,
}

/// The mathematical value of a [`RequestBody`].
pub struct RequestBodyView {
    pub content_type: Seq<char>,
    pub schema: SchemaRefView,
    pub required: bool,
}

/// The mathematical value of a [`Response`].
pub struct ResponseView {
    pub description: Seq<char>,
}

/// The mathematical value of a [`StatusResponse`].
pub struct StatusResponseView {
    pub status: u16,
    pub response: ResponseView,
}

/// The mathematical value of a [`Responses`].
pub struct ResponsesView {
    pub default: Option<ResponseView>,
    pub statuses: Seq<StatusResponseView>,
}

/// The mathematical value of an [`Operation`].
pub struct OperationView {
    pub operation_id: Option<Seq<char>>,
    pub parameters: Seq<ParameterView>,
    pub request_body: Option<RequestBodyView>,
    pub responses: ResponsesView,
}

impl View for Parameter {
    type V = ParameterView;

    open spec fn view(&self) -> ParameterView {
        ParameterView {
            location: self.location,
            name: self.name@,
            required: self.required,
            schema: self.schema@,
        }
    }
}

impl View for RequestBody {
    type V = RequestBodyView;

    open spec fn view(&self) -> RequestBodyView {
        RequestBodyView {
            content_type: self.content_type@,
            schema: self.schema@,
            required: self.required,
        }
    }
}

impl View for Response {
    type V = ResponseView;

    open spec fn view(&self) -> ResponseView {
        ResponseView { description: self.description@ }
    }
}

impl View for StatusResponse {
    type V = StatusResponseView;

    open spec fn view(&self) -> StatusResponseView {
        StatusResponseView { status: self.status, response: self.response@ }
    }
}

/// The values of a list of parameters.
pub open spec fn parameter_views(v: Seq<Parameter>) -> Seq<ParameterView> {
    Seq::new(v.len(), |i: int| v[i]@)
}

/// The values of a list of responses.
pub open spec fn status_views(v: Seq<StatusResponse>) -> Seq<StatusResponseView> {
    Seq::new(v.len(), |i: int| v[i]@)
}

/// The value of a string that may be absent.
pub open spec fn optional_text(s: Option<String>) -> Option<Seq<char>> {
    match s {
        Some(s) => Some(s@),
        None => None,
    }
}

impl View for Responses {
    type V = ResponsesView;

    open spec fn view(&self) -> ResponsesView {
        ResponsesView {
            default: match self.default {
                Some(r) => Some(r@),
                None => None,
            },
            statuses: status_views(self.statuses@),
        }
    }
}

impl View for Operation {
    type V = OperationView;

    open spec fn view(&self) -> OperationView {
        OperationView {
            operation_id: optional_text(self.operation_id),
            parameters: parameter_views(self.parameters@),
            request_body: match self.request_body {
                Some(b) => Some(b@),
                None => None,
            },
            responses: self.responses@,
        }
    }
}

impl Clone for Parameter {
    fn clone(&self) -> (r: Parameter)
        ensures
            r@ == self@,
    {
        Parameter {
            location: self.location,
            name: self.name.clone(),
            required: self.required,
            schema: self.schema.clone(),
        }
    }
}

impl Clone for RequestBody {
    fn clone(&self) -> (r: RequestBody)
        ensures
            r@ == self@,
    {
        RequestBody {
            content_type: self.content_type.clone(),
            schema: self.schema.clone(),
            required: self.required,
        }
    }
}

impl Clone for Response {
    fn clone(&self) -> (r: Response)
        ensures
            r@ == self@,
    {
        Response { description: self.description.clone() }
    }
}

impl Clone for StatusResponse {
    fn clone(&self) -> (r: StatusResponse)
        ensures
            r@ == self@,
    {
        StatusResponse { status: self.status, response: self.response.clone() }
    }
}

/// Copies a list of parameters.
pub fn clone_parameters(v: &Vec<Parameter>) -> (r: Vec<Parameter>)
    ensures
        parameter_views(r@) == parameter_views(v@),
{
    let mut out: Vec<Parameter> = Vec::new();
    let mut i: usize = 0;
    while i < v.len()
        invariant
            i <= v.len(),
            out.len() == i,
            forall|j: int| 0 <= j < i ==> out[j]@ == v[j]@,
        decreases v.len() - i,
    {
        out.push(v[i].clone());
        i += 1;
    }
    assert(parameter_views(out@) =~= parameter_views(v@));
    out
}

impl Clone for Responses {
    fn clone(&self) -> (r: Responses)
        ensures
            r@ == self@,
    {
        let mut out: Vec<StatusResponse> = Vec::new();
        let mut i: usize = 0;
        while i < self.statuses.len()
            invariant
                i <= self.statuses.len(),
                out.len() == i,
                forall|j: int| 0 <= j < i ==> out[j]@ == self.statuses[j]@,
            decreases self.statuses.len() - i,
        {
            out.push(self.statuses[i].clone());
            i += 1;
        }
        assert(status_views(out@) =~= status_views(self.statuses@));
        Responses {
            default: match &self.default {
                Some(r) => Some(r.clone()),
                None => None,
            },
            statuses: out,
        }
    }
}

impl Clone for Operation {
    fn clone(&self) -> (r: Operation)
        ensures
            r@ == self@,
    {
        Operation {
            operation_id: match &self.operation_id {
                Some(id) => Some(id.clone()),
                None => None,
            },
            parameters: clone_parameters(&self.parameters),
            request_body: match &self.request_body {
                Some(b) => Some(b.clone()),
                None => None,
            },
            responses: self.responses.clone(),
        }
    }
}

/// The operation that says nothing.
pub open spec fn empty_operation() -> OperationView {
    OperationView {
        operation_id: None,
        parameters: Seq::empty(),
        request_body: None,
        responses: ResponsesView { default: None, statuses: Seq::empty() },
    }
}

impl Default for Operation {
    fn default() -> (r: Operation)
        ensures
            r@ == empty_operation(),
    {
        let r = Operation {
            operation_id: None,
            parameters: Vec::new(),
            request_body: None,
            responses: Responses { default: None, statuses: Vec::new() },
        };
        assert(parameter_views(r.parameters@) =~= Seq::empty());
        assert(status_views(r.responses.statuses@) =~= Seq::empty());
        r
    }
}

/// The name that the path parameter at position `i` of a handler carries
/// until the path template gives it its own.
pub open spec fn placeholder_for(i: nat) -> Seq<char> {
    "__parameter"@ + decimal(i)
}

/// One path parameter for each schema, named by its position.
pub open spec fn positional_parameters(schemas: Seq<SchemaRefView>) -> Seq<ParameterView> {
    Seq::new(
        schemas.len(),
        |i: int|
            ParameterView {
                location: ParameterLocation::Path,
                name: placeholder_for(i as nat),
                required: true,
                schema: schemas[i],
            },
    )
}

/// One query parameter for each property.
pub open spec fn query_parameters(properties: Seq<PropertyView>, required: bool) -> Seq<
    ParameterView,
> {
    Seq::new(
        properties.len(),
        |i: int|
            ParameterView {
                location: ParameterLocation::Query,
                name: properties[i].name,
                required,
                schema: properties[i].schema,
            },
    )
}

/// The values of a list of schemas.
pub open spec fn schema_ref_views(v: Seq<SchemaRef>) -> Seq<SchemaRefView> {
    Seq::new(v.len(), |i: int| v[i]@)
}

/// Adds one path parameter for each schema, in order.  The parameter at
/// position `i` is called `__parameter` followed by `i` in decimal, and is
/// required.
pub fn url_params(op: &mut Operation, parameters: &Vec<SchemaRef>)
    ensures
        final(op)@ == (OperationView {
            parameters: old(op)@.parameters + positional_parameters(schema_ref_views(parameters@)),
            ..old(op)@
        }),
{
    let ghost added = positional_parameters(schema_ref_views(parameters@));
    let ghost start = op@;
    let mut i: usize = 0;
    assert(start.parameters + added.take(0) =~= start.parameters);
    while i < parameters.len()
        invariant
            i <= parameters.len(),
            added == positional_parameters(schema_ref_views(parameters@)),
            op@ == (OperationView { parameters: start.parameters + added.take(i as int), ..start }),
        decreases parameters.len() - i,
    {
        let ghost before = parameter_views(op.parameters@);
        let mut name = String::from_str("__parameter");
        name.append(decimal_string(i).as_str());
        let p = Parameter {
            location: ParameterLocation::Path,
            name,
            required: true,
            schema: parameters[i].clone(),
        };
        assert(p@ == added[i as int]);
        op.parameters.push(p);
        proof {
            assert(parameter_views(op.parameters@) =~= before.push(p@));
            assert(start.parameters + added.take(i + 1) =~= (start.parameters + added.take(
                i as int,
            )).push(added[i as int]));
        }
        i += 1;
    }
    assert(added.take(i as int) =~= added);
}

} // verus!
