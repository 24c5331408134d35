use axum_openapi::method::HttpMethod;
use axum_openapi::chain::{RouteError, RouteErrorKind, RouteOperation};
use axum_openapi::expr::{Node, NodeKind, SourceSpan};
use axum_openapi::routes::{parse_routes, RouteEntry};
use axum_openapi::syntax::{parse_routes_source, read_expression, routes_source};
use axum_openapi::document::{PathDescription, PathItem};
use axum_openapi::operation::Operation;

fn binding(method: HttpMethod, handler: &str) -> RouteOperation {
    RouteOperation { method, path: Some(vec![handler.to_string()]) }
}

fn entry(path: &str, operations: Vec<RouteOperation>) -> RouteEntry {
    RouteEntry { path: path.to_string(), operations }
}

#[test]
fn call_single() {
    let routes = parse_routes_source("route(\"/path\", get(get_handler))").unwrap();

    assert_eq!(routes.paths, vec![entry("/path", vec![binding(HttpMethod::Get, "get_handler")])]);
}

#[test]
fn call_multiple_ops() {
    let routes = parse_routes_source(
        "route(\"/path\", get(get_handler).post(post_handler).patch(patch_handler))",
    )
    .unwrap();

    assert_eq!(
        routes.paths,
        vec![entry(
            "/path",
            vec![
                binding(HttpMethod::Get, "get_handler"),
                binding(HttpMethod::Post, "post_handler"),
                binding(HttpMethod::Patch, "patch_handler"),
            ]
        )]
    );
}

#[test]
fn full() {
    let routes = parse_routes_source(
        "route(\"/path\", get(get_handler).post(post_handler).patch(patch_handler)).route(\"/path2\", get(get_handler_2))",
    )
    .unwrap();

    assert_eq!(
        routes.paths,
        vec![
            entry(
                "/path",
                vec![
                    binding(HttpMethod::Get, "get_handler"),
                    binding(HttpMethod::Post, "post_handler"),
                    binding(HttpMethod::Patch, "patch_handler"),
                ]
            ),
            entry("/path2", vec![binding(HttpMethod::Get, "get_handler_2")]),
        ]
    );
}

#[test]
fn closure() {
    let routes = parse_routes_source("route(\"/path\", get(|| async {}))").unwrap();

    assert_eq!(
        routes.paths,
        vec![entry("/path", vec![RouteOperation { method: HttpMethod::Get, path: None }])]
    );
}

#[test]
fn axum_path_regular() {
    assert_eq!(axum_openapi::routes::axum_path("/path/foo"), "/path/foo");
}

#[test]
fn axum_path_params() {
    assert_eq!(axum_openapi::routes::axum_path("/path/:id/:bla"), "/path/{id}/{bla}");
}

fn node(kind: NodeKind) -> Node {
    Node { span: SourceSpan { start: 0, end: 0 }, kind }
}

#[test]
fn a_table_written_by_hand_is_decoded_like_one_read_from_text() {
    let get = node(NodeKind::Call(
        Box::new(node(NodeKind::Path(vec!["get".to_string()]))),
        vec![node(NodeKind::Path(vec!["handlers".to_string(), "find".to_string()]))],
    ));
    let route = node(NodeKind::Call(
        Box::new(node(NodeKind::Path(vec!["route".to_string()]))),
        vec![node(NodeKind::StrLit("/pets/:id".to_string())), get],
    ));
    let routes = parse_routes(&route).unwrap();
    assert_eq!(
        routes.paths,
        vec![entry(
            "/pets/{id}",
            vec![RouteOperation {
                method: HttpMethod::Get,
                path: Some(vec!["handlers".to_string(), "find".to_string()]),
            }]
        )]
    );
}

#[test]
fn an_unknown_method_is_an_error_at_its_call() {
    let source = "route(\"/path\", fetch(handler))";
    let error = parse_routes_source(source).unwrap_err();
    assert_eq!(error.kind, RouteErrorKind::UnknownMethod);
    assert_eq!(&source[error.span.start..error.span.end], "fetch(handler)");
}

#[test]
fn text_that_is_no_expression_is_a_syntax_error() {
    let error: RouteError = parse_routes_source("route(\"/path\", ").unwrap_err();
    assert_eq!(error.kind, RouteErrorKind::Syntax);
}

fn error_of(source: &str) -> (RouteErrorKind, &str) {
    let error = parse_routes_source(source).unwrap_err();
    (error.kind, &source[error.span.start..error.span.end])
}

#[test]
fn each_fault_of_a_declaration_is_reported_where_it_stands() {
    assert_eq!(error_of("app"), (RouteErrorKind::ExpectedCall, "app"));
    assert_eq!(
        error_of("app.route(\"/a\", get(h))"),
        (RouteErrorKind::ExpectedCall, "app")
    );
    assert_eq!(error_of("(make())(\"/a\", get(h))"), (RouteErrorKind::ExpectedFunction, "(make())"));
    assert_eq!(error_of("nest(\"/a\", get(h))"), (RouteErrorKind::ExpectedRoute, "nest(\"/a\", get(h))"));
    assert_eq!(error_of("route(\"/a\")"), (RouteErrorKind::ExpectedTwoArguments, "route(\"/a\")"));
    assert_eq!(error_of("route()"), (RouteErrorKind::ExpectedTwoArguments, "route()"));
    assert_eq!(error_of("route(path, get(h))"), (RouteErrorKind::ExpectedPathLiteral, "path"));
    assert_eq!(error_of("route(1, get(h))"), (RouteErrorKind::ExpectedPathLiteral, "1"));
    assert_eq!(error_of("route(\"/a\", GET(h))"), (RouteErrorKind::UnknownMethod, "GET(h)"));
    assert_eq!(error_of("route(\"/a\", get())"), (RouteErrorKind::ExpectedOneArgument, "get()"));
    assert_eq!(error_of("route(\"/a\", h)"), (RouteErrorKind::ExpectedCall, "h"));
    assert_eq!(
        error_of("route(\"/a\", get(h).get(g))"),
        (RouteErrorKind::DuplicateMethod, "route(\"/a\", get(h).get(g))")
    );
    assert_eq!(
        error_of("route(\"/a\", get(h)).route(\"/a\", get(g))"),
        (RouteErrorKind::DuplicateMethod, "route(\"/a\", get(h))")
    );
}

#[test]
fn an_empty_path_is_a_fault_that_only_a_tree_written_by_hand_can_have() {
    let callee = Node { span: SourceSpan { start: 3, end: 4 }, kind: NodeKind::Path(vec![]) };
    let call = node(NodeKind::Call(Box::new(callee), vec![]));
    assert_eq!(
        parse_routes(&call),
        Err(RouteError {
            kind: RouteErrorKind::EmptyPath,
            span: SourceSpan { start: 3, end: 4 }
        })
    );
}

#[test]
fn the_fault_of_an_outer_call_comes_before_the_fault_of_an_inner_one() {
    assert_eq!(error_of("app.route(\"/a\")").0, RouteErrorKind::ExpectedTwoArguments);
    assert_eq!(error_of("route(1, 2).route(\"/a\", get(h))").0, RouteErrorKind::ExpectedPathLiteral);
    assert_eq!(error_of("route(\"/a\", h.get(x).fetch(y))").0, RouteErrorKind::UnknownMethod);
    assert_eq!(error_of("route(\"/a\", h.get(x))").0, RouteErrorKind::ExpectedCall);
}

#[test]
fn further_arguments_are_not_looked_at() {
    let routes = parse_routes_source("route(\"/a\", get(h, 1, 2), more)").unwrap();
    assert_eq!(routes.paths, vec![entry("/a", vec![binding(HttpMethod::Get, "h")])]);
}

#[test]
fn a_function_is_called_by_the_last_segment_of_its_path() {
    let routes =
        parse_routes_source("axum::route(\"/a\", axum::handler::get(handlers::find))").unwrap();
    assert_eq!(
        routes.paths,
        vec![entry(
            "/a",
            vec![RouteOperation {
                method: HttpMethod::Get,
                path: Some(vec!["handlers".to_string(), "find".to_string()]),
            }]
        )]
    );
}

#[test]
fn the_entries_stand_in_the_order_of_their_paths() {
    let routes = parse_routes_source(
        "route(\"/b\", get(b)).route(\"/a/:x\", get(a)).route(\"/c\", get(c)).route(\"/a\", get(root))",
    )
    .unwrap();
    let paths: Vec<&str> = routes.paths.iter().map(|entry| entry.path.as_str()).collect();
    assert_eq!(paths, vec!["/a", "/a/{x}", "/b", "/c"]);
}

#[test]
fn routes_for_one_path_make_up_one_entry() {
    let routes = parse_routes_source(
        "route(\"/pets/:id\", get(find).put(change)).route(\"/x\", get(x)).route(\"/pets/{id}\", delete(remove))",
    )
    .unwrap();
    assert_eq!(
        routes.paths,
        vec![
            entry(
                "/pets/{id}",
                vec![
                    binding(HttpMethod::Delete, "remove"),
                    binding(HttpMethod::Get, "find"),
                    binding(HttpMethod::Put, "change"),
                ]
            ),
            entry("/x", vec![binding(HttpMethod::Get, "x")]),
        ]
    );
}

#[test]
fn all_eight_methods_can_be_bound() {
    let routes = parse_routes_source(
        "route(\"/\", get(a).put(b).post(c).delete(d).options(e).head(f).patch(g).trace(h))",
    )
    .unwrap();
    let methods: Vec<HttpMethod> = routes.paths[0].operations.iter().map(|op| op.method).collect();
    assert_eq!(methods, HttpMethod::all().to_vec());
}

fn stub(id: Option<&str>) -> Option<Operation> {
    Some(Operation { operation_id: id.map(str::to_string), ..Operation::default() })
}

#[test]
fn each_path_gets_a_path_item_with_an_operation_for_each_method_bound() {
    let declared = routes_source(
        "route(\"/pets\", get(find_pets).post(api::add_pet)).route(\"/pets/:id\", delete(|id| async {}))",
    )
    .unwrap();
    assert_eq!(
        declared,
        vec![
            PathDescription {
                path: "/pets".to_string(),
                path_item: PathItem {
                    get: stub(Some("find_pets")),
                    post: stub(Some("add_pet")),
                    ..PathItem::default()
                },
            },
            PathDescription {
                path: "/pets/{id}".to_string(),
                path_item: PathItem { delete: stub(None), ..PathItem::default() },
            },
        ]
    );
    assert_eq!(
        routes_source("route(\"/pets\", fetch(x))").unwrap_err().kind,
        RouteErrorKind::UnknownMethod
    );
    assert_eq!(routes_source("route(").unwrap_err().kind, RouteErrorKind::Syntax);
}

#[test]
fn an_error_of_a_route_declaration_says_what_is_wrong() {
    let error = parse_routes_source("route(\"/a\", fetch(h))").unwrap_err();
    assert_eq!(error.message(), "unknown http method");
    let kinds = [
        (RouteErrorKind::Syntax, "expected an expression"),
        (RouteErrorKind::ExpectedCall, "expected method or function call"),
        (RouteErrorKind::ExpectedFunction, "expected call to function"),
        (RouteErrorKind::EmptyPath, "empty path"),
        (RouteErrorKind::ExpectedRoute, "expected call to `route`"),
        (RouteErrorKind::ExpectedTwoArguments, "expected two arguments"),
        (RouteErrorKind::ExpectedPathLiteral, "expected path string literal"),
        (RouteErrorKind::ExpectedOneArgument, "expected one argument"),
        (RouteErrorKind::DuplicateMethod, "method bound twice for one path"),
    ];
    for (kind, text) in kinds {
        let error = RouteError { kind, span: SourceSpan { start: 0, end: 0 } };
        assert_eq!(error.message(), text);
    }
}

fn at(start: usize, end: usize, kind: NodeKind) -> Node {
    Node { span: SourceSpan { start, end }, kind }
}

#[test]
fn a_text_is_read_as_the_tree_of_its_calls() {
    let source = "route(\"/a\", get(x::h).post(|| 1))";
    let tree = read_expression(source).unwrap();
    let get = at(
        12,
        21,
        NodeKind::Call(
            Box::new(at(12, 15, NodeKind::Path(vec!["get".to_string()]))),
            vec![at(16, 20, NodeKind::Path(vec!["x".to_string(), "h".to_string()]))],
        ),
    );
    let chain = at(
        12,
        32,
        NodeKind::MethodCall(Box::new(get), "post".to_string(), vec![at(27, 31, NodeKind::Other)]),
    );
    let expected = at(
        0,
        33,
        NodeKind::Call(
            Box::new(at(0, 5, NodeKind::Path(vec!["route".to_string()]))),
            vec![at(6, 10, NodeKind::StrLit("/a".to_string())), chain],
        ),
    );
    assert_eq!(tree, expected);
    assert_eq!(parse_routes(&tree), parse_routes_source(source));
}

#[test]
fn a_string_literal_is_read_as_the_string_it_denotes() {
    let tree = read_expression("\"/a\\n\\u{e4}\"").unwrap();
    assert_eq!(tree.kind, NodeKind::StrLit("/a\n\u{e4}".to_string()));
    let raw = read_expression("r#\"/a\\n\"#").unwrap();
    assert_eq!(raw.kind, NodeKind::StrLit("/a\\n".to_string()));
    assert_eq!(read_expression("b\"/a\"").unwrap().kind, NodeKind::Other);
    assert_eq!(read_expression("1 + ").unwrap_err().kind, RouteErrorKind::Syntax);
}
