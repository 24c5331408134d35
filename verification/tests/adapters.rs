use axum_openapi::adapters::{HandlerExt, IgnoreOpenapiHandler, WithOpenapiHandler};
use axum_openapi::app::OperationHandler;
use axum_openapi::operation::Operation;

fn described() -> Operation {
    Operation { operation_id: Some("mine".to_string()), ..Operation::default() }
}

#[test]
fn an_ignored_handler_leaves_the_operation_alone() {
    let wrapped = IgnoreOpenapiHandler::new(7u8);
    assert_eq!(*wrapped.service(), 7);
    let mut op = described();
    wrapped.modify_op(&mut op);
    assert_eq!(op, described());
    assert_eq!(wrapped.operation_handler(), OperationHandler::Ignore);
    assert_eq!(*"handler".ignore_openapi().service(), "handler");
}

#[test]
fn a_described_handler_puts_its_operation_in_place() {
    let wrapped = WithOpenapiHandler::new(7u8, described());
    assert_eq!(*wrapped.service(), 7);
    let mut op = Operation::default();
    wrapped.modify_op(&mut op);
    assert_eq!(op, described());
    assert_eq!(wrapped.operation_handler(), OperationHandler::With(described()));
    let extended = "handler".with_openapi(described());
    assert_eq!(*extended.service(), "handler");
    assert_eq!(extended.operation_handler(), OperationHandler::With(described()));
}

#[test]
fn a_wrapper_gives_back_what_it_wraps() {
    assert_eq!(IgnoreOpenapiHandler::new(7u8).into_service(), 7);
    assert_eq!(WithOpenapiHandler::new(7u8, described()).into_parts(), (7, described()));
}
