use axum_openapi::response::{yaml_response, Reply};

#[test]
fn an_encoded_document_is_sent_as_yaml() {
    let reply = yaml_response(Ok(b"openapi: 3.0.3\n".to_vec()));
    assert_eq!(
        reply,
        Reply {
            status: 200,
            content_type: "text/x-yaml".to_string(),
            body: b"openapi: 3.0.3\n".to_vec(),
        }
    );
}

#[test]
fn a_failure_to_encode_is_sent_as_its_message() {
    let reply = yaml_response(Err("no y\u{e4}ml".to_string()));
    assert_eq!(
        reply,
        Reply {
            status: 500,
            content_type: "text/plain".to_string(),
            body: "no y\u{e4}ml".as_bytes().to_vec(),
        }
    );
}
