//! What a service answers when it is asked for its document as YAML.

use vstd::prelude::*;
use vstd::string::*;
use vstd::utf8::encode_utf8;

verus! {

/// An answer: the status code, the content type and the body.
#[derive(Debug, PartialEq, Eq)]
pub struct Reply {
    pub status: u16,
    pub content_type: String,
    pub body: Vec<u8>,
}

/// The mathematical value of a [`Reply`].
pub struct ReplyView {
    pub status: u16,
    pub content_type: Seq<char>,
    pub body: Seq<u8>,
}

impl View for Reply {
    type V = ReplyView;

    open spec fn view(&self) -> ReplyView {
        ReplyView { status: self.status, content_type: self.content_type@, body: self.body@ }
    }
}

/// The answer for the outcome of encoding a document as YAML: the encoded
/// document with status 200 and the content type `text/x-yaml`; or, where
/// the encoding failed, its message as plain text with status 500.
pub open spec fn yaml_reply(encoded: Result<Vec<u8>, String>) -> ReplyView {
    match encoded {
        Ok(bytes) => ReplyView { status: 200, content_type: "text/x-yaml"@, body: bytes@ },
        Err(message) => ReplyView {
            status: 500,
            content_type: "text/plain"@,
            body: encode_utf8(message@),
        },
    }
}

/// The answer for the outcome of encoding a document as YAML.
pub fn yaml_response(encoded: Result<Vec<u8>, String>) -> (r: Reply)
    ensures
        r@ == yaml_reply(encoded),
{
    match encoded {
        Ok(bytes) => Reply { status: 200, content_type: String::from_str("text/x-yaml"), body: bytes },
        Err(message) => Reply {
            status: 500,
            content_type: String::from_str("text/plain"),
            body: message.as_str().as_bytes_vec(),
        },
    }
}

} // verus!
