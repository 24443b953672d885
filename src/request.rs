//! What the client sends for a command.

use crate::body::{body_text, field_views, post_body};
use crate::command::Command;
use vstd::prelude::*;

verus! {

/// The HTTP methods the client uses.
#[derive(Debug, Clone, Copy, PartialEq, Eq, Structural)]
pub enum Method {
    Get,
    Post,
}

/// One HTTP request, ready for a transport to send.
#[derive(Debug, Clone, PartialEq, Eq)]
pub struct Request {
    pub method: Method,
    pub url: String,
    /// The value of the `Content-Type` header, where the request sets one.
    pub content_type: Option<String>,
    /// The body, where the request has one.
    pub body: Option<String>,
}

/// The media type of a JSON body.
pub open spec fn json_media_type() -> Seq<char> {
    seq!['a', 'p', 'p', 'l', 'i', 'c', 'a', 't', 'i', 'o', 'n', '/', 'j', 's', 'o', 'n']
}

/// Builds the request for a command: a GET without body or extra header; a
/// POST whose body is the JSON object of its fields, marked as JSON.
pub fn build_request(cmd: &Command) -> (r: Request)
    ensures
        match cmd {
            Command::Get { url } => {
                &&& r.method == Method::Get
                &&& r.url@ == url@
                &&& r.content_type is None
                &&& r.body is None
            },
            Command::Post { url, body } => {
                &&& r.method == Method::Post
                &&& r.url@ == url@
                &&& r.content_type is Some && r.content_type->0@ == json_media_type()
                &&& r.body is Some && r.body->0@ == body_text(field_views(body@))
            },
        },
{
    match cmd {
        Command::Get { url } => Request {
            method: Method::Get,
            url: url.clone(),
            content_type: None,
            body: None,
        },
        Command::Post { url, body } => {
            proof {
                reveal_strlit("application/json");
            }
            let ct = String::from_str("application/json");
            assert(ct@ =~= json_media_type());
            Request {
                method: Method::Post,
                url: url.clone(),
                content_type: Some(ct),
                body: Some(post_body(body)),
            }
        },
    }
}

} // verus!
