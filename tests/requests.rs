use httpie::body::{frame_object, merge_pairs, post_body};
use httpie::command::Command;
use httpie::kv::KvPair;
use httpie::request::{build_request, Method};

fn pair(k: &str, v: &str) -> KvPair {
    KvPair {
        k: k.into(),
        v: v.into(),
    }
}

#[test]
fn post_body_is_json_object() {
    let body = post_body(&vec![pair("a", "1"), pair("b", "2")]);
    assert_eq!(body, "{\"a\":\"1\",\"b\":\"2\"}");
}

#[test]
fn post_body_last_value_wins() {
    let body = post_body(&vec![pair("a", "1"), pair("a", "2")]);
    assert_eq!(body, "{\"a\":\"2\"}");
}

#[test]
fn post_body_empty_is_empty_object() {
    assert_eq!(post_body(&Vec::new()), "{}");
}

#[test]
fn post_body_escapes_strings() {
    let body = post_body(&vec![pair("a\"b", "x\\y\n")]);
    assert_eq!(body, "{\"a\\\"b\":\"x\\\\y\\n\"}");
}

#[test]
fn merge_keeps_first_place_and_last_value() {
    let merged = merge_pairs(&vec![pair("a", "1"), pair("b", "2"), pair("a", "3"), pair("c", "")]);
    assert_eq!(merged, vec![pair("a", "3"), pair("b", "2"), pair("c", "")]);
}

#[test]
fn frame_object_joins_members() {
    assert_eq!(frame_object(&vec![pair("1", "2"), pair("[]", "{}")]), "{1:2,[]:{}}");
    assert_eq!(frame_object(&Vec::new()), "{}");
}

#[test]
fn get_request_has_no_body() {
    let r = build_request(&Command::Get {
        url: "http://abc.xyz".into(),
    });
    assert_eq!(r.method, Method::Get);
    assert_eq!(r.url, "http://abc.xyz");
    assert_eq!(r.content_type, None);
    assert_eq!(r.body, None);
}

#[test]
fn post_request_sends_json() {
    let r = build_request(&Command::Post {
        url: "http://httpbin.org/post".into(),
        body: vec![pair("a", "1"), pair("b", "2")],
    });
    assert_eq!(r.method, Method::Post);
    assert_eq!(r.url, "http://httpbin.org/post");
    assert_eq!(r.content_type.as_deref(), Some("application/json"));
    assert_eq!(r.body.as_deref(), Some("{\"a\":\"1\",\"b\":\"2\"}"));
}

#[test]
fn post_body_escapes_control_characters() {
    let body = post_body(&vec![pair("t", "\t\u{1}\u{1f}\u{8}\u{c}\r/é")]);
    assert_eq!(body, "{\"t\":\"\\t\\u0001\\u001f\\b\\f\\r/é\"}");
}
