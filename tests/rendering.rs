use httpie::render::{
    RenderError, decimal_text, get_content_type, is_content_type, is_json, render_body, render_headers,
    render_response, render_status, Piece, Response, Style,
};

fn piece(style: Style, text: &str) -> Piece {
    Piece {
        style,
        text: text.into(),
    }
}

fn response(headers: Vec<(&str, &str)>, body: &str) -> Response {
    Response {
        version: "HTTP/1.1".into(),
        status: 200,
        reason: "OK".into(),
        headers: headers
            .into_iter()
            .map(|(n, v)| (n.to_string(), v.to_string()))
            .collect(),
        body: body.into(),
    }
}

#[test]
fn decimal_text_writes_numerals() {
    assert_eq!(decimal_text(0), "0");
    assert_eq!(decimal_text(7), "7");
    assert_eq!(decimal_text(200), "200");
    assert_eq!(decimal_text(404), "404");
    assert_eq!(decimal_text(65535), "65535");
}

#[test]
fn status_line_layout() {
    assert_eq!(
        render_status("HTTP/1.1", 200, "OK"),
        piece(Style::Status, "HTTP/1.1 200 OK")
    );
    assert_eq!(
        render_status("HTTP/2.0", 599, ""),
        piece(Style::Status, "HTTP/2.0 599")
    );
}

#[test]
fn header_lines_in_order() {
    let hs = vec![
        ("server".to_string(), "x".to_string()),
        ("date".to_string(), "today".to_string()),
    ];
    assert_eq!(
        render_headers(&hs),
        vec![
            piece(Style::HeaderName, "server"),
            piece(Style::Plain, ": x\n"),
            piece(Style::HeaderName, "date"),
            piece(Style::Plain, ": today\n"),
        ]
    );
}

#[test]
fn content_type_name_any_case() {
    assert!(is_content_type("content-type"));
    assert!(is_content_type("Content-Type"));
    assert!(is_content_type("CONTENT-TYPE"));
    assert!(!is_content_type("content-length"));
    assert!(!is_content_type("content_type"));
}

#[test]
fn content_type_essence_drops_parameters() {
    let hs = vec![
        ("server".to_string(), "x".to_string()),
        (
            "content-type".to_string(),
            "Application/JSON; charset=utf-8".to_string(),
        ),
    ];
    assert_eq!(get_content_type(&hs).as_deref(), Some("application/json"));
    let bad = vec![("content-type".to_string(), "not a type".to_string())];
    assert_eq!(get_content_type(&bad), None);
    assert_eq!(get_content_type(&Vec::new()), None);
}

#[test]
fn json_essence_only() {
    assert!(is_json(&Some("application/json".to_string())));
    assert!(!is_json(&Some("text/plain".to_string())));
    assert!(!is_json(&None));
}

#[test]
fn json_body_is_pretty_printed() {
    let r = render_response(&response(vec![("Content-Type", "application/json")], "{\"x\":1}"))
        .unwrap();
    assert_eq!(
        r,
        vec![
            piece(Style::Status, "HTTP/1.1 200 OK"),
            piece(Style::Plain, "\n\n"),
            piece(Style::HeaderName, "Content-Type"),
            piece(Style::Plain, ": application/json\n"),
            piece(Style::Plain, "\n\n"),
            piece(Style::Json, "{\n  \"x\": 1\n}"),
            piece(Style::Plain, "\n"),
        ]
    );
}

#[test]
fn plain_body_is_raw() {
    let r = render_response(&response(vec![("Content-Type", "text/plain")], "{\"x\":1}"))
        .unwrap();
    assert_eq!(r[4], piece(Style::Plain, "\n\n"));
    assert_eq!(r[5], piece(Style::Plain, "{\"x\":1}"));
}

#[test]
fn missing_content_type_is_raw() {
    let r = render_response(&response(Vec::new(), "{\"x\":1}")).unwrap();
    assert_eq!(
        r,
        vec![
            piece(Style::Status, "HTTP/1.1 200 OK"),
            piece(Style::Plain, "\n\n"),
            piece(Style::Plain, "\n\n"),
            piece(Style::Plain, "{\"x\":1}"),
            piece(Style::Plain, "\n"),
        ]
    );
}

#[test]
fn malformed_content_type_is_raw() {
    let r = render_response(&response(vec![("content-type", "%%%")], "[1, 2]")).unwrap();
    assert_eq!(r[5], piece(Style::Plain, "[1, 2]"));
}

#[test]
fn body_piece_by_kind() {
    assert_eq!(
        render_body(true, "{\"a\":1,\"b\":2}").unwrap(),
        piece(Style::Json, "{\n  \"a\": 1,\n  \"b\": 2\n}")
    );
    assert_eq!(render_body(false, "a b").unwrap(), piece(Style::Plain, "a b"));
}

#[test]
fn declared_json_that_is_not_json_is_an_error() {
    let r = render_response(&response(vec![("content-type", "application/json")], "{x"));
    assert!(matches!(r, Err(RenderError::InvalidJson(_))));
    assert!(matches!(render_body(true, "not json"), Err(RenderError::InvalidJson(_))));
    assert_eq!(render_body(false, "not json").unwrap(), piece(Style::Plain, "not json"));
}
