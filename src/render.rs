//! Laying out a response for a terminal: a status line, the headers, and a
//! body formatted by its media type. The layout is a list of styled pieces of
//! text; the caller chooses how each style looks.

use crate::request::json_media_type;
use vstd::prelude::*;

verus! {

/// How a piece of the output is shown.
#[derive(Debug, Clone, Copy, PartialEq, Eq, Structural)]
pub enum Style {
    /// Text as it is.
    Plain,
    /// The status line.
    Status,
    /// A header name.
    HeaderName,
    /// A pretty-printed JSON body.
    Json,
}

/// A piece of the output with its style.
#[derive(Debug, Clone, PartialEq, Eq)]
pub struct Piece {
    pub style: Style,
    pub text: String,
}

impl View for Piece {
    type V = (Style, Seq<char>);

    open spec fn view(&self) -> (Style, Seq<char>) {
        (self.style, self.text@)
    }
}

/// A response as the renderer reads it.
#[derive(Debug, Clone, PartialEq, Eq)]
pub struct Response {
    /// The protocol version, such as `HTTP/1.1`.
    pub version: String,
    /// The numeric status code.
    pub status: u16,
    /// The reason phrase of the status; may be empty.
    pub reason: String,
    /// Header names and values, in the order the transport gave them.
    pub headers: Vec<(String, String)>,
    /// The whole body as text.
    pub body: String,
}

/// Why a response could not be shown.
#[derive(Debug, Clone, PartialEq, Eq)]
pub enum RenderError {
    /// The response declared a JSON body that is not JSON; the message of
    /// the JSON reader is kept.
    InvalidJson(String),
}

/// The essence (`type/subtype`, lower case, without parameters) of a media
/// type as the `mime` crate parses it, or `None` where it does not parse.
pub uninterp spec fn mime_essence_of(s: Seq<char>) -> Option<Seq<char>>;

/// Relies on `mime::Mime`'s `FromStr` and `Mime::essence_str`: the parse
/// and its essence depend on the text alone.
#[verifier::external_body]
fn mime_essence(s: &str) -> (r: Option<String>)
    ensures
        r is Some <==> mime_essence_of(s@) is Some,
        r is Some ==> r->0@ == mime_essence_of(s@)->0,
{
    match s.parse::<mime::Mime>() {
        Ok(m) => Some(m.essence_str().to_string()),
        Err(_) => None,
    }
}

/// Whether `serde_json` reads the text as one JSON value.
pub uninterp spec fn json_valid(s: Seq<char>) -> bool;

/// Relies on `serde_json::from_str` into `serde_json::Value`: whether it
/// succeeds depends on the text alone. Its error message is kept.
#[verifier::external_body]
fn check_json(s: &str) -> (r: Result<(), String>)
    ensures
        r is Ok <==> json_valid(s@),
{
    match serde_json::from_str::<serde_json::Value>(s) {
        Ok(_) => Ok(()),
        Err(e) => Err(e.to_string()),
    }
}

/// The JSON text re-indented by `jsonxf`, or `None` where it fails.
pub uninterp spec fn pretty_json(s: Seq<char>) -> Option<Seq<char>>;

/// Relies on `jsonxf::pretty_print`: its result depends on the text alone.
#[verifier::external_body]
fn pretty_print(s: &str) -> (r: Result<String, String>)
    ensures
        r is Ok <==> pretty_json(s@) is Some,
        r is Ok ==> r->Ok_0@ == pretty_json(s@)->0,
{
    jsonxf::pretty_print(s)
}

/// The character of a decimal digit.
pub open spec fn digit_char(d: nat) -> char {
    "0123456789"@[d as int]
}

/// The decimal numeral of `n`, without leading zeros.
pub open spec fn decimal(n: nat) -> Seq<char>
    decreases n,
{
    if n < 10 {
        seq![digit_char(n)]
    } else {
        decimal(n / 10) + seq![digit_char(n % 10)]
    }
}

/// The text of the status line.
pub open spec fn status_text(version: Seq<char>, status: nat, reason: Seq<char>) -> Seq<char> {
    if reason.len() == 0 {
        version + seq![' '] + decimal(status)
    } else {
        version + seq![' '] + decimal(status) + seq![' '] + reason
    }
}

/// The views of a list of header names and values.
pub open spec fn header_views(h: Seq<(String, String)>) -> Seq<(Seq<char>, Seq<char>)> {
    h.map_values(|p: (String, String)| (p.0@, p.1@))
}

/// The views of a list of pieces.
pub open spec fn piece_views(v: Seq<Piece>) -> Seq<(Style, Seq<char>)> {
    v.map_values(|p: Piece| p@)
}

/// The two pieces of one header line: the name, then `: value` and a line
/// break.
pub open spec fn header_pieces(h: (Seq<char>, Seq<char>)) -> Seq<(Style, Seq<char>)> {
    seq![(Style::HeaderName, h.0), (Style::Plain, seq![':', ' '] + h.1 + seq!['\n'])]
}

/// The pieces of all header lines, in order.
pub open spec fn headers_pieces(h: Seq<(Seq<char>, Seq<char>)>) -> Seq<(Style, Seq<char>)>
    decreases h.len(),
{
    if h.len() == 0 {
        Seq::empty()
    } else {
        headers_pieces(h.drop_last()) + header_pieces(h.last())
    }
}

/// `n` names the `Content-Type` header, in any ASCII case.
pub open spec fn is_content_type_name(n: Seq<char>) -> bool {
    &&& n.len() == "content-type"@.len()
    &&& forall|i: int|
        0 <= i < n.len() ==> n[i] == "content-type"@[i] || n[i] == "CONTENT-TYPE"@[i]
}

/// The value of the first `Content-Type` header, if there is one.
pub open spec fn content_type_value(h: Seq<(Seq<char>, Seq<char>)>) -> Option<Seq<char>>
    decreases h.len(),
{
    if h.len() == 0 {
        None
    } else if is_content_type_name(h[0].0) {
        Some(h[0].1)
    } else {
        content_type_value(h.drop_first())
    }
}

/// The essence of the declared media type, where there is a `Content-Type`
/// header and its value parses.
pub open spec fn content_type_of(h: Seq<(Seq<char>, Seq<char>)>) -> Option<Seq<char>> {
    match content_type_value(h) {
        Some(v) => mime_essence_of(v),
        None => None,
    }
}

/// The body is shown as JSON when its media type is exactly
/// `application/json`, parameters aside.
pub open spec fn declares_json(essence: Option<Seq<char>>) -> bool {
    essence == Some(json_media_type())
}

/// The piece for a body: the raw text where the media type is not JSON;
/// where it is, pretty-printed JSON if the body is JSON and formats, and no
/// piece otherwise.
pub open spec fn body_piece(json: bool, body: Seq<char>) -> Option<(Style, Seq<char>)> {
    if !json {
        Some((Style::Plain, body))
    } else if !json_valid(body) {
        None
    } else {
        match pretty_json(body) {
            Some(t) => Some((Style::Json, t)),
            None => None,
        }
    }
}

/// Two line breaks.
pub open spec fn blank_line() -> Seq<char> {
    seq!['\n', '\n']
}

/// The whole layout of a response whose body piece is `b`.
pub open spec fn response_pieces(
    version: Seq<char>,
    status: nat,
    reason: Seq<char>,
    h: Seq<(Seq<char>, Seq<char>)>,
    b: (Style, Seq<char>),
) -> Seq<(Style, Seq<char>)> {
    seq![(Style::Status, status_text(version, status, reason)), (Style::Plain, blank_line())]
        + headers_pieces(h) + seq![(Style::Plain, blank_line()), b, (Style::Plain, seq!['\n'])]
}

/// The decimal numeral of `n`.
pub fn decimal_text(n: u16) -> (r: String)
    ensures
        r@ == decimal(n as nat),
{
    let digits = "0123456789";
    proof {
        reveal_strlit("0123456789");
    }
    let mut m: u16 = n / 10;
    let d = (n % 10) as usize;
    let mut out = String::from_str(digits.substring_char(d, d + 1));
    assert(out@ =~= seq![digit_char(d as nat)]);
    while m > 0
        invariant
            digits@ == "0123456789"@,
            digits@.len() == 10,
            decimal(n as nat) == (if m == 0 {
                Seq::empty()
            } else {
                decimal(m as nat)
            }) + out@,
        decreases m,
    {
        let d = (m % 10) as usize;
        let ghost rest = out@;
        out = String::from_str(digits.substring_char(d, d + 1)).concat(out.as_str());
        assert(out@ =~= seq![digit_char(d as nat)] + rest);
        assert(decimal(m as nat) =~= (if m / 10 == 0 {
            Seq::empty()
        } else {
            decimal((m / 10) as nat)
        }) + seq![digit_char(d as nat)]);
        m = m / 10;
    }
    assert(decimal(n as nat) =~= out@);
    out
}

/// The status line: the protocol version, the status code, and the reason
/// phrase where there is one.
pub fn render_status(version: &str, status: u16, reason: &str) -> (r: Piece)
    ensures
        r@ == (Style::Status, status_text(version@, status as nat, reason@)),
{
    proof {
        reveal_strlit(" ");
        assert(" "@ =~= seq![' ']);
    }
    let mut text = String::from_str(version);
    text.append(" ");
    let code = decimal_text(status);
    text.append(code.as_str());
    if reason.unicode_len() > 0 {
        text.append(" ");
        text.append(reason);
    }
    assert(text@ =~= status_text(version@, status as nat, reason@));
    Piece { style: Style::Status, text }
}

/// One piece for each header name, and one for the rest of its line.
pub fn render_headers(headers: &Vec<(String, String)>) -> (r: Vec<Piece>)
    ensures
        piece_views(r@) == headers_pieces(header_views(headers@)),
{
    let ghost h = header_views(headers@);
    let mut out: Vec<Piece> = Vec::new();
    let mut i: usize = 0;
    while i < headers.len()
        invariant
            i <= headers@.len(),
            h == header_views(headers@),
            piece_views(out@) == headers_pieces(h.take(i as int)),
        decreases headers@.len() - i,
    {
        proof {
            reveal_strlit(": ");
            reveal_strlit("\n");
            assert(": "@ =~= seq![':', ' ']);
            assert("\n"@ =~= seq!['\n']);
            assert(h.take(i as int + 1).drop_last() =~= h.take(i as int));
            assert(h.take(i as int + 1).last() == h[i as int]);
            assert(h[i as int] == (headers@[i as int].0@, headers@[i as int].1@));
        }
        let name = headers[i].0.clone();
        let mut rest = String::from_str(": ");
        rest.append(headers[i].1.as_str());
        rest.append("\n");
        let ghost prev = out@;
        out.push(Piece { style: Style::HeaderName, text: name });
        out.push(Piece { style: Style::Plain, text: rest });
        assert(piece_views(out@) =~= piece_views(prev) + header_pieces(h[i as int]));
        i = i + 1;
    }
    assert(h.take(headers@.len() as int) =~= h);
    out
}

/// Whether `name` names the `Content-Type` header, in any ASCII case.
pub fn is_content_type(name: &str) -> (r: bool)
    ensures
        r == is_content_type_name(name@),
{
    let lower = "content-type";
    let upper = "CONTENT-TYPE";
    proof {
        reveal_strlit("content-type");
        reveal_strlit("CONTENT-TYPE");
    }
    let n = name.unicode_len();
    if n != 12 {
        return false;
    }
    let mut i: usize = 0;
    while i < n
        invariant
            n == name@.len(),
            n == 12,
            lower@ == "content-type"@,
            upper@ == "CONTENT-TYPE"@,
            lower@.len() == 12,
            upper@.len() == 12,
            i <= n,
            forall|j: int| 0 <= j < i ==> name@[j] == lower@[j] || name@[j] == upper@[j],
        decreases n - i,
    {
        let c = name.get_char(i);
        if c != lower.get_char(i) && c != upper.get_char(i) {
            return false;
        }
        i = i + 1;
    }
    true
}

/// The essence of the media type that the first `Content-Type` header
/// declares; `None` where there is no such header or its value does not
/// parse.
pub fn get_content_type(headers: &Vec<(String, String)>) -> (r: Option<String>)
    ensures
        r is Some <==> content_type_of(header_views(headers@)) is Some,
        r is Some ==> r->0@ == content_type_of(header_views(headers@))->0,
{
    let ghost h = header_views(headers@);
    assert(h.subrange(0, h.len() as int) =~= h);
    let mut i: usize = 0;
    while i < headers.len()
        invariant
            i <= headers@.len(),
            h == header_views(headers@),
            content_type_value(h) == content_type_value(h.subrange(i as int, h.len() as int)),
        decreases headers@.len() - i,
    {
        let ghost tail = h.subrange(i as int, h.len() as int);
        assert(tail[0] == (headers@[i as int].0@, headers@[i as int].1@));
        if is_content_type(headers[i].0.as_str()) {
            return mime_essence(headers[i].1.as_str());
        }
        assert(tail.drop_first() =~= h.subrange(i as int + 1, h.len() as int));
        i = i + 1;
    }
    assert(h.subrange(i as int, h.len() as int).len() == 0);
    None
}

/// Whether a media type essence is `application/json`.
pub fn is_json(essence: &Option<String>) -> (r: bool)
    ensures
        r == declares_json(
            match essence {
                Some(e) => Some(e@),
                None => None,
            },
        ),
{
    match essence {
        Some(e) => {
            proof {
                reveal_strlit("application/json");
            }
            let j = String::from_str("application/json");
            assert(j@ =~= json_media_type());
            *e == j
        },
        None => false,
    }
}

/// The body piece: when `json`, the body pretty-printed, or an error where
/// it is not JSON or cannot be formatted; otherwise the body unchanged.
pub fn render_body(json: bool, body: &str) -> (r: Result<Piece, RenderError>)
    ensures
        r is Ok <==> body_piece(json, body@) is Some,
        r is Ok ==> r->Ok_0@ == body_piece(json, body@)->0,
{
    if json {
        match check_json(body) {
            Ok(()) => {},
            Err(msg) => {
                return Err(RenderError::InvalidJson(msg));
            },
        }
        match pretty_print(body) {
            Ok(t) => Ok(Piece { style: Style::Json, text: t }),
            Err(msg) => Err(RenderError::InvalidJson(msg)),
        }
    } else {
        Ok(Piece { style: Style::Plain, text: String::from_str(body) })
    }
}

/// Lays out a whole response: the status line and a blank line, the header
/// lines and a blank line, then the body and a line break. The body is
/// pretty-printed where the `Content-Type` header declares JSON; where the
/// body is then not JSON, nothing is laid out and the error is returned.
pub fn render_response(resp: &Response) -> (r: Result<Vec<Piece>, RenderError>)
    ensures
        ({
            let json = declares_json(content_type_of(header_views(resp.headers@)));
            let b = body_piece(json, resp.body@);
            &&& r is Ok <==> b is Some
            &&& r is Ok ==> piece_views(r->Ok_0@) == response_pieces(
                resp.version@,
                resp.status as nat,
                resp.reason@,
                header_views(resp.headers@),
                b->0,
            )
        }),
{
    let essence = get_content_type(&resp.headers);
    let json = is_json(&essence);
    let body = match render_body(json, resp.body.as_str()) {
        Ok(p) => p,
        Err(e) => {
            return Err(e);
        },
    };
    proof {
        reveal_strlit("\n\n");
        reveal_strlit("\n");
        assert("\n\n"@ =~= blank_line());
        assert("\n"@ =~= seq!['\n']);
    }
    let mut out: Vec<Piece> = Vec::new();
    out.push(render_status(resp.version.as_str(), resp.status, resp.reason.as_str()));
    out.push(Piece { style: Style::Plain, text: String::from_str("\n\n") });
    let mut hs = render_headers(&resp.headers);
    out.append(&mut hs);
    out.push(Piece { style: Style::Plain, text: String::from_str("\n\n") });
    out.push(body);
    out.push(Piece { style: Style::Plain, text: String::from_str("\n") });
    assert(piece_views(out@) =~= response_pieces(
        resp.version@,
        resp.status as nat,
        resp.reason@,
        header_views(resp.headers@),
        body@,
    ));
    Ok(out)
}

} // verus!
