//! Checking that a request target is a URL.

use crate::kv::ParseError;
use vstd::prelude::*;

verus! {

/// Whether `url::Url::parse` accepts the text as an absolute URL and the
/// parsed URL has a host.
pub uninterp spec fn url_parse_ok(s: Seq<char>) -> bool;

/// Relies on `reqwest::Url` (the `url` crate's `Url`): its `FromStr`, which
/// calls `Url::parse`, and `Url::has_host`. Both depend on the text alone.
#[verifier::external_body]
fn url_parses(s: &str) -> (r: bool)
    ensures
        r == url_parse_ok(s@),
{
    match s.parse::<reqwest::Url>() {
        Ok(u) => u.has_host(),
        Err(_) => false,
    }
}

/// `e` reports the text `s` as no URL.
pub open spec fn is_invalid_url(e: ParseError, s: Seq<char>) -> bool {
    match e {
        ParseError::InvalidUrl(t) => t@ == s,
        _ => false,
    }
}

/// Checks that `s` is an absolute URL with a host and hands it back
/// unchanged.
pub fn parse_url(s: &str) -> (r: Result<String, ParseError>)
    ensures
        r is Ok <==> url_parse_ok(s@),
        r is Ok ==> r->Ok_0@ == s@,
        r is Err ==> is_invalid_url(r->Err_0, s@),
{
    if url_parses(s) {
        Ok(String::from_str(s))
    } else {
        Err(ParseError::InvalidUrl(String::from_str(s)))
    }
}

} // verus!
