//! The two operations of the client, built from validated command-line
//! arguments.

use crate::kv::{has_separator, is_missing_separator, kv_parts, parse_kv_pair, KvPair, ParseError};
use crate::target::{is_invalid_url, parse_url, url_parse_ok};
use vstd::prelude::*;

verus! {

/// One invocation of the client.
#[derive(Debug, Clone, PartialEq, Eq)]
pub enum Command {
    /// Fetch `url`.
    Get { url: String },
    /// Send the fields of `body` to `url` as a JSON object.
    Post { url: String, body: Vec<KvPair> },
}

/// The index of the first token that holds no `=`, if there is one.
pub open spec fn first_bad_token(tokens: Seq<Seq<char>>) -> Option<int> {
    if exists|j: int| 0 <= j < tokens.len() && !has_separator(tokens[j]) {
        Some(
            choose|j: int|
                0 <= j < tokens.len() && !has_separator(tokens[j]) && forall|l: int|
                    0 <= l < j ==> has_separator(tokens[l]),
        )
    } else {
        None
    }
}

/// The views of a list of strings.
pub open spec fn views_of(v: Seq<String>) -> Seq<Seq<char>> {
    v.map_values(|s: String| s@)
}

/// A token that holds no `=` has a first such one before it or is the first.
proof fn lemma_first_bad_exists(tokens: Seq<Seq<char>>, k: int)
    requires
        0 <= k < tokens.len(),
        !has_separator(tokens[k]),
    ensures
        exists|j: int|
            0 <= j < tokens.len() && !has_separator(tokens[j]) && forall|l: int|
                0 <= l < j ==> has_separator(tokens[l]),
    decreases k,
{
    if exists|j: int| 0 <= j < k && !has_separator(tokens[j]) {
        let j = choose|j: int| 0 <= j < k && !has_separator(tokens[j]);
        lemma_first_bad_exists(tokens, j);
    } else {
        assert(forall|l: int| 0 <= l < k ==> has_separator(tokens[l]));
    }
}

impl Command {
    /// The URL the command is sent to.
    pub open spec fn url_view(&self) -> Seq<char> {
        match self {
            Command::Get { url } => url@,
            Command::Post { url, .. } => url@,
        }
    }

    /// Builds a GET command for `url`, which must be a URL.
    pub fn get(url: &str) -> (r: Result<Command, ParseError>)
        ensures
            r is Ok <==> url_parse_ok(url@),
            r is Ok ==> r->Ok_0 is Get && r->Ok_0.url_view() == url@,
            r is Err ==> is_invalid_url(r->Err_0, url@),
    {
        match parse_url(url) {
            Ok(u) => Ok(Command::Get { url: u }),
            Err(e) => Err(e),
        }
    }

    /// Builds a POST command for `url` with one field for each token of
    /// `body`. The URL is checked first, then the tokens in order; the
    /// first failure is the result.
    pub fn post(url: &str, body: &Vec<String>) -> (r: Result<Command, ParseError>)
        ensures
            r is Ok <==> url_parse_ok(url@) && first_bad_token(views_of(body@)) is None,
            !url_parse_ok(url@) ==> r is Err && is_invalid_url(r->Err_0, url@),
            url_parse_ok(url@) && first_bad_token(views_of(body@)) is Some ==> r is Err
                && is_missing_separator(
                r->Err_0,
                body@[first_bad_token(views_of(body@))->0]@,
            ),
            r is Ok ==> match r->Ok_0 {
                Command::Post { url: u, body: fields } => {
                    &&& u@ == url@
                    &&& fields@.len() == body@.len()
                    &&& forall|j: int| 0 <= j < body@.len() ==> fields@[j]@ == kv_parts(body@[j]@)
                },
                _ => false,
            },
    {
        let u = match parse_url(url) {
            Ok(u) => u,
            Err(e) => {
                return Err(e);
            },
        };
        let ghost tokens = views_of(body@);
        let mut fields: Vec<KvPair> = Vec::new();
        let mut i: usize = 0;
        while i < body.len()
            invariant
                i <= body@.len(),
                tokens == views_of(body@),
                u@ == url@,
                url_parse_ok(url@),
                fields@.len() == i,
                forall|l: int| 0 <= l < i ==> has_separator(tokens[l]),
                forall|l: int| 0 <= l < i ==> fields@[l]@ == kv_parts(body@[l]@),
            decreases body@.len() - i,
        {
            match parse_kv_pair(body[i].as_str()) {
                Ok(p) => {
                    fields.push(p);
                },
                Err(e) => {
                    proof {
                        lemma_first_bad_exists(tokens, i as int);
                        let c = first_bad_token(tokens)->0;
                        if c < i {
                            assert(has_separator(tokens[c]));
                        } else if c > i {
                            assert(!has_separator(tokens[i as int]));
                        }
                    }
                    return Err(e);
                },
            }
            i = i + 1;
        }
        proof {
            if exists|j: int| 0 <= j < tokens.len() && !has_separator(tokens[j]) {
                let j = choose|j: int| 0 <= j < tokens.len() && !has_separator(tokens[j]);
                assert(has_separator(tokens[j]));
            }
        }
        Ok(Command::Post { url: u, body: fields })
    }
}

} // verus!
