//! `key=value` fields of a request body, and the errors met while reading the
//! command line.

use vstd::prelude::*;

verus! {

/// Why a command-line token could not be used.
#[derive(Debug, Clone, PartialEq, Eq)]
pub enum ParseError {
    /// A body token held no `=`; the token is kept.
    MissingSeparator(String),
    /// A URL argument was not a URL; the argument is kept.
    InvalidUrl(String),
}

/// One `key=value` field of a POST body.
#[derive(Debug, Clone, PartialEq, Eq)]
pub struct KvPair {
    pub k: String,
    pub v: String,
}

impl View for KvPair {
    type V = (Seq<char>, Seq<char>);

    open spec fn view(&self) -> (Seq<char>, Seq<char>) {
        (self.k@, self.v@)
    }
}

/// The token holds at least one `=`.
pub open spec fn has_separator(s: Seq<char>) -> bool {
    exists|i: int| 0 <= i < s.len() && s[i] == '='
}

/// `i` is the position of the first `=` of `s`.
pub open spec fn is_first_separator(s: Seq<char>, i: int) -> bool {
    &&& 0 <= i < s.len()
    &&& s[i] == '='
    &&& forall|j: int| 0 <= j < i ==> s[j] != '='
}

/// The key and the value of a token: what stands before its first `=`, and
/// everything after it.
pub open spec fn kv_parts(s: Seq<char>) -> (Seq<char>, Seq<char>) {
    let i = choose|i: int| is_first_separator(s, i);
    (s.subrange(0, i), s.subrange(i + 1, s.len() as int))
}

/// `e` reports the token `s` as lacking a separator.
pub open spec fn is_missing_separator(e: ParseError, s: Seq<char>) -> bool {
    match e {
        ParseError::MissingSeparator(t) => t@ == s,
        _ => false,
    }
}

/// A token that holds a `=` has exactly one first one.
pub proof fn lemma_first_separator_unique(s: Seq<char>, i: int, j: int)
    requires
        is_first_separator(s, i),
        is_first_separator(s, j),
    ensures
        i == j,
{
    if i < j {
        assert(s[i] != '=');
    } else if j < i {
        assert(s[j] != '=');
    }
}

/// Only the first `=` of a token divides it: the key is what stands before
/// it, the value everything after it, later `=` characters included.
pub proof fn lemma_split_at_first_separator(s: Seq<char>)
    requires
        has_separator(s),
    ensures
        exists|i: int|
            is_first_separator(s, i) && kv_parts(s) == (
            s.subrange(0, i),
            s.subrange(i + 1, s.len() as int),
        ),
{
    let k = choose|k: int| 0 <= k < s.len() && s[k] == '=';
    lemma_first_separator_exists(s, k);
    let i = choose|i: int| is_first_separator(s, i);
    let c = choose|c: int| is_first_separator(s, c);
    lemma_first_separator_unique(s, i, c);
}

/// Some `=` of a token is its first one.
proof fn lemma_first_separator_exists(s: Seq<char>, k: int)
    requires
        0 <= k < s.len(),
        s[k] == '=',
    ensures
        exists|i: int| is_first_separator(s, i),
    decreases k,
{
    if exists|j: int| 0 <= j < k && s[j] == '=' {
        let j = choose|j: int| 0 <= j < k && s[j] == '=';
        lemma_first_separator_exists(s, j);
    } else {
        assert(is_first_separator(s, k));
    }
}

/// Reads one `key=value` token, dividing it at its first `=`.
pub fn parse_kv_pair(s: &str) -> (r: Result<KvPair, ParseError>)
    ensures
        r is Ok <==> has_separator(s@),
        r is Ok ==> r->Ok_0@ == kv_parts(s@),
        r is Err ==> is_missing_separator(r->Err_0, s@),
{
    let n = s.unicode_len();
    let mut i: usize = 0;
    while i < n
        invariant
            n == s@.len(),
            i <= n,
            forall|j: int| 0 <= j < i ==> s@[j] != '=',
        decreases n - i,
    {
        if s.get_char(i) == '=' {
            proof {
                assert(is_first_separator(s@, i as int));
                let c = choose|c: int| is_first_separator(s@, c);
                lemma_first_separator_unique(s@, i as int, c);
            }
            let k = String::from_str(s.substring_char(0, i));
            let v = String::from_str(s.substring_char(i + 1, n));
            return Ok(KvPair { k, v });
        }
        i = i + 1;
    }
    Err(ParseError::MissingSeparator(String::from_str(s)))
}

impl std::str::FromStr for KvPair {
    type Err = ParseError;

    fn from_str(s: &str) -> (r: Result<KvPair, ParseError>)
        ensures
            r is Ok <==> has_separator(s@),
            r is Ok ==> r->Ok_0@ == kv_parts(s@),
            r is Err ==> is_missing_separator(r->Err_0, s@),
    {
        parse_kv_pair(s)
    }
}

} // verus!
