//! The JSON object that a POST command sends: its fields merged by key, then
//! framed as `{"key":"value",...}`.

use crate::kv::KvPair;
use vstd::prelude::*;

verus! {

/// A hexadecimal digit, in lower case.
pub open spec fn hex_digit(d: nat) -> char {
    "0123456789abcdef"@[d as int]
}

/// How one character stands inside a JSON string: `"` and `\\` behind a
/// backslash, the control characters with a short escape where JSON has one
/// and as `\u00xx` otherwise, every other character as it is.
pub open spec fn escape_char(c: char) -> Seq<char> {
    if c == '"' {
        seq!['\\', '"']
    } else if c == '\\' {
        seq!['\\', '\\']
    } else if c == '\u{8}' {
        seq!['\\', 'b']
    } else if c == '\t' {
        seq!['\\', 't']
    } else if c == '\n' {
        seq!['\\', 'n']
    } else if c == '\u{c}' {
        seq!['\\', 'f']
    } else if c == '\r' {
        seq!['\\', 'r']
    } else if (c as u32) < 32 {
        seq!['\\', 'u', '0', '0', hex_digit((c as u32 / 16) as nat), hex_digit((c as u32 % 16) as nat)]
    } else {
        seq![c]
    }
}

/// The characters of `s`, each escaped for a JSON string.
pub open spec fn escaped(s: Seq<char>) -> Seq<char>
    decreases s.len(),
{
    if s.len() == 0 {
        Seq::empty()
    } else {
        escaped(s.drop_last()) + escape_char(s.last())
    }
}

/// The JSON text of a string: the escaped characters between quotes.
pub open spec fn json_quoted(s: Seq<char>) -> Seq<char> {
    seq!['"'] + escaped(s) + seq!['"']
}

/// Relies on `serde_json::to_string` for a `str`: the string in quotes,
/// escaped as its `format_escaped_str` does. Writing a string into memory
/// cannot fail, so the result is taken as it comes.
#[verifier::external_body]
fn json_quote(s: &str) -> (r: String)
    ensures
        r@ == json_quoted(s@),
{
    serde_json::to_string(s).unwrap()
}

/// The views of a list of fields.
pub open spec fn field_views(v: Seq<KvPair>) -> Seq<(Seq<char>, Seq<char>)> {
    v.map_values(|p: KvPair| p@)
}

/// Some field of `m` has the key `k`.
pub open spec fn has_key(m: Seq<(Seq<char>, Seq<char>)>, k: Seq<char>) -> bool {
    exists|i: int| 0 <= i < m.len() && m[i].0 == k
}

/// No two fields of `m` share a key.
pub open spec fn keys_unique(m: Seq<(Seq<char>, Seq<char>)>) -> bool {
    forall|i: int, j: int| 0 <= i < j < m.len() ==> m[i].0 != m[j].0
}

/// The fields taken in order into a map with unique keys: a field whose key
/// is new goes at the end; one whose key is there already replaces the value
/// in place, so the last value of a key wins and each key keeps the place of
/// its first field.
pub open spec fn merge_fields(s: Seq<(Seq<char>, Seq<char>)>) -> Seq<(Seq<char>, Seq<char>)>
    decreases s.len(),
{
    if s.len() == 0 {
        Seq::empty()
    } else {
        let m = merge_fields(s.drop_last());
        let p = s.last();
        if has_key(m, p.0) {
            m.update(choose|i: int| 0 <= i < m.len() && m[i].0 == p.0, p)
        } else {
            m.push(p)
        }
    }
}

/// Merging leaves one field for each key.
pub proof fn lemma_merge_keys_unique(s: Seq<(Seq<char>, Seq<char>)>)
    ensures
        keys_unique(merge_fields(s)),
    decreases s.len(),
{
    if s.len() > 0 {
        lemma_merge_keys_unique(s.drop_last());
    }
}

/// `j` is the last field of `s` with the key `k`.
pub open spec fn is_last_with_key(s: Seq<(Seq<char>, Seq<char>)>, k: Seq<char>, j: int) -> bool {
    &&& 0 <= j < s.len()
    &&& s[j].0 == k
    &&& forall|l: int| j < l < s.len() ==> s[l].0 != k
}

/// The field `f` carries the value of the last field of `s` with its key.
pub open spec fn holds_last_value(s: Seq<(Seq<char>, Seq<char>)>, f: (Seq<char>, Seq<char>)) -> bool {
    exists|j: int| is_last_with_key(s, f.0, j) && s[j].1 == f.1
}

/// Merging keeps exactly the keys of the fields, each once, and gives each
/// key the value of the last field that has it.
pub proof fn lemma_merge_last_value_wins(s: Seq<(Seq<char>, Seq<char>)>)
    ensures
        keys_unique(merge_fields(s)),
        forall|k: Seq<char>| has_key(merge_fields(s), k) <==> has_key(s, k),
        forall|i: int|
            0 <= i < merge_fields(s).len() ==> holds_last_value(s, #[trigger] merge_fields(s)[i]),
    decreases s.len(),
{
    lemma_merge_keys_unique(s);
    if s.len() > 0 {
        let t = s.drop_last();
        let n = s.len() - 1;
        let p = s.last();
        let mt = merge_fields(t);
        let m = merge_fields(s);
        lemma_merge_last_value_wins(t);
        lemma_merge_keys_unique(t);
        assert forall|k: Seq<char>| has_key(s, k) <==> has_key(t, k) || p.0 == k by {
            if has_key(s, k) && p.0 != k {
                let j = choose|j: int| 0 <= j < s.len() && s[j].0 == k;
                assert(t[j].0 == k);
            }
            if has_key(t, k) {
                let j = choose|j: int| 0 <= j < t.len() && t[j].0 == k;
                assert(s[j].0 == k);
            }
            if p.0 == k {
                assert(s[n].0 == k);
            }
        }
        if has_key(mt, p.0) {
            let c = choose|c: int| 0 <= c < mt.len() && mt[c].0 == p.0;
            assert(m == mt.update(c, p));
            assert forall|k: Seq<char>| has_key(m, k) <==> has_key(s, k) by {
                if has_key(m, k) {
                    let i = choose|i: int| 0 <= i < m.len() && m[i].0 == k;
                    if i != c {
                        assert(mt[i].0 == k);
                    }
                }
                if has_key(mt, k) {
                    let i = choose|i: int| 0 <= i < mt.len() && mt[i].0 == k;
                    assert(m[i].0 == k);
                }
                if p.0 == k {
                    assert(m[c].0 == k);
                }
            }
            assert forall|i: int| 0 <= i < m.len() implies holds_last_value(s, m[i]) by {
                if i == c {
                    assert(is_last_with_key(s, m[i].0, n));
                } else {
                    assert(holds_last_value(t, mt[i]));
                    let j = choose|j: int| is_last_with_key(t, mt[i].0, j) && t[j].1 == mt[i].1;
                    assert(mt[i].0 != mt[c].0);
                    assert(m[i] == mt[i]);
                    assert forall|l: int| j < l < s.len() implies s[l].0 != m[i].0 by {
                        if l < n {
                            assert(s[l] == t[l]);
                        }
                    }
                    assert(s[j] == t[j]);
                    assert(is_last_with_key(s, m[i].0, j));
                }
            }
        } else {
            assert(m == mt.push(p));
            assert forall|k: Seq<char>| has_key(m, k) <==> has_key(s, k) by {
                if has_key(m, k) {
                    let i = choose|i: int| 0 <= i < m.len() && m[i].0 == k;
                    if i < mt.len() {
                        assert(mt[i].0 == k);
                    }
                }
                if has_key(mt, k) {
                    let i = choose|i: int| 0 <= i < mt.len() && mt[i].0 == k;
                    assert(m[i].0 == k);
                }
                if p.0 == k {
                    assert(m[mt.len() as int].0 == k);
                }
            }
            assert forall|i: int| 0 <= i < m.len() implies holds_last_value(s, m[i]) by {
                if i == mt.len() {
                    assert(is_last_with_key(s, m[i].0, n));
                } else {
                    assert(holds_last_value(t, mt[i]));
                    let j = choose|j: int| is_last_with_key(t, mt[i].0, j) && t[j].1 == mt[i].1;
                    assert(m[i] == mt[i]);
                    assert(mt[i].0 != p.0);
                    assert forall|l: int| j < l < s.len() implies s[l].0 != m[i].0 by {
                        if l < n {
                            assert(s[l] == t[l]);
                        }
                    }
                    assert(s[j] == t[j]);
                    assert(is_last_with_key(s, m[i].0, j));
                }
            }
        }
    }
}

/// One member of a JSON object, from the JSON texts of its key and value.
pub open spec fn member_text(p: (Seq<char>, Seq<char>)) -> Seq<char> {
    p.0 + seq![':'] + p.1
}

/// The members of a JSON object, separated by commas.
pub open spec fn members_text(s: Seq<(Seq<char>, Seq<char>)>) -> Seq<char>
    decreases s.len(),
{
    if s.len() == 0 {
        Seq::empty()
    } else if s.len() == 1 {
        member_text(s[0])
    } else {
        members_text(s.drop_last()) + seq![','] + member_text(s.last())
    }
}

/// A JSON object with the given members, without white space.
pub open spec fn object_text(s: Seq<(Seq<char>, Seq<char>)>) -> Seq<char> {
    seq!['{'] + members_text(s) + seq!['}']
}

/// Each key and value replaced by its JSON text.
pub open spec fn quote_fields(s: Seq<(Seq<char>, Seq<char>)>) -> Seq<(Seq<char>, Seq<char>)> {
    s.map_values(|p: (Seq<char>, Seq<char>)| (json_quoted(p.0), json_quoted(p.1)))
}

/// The JSON body sent for the given fields.
pub open spec fn body_text(s: Seq<(Seq<char>, Seq<char>)>) -> Seq<char> {
    object_text(quote_fields(merge_fields(s)))
}

/// Merges the fields by key: the last value of a key wins, and the keys
/// stand in the order of their first appearance.
pub fn merge_pairs(pairs: &Vec<KvPair>) -> (r: Vec<KvPair>)
    ensures
        field_views(r@) == merge_fields(field_views(pairs@)),
{
    let ghost s = field_views(pairs@);
    let mut out: Vec<KvPair> = Vec::new();
    let mut i: usize = 0;
    while i < pairs.len()
        invariant
            i <= pairs@.len(),
            s == field_views(pairs@),
            field_views(out@) == merge_fields(s.take(i as int)),
        decreases pairs@.len() - i,
    {
        let ghost m = field_views(out@);
        proof {
            assert(s.take(i as int + 1).drop_last() == s.take(i as int));
            lemma_merge_keys_unique(s.take(i as int));
        }
        let p = &pairs[i];
        let mut j: usize = 0;
        let mut found = false;
        while j < out.len() && !found
            invariant
                j <= out@.len(),
                m == field_views(out@),
                !found ==> forall|l: int| 0 <= l < j ==> m[l].0 != p.k@,
                found ==> j < out@.len() && m[j as int].0 == p.k@,
            decreases out@.len() - j + if found { 0int } else { 1int },
        {
            assert(m[j as int] == out@[j as int]@);
            if out[j].k == p.k {
                found = true;
            } else {
                j = j + 1;
            }
        }
        let fresh = KvPair { k: p.k.clone(), v: p.v.clone() };
        let ghost pv = s[i as int];
        assert(pv == p@);
        assert(s.take(i as int + 1).last() == pv);
        if found {
            proof {
                assert(has_key(m, pv.0));
                let c = choose|c: int| 0 <= c < m.len() && m[c].0 == p.k@;
                if c != j {
                    assert(keys_unique(m));
                }
            }
            out[j] = fresh;
            assert(field_views(out@) =~= m.update(j as int, pv));
        } else {
            assert(!has_key(m, pv.0));
            out.push(fresh);
            assert(field_views(out@) =~= m.push(pv));
        }
        i = i + 1;
    }
    assert(s.take(pairs@.len() as int) == s);
    out
}

/// Frames members, whose keys and values are JSON texts already, as a JSON
/// object.
pub fn frame_object(members: &Vec<KvPair>) -> (r: String)
    ensures
        r@ == object_text(field_views(members@)),
{
    let ghost s = field_views(members@);
    proof {
        reveal_strlit("{");
        reveal_strlit("}");
        reveal_strlit(":");
        reveal_strlit(",");
        assert(","@ =~= seq![',']);
        assert(":"@ =~= seq![':']);
        assert("{"@ =~= seq!['{']);
        assert("}"@ =~= seq!['}']);
    }
    let mut out = String::from_str("{");
    let mut i: usize = 0;
    while i < members.len()
        invariant
            i <= members@.len(),
            s == field_views(members@),
            out@ == seq!['{'] + members_text(s.take(i as int)),
        decreases members@.len() - i,
    {
        proof {
            assert(s.take(i as int + 1).drop_last() == s.take(i as int));
        }
        proof {
            reveal_strlit(",");
            reveal_strlit(":");
            assert(","@ =~= seq![',']);
            assert(":"@ =~= seq![':']);
        }
        let ghost before = out@;
        assert(s[i as int] == members@[i as int]@);
        assert(s.take(i as int + 1).last() == s[i as int]);
        if i > 0 {
            out.append(",");
        }
        out.append(members[i].k.as_str());
        out.append(":");
        out.append(members[i].v.as_str());
        proof {
            if i == 0 {
                assert(s.take(1).len() == 1);
                assert(s.take(1)[0] == s[0]);
                assert(out@ =~= before + member_text(s[0]));
            } else {
                assert(out@ =~= before + seq![','] + member_text(s[i as int]));
            }
        }
        i = i + 1;
    }
    out.append("}");
    assert(s.take(members@.len() as int) == s);
    out
}

/// The JSON object sent as the body of a POST with the given fields: the
/// fields merged by key, then each key and value written as a JSON string.
pub fn post_body(pairs: &Vec<KvPair>) -> (r: String)
    ensures
        r@ == body_text(field_views(pairs@)),
{
    let merged = merge_pairs(pairs);
    let mut members: Vec<KvPair> = Vec::new();
    let mut i: usize = 0;
    while i < merged.len()
        invariant
            i <= merged@.len(),
            members@.len() == i,
            field_views(members@) == quote_fields(field_views(merged@)).take(i as int),
        decreases merged@.len() - i,
    {
        let k = json_quote(merged[i].k.as_str());
        let v = json_quote(merged[i].v.as_str());
        let ghost prev = members@;
        members.push(KvPair { k, v });
        proof {
            assert(field_views(merged@)[i as int] == merged@[i as int]@);
            assert(quote_fields(field_views(merged@))[i as int] == (
                json_quoted(merged@[i as int].k@),
                json_quoted(merged@[i as int].v@),
            ));
            assert(field_views(members@) =~= quote_fields(field_views(merged@)).take(i as int + 1));
        }
        i = i + 1;
    }
    assert(quote_fields(field_views(merged@)).take(merged@.len() as int) =~= quote_fields(
        field_views(merged@),
    ));
    frame_object(&members)
}

} // verus!
