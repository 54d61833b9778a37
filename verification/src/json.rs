//! A JSON document model holding what the host logic reads from bridge
//! payloads and the script's recorded state.
use vstd::prelude::*;
use crate::matcher::{pairs_map, pairs_view};
use crate::text::str_eq;

verus! {

/// One JSON value. A number keeps its value when it is a non-negative
/// integer within `u64`; any other number is kept only as a number.
#[derive(Debug)]
pub enum Json {
    Null,
    Bool(bool),
    Number(Option<u64>),
    Str(String),
    Array(Vec<Json>),
    /// Members in document order; keys are distinct.
    Object(Vec<(String, Json)>),
}

/// The value stored under `key` among object members (first match).
pub open spec fn member(members: Seq<(String, Json)>, key: Seq<char>) -> Option<Json>
    decreases members.len(),
{
    if members.len() == 0 {
        None
    } else if members[0].0@ == key {
        Some(members[0].1)
    } else {
        member(members.drop_first(), key)
    }
}

impl Json {
    /// `value.get(key)`: the member of an object, `None` for other values.
    pub open spec fn get_spec(&self, key: Seq<char>) -> Option<Json> {
        match self {
            Json::Object(members) => member(members@, key),
            _ => None,
        }
    }

    pub fn get(&self, key: &str) -> (r: Option<&Json>)
        ensures
            match r {
                Some(v) => self.get_spec(key@) == Some(*v),
                None => self.get_spec(key@) is None,
            },
    {
        match self {
            Json::Object(members) => {
                let mut i: usize = 0;
                assert(members@.skip(0) =~= members@);
                while i < members.len()
                    invariant
                        i <= members@.len(),
                        member(members@, key@) == member(members@.skip(i as int), key@),
                        self.get_spec(key@) == member(members@, key@),
                    decreases members@.len() - i,
                {
                    assert(members@.skip(i as int).drop_first() =~= members@.skip(i + 1));
                    assert(members@.skip(i as int)[0] == members@[i as int]);
                    if str_eq(members[i].0.as_str(), key) {
                        return Some(&members[i].1);
                    }
                    i = i + 1;
                }
                None
            },
            _ => None,
        }
    }

    pub open spec fn as_str_spec(&self) -> Option<Seq<char>> {
        match self {
            Json::Str(s) => Some(s@),
            _ => None,
        }
    }

    pub fn as_str(&self) -> (r: Option<&str>)
        ensures
            match r {
                Some(s) => self.as_str_spec() == Some(s@),
                None => self.as_str_spec() is None,
            },
    {
        match self {
            Json::Str(s) => Some(s.as_str()),
            _ => None,
        }
    }

    pub open spec fn as_u64_spec(&self) -> Option<u64> {
        match self {
            Json::Number(n) => *n,
            _ => None,
        }
    }

    pub fn as_u64(&self) -> (r: Option<u64>)
        ensures
            r == self.as_u64_spec(),
    {
        match self {
            Json::Number(n) => *n,
            _ => None,
        }
    }

    pub fn as_bool(&self) -> (r: Option<bool>)
        ensures
            r == (match self {
                Json::Bool(b) => Some(*b),
                _ => None,
            }),
    {
        match self {
            Json::Bool(b) => Some(*b),
            _ => None,
        }
    }

    pub fn is_null(&self) -> (r: bool)
        ensures
            r == (self is Null),
    {
        match self {
            Json::Null => true,
            _ => false,
        }
    }
}

/// `members` holds, as the first member under each key of `m`, the string
/// `m[key]`, and nothing under any other key.
pub open spec fn holds_strings(members: Seq<(String, Json)>, m: Map<Seq<char>, Seq<char>>) -> bool {
    forall|k: Seq<char>|
        #![trigger member(members, k)]
        match member(members, k) {
            None => !m.contains_key(k),
            Some(Json::Str(s)) => m.contains_key(k) && s@ == m[k],
            Some(_) => false,
        }
}

/// No two members share a key.
pub open spec fn distinct_keys(members: Seq<(String, Json)>) -> bool {
    forall|a: int, b: int| 0 <= a < b < members.len() ==> #[trigger] members[a].0@ != #[trigger] members[b].0@
}

/// An object of string members built from `(key, value)` pairs, where a
/// later pair with the same key overrides an earlier one; each key occurs
/// once.
pub fn string_object(pairs: &[(String, String)]) -> (r: Json)
    ensures
        r matches Json::Object(ms) && holds_strings(ms@, pairs_map(pairs_view(pairs@))) && distinct_keys(ms@),
{
    let ghost pv = pairs_view(pairs@);
    let mut out: Vec<(String, Json)> = Vec::new();
    let mut i = pairs.len();
    assert(pv.subrange(pv.len() as int, pv.len() as int) =~= Seq::<(Seq<char>, Seq<char>)>::empty());
    while i > 0
        invariant
            i <= pairs@.len(),
            pv == pairs_view(pairs@),
            holds_strings(out@, pairs_map(pv.subrange(i as int, pv.len() as int))),
            distinct_keys(out@),
        decreases i,
    {
        i = i - 1;
        let ghost suffix = pv.subrange(i + 1, pv.len() as int);
        assert(pv.subrange(i as int, pv.len() as int) =~= seq![pv[i as int]] + suffix);
        proof {
            lemma_pairs_map_prepend(pv[i as int], suffix);
        }
        let key = pairs[i].0.as_str();
        if !has_member(&out, key) {
            let ghost before = out@;
            out.push((pairs[i].0.clone(), Json::Str(pairs[i].1.clone())));
            proof {
                assert forall|k: Seq<char>| #![trigger member(out@, k)] member(out@, k) == (match member(before, k) {
                    Some(v) => Some(v),
                    None => if out@.last().0@ == k { Some(out@.last().1) } else { None },
                }) by {
                    lemma_member_push(before, out@.last(), k);
                }
                assert forall|a: int, b: int| 0 <= a < b < out@.len() implies #[trigger] out@[a].0@ != #[trigger] out@[b].0@ by {
                    if b == out@.len() - 1 {
                        if out@[a].0@ == key@ {
                            lemma_member_found(before, a);
                        }
                    } else {
                        assert(out@[a] == before[a] && out@[b] == before[b]);
                    }
                }
            }
        }
    }
    assert(pv.subrange(0, pv.len() as int) =~= pv);
    Json::Object(out)
}

/// Whether some member is stored under `key`.
fn has_member(members: &Vec<(String, Json)>, key: &str) -> (r: bool)
    ensures
        r == member(members@, key@) is Some,
{
    let mut i: usize = 0;
    assert(members@.skip(0) =~= members@);
    while i < members.len()
        invariant
            i <= members@.len(),
            member(members@, key@) == member(members@.skip(i as int), key@),
        decreases members@.len() - i,
    {
        assert(members@.skip(i as int).drop_first() =~= members@.skip(i + 1));
        assert(members@.skip(i as int)[0] == members@[i as int]);
        if str_eq(members[i].0.as_str(), key) {
            return true;
        }
        i = i + 1;
    }
    false
}

proof fn lemma_member_push(ms: Seq<(String, Json)>, x: (String, Json), k: Seq<char>)
    ensures
        member(ms.push(x), k) == (match member(ms, k) {
            Some(v) => Some(v),
            None => if x.0@ == k { Some(x.1) } else { None },
        }),
    decreases ms.len(),
{
    if ms.len() > 0 {
        assert(ms.push(x)[0] == ms[0]);
        assert(ms.push(x).drop_first() =~= ms.drop_first().push(x));
        lemma_member_push(ms.drop_first(), x, k);
    } else {
        assert(ms.push(x)[0] == x);
        assert(ms.push(x).drop_first() =~= Seq::<(String, Json)>::empty());
        assert(member(Seq::<(String, Json)>::empty(), k) is None);
    }
}

proof fn lemma_member_found(ms: Seq<(String, Json)>, a: int)
    requires
        0 <= a < ms.len(),
    ensures
        member(ms, ms[a].0@) is Some,
    decreases ms.len(),
{
    if a > 0 && ms[0].0@ != ms[a].0@ {
        assert(ms.drop_first()[a - 1] == ms[a]);
        lemma_member_found(ms.drop_first(), a - 1);
    }
}

proof fn lemma_pairs_map_prepend(p: (Seq<char>, Seq<char>), s: Seq<(Seq<char>, Seq<char>)>)
    ensures
        pairs_map(seq![p] + s) == (if pairs_map(s).contains_key(p.0) {
            pairs_map(s)
        } else {
            pairs_map(s).insert(p.0, p.1)
        }),
    decreases s.len(),
{
    if s.len() == 0 {
        assert(seq![p] + s =~= seq![p]);
        assert(seq![p].drop_last() =~= Seq::<(Seq<char>, Seq<char>)>::empty());
        assert(seq![p].last() == p);
        assert(pairs_map(Seq::<(Seq<char>, Seq<char>)>::empty()) == Map::<Seq<char>, Seq<char>>::empty());
        assert(pairs_map(seq![p]) =~= Map::<Seq<char>, Seq<char>>::empty().insert(p.0, p.1));
    } else {
        assert((seq![p] + s).drop_last() =~= seq![p] + s.drop_last());
        lemma_pairs_map_prepend(p, s.drop_last());
        assert(pairs_map(seq![p] + s) =~= (if pairs_map(s).contains_key(p.0) {
            pairs_map(s)
        } else {
            pairs_map(s).insert(p.0, p.1)
        }));
    }
}

/// A failed host-bridge call as the script sees it: a stable `error.code`
/// and an operator-facing message.
#[derive(Debug)]
pub struct BridgeFailure {
    pub code: &'static str,
    pub message: String,
}

} // verus!

verus! {

/// A lower-case hexadecimal digit for `v < 16`.
pub open spec fn hex_lower(v: nat) -> char {
    if v < 10 {
        (48 + v) as char
    } else {
        (87 + v) as char
    }
}

/// How one character is written inside a JSON string: quote, backslash and
/// control characters are escaped (short forms where JSON has them,
/// `\u00XX` otherwise); every other character stands as itself.
pub open spec fn escaped_char(c: char) -> Seq<char> {
    let u = c as u32;
    if c == '"' {
        seq!['\\', '"']
    } else if c == '\\' {
        seq!['\\', '\\']
    } else if u == 8 {
        seq!['\\', 'b']
    } else if u == 9 {
        seq!['\\', 't']
    } else if u == 10 {
        seq!['\\', 'n']
    } else if u == 12 {
        seq!['\\', 'f']
    } else if u == 13 {
        seq!['\\', 'r']
    } else if u < 32 {
        seq!['\\', 'u', '0', '0', hex_lower((u / 16) as nat), hex_lower((u % 16) as nat)]
    } else {
        seq![c]
    }
}

pub open spec fn escaped_body(s: Seq<char>) -> Seq<char>
    decreases s.len(),
{
    if s.len() == 0 {
        Seq::empty()
    } else {
        escaped_body(s.drop_last()) + escaped_char(s.last())
    }
}

/// A JSON string literal for `s`.
pub open spec fn json_quoted(s: Seq<char>) -> Seq<char> {
    seq!['"'] + escaped_body(s) + seq!['"']
}

/// `serde_json::to_string` of a string: the quoted, escaped literal.
#[verifier::external_body]
pub(crate) fn json_string(s: &str) -> (r: String)
    ensures
        r@ == json_quoted(s@),
{
    serde_json::to_string(s).unwrap_or_default()
}

/// `serde_json::Value`, the parser's document, carried opaquely until it is
/// read into a [`Json`].
#[verifier::external_type_specification]
#[verifier::external_body]
pub struct ExternalJsonValue(serde_json::Value);

/// What `serde_json` makes of a whole JSON text: the document, or the parse
/// error's message.
pub uninterp spec fn json_document(text: Seq<char>) -> Result<Json, Seq<char>>;

/// A parsed `serde_json::Value` in the library's model, one variant for one
/// variant: a number keeps its value only as a `u64` (`as_u64`), objects
/// keep the parser's member order.
#[verifier::external_body]
fn json_of(value: &serde_json::Value) -> Json {
    match value {
        serde_json::Value::Null => Json::Null,
        serde_json::Value::Bool(b) => Json::Bool(*b),
        serde_json::Value::Number(n) => Json::Number(n.as_u64()),
        serde_json::Value::String(s) => Json::Str(s.clone()),
        serde_json::Value::Array(items) => Json::Array(items.iter().map(json_of).collect()),
        serde_json::Value::Object(m) => Json::Object(m.iter().map(|(k, v)| (k.clone(), json_of(v))).collect()),
    }
}

/// `serde_json::from_str` of a whole text into a `serde_json::Value`; its
/// result, read into the library's model, is named.
#[verifier::external_body]
pub(crate) fn parse_json(text: &str) -> (r: Result<Json, String>)
    ensures
        match r {
            Ok(v) => json_document(text@) == Ok::<Json, Seq<char>>(v),
            Err(e) => json_document(text@) == Err::<Json, Seq<char>>(e@),
        },
{
    match serde_json::from_str::<serde_json::Value>(text) {
        Ok(v) => Ok(json_of(&v)),
        Err(e) => Err(e.to_string()),
    }
}

/// Characters that JSON writes as themselves.
pub open spec fn plain_json_text(s: Seq<char>) -> bool {
    forall|i: int| 0 <= i < s.len() ==> (#[trigger] s[i] as u32) >= 32 && s[i] != '"' && s[i] != '\\'
}

/// A string whose characters need no JSON escaping stands as itself.
pub proof fn plain_text_is_quoted_verbatim(s: Seq<char>)
    requires
        plain_json_text(s),
    ensures
        json_quoted(s) == seq!['"'] + s + seq!['"'],
{
    lemma_plain_body(s);
}

proof fn lemma_plain_body(s: Seq<char>)
    requires
        plain_json_text(s),
    ensures
        escaped_body(s) == s,
    decreases s.len(),
{
    if s.len() > 0 {
        lemma_plain_body(s.drop_last());
        assert(escaped_char(s.last()) == seq![s.last()]);
        assert(escaped_body(s) =~= s);
    } else {
        assert(escaped_body(s) =~= s);
    }
}

} // verus!
