//! The JSON answers the host bridge hands back to the script's `ctx`
//! helpers: successes carry `ok: true`, failures `ok: false` with a stable
//! `code` and a `message`.
use vstd::prelude::*;
use crate::json::Json;
use crate::matcher::pairs_view;
use crate::script::header_rejection;
use crate::upstream;

verus! {

/// `j` is `{ok: false, code, message}`.
pub open spec fn is_failure(j: Json, code: Seq<char>, message: Seq<char>) -> bool {
    j matches Json::Object(ms) && ms@.len() == 3
        && ms@[0].0@ == "ok"@ && ms@[0].1 == Json::Bool(false)
        && ms@[1].0@ == "code"@ && (ms@[1].1 matches Json::Str(c) && c@ == code)
        && ms@[2].0@ == "message"@ && (ms@[2].1 matches Json::Str(m) && m@ == message)
}

/// A failed bridge call: `{ok: false, code, message}`.
pub fn failure_json(code: &str, message: String) -> (r: Json)
    ensures
        is_failure(r, code@, message@),
{
    let mut ms: Vec<(String, Json)> = Vec::new();
    ms.push((String::from_str("ok"), Json::Bool(false)));
    ms.push((String::from_str("code"), Json::Str(String::from_str(code))));
    ms.push((String::from_str("message"), Json::Str(message)));
    Json::Object(ms)
}

/// A bridge called while no script request is running fails closed.
pub fn outside_request(name: &str) -> (r: Json)
    ensures
        is_failure(r, "script_error"@, name@ + " called outside a script request"@),
{
    failure_json("script_error", String::from_str(name).concat(" called outside a script request"))
}

/// `j` is `{ok: false, code, kind, message}` for a failed upstream call,
/// `kind` being null unless the failure is a transport one.
pub open spec fn is_upstream_failure(j: Json, error: upstream::Error) -> bool {
    j matches Json::Object(ms) && ms@.len() == 4
        && ms@[0].0@ == "ok"@ && ms@[0].1 == Json::Bool(false)
        && ms@[1].0@ == "code"@ && (ms@[1].1 matches Json::Str(c) && c@ == error.code_spec())
        && ms@[2].0@ == "kind"@ && match error {
            upstream::Error::Transport { kind, .. } => ms@[2].1 matches Json::Str(k) && k@ == kind.as_str_spec(),
            _ => ms@[2].1 is Null,
        }
        && ms@[3].0@ == "message"@ && (ms@[3].1 matches Json::Str(m) && m@ == error.message_spec())
}

/// A failed `ctx.http.get` or `ctx.http.pipe` call as the script sees it.
pub fn upstream_failure_json(error: &upstream::Error) -> (r: Json)
    ensures
        is_upstream_failure(r, *error),
{
    let kind = match error.transport_kind() {
        Some(k) => Json::Str(String::from_str(k)),
        None => Json::Null,
    };
    let mut ms: Vec<(String, Json)> = Vec::new();
    ms.push((String::from_str("ok"), Json::Bool(false)));
    ms.push((String::from_str("code"), Json::Str(String::from_str(error.code()))));
    ms.push((String::from_str("kind"), kind));
    ms.push((String::from_str("message"), Json::Str(error.message())));
    Json::Object(ms)
}

/// The answer to `ctx.http.get`: `{ok: true, response}` or the failure.
pub fn get_answer(result: Result<upstream::Response, upstream::Error>) -> (r: Json)
    requires
        result matches Ok(response) ==> response.body@.len() <= usize::MAX / 2,
    ensures
        match result {
            Ok(response) => r matches Json::Object(ms) && ms@.len() == 2
                && ms@[0].0@ == "ok"@ && ms@[0].1 == Json::Bool(true)
                && ms@[1].0@ == "response"@ && upstream::response_answer(ms@[1].1, response),
            Err(error) => is_upstream_failure(r, error),
        },
{
    match result {
        Ok(response) => {
            let mut ms: Vec<(String, Json)> = Vec::new();
            ms.push((String::from_str("ok"), Json::Bool(true)));
            ms.push((String::from_str("response"), upstream::response_json(response)));
            Json::Object(ms)
        },
        Err(error) => upstream_failure_json(&error),
    }
}

/// `rows` is `[[name, value], …]` for the header pairs, in order.
pub open spec fn header_rows_of(rows: Seq<Json>, headers: Seq<(Seq<char>, Seq<char>)>) -> bool {
    &&& rows.len() == headers.len()
    &&& forall|i: int|
        0 <= i < rows.len() ==> (#[trigger] rows[i] matches Json::Array(pair) && pair@.len() == 2
            && (pair@[0] matches Json::Str(n) && n@ == headers[i].0)
            && (pair@[1] matches Json::Str(v) && v@ == headers[i].1))
}

/// The answer to a started `ctx.http.pipe`: the status and headers the
/// client will see, `{ok: true, status, headers: [[name, value], …]}`; the
/// body stays with the host.
pub fn pipe_started(status: u16, headers: &[(String, String)]) -> (r: Json)
    ensures
        r matches Json::Object(ms) && ms@.len() == 3
            && ms@[0].0@ == "ok"@ && ms@[0].1 == Json::Bool(true)
            && ms@[1].0@ == "status"@ && ms@[1].1 == Json::Number(Some(status as u64))
            && ms@[2].0@ == "headers"@ && (ms@[2].1 matches Json::Array(rows)
                && header_rows_of(rows@, pairs_view(headers@))),
{
    let mut rows: Vec<Json> = Vec::new();
    let mut i: usize = 0;
    while i < headers.len()
        invariant
            i <= headers@.len(),
            header_rows_of(rows@, pairs_view(headers@).take(i as int)),
        decreases headers@.len() - i,
    {
        let mut pair: Vec<Json> = Vec::new();
        pair.push(Json::Str(headers[i].0.clone()));
        pair.push(Json::Str(headers[i].1.clone()));
        rows.push(Json::Array(pair));
        i = i + 1;
        assert(pairs_view(headers@).take(i as int).drop_last() =~= pairs_view(headers@).take(i - 1));
    }
    assert(pairs_view(headers@).take(i as int) =~= pairs_view(headers@));
    let mut ms: Vec<(String, Json)> = Vec::new();
    ms.push((String::from_str("ok"), Json::Bool(true)));
    ms.push((String::from_str("status"), Json::Number(Some(status as u64))));
    ms.push((String::from_str("headers"), Json::Array(rows)));
    Json::Object(ms)
}

/// The answer to the header check the script runs before `ctx.respond`
/// and `ctx.http.pipe`: `{ok: true}`, or the first rejection as a script
/// error.
pub fn header_check(pairs: &[(String, String)]) -> (r: Json)
    ensures
        match header_rejection(pairs_view(pairs@)) {
            None => r matches Json::Object(ms) && ms@.len() == 1 && ms@[0].0@ == "ok"@ && ms@[0].1 == Json::Bool(true),
            Some(m) => is_failure(r, "script_error"@, m),
        },
{
    match crate::script::validate_header_pairs(pairs) {
        Ok(()) => {
            let mut ms: Vec<(String, Json)> = Vec::new();
            ms.push((String::from_str("ok"), Json::Bool(true)));
            Json::Object(ms)
        },
        Err(message) => failure_json("script_error", message),
    }
}

} // verus!
