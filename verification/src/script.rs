//! Script-facing host logic: the request snapshot a route script sees, the
//! header grammar its responses must meet, how its recorded state becomes a
//! response, and the stable classes of a failed run.
use vstd::prelude::*;
use crate::json::{holds_strings, json_document, parse_json, string_object, Json};
use crate::matcher::{pairs_map, pairs_view, percent_decode, percent_decoded};
use crate::text::{
    chars_of, debug_quoted, debug_text, lower_seq, nonempty_pieces, split_nonempty, split_once,
    split_once_exec, string_of, to_ascii_lower, to_ascii_upper, upper_seq, lossy_text,
    vecs_view,
};

verus! {

/// Value of `ctx.apiVersion`.
pub const API_VERSION: &'static str = "1";

/// Why a script did not produce a usable response.
#[derive(Debug)]
pub enum Error {
    /// The script threw, the engine aborted, or the worker vanished.
    Failed(String),
    /// The wall-clock deadline passed.
    TimedOut,
    /// The script finished without calling `ctx.respond`.
    NoResponse,
    /// An uncaught transport failure from `ctx.http.get` or `ctx.http.pipe`;
    /// `kind` is `"timeout"`, `"dns"` or `"transport"`.
    UpstreamUnreachable { message: String, kind: &'static str },
}

impl Error {
    pub open spec fn class_spec(&self) -> Seq<char> {
        match self {
            Error::NoResponse => "script_no_response"@,
            Error::Failed(_) => "script_error"@,
            Error::TimedOut => "script_error"@,
            Error::UpstreamUnreachable { .. } => "upstream_unreachable"@,
        }
    }

    pub open spec fn status_spec(&self) -> u16 {
        match self {
            Error::UpstreamUnreachable { .. } => 502,
            _ => 500,
        }
    }

    pub open spec fn detail_spec(&self) -> Seq<char> {
        match self {
            Error::Failed(_) => "script execution failed"@,
            Error::TimedOut => "script exceeded the configured timeout"@,
            Error::NoResponse => "script finished without calling ctx.respond"@,
            Error::UpstreamUnreachable { kind, .. } => if kind@ == "timeout"@ {
                "upstream transport failure: timeout"@
            } else if kind@ == "dns"@ {
                "upstream transport failure: dns"@
            } else {
                "upstream transport failure: transport"@
            },
        }
    }

    /// Stable error class used in responses and logs.
    pub fn class(&self) -> (r: &'static str)
        ensures
            r@ == self.class_spec(),
    {
        match self {
            Error::NoResponse => "script_no_response",
            Error::Failed(_) => "script_error",
            Error::TimedOut => "script_error",
            Error::UpstreamUnreachable { .. } => "upstream_unreachable",
        }
    }

    /// HTTP status used when this error reaches the client uncaught.
    pub fn status(&self) -> (r: u16)
        ensures
            r == self.status_spec(),
    {
        match self {
            Error::UpstreamUnreachable { .. } => 502,
            _ => 500,
        }
    }

    /// Client-visible diagnostic under `--verbose`: a stable class only,
    /// never a stack trace, script message, upstream body, or address.
    pub fn detail(&self) -> (r: &'static str)
        ensures
            r@ == self.detail_spec(),
    {
        match self {
            Error::Failed(_) => "script execution failed",
            Error::TimedOut => "script exceeded the configured timeout",
            Error::NoResponse => "script finished without calling ctx.respond",
            Error::UpstreamUnreachable { kind, .. } => {
                if crate::text::str_eq(kind, "timeout") {
                    "upstream transport failure: timeout"
                } else if crate::text::str_eq(kind, "dns") {
                    "upstream transport failure: dns"
                } else {
                    "upstream transport failure: transport"
                }
            },
        }
    }
}

/// A query token with `+` read as a space, then percent-decoded.
pub open spec fn decoded_token(t: Seq<char>) -> Seq<char> {
    lossy_text(
        percent_decoded(
            vstd::utf8::encode_utf8(t.map_values(|c: char| if c == '+' { ' ' } else { c })),
        ),
    )
}

/// The decoded `(key, value)` of one `key=value` (or bare `key`) piece.
pub open spec fn query_pair(piece: Seq<char>) -> (Seq<char>, Seq<char>) {
    match split_once(piece, '=') {
        Some((k, v)) => (decoded_token(k), decoded_token(v)),
        None => (decoded_token(piece), decoded_token(Seq::empty())),
    }
}

/// The decoded pairs of a raw query string, in order; empty pieces are
/// skipped and a later repeat of a key overrides an earlier one.
pub open spec fn query_pairs(raw: Seq<char>) -> Seq<(Seq<char>, Seq<char>)> {
    query_pairs_of(nonempty_pieces(raw, '&'))
}

pub open spec fn query_pairs_of(pieces: Seq<Seq<char>>) -> Seq<(Seq<char>, Seq<char>)> {
    pieces.map_values(|p: Seq<char>| query_pair(p))
}

fn decode_token(t: &[char]) -> (r: String)
    ensures
        r@ == decoded_token(t@),
{
    let mut replaced: Vec<char> = Vec::new();
    let mut i: usize = 0;
    while i < t.len()
        invariant
            i <= t@.len(),
            replaced@ == t@.take(i as int).map_values(|c: char| if c == '+' { ' ' } else { c }),
        decreases t@.len() - i,
    {
        let c = t[i];
        replaced.push(if c == '+' { ' ' } else { c });
        i = i + 1;
        assert(replaced@ =~= t@.take(i as int).map_values(|c: char| if c == '+' { ' ' } else { c }));
    }
    assert(t@.take(i as int) =~= t@);
    let s = string_of(replaced.as_slice());
    percent_decode(s.as_str().as_bytes())
}

/// Split a raw query string into decoded key/value pairs.
pub fn parse_query(raw: &str) -> (r: Vec<(String, String)>)
    ensures
        pairs_view(r@) == query_pairs(raw@),
{
    let chars = chars_of(raw);
    let pieces = split_nonempty(chars.as_slice(), '&');
    let ghost ps = vecs_view(pieces@);
    let mut out: Vec<(String, String)> = Vec::new();
    let mut i: usize = 0;
    while i < pieces.len()
        invariant
            i <= pieces@.len(),
            ps == vecs_view(pieces@),
            ps == nonempty_pieces(raw@, '&'),
            pairs_view(out@) == query_pairs_of(ps.take(i as int)),
        decreases pieces@.len() - i,
    {
        let piece = &pieces[i];
        assert(piece@ == ps[i as int]);
        let pair = match split_once_exec(piece.as_slice(), '=') {
            Some((k, v)) => (decode_token(k.as_slice()), decode_token(v.as_slice())),
            None => {
                let empty: Vec<char> = Vec::new();
                (decode_token(piece.as_slice()), decode_token(empty.as_slice()))
            },
        };
        assert((pair.0@, pair.1@) == query_pair(ps[i as int]));
        let ghost before = pairs_view(out@);
        out.push(pair);
        assert(pairs_view(out@) =~= before.push(query_pair(ps[i as int])));
        assert(query_pairs_of(ps.take(i + 1)) =~= query_pairs_of(ps.take(i as int)).push(query_pair(ps[i as int])));
        i = i + 1;
    }
    assert(ps.take(i as int) =~= ps);
    assert(pairs_view(out@) == query_pairs(raw@));
    out
}


/// Read-only view of one client request, frozen into `ctx.request`.
#[derive(Debug)]
pub struct RequestSnapshot {
    pub method: String,
    pub path: String,
    /// Decoded route captures; a later pair with the same name overrides.
    pub params: Vec<(String, String)>,
    /// Decoded query pairs; a later pair with the same key overrides.
    pub query: Vec<(String, String)>,
    /// Request headers in arrival order, names lower-cased.
    pub headers: Vec<(String, String)>,
    /// The body as text, or `None` when it is not UTF-8.
    pub body_text: Option<String>,
}

pub open spec fn raw_headers_view(h: Seq<(String, Vec<u8>)>) -> Seq<(Seq<char>, Seq<char>)> {
    h.map_values(|p: (String, Vec<u8>)| (lower_seq(p.0@), lossy_text(p.1@)))
}

impl RequestSnapshot {
    /// Build the script-visible snapshot. Header names are lower-cased and
    /// values decoded lossily; a body that is not UTF-8 becomes `None`
    /// instead of a lossy string.
    pub fn new(
        method: &str,
        path: &str,
        params: Vec<(String, String)>,
        raw_query: &str,
        headers: &[(String, Vec<u8>)],
        body: &[u8],
    ) -> (r: RequestSnapshot)
        ensures
            r.method@ == upper_seq(method@),
            r.path@ == path@,
            r.params == params,
            pairs_view(r.query@) == query_pairs(raw_query@),
            pairs_view(r.headers@) == raw_headers_view(headers@),
            r.body_text is Some <==> vstd::utf8::valid_utf8(body@),
            r.body_text matches Some(t) ==> t@ == vstd::utf8::decode_utf8(body@),
    {
        let mut hs: Vec<(String, String)> = Vec::new();
        let mut i: usize = 0;
        while i < headers.len()
            invariant
                i <= headers@.len(),
                pairs_view(hs@) == raw_headers_view(headers@).take(i as int),
            decreases headers@.len() - i,
        {
            let name = to_ascii_lower(headers[i].0.as_str());
            let value = crate::text::lossy_string(headers[i].1.as_slice());
            let ghost before = pairs_view(hs@);
            hs.push((name, value));
            assert(pairs_view(hs@) =~= before.push((name@, value@)));
            assert(raw_headers_view(headers@).take(i + 1) =~= raw_headers_view(headers@).take(i as int).push(
                (lower_seq(headers@[i as int].0@), lossy_text(headers@[i as int].1@)),
            ));
            i = i + 1;
        }
        assert(raw_headers_view(headers@).take(i as int) =~= raw_headers_view(headers@));
        RequestSnapshot {
            method: to_ascii_upper(method),
            path: String::from_str(path),
            params,
            query: parse_query(raw_query),
            headers: hs,
            body_text: crate::text::utf8_text(body),
        }
    }
}

/// `ms` is what the script sees as `ctx.request`: `method` and `path` as
/// strings, `params`, `query` and `headers` as string objects in which a
/// repeated name keeps its last value, and `bodyText` as a string, or null
/// when the body is not UTF-8.
pub open spec fn request_members(ms: Seq<(String, Json)>, request: RequestSnapshot) -> bool {
    &&& ms.len() == 6
    &&& ms[0].0@ == "method"@ && (ms[0].1 matches Json::Str(v) && v@ == request.method@)
    &&& ms[1].0@ == "path"@ && (ms[1].1 matches Json::Str(v) && v@ == request.path@)
    &&& ms[2].0@ == "params"@ && (ms[2].1 matches Json::Object(o) && holds_strings(o@, pairs_map(pairs_view(request.params@))))
    &&& ms[3].0@ == "query"@ && (ms[3].1 matches Json::Object(o) && holds_strings(o@, pairs_map(pairs_view(request.query@))))
    &&& ms[4].0@ == "headers"@ && (ms[4].1 matches Json::Object(o) && holds_strings(o@, pairs_map(pairs_view(request.headers@))))
    &&& ms[5].0@ == "bodyText"@ && match request.body_text {
        Some(t) => ms[5].1 matches Json::Str(v) && v@ == t@,
        None => ms[5].1 is Null,
    }
}

impl RequestSnapshot {
    /// The snapshot as a JSON object for `ctx.request`.
    pub fn to_json(&self) -> (r: Json)
        ensures
            r matches Json::Object(ms) && request_members(ms@, *self),
    {
        let mut ms: Vec<(String, Json)> = Vec::new();
        ms.push((String::from_str("method"), Json::Str(self.method.clone())));
        ms.push((String::from_str("path"), Json::Str(self.path.clone())));
        ms.push((String::from_str("params"), string_object(self.params.as_slice())));
        ms.push((String::from_str("query"), string_object(self.query.as_slice())));
        ms.push((String::from_str("headers"), string_object(self.headers.as_slice())));
        let body = match &self.body_text {
            Some(t) => Json::Str(t.clone()),
            None => Json::Null,
        };
        ms.push((String::from_str("bodyText"), body));
        Json::Object(ms)
    }
}

/// An HTTP token character, the only bytes a header name may hold.
pub open spec fn is_token_char(c: char) -> bool {
    ||| 'a' <= c && c <= 'z'
    ||| 'A' <= c && c <= 'Z'
    ||| '0' <= c && c <= '9'
    ||| c == '!' || c == '#' || c == '$' || c == '%' || c == '&' || c == '\'' || c == '*'
    ||| c == '+' || c == '-' || c == '.' || c == '^' || c == '_' || c == '`' || c == '|' || c == '~'
}

/// A header name the HTTP layer accepts: 1 to 65535 token characters.
pub open spec fn valid_header_name(name: Seq<char>) -> bool {
    &&& 1 <= name.len() <= 65535
    &&& forall|i: int| 0 <= i < name.len() ==> is_token_char(#[trigger] name[i])
}

/// A header value the HTTP layer accepts: tab, or any character from space
/// up except DEL.
pub open spec fn valid_header_value(value: Seq<char>) -> bool {
    forall|i: int|
        0 <= i < value.len() ==> (#[trigger] value[i] as u32) == 9 || ((value[i] as u32) >= 32 && (
        value[i] as u32) != 127)
}

/// `http::HeaderName::from_bytes` accepts the name: non-empty, at most
/// 65535 bytes, every byte an HTTP token character.
#[verifier::external_body]
pub(crate) fn header_name_accepted(name: &str) -> (r: bool)
    ensures
        r == valid_header_name(name@),
{
    axum::http::HeaderName::from_bytes(name.as_bytes()).is_ok()
}

/// `http::HeaderValue::from_str` accepts the value: every byte is a tab or
/// at least 32 and not 127 (bytes of non-ASCII characters are all accepted).
#[verifier::external_body]
pub(crate) fn header_value_accepted(value: &str) -> (r: bool)
    ensures
        r == valid_header_value(value@),
{
    axum::http::HeaderValue::from_str(value).is_ok()
}

/// The first rejection among script-supplied headers: the name is checked
/// before the value, pair by pair.
pub open spec fn header_rejection(pairs: Seq<(Seq<char>, Seq<char>)>) -> Option<Seq<char>>
    decreases pairs.len(),
{
    if pairs.len() == 0 {
        None
    } else if !valid_header_name(pairs[0].0) {
        Some("invalid header name "@ + debug_text(pairs[0].0))
    } else if !valid_header_value(pairs[0].1) {
        Some("invalid value for header "@ + debug_text(pairs[0].0))
    } else {
        header_rejection(pairs.drop_first())
    }
}

/// One header pair meets the grammar: a valid name and a valid value.
pub open spec fn header_pair_valid(pair: (Seq<char>, Seq<char>)) -> bool {
    valid_header_name(pair.0) && valid_header_value(pair.1)
}

/// Header checks fail closed: a list is accepted exactly when every pair,
/// wherever it stands, has a valid name and a valid value.
pub proof fn headers_accepted_iff_every_pair_valid(pairs: Seq<(Seq<char>, Seq<char>)>)
    ensures
        header_rejection(pairs) is None <==> forall|i: int|
            0 <= i < pairs.len() ==> #[trigger] header_pair_valid(pairs[i]),
    decreases pairs.len(),
{
    if pairs.len() > 0 {
        let rest = pairs.drop_first();
        headers_accepted_iff_every_pair_valid(rest);
        assert forall|i: int| 0 <= i < rest.len() implies rest[i] == pairs[i + 1] by {}
        if header_pair_valid(pairs[0]) {
            assert(header_rejection(pairs) == header_rejection(rest));
            if header_rejection(rest) is None {
                assert forall|i: int| 0 <= i < pairs.len() implies #[trigger] header_pair_valid(pairs[i]) by {
                    if i > 0 {
                        assert(header_pair_valid(rest[i - 1]));
                    }
                }
            } else {
                let j = choose|j: int| 0 <= j < rest.len() && !#[trigger] header_pair_valid(rest[j]);
                assert(!header_pair_valid(pairs[j + 1]));
            }
        } else {
            assert(header_rejection(pairs) is Some);
        }
    }
}

/// A list with one invalid pair, at any position, is refused.
pub proof fn one_invalid_pair_refuses_the_list(pairs: Seq<(Seq<char>, Seq<char>)>, i: int)
    requires
        0 <= i < pairs.len(),
        !valid_header_name(pairs[i].0) || !valid_header_value(pairs[i].1),
    ensures
        header_rejection(pairs) is Some,
{
    headers_accepted_iff_every_pair_valid(pairs);
    assert(!header_pair_valid(pairs[i]));
}

/// Validate script-supplied response headers with the HTTP grammar shared
/// by every response path; fail closed with the first problem.
pub fn validate_header_pairs(pairs: &[(String, String)]) -> (r: Result<(), String>)
    ensures
        match header_rejection(pairs_view(pairs@)) {
            None => r is Ok,
            Some(m) => r matches Err(got) && got@ == m,
        },
{
    let ghost pv = pairs_view(pairs@);
    let mut i: usize = 0;
    assert(pv.skip(0) =~= pv);
    while i < pairs.len()
        invariant
            i <= pairs@.len(),
            pv == pairs_view(pairs@),
            header_rejection(pv) == header_rejection(pv.skip(i as int)),
        decreases pairs@.len() - i,
    {
        assert(pv.skip(i as int)[0] == (pairs@[i as int].0@, pairs@[i as int].1@));
        assert(pv.skip(i as int).drop_first() =~= pv.skip(i + 1));
        let name = pairs[i].0.as_str();
        if !header_name_accepted(name) {
            return Err(String::from_str("invalid header name ").concat(debug_quoted(name).as_str()));
        }
        if !header_value_accepted(pairs[i].1.as_str()) {
            return Err(String::from_str("invalid value for header ").concat(debug_quoted(name).as_str()));
        }
        i = i + 1;
    }
    Ok(())
}

/// Serialize a value as a script literal that stays on one source line:
/// the line and paragraph separators are written as escapes.
pub open spec fn line_safe_spec(s: Seq<char>) -> Seq<char>
    decreases s.len(),
{
    if s.len() == 0 {
        Seq::empty()
    } else {
        line_safe_spec(s.drop_last()) + if s.last() == '\u{2028}' {
            "\\u2028"@
        } else if s.last() == '\u{2029}' {
            "\\u2029"@
        } else {
            seq![s.last()]
        }
    }
}

pub fn line_safe(s: &str) -> (r: String)
    ensures
        r@ == line_safe_spec(s@),
{
    let chars = chars_of(s);
    let mut out = String::new();
    let mut i: usize = 0;
    while i < chars.len()
        invariant
            chars@ == s@,
            i <= chars@.len(),
            out@ == line_safe_spec(s@.take(i as int)),
        decreases chars@.len() - i,
    {
        assert(s@.take(i + 1).drop_last() =~= s@.take(i as int));
        let c = chars[i];
        if c == '\u{2028}' {
            out = out.concat("\\u2028");
        } else if c == '\u{2029}' {
            out = out.concat("\\u2029");
        } else {
            out.push(c);
        }
        i = i + 1;
        assert(out@ =~= line_safe_spec(s@.take(i as int)));
    }
    assert(s@.take(i as int) =~= s@);
    out
}


/// One `ctx.log.*` call. It reaches server logs only, never a client body.
#[derive(Debug)]
pub struct LogRecord {
    pub level: String,
    pub message: String,
}

/// The log entries of the recorded state that carry a string `level` and a
/// string `message`, in order.
pub open spec fn log_entries(entries: Seq<Json>) -> Seq<(Seq<char>, Seq<char>)>
    decreases entries.len(),
{
    if entries.len() == 0 {
        Seq::empty()
    } else {
        let prev = log_entries(entries.drop_last());
        let e = entries.last();
        match (e.get_spec("level"@), e.get_spec("message"@)) {
            (Some(Json::Str(l)), Some(Json::Str(m))) => prev.push((l@, m@)),
            _ => prev,
        }
    }
}

pub open spec fn logs_view(logs: Seq<LogRecord>) -> Seq<(Seq<char>, Seq<char>)> {
    logs.map_values(|r: LogRecord| (r.level@, r.message@))
}

/// The recorded log lines: `logs` when it is an array, nothing otherwise.
pub open spec fn recorded_logs(host: Json) -> Seq<(Seq<char>, Seq<char>)> {
    match host.get_spec("logs"@) {
        Some(Json::Array(entries)) => log_entries(entries@),
        _ => Seq::empty(),
    }
}

fn parse_script_logs(host: &Json) -> (r: Vec<LogRecord>)
    ensures
        logs_view(r@) == recorded_logs(*host),
{
    let mut out: Vec<LogRecord> = Vec::new();
    let entries = match host.get("logs") {
        Some(Json::Array(entries)) => entries,
        _ => {
            assert(logs_view(out@) =~= Seq::<(Seq<char>, Seq<char>)>::empty());
            return out;
        },
    };
    let mut i: usize = 0;
    assert(entries@.take(0) =~= Seq::<Json>::empty());
    assert(logs_view(out@) =~= Seq::<(Seq<char>, Seq<char>)>::empty());
    while i < entries.len()
        invariant
            i <= entries@.len(),
            logs_view(out@) == log_entries(entries@.take(i as int)),
        decreases entries@.len() - i,
    {
        assert(entries@.take(i + 1).drop_last() =~= entries@.take(i as int));
        assert(entries@.take(i + 1).last() == entries@[i as int]);
        let e = &entries[i];
        match (e.get("level"), e.get("message")) {
            (Some(Json::Str(l)), Some(Json::Str(m))) => {
                let ghost before = logs_view(out@);
                out.push(LogRecord { level: l.clone(), message: m.clone() });
                assert(logs_view(out@) =~= before.push((l@, m@)));
            },
            _ => {},
        }
        i = i + 1;
    }
    assert(entries@.take(i as int) =~= entries@);
    out
}

/// Header rows whose first two members are strings, in order; other rows
/// are skipped.
pub open spec fn recorded_header_rows(rows: Seq<Json>) -> Seq<(Seq<char>, Seq<char>)>
    decreases rows.len(),
{
    if rows.len() == 0 {
        Seq::empty()
    } else {
        let prev = recorded_header_rows(rows.drop_last());
        match rows.last() {
            Json::Array(pair) => if pair@.len() >= 2 {
                match (pair@[0], pair@[1]) {
                    (Json::Str(n), Json::Str(v)) => prev.push((n@, v@)),
                    _ => prev,
                }
            } else {
                prev
            },
            _ => prev,
        }
    }
}

pub open spec fn recorded_headers(response: Json) -> Seq<(Seq<char>, Seq<char>)> {
    match response.get_spec("headers"@) {
        Some(Json::Array(rows)) => recorded_header_rows(rows@),
        _ => Seq::empty(),
    }
}

fn parse_script_headers(response: &Json) -> (r: Vec<(String, String)>)
    ensures
        pairs_view(r@) == recorded_headers(*response),
{
    let mut out: Vec<(String, String)> = Vec::new();
    assert(pairs_view(out@) =~= Seq::<(Seq<char>, Seq<char>)>::empty());
    let rows = match response.get("headers") {
        Some(Json::Array(rows)) => rows,
        _ => return out,
    };
    let mut i: usize = 0;
    assert(rows@.take(0) =~= Seq::<Json>::empty());
    while i < rows.len()
        invariant
            i <= rows@.len(),
            pairs_view(out@) == recorded_header_rows(rows@.take(i as int)),
        decreases rows@.len() - i,
    {
        assert(rows@.take(i + 1).drop_last() =~= rows@.take(i as int));
        assert(rows@.take(i + 1).last() == rows@[i as int]);
        if let Json::Array(pair) = &rows[i] {
            if pair.len() >= 2 {
                if let (Json::Str(n), Json::Str(v)) = (&pair[0], &pair[1]) {
                    let ghost before = pairs_view(out@);
                    out.push((n.clone(), v.clone()));
                    assert(pairs_view(out@) =~= before.push((n@, v@)));
                }
            }
        }
        i = i + 1;
    }
    assert(rows@.take(i as int) =~= rows@);
    out
}

/// The body of a script's response.
#[derive(Debug)]
pub enum ResponseBody {
    Text(String),
    Bytes(Vec<u8>),
    /// Streamed by `ctx.http.pipe`: the host holds the upstream stream and
    /// relays its frames without them entering the JavaScript heap.
    Stream,
    /// Streamed by `ctx.file.stream`: the host holds the opened file under
    /// this handle and owns the framing headers.
    File(u64),
}

/// The members of a byte array that are integers in `[0, 255]`, in order.
pub open spec fn byte_members(items: Seq<Json>) -> Seq<u8>
    decreases items.len(),
{
    if items.len() == 0 {
        Seq::empty()
    } else {
        let prev = byte_members(items.drop_last());
        match items.last().as_u64_spec() {
            Some(v) => if v <= 255 {
                prev.push(v as u8)
            } else {
                prev
            },
            None => prev,
        }
    }
}

/// The recorded body, or the failure when a streamed body was not kept by
/// the host: `stream: true` is a piped body, `body.file` a file handle, a
/// string body is text, an array body is bytes, anything else empty text.
pub open spec fn recorded_body(response: Json, piped: bool, file_access: bool) -> Result<ResponseBodyView, Seq<char>> {
    if response.get_spec("stream"@) == Some(Json::Bool(true)) {
        if piped {
            Ok(ResponseBodyView::Stream)
        } else {
            Err("ctx.http.pipe: streamed response was not recorded"@)
        }
    } else {
        let handle = match response.get_spec("body"@) {
            Some(b) => match b.get_spec("file"@) {
                Some(f) => f.as_u64_spec(),
                None => None,
            },
            None => None,
        };
        match handle {
            Some(h) => if file_access {
                Ok(ResponseBodyView::File(h))
            } else {
                Err("ctx.file.stream: file access was not recorded"@)
            },
            None => match response.get_spec("body"@) {
                Some(Json::Str(t)) => Ok(ResponseBodyView::Text(t@)),
                Some(Json::Array(items)) => Ok(ResponseBodyView::Bytes(byte_members(items@))),
                _ => Ok(ResponseBodyView::Text(Seq::empty())),
            },
        }
    }
}

/// A response body as the contracts see it.
pub enum ResponseBodyView {
    Text(Seq<char>),
    Bytes(Seq<u8>),
    Stream,
    File(u64),
}

impl ResponseBody {
    pub open spec fn view(&self) -> ResponseBodyView {
        match self {
            ResponseBody::Text(t) => ResponseBodyView::Text(t@),
            ResponseBody::Bytes(b) => ResponseBodyView::Bytes(b@),
            ResponseBody::Stream => ResponseBodyView::Stream,
            ResponseBody::File(h) => ResponseBodyView::File(*h),
        }
    }
}

fn parse_script_body(response: &Json, piped: bool, file_access: bool) -> (r: Result<ResponseBody, Error>)
    ensures
        match recorded_body(*response, piped, file_access) {
            Ok(v) => r matches Ok(b) && b.view() == v,
            Err(m) => r matches Err(Error::Failed(got)) && got@ == m,
        },
{
    let streamed = match response.get("stream") {
        Some(s) => s.as_bool(),
        None => None,
    };
    if let Some(true) = streamed {
        if piped {
            return Ok(ResponseBody::Stream);
        }
        return Err(Error::Failed(String::from_str("ctx.http.pipe: streamed response was not recorded")));
    }
    let handle = match response.get("body") {
        Some(b) => match b.get("file") {
            Some(f) => f.as_u64(),
            None => None,
        },
        None => None,
    };
    if let Some(h) = handle {
        if file_access {
            return Ok(ResponseBody::File(h));
        }
        return Err(Error::Failed(String::from_str("ctx.file.stream: file access was not recorded")));
    }
    match response.get("body") {
        Some(Json::Str(t)) => Ok(ResponseBody::Text(t.clone())),
        Some(Json::Array(items)) => {
            let mut bytes: Vec<u8> = Vec::new();
            let mut i: usize = 0;
            assert(items@.take(0) =~= Seq::<Json>::empty());
            while i < items.len()
                invariant
                    i <= items@.len(),
                    bytes@ == byte_members(items@.take(i as int)),
                decreases items@.len() - i,
            {
                assert(items@.take(i + 1).drop_last() =~= items@.take(i as int));
                assert(items@.take(i + 1).last() == items@[i as int]);
                if let Some(v) = items[i].as_u64() {
                    if v <= 255 {
                        bytes.push(v as u8);
                    }
                }
                i = i + 1;
            }
            assert(items@.take(i as int) =~= items@);
            Ok(ResponseBody::Bytes(bytes))
        },
        _ => Ok(ResponseBody::Text(String::new())),
    }
}

/// The failure when a claimed file handle names no opened stream.
pub fn unrecorded_file_handle() -> (r: Error)
    ensures
        r matches Error::Failed(m) && m@ == "ctx.file.stream: handle was not recorded"@,
{
    Error::Failed(String::from_str("ctx.file.stream: handle was not recorded"))
}

/// Response produced by `ctx.respond` or `ctx.http.pipe`; a streamed body
/// is still to be claimed from the host.
#[derive(Debug)]
pub struct ScriptResponse {
    pub status: u16,
    pub headers: Vec<(String, String)>,
    pub body: ResponseBody,
}

/// Parse the script state the engine hands back as JSON text; text that
/// does not parse fails the run with the parser's message.
pub fn read_state(raw: &str) -> (r: Result<Json, Error>)
    ensures
        match json_document(raw@) {
            Ok(j) => r == Ok::<Json, Error>(j),
            Err(m) => r matches Err(Error::Failed(msg)) && msg@ == "cannot read script state: "@ + m,
        },
{
    match parse_json(raw) {
        Ok(j) => Ok(j),
        Err(m) => Err(Error::Failed(String::from_str("cannot read script state: ").concat(m.as_str()))),
    }
}

/// What the script's recorded state says: a response, or the reason there
/// is none, plus its log lines.
#[derive(Debug)]
pub struct HostRecord {
    pub response: Option<ScriptResponse>,
    pub logs: Vec<LogRecord>,
    pub error: Option<Error>,
}

/// Turn the script's recorded state into a response. Only the status and
/// headers of a streamed response cross the script boundary; the host
/// keeps the body and hands it over separately (`piped`, `file_access`
/// tell whether it did).
pub fn read_host_record(host: &Json, piped: bool, file_access: bool) -> (r: HostRecord)
    ensures
        logs_view(r.logs@) == recorded_logs(*host),
        match host.get_spec("response"@) {
            None => r.response is None && (r.error matches Some(Error::NoResponse)),
            Some(Json::Null) => r.response is None && (r.error matches Some(Error::NoResponse)),
            Some(resp) => match resp.get_spec("status"@) {
                Some(s) => match s.as_u64_spec() {
                    Some(n) => if n <= 65535 {
                        match recorded_body(resp, piped, file_access) {
                            Ok(body) => r.error is None && (r.response matches Some(x) && x.status == n
                                && pairs_view(x.headers@) == recorded_headers(resp) && x.body.view() == body),
                            Err(m) => r.response is None && (r.error matches Some(Error::Failed(got)) && got@ == m),
                        }
                    } else {
                        r.response is None && (r.error matches Some(Error::Failed(m))
                            && m@ == "ctx.respond: status was not recorded"@)
                    },
                    None => r.response is None && (r.error matches Some(Error::Failed(m))
                        && m@ == "ctx.respond: status was not recorded"@),
                },
                None => r.response is None && (r.error matches Some(Error::Failed(m))
                    && m@ == "ctx.respond: status was not recorded"@),
            },
        },
{
    let logs = parse_script_logs(host);
    let response = match host.get("response") {
        None => return HostRecord { response: None, logs, error: Some(Error::NoResponse) },
        Some(r) => {
            if r.is_null() {
                return HostRecord { response: None, logs, error: Some(Error::NoResponse) };
            }
            r
        },
    };
    let status = match response.get("status") {
        Some(s) => s.as_u64(),
        None => None,
    };
    let status = match status {
        Some(n) if n <= 65535 => n as u16,
        _ => {
            return HostRecord {
                response: None,
                logs,
                error: Some(Error::Failed(String::from_str("ctx.respond: status was not recorded"))),
            };
        },
    };
    let headers = parse_script_headers(response);
    match parse_script_body(response, piped, file_access) {
        Ok(body) => HostRecord {
            response: Some(ScriptResponse { status, headers, body }),
            logs,
            error: None,
        },
        Err(error) => HostRecord { response: None, logs, error: Some(error) },
    }
}

/// Classify an uncaught script error: one the host marked as a transport
/// failure keeps its stable kind; any other throw is a script failure.
pub fn uncaught_error(marked_kind: Option<&'static str>, message: String) -> (r: Error)
    ensures
        match marked_kind {
            Some(k) => r == Error::UpstreamUnreachable { message, kind: k },
            None => r == Error::Failed(message),
        },
{
    match marked_kind {
        Some(kind) => Error::UpstreamUnreachable { message, kind },
        None => Error::Failed(message),
    }
}

} // verus!
