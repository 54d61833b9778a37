//! Allowlisted upstream HTTP calls for `ctx.http.get` and `ctx.http.pipe`:
//! payload checks, URL and allowlist policy, the per-call time budget, the
//! redirect-following decisions, and the stable error classes.
use vstd::prelude::*;
use crate::json::{distinct_keys, holds_strings, string_object, Json};
use crate::matcher::{pairs_map, pairs_view};
use crate::text::{debug_quoted, debug_text, decimal_text, lossy_string, str_eq, u64_decimal, lossy_text};

verus! {

/// Maximum redirects followed after the initial request.
pub const MAX_REDIRECTS: u8 = 3;

/// `ctx.http.get` carries metadata-scale payloads; larger bodies use
/// `ctx.http.pipe`, which streams them around the script heap.
pub const MAX_RESPONSE_BYTES: u64 = 8388608;

/// Category of a transport-layer failure. These stable strings are the only
/// transport detail allowed to reach a client-visible diagnostic.
#[derive(Debug, Clone, Copy, PartialEq, Eq, Structural)]
pub enum TransportKind {
    Timeout,
    Dns,
    Other,
}

impl TransportKind {
    pub open spec fn as_str_spec(self) -> Seq<char> {
        match self {
            TransportKind::Timeout => "timeout"@,
            TransportKind::Dns => "dns"@,
            TransportKind::Other => "transport"@,
        }
    }

    pub fn as_str(self) -> (r: &'static str)
        ensures
            r@ == self.as_str_spec(),
    {
        match self {
            TransportKind::Timeout => "timeout",
            TransportKind::Dns => "dns",
            TransportKind::Other => "transport",
        }
    }
}

/// Why an upstream call did not return a response.
#[derive(Debug)]
pub enum Error {
    /// Rejected before the network, or a fail-closed script error.
    Policy(String),
    /// The URL does not parse or its scheme is not http/https
    /// (`ctx.http.pipe` only).
    InvalidUrl(String),
    /// A redirect chain the host cannot follow (`ctx.http.pipe` only).
    Redirect(String),
    /// DNS, connection, TLS, or timeout failure. Only `kind` may reach a
    /// client.
    Transport { kind: TransportKind, message: String },
    /// A final non-2xx status for `ctx.http.pipe`.
    Status(u16),
}

impl Error {
    pub open spec fn code_spec(&self) -> Seq<char> {
        match self {
            Error::Policy(_) => "script_error"@,
            Error::InvalidUrl(_) => "upstream_url_invalid"@,
            Error::Redirect(_) => "upstream_redirect_error"@,
            Error::Transport { .. } => "upstream_unreachable"@,
            Error::Status(_) => "upstream_http_error"@,
        }
    }

    pub open spec fn message_spec(&self) -> Seq<char> {
        match self {
            Error::Policy(m) => m@,
            Error::InvalidUrl(m) => m@,
            Error::Redirect(m) => m@,
            Error::Transport { message, .. } => message@,
            Error::Status(status) => "ctx.http.pipe: upstream returned status "@ + decimal_text(
                *status as nat,
            ),
        }
    }

    /// Stable class surfaced to the script as `error.code`.
    pub fn code(&self) -> (r: &'static str)
        ensures
            r@ == self.code_spec(),
    {
        match self {
            Error::Policy(_) => "script_error",
            Error::InvalidUrl(_) => "upstream_url_invalid",
            Error::Redirect(_) => "upstream_redirect_error",
            Error::Transport { .. } => "upstream_unreachable",
            Error::Status(_) => "upstream_http_error",
        }
    }

    /// Operator-facing reason; never sent to the client body.
    pub fn message(&self) -> (r: String)
        ensures
            r@ == self.message_spec(),
    {
        match self {
            Error::Policy(m) => m.clone(),
            Error::InvalidUrl(m) => m.clone(),
            Error::Redirect(m) => m.clone(),
            Error::Transport { message, .. } => message.clone(),
            Error::Status(status) => String::from_str("ctx.http.pipe: upstream returned status ").concat(
                u64_decimal(*status as u64).as_str(),
            ),
        }
    }

    /// Stable transport kind for logs and `--verbose` detail.
    pub fn transport_kind(&self) -> (r: Option<&'static str>)
        ensures
            match self {
                Error::Transport { kind, .. } => r matches Some(k) && k@ == kind.as_str_spec(),
                _ => r is None,
            },
    {
        match self {
            Error::Transport { kind, .. } => Some(kind.as_str()),
            _ => None,
        }
    }
}

/// The error for an exhausted time budget.
pub fn timeout_error() -> (r: Error)
    ensures
        r matches Error::Transport { kind, message } && kind == TransportKind::Timeout
            && message@ == "ctx.http: upstream timeout"@,
{
    Error::Transport { kind: TransportKind::Timeout, message: String::from_str("ctx.http: upstream timeout") }
}

/// How a piped body ended.
#[derive(Debug, Clone, Copy, PartialEq, Eq, Structural)]
pub enum StreamOutcome {
    Complete,
    UpstreamError,
    ClientDisconnected,
}

impl StreamOutcome {
    /// Classify a relay channel that closed before the upstream stream ended.
    /// The HTTP layer drops the body as soon as an announced
    /// `Content-Length` is satisfied, so a matching byte count is a completed
    /// delivery; without an announced length only a client close can close
    /// the channel.
    pub fn from_channel_close(bytes: u64, announced: Option<u64>) -> (r: StreamOutcome)
        ensures
            r == (if announced == Some(bytes) {
                StreamOutcome::Complete
            } else {
                StreamOutcome::ClientDisconnected
            }),
    {
        match announced {
            Some(n) if n == bytes => StreamOutcome::Complete,
            _ => StreamOutcome::ClientDisconnected,
        }
    }

    /// Request-log error class when the stream did not complete normally.
    pub fn error_class(self) -> (r: Option<&'static str>)
        ensures
            match self {
                StreamOutcome::Complete => r is None,
                StreamOutcome::UpstreamError => r matches Some(c) && c@ == "upstream_stream_error"@,
                StreamOutcome::ClientDisconnected => r matches Some(c) && c@ == "client_disconnected"@,
            },
    {
        match self {
            StreamOutcome::Complete => None,
            StreamOutcome::UpstreamError => Some("upstream_stream_error"),
            StreamOutcome::ClientDisconnected => Some("client_disconnected"),
        }
    }
}

/// What the relay between a piped upstream body and the client saw next.
#[derive(Debug, Clone, Copy, PartialEq, Eq, Structural)]
pub enum RelayEvent {
    /// A chunk of this many bytes was handed to the client.
    Delivered(u64),
    /// The client side refused the next chunk.
    Refused,
    /// Reading the upstream body failed.
    UpstreamFailed,
    /// The upstream body ended.
    Ended,
    /// The client side closed while the relay waited for upstream.
    ClientClosed,
}

/// The relay's count of delivered bytes and the announced `Content-Length`.
#[derive(Debug)]
pub struct Relay {
    pub bytes: u64,
    pub announced: Option<u64>,
}

impl Relay {
    pub fn new(announced: Option<u64>) -> (r: Relay)
        ensures
            r.bytes == 0,
            r.announced == announced,
    {
        Relay { bytes: 0, announced }
    }

    /// Take one event: a delivered chunk adds to the count (saturating) and
    /// the relay goes on; any other event ends it with its outcome, a
    /// closed client side classified by the count delivered so far.
    pub fn step(&mut self, event: RelayEvent) -> (r: Option<StreamOutcome>)
        ensures
            final(self).announced == old(self).announced,
            match event {
                RelayEvent::Delivered(n) => {
                    &&& r is None
                    &&& final(self).bytes == (if old(self).bytes + n > u64::MAX {
                        u64::MAX
                    } else {
                        (old(self).bytes + n) as u64
                    })
                },
                RelayEvent::Refused | RelayEvent::ClientClosed => {
                    &&& final(self).bytes == old(self).bytes
                    &&& r == Some(
                        if old(self).announced == Some(old(self).bytes) {
                            StreamOutcome::Complete
                        } else {
                            StreamOutcome::ClientDisconnected
                        },
                    )
                },
                RelayEvent::UpstreamFailed => final(self).bytes == old(self).bytes && r == Some(
                    StreamOutcome::UpstreamError,
                ),
                RelayEvent::Ended => final(self).bytes == old(self).bytes && r == Some(StreamOutcome::Complete),
            },
    {
        match event {
            RelayEvent::Delivered(n) => {
                self.bytes = self.bytes.saturating_add(n);
                None
            },
            RelayEvent::Refused | RelayEvent::ClientClosed => Some(
                StreamOutcome::from_channel_close(self.bytes, self.announced),
            ),
            RelayEvent::UpstreamFailed => Some(StreamOutcome::UpstreamError),
            RelayEvent::Ended => Some(StreamOutcome::Complete),
        }
    }
}

/// The script API making an upstream call; it decides how a rejected URL
/// and an unfollowable redirect are classified.
#[derive(Debug, Clone, Copy, PartialEq, Eq, Structural)]
pub enum Api {
    Get,
    Pipe,
}

impl Api {
    pub open spec fn label_spec(self) -> Seq<char> {
        match self {
            Api::Get => "ctx.http.get"@,
            Api::Pipe => "ctx.http.pipe"@,
        }
    }

    pub fn label(self) -> (r: &'static str)
        ensures
            r@ == self.label_spec(),
    {
        match self {
            Api::Get => "ctx.http.get",
            Api::Pipe => "ctx.http.pipe",
        }
    }

    /// `ctx.http.get` reports an unusable URL as a policy error;
    /// `ctx.http.pipe` gives it its own catchable class.
    pub fn url_error(self, message: String) -> (r: Error)
        ensures
            match self {
                Api::Get => r == Error::Policy(message),
                Api::Pipe => r == Error::InvalidUrl(message),
            },
    {
        match self {
            Api::Get => Error::Policy(message),
            Api::Pipe => Error::InvalidUrl(message),
        }
    }

    /// `ctx.http.get` reports an unfollowable redirect as a policy error;
    /// `ctx.http.pipe` gives it its own catchable class.
    pub fn redirect_error(self, message: String) -> (r: Error)
        ensures
            match self {
                Api::Get => r == Error::Policy(message),
                Api::Pipe => r == Error::Redirect(message),
            },
    {
        match self {
            Api::Get => Error::Policy(message),
            Api::Pipe => Error::Redirect(message),
        }
    }
}


/// The first member key not in `allowed`, in member order.
pub open spec fn first_unknown_key(members: Seq<(String, Json)>, allowed: Seq<Seq<char>>) -> Option<Seq<char>>
    decreases members.len(),
{
    if members.len() == 0 {
        None
    } else if !allowed.contains(members[0].0@) {
        Some(members[0].0@)
    } else {
        first_unknown_key(members.drop_first(), allowed)
    }
}

fn find_unknown_key(members: &Vec<(String, Json)>, allowed: &[&str]) -> (r: Option<String>)
    ensures
        match r {
            Some(k) => first_unknown_key(members@, crate::text::strs_view(allowed@)) == Some(k@),
            None => first_unknown_key(members@, crate::text::strs_view(allowed@)) is None,
        },
{
    let ghost allowed_view = crate::text::strs_view(allowed@);
    let mut i: usize = 0;
    assert(members@.skip(0) =~= members@);
    while i < members.len()
        invariant
            i <= members@.len(),
            allowed_view == crate::text::strs_view(allowed@),
            first_unknown_key(members@, allowed_view) == first_unknown_key(members@.skip(i as int), allowed_view),
        decreases members@.len() - i,
    {
        assert(members@.skip(i as int)[0] == members@[i as int]);
        assert(members@.skip(i as int).drop_first() =~= members@.skip(i + 1));
        let key = members[i].0.as_str();
        let mut k: usize = 0;
        let mut known = false;
        while k < allowed.len()
            invariant
                k <= allowed@.len(),
                allowed_view == crate::text::strs_view(allowed@),
                known == (exists|m: int| 0 <= m < k && allowed@[m]@ == key@),
            decreases allowed@.len() - k,
        {
            if str_eq(allowed[k], key) {
                known = true;
            }
            k = k + 1;
        }
        proof {
            if known {
                let m = choose|m: int| 0 <= m < k && allowed@[m]@ == key@;
                assert(allowed_view[m] == key@);
            } else {
                assert forall|m: int| 0 <= m < allowed_view.len() implies allowed_view[m] != key@ by {
                    assert(allowed_view[m] == allowed@[m]@);
                }
            }
        }
        if !known {
            return Some(members[i].0.clone());
        }
        i = i + 1;
    }
    None
}

/// A checked `ctx.http.get` payload.
#[derive(Debug)]
pub struct GetCall {
    pub url: String,
    /// Requested per-call timeout in milliseconds.
    pub timeout_ms: Option<u64>,
}

/// What a `ctx.http.get` payload asks for, or the policy message that
/// rejects it: an object with `url` (a string) and an optional positive
/// integer `timeout_ms`, and no other key.
pub open spec fn get_call_spec(call: Json) -> Result<(Seq<char>, Option<u64>), Seq<char>> {
    match call {
        Json::Object(members) => match first_unknown_key(members@, seq!["url"@, "timeout_ms"@]) {
            Some(k) => Err("ctx.http.get: unknown opts key "@ + debug_text(k)),
            None => match call.get_spec("url"@) {
                Some(Json::Str(url)) => match call.get_spec("timeout_ms"@) {
                    None => Ok((url@, None)),
                    Some(v) => match v.as_u64_spec() {
                        Some(ms) => if ms > 0 {
                            Ok((url@, Some(ms)))
                        } else {
                            Err("ctx.http.get: opts.timeout_ms must be a positive integer"@)
                        },
                        None => Err("ctx.http.get: opts.timeout_ms must be a positive integer"@),
                    },
                },
                _ => Err("ctx.http.get: url must be a string"@),
            },
        },
        _ => Err("ctx.http.get: call payload must be an object"@),
    }
}

/// Parse and fail-closed validate the `ctx.http.get` bridge payload.
pub fn parse_get_call(call: &Json) -> (r: Result<GetCall, Error>)
    ensures
        match get_call_spec(*call) {
            Ok((url, timeout)) => r matches Ok(c) && c.url@ == url && c.timeout_ms == timeout,
            Err(m) => r matches Err(Error::Policy(got)) && got@ == m,
        },
{
    let members = match call {
        Json::Object(members) => members,
        _ => {
            return Err(Error::Policy(String::from_str("ctx.http.get: call payload must be an object")));
        },
    };
    let allowed: [&str; 2] = ["url", "timeout_ms"];
    assert(crate::text::strs_view(allowed@) =~= seq!["url"@, "timeout_ms"@]);
    if let Some(key) = find_unknown_key(members, &allowed) {
        return Err(Error::Policy(
            String::from_str("ctx.http.get: unknown opts key ").concat(debug_quoted(key.as_str()).as_str()),
        ));
    }
    let url = match call.get("url") {
        Some(Json::Str(u)) => u,
        _ => {
            return Err(Error::Policy(String::from_str("ctx.http.get: url must be a string")));
        },
    };
    let timeout_ms = match call.get("timeout_ms") {
        None => None,
        Some(v) => match v.as_u64() {
            Some(ms) if ms > 0 => Some(ms),
            _ => {
                return Err(Error::Policy(
                    String::from_str("ctx.http.get: opts.timeout_ms must be a positive integer"),
                ));
            },
        },
    };
    Ok(GetCall { url: url.clone(), timeout_ms })
}

/// A checked `ctx.http.pipe` payload: the client status and headers are
/// fixed before the upstream body is handed to the HTTP layer.
#[derive(Debug)]
pub struct PipeCall {
    pub url: String,
    pub status: Option<u16>,
    pub headers: Vec<(String, String)>,
}

pub open spec fn header_pairs_view(h: Seq<(String, String)>) -> Seq<(Seq<char>, Seq<char>)> {
    h.map_values(|p: (String, String)| (p.0@, p.1@))
}

/// Rows that are all `[name, value]` string pairs, read as pairs.
pub open spec fn header_rows(rows: Seq<Json>) -> Option<Seq<(Seq<char>, Seq<char>)>>
    decreases rows.len(),
{
    if rows.len() == 0 {
        Some(Seq::empty())
    } else {
        match (header_rows(rows.drop_last()), rows.last()) {
            (Some(prev), Json::Array(pair)) => if pair@.len() == 2 {
                match (pair@[0], pair@[1]) {
                    (Json::Str(n), Json::Str(v)) => Some(prev.push((n@, v@))),
                    _ => None,
                }
            } else {
                None
            },
            _ => None,
        }
    }
}

/// What a `ctx.http.pipe` payload asks for, or the policy message that
/// rejects it: `url` (a string), an optional status in `[100, 599]`, and
/// optional `[name, value]` header pairs; no other key.
pub open spec fn pipe_call_spec(call: Json) -> Result<(Seq<char>, Option<u16>, Seq<(Seq<char>, Seq<char>)>), Seq<char>> {
    let status_msg = "ctx.http.pipe: status must be an integer in [100, 599]"@;
    let headers_msg = "ctx.http.pipe: headers must be [name, value] pairs"@;
    match call {
        Json::Object(members) => match first_unknown_key(members@, seq!["url"@, "status"@, "headers"@]) {
            Some(k) => Err("ctx.http.pipe: unknown opts key "@ + debug_text(k)),
            None => match call.get_spec("url"@) {
                Some(Json::Str(url)) => {
                    let status: Result<Option<u16>, Seq<char>> = match call.get_spec("status"@) {
                        None => Ok(None),
                        Some(Json::Null) => Ok(None),
                        Some(v) => match v.as_u64_spec() {
                            Some(n) => if 100 <= n && n <= 599 {
                                Ok(Some(n as u16))
                            } else {
                                Err(status_msg)
                            },
                            None => Err(status_msg),
                        },
                    };
                    let headers: Result<Seq<(Seq<char>, Seq<char>)>, Seq<char>> = match call.get_spec("headers"@) {
                        None => Ok(Seq::empty()),
                        Some(Json::Null) => Ok(Seq::empty()),
                        Some(Json::Array(rows)) => match header_rows(rows@) {
                            Some(h) => Ok(h),
                            None => Err(headers_msg),
                        },
                        Some(_) => Err(headers_msg),
                    };
                    match (status, headers) {
                        (Err(m), _) => Err(m),
                        (Ok(_), Err(m)) => Err(m),
                        (Ok(s), Ok(h)) => Ok((url@, s, h)),
                    }
                },
                _ => Err("ctx.http.pipe: url must be a string"@),
            },
        },
        _ => Err("ctx.http.pipe: call payload must be an object"@),
    }
}

fn parse_header_rows(rows: &Vec<Json>) -> (r: Option<Vec<(String, String)>>)
    ensures
        match r {
            Some(h) => header_rows(rows@) == Some(header_pairs_view(h@)),
            None => header_rows(rows@) is None,
        },
{
    let mut headers: Vec<(String, String)> = Vec::new();
    let mut i: usize = 0;
    assert(rows@.take(0) =~= Seq::<Json>::empty());
    assert(header_pairs_view(headers@) =~= Seq::<(Seq<char>, Seq<char>)>::empty());
    while i < rows.len()
        invariant
            i <= rows@.len(),
            header_rows(rows@.take(i as int)) == Some(header_pairs_view(headers@)),
        decreases rows@.len() - i,
    {
        assert(rows@.take(i + 1).drop_last() =~= rows@.take(i as int));
        assert(rows@.take(i + 1).last() == rows@[i as int]);
        let pair = match &rows[i] {
            Json::Array(pair) => pair,
            _ => {
                proof { lemma_header_rows_prefix(rows@, i + 1); }
                return None;
            },
        };
        if pair.len() != 2 {
            proof { lemma_header_rows_prefix(rows@, i + 1); }
            return None;
        }
        let (name, value) = match (&pair[0], &pair[1]) {
            (Json::Str(n), Json::Str(v)) => (n, v),
            _ => {
                proof { lemma_header_rows_prefix(rows@, i + 1); }
                return None;
            },
        };
        let ghost before = header_pairs_view(headers@);
        headers.push((name.clone(), value.clone()));
        assert(header_pairs_view(headers@) =~= before.push((name@, value@)));
        i = i + 1;
    }
    assert(rows@.take(i as int) =~= rows@);
    Some(headers)
}

proof fn lemma_header_rows_prefix(rows: Seq<Json>, n: int)
    requires
        0 <= n <= rows.len(),
        header_rows(rows.take(n)) is None,
    ensures
        header_rows(rows) is None,
    decreases rows.len() - n,
{
    if n < rows.len() {
        assert(rows.take(n + 1).drop_last() =~= rows.take(n));
        lemma_header_rows_prefix(rows, n + 1);
    } else {
        assert(rows.take(n) =~= rows);
    }
}

fn empty_headers() -> (r: Vec<(String, String)>)
    ensures
        header_pairs_view(r@) == Seq::<(Seq<char>, Seq<char>)>::empty(),
{
    let r: Vec<(String, String)> = Vec::new();
    assert(header_pairs_view(r@) =~= Seq::<(Seq<char>, Seq<char>)>::empty());
    r
}

/// Parse and fail-closed validate the `ctx.http.pipe` payload. The script
/// prelude already checks shapes; this is the independent host-side guard.
pub fn parse_pipe_call(call: &Json) -> (r: Result<PipeCall, Error>)
    ensures
        match pipe_call_spec(*call) {
            Ok((url, status, headers)) => r matches Ok(c) && c.url@ == url && c.status == status
                && header_pairs_view(c.headers@) == headers,
            Err(m) => r matches Err(Error::Policy(got)) && got@ == m,
        },
{
    let members = match call {
        Json::Object(members) => members,
        _ => {
            return Err(Error::Policy(String::from_str("ctx.http.pipe: call payload must be an object")));
        },
    };
    let allowed: [&str; 3] = ["url", "status", "headers"];
    assert(crate::text::strs_view(allowed@) =~= seq!["url"@, "status"@, "headers"@]);
    if let Some(key) = find_unknown_key(members, &allowed) {
        return Err(Error::Policy(
            String::from_str("ctx.http.pipe: unknown opts key ").concat(debug_quoted(key.as_str()).as_str()),
        ));
    }
    let url = match call.get("url") {
        Some(Json::Str(u)) => u,
        _ => {
            return Err(Error::Policy(String::from_str("ctx.http.pipe: url must be a string")));
        },
    };
    let status = match call.get("status") {
        None => None,
        Some(Json::Null) => None,
        Some(v) => match v.as_u64() {
            Some(n) if 100 <= n && n <= 599 => Some(n as u16),
            _ => {
                return Err(Error::Policy(
                    String::from_str("ctx.http.pipe: status must be an integer in [100, 599]"),
                ));
            },
        },
    };
    let headers = match call.get("headers") {
        None => empty_headers(),
        Some(Json::Null) => empty_headers(),
        Some(Json::Array(rows)) => match parse_header_rows(rows) {
            Some(h) => h,
            None => {
                return Err(Error::Policy(
                    String::from_str("ctx.http.pipe: headers must be [name, value] pairs"),
                ));
            },
        },
        Some(_) => {
            return Err(Error::Policy(
                String::from_str("ctx.http.pipe: headers must be [name, value] pairs"),
            ));
        },
    };
    Ok(PipeCall { url: url.clone(), status, headers })
}


/// One parsed URL, seen through the parts the policy reads: scheme, host
/// (a domain, or an IP address written without brackets), host as written
/// in the URL, path, and the serialized URL.
///
/// The fields are private and only `url_parse` and `url_join` build a value,
/// each from one `url::Url` and its own `as_str()`: so `text` is always the
/// serialization of `url`. A `url::Url` is its serialization (it compares by
/// it and re-parses to it), which is why a join onto `url` is stated as a
/// function of `text`.
#[derive(Debug)]
pub struct ParsedUrl {
    scheme: String,
    host: Option<String>,
    host_text: Option<String>,
    path: String,
    text: String,
    url: url::Url,
}

/// `url::Url`, carried opaquely inside a parsed URL.
#[verifier::external_type_specification]
#[verifier::external_body]
pub struct ExternalUrl(url::Url);

pub type UrlView = (Seq<char>, Option<Seq<char>>, Option<Seq<char>>, Seq<char>, Seq<char>);

pub open spec fn opt_view(o: Option<String>) -> Option<Seq<char>> {
    match o {
        Some(s) => Some(s@),
        None => None,
    }
}

impl ParsedUrl {
    /// Scheme, host, host as written, path and serialization.
    pub closed spec fn view(&self) -> UrlView {
        (self.scheme@, opt_view(self.host), opt_view(self.host_text), self.path@, self.text@)
    }

    /// The scheme, lower-cased by the parser.
    pub fn scheme(&self) -> (r: &str)
        ensures
            r@ == self.view().0,
    {
        self.scheme.as_str()
    }

    /// The host as the policy compares it: a domain, or an IP address
    /// written without brackets.
    pub fn host(&self) -> (r: Option<&str>)
        ensures
            match r {
                Some(h) => self.view().1 == Some(h@),
                None => self.view().1 is None,
            },
    {
        match &self.host {
            Some(h) => Some(h.as_str()),
            None => None,
        }
    }

    /// The host as written in the URL (IPv6 addresses in brackets).
    pub fn host_text(&self) -> (r: Option<&str>)
        ensures
            match r {
                Some(h) => self.view().2 == Some(h@),
                None => self.view().2 is None,
            },
    {
        match &self.host_text {
            Some(h) => Some(h.as_str()),
            None => None,
        }
    }

    /// The path.
    pub fn path(&self) -> (r: &str)
        ensures
            r@ == self.view().3,
    {
        self.path.as_str()
    }

    /// The serialized URL.
    pub fn text(&self) -> (r: &str)
        ensures
            r@ == self.view().4,
    {
        self.text.as_str()
    }
}

/// What the URL standard's parser makes of an absolute URL: its parts, or
/// the parse error's message.
pub uninterp spec fn parsed_url(input: Seq<char>) -> Result<UrlView, Seq<char>>;

/// What the URL standard makes of `location` resolved against `base`.
pub uninterp spec fn joined_url(base: Seq<char>, location: Seq<char>) -> Result<UrlView, Seq<char>>;

/// `url::Url::parse`, with its parts read out; its result is named.
#[verifier::external_body]
pub(crate) fn url_parse(input: &str) -> (r: Result<ParsedUrl, String>)
    ensures
        match r {
            Ok(u) => parsed_url(input@) == Ok::<UrlView, Seq<char>>(u.view()),
            Err(e) => parsed_url(input@) == Err::<UrlView, Seq<char>>(e@),
        },
{
    match url::Url::parse(input) {
        Ok(u) => Ok(ParsedUrl {
            scheme: u.scheme().to_string(), path: u.path().to_string(),
            host: match u.host() {
                Some(url::Host::Domain(d)) => Some(d.to_string()),
                Some(url::Host::Ipv4(ip)) => Some(ip.to_string()),
                Some(url::Host::Ipv6(ip)) => Some(ip.to_string()),
                None => None,
            },
            host_text: u.host_str().map(str::to_string),
            text: u.as_str().to_string(),
            url: u,
        }),
        Err(e) => Err(e.to_string()),
    }
}

/// `url::Url::join` of a redirect `Location` onto the current URL, with the
/// parts read out; its result is named over the current URL's
/// serialization, which determines the `url::Url` it is joined onto (see
/// `ParsedUrl`).
#[verifier::external_body]
pub(crate) fn url_join(base: &ParsedUrl, location: &str) -> (r: Result<ParsedUrl, String>)
    ensures
        match r {
            Ok(u) => joined_url(base.view().4, location@) == Ok::<UrlView, Seq<char>>(u.view()),
            Err(e) => joined_url(base.view().4, location@) == Err::<UrlView, Seq<char>>(e@),
        },
{
    match base.url.join(location) {
        Ok(u) => Ok(ParsedUrl {
            scheme: u.scheme().to_string(), path: u.path().to_string(),
            host: match u.host() {
                Some(url::Host::Domain(d)) => Some(d.to_string()),
                Some(url::Host::Ipv4(ip)) => Some(ip.to_string()),
                Some(url::Host::Ipv6(ip)) => Some(ip.to_string()),
                None => None,
            },
            host_text: u.host_str().map(str::to_string),
            text: u.as_str().to_string(),
            url: u,
        }),
        Err(e) => Err(e.to_string()),
    }
}

/// Parse the URL a script passed; an unparsable URL is a policy error for
/// `ctx.http.get` and `upstream_url_invalid` for `ctx.http.pipe`.
pub fn parse_call_url(api: Api, url: &str) -> (r: Result<ParsedUrl, Error>)
    ensures
        match parsed_url(url@) {
            Ok(v) => r matches Ok(u) && u.view() == v,
            Err(e) => r matches Err(err) && err.code_spec() == (match api {
                Api::Get => "script_error"@,
                Api::Pipe => "upstream_url_invalid"@,
            }) && err.message_spec() == api.label_spec() + ": invalid URL: "@ + e,
        },
{
    match url_parse(url) {
        Ok(u) => Ok(u),
        Err(e) => Err(api.url_error(String::from_str(api.label()).concat(": invalid URL: ").concat(e.as_str()))),
    }
}

/// Some allowlist entry names the host, ignoring ASCII case. The port is
/// deliberately not compared.
pub open spec fn host_allowed(allow: Seq<Seq<char>>, host: Seq<char>) -> bool {
    exists|i: int| 0 <= i < allow.len() && crate::text::eq_ignore_case(#[trigger] allow[i], host)
}

/// What the protocol and allowlist policy decides for one URL.
pub open spec fn url_policy(allow: Seq<Seq<char>>, url: UrlView, api: Api) -> Result<(), (Seq<char>, Seq<char>)> {
    if url.0 != "http"@ && url.0 != "https"@ {
        Err((
            match api {
                Api::Get => "script_error"@,
                Api::Pipe => "upstream_url_invalid"@,
            },
            "upstream protocol "@ + debug_text(url.0) + " is not allowed (use http or https)"@,
        ))
    } else {
        match url.1 {
            None => Err(("script_error"@, "ctx.http.get: URL has no host"@)),
            Some(host) => if host_allowed(allow, host) {
                Ok(())
            } else {
                Err(("script_error"@, "upstream host "@ + debug_text(host) + " is not in upstream.allow_hosts"@))
            },
        }
    }
}

/// With no allowlisted host every URL is refused.
pub proof fn empty_allowlist_refuses_every_url(url: UrlView, api: Api)
    ensures
        url_policy(Seq::empty(), url, api) is Err,
{
}

/// An http or https URL whose host equals, ignoring ASCII case, any entry
/// of the allowlist, at any position, is admitted.
pub proof fn listed_hosts_are_admitted(allow: Seq<Seq<char>>, url: UrlView, api: Api, i: int)
    requires
        url.0 == "http"@ || url.0 == "https"@,
        0 <= i < allow.len(),
        url.1 matches Some(host) && crate::text::eq_ignore_case(allow[i], host),
    ensures
        url_policy(allow, url, api) is Ok,
{
}

/// An http or https URL whose host matches no allowlist entry is refused as
/// a policy error naming the host.
pub proof fn unlisted_hosts_are_refused(allow: Seq<Seq<char>>, url: UrlView, api: Api)
    requires
        url.0 == "http"@ || url.0 == "https"@,
        url.1 matches Some(host) && forall|i: int| 0 <= i < allow.len() ==> !crate::text::eq_ignore_case(#[trigger] allow[i], host),
    ensures
        url_policy(allow, url, api) == Err::<(), (Seq<char>, Seq<char>)>((
            "script_error"@,
            "upstream host "@ + debug_text(url.1->0) + " is not in upstream.allow_hosts"@,
        )),
{
}

/// A URL the policy admits is http or https and names an allowlisted host.
pub proof fn admitted_urls_name_listed_hosts(allow: Seq<Seq<char>>, url: UrlView, api: Api)
    requires
        url_policy(allow, url, api) is Ok,
    ensures
        url.0 == "http"@ || url.0 == "https"@,
        url.1 matches Some(host) && host_allowed(allow, host),
{
}

/// Protocol plus host allowlist validation. A scheme rejection is classified
/// by the calling API; an allowlist rejection is always a policy error.
pub fn validate(allow_hosts: &[String], url: &ParsedUrl, api: Api) -> (r: Result<(), Error>)
    ensures
        match url_policy(crate::text::strings_view(allow_hosts@), url.view(), api) {
            Ok(()) => r is Ok,
            Err((code, message)) => r matches Err(e) && e.code_spec() == code && e.message_spec() == message,
        },
{
    let scheme = url.scheme.as_str();
    if !str_eq(scheme, "http") && !str_eq(scheme, "https") {
        return Err(api.url_error(
            String::from_str("upstream protocol ").concat(debug_quoted(scheme).as_str()).concat(
                " is not allowed (use http or https)",
            ),
        ));
    }
    let host = match &url.host {
        Some(h) => h,
        None => {
            return Err(Error::Policy(String::from_str("ctx.http.get: URL has no host")));
        },
    };
    let host_chars = crate::text::chars_of(host.as_str());
    let ghost allow = crate::text::strings_view(allow_hosts@);
    let mut i: usize = 0;
    while i < allow_hosts.len()
        invariant
            i <= allow_hosts@.len(),
            allow == crate::text::strings_view(allow_hosts@),
            host_chars@ == host@,
            url.scheme@ == "http"@ || url.scheme@ == "https"@,
            url.host == Some(*host),
            forall|k: int| 0 <= k < i ==> !crate::text::eq_ignore_case(#[trigger] allow[k], host@),
        decreases allow_hosts@.len() - i,
    {
        let entry = crate::text::chars_of(allow_hosts[i].as_str());
        if crate::text::eq_ignore_case_exec(entry.as_slice(), host_chars.as_slice()) {
            assert(allow[i as int] == allow_hosts@[i as int]@);
            assert(crate::text::eq_ignore_case(allow[i as int], host@));
            assert(host_allowed(allow, host@));
            return Ok(());
        }
        assert(allow[i as int] == allow_hosts@[i as int]@);
        i = i + 1;
    }
    Err(Error::Policy(
        String::from_str("upstream host ").concat(debug_quoted(host.as_str()).as_str()).concat(
            " is not in upstream.allow_hosts",
        ),
    ))
}

/// Time left for the script itself to catch and map a transport error:
/// a tenth of what remains, at most 100 ms (in nanoseconds).
pub open spec fn reply_margin_spec(remaining_ns: u128) -> u128 {
    if remaining_ns / 10 < 100000000 {
        remaining_ns / 10
    } else {
        100000000
    }
}

pub fn reply_margin(remaining_ns: u128) -> (r: u128)
    ensures
        r == reply_margin_spec(remaining_ns),
{
    let tenth = remaining_ns / 10;
    if tenth < 100000000 {
        tenth
    } else {
        100000000
    }
}

/// The effective budget of one call, in nanoseconds: the requested (or
/// configured) timeout when it ends before the script deadline, otherwise
/// what remains of the script time less the reply margin.
pub open spec fn budget_spec(remaining_ns: u128, requested_ns: u128) -> u128 {
    if requested_ns >= remaining_ns {
        (remaining_ns - reply_margin_spec(remaining_ns)) as u128
    } else {
        requested_ns
    }
}

/// A call's budget never outlasts the script's remaining time, and when at
/// least ten nanoseconds remain it ends strictly before, leaving the reply
/// margin.
pub proof fn budget_ends_before_the_script(remaining_ns: u128, requested_ns: u128)
    ensures
        budget_spec(remaining_ns, requested_ns) <= remaining_ns,
        budget_spec(remaining_ns, requested_ns) <= requested_ns,
        remaining_ns >= 10 ==> budget_spec(remaining_ns, requested_ns) < remaining_ns,
{
}

/// The budget for one upstream call; an exhausted budget is a transport
/// timeout the script can catch.
pub fn budget(remaining_ns: u128, requested_ns: Option<u128>, default_ns: u128) -> (r: Result<u128, Error>)
    ensures
        ({
            let requested = match requested_ns { Some(n) => n, None => default_ns };
            let b = budget_spec(remaining_ns, requested);
            &&& b == 0 ==> (r matches Err(Error::Transport { kind, .. }) && kind == TransportKind::Timeout)
            &&& b > 0 ==> r == Ok::<u128, Error>(b)
        }),
        r matches Ok(b) ==> 0 < b && b <= remaining_ns && b <= match requested_ns {
            Some(n) => n,
            None => default_ns,
        },
{
    let requested = match requested_ns {
        Some(n) => n,
        None => default_ns,
    };
    let b = if requested >= remaining_ns {
        remaining_ns - reply_margin(remaining_ns)
    } else {
        requested
    };
    if b == 0 {
        return Err(timeout_error());
    }
    Ok(b)
}

/// Whether a status asks the client to follow `Location`.
pub open spec fn is_redirect_spec(status: u16) -> bool {
    status == 301 || status == 302 || status == 303 || status == 307 || status == 308
}

pub fn is_redirect(status: u16) -> (r: bool)
    ensures
        r == is_redirect_spec(status),
{
    status == 301 || status == 302 || status == 303 || status == 307 || status == 308
}

/// What to do after one upstream answer.
#[derive(Debug)]
pub enum Hop {
    /// Hand this answer back.
    Done,
    /// Fetch the next URL; `redirects` hops have now been followed.
    Follow { next: ParsedUrl, redirects: u8 },
}

/// The `Location` header of an answer: absent, present but not a valid
/// string, or its text.
pub enum Location<'a> {
    Absent,
    Unreadable,
    Text(&'a str),
}

/// The class of a redirect chain the calling API cannot follow.
pub open spec fn redirect_code(api: Api) -> Seq<char> {
    match api {
        Api::Get => "script_error"@,
        Api::Pipe => "upstream_redirect_error"@,
    }
}

/// Decide one step of redirect following. Every hop is re-validated against
/// the allowlist; a chain the caller cannot follow is classified by the
/// calling API, while an allowlist rejection stays a policy error.
pub fn redirect_hop(
    allow_hosts: &[String],
    api: Api,
    current: &ParsedUrl,
    redirects: u8,
    status: u16,
    location: Location,
) -> (r: Result<Hop, Error>)
    ensures
        !is_redirect_spec(status) ==> r matches Ok(Hop::Done),
        location is Absent ==> r matches Ok(Hop::Done),
        is_redirect_spec(status) && !(location is Absent) && redirects >= MAX_REDIRECTS ==> (r matches Err(e)
            && e.code_spec() == redirect_code(api)
            && e.message_spec() == api.label_spec() + ": redirect limit exceeded (max 3 hops)"@),
        is_redirect_spec(status) && redirects < MAX_REDIRECTS ==> match location {
            Location::Absent => true,
            Location::Unreadable => (r matches Err(e) && e.code_spec() == redirect_code(api)
                && e.message_spec() == api.label_spec() + ": redirect Location is not a valid string"@),
            Location::Text(t) => match joined_url(current.view().4, t@) {
                Err(m) => (r matches Err(e) && e.code_spec() == redirect_code(api)
                    && e.message_spec() == api.label_spec() + ": invalid redirect Location: "@ + m),
                Ok(v) => match url_policy(crate::text::strings_view(allow_hosts@), v, api) {
                    Ok(()) => (r matches Ok(Hop::Follow { next, redirects: n }) && next.view() == v && n
                        == redirects + 1),
                    Err((code, message)) => (r matches Err(e) && e.code_spec() == code && e.message_spec()
                        == message),
                },
            },
        },
        r matches Ok(Hop::Follow { next, redirects: n }) ==> {
            &&& redirects < MAX_REDIRECTS
            &&& n == redirects + 1
            &&& url_policy(crate::text::strings_view(allow_hosts@), next.view(), api) is Ok
        },
{
    if !is_redirect(status) {
        return Ok(Hop::Done);
    }
    let text = match location {
        Location::Absent => return Ok(Hop::Done),
        Location::Unreadable => {
            if redirects >= MAX_REDIRECTS {
                return Err(api.redirect_error(
                    String::from_str(api.label()).concat(": redirect limit exceeded (max 3 hops)"),
                ));
            }
            return Err(api.redirect_error(
                String::from_str(api.label()).concat(": redirect Location is not a valid string"),
            ));
        },
        Location::Text(t) => t,
    };
    if redirects >= MAX_REDIRECTS {
        return Err(api.redirect_error(
            String::from_str(api.label()).concat(": redirect limit exceeded (max 3 hops)"),
        ));
    }
    let next = match url_join(current, text) {
        Ok(u) => u,
        Err(e) => {
            return Err(api.redirect_error(
                String::from_str(api.label()).concat(": invalid redirect Location: ").concat(e.as_str()),
            ));
        },
    };
    match validate(allow_hosts, &next, api) {
        Ok(()) => {},
        Err(e) => {
            return Err(e);
        },
    }
    Ok(Hop::Follow { next, redirects: redirects + 1 })
}


/// Header names the upstream contributes to a piped answer: its Range
/// framing travels with the stream.
pub open spec fn is_passthrough(name: Seq<char>) -> bool {
    name == "content-range"@ || name == "content-length"@
}

/// The client headers of a piped answer: the script's own headers, then each
/// passthrough header of the upstream (name lower-cased) that is not already
/// set, ignoring ASCII case.
pub open spec fn merged_headers(
    own: Seq<(Seq<char>, Seq<char>)>,
    upstream: Seq<(Seq<char>, Seq<char>)>,
) -> Seq<(Seq<char>, Seq<char>)>
    decreases upstream.len(),
{
    if upstream.len() == 0 {
        own
    } else {
        let acc = merged_headers(own, upstream.drop_last());
        let name = crate::text::lower_seq(upstream.last().0);
        if is_passthrough(name) && !(exists|k: int|
            0 <= k < acc.len() && crate::text::eq_ignore_case(#[trigger] acc[k].0, name)) {
            acc.push((name, upstream.last().1))
        } else {
            acc
        }
    }
}

/// The headers of a piped answer start with the script's own, unchanged,
/// and every later one is a passthrough header of the upstream, its name
/// lower-cased and its value unchanged.
proof fn merged_headers_shape(own: Seq<(Seq<char>, Seq<char>)>, upstream: Seq<(Seq<char>, Seq<char>)>)
    ensures
        merged_headers(own, upstream).len() >= own.len(),
        forall|k: int| 0 <= k < own.len() ==> #[trigger] merged_headers(own, upstream)[k] == own[k],
        forall|k: int|
            own.len() <= k < merged_headers(own, upstream).len() ==> exists|j: int|
                0 <= j < upstream.len() && #[trigger] merged_headers(own, upstream)[k] == (
                    crate::text::lower_seq(upstream[j].0),
                    upstream[j].1,
                ) && is_passthrough(crate::text::lower_seq(upstream[j].0)),
    decreases upstream.len(),
{
    if upstream.len() > 0 {
        let prev = upstream.drop_last();
        merged_headers_shape(own, prev);
        let acc = merged_headers(own, prev);
        let m = merged_headers(own, upstream);
        assert forall|k: int| own.len() <= k < m.len() implies exists|j: int|
            0 <= j < upstream.len() && #[trigger] m[k] == (crate::text::lower_seq(upstream[j].0), upstream[j].1)
                && is_passthrough(crate::text::lower_seq(upstream[j].0)) by {
            if k < acc.len() {
                assert(m[k] == acc[k]);
                let j = choose|j: int|
                    0 <= j < prev.len() && #[trigger] acc[k] == (crate::text::lower_seq(prev[j].0), prev[j].1)
                        && is_passthrough(crate::text::lower_seq(prev[j].0));
                assert(prev[j] == upstream[j]);
            } else {
                assert(m[k] == (crate::text::lower_seq(upstream[upstream.len() - 1].0), upstream[upstream.len() - 1].1));
            }
        }
    }
}

/// Merging more upstream headers only adds to the end.
proof fn merged_headers_prefix(own: Seq<(Seq<char>, Seq<char>)>, upstream: Seq<(Seq<char>, Seq<char>)>, n: int)
    requires
        0 <= n <= upstream.len(),
    ensures
        merged_headers(own, upstream.take(n)).len() <= merged_headers(own, upstream).len(),
        forall|k: int|
            0 <= k < merged_headers(own, upstream.take(n)).len() ==> merged_headers(own, upstream)[k]
                == #[trigger] merged_headers(own, upstream.take(n))[k],
    decreases upstream.len(),
{
    if n < upstream.len() {
        let prev = upstream.drop_last();
        assert(prev.take(n) =~= upstream.take(n));
        merged_headers_prefix(own, prev, n);
    } else {
        assert(upstream.take(n) =~= upstream);
    }
}

/// A framing header of the upstream (`Content-Range` or `Content-Length`,
/// in any case) that the script did not set reaches the client under its
/// lower-case name with the upstream's value; when the upstream repeats it,
/// the first occurrence is the one passed on.
pub proof fn upstream_framing_reaches_the_client(
    own: Seq<(Seq<char>, Seq<char>)>,
    upstream: Seq<(Seq<char>, Seq<char>)>,
    name: Seq<char>,
    i: int,
)
    requires
        name == "content-range"@ || name == "content-length"@,
        0 <= i < upstream.len(),
        crate::text::lower_seq(upstream[i].0) == name,
        forall|j: int| 0 <= j < i ==> crate::text::lower_seq(#[trigger] upstream[j].0) != name,
        forall|k: int| 0 <= k < own.len() ==> !crate::text::eq_ignore_case(#[trigger] own[k].0, name),
    ensures
        merged_headers(own, upstream).contains((name, upstream[i].1)),
{
    let before = upstream.take(i);
    let upto = upstream.take(i + 1);
    let acc = merged_headers(own, before);
    merged_headers_shape(own, before);
    reveal_strlit("content-range");
    reveal_strlit("content-length");
    assert forall|k: int| 0 <= k < acc.len() implies !crate::text::eq_ignore_case(#[trigger] acc[k].0, name) by {
        if k >= own.len() {
            let j = choose|j: int|
                0 <= j < before.len() && #[trigger] acc[k] == (crate::text::lower_seq(before[j].0), before[j].1)
                    && is_passthrough(crate::text::lower_seq(before[j].0));
            assert(before[j] == upstream[j]);
            let other = crate::text::lower_seq(upstream[j].0);
            assert(other != name);
            assert(other.len() != name.len());
            assert(crate::text::lower_seq(other).len() == other.len());
            assert(crate::text::lower_seq(name).len() == name.len());
        } else {
            assert(acc[k] == own[k]);
        }
    }
    assert(upto.drop_last() =~= before);
    assert(upto.last() == upstream[i]);
    assert(merged_headers(own, upto) == acc.push((name, upstream[i].1)));
    assert(merged_headers(own, upto)[acc.len() as int] == (name, upstream[i].1));
    merged_headers_prefix(own, upstream, i + 1);
    assert(merged_headers(own, upstream)[acc.len() as int] == (name, upstream[i].1));
}

/// The answer of a piped call once the upstream status and headers are
/// known: a final non-2xx is a catchable `upstream_http_error`; otherwise the
/// script's status (or the upstream 2xx status) and the merged headers.
pub fn pipe_answer(
    call_status: Option<u16>,
    call_headers: Vec<(String, String)>,
    upstream_status: u16,
    upstream_headers: &[(String, String)],
) -> (r: Result<(u16, Vec<(String, String)>), Error>)
    ensures
        !(200 <= upstream_status <= 299) ==> (r matches Err(Error::Status(s)) && s == upstream_status),
        200 <= upstream_status <= 299 ==> (r matches Ok((status, headers))
            && status == (match call_status { Some(s) => s, None => upstream_status })
            && header_pairs_view(headers@) == merged_headers(
                header_pairs_view(call_headers@),
                header_pairs_view(upstream_headers@),
            )),
{
    if !(200 <= upstream_status && upstream_status <= 299) {
        return Err(Error::Status(upstream_status));
    }
    let mut headers = call_headers;
    let ghost own = header_pairs_view(headers@);
    let ghost up = header_pairs_view(upstream_headers@);
    let mut i: usize = 0;
    assert(up.take(0) =~= Seq::<(Seq<char>, Seq<char>)>::empty());
    while i < upstream_headers.len()
        invariant
            i <= upstream_headers@.len(),
            up == header_pairs_view(upstream_headers@),
            header_pairs_view(headers@) == merged_headers(own, up.take(i as int)),
        decreases upstream_headers@.len() - i,
    {
        assert(up.take(i + 1).drop_last() =~= up.take(i as int));
        assert(up.take(i + 1).last() == up[i as int]);
        let name = crate::text::to_ascii_lower(upstream_headers[i].0.as_str());
        let name_chars = crate::text::chars_of(name.as_str());
        let passthrough = str_eq(name.as_str(), "content-range") || str_eq(name.as_str(), "content-length");
        let ghost acc = header_pairs_view(headers@);
        let mut set = false;
        let mut k: usize = 0;
        while k < headers.len()
            invariant
                k <= headers@.len(),
                acc == header_pairs_view(headers@),
                name_chars@ == name@,
                set == (exists|m: int| 0 <= m < k && crate::text::eq_ignore_case(#[trigger] acc[m].0, name@)),
            decreases headers@.len() - k,
        {
            let existing = crate::text::chars_of(headers[k].0.as_str());
            assert(acc[k as int].0 == headers@[k as int].0@);
            if crate::text::eq_ignore_case_exec(existing.as_slice(), name_chars.as_slice()) {
                set = true;
            }
            k = k + 1;
        }
        if passthrough && !set {
            headers.push((name, upstream_headers[i].1.clone()));
            assert(header_pairs_view(headers@) =~= acc.push((name@, up[i as int].1)));
        }
        i = i + 1;
    }
    assert(up.take(i as int) =~= up);
    Ok((match call_status { Some(s) => s, None => upstream_status }, headers))
}

/// A failed upstream request as the HTTP client reported it.
#[derive(Debug)]
pub enum FetchFailure {
    /// The URI is missing scheme or host.
    BadUri(String),
    /// The request could not be built; the client's message.
    Http(String),
    /// A configured timeout was hit.
    Timeout,
    /// The host name did not resolve.
    HostNotFound,
    /// The body passed the read limit.
    BodyExceedsLimit(u64),
    /// Any other failure (connection, TLS, protocol, I/O); its message.
    Other(String),
}

/// 4xx/5xx answers are data; everything else is mapped to a stable class.
pub fn map_fetch_failure(failure: FetchFailure) -> (r: Error)
    ensures
        match failure {
            FetchFailure::BadUri(m) => r matches Error::Policy(got) && got@ == "ctx.http: invalid URL: "@ + m@,
            FetchFailure::Http(m) => r matches Error::Policy(got) && got@ == "ctx.http: invalid request: "@ + m@,
            FetchFailure::Timeout => r matches Error::Transport { kind, message } && kind == TransportKind::Timeout
                && message@ == "ctx.http: upstream timeout"@,
            FetchFailure::HostNotFound => r matches Error::Transport { kind, message } && kind == TransportKind::Dns
                && message@ == "ctx.http: upstream host not found"@,
            FetchFailure::BodyExceedsLimit(limit) => r matches Error::Policy(got) && got@
                == "ctx.http.get: upstream response body exceeds the "@ + decimal_text(limit as nat) + "-byte limit"@,
            FetchFailure::Other(m) => r matches Error::Transport { kind, message } && kind == TransportKind::Other
                && message@ == "ctx.http: "@ + m@,
        },
{
    match failure {
        FetchFailure::BadUri(m) => Error::Policy(String::from_str("ctx.http: invalid URL: ").concat(m.as_str())),
        FetchFailure::Http(m) => Error::Policy(String::from_str("ctx.http: invalid request: ").concat(m.as_str())),
        FetchFailure::Timeout => timeout_error(),
        FetchFailure::HostNotFound => Error::Transport {
            kind: TransportKind::Dns,
            message: String::from_str("ctx.http: upstream host not found"),
        },
        FetchFailure::BodyExceedsLimit(limit) => Error::Policy(
            String::from_str("ctx.http.get: upstream response body exceeds the ").concat(
                u64_decimal(limit).as_str(),
            ).concat("-byte limit"),
        ),
        FetchFailure::Other(m) => Error::Transport {
            kind: TransportKind::Other,
            message: String::from_str("ctx.http: ").concat(m.as_str()),
        },
    }
}

/// The character for one 6-bit group in the standard base64 alphabet.
pub open spec fn base64_char(v: nat) -> char {
    if v < 26 {
        (65 + v) as char
    } else if v < 52 {
        (97 + v - 26) as char
    } else if v < 62 {
        (48 + v - 52) as char
    } else if v == 62 {
        '+'
    } else {
        '/'
    }
}

/// Standard base64 with `=` padding (RFC 4648, section 4).
pub open spec fn base64_text(b: Seq<u8>) -> Seq<char>
    decreases b.len(),
{
    if b.len() == 0 {
        Seq::empty()
    } else if b.len() == 1 {
        seq![base64_char((b[0] / 4) as nat), base64_char(((b[0] % 4) * 16) as nat), '=', '=']
    } else if b.len() == 2 {
        seq![
            base64_char((b[0] / 4) as nat),
            base64_char(((b[0] % 4) * 16 + b[1] / 16) as nat),
            base64_char(((b[1] % 16) * 4) as nat),
            '=',
        ]
    } else {
        seq![
            base64_char((b[0] / 4) as nat),
            base64_char(((b[0] % 4) * 16 + b[1] / 16) as nat),
            base64_char(((b[1] % 16) * 4 + b[2] / 64) as nat),
            base64_char((b[2] % 64) as nat),
        ] + base64_text(b.skip(3))
    }
}

/// `base64::engine::general_purpose::STANDARD.encode`: padded standard
/// base64 of the bytes.
#[verifier::external_body]
pub(crate) fn base64_encode(bytes: &[u8]) -> (r: String)
    requires
        bytes@.len() <= usize::MAX / 2,
    ensures
        r@ == base64_text(bytes@),
{
    base64::Engine::encode(&base64::engine::general_purpose::STANDARD, bytes)
}

/// One upstream answer handed to the script.
#[derive(Debug)]
pub struct Response {
    pub status: u16,
    pub headers: Vec<(String, String)>,
    pub body: Vec<u8>,
}

/// `j` is one answer as the script bridge hands it over: status, headers
/// (a later repeat of a name wins), lossy text, and the body as base64.
pub open spec fn response_answer(j: Json, response: Response) -> bool {
    j matches Json::Object(m) && m@.len() == 4
        && m@[0].0@ == "status"@ && m@[0].1 == Json::Number(Some(response.status as u64))
        && m@[1].0@ == "headers"@ && (m@[1].1 matches Json::Object(h)
            && holds_strings(h@, pairs_map(pairs_view(response.headers@))) && distinct_keys(h@))
        && m@[2].0@ == "text"@ && (m@[2].1 matches Json::Str(t) && t@ == lossy_text(response.body@))
        && m@[3].0@ == "body_base64"@ && (m@[3].1 matches Json::Str(b) && b@ == base64_text(response.body@))
}

/// Serialize one answer for the script bridge.
pub fn response_json(response: Response) -> (r: Json)
    requires
        response.body@.len() <= usize::MAX / 2,
    ensures
        response_answer(r, response),
{
    let Response { status, headers, body } = response;
    let header_object = string_object(headers.as_slice());
    let text = lossy_string(body.as_slice());
    let encoded = base64_encode(body.as_slice());
    let mut out: Vec<(String, Json)> = Vec::new();
    out.push((String::from_str("status"), Json::Number(Some(status as u64))));
    out.push((String::from_str("headers"), header_object));
    out.push((String::from_str("text"), Json::Str(text)));
    out.push((String::from_str("body_base64"), Json::Str(encoded)));
    Json::Object(out)
}

/// The stable kind of an uncaught transport error recovered from the
/// marker the host put on it: `timeout` and `dns` keep their names; any
/// other value is `transport`.
pub fn marked_transport_kind(marker: Option<&str>) -> (r: &'static str)
    ensures
        r@ == (match marker {
            Some(m) => if m@ == "timeout"@ {
                "timeout"@
            } else if m@ == "dns"@ {
                "dns"@
            } else {
                "transport"@
            },
            None => "transport"@,
        }),
{
    match marker {
        Some(m) => if str_eq(m, "timeout") {
            "timeout"
        } else if str_eq(m, "dns") {
            "dns"
        } else {
            "transport"
        },
        None => "transport",
    }
}

} // verus!
