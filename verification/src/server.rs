//! Answer shaping for the HTTP surface: correlation ids, the JSON error
//! body, the mapping of a handled route onto status and class, the log
//! header allowlists, and the shutdown signals' exit codes.
use vstd::prelude::*;
use crate::config::Route;
use crate::json::{json_quoted, json_string};
use crate::config::Config;
use crate::matcher::{first_match, match_route, pairs_view, Match};
use crate::script::{header_rejection, validate_header_pairs, Error, ResponseBody, ResponseBodyView, ScriptResponse};
use crate::text::{lower_seq, str_eq, to_ascii_lower};

verus! {

/// The lower-case hexadecimal numeral of `n`, without leading zeros.
pub open spec fn hex_text(n: nat) -> Seq<char>
    decreases n,
{
    if n < 16 {
        seq![crate::json::hex_lower(n)]
    } else {
        hex_text(n / 16).push(crate::json::hex_lower(n % 16))
    }
}

/// `n` in hexadecimal, left-padded with zeros to at least `width` digits.
pub open spec fn hex_padded(n: nat, width: nat) -> Seq<char> {
    let digits = hex_text(n);
    if digits.len() < width {
        Seq::new((width - digits.len()) as nat, |i: int| '0') + digits
    } else {
        digits
    }
}

fn hex_digits(n: u64, width: usize) -> (r: String)
    requires
        width <= 16,
    ensures
        r@ == hex_padded(n as nat, width as nat),
{
    let mut rev: Vec<char> = Vec::new();
    let mut m = n;
    loop
        invariant_except_break
            hex_text(n as nat) == hex_text(m as nat) + rev@.reverse(),
        ensures
            hex_text(n as nat) == rev@.reverse(),
        decreases m,
    {
        let d = (m % 16) as u8;
        let c = if d < 10 { (d + 48) as char } else { (d + 87) as char };
        assert(c == crate::json::hex_lower(d as nat));
        let ghost before = rev@;
        rev.push(c);
        assert(rev@.reverse() =~= seq![c] + before.reverse());
        if m < 16 {
            break;
        }
        assert(hex_text(m as nat) + before.reverse() =~= hex_text((m / 16) as nat) + rev@.reverse());
        m = m / 16;
    }
    let mut out = String::new();
    let len = rev.len();
    let mut k: usize = 0;
    assert(out@ =~= Seq::new(0nat, |i: int| '0'));
    while len < width - k
        invariant
            out@ == Seq::new(k as nat, |i: int| '0'),
            k <= width,
            k == 0 || k + len <= width,
            width <= 16,
        decreases width - k,
    {
        out.push('0');
        k = k + 1;
        assert(out@ =~= Seq::new(k as nat, |i: int| '0'));
    }
    let ghost zeros = out@;
    let mut i = rev.len();
    while i > 0
        invariant
            i <= rev@.len(),
            out@ == zeros + rev@.reverse().take(rev@.len() - i),
        decreases i,
    {
        i = i - 1;
        out.push(rev[i]);
        assert(out@ =~= zeros + rev@.reverse().take(rev@.len() - i));
    }
    assert(rev@.reverse().take(rev@.len() as int) =~= rev@.reverse());
    assert(out@ =~= hex_padded(n as nat, width as nat));
    out
}

/// The value of a string of lower-case hexadecimal digits.
pub open spec fn hex_value(s: Seq<char>) -> nat
    decreases s.len(),
{
    if s.len() == 0 {
        0
    } else {
        hex_value(s.drop_last()) * 16 + digit_value(s.last())
    }
}

pub open spec fn digit_value(c: char) -> nat {
    if '0' <= c && c <= '9' {
        (c as u32 - 48) as nat
    } else if 'a' <= c && c <= 'f' {
        (c as u32 - 87) as nat
    } else {
        0
    }
}

pub open spec fn pow16(k: nat) -> nat
    decreases k,
{
    if k == 0 {
        1
    } else {
        16 * pow16((k - 1) as nat)
    }
}

proof fn lemma_hex_text_value(n: nat)
    ensures
        hex_value(hex_text(n)) == n,
    decreases n,
{
    if n >= 16 {
        lemma_hex_text_value(n / 16);
        let t = hex_text(n);
        assert(t.drop_last() == hex_text(n / 16));
        assert(digit_value(t.last()) == n % 16);
    } else {
        let t = hex_text(n);
        assert(t.drop_last() =~= Seq::<char>::empty());
        assert(t.last() == crate::json::hex_lower(n));
        assert(hex_value(Seq::<char>::empty()) == 0);
        assert(digit_value(crate::json::hex_lower(n)) == n);
    }
}

proof fn lemma_zeros_value(z: nat, t: Seq<char>)
    ensures
        hex_value(Seq::new(z, |i: int| '0') + t) == hex_value(t),
    decreases t.len(), z,
{
    let zeros = Seq::new(z, |i: int| '0');
    if t.len() > 0 {
        assert((zeros + t).drop_last() =~= zeros + t.drop_last());
        assert((zeros + t).last() == t.last());
        lemma_zeros_value(z, t.drop_last());
    } else if z > 0 {
        assert(zeros + t =~= zeros);
        assert(zeros.drop_last() =~= Seq::new((z - 1) as nat, |i: int| '0') + t);
        lemma_zeros_value((z - 1) as nat, t);
    } else {
        assert(zeros + t =~= t);
    }
}

proof fn lemma_hex_padded_value(n: nat, width: nat)
    ensures
        hex_value(hex_padded(n, width)) == n,
{
    lemma_hex_text_value(n);
    let digits = hex_text(n);
    if digits.len() < width {
        lemma_zeros_value((width - digits.len()) as nat, digits);
    }
}

proof fn lemma_hex_text_len(n: nat, k: nat)
    requires
        k >= 1,
        n < pow16(k),
    ensures
        hex_text(n).len() <= k,
    decreases k,
{
    if n >= 16 {
        assert(pow16(k) == 16 * pow16((k - 1) as nat));
        lemma_hex_text_len(n / 16, (k - 1) as nat);
    }
}

proof fn lemma_u64_hex_width(n: u64)
    ensures
        hex_padded(n as nat, 16).len() == 16,
{
    reveal_with_fuel(pow16, 17);
    assert(pow16(16) == 0x1_0000_0000_0000_0000);
    lemma_hex_text_len(n as nat, 16);
}

/// Two requests with different sequence numbers get different correlation
/// ids, whatever the clock reads.
pub proof fn request_ids_differ_by_sequence(nanos1: u64, sequence1: u64, nanos2: u64, sequence2: u64)
    requires
        sequence1 != sequence2,
    ensures
        hex_padded(nanos1 as nat, 16) + hex_padded(sequence1 as nat, 8) != hex_padded(nanos2 as nat, 16)
            + hex_padded(sequence2 as nat, 8),
{
    lemma_u64_hex_width(nanos1);
    lemma_u64_hex_width(nanos2);
    let a = hex_padded(nanos1 as nat, 16) + hex_padded(sequence1 as nat, 8);
    let b = hex_padded(nanos2 as nat, 16) + hex_padded(sequence2 as nat, 8);
    if a == b {
        assert(a.skip(16) =~= hex_padded(sequence1 as nat, 8));
        assert(b.skip(16) =~= hex_padded(sequence2 as nat, 8));
        lemma_hex_padded_value(sequence1 as nat, 8);
        lemma_hex_padded_value(sequence2 as nat, 8);
    }
}

/// A correlation id: the clock reading in 16 hex digits followed by the
/// request sequence number in at least 8. Not a security token, only a
/// handle for joining logs and error bodies.
pub fn request_id(nanos: u64, sequence: u64) -> (r: String)
    ensures
        r@ == hex_padded(nanos as nat, 16) + hex_padded(sequence as nat, 8),
{
    hex_digits(nanos, 16).concat(hex_digits(sequence, 8).as_str())
}

/// The JSON error body: `{"detail":…,"error":…,"request_id":…}` with keys in
/// sorted order and `detail` only when given.
pub open spec fn error_body_text(request_id: Seq<char>, class: Seq<char>, detail: Option<Seq<char>>) -> Seq<char> {
    "{"@ + match detail {
        Some(d) => "\"detail\":"@ + json_quoted(d) + ","@,
        None => Seq::empty(),
    } + "\"error\":"@ + json_quoted(class) + ",\"request_id\":"@ + json_quoted(request_id) + "}"@
}

/// JSON error body shared by every non-script answer.
pub fn error_body(request_id: &str, class: &str, detail: Option<&str>) -> (r: String)
    ensures
        r@ == error_body_text(
            request_id@,
            class@,
            match detail {
                Some(d) => Some(d@),
                None => None,
            },
        ),
{
    let mut body = String::from_str("{");
    if let Some(d) = detail {
        body = body.concat("\"detail\":").concat(json_string(d).as_str()).concat(",");
    }
    let body = body.concat("\"error\":").concat(json_string(class).as_str()).concat(
        ",\"request_id\":",
    ).concat(json_string(request_id).as_str()).concat("}");
    proof {
        reveal_strlit("{");
    }
    body
}

/// One failed request mapped onto the wire: status, log class, JSON body.
#[derive(Debug)]
pub struct MappedFailure {
    pub status: u16,
    pub error_class: &'static str,
    pub body: String,
}

/// No route matched method and path: 404 `not_found`.
pub fn map_not_found(request_id: &str) -> (r: MappedFailure)
    ensures
        r.status == 404,
        r.error_class@ == "not_found"@,
        r.body@ == error_body_text(request_id@, "not_found"@, None),
{
    MappedFailure { status: 404, error_class: "not_found", body: error_body(request_id, "not_found", None) }
}

/// A script failure reaching the client: its status and class, with the
/// stable detail only under `--verbose`.
pub fn map_failure(error: &Error, request_id: &str, verbose: bool) -> (r: MappedFailure)
    ensures
        r.status == error.status_spec(),
        r.error_class@ == error.class_spec(),
        r.body@ == error_body_text(
            request_id@,
            error.class_spec(),
            if verbose {
                Some(error.detail_spec())
            } else {
                None
            },
        ),
{
    let class = error.class();
    let detail = if verbose { Some(error.detail()) } else { None };
    MappedFailure { status: error.status(), error_class: class, body: error_body(request_id, class, detail) }
}

/// Two errors that differ at most in their script or transport message.
pub open spec fn same_but_message(a: Error, b: Error) -> bool {
    match (a, b) {
        (Error::Failed(_), Error::Failed(_)) => true,
        (Error::TimedOut, Error::TimedOut) => true,
        (Error::NoResponse, Error::NoResponse) => true,
        (Error::UpstreamUnreachable { kind: k1, .. }, Error::UpstreamUnreachable { kind: k2, .. }) => k1@ == k2@,
        _ => false,
    }
}

/// What a client sees of a failure (status, class and body, verbose or
/// not) never depends on a script's or an upstream's message.
pub proof fn failure_answers_ignore_messages(a: Error, b: Error, request_id: Seq<char>, verbose: bool)
    requires
        same_but_message(a, b),
    ensures
        a.status_spec() == b.status_spec(),
        a.class_spec() == b.class_spec(),
        error_body_text(request_id, a.class_spec(), if verbose { Some(a.detail_spec()) } else { None })
            == error_body_text(request_id, b.class_spec(), if verbose { Some(b.detail_spec()) } else { None }),
{
}

/// The outcome of one request before it is mapped onto HTTP.
#[derive(Debug)]
pub enum Handled<R> {
    /// No route matched method and path.
    NotFound,
    /// The script did not produce a response.
    Failed(Error),
    /// The script produced a response.
    Responded(R),
}

/// A finished script run: its response wins; otherwise its error; a run
/// with neither finished without responding.
pub fn settle<R>(response: Option<R>, error: Option<Error>) -> (r: Handled<R>)
    ensures
        match (response, error) {
            (Some(x), _) => r == Handled::Responded(x),
            (None, Some(e)) => r == Handled::<R>::Failed(e),
            (None, None) => r matches Handled::Failed(Error::NoResponse),
        },
{
    match (response, error) {
        (Some(x), _) => Handled::Responded(x),
        (None, Some(e)) => Handled::Failed(e),
        (None, None) => Handled::Failed(Error::NoResponse),
    }
}

/// The status sent for a script status: any code in `[100, 999]` stands,
/// anything else becomes 500.
pub fn response_status(status: u16) -> (r: u16)
    ensures
        r == (if 100 <= status <= 999 { status } else { 500 }),
{
    if 100 <= status && status <= 999 {
        status
    } else {
        500
    }
}

/// The label a matched route is logged under: its name, else its path.
pub fn route_label(route: &Route) -> (r: String)
    ensures
        r@ == (match route.name {
            Some(n) => n@,
            None => route.path@,
        }),
{
    match &route.name {
        Some(n) => n.clone(),
        None => route.path.clone(),
    }
}

/// Request headers copied into the per-request log; tokens and cookies are
/// deliberately absent.
pub const REQUEST_LOG_HEADERS: [&'static str; 5] = ["accept", "content-type", "content-length", "range", "user-agent"];

/// Response headers copied into the per-request log.
pub const RESPONSE_LOG_HEADERS: [&'static str; 3] = ["content-type", "content-length", "content-range"];

/// The values of every header named `name` (ignoring ASCII case), in order.
pub open spec fn values_named(headers: Seq<(Seq<char>, Seq<char>)>, name: Seq<char>) -> Seq<Seq<char>>
    decreases headers.len(),
{
    if headers.len() == 0 {
        Seq::empty()
    } else {
        let prev = values_named(headers.drop_last(), name);
        if lower_seq(headers.last().0) == lower_seq(name) {
            prev.push(headers.last().1)
        } else {
            prev
        }
    }
}

/// For each allowlisted name, in allowlist order, the comma-joined values of
/// the headers of that name; names without a value are left out.
pub open spec fn logged_headers(
    headers: Seq<(Seq<char>, Seq<char>)>,
    allowlist: Seq<Seq<char>>,
) -> Seq<(Seq<char>, Seq<char>)>
    decreases allowlist.len(),
{
    if allowlist.len() == 0 {
        Seq::empty()
    } else {
        let prev = logged_headers(headers, allowlist.drop_last());
        let values = values_named(headers, allowlist.last());
        if values.len() > 0 {
            prev.push((allowlist.last(), crate::text::joined(values, ", "@)))
        } else {
            prev
        }
    }
}

/// The allowlisted headers of one request or response, for its log line.
/// `headers` holds the headers whose values are visible ASCII.
pub fn loggable_headers(headers: &[(String, String)], allowlist: &[&str]) -> (r: Vec<(String, String)>)
    ensures
        crate::matcher::pairs_view(r@) == logged_headers(
            crate::matcher::pairs_view(headers@),
            crate::text::strs_view(allowlist@),
        ),
{
    let ghost hv = crate::matcher::pairs_view(headers@);
    let ghost av = crate::text::strs_view(allowlist@);
    let mut out: Vec<(String, String)> = Vec::new();
    let mut a: usize = 0;
    assert(av.take(0) =~= Seq::<Seq<char>>::empty());
    assert(crate::matcher::pairs_view(out@) =~= Seq::<(Seq<char>, Seq<char>)>::empty());
    while a < allowlist.len()
        invariant
            a <= allowlist@.len(),
            hv == crate::matcher::pairs_view(headers@),
            av == crate::text::strs_view(allowlist@),
            crate::matcher::pairs_view(out@) == logged_headers(hv, av.take(a as int)),
        decreases allowlist@.len() - a,
    {
        let name = allowlist[a];
        let lname = to_ascii_lower(name);
        let mut values: Vec<String> = Vec::new();
        let mut k: usize = 0;
        assert(hv.take(0) =~= Seq::<(Seq<char>, Seq<char>)>::empty());
        assert(crate::text::strings_view(values@) =~= Seq::<Seq<char>>::empty());
        while k < headers.len()
            invariant
                k <= headers@.len(),
                hv == crate::matcher::pairs_view(headers@),
                lname@ == lower_seq(name@),
                crate::text::strings_view(values@) == values_named(hv.take(k as int), name@),
            decreases headers@.len() - k,
        {
            assert(hv.take(k + 1).drop_last() =~= hv.take(k as int));
            assert(hv.take(k + 1).last() == (headers@[k as int].0@, headers@[k as int].1@));
            let hname = to_ascii_lower(headers[k].0.as_str());
            if str_eq(hname.as_str(), lname.as_str()) {
                let ghost before = crate::text::strings_view(values@);
                values.push(headers[k].1.clone());
                assert(crate::text::strings_view(values@) =~= before.push(headers@[k as int].1@));
            }
            k = k + 1;
        }
        assert(hv.take(k as int) =~= hv);
        assert(av.take(a + 1).drop_last() =~= av.take(a as int));
        assert(av.take(a + 1).last() == name@);
        if values.len() > 0 {
            let joined = crate::text::join_strings(values.as_slice(), ", ");
            let ghost before = crate::matcher::pairs_view(out@);
            out.push((String::from_str(name), joined));
            assert(crate::matcher::pairs_view(out@) =~= before.push((name@, joined@)));
        }
        a = a + 1;
    }
    assert(av.take(a as int) =~= av);
    out
}

/// The length in bytes of a buffered body; a streamed body is counted by the
/// relay that writes its completion log, so it has none here.
pub open spec fn body_size_spec(body: ResponseBodyView) -> Option<u64> {
    match body {
        ResponseBodyView::Text(t) => Some((vstd::utf8::encode_utf8(t).len() as usize) as u64),
        ResponseBodyView::Bytes(b) => Some(b.len() as u64),
        ResponseBodyView::Stream => None,
        ResponseBodyView::File(_) => None,
    }
}

/// The length in bytes of a buffered body, `None` for a streamed one.
pub fn buffered_body_size(body: &ResponseBody) -> (r: Option<u64>)
    ensures
        r == body_size_spec(body.view()),
{
    match body {
        ResponseBody::Text(t) => Some(t.as_str().len() as u64),
        ResponseBody::Bytes(b) => Some(b.len() as u64),
        ResponseBody::Stream => None,
        ResponseBody::File(_) => None,
    }
}

/// One handled request mapped onto the HTTP answer, plus its log-only
/// fields: the error class (empty for a script response) and the size of a
/// buffered body.
#[derive(Debug)]
pub struct Mapped {
    pub status: u16,
    pub error_class: &'static str,
    pub headers: Vec<(String, String)>,
    pub body: ResponseBody,
    pub body_bytes: Option<u64>,
}

/// `m` is the answer to `error`: its status and class, no headers, and the
/// JSON error body, with the stable detail only under `verbose`.
pub open spec fn failure_answer(m: Mapped, error: Error, request_id: Seq<char>, verbose: bool) -> bool {
    let body = error_body_text(request_id, error.class_spec(), if verbose { Some(error.detail_spec()) } else { None });
    &&& m.status == error.status_spec()
    &&& m.error_class@ == error.class_spec()
    &&& m.headers@.len() == 0
    &&& m.body.view() == ResponseBodyView::Text(body)
    &&& m.body_bytes == body_size_spec(ResponseBodyView::Text(body))
}

fn failure_mapped(error: &Error, request_id: &str, verbose: bool) -> (r: Mapped)
    ensures
        failure_answer(r, *error, request_id@, verbose),
{
    let failure = map_failure(error, request_id, verbose);
    let body = ResponseBody::Text(failure.body);
    let body_bytes = buffered_body_size(&body);
    Mapped { status: failure.status, error_class: failure.error_class, headers: Vec::new(), body, body_bytes }
}

/// Map a handled request onto HTTP. No match is a 404 `not_found`; a script
/// failure is its error's answer; a script response keeps its status (or
/// 500 when out of range), headers and body, unless a header fails the HTTP
/// grammar, which fails closed as a script error.
pub fn map_handled(handled: Handled<ScriptResponse>, request_id: &str, verbose: bool) -> (r: Mapped)
    ensures
        match handled {
            Handled::NotFound => {
                let body = error_body_text(request_id@, "not_found"@, None);
                &&& r.status == 404
                &&& r.error_class@ == "not_found"@
                &&& r.headers@.len() == 0
                &&& r.body.view() == ResponseBodyView::Text(body)
                &&& r.body_bytes == body_size_spec(ResponseBodyView::Text(body))
            },
            Handled::Failed(e) => failure_answer(r, e, request_id@, verbose),
            Handled::Responded(resp) => match header_rejection(pairs_view(resp.headers@)) {
                Some(m) => exists|s: String| s@ == m && failure_answer(r, Error::Failed(s), request_id@, verbose),
                None => {
                    &&& r.status == (if 100 <= resp.status <= 999 { resp.status } else { 500u16 })
                    &&& r.error_class@ == ""@
                    &&& r.headers@ == resp.headers@
                    &&& r.body.view() == resp.body.view()
                    &&& r.body_bytes == body_size_spec(resp.body.view())
                },
            },
        },
{
    match handled {
        Handled::NotFound => {
            let failure = map_not_found(request_id);
            let body = ResponseBody::Text(failure.body);
            let body_bytes = buffered_body_size(&body);
            Mapped { status: failure.status, error_class: failure.error_class, headers: Vec::new(), body, body_bytes }
        },
        Handled::Failed(error) => failure_mapped(&error, request_id, verbose),
        Handled::Responded(response) => match validate_header_pairs(response.headers.as_slice()) {
            Ok(()) => {
                let body_bytes = buffered_body_size(&response.body);
                proof {
                    reveal_strlit("");
                }
                Mapped {
                    status: response_status(response.status),
                    error_class: "",
                    headers: response.headers,
                    body: response.body,
                    body_bytes,
                }
            },
            Err(message) => {
                let error = Error::Failed(message);
                let r = failure_mapped(&error, request_id, verbose);
                r
            },
        },
    }
}

/// The server's shared state: the loaded configuration, the bound address
/// as text, the verbosity, and the request sequence number.
pub struct AppState {
    pub config: Config,
    pub host: String,
    pub verbose: bool,
    pub sequence: u64,
}

impl AppState {
    pub fn new(config: Config, host: String, verbose: bool) -> (r: AppState)
        ensures
            r.config == config,
            r.host == host,
            r.verbose == verbose,
            r.sequence == 0,
    {
        AppState { config, host, verbose, sequence: 0 }
    }

    /// The next correlation id for a clock reading of `nanos`; the sequence
    /// number advances by one, wrapping at `u64::MAX`.
    pub fn request_id(&mut self, nanos: u64) -> (r: String)
        ensures
            r@ == hex_padded(nanos as nat, 16) + hex_padded(old(self).sequence as nat, 8),
            final(self).sequence == (if old(self).sequence == u64::MAX { 0 } else { (old(self).sequence + 1) as u64 }),
            final(self).config == old(self).config,
            final(self).host == old(self).host,
            final(self).verbose == old(self).verbose,
    {
        let seq = self.sequence;
        self.sequence = seq.wrapping_add(1);
        request_id(nanos, seq)
    }

    /// The route matching a request, with the label it is logged under.
    pub fn route(&self, method: &str, path: &str) -> (r: Option<(Match, String)>)
        ensures
            first_match(
                self.config.routes@,
                method@,
                path@,
                match r {
                    Some((m, _)) => Some(m),
                    None => None,
                },
            ),
            r matches Some((m, label)) ==> label@ == (match self.config.routes@[m.route_index as int].name {
                Some(n) => n@,
                None => self.config.routes@[m.route_index as int].path@,
            }),
    {
        match match_route(self.config.routes.as_slice(), method, path) {
            None => None,
            Some(found) => {
                let label = route_label(&self.config.routes[found.route_index]);
                Some((found, label))
            },
        }
    }
}

/// A process shutdown signal.
#[derive(Debug, Clone, Copy, PartialEq, Eq, Structural)]
pub enum ShutdownSignal {
    Interrupt,
    Terminate,
}

impl ShutdownSignal {
    /// The signal's conventional name.
    pub fn name(self) -> (r: &'static str)
        ensures
            r@ == (match self {
                ShutdownSignal::Interrupt => "SIGINT"@,
                ShutdownSignal::Terminate => "SIGTERM"@,
            }),
    {
        match self {
            ShutdownSignal::Interrupt => "SIGINT",
            ShutdownSignal::Terminate => "SIGTERM",
        }
    }

    /// Exit code of a forced exit on a second signal: 128 plus the signal
    /// number, as shells report it.
    pub fn forced_exit_code(self) -> (r: i32)
        ensures
            r == (match self {
                ShutdownSignal::Interrupt => 130i32,
                ShutdownSignal::Terminate => 143i32,
            }),
    {
        match self {
            ShutdownSignal::Interrupt => 130,
            ShutdownSignal::Terminate => 143,
        }
    }
}

} // verus!
