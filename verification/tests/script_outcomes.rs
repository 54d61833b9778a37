use stuntdouble::bridge::{get_answer, header_check, upstream_failure_json};
use stuntdouble::config::Route;
use stuntdouble::json::Json;
use stuntdouble::matcher::match_route;
use stuntdouble::script::{read_host_record, uncaught_error, Error, RequestSnapshot, ResponseBody, API_VERSION};
use stuntdouble::server::{map_handled, settle, Handled, Mapped};
use stuntdouble::upstream::{
    map_fetch_failure, parse_call_url, pipe_answer, redirect_hop, validate, Api, Error as UpstreamError,
    FetchFailure, Hop, Location, Relay, RelayEvent, Response, StreamOutcome, TransportKind,
};

fn text(mapped: &Mapped) -> String {
    match &mapped.body {
        ResponseBody::Text(t) => t.clone(),
        _ => panic!("buffered text body expected"),
    }
}

fn field(body: &str, key: &str) -> Option<String> {
    let value: serde_json::Value = serde_json::from_str(body).ok()?;
    value.get(key)?.as_str().map(str::to_string)
}

/// An uncaught throw, marked by the host with `kind` or not, answered with
/// the given verbosity.
fn thrown(kind: Option<&'static str>, message: &str, verbose: bool) -> Mapped {
    map_handled(Handled::Failed(uncaught_error(kind, message.to_string())), "00000000000000010000000a", verbose)
}

/// The member `key` of a bridge answer.
fn member<'a>(answer: &'a Json, key: &str) -> &'a Json {
    answer.get(key).unwrap_or_else(|| panic!("member {key} missing"))
}

fn str_member(answer: &Json, key: &str) -> String {
    match member(answer, key) {
        Json::Str(s) => s.clone(),
        _ => panic!("member {key} is not a string"),
    }
}

fn allow() -> Vec<String> {
    vec!["127.0.0.1".to_string()]
}

fn log_record(level: &str, message: &str) -> Json {
    Json::Object(vec![
        ("level".to_string(), Json::Str(level.to_string())),
        ("message".to_string(), Json::Str(message.to_string())),
    ])
}

#[test]
fn uncaught_script_error_maps_to_500_with_request_id() {
    let mapped = thrown(None, "Error: secret stack detail", false);
    assert_eq!(mapped.status, 500);
    let body = text(&mapped);
    assert!(body.contains("\"error\":\"script_error\""), "body: {body}");
    assert!(field(&body, "request_id").is_some(), "body: {body}");
    assert!(!body.contains("secret stack detail"), "script detail leaked: {body}");
}

#[test]
fn script_without_respond_maps_to_script_no_response() {
    let host = Json::Object(vec![
        ("response".to_string(), Json::Null),
        ("logs".to_string(), Json::Array(vec![log_record("info", "nothing produced")])),
    ]);
    let record = read_host_record(&host, false, false);
    let mapped = map_handled(settle(record.response, record.error), "id-1", false);
    assert_eq!(mapped.status, 500);
    let body = text(&mapped);
    assert!(body.contains("\"error\":\"script_no_response\""), "body: {body}");
    assert_eq!(field(&body, "request_id").as_deref(), Some("id-1"));
}

#[test]
fn script_timeout_maps_to_500_script_error() {
    let mapped = map_handled(Handled::Failed(Error::TimedOut), "id", false);
    assert_eq!(mapped.status, 500);
    assert!(text(&mapped).contains("\"error\":\"script_error\""));
}

#[test]
fn verbose_upstream_detail_omits_internal_addresses() {
    let failure = map_fetch_failure(FetchFailure::Other("connection refused to 127.0.0.1:20001/private/token".into()));
    let mapped = thrown(failure.transport_kind(), &failure.message(), true);
    assert_eq!(mapped.status, 502);
    let body = text(&mapped);
    assert_eq!(field(&body, "detail").as_deref(), Some("upstream transport failure: transport"));
    assert!(!body.contains("127.0.0.1"), "upstream host leaked: {body}");
    assert!(!body.contains("/private/token"), "upstream path leaked: {body}");
}

#[test]
fn uncaught_ctx_http_get_transport_failure_maps_to_502() {
    let failure = map_fetch_failure(FetchFailure::Other("connection refused".into()));
    assert_eq!(failure.code(), "upstream_unreachable");
    let mapped = thrown(failure.transport_kind(), &failure.message(), false);
    assert_eq!(mapped.status, 502);
    let body = text(&mapped);
    assert_eq!(field(&body, "error").as_deref(), Some("upstream_unreachable"));
    assert!(field(&body, "request_id").is_some());
    assert!(field(&body, "detail").is_none());
}

#[test]
fn ctx_http_get_transport_failure_is_catchable() {
    let answer = get_answer(Err(map_fetch_failure(FetchFailure::Other("connection refused".into()))));
    assert!(matches!(member(&answer, "ok"), Json::Bool(false)));
    assert_eq!(str_member(&answer, "code"), "upstream_unreachable");
    assert_eq!(str_member(&answer, "kind"), "transport");
}

#[test]
fn ctx_http_pipe_transport_failure_is_catchable() {
    let answer = upstream_failure_json(&map_fetch_failure(FetchFailure::HostNotFound));
    assert_eq!(str_member(&answer, "code"), "upstream_unreachable");
    assert_eq!(str_member(&answer, "kind"), "dns");
}

#[test]
fn ctx_http_get_treats_4xx_and_5xx_as_data() {
    for (status, body) in [(404u16, "missing"), (500, "boom")] {
        let answer = get_answer(Ok(Response { status, headers: vec![], body: body.as_bytes().to_vec() }));
        assert!(matches!(member(&answer, "ok"), Json::Bool(true)));
        let response = member(&answer, "response");
        assert!(matches!(member(response, "status"), Json::Number(Some(s)) if *s == u64::from(status)));
        assert_eq!(str_member(response, "text"), body);
    }
}

#[test]
fn ctx_http_get_bytes_preserve_binary_values() {
    let answer = get_answer(Ok(Response { status: 200, headers: vec![], body: vec![0x00, 0xFF, 0x10, 0x80] }));
    assert_eq!(str_member(member(&answer, "response"), "body_base64"), "AP8QgA==");
}

#[test]
fn ctx_respond_rejects_invalid_header_name_as_script_error() {
    let pairs = vec![("Bad Header".to_string(), "x".to_string())];
    let answer = header_check(&pairs);
    assert_eq!(str_member(&answer, "code"), "script_error");
    let mapped = thrown(None, &format!("Error: ctx.respond: {}", str_member(&answer, "message")), false);
    assert_eq!(mapped.status, 500);
    assert_eq!(field(&text(&mapped), "error").as_deref(), Some("script_error"));
}

#[test]
fn ctx_respond_rejects_invalid_header_value_as_script_error() {
    let answer = header_check(&[("X-Test".to_string(), "bad\nvalue".to_string())]);
    assert!(matches!(member(&answer, "ok"), Json::Bool(false)));
    assert_eq!(str_member(&answer, "code"), "script_error");
    assert_eq!(str_member(&answer, "message"), "invalid value for header \"X-Test\"");
}

#[test]
fn script_logs_reach_server_logs_but_not_the_client() {
    let response = Json::Object(vec![
        ("status".to_string(), Json::Number(Some(200))),
        ("headers".to_string(), Json::Array(vec![])),
        ("body".to_string(), Json::Str("done".into())),
    ]);
    let host = Json::Object(vec![
        ("response".to_string(), response),
        (
            "logs".to_string(),
            Json::Array(vec![log_record("info", "hello from the script"), log_record("error", "problem {\"code\":7}")]),
        ),
    ]);
    let record = read_host_record(&host, false, false);
    assert_eq!(record.logs.len(), 2);
    assert_eq!(record.logs[0].message, "hello from the script");
    assert_eq!(record.logs[1].level, "error");
    let mapped = map_handled(settle(record.response, record.error), "id", false);
    assert_eq!(mapped.status, 200);
    assert_eq!(text(&mapped), "done");
}

#[test]
fn script_reads_the_ctx_request_snapshot() {
    let routes = vec![Route {
        name: Some("echo".into()),
        method: "POST".into(),
        path: "/echo/:name".into(),
        script: "scripts/manifest.js".into(),
    }];
    let found = match_route(&routes, "POST", "/echo/abc").expect("route matches");
    let snapshot = RequestSnapshot::new(
        "POST",
        "/echo/abc",
        found.params,
        "x=1&y=two",
        &[("X-Trace".to_string(), b"t-1".to_vec())],
        b"payload",
    );
    assert_eq!(API_VERSION, "1");
    let request = snapshot.to_json();
    assert_eq!(str_member(&request, "method"), "POST");
    assert_eq!(str_member(&request, "path"), "/echo/abc");
    assert_eq!(str_member(member(&request, "params"), "name"), "abc");
    assert_eq!(str_member(member(&request, "query"), "x"), "1");
    assert_eq!(str_member(member(&request, "query"), "y"), "two");
    assert_eq!(str_member(member(&request, "headers"), "x-trace"), "t-1");
    assert_eq!(str_member(&request, "bodyText"), "payload");
}

#[test]
fn uncaught_file_error_maps_to_script_error() {
    let error = stuntdouble::files::map_open_error(true, "No such file".into());
    assert_eq!(error.code(), "file_not_found");
    let mapped = thrown(None, &format!("Error: {}", error.message()), false);
    assert_eq!(mapped.status, 500);
    assert_eq!(field(&text(&mapped), "error").as_deref(), Some("script_error"));
}

#[test]
fn ctx_http_get_rejects_redirect_chain_longer_than_three_hops() {
    let current = parse_call_url(Api::Get, "http://127.0.0.1:20002/three").unwrap();
    let error = match redirect_hop(&allow(), Api::Get, &current, 3, 302, Location::Text("/four")) {
        Err(e) => e,
        Ok(_) => panic!("a fourth hop is refused"),
    };
    assert_eq!(error.code(), "script_error");
    let mapped = thrown(None, &error.message(), false);
    assert_eq!(mapped.status, 500);
    assert_eq!(mapped.error_class, "script_error");
}

#[test]
fn ctx_http_pipe_redirect_limit_is_catchable() {
    let current = parse_call_url(Api::Pipe, "http://127.0.0.1:20002/three").unwrap();
    let error = match redirect_hop(&allow(), Api::Pipe, &current, 3, 307, Location::Text("/four")) {
        Err(e) => e,
        Ok(_) => panic!("a fourth hop is refused"),
    };
    assert_eq!(str_member(&upstream_failure_json(&error), "code"), "upstream_redirect_error");
    assert_eq!(error.message(), "ctx.http.pipe: redirect limit exceeded (max 3 hops)");
}

#[test]
fn ctx_http_pipe_follows_allowlisted_redirects() {
    let current = parse_call_url(Api::Pipe, "http://127.0.0.1:20003/file.pdf").unwrap();
    match redirect_hop(&allow(), Api::Pipe, &current, 0, 302, Location::Text("http://127.0.0.1:20003/final.pdf")) {
        Ok(Hop::Follow { next, redirects }) => {
            assert_eq!(next.path(), "/final.pdf");
            assert_eq!(redirects, 1);
        }
        _ => panic!("an allowlisted redirect is followed"),
    }
}

#[test]
fn ctx_http_pipe_rejects_redirect_to_non_allowlisted_host() {
    let current = parse_call_url(Api::Pipe, "http://127.0.0.1:20003/file.pdf").unwrap();
    let error = match redirect_hop(
        &allow(),
        Api::Pipe,
        &current,
        0,
        302,
        Location::Text("http://not-allowed.example.com/final.pdf"),
    ) {
        Err(e) => e,
        Ok(_) => panic!("must refuse"),
    };
    assert_eq!(error.code(), "script_error");
    assert_eq!(thrown(None, &error.message(), false).status, 500);
}

#[test]
fn ctx_http_pipe_url_rejection_is_catchable() {
    let broken = parse_call_url(Api::Pipe, "not a url").err().expect("does not parse");
    assert_eq!(str_member(&upstream_failure_json(&broken), "code"), "upstream_url_invalid");
    let ftp = parse_call_url(Api::Pipe, "ftp://127.0.0.1/file.pdf").unwrap();
    let refused = validate(&allow(), &ftp, Api::Pipe).err().expect("scheme refused");
    assert_eq!(refused.code(), "upstream_url_invalid");
}

#[test]
fn ctx_http_pipe_http_error_is_catchable() {
    let error = pipe_answer(None, vec![], 500, &[]).err().expect("non-2xx fails");
    assert!(matches!(error, UpstreamError::Status(500)));
    assert_eq!(str_member(&upstream_failure_json(&error), "code"), "upstream_http_error");
}

#[test]
fn ctx_http_pipe_streams_upstream_bytes_with_status_and_headers() {
    let script_headers = vec![
        ("Content-Type".to_string(), "application/pdf".to_string()),
        ("X-Piped".to_string(), "yes".to_string()),
    ];
    let upstream_headers = vec![
        ("content-type".to_string(), "text/plain".to_string()),
        ("content-length".to_string(), "13".to_string()),
    ];
    let (status, headers) = pipe_answer(Some(201), script_headers, 200, &upstream_headers).unwrap();
    assert_eq!(status, 201);
    assert_eq!(
        headers,
        vec![
            ("Content-Type".to_string(), "application/pdf".to_string()),
            ("X-Piped".to_string(), "yes".to_string()),
            ("content-length".to_string(), "13".to_string()),
        ]
    );
    let mut relay = Relay::new(Some(13));
    assert_eq!(relay.step(RelayEvent::Delivered(13)), None);
    assert_eq!(relay.step(RelayEvent::Ended), Some(StreamOutcome::Complete));
    assert_eq!(relay.bytes, 13);
}

#[test]
fn ctx_http_pipe_mid_stream_failure_is_logged_after_headers() {
    let mut relay = Relay::new(Some(64));
    relay.step(RelayEvent::Delivered(10));
    let outcome = relay.step(RelayEvent::UpstreamFailed).expect("the relay stops");
    assert_eq!(outcome.error_class(), Some("upstream_stream_error"));
    assert_eq!(relay.bytes, 10);
}

#[test]
fn ctx_http_pipe_client_disconnect_mid_body_is_logged() {
    let mut relay = Relay::new(None);
    relay.step(RelayEvent::Delivered(65536));
    let outcome = relay.step(RelayEvent::ClientClosed).expect("the relay stops");
    assert_eq!(outcome.error_class(), Some("client_disconnected"));
    assert!(relay.bytes < 8 * 1024 * 1024);
}

#[test]
fn transport_kinds_have_stable_names() {
    assert_eq!(TransportKind::Timeout.as_str(), "timeout");
    assert_eq!(TransportKind::Dns.as_str(), "dns");
    assert_eq!(TransportKind::Other.as_str(), "transport");
}
