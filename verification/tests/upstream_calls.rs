use stuntdouble::bridge::{get_answer, header_check, pipe_started, upstream_failure_json};
use stuntdouble::json::Json;
use stuntdouble::upstream::{
    budget, map_fetch_failure, parse_call_url, parse_pipe_call, pipe_answer, redirect_hop, response_json, validate,
    Api, Error, FetchFailure, Hop, Location, Relay, RelayEvent, Response, StreamOutcome, TransportKind,
};

#[test]
fn channel_close_after_the_announced_length_completes() {
    assert_eq!(StreamOutcome::from_channel_close(13, Some(13)), StreamOutcome::Complete);
}

#[test]
fn channel_close_before_the_announced_length_is_a_disconnect() {
    assert_eq!(StreamOutcome::from_channel_close(5, Some(13)), StreamOutcome::ClientDisconnected);
}

#[test]
fn channel_close_without_an_announced_length_is_a_disconnect() {
    assert_eq!(StreamOutcome::from_channel_close(13, None), StreamOutcome::ClientDisconnected);
}

#[test]
fn stream_outcomes_have_stable_log_classes() {
    assert_eq!(StreamOutcome::Complete.error_class(), None);
    assert_eq!(StreamOutcome::UpstreamError.error_class(), Some("upstream_stream_error"));
    assert_eq!(StreamOutcome::ClientDisconnected.error_class(), Some("client_disconnected"));
}

#[test]
fn relay_counts_delivered_bytes_and_classifies_how_it_ends() {
    let mut relay = Relay::new(Some(13));
    assert_eq!(relay.step(RelayEvent::Delivered(8)), None);
    assert_eq!(relay.step(RelayEvent::Delivered(5)), None);
    assert_eq!(relay.bytes, 13);
    assert_eq!(relay.step(RelayEvent::ClientClosed), Some(StreamOutcome::Complete));

    let mut short = Relay::new(Some(13));
    short.step(RelayEvent::Delivered(5));
    assert_eq!(short.step(RelayEvent::Refused), Some(StreamOutcome::ClientDisconnected));
    assert_eq!(Relay::new(None).step(RelayEvent::UpstreamFailed), Some(StreamOutcome::UpstreamError));
    assert_eq!(Relay::new(None).step(RelayEvent::Ended), Some(StreamOutcome::Complete));

    let mut huge = Relay::new(None);
    huge.step(RelayEvent::Delivered(u64::MAX));
    huge.step(RelayEvent::Delivered(1));
    assert_eq!(huge.bytes, u64::MAX);
}

fn allow(hosts: &[&str]) -> Vec<String> {
    hosts.iter().map(|h| h.to_string()).collect()
}

#[test]
fn ctx_http_get_follows_up_to_three_allowlisted_redirects() {
    let hosts = allow(&["127.0.0.1"]);
    let mut current = parse_call_url(Api::Get, "http://127.0.0.1:9/a").unwrap();
    for hop in 0..3u8 {
        match redirect_hop(&hosts, Api::Get, &current, hop, 302, Location::Text("/next")).unwrap() {
            Hop::Follow { next, redirects } => {
                assert_eq!(redirects, hop + 1);
                assert_eq!(next.text(), "http://127.0.0.1:9/next");
                current = next;
            }
            Hop::Done => panic!("redirect not followed"),
        }
    }
    let error = match redirect_hop(&hosts, Api::Get, &current, 3, 302, Location::Text("/next")) {
        Err(e) => e,
        Ok(_) => panic!("fourth hop must fail"),
    };
    assert_eq!(error.message(), "ctx.http.get: redirect limit exceeded (max 3 hops)");
    assert!(matches!(redirect_hop(&hosts, Api::Get, &current, 3, 200, Location::Absent), Ok(Hop::Done)));
}

#[test]
fn ctx_http_get_rejects_redirect_to_non_allowlisted_host() {
    let hosts = allow(&["127.0.0.1"]);
    let current = parse_call_url(Api::Get, "http://127.0.0.1:9/a").unwrap();
    let error = match redirect_hop(&hosts, Api::Get, &current, 0, 302, Location::Text("http://elsewhere.example/")) {
        Err(e) => e,
        Ok(_) => panic!("must refuse"),
    };
    assert_eq!(error.code(), "script_error");
}

#[test]
fn pipe_redirect_failures_are_classified_by_the_api() {
    let hosts = allow(&["127.0.0.1"]);
    let current = parse_call_url(Api::Pipe, "http://127.0.0.1:9/a").unwrap();
    let limit = match redirect_hop(&hosts, Api::Pipe, &current, 3, 301, Location::Text("/b")) {
        Err(e) => e,
        Ok(_) => panic!("limit"),
    };
    assert_eq!(limit.code(), "upstream_redirect_error");
    let unreadable = match redirect_hop(&hosts, Api::Pipe, &current, 0, 301, Location::Unreadable) {
        Err(e) => e,
        Ok(_) => panic!("unreadable"),
    };
    assert_eq!(unreadable.message(), "ctx.http.pipe: redirect Location is not a valid string");
}

#[test]
fn ctx_http_pipe_defaults_to_the_upstream_2xx_status() {
    let (status, headers) = pipe_answer(None, Vec::new(), 207, &[]).unwrap();
    assert_eq!(status, 207);
    assert!(headers.is_empty());
    let (status, _) = pipe_answer(Some(200), Vec::new(), 206, &[]).unwrap();
    assert_eq!(status, 200);
}

#[test]
fn ctx_http_pipe_uncaught_non_2xx_is_a_script_error() {
    let error = match pipe_answer(None, Vec::new(), 404, &[]) {
        Err(e) => e,
        Ok(_) => panic!("non-2xx must fail"),
    };
    assert_eq!(error.code(), "upstream_http_error");
    assert_eq!(error.message(), "ctx.http.pipe: upstream returned status 404");
}

#[test]
fn ctx_http_pipe_rejects_invalid_opts_and_headers_as_script_error() {
    let call = |extra: Vec<(&str, Json)>| {
        let mut members = vec![("url".to_string(), Json::Str("http://files.example.com/a.pdf".into()))];
        members.extend(extra.into_iter().map(|(k, v)| (k.to_string(), v)));
        Json::Object(members)
    };
    let bad_status = parse_pipe_call(&call(vec![("status", Json::Number(Some(99)))])).err().unwrap();
    assert_eq!(bad_status.message(), "ctx.http.pipe: status must be an integer in [100, 599]");
    let bad_key = parse_pipe_call(&call(vec![("retries", Json::Number(Some(1)))])).err().unwrap();
    assert_eq!(bad_key.message(), "ctx.http.pipe: unknown opts key \"retries\"");
    let bad_rows = parse_pipe_call(&call(vec![("headers", Json::Array(vec![Json::Str("x".into())]))])).err().unwrap();
    assert_eq!(bad_rows.message(), "ctx.http.pipe: headers must be [name, value] pairs");
    assert_eq!(bad_rows.code(), "script_error");
    let rows = Json::Array(vec![Json::Array(vec![Json::Str("X-A".into()), Json::Str("1".into())])]);
    let ok = parse_pipe_call(&call(vec![("status", Json::Number(Some(201))), ("headers", rows)])).unwrap();
    assert_eq!(ok.status, Some(201));
    assert_eq!(ok.headers, vec![("X-A".to_string(), "1".to_string())]);
}

#[test]
fn ctx_http_pipe_invalid_headers_are_catchable_before_upstream() {
    let answer = header_check(&[("bad name".to_string(), "v".to_string())]);
    let Json::Object(members) = answer else { panic!("object answer") };
    assert!(matches!(members[0].1, Json::Bool(false)));
    assert!(matches!(&members[1].1, Json::Str(c) if c == "script_error"));
    assert!(matches!(&members[2].1, Json::Str(m) if m == "invalid header name \"bad name\""));
    let fine = header_check(&[("X-Ok".to_string(), "v".to_string())]);
    let Json::Object(members) = fine else { panic!("object answer") };
    assert_eq!(members.len(), 1);
    assert!(matches!(members[0].1, Json::Bool(true)));
}

#[test]
fn ctx_http_get_uses_upstream_timeout_config() {
    let remaining = 10_000_000_000u128;
    assert_eq!(budget(remaining, None, 15_000_000_000).ok(), Some(remaining - 100_000_000));
    assert_eq!(budget(remaining, None, 2_000_000_000).ok(), Some(2_000_000_000));
    assert_eq!(budget(remaining, Some(50_000_000), 2_000_000_000).ok(), Some(50_000_000));
    match budget(0, None, 1) {
        Err(Error::Transport { kind, .. }) => assert_eq!(kind, TransportKind::Timeout),
        _ => panic!("an exhausted budget is a timeout"),
    }
}

#[test]
fn ctx_http_get_per_call_timeout_maps_to_502() {
    let error = map_fetch_failure(FetchFailure::Timeout);
    assert_eq!(error.code(), "upstream_unreachable");
    assert_eq!(error.transport_kind(), Some("timeout"));
    assert_eq!(map_fetch_failure(FetchFailure::HostNotFound).transport_kind(), Some("dns"));
    let other = map_fetch_failure(FetchFailure::Other("connection refused".into()));
    assert_eq!(other.transport_kind(), Some("transport"));
    assert_eq!(other.message(), "ctx.http: connection refused");
}

#[test]
fn ctx_http_get_rejects_oversized_body_as_script_error() {
    let error = map_fetch_failure(FetchFailure::BodyExceedsLimit(8 * 1024 * 1024));
    assert_eq!(error.code(), "script_error");
    assert_eq!(error.message(), "ctx.http.get: upstream response body exceeds the 8388608-byte limit");
}

#[test]
fn ctx_http_get_returns_status_headers_text_and_bytes() {
    let response = Response {
        status: 404,
        headers: vec![("x-a".into(), "1".into()), ("x-a".into(), "2".into())],
        body: vec![0x00, 0xFF, b'h', b'i'],
    };
    let Json::Object(members) = response_json(response) else { panic!("object") };
    assert!(matches!(members[0].1, Json::Number(Some(404))));
    let Json::Object(headers) = &members[1].1 else { panic!("headers object") };
    assert_eq!(headers.len(), 1);
    assert!(matches!(&headers[0].1, Json::Str(v) if v == "2"));
    assert!(matches!(&members[2].1, Json::Str(t) if t == "\u{0}\u{FFFD}hi"));
    assert!(matches!(&members[3].1, Json::Str(b) if b == "AP9oaQ=="));
}

#[test]
fn bridge_answers_carry_ok_code_kind_and_message() {
    let failure = upstream_failure_json(&Error::Transport { kind: TransportKind::Dns, message: "x".into() });
    let Json::Object(members) = failure else { panic!("object") };
    assert_eq!(members.iter().map(|m| m.0.as_str()).collect::<Vec<_>>(), vec!["ok", "code", "kind", "message"]);
    assert!(matches!(&members[1].1, Json::Str(c) if c == "upstream_unreachable"));
    assert!(matches!(&members[2].1, Json::Str(k) if k == "dns"));
    let policy = upstream_failure_json(&Error::Policy("no".into()));
    let Json::Object(members) = policy else { panic!("object") };
    assert!(matches!(members[2].1, Json::Null));
    let ok = get_answer(Ok(Response { status: 200, headers: vec![], body: vec![] }));
    let Json::Object(members) = ok else { panic!("object") };
    assert!(matches!(members[0].1, Json::Bool(true)));
    assert_eq!(members[1].0, "response");
    let started = pipe_started(206, &[("content-range".to_string(), "bytes 0-1/2".to_string())]);
    let Json::Object(members) = started else { panic!("object") };
    assert!(matches!(members[1].1, Json::Number(Some(206))));
    let Json::Array(rows) = &members[2].1 else { panic!("rows") };
    assert_eq!(rows.len(), 1);
}

#[test]
fn urls_are_parsed_by_scheme_and_checked_case_insensitively() {
    let hosts = allow(&["example.com"]);
    let url = parse_call_url(Api::Get, "HTTP://Example.COM/x").unwrap();
    assert!(validate(&hosts, &url, Api::Get).is_ok());
    let ftp = parse_call_url(Api::Pipe, "ftp://example.com/").unwrap();
    assert_eq!(validate(&hosts, &ftp, Api::Pipe).err().unwrap().code(), "upstream_url_invalid");
    let broken = parse_call_url(Api::Pipe, "not a url").err().unwrap();
    assert_eq!(broken.code(), "upstream_url_invalid");
    let broken_get = parse_call_url(Api::Get, "not a url").err().unwrap();
    assert_eq!(broken_get.code(), "script_error");
}

#[test]
fn parsed_urls_expose_their_parts() {
    let url = parse_call_url(Api::Get, "HTTP://[::1]:8080/a/b?x=1").ok().unwrap();
    assert_eq!(url.scheme(), "http");
    assert_eq!(url.host(), Some("::1"));
    assert_eq!(url.host_text(), Some("[::1]"));
    assert_eq!(url.path(), "/a/b");
    assert_eq!(url.text(), "http://[::1]:8080/a/b?x=1");
    let bad = parse_call_url(Api::Pipe, "not a url").err().unwrap();
    assert_eq!(bad.code(), "upstream_url_invalid");
}
