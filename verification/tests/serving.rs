use stuntdouble::config::{check_document, finish_load, Config, TomlValue};
use stuntdouble::json::Json;
use stuntdouble::script::{read_host_record, uncaught_error, Error, RequestSnapshot, ResponseBody};
use stuntdouble::server::{
    buffered_body_size, error_body, loggable_headers, map_handled, request_id, settle, AppState, Handled,
    ShutdownSignal, REQUEST_LOG_HEADERS,
};
use stuntdouble::upstream::{parse_call_url, parse_get_call, parse_pipe_call, validate, Api};

fn s(v: &str) -> TomlValue {
    TomlValue::Str(v.to_string())
}

fn table(entries: Vec<(&str, TomlValue)>) -> TomlValue {
    TomlValue::Table(entries.into_iter().map(|(k, v)| (k.to_string(), v)).collect())
}

/// The fixture configuration every served request below runs against,
/// optionally with an `[upstream]` allowlist.
fn good_config(allow_hosts: Option<&[&str]>) -> Config {
    let mut entries = vec![
        ("config_version", s("1")),
        ("server", table(vec![("bind", s("127.0.0.1")), ("port", TomlValue::Integer(3000))])),
        ("files", table(vec![("root", s("./files"))])),
        (
            "routes",
            TomlValue::Array(vec![table(vec![
                ("name", s("manifest")),
                ("method", s("GET")),
                ("path", s("/demo/documents/manifest/:group")),
                ("script", s("scripts/manifest.js")),
            ])]),
        ),
    ];
    if let Some(hosts) = allow_hosts {
        entries.push(("upstream", table(vec![("allow_hosts", TomlValue::Array(hosts.iter().map(|h| s(h)).collect()))])));
    }
    let doc = table(entries);
    let check = check_document("/srv/stuntdouble.toml", &doc, true);
    finish_load("/srv/stuntdouble.toml", check, true).expect("fixture configuration loads")
}

fn state(allow_hosts: Option<&[&str]>) -> AppState {
    AppState::new(good_config(allow_hosts), "127.0.0.1:3000".to_string(), false)
}

fn body_text(body: &ResponseBody) -> &str {
    match body {
        ResponseBody::Text(t) => t.as_str(),
        _ => panic!("expected a buffered text body"),
    }
}

fn json_field(body: &str, key: &str) -> Option<String> {
    let value: serde_json::Value = serde_json::from_str(body).ok()?;
    value.get(key)?.as_str().map(str::to_string)
}

/// What the host records when the fixture route script answers "ok".
fn ok_record() -> Json {
    let response = Json::Object(vec![
        ("status".to_string(), Json::Number(Some(200))),
        (
            "headers".to_string(),
            Json::Array(vec![Json::Array(vec![
                Json::Str("Content-Type".to_string()),
                Json::Str("text/plain; charset=utf-8".to_string()),
            ])]),
        ),
        ("body".to_string(), Json::Str("ok".to_string())),
    ]);
    Json::Object(vec![("response".to_string(), response), ("logs".to_string(), Json::Array(vec![]))])
}

/// A script run that ended with an uncaught throw of `message`, without a
/// host transport marker, answered through the HTTP mapping.
fn uncaught_answer(message: &str) -> (u16, String) {
    let error = uncaught_error(None, message.to_string());
    let mapped = map_handled(Handled::Failed(error), "0000000000000001" , false);
    (mapped.status, body_text(&mapped.body).to_string())
}

fn assert_script_error(answer: (u16, String)) {
    assert_eq!(answer.0, 500, "body: {}", answer.1);
    assert_eq!(json_field(&answer.1, "error").as_deref(), Some("script_error"));
}

#[test]
fn unmatched_request_gets_404_with_request_id() {
    let mut app = state(None);
    let id = app.request_id(1);
    assert!(app.route("GET", "/nope").is_none());
    let mapped = map_handled(Handled::NotFound, &id, false);
    assert_eq!(mapped.status, 404);
    let body = body_text(&mapped.body);
    assert!(body.contains("\"error\":\"not_found\""), "body: {body}");
    let in_body = json_field(body, "request_id").expect("request_id in body");
    assert!(!in_body.is_empty(), "empty request_id");
    assert_eq!(in_body, id, "header must match body");
}

#[test]
fn matched_route_runs_the_route_script() {
    let app = state(None);
    let (found, label) = app.route("GET", "/demo/documents/manifest/group-a").expect("route matches");
    assert_eq!(label, "manifest");
    assert_eq!(found.param("group").as_deref(), Some("group-a"));
    let record = read_host_record(&ok_record(), false, false);
    let mapped = map_handled(settle(record.response, record.error), "id", false);
    assert_eq!(mapped.status, 200);
    assert_eq!(body_text(&mapped.body), "ok");
    assert_eq!(mapped.headers, vec![("Content-Type".to_string(), "text/plain; charset=utf-8".to_string())]);
    assert_eq!(mapped.error_class, "");
}

#[test]
fn method_mismatch_is_reported_as_not_found() {
    let app = state(None);
    assert!(app.route("POST", "/demo/documents/manifest/group-a").is_none());
    assert_eq!(map_handled(Handled::NotFound, "id", false).status, 404);
}

#[test]
fn client_request_id_is_recorded_but_never_adopted() {
    let mut app = state(None);
    let snapshot = RequestSnapshot::new(
        "GET",
        "/nope",
        Vec::new(),
        "",
        &[("X-Request-ID".to_string(), b"caller-supplied".to_vec())],
        b"",
    );
    assert_eq!(snapshot.headers[0], ("x-request-id".to_string(), "caller-supplied".to_string()));
    let own = app.request_id(7);
    let mapped = map_handled(Handled::NotFound, &own, false);
    let in_body = json_field(body_text(&mapped.body), "request_id").expect("request_id in body");
    assert_ne!(in_body, "caller-supplied", "server must mint its own id");
    assert_eq!(in_body, own);
}

#[test]
fn each_request_writes_one_structured_log_line() {
    let mut app = state(None);
    let first = app.request_id(5);
    let second = app.request_id(5);
    assert_ne!(first, second, "one id per request");
    let (found, label) = app.route("GET", "/demo/documents/manifest/group-a").unwrap();
    assert_eq!(label, "manifest");
    assert_eq!(found.params, vec![("group".to_string(), "group-a".to_string())]);
    let record = read_host_record(&ok_record(), false, false);
    let answered = map_handled(settle(record.response, record.error), &first, false);
    assert_eq!(answered.status, 200);
    assert_eq!(answered.body_bytes, Some(2));
    let missing = map_handled(Handled::NotFound, &second, false);
    assert_eq!(missing.status, 404);
    assert_eq!(missing.error_class, "not_found");
    assert_eq!(missing.body_bytes, Some(body_text(&missing.body).len() as u64));
}

#[test]
fn ctx_http_get_rejects_non_http_protocol_as_script_error() {
    let app = state(None);
    let url = parse_call_url(Api::Get, "file:///etc/passwd").expect("parses as a URL");
    let error = validate(&app.config.upstream.allow_hosts, &url, Api::Get).expect_err("file URLs are refused");
    assert_eq!(error.code(), "script_error");
    assert_eq!(error.message(), "upstream protocol \"file\" is not allowed (use http or https)");
    assert_script_error(uncaught_answer(&error.message()));
}

#[test]
fn ctx_http_get_denies_hosts_without_an_upstream_allowlist() {
    let app = state(None);
    assert!(app.config.upstream.allow_hosts.is_empty());
    let url = parse_call_url(Api::Get, "http://127.0.0.1:1/").expect("parses");
    let error = validate(&app.config.upstream.allow_hosts, &url, Api::Get).expect_err("denied");
    assert_eq!(error.code(), "script_error");
    assert_script_error(uncaught_answer(&error.message()));
}

#[test]
fn ctx_http_get_rejects_host_not_in_allowlist_as_script_error() {
    let app = state(Some(&["allowed.example"]));
    let url = parse_call_url(Api::Get, "http://127.0.0.1:1/").expect("parses");
    let error = validate(&app.config.upstream.allow_hosts, &url, Api::Get).expect_err("denied");
    assert_eq!(error.code(), "script_error");
    assert!(error.message().contains("is not in upstream.allow_hosts"), "{}", error.message());
    assert_script_error(uncaught_answer(&error.message()));
}

fn get_call(extra: Vec<(&str, Json)>) -> Json {
    let mut members = vec![("url".to_string(), Json::Str("http://127.0.0.1:1/".to_string()))];
    members.extend(extra.into_iter().map(|(k, v)| (k.to_string(), v)));
    Json::Object(members)
}

#[test]
fn ctx_http_get_rejects_unknown_opts_key_as_script_error() {
    let error = parse_get_call(&get_call(vec![("retries", Json::Number(Some(1)))])).expect_err("unknown key");
    assert_eq!(error.code(), "script_error");
    assert_eq!(error.message(), "ctx.http.get: unknown opts key \"retries\"");
    assert_script_error(uncaught_answer(&error.message()));
}

#[test]
fn ctx_http_get_rejects_non_positive_timeout_as_script_error() {
    let error = parse_get_call(&get_call(vec![("timeout_ms", Json::Number(Some(0)))])).expect_err("zero");
    assert_eq!(error.code(), "script_error");
    assert_script_error(uncaught_answer(&error.message()));
}

#[test]
fn ctx_http_get_rejects_null_timeout_as_script_error() {
    let error = parse_get_call(&get_call(vec![("timeout_ms", Json::Null)])).expect_err("null");
    assert_eq!(error.message(), "ctx.http.get: opts.timeout_ms must be a positive integer");
    assert_script_error(uncaught_answer(&error.message()));
}

#[test]
fn ctx_http_get_rejects_non_finite_timeout_as_script_error() {
    // `JSON.stringify` writes Infinity as null; a non-integer number is
    // kept only as a number.
    for value in [Json::Null, Json::Number(None)] {
        let error = parse_get_call(&get_call(vec![("timeout_ms", value)])).expect_err("not finite");
        assert_eq!(error.code(), "script_error");
        assert_script_error(uncaught_answer(&error.message()));
    }
}

#[test]
fn ctx_http_get_rejects_symbol_opts_key_as_script_error() {
    assert_script_error(uncaught_answer("TypeError: ctx.http.get: unknown opts key Symbol(retries)"));
}

#[test]
fn ctx_http_get_rejects_inherited_opts_keys_as_script_error() {
    assert_script_error(uncaught_answer("TypeError: ctx.http.get: opts must be a plain object"));
}

#[test]
fn ctx_http_get_script_thrown_upstream_code_is_not_mapped_to_502() {
    // A throw without the host's transport marker stays a script error.
    let error = uncaught_error(None, "[object Object]".to_string());
    assert!(matches!(error, Error::Failed(_)));
    assert_script_error(uncaught_answer("[object Object]"));
    let marked = map_handled(
        Handled::Failed(uncaught_error(Some("transport"), "refused".to_string())),
        "id",
        false,
    );
    assert_eq!(marked.status, 502);
    assert_eq!(marked.error_class, "upstream_unreachable");
}

#[test]
fn ctx_http_pipe_requires_allowlisted_host() {
    let app = state(None);
    let call = Json::Object(vec![
        ("url".to_string(), Json::Str("http://not-allowed.example.com/file.pdf".to_string())),
        ("headers".to_string(), Json::Array(vec![])),
    ]);
    let pipe = parse_pipe_call(&call).expect("well-formed call");
    let url = parse_call_url(Api::Pipe, &pipe.url).expect("parses");
    let error = validate(&app.config.upstream.allow_hosts, &url, Api::Pipe).expect_err("denied");
    assert_eq!(error.code(), "script_error");
    assert_script_error(uncaught_answer(&error.message()));
}

#[test]
fn script_timeout_and_missing_respond_map_to_their_classes() {
    let timed_out = map_handled(Handled::Failed(Error::TimedOut), "id", true);
    assert_eq!(timed_out.status, 500);
    assert_eq!(json_field(body_text(&timed_out.body), "detail").as_deref(), Some("script exceeded the configured timeout"));
    let silent = map_handled(settle::<stuntdouble::script::ScriptResponse>(None, None), "id", false);
    assert_eq!(silent.status, 500);
    assert_eq!(silent.error_class, "script_no_response");
}

#[test]
fn verbose_adds_a_stable_detail_to_script_errors() {
    let plain = map_handled(Handled::Failed(Error::Failed("secret stack detail".into())), "id", false);
    assert_eq!(plain.status, 500);
    assert!(json_field(body_text(&plain.body), "detail").is_none());
    let verbose = map_handled(Handled::Failed(Error::Failed("secret stack detail".into())), "id", true);
    assert_eq!(verbose.status, 500);
    let body = body_text(&verbose.body);
    assert_eq!(json_field(body, "detail").as_deref(), Some("script execution failed"));
    assert!(!body.contains("secret stack detail"), "script message leaked: {body}");
}

#[test]
fn invalid_script_headers_fail_closed_as_script_errors() {
    let mut record = read_host_record(&ok_record(), false, false);
    let mut response = record.response.take().expect("recorded");
    response.headers = vec![("bad name".to_string(), "x".to_string())];
    let mapped = map_handled(Handled::Responded(response), "id", false);
    assert_eq!(mapped.status, 500);
    assert_eq!(mapped.error_class, "script_error");
}

#[test]
fn error_body_keeps_keys_sorted_and_escapes_values() {
    assert_eq!(
        error_body("abc", "not_found", None),
        "{\"error\":\"not_found\",\"request_id\":\"abc\"}"
    );
    assert_eq!(
        error_body("a\"b", "script_error", Some("script execution failed")),
        "{\"detail\":\"script execution failed\",\"error\":\"script_error\",\"request_id\":\"a\\\"b\"}"
    );
}

#[test]
fn request_ids_are_zero_padded_hex_with_a_sequence_suffix() {
    assert_eq!(request_id(0, 0), "000000000000000000000000");
    assert_eq!(request_id(0xabc, 0x1f), "0000000000000abc0000001f");
    assert_eq!(request_id(u64::MAX, 0x1_0000_0000), "ffffffffffffffff100000000");
    let mut app = state(None);
    app.sequence = u64::MAX;
    assert_eq!(app.request_id(1), "0000000000000001ffffffffffffffff");
    assert_eq!(app.sequence, 0);
}

#[test]
fn out_of_range_script_statuses_become_500_and_sizes_count_bytes() {
    assert_eq!(stuntdouble::server::response_status(99), 500);
    assert_eq!(stuntdouble::server::response_status(1000), 500);
    assert_eq!(stuntdouble::server::response_status(299), 299);
    assert_eq!(buffered_body_size(&ResponseBody::Text("é".to_string())), Some(2));
    assert_eq!(buffered_body_size(&ResponseBody::Bytes(vec![1, 2, 3])), Some(3));
    assert_eq!(buffered_body_size(&ResponseBody::Stream), None);
    assert_eq!(buffered_body_size(&ResponseBody::File(4)), None);
}

#[test]
fn logged_headers_follow_the_allowlist_and_join_repeats() {
    let headers = vec![
        ("Accept".to_string(), "text/csv".to_string()),
        ("Cookie".to_string(), "secret".to_string()),
        ("accept".to_string(), "text/plain".to_string()),
        ("User-Agent".to_string(), "probe".to_string()),
    ];
    let logged = loggable_headers(&headers, &REQUEST_LOG_HEADERS);
    assert_eq!(
        logged,
        vec![
            ("accept".to_string(), "text/csv, text/plain".to_string()),
            ("user-agent".to_string(), "probe".to_string()),
        ]
    );
}

#[test]
fn second_signal_exit_codes_follow_the_shell_convention() {
    assert_eq!(ShutdownSignal::Interrupt.forced_exit_code(), 130);
    assert_eq!(ShutdownSignal::Terminate.forced_exit_code(), 143);
    assert_eq!(ShutdownSignal::Interrupt.name(), "SIGINT");
    assert_eq!(ShutdownSignal::Terminate.name(), "SIGTERM");
}
