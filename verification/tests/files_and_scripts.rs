use stuntdouble::files::{
    range_answer, FileRelay, FileRelayEvent, check_read_size, check_relative_path, decide_range, effective_range, file_call_request, map_open_error, read_payload, Error as FileError,
    FileOp, RangeDecision, StreamOutcome as FileStreamOutcome, MAX_READ_BYTES,
};
use stuntdouble::json::Json;
use stuntdouble::script::{
    line_safe, parse_query, read_host_record, read_state, Error, RequestSnapshot, ResponseBody,
};

#[test]
fn error_classes_are_stable() {
    assert_eq!(Error::NoResponse.class(), "script_no_response");
    assert_eq!(Error::TimedOut.class(), "script_error");
    assert_eq!(Error::Failed("boom".into()).class(), "script_error");
}

#[test]
fn statuses_and_details_are_stable() {
    assert_eq!(Error::Failed("boom".into()).status(), 500);
    let unreachable = Error::UpstreamUnreachable { message: "refused 10.0.0.1".into(), kind: "dns" };
    assert_eq!(unreachable.status(), 502);
    assert_eq!(unreachable.class(), "upstream_unreachable");
    assert_eq!(unreachable.detail(), "upstream transport failure: dns");
    let other = Error::UpstreamUnreachable { message: String::new(), kind: "weird" };
    assert_eq!(other.detail(), "upstream transport failure: transport");
}

fn lookup<'a>(pairs: &'a [(String, String)], key: &str) -> Option<&'a str> {
    pairs.iter().rev().find(|(k, _)| k == key).map(|(_, v)| v.as_str())
}

#[test]
fn parse_query_decodes_keys_and_values() {
    let query = parse_query("format=csv&%7Bgroup%7D=a+b&flag");
    assert_eq!(lookup(&query, "format"), Some("csv"));
    assert_eq!(lookup(&query, "{group}"), Some("a b"));
    assert_eq!(lookup(&query, "flag"), Some(""));
    assert!(parse_query("").is_empty());
}

#[test]
fn request_snapshot_normalizes_method_path_and_headers() {
    let snapshot = RequestSnapshot::new(
        "post",
        "/demo/1",
        vec![("group".to_string(), "a".to_string())],
        "x=1",
        &[("X-Request-ID".to_string(), b"caller".to_vec())],
        b"body",
    );
    assert_eq!(snapshot.method, "POST");
    assert_eq!(lookup(&snapshot.params, "group"), Some("a"));
    assert_eq!(snapshot.headers[0].0, "x-request-id");
    assert_eq!(snapshot.body_text.as_deref(), Some("body"));
    assert_eq!(snapshot.query, vec![("x".to_string(), "1".to_string())]);
}

#[test]
fn non_utf8_body_is_null() {
    let snapshot = RequestSnapshot::new("POST", "/demo/1", Vec::new(), "", &[], &[0xFF, 0xFE]);
    assert!(snapshot.body_text.is_none());
    let Json::Object(members) = snapshot.to_json() else { panic!("object") };
    assert_eq!(members[5].0, "bodyText");
    assert!(matches!(members[5].1, Json::Null));
}

#[test]
fn request_json_keeps_the_last_of_repeated_names() {
    let snapshot = RequestSnapshot::new(
        "GET",
        "/p",
        Vec::new(),
        "a=1&a=2",
        &[("Accept".to_string(), b"x".to_vec()), ("accept".to_string(), b"y".to_vec())],
        b"",
    );
    let Json::Object(members) = snapshot.to_json() else { panic!("object") };
    let names: Vec<&str> = members.iter().map(|m| m.0.as_str()).collect();
    assert_eq!(names, vec!["method", "path", "params", "query", "headers", "bodyText"]);
    let Json::Object(query) = &members[3].1 else { panic!("query") };
    assert_eq!(query.len(), 1);
    assert!(matches!(&query[0].1, Json::Str(v) if v == "2"));
    let Json::Object(headers) = &members[4].1 else { panic!("headers") };
    assert_eq!(headers.len(), 1);
    assert!(matches!(&headers[0].1, Json::Str(v) if v == "y"));
}

#[test]
fn script_literals_escape_line_separators() {
    assert_eq!(line_safe("a\u{2028}b\u{2029}c"), "a\\u2028b\\u2029c");
}

fn record(response: Json) -> Json {
    Json::Object(vec![
        ("response".to_string(), response),
        (
            "logs".to_string(),
            Json::Array(vec![Json::Object(vec![
                ("level".to_string(), Json::Str("info".into())),
                ("message".to_string(), Json::Str("hello".into())),
            ])]),
        ),
    ])
}

#[test]
fn host_records_are_read_back_with_logs_and_bodies() {
    let none = read_host_record(&record(Json::Null), false, false);
    assert!(none.response.is_none());
    assert!(matches!(none.error, Some(Error::NoResponse)));
    assert_eq!(none.logs.len(), 1);
    assert_eq!(none.logs[0].message, "hello");

    let bytes = Json::Object(vec![
        ("status".to_string(), Json::Number(Some(201))),
        (
            "body".to_string(),
            Json::Array(vec![Json::Number(Some(0)), Json::Number(Some(255)), Json::Number(Some(256))]),
        ),
    ]);
    let read = read_host_record(&record(bytes), false, false);
    let response = read.response.expect("response");
    assert_eq!(response.status, 201);
    assert!(matches!(response.body, ResponseBody::Bytes(ref b) if b == &vec![0u8, 255]));

    let streamed = Json::Object(vec![
        ("stream".to_string(), Json::Bool(true)),
        ("status".to_string(), Json::Number(Some(200))),
    ]);
    assert!(matches!(read_host_record(&record(streamed), true, false).response.unwrap().body, ResponseBody::Stream));
    let unclaimed = Json::Object(vec![
        ("stream".to_string(), Json::Bool(true)),
        ("status".to_string(), Json::Number(Some(200))),
    ]);
    let failed = read_host_record(&record(unclaimed), false, false);
    assert!(matches!(failed.error, Some(Error::Failed(ref m)) if m == "ctx.http.pipe: streamed response was not recorded"));

    let no_status = Json::Object(vec![("body".to_string(), Json::Str("x".into()))]);
    let failed = read_host_record(&record(no_status), false, false);
    assert!(matches!(failed.error, Some(Error::Failed(ref m)) if m == "ctx.respond: status was not recorded"));
}

#[test]
fn ranges_follow_the_single_range_rules() {
    assert_eq!(decide_range(10, None), RangeDecision::Full);
    assert_eq!(decide_range(10, Some("bytes=0-4")), RangeDecision::Partial { start: 0, len: 5 });
    assert_eq!(decide_range(10, Some(" bytes = 5-")), RangeDecision::Partial { start: 5, len: 5 });
    assert_eq!(decide_range(10, Some("bytes=-3")), RangeDecision::Partial { start: 7, len: 3 });
    assert_eq!(decide_range(10, Some("bytes=-30")), RangeDecision::Partial { start: 0, len: 10 });
    assert_eq!(decide_range(10, Some("bytes=8-100")), RangeDecision::Partial { start: 8, len: 2 });
    assert_eq!(decide_range(10, Some("BYTES=1-1")), RangeDecision::Partial { start: 1, len: 1 });
    for unusable in ["bytes=0-1,3-4", "bytes=10-", "bytes=5-2", "bytes=-0", "items=0-1", "bytes=a-b", "bytes", "bytes=+1-2", "bytes=99-", "bytes=x-y", "bytes=0 - 3", "bytes=0 -3", "bytes=5- 6"] {
        assert_eq!(decide_range(10, Some(unusable)), RangeDecision::Unsatisfiable, "{unusable}");
    }
    assert_eq!(decide_range(0, Some("bytes=0-0")), RangeDecision::Unsatisfiable);
    assert_eq!(decide_range(0, Some("bytes=0-1")), RangeDecision::Unsatisfiable);
}

#[test]
fn file_stream_outcomes_classify_like_pipes() {
    assert_eq!(FileStreamOutcome::from_channel_close(4, Some(4)), FileStreamOutcome::Complete);
    assert_eq!(FileStreamOutcome::from_channel_close(3, Some(4)), FileStreamOutcome::ClientDisconnected);
    assert_eq!(FileStreamOutcome::FileError.error_class(), Some("file_stream_error"));
}

#[test]
fn file_paths_are_checked_before_the_file_system() {
    assert!(check_relative_path("docs/a.pdf").is_ok());
    assert!(check_relative_path("./a.pdf").is_ok());
    assert!(matches!(check_relative_path(""), Err(FileError::PathInvalid(m)) if m == "path must not be empty"));
    assert!(matches!(check_relative_path("../a"), Err(FileError::PathInvalid(m)) if m == "`..` components are not allowed"));
    assert!(matches!(check_relative_path("a/../../b"), Err(FileError::PathInvalid(_))));
    assert!(matches!(check_relative_path("/etc/passwd"), Err(FileError::PathInvalid(m)) if m == "absolute paths are not allowed"));
    assert!(matches!(check_relative_path("../outside.txt"), Err(FileError::PathInvalid(m)) if m == "`..` components are not allowed"));
    assert!(matches!(check_relative_path("docs/../x"), Err(FileError::PathInvalid(m)) if m == "`..` components are not allowed"));
    assert!(check_relative_path("docs/.../x").is_ok());
    assert!(check_relative_path("a/./b//c").is_ok());
    assert_eq!(check_relative_path("../outside.txt").err().unwrap().code(), "file_path_invalid");
}

#[test]
fn file_errors_have_stable_codes() {
    assert_eq!(map_open_error(true, "gone".into()).code(), "file_not_found");
    let io = map_open_error(false, "denied".into());
    assert_eq!(io.code(), "file_io_error");
    assert!(io.message().contains("denied"));
    assert_eq!(FileError::TooLarge.code(), "file_too_large");
    assert_eq!(FileError::Encoding.code(), "file_encoding_error");
}

#[test]
fn file_calls_read_operation_and_path() {
    let payload = Json::Object(vec![
        ("op".to_string(), Json::Str("readText".into())),
        ("path".to_string(), Json::Str("metadata.json".into())),
    ]);
    let (op, path) = file_call_request(&payload).ok().unwrap();
    assert_eq!(op, FileOp::ReadText);
    assert_eq!(path, "metadata.json");
    let unknown = Json::Object(vec![
        ("op".to_string(), Json::Str("delete".into())),
        ("path".to_string(), Json::Str("x".into())),
    ]);
    let failure = file_call_request(&unknown).err().unwrap();
    assert_eq!(failure.code, "script_error");
    assert_eq!(failure.message, "ctx.file: unknown operation");
    let no_path = Json::Object(vec![("op".to_string(), Json::Str("stream".into()))]);
    assert_eq!(file_call_request(&no_path).err().unwrap().code, "file_path_invalid");
}

#[test]
fn whole_file_reads_are_capped_and_decoded() {
    assert!(check_read_size(MAX_READ_BYTES).is_ok());
    assert!(matches!(check_read_size(MAX_READ_BYTES + 1), Err(FileError::TooLarge)));
    let (json, n) = read_payload(true, "héllo".as_bytes().to_vec()).ok().unwrap();
    assert_eq!(n, 6);
    assert!(matches!(json.get("text"), Some(Json::Str(t)) if t == "héllo"));
    match &json {
        Json::Object(members) => {
            assert_eq!(members.len(), 2);
            assert!(members[0].0 == "ok" && matches!(members[0].1, Json::Bool(true)));
            assert!(members[1].0 == "text" && matches!(&members[1].1, Json::Str(t) if t == "héllo"));
        }
        _ => panic!("read answer is an object"),
    }
    assert!(matches!(read_payload(true, vec![0xFF]), Err(FileError::Encoding)));
    let (json, n) = read_payload(false, vec![0, 1, 2, 3, 4]).ok().unwrap();
    assert_eq!(n, 5);
    assert!(matches!(json.get("bytes_base64"), Some(Json::Str(b)) if b == "AAECAwQ="));
    let too_big = vec![0u8; (MAX_READ_BYTES + 1) as usize];
    assert!(matches!(read_payload(false, too_big), Err(FileError::TooLarge)));
}

#[test]
fn file_relays_deliver_the_range_and_classify_early_ends() {
    let mut relay = FileRelay::new(100);
    assert_eq!(relay.next_read(64), 64);
    assert_eq!(relay.step(FileRelayEvent::Delivered(64)), None);
    assert_eq!(relay.next_read(64), 36);
    assert_eq!(relay.step(FileRelayEvent::Delivered(36)), Some(FileStreamOutcome::Complete));
    assert_eq!(relay.next_read(64), 0);

    let mut short = FileRelay::new(100);
    short.step(FileRelayEvent::Delivered(10));
    assert_eq!(short.step(FileRelayEvent::EndOfFile), Some(FileStreamOutcome::FileError));
    let mut refused = FileRelay::new(100);
    refused.step(FileRelayEvent::Delivered(10));
    assert_eq!(refused.step(FileRelayEvent::Refused), Some(FileStreamOutcome::ClientDisconnected));
    assert_eq!(FileRelay::new(0).next_read(64), 0);
}

#[test]
fn file_answers_carry_range_framing() {
    let (status, headers) = range_answer(RangeDecision::Partial { start: 2, len: 3 }, 10);
    assert_eq!(status, 206);
    assert_eq!(
        headers,
        vec![
            ("accept-ranges".to_string(), "bytes".to_string()),
            ("content-length".to_string(), "3".to_string()),
            ("content-range".to_string(), "bytes 2-4/10".to_string()),
        ]
    );
    let (status, headers) = range_answer(RangeDecision::Unsatisfiable, 10);
    assert_eq!(status, 416);
    assert_eq!(headers[2], ("content-range".to_string(), "bytes */10".to_string()));
    let (status, headers) = range_answer(RangeDecision::Full, 10);
    assert_eq!(status, 200);
    assert_eq!(headers[1], ("content-length".to_string(), "10".to_string()));
}

#[test]
fn range_lines_are_read_as_one_value_unless_if_range_is_sent() {
    assert_eq!(effective_range(false, &[]), None);
    assert_eq!(effective_range(true, &[b"bytes=0-1".to_vec()]), None);
    assert_eq!(effective_range(false, &[b"bytes=0-1".to_vec()]).as_deref(), Some("bytes=0-1"));
    let repeated = effective_range(false, &[b"bytes=0-1".to_vec(), b"bytes=3-4".to_vec()]);
    assert_eq!(repeated.as_deref(), Some("bytes=0-1, bytes=3-4"));
    assert_eq!(decide_range(10, repeated.as_deref()), RangeDecision::Unsatisfiable);
    let unreadable = effective_range(false, &[b"bytes=\x80".to_vec()]);
    assert_eq!(unreadable.as_deref(), Some("bytes=\u{FFFD}"));
    assert_eq!(decide_range(10, unreadable.as_deref()), RangeDecision::Unsatisfiable);
}

#[test]
fn script_state_text_is_parsed_or_fails_the_run() {
    let state = read_state("{\"logs\": [], \"n\": 7}").ok().unwrap();
    assert!(matches!(state.get("n"), Some(Json::Number(Some(7)))));
    assert!(matches!(read_state("-1").ok().unwrap(), Json::Number(None)));
    match read_state("{") {
        Err(Error::Failed(message)) => assert!(message.starts_with("cannot read script state: "), "{message}"),
        other => panic!("expected a failure, got {other:?}"),
    }
}
