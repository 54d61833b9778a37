use stuntdouble::config::{
    bind_text, check_document, finish_load, normalize_method, read_document, Config, ConfigError, TomlValue,
};

const PATH: &str = "/srv/fixture/stuntdouble.toml";

fn s(v: &str) -> TomlValue {
    TomlValue::Str(v.to_string())
}

fn integer(v: i64) -> TomlValue {
    TomlValue::Integer(v)
}

fn table(entries: Vec<(&str, TomlValue)>) -> TomlValue {
    TomlValue::Table(entries.into_iter().map(|(k, v)| (k.to_string(), v)).collect())
}

/// A document as the TOML parser hands it over, built from top-level
/// entries; `edit` may change it before it is checked.
fn document(entries: Vec<(&str, TomlValue)>) -> TomlValue {
    table(entries)
}

fn route_table(method: Option<&str>, script: &str) -> TomlValue {
    let mut entries = vec![("name", s("manifest"))];
    if let Some(m) = method {
        entries.push(("method", s(m)));
    }
    entries.push(("path", s("/demo/documents/manifest/:group")));
    entries.push(("script", s(script)));
    table(entries)
}

/// The `good_config` fixture: version, server, files, one route, and
/// whatever extra sections or keys a test adds.
fn good(
    version: &str,
    server: Vec<(&str, TomlValue)>,
    files: Vec<(&str, TomlValue)>,
    routes: Vec<TomlValue>,
    extra: Vec<(&str, TomlValue)>,
) -> TomlValue {
    let mut entries = vec![
        ("config_version", s(version)),
        ("server", table(server)),
        ("files", table(files)),
        ("routes", TomlValue::Array(routes)),
    ];
    entries.extend(extra);
    document(entries)
}

fn default_server() -> Vec<(&'static str, TomlValue)> {
    vec![("bind", s("127.0.0.1")), ("port", integer(3000))]
}

fn default_files() -> Vec<(&'static str, TomlValue)> {
    vec![("root", s("./files"))]
}

fn default_routes() -> Vec<TomlValue> {
    vec![route_table(Some("GET"), "scripts/manifest.js")]
}

/// Load a document whose bind is an IP literal exactly when `bind_is_ip`
/// and whose files root exists exactly when `root_exists`.
fn load(doc: &TomlValue, bind_is_ip: bool, root_exists: bool) -> Result<Config, ConfigError> {
    finish_load(PATH, check_document(PATH, doc, bind_is_ip), root_exists)
}

fn load_ok(doc: &TomlValue) -> Config {
    load(doc, true, true).expect("configuration loads")
}

fn report(doc: &TomlValue, bind_is_ip: bool, root_exists: bool) -> String {
    load(doc, bind_is_ip, root_exists).expect_err("configuration must fail").render()
}

/// The `minimal` fixture of the loader's own tests.
fn minimal(files: Vec<(&str, TomlValue)>, extra: Vec<(&str, TomlValue)>) -> TomlValue {
    let mut entries = vec![("config_version", s("1")), ("server", table(vec![])), ("files", table(files))];
    entries.extend(extra);
    entries.push(("routes", TomlValue::Array(vec![table(vec![("method", s("GET")), ("path", s("/x")), ("script", s("scripts/x.js"))])])));
    document(entries)
}

#[test]
fn upload_max_bytes_defaults_and_accepts_a_positive_integer() {
    let config = load_ok(&minimal(default_files(), vec![]));
    assert_eq!(config.files.upload_max_bytes, 20 * 1024 * 1024);
    let mut files = default_files();
    files.push(("upload_max_bytes", integer(1024)));
    let config = load_ok(&minimal(files, vec![]));
    assert_eq!(config.files.upload_max_bytes, 1024);
}

#[test]
fn upload_max_bytes_rejects_zero_negative_and_non_integer_values() {
    for value in [integer(0), integer(-1), TomlValue::Float("1.5".into()), s("1024")] {
        let mut files = default_files();
        files.push(("upload_max_bytes", value));
        let error = report(&minimal(files, vec![]), true, true);
        assert!(error.contains("files.upload_max_bytes"), "{error}");
    }
}

#[test]
fn upstream_allow_hosts_are_normalized_and_reject_non_hosts() {
    let hosts = table(vec![("allow_hosts", TomlValue::Array(vec![s("Example.COM"), s("[::1]")]))]);
    let config = load_ok(&minimal(default_files(), vec![("upstream", hosts)]));
    assert_eq!(config.upstream.allow_hosts, vec!["example.com".to_string(), "::1".to_string()]);

    let bad = table(vec![("allow_hosts", TomlValue::Array(vec![s("example.com:8080")]))]);
    let error = report(&minimal(default_files(), vec![("upstream", bad)]), true, true);
    assert!(error.contains("upstream.allow_hosts[0]"), "{error}");
}

#[test]
fn upstream_defaults_deny_every_host_with_a_fifteen_second_timeout() {
    let config = load_ok(&minimal(default_files(), vec![]));
    assert!(config.upstream.allow_hosts.is_empty());
    assert_eq!(config.upstream.timeout_ms, 15_000);
}

#[test]
fn sandbox_timeout_defaults_to_ten_seconds() {
    let config = load_ok(&minimal(default_files(), vec![]));
    assert_eq!(config.sandbox.script_timeout_ms, 10_000);
}

#[test]
fn sandbox_timeout_is_read_and_validated() {
    let config = load_ok(&minimal(default_files(), vec![("sandbox", table(vec![("script_timeout_ms", integer(250))]))]));
    assert_eq!(config.sandbox.script_timeout_ms, 250);
    let error = report(&minimal(default_files(), vec![("sandbox", table(vec![("script_timeout_ms", integer(0))]))]), true, true);
    assert!(error.contains("sandbox.script_timeout_ms"), "{error}");
}

#[test]
fn validate_accepts_a_good_configuration() {
    let config = load_ok(&good("1", default_server(), default_files(), default_routes(), vec![]));
    assert_eq!(config.routes.len(), 1);
    assert_eq!(config.routes[0].name.as_deref(), Some("manifest"));
    assert_eq!(config.routes[0].script, "/srv/fixture/scripts/manifest.js");
    assert_eq!(config.files.root, "/srv/fixture/./files");
}

#[test]
fn validate_defaults_server_fields() {
    let doc = document(vec![
        ("config_version", s("1")),
        ("server", table(vec![])),
        ("files", table(default_files())),
        ("routes", TomlValue::Array(vec![table(vec![("method", s("get")), ("path", s("/x")), ("script", s("scripts/manifest.js"))])])),
    ]);
    let config = load_ok(&doc);
    assert_eq!(config.server.bind, "127.0.0.1");
    assert_eq!(config.server.port, 3000);
    assert_eq!(config.routes[0].method, "GET");
    assert_eq!(config.routes[0].path, "/x");
}

#[test]
fn validate_rejects_a_non_positive_server_request_timeout() {
    let mut server = default_server();
    server.push(("request_timeout_ms", integer(0)));
    let error = report(&good("1", server, default_files(), default_routes(), vec![]), true, true);
    assert!(
        error.contains("server.request_timeout_ms: expected integer number of milliseconds greater than 0"),
        "{error}"
    );
}

#[test]
fn validate_reports_missing_route_fields_by_dotted_path() {
    let doc = good("1", default_server(), default_files(), vec![route_table(None, "scripts/manifest.js")], vec![]);
    let error = report(&doc, true, true);
    assert!(error.contains("routes[0].method: expected string, got missing"), "{error}");
    assert!(error.contains(PATH), "path missing: {error}");
}

#[test]
fn validate_rejects_unknown_keys() {
    let doc = good("1", default_server(), default_files(), default_routes(), vec![("bogus", TomlValue::Boolean(true))]);
    let error = report(&doc, true, true);
    assert!(error.contains("bogus: expected one of"), "{error}");
}

#[test]
fn validate_rejects_unknown_config_version() {
    let error = report(&good("2", default_server(), default_files(), default_routes(), vec![]), true, true);
    assert!(error.contains("config_version: expected \"1\", got string \"2\""), "{error}");
}

#[test]
fn validate_rejects_non_ip_server_bind() {
    let server = vec![("bind", s("localhost")), ("port", integer(3000))];
    let error = report(&good("1", server, default_files(), default_routes(), vec![]), false, true);
    assert!(error.contains("server.bind: expected IP address literal, got string \"localhost\""), "{error}");
}

#[test]
fn validate_rejects_empty_routes() {
    let doc = document(vec![
        ("config_version", s("1")),
        ("routes", TomlValue::Array(vec![])),
        ("server", table(vec![])),
        ("files", table(default_files())),
    ]);
    let error = report(&doc, true, true);
    assert!(error.contains("routes: expected at least one route table, got array of 0"), "{error}");
}

#[test]
fn validate_reports_route_and_files_root_violations_together() {
    let doc = document(vec![
        ("config_version", s("1")),
        ("routes", TomlValue::Array(vec![])),
        ("server", table(vec![])),
        ("files", table(vec![("root", s("./nowhere"))])),
    ]);
    let error = report(&doc, true, false);
    assert!(error.contains("routes: expected at least one route table"), "{error}");
    assert!(error.contains("files.root: expected existing directory"), "{error}");
}

#[test]
fn validate_requires_existing_static_file_root() {
    let doc = good("1", default_server(), vec![("root", s("./nowhere"))], default_routes(), vec![]);
    let error = report(&doc, true, false);
    assert!(error.contains("files.root: expected existing directory"), "{error}");
}

#[test]
fn validate_accepts_files_upload_max_bytes() {
    let mut files = default_files();
    files.push(("upload_max_bytes", integer(1024)));
    let config = load_ok(&good("1", default_server(), files, default_routes(), vec![]));
    assert_eq!(config.files.upload_max_bytes, 1024);
}

#[test]
fn validate_rejects_invalid_files_upload_max_bytes() {
    for value in [integer(0), integer(-1), TomlValue::Float("1.5".into()), s("1024")] {
        let mut files = default_files();
        files.push(("upload_max_bytes", value));
        let error = report(&good("1", default_server(), files, default_routes(), vec![]), true, true);
        assert!(error.contains("files.upload_max_bytes"), "{error}");
    }
}

#[test]
fn validate_rejects_unknown_files_keys() {
    let mut files = default_files();
    files.push(("bogus", TomlValue::Boolean(true)));
    let error = report(&good("1", default_server(), files, default_routes(), vec![]), true, true);
    assert!(error.contains("files.bogus"), "{error}");
}

#[test]
fn validate_rejects_python_scripts_with_the_real_reason() {
    let routes = vec![route_table(Some("GET"), "scripts/manifest.py")];
    let error = report(&good("1", default_server(), default_files(), routes, vec![]), true, true);
    assert!(error.contains("Python runtime is not supported"), "{error}");
}

#[test]
fn validate_accepts_sandbox_timeout() {
    let sandbox = table(vec![("script_timeout_ms", integer(250))]);
    let config = load_ok(&good("1", default_server(), default_files(), default_routes(), vec![("sandbox", sandbox)]));
    assert_eq!(config.sandbox.script_timeout_ms, 250);
}

#[test]
fn validate_rejects_non_positive_sandbox_timeout() {
    let sandbox = table(vec![("script_timeout_ms", integer(0))]);
    let error = report(&good("1", default_server(), default_files(), default_routes(), vec![("sandbox", sandbox)]), true, true);
    assert!(error.contains("sandbox.script_timeout_ms"), "{error}");
}

#[test]
fn validate_accepts_upstream_configuration() {
    let upstream = table(vec![
        ("allow_hosts", TomlValue::Array(vec![s("metadata.example.com")])),
        ("timeout_ms", integer(500)),
    ]);
    let config = load_ok(&good("1", default_server(), default_files(), default_routes(), vec![("upstream", upstream)]));
    assert_eq!(config.upstream.allow_hosts, vec!["metadata.example.com".to_string()]);
    assert_eq!(config.upstream.timeout_ms, 500);
}

#[test]
fn validate_rejects_unknown_upstream_keys() {
    let upstream = table(vec![
        ("allow_hosts", TomlValue::Array(vec![s("example.com")])),
        ("bogus", TomlValue::Boolean(true)),
    ]);
    let error = report(&good("1", default_server(), default_files(), default_routes(), vec![("upstream", upstream)]), true, true);
    assert!(error.contains("upstream.bogus: expected one of"), "{error}");
}

#[test]
fn validate_rejects_invalid_allow_hosts() {
    let upstream = table(vec![("allow_hosts", TomlValue::Array(vec![s(""), integer(7)]))]);
    let error = report(&good("1", default_server(), default_files(), default_routes(), vec![("upstream", upstream)]), true, true);
    assert!(error.contains("upstream.allow_hosts[0]"), "{error}");
    assert!(error.contains("upstream.allow_hosts[1]"), "{error}");
}

#[test]
fn allow_hosts_refuse_urls_paths_and_ports() {
    for host in ["https://example.com", "example.com/path", "example.com:8080"] {
        let upstream = table(vec![("allow_hosts", TomlValue::Array(vec![s(host)]))]);
        let error = report(&good("1", default_server(), default_files(), default_routes(), vec![("upstream", upstream)]), true, true);
        assert!(error.contains("upstream.allow_hosts[0]"), "host {host}: {error}");
    }
}

#[test]
fn a_document_that_is_not_a_table_is_reported_at_the_root() {
    let error = report(&s("text"), true, true);
    assert!(error.contains("(root): expected table, got string \"text\""), "{error}");
}

#[test]
fn methods_are_upper_cased_and_limited_to_the_http_set() {
    assert_eq!(normalize_method("patch").as_deref(), Some("PATCH"));
    assert_eq!(normalize_method("Options").as_deref(), Some("OPTIONS"));
    assert_eq!(normalize_method("TRACE"), None);
    let routes = vec![route_table(Some("FETCH"), "scripts/manifest.js")];
    let error = report(&good("1", default_server(), default_files(), routes, vec![]), true, true);
    assert!(error.contains("routes[0].method: expected one of GET, POST, PUT, DELETE, PATCH, HEAD, OPTIONS"), "{error}");
}

#[test]
fn configuration_text_is_parsed_in_key_order_and_syntax_errors_name_the_file() {
    let text = "config_version = \"1\"\n[server]\nbind = \"::1\"\nport = 8080\n[[routes]]\nmethod = \"get\"\npath = \"/x\"\nscript = \"x.js\"\n";
    let doc = read_document(PATH, text).expect("parses");
    match &doc {
        TomlValue::Table(entries) => {
            assert!(entries.iter().any(|(k, v)| k == "config_version" && matches!(v, TomlValue::Str(t) if t == "1")));
            assert!(entries.iter().any(|(k, v)| k == "routes" && matches!(v, TomlValue::Array(items) if items.len() == 1)));
        }
        _ => panic!("a document is a table"),
    }
    assert_eq!(bind_text(&doc), Some("::1"));
    match read_document(PATH, "config_version = ") {
        Err(ConfigError::Syntax { path, message }) => {
            assert_eq!(path, PATH);
            assert!(!message.is_empty());
        }
        other => panic!("expected a syntax error, got {other:?}"),
    }
    let without_bind = read_document(PATH, "[server]\nport = 1\n").expect("parses");
    assert_eq!(bind_text(&without_bind), None);
    assert_eq!(bind_text(&s("x")), None);
}

#[test]
fn script_paths_end_with_the_script_as_written() {
    let routes = vec![route_table(Some("GET"), "scripts/sub/manifest.js"), route_table(Some("GET"), "/abs/other.mjs")];
    let config = load_ok(&good("1", default_server(), default_files(), routes, vec![]));
    assert!(config.routes[0].script.ends_with("scripts/sub/manifest.js"));
    assert_eq!(config.routes[1].script, "/abs/other.mjs");
}

#[test]
fn python_scripts_are_refused_by_extension() {
    let routes = vec![route_table(Some("GET"), "scripts/manifest.py"), route_table(Some("GET"), "scripts/.js")];
    let error = report(&good("1", default_server(), default_files(), routes, vec![]), true, true);
    assert!(error.contains("routes[0].script: expected JavaScript file"), "{error}");
    assert!(error.contains("routes[1].script: expected file name ending in .js"), "{error}");
}
