use stuntdouble::config::Route;
use stuntdouble::matcher::{match_route, percent_decode};

fn route(method: &str, path: &str) -> Route {
    Route { name: None, method: method.into(), path: path.into(), script: "s.js".into() }
}

#[test]
fn percent_decode_handles_escapes_and_falls_back() {
    assert_eq!(percent_decode(b"a%20b"), "a b");
    assert_eq!(percent_decode(b"DOC%2D0001"), "DOC-0001");
    assert_eq!(percent_decode(b"plain"), "plain");
    assert_eq!(percent_decode(b"bad%zz%"), "bad%zz%");
    assert_eq!(percent_decode(b"tail%2"), "tail%2");
}

#[test]
fn path_params_are_decoded() {
    let routes = vec![route("GET", "/x/:id")];
    let found = match_route(&routes, "GET", "/x/a%20b").unwrap();
    assert_eq!(found.param("id").as_deref(), Some("a b"));
}

#[test]
fn captures_named_segment() {
    let routes = vec![route("GET", "/demo/documents/manifest/:group")];
    let found = match_route(&routes, "GET", "/demo/documents/manifest/group-a").unwrap();
    assert_eq!(found.route_index, 0);
    assert_eq!(found.param("group").as_deref(), Some("group-a"));
}

#[test]
fn method_is_compared_after_uppercasing() {
    let routes = vec![route("GET", "/x")];
    assert!(match_route(&routes, "get", "/x").is_some());
    assert!(match_route(&routes, "POST", "/x").is_none());
}

#[test]
fn segment_count_must_match() {
    let routes = vec![route("GET", "/x/:id")];
    assert!(match_route(&routes, "GET", "/x").is_none());
    assert!(match_route(&routes, "GET", "/x/1/2").is_none());
}

#[test]
fn first_declaration_wins() {
    let routes = vec![route("GET", "/x/:id"), route("GET", "/x/:other")];
    let found = match_route(&routes, "GET", "/x/7").unwrap();
    assert_eq!(found.route_index, 0);
    assert!(found.param("id").is_some());
}

#[test]
fn root_path_matches_root_route() {
    let routes = vec![route("GET", "/")];
    assert!(match_route(&routes, "GET", "/").is_some());
    assert!(match_route(&routes, "GET", "").is_some());
}

#[test]
fn percent_decode_reads_both_hex_cases_and_keeps_invalid_utf8_lossy() {
    assert_eq!(percent_decode(b"%4a%4A"), "JJ");
    assert_eq!(percent_decode(b"%ff"), "\u{FFFD}");
    assert_eq!(percent_decode(b"%"), "%");
    assert_eq!(percent_decode(b"%+5"), "%+5");
    assert_eq!(percent_decode(b"a%2"), "a%2");
    assert_eq!(percent_decode(b"%e2%82%ac"), "\u{20AC}");
}

#[test]
fn literal_segments_must_match_exactly_and_empty_segments_are_ignored() {
    let routes = vec![route("GET", "/a/b")];
    assert!(match_route(&routes, "GET", "/a//b/").is_some());
    assert!(match_route(&routes, "GET", "/a/c").is_none());
    let found = match_route(&[route("POST", "/a/:x/:y")], "post", "/a/1/%7Bz%7D").unwrap();
    assert_eq!(found.param("x").as_deref(), Some("1"));
    assert_eq!(found.param("y").as_deref(), Some("{z}"));
    assert_eq!(found.param("missing"), None);
    let plain = match_route(&[route("GET", "/a/:x")], "GET", "/a/h\u{e9}llo-\u{6587}").unwrap();
    assert_eq!(plain.param("x").as_deref(), Some("h\u{e9}llo-\u{6587}"));
}
