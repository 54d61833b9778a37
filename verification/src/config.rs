//! Configuration model and validation. The configuration text is parsed
//! into a [`TomlValue`] document, which is checked field by field; every
//! problem is collected so a single run reports the whole list.
use vstd::prelude::*;
use crate::text::{
    chars_of, nonempty_pieces, debug_quoted, debug_text, decimal_text, i64_decimal, join_strings, join_strs, joined, signed_decimal_text,
    str_eq, strings_view, strs_view, to_ascii_upper, u64_decimal, upper_seq,
};

verus! {

/// One TOML value as the validation reads it. Floats and datetimes are kept
/// as the text they display as; table members keep the parser's key order.
#[derive(Debug)]
pub enum TomlValue {
    Str(String),
    Integer(i64),
    Float(String),
    Boolean(bool),
    Datetime(String),
    Array(Vec<TomlValue>),
    Table(Vec<(String, TomlValue)>),
}

/// The whole validated configuration.
#[derive(Debug)]
pub struct Config {
    pub config_version: String,
    pub server: ServerConfig,
    pub files: FilesConfig,
    pub sandbox: SandboxConfig,
    pub upstream: UpstreamConfig,
    pub routes: Vec<Route>,
}

/// Script execution limits: a wall-clock deadline enforced by the host.
#[derive(Debug)]
pub struct SandboxConfig {
    pub script_timeout_ms: u64,
}

/// Upstream HTTP access limits for `ctx.http.get` and `ctx.http.pipe`.
#[derive(Debug)]
pub struct UpstreamConfig {
    pub allow_hosts: Vec<String>,
    pub timeout_ms: u64,
}

/// Listening socket and request-reading deadline.
#[derive(Debug)]
pub struct ServerConfig {
    pub bind: String,
    pub port: u16,
    /// Deadline for reading one request head and body, in milliseconds.
    pub request_timeout_ms: u64,
}

/// The static file root and the upload size cap.
#[derive(Debug)]
pub struct FilesConfig {
    pub root: String,
    pub upload_max_bytes: u64,
}

/// One declared route: method, path pattern and script file.
#[derive(Debug)]
pub struct Route {
    pub name: Option<String>,
    pub method: String,
    pub path: String,
    pub script: String,
}

/// One field problem: where, what was expected, what was found.
#[derive(Debug)]
pub struct Violation {
    pub field: String,
    pub expected: String,
    pub actual: String,
}

/// Why a configuration could not be loaded.
#[derive(Debug)]
pub enum ConfigError {
    /// Could not read the configuration file.
    Read { path: String, reason: String },
    /// TOML syntax error; the message carries line and column.
    Syntax { path: String, message: String },
    /// Invalid configuration values.
    Schema { path: String, violations: Vec<Violation> },
}

pub type VView = (Seq<char>, Seq<char>, Seq<char>);

impl Violation {
    pub open spec fn view(&self) -> VView {
        (self.field@, self.expected@, self.actual@)
    }

    /// `field: expected E, got A`.
    pub fn render(&self) -> (r: String)
        ensures
            r@ == self.field@ + ": expected "@ + self.expected@ + ", got "@ + self.actual@,
    {
        self.field.clone().concat(": expected ").concat(self.expected.as_str()).concat(", got ").concat(
            self.actual.as_str(),
        )
    }
}

pub open spec fn vviews(v: Seq<Violation>) -> Seq<VView> {
    v.map_values(|x: Violation| x.view())
}

pub open spec fn rendered_lines(v: Seq<Violation>) -> Seq<char>
    decreases v.len(),
{
    if v.len() == 0 {
        Seq::empty()
    } else {
        let x = v.last();
        rendered_lines(v.drop_last()) + "  "@ + x.field@ + ": expected "@ + x.expected@ + ", got "@
            + x.actual@ + "\n"@
    }
}

impl ConfigError {
    pub open spec fn render_spec(&self) -> Seq<char> {
        match self {
            ConfigError::Read { path, reason } => path@ + ": cannot read configuration: "@ + reason@,
            ConfigError::Syntax { path, message } => path@ + ": invalid TOML: "@ + message@,
            ConfigError::Schema { path, violations } => path@ + ": invalid configuration\n"@
                + rendered_lines(violations@),
        }
    }

    /// The operator-facing report, one violation per line.
    pub fn render(&self) -> (r: String)
        ensures
            r@ == self.render_spec(),
    {
        match self {
            ConfigError::Read { path, reason } => path.clone().concat(
                ": cannot read configuration: ",
            ).concat(reason.as_str()),
            ConfigError::Syntax { path, message } => path.clone().concat(": invalid TOML: ").concat(
                message.as_str(),
            ),
            ConfigError::Schema { path, violations } => {
                let mut out = path.clone().concat(": invalid configuration\n");
                let mut i: usize = 0;
                while i < violations.len()
                    invariant
                        i <= violations@.len(),
                        out@ == path@ + ": invalid configuration\n"@ + rendered_lines(
                            violations@.take(i as int),
                        ),
                    decreases violations@.len() - i,
                {
                    assert(violations@.take(i + 1).drop_last() =~= violations@.take(i as int));
                    let line = violations[i].render();
                    out = out.concat("  ").concat(line.as_str()).concat("\n");
                    i = i + 1;
                    assert(out@ =~= path@ + ": invalid configuration\n"@ + rendered_lines(
                        violations@.take(i as int),
                    ));
                }
                assert(violations@.take(i as int) =~= violations@);
                out
            },
        }
    }
}


pub open spec fn keys_view(t: Seq<(String, TomlValue)>) -> Seq<Seq<char>> {
    t.map_values(|e: (String, TomlValue)| e.0@)
}

/// The value stored under `key` in a table (first match).
pub open spec fn entry(t: Seq<(String, TomlValue)>, key: Seq<char>) -> Option<TomlValue>
    decreases t.len(),
{
    if t.len() == 0 {
        None
    } else if t[0].0@ == key {
        Some(t[0].1)
    } else {
        entry(t.drop_first(), key)
    }
}

fn table_get<'a>(t: &'a Vec<(String, TomlValue)>, key: &str) -> (r: Option<&'a TomlValue>)
    ensures
        match r {
            Some(v) => entry(t@, key@) == Some(*v),
            None => entry(t@, key@) is None,
        },
{
    let mut i: usize = 0;
    assert(t@.skip(0) =~= t@);
    while i < t.len()
        invariant
            i <= t@.len(),
            entry(t@, key@) == entry(t@.skip(i as int), key@),
        decreases t@.len() - i,
    {
        assert(t@.skip(i as int).drop_first() =~= t@.skip(i + 1));
        assert(t@.skip(i as int)[0] == t@[i as int]);
        if str_eq(t[i].0.as_str(), key) {
            return Some(&t[i].1);
        }
        i = i + 1;
    }
    None
}

/// How a value is reported when it has the wrong shape.
pub open spec fn describe_spec(v: TomlValue) -> Seq<char> {
    match v {
        TomlValue::Str(s) => "string \""@ + s@ + "\""@,
        TomlValue::Integer(i) => "integer "@ + signed_decimal_text(i as int),
        TomlValue::Float(t) => "float "@ + t@,
        TomlValue::Boolean(b) => "boolean "@ + if b {
            "true"@
        } else {
            "false"@
        },
        TomlValue::Datetime(t) => "datetime "@ + t@,
        TomlValue::Array(a) => "array of "@ + decimal_text(a@.len()),
        TomlValue::Table(t) => "table with keys ["@ + joined(keys_view(t@), ", "@) + "]"@,
    }
}

fn describe(value: &TomlValue) -> (r: String)
    ensures
        r@ == describe_spec(*value),
{
    match value {
        TomlValue::Str(s) => String::from_str("string \"").concat(s.as_str()).concat("\""),
        TomlValue::Integer(i) => String::from_str("integer ").concat(i64_decimal(*i).as_str()),
        TomlValue::Float(t) => String::from_str("float ").concat(t.as_str()),
        TomlValue::Boolean(b) => String::from_str("boolean ").concat(
            if *b {
                "true"
            } else {
                "false"
            },
        ),
        TomlValue::Datetime(t) => String::from_str("datetime ").concat(t.as_str()),
        TomlValue::Array(a) => String::from_str("array of ").concat(
            u64_decimal(a.len() as u64).as_str(),
        ),
        TomlValue::Table(t) => {
            let mut keys: Vec<String> = Vec::new();
            let mut i: usize = 0;
            while i < t.len()
                invariant
                    i <= t@.len(),
                    strings_view(keys@) == keys_view(t@).take(i as int),
                decreases t@.len() - i,
            {
                let k = t[i].0.clone();
                assert(k@ == t@[i as int].0@);
                let ghost prev = keys@;
                keys.push(k);
                assert(keys@ == prev.push(k));
                assert(keys_view(t@).take(i + 1) =~= keys_view(t@).take(i as int).push(k@));
                i = i + 1;
                assert(strings_view(keys@) =~= keys_view(t@).take(i as int));
            }
            assert(keys_view(t@).take(i as int) =~= keys_view(t@));
            String::from_str("table with keys [").concat(join_strings(keys.as_slice(), ", ").as_str()).concat(
                "]",
            )
        },
    }
}

pub open spec fn vv(field: Seq<char>, expected: Seq<char>, actual: Seq<char>) -> VView {
    (field, expected, actual)
}

fn violation(field: String, expected: String, actual: String) -> (r: Violation)
    ensures
        r.view() == vv(field@, expected@, actual@),
{
    Violation { field, expected, actual }
}

/// The violation for a required field that is absent.
fn missing(field: &str, expected: &str) -> (r: Violation)
    ensures
        r.view() == vv(field@, expected@, "missing"@),
{
    violation(String::from_str(field), String::from_str(expected), String::from_str("missing"))
}

/// The violation for a value of the wrong shape.
fn bad(field: &str, expected: &str, value: &TomlValue) -> (r: Violation)
    ensures
        r.view() == vv(field@, expected@, describe_spec(*value)),
{
    violation(String::from_str(field), String::from_str(expected), describe(value))
}

/// `key` qualified by a dotted prefix; the root level has no prefix.
pub open spec fn qualified(prefix: Seq<char>, key: Seq<char>) -> Seq<char> {
    if prefix.len() == 0 {
        key
    } else {
        prefix + "."@ + key
    }
}

/// One violation per key that the table may not hold, in table order.
pub open spec fn unknown_key_violations(
    keys: Seq<Seq<char>>,
    allowed: Seq<Seq<char>>,
    prefix: Seq<char>,
) -> Seq<VView>
    decreases keys.len(),
{
    if keys.len() == 0 {
        Seq::empty()
    } else {
        let prev = unknown_key_violations(keys.drop_last(), allowed, prefix);
        if allowed.contains(keys.last()) {
            prev
        } else {
            prev.push(
                vv(
                    qualified(prefix, keys.last()),
                    "one of ["@ + joined(allowed, ", "@) + "]"@,
                    "unknown key"@,
                ),
            )
        }
    }
}

fn contains_str(items: &[&str], key: &str) -> (r: bool)
    ensures
        r == strs_view(items@).contains(key@),
{
    let mut i: usize = 0;
    while i < items.len()
        invariant
            i <= items@.len(),
            forall|j: int| 0 <= j < i ==> items@[j]@ != key@,
        decreases items@.len() - i,
    {
        if str_eq(items[i], key) {
            assert(strs_view(items@)[i as int] == key@);
            return true;
        }
        i = i + 1;
    }
    assert forall|j: int| 0 <= j < strs_view(items@).len() implies strs_view(items@)[j] != key@ by {
        assert(strs_view(items@)[j] == items@[j]@);
    }
    false
}

/// Report every key of `table` that is not in `allowed`.
fn reject_unknown(
    table: &Vec<(String, TomlValue)>,
    allowed: &[&str],
    prefix: &str,
    out: &mut Vec<Violation>,
)
    ensures
        vviews(final(out)@) == vviews(old(out)@) + unknown_key_violations(
            keys_view(table@),
            strs_view(allowed@),
            prefix@,
        ),
{
    let expected = String::from_str("one of [").concat(join_strs(allowed, ", ").as_str()).concat("]");
    let ghost start = vviews(out@);
    let mut i: usize = 0;
    assert(keys_view(table@).take(0) =~= Seq::<Seq<char>>::empty());
    assert(start + Seq::<VView>::empty() =~= start);
    while i < table.len()
        invariant
            i <= table@.len(),
            expected@ == "one of ["@ + joined(strs_view(allowed@), ", "@) + "]"@,
            vviews(out@) == start + unknown_key_violations(
                keys_view(table@).take(i as int),
                strs_view(allowed@),
                prefix@,
            ),
        decreases table@.len() - i,
    {
        let key = &table[i].0;
        assert(keys_view(table@).take(i + 1).drop_last() =~= keys_view(table@).take(i as int));
        assert(keys_view(table@).take(i + 1).last() == key@);
        if !contains_str(allowed, key.as_str()) {
            let field = if prefix.is_empty() {
                key.clone()
            } else {
                String::from_str(prefix).concat(".").concat(key.as_str())
            };
            let ghost before = vviews(out@);
            out.push(violation(field, expected.clone(), String::from_str("unknown key")));
            assert(vviews(out@) =~= before.push(vv(qualified(prefix@, key@), expected@, "unknown key"@)));
        }
        i = i + 1;
    }
    assert(keys_view(table@).take(i as int) =~= keys_view(table@));
}

/// An optional string: absent stays quiet; empty or non-string values are
/// reported.
pub open spec fn opt_string_spec(value: Option<TomlValue>, field: Seq<char>) -> (Option<Seq<char>>, Seq<VView>) {
    match value {
        None => (None, Seq::empty()),
        Some(TomlValue::Str(s)) => if s@.len() > 0 {
            (Some(s@), Seq::empty())
        } else {
            (None, seq![vv(field, "non-empty string"@, s@)])
        },
        Some(other) => (None, seq![vv(field, "string"@, describe_spec(other))]),
    }
}

/// A required string: an absent key is reported as missing.
pub open spec fn req_string_spec(value: Option<TomlValue>, field: Seq<char>) -> (Option<Seq<char>>, Seq<VView>) {
    match value {
        None => (None, seq![vv(field, "string"@, "missing"@)]),
        Some(_) => opt_string_spec(value, field),
    }
}

fn opt_string(table: &Vec<(String, TomlValue)>, key: &str, field: &str, out: &mut Vec<Violation>) -> (r: Option<String>)
    ensures
        ({
            let s = opt_string_spec(entry(table@, key@), field@);
            &&& vviews(final(out)@) == vviews(old(out)@) + s.1
            &&& match r {
                Some(v) => s.0 == Some(v@),
                None => s.0 is None,
            }
        }),
{
    let ghost before = vviews(out@);
    match table_get(table, key) {
        None => {
            assert(vviews(out@) =~= before + Seq::<VView>::empty());
            None
        },
        Some(TomlValue::Str(s)) => {
            if !s.as_str().is_empty() {
                assert(vviews(out@) =~= before + Seq::<VView>::empty());
                Some(s.clone())
            } else {
                assert(s@.len() == 0);
                out.push(violation(String::from_str(field), String::from_str("non-empty string"), s.clone()));
                assert(vviews(out@) =~= before + seq![vv(field@, "non-empty string"@, s@)]);
                None
            }
        },
        Some(other) => {
            out.push(bad(field, "string", other));
            assert(vviews(out@) =~= before + seq![vv(field@, "string"@, describe_spec(*other))]);
            None
        },
    }
}

fn req_string(table: &Vec<(String, TomlValue)>, key: &str, field: &str, out: &mut Vec<Violation>) -> (r: Option<String>)
    ensures
        ({
            let s = req_string_spec(entry(table@, key@), field@);
            &&& vviews(final(out)@) == vviews(old(out)@) + s.1
            &&& match r {
                Some(v) => s.0 == Some(v@),
                None => s.0 is None,
            }
        }),
        r is None ==> vviews(final(out)@).len() > vviews(old(out)@).len(),
{
    let ghost before = vviews(out@);
    if table_get(table, key).is_none() {
        out.push(missing(field, "string"));
        assert(vviews(out@) =~= before + seq![vv(field@, "string"@, "missing"@)]);
        return None;
    }
    opt_string(table, key, field, out)
}


/// A positive integer option (a byte count or a millisecond duration):
/// absent stays quiet; zero, negative and non-integer values are reported.
pub open spec fn opt_positive_spec(
    value: Option<TomlValue>,
    field: Seq<char>,
    expected_positive: Seq<char>,
    expected_kind: Seq<char>,
) -> (Option<u64>, Seq<VView>) {
    match value {
        None => (None, Seq::empty()),
        Some(TomlValue::Integer(n)) => if n <= 0 {
            (None, seq![vv(field, expected_positive, signed_decimal_text(n as int))])
        } else {
            (Some(n as u64), Seq::empty())
        },
        Some(other) => (None, seq![vv(field, expected_kind, describe_spec(other))]),
    }
}

fn opt_positive(
    table: &Vec<(String, TomlValue)>,
    key: &str,
    field: &str,
    expected_positive: &str,
    expected_kind: &str,
    out: &mut Vec<Violation>,
) -> (r: Option<u64>)
    ensures
        ({
            let s = opt_positive_spec(entry(table@, key@), field@, expected_positive@, expected_kind@);
            &&& vviews(final(out)@) == vviews(old(out)@) + s.1
            &&& r == s.0
        }),
{
    let ghost before = vviews(out@);
    match table_get(table, key) {
        None => {
            assert(vviews(out@) =~= before + Seq::<VView>::empty());
            None
        },
        Some(TomlValue::Integer(n)) => {
            if *n <= 0 {
                out.push(violation(String::from_str(field), String::from_str(expected_positive), i64_decimal(*n)));
                assert(vviews(out@) =~= before + seq![vv(field@, expected_positive@, signed_decimal_text(*n as int))]);
                None
            } else {
                assert(vviews(out@) =~= before + Seq::<VView>::empty());
                Some(*n as u64)
            }
        },
        Some(other) => {
            out.push(bad(field, expected_kind, other));
            assert(vviews(out@) =~= before + seq![vv(field@, expected_kind@, describe_spec(*other))]);
            None
        },
    }
}

/// Positive byte count used by `files.upload_max_bytes`.
fn opt_positive_bytes(table: &Vec<(String, TomlValue)>, key: &str, field: &str, out: &mut Vec<Violation>) -> (r: Option<u64>)
    ensures
        ({
            let s = opt_positive_spec(
                entry(table@, key@),
                field@,
                "integer number of bytes greater than 0"@,
                "integer number of bytes"@,
            );
            &&& vviews(final(out)@) == vviews(old(out)@) + s.1
            &&& r == s.0
        }),
{
    opt_positive(table, key, field, "integer number of bytes greater than 0", "integer number of bytes", out)
}

/// Millisecond duration: a positive integer, because 0 would make every
/// request time out before the script can run.
fn opt_duration_ms(table: &Vec<(String, TomlValue)>, key: &str, field: &str, out: &mut Vec<Violation>) -> (r: Option<u64>)
    ensures
        ({
            let s = opt_positive_spec(
                entry(table@, key@),
                field@,
                "integer number of milliseconds greater than 0"@,
                "integer number of milliseconds"@,
            );
            &&& vviews(final(out)@) == vviews(old(out)@) + s.1
            &&& r == s.0
        }),
{
    opt_positive(
        table,
        key,
        field,
        "integer number of milliseconds greater than 0",
        "integer number of milliseconds",
        out,
    )
}

/// `server.port`: an integer in `[1, 65535]`.
pub open spec fn opt_port_spec(value: Option<TomlValue>, field: Seq<char>) -> (Option<u16>, Seq<VView>) {
    match value {
        None => (None, Seq::empty()),
        Some(TomlValue::Integer(n)) => if n <= 0 || n > 65535 {
            (None, seq![vv(field, "integer in [1, 65535]"@, signed_decimal_text(n as int))])
        } else {
            (Some(n as u16), Seq::empty())
        },
        Some(other) => (None, seq![vv(field, "integer in [1, 65535]"@, describe_spec(other))]),
    }
}

fn opt_port(table: &Vec<(String, TomlValue)>, field: &str, out: &mut Vec<Violation>) -> (r: Option<u16>)
    ensures
        ({
            let s = opt_port_spec(entry(table@, "port"@), field@);
            &&& vviews(final(out)@) == vviews(old(out)@) + s.1
            &&& r == s.0
        }),
{
    let ghost before = vviews(out@);
    match table_get(table, "port") {
        None => {
            assert(vviews(out@) =~= before + Seq::<VView>::empty());
            None
        },
        Some(TomlValue::Integer(n)) => {
            if *n <= 0 || *n > 65535 {
                out.push(violation(String::from_str(field), String::from_str("integer in [1, 65535]"), i64_decimal(*n)));
                assert(vviews(out@) =~= before + seq![vv(field@, "integer in [1, 65535]"@, signed_decimal_text(*n as int))]);
                None
            } else {
                assert(vviews(out@) =~= before + Seq::<VView>::empty());
                Some(*n as u16)
            }
        },
        Some(other) => {
            out.push(bad(field, "integer in [1, 65535]", other));
            assert(vviews(out@) =~= before + seq![vv(field@, "integer in [1, 65535]"@, describe_spec(*other))]);
            None
        },
    }
}

/// `server.bind`: an IP literal; host names are not resolved. Whether the
/// text reads as an IP address (`std::net::IpAddr`) is handed in as
/// `is_ip`, because that parser lives in a part of `std` this library does
/// not use.
pub open spec fn opt_bind_spec(value: Option<TomlValue>, field: Seq<char>, is_ip: bool) -> (Option<Seq<char>>, Seq<VView>) {
    match value {
        None => (None, Seq::empty()),
        Some(TomlValue::Str(s)) => if s@.len() > 0 {
            if is_ip {
                (Some(s@), Seq::empty())
            } else {
                (None, seq![vv(field, "IP address literal"@, "string "@ + debug_text(s@))])
            }
        } else {
            (None, seq![vv(field, "non-empty string"@, s@)])
        },
        Some(other) => (None, seq![vv(field, "IP address literal"@, describe_spec(other))]),
    }
}

fn opt_bind(table: &Vec<(String, TomlValue)>, field: &str, is_ip: bool, out: &mut Vec<Violation>) -> (r: Option<String>)
    ensures
        ({
            let s = opt_bind_spec(entry(table@, "bind"@), field@, is_ip);
            &&& vviews(final(out)@) == vviews(old(out)@) + s.1
            &&& match r {
                Some(v) => s.0 == Some(v@),
                None => s.0 is None,
            }
        }),
{
    let ghost before = vviews(out@);
    match table_get(table, "bind") {
        None => {
            assert(vviews(out@) =~= before + Seq::<VView>::empty());
            None
        },
        Some(TomlValue::Str(s)) => {
            if !s.as_str().is_empty() {
                if !is_ip {
                    let actual = String::from_str("string ").concat(debug_quoted(s.as_str()).as_str());
                    out.push(violation(String::from_str(field), String::from_str("IP address literal"), actual));
                    assert(vviews(out@) =~= before + seq![vv(field@, "IP address literal"@, "string "@ + debug_text(s@))]);
                    return None;
                }
                assert(vviews(out@) =~= before + Seq::<VView>::empty());
                Some(s.clone())
            } else {
                out.push(violation(String::from_str(field), String::from_str("non-empty string"), s.clone()));
                assert(vviews(out@) =~= before + seq![vv(field@, "non-empty string"@, s@)]);
                None
            }
        },
        Some(other) => {
            out.push(bad(field, "IP address literal", other));
            assert(vviews(out@) =~= before + seq![vv(field@, "IP address literal"@, describe_spec(*other))]);
            None
        },
    }
}

/// A host allowlist entry normalized the way the URL standard's host parser
/// reads it: a lower-case, punycoded domain or an unbracketed IP literal.
pub uninterp spec fn normalized_host(raw: Seq<char>) -> Option<Seq<char>>;

/// `url::Host::parse`, rendered back to text: the domain itself, or the
/// address of an IPv4 / IPv6 literal (IPv6 written without brackets).
#[verifier::external_body]
pub(crate) fn normalize_host(raw: &str) -> (r: Option<String>)
    ensures
        match r {
            Some(h) => normalized_host(raw@) == Some(h@),
            None => normalized_host(raw@) is None,
        },
{
    match url::Host::parse(raw) {
        Ok(url::Host::Domain(domain)) => Some(domain),
        Ok(url::Host::Ipv4(ip)) => Some(ip.to_string()),
        Ok(url::Host::Ipv6(ip)) => Some(ip.to_string()),
        Err(_) => None,
    }
}

/// `field[index]`.
pub open spec fn indexed(field: Seq<char>, index: nat) -> Seq<char> {
    field + "["@ + decimal_text(index) + "]"@
}

/// The accepted hosts of an allowlist array, and the violations of the rest.
pub open spec fn host_items(items: Seq<TomlValue>, field: Seq<char>) -> (Seq<Seq<char>>, Seq<VView>)
    decreases items.len(),
{
    if items.len() == 0 {
        (Seq::empty(), Seq::empty())
    } else {
        let prev = host_items(items.drop_last(), field);
        let index = (items.len() - 1) as nat;
        match items.last() {
            TomlValue::Str(h) => if h@.len() > 0 {
                match normalized_host(h@) {
                    Some(n) => (prev.0.push(n), prev.1),
                    None => (prev.0, prev.1.push(vv(
                        indexed(field, index),
                        "host name or IP literal without scheme or port"@,
                        "string "@ + debug_text(h@),
                    ))),
                }
            } else {
                (prev.0, prev.1.push(vv(indexed(field, index), "non-empty host string"@, describe_spec(items.last()))))
            },
            other => (prev.0, prev.1.push(vv(indexed(field, index), "non-empty host string"@, describe_spec(other)))),
        }
    }
}

/// `upstream.allow_hosts`: an array of non-empty host names. An omitted
/// allowlist denies every host.
pub open spec fn opt_host_list_spec(value: Option<TomlValue>, field: Seq<char>) -> (Option<Seq<Seq<char>>>, Seq<VView>) {
    match value {
        None => (None, Seq::empty()),
        Some(TomlValue::Array(items)) => {
            let h = host_items(items@, field);
            (Some(h.0), h.1)
        },
        Some(other) => (None, seq![vv(field, "array of host strings"@, describe_spec(other))]),
    }
}

fn opt_host_list(table: &Vec<(String, TomlValue)>, field: &str, out: &mut Vec<Violation>) -> (r: Option<Vec<String>>)
    ensures
        ({
            let s = opt_host_list_spec(entry(table@, "allow_hosts"@), field@);
            &&& vviews(final(out)@) == vviews(old(out)@) + s.1
            &&& match r {
                Some(v) => s.0 == Some(strings_view(v@)),
                None => s.0 is None,
            }
        }),
{
    let ghost before = vviews(out@);
    match table_get(table, "allow_hosts") {
        None => {
            assert(vviews(out@) =~= before + Seq::<VView>::empty());
            None
        },
        Some(TomlValue::Array(items)) => {
            let mut hosts: Vec<String> = Vec::new();
            let mut index: usize = 0;
            assert(items@.take(0) =~= Seq::<TomlValue>::empty());
            assert(vviews(out@) =~= before + Seq::<VView>::empty());
            while index < items.len()
                invariant
                    index <= items@.len(),
                    ({
                        let h = host_items(items@.take(index as int), field@);
                        &&& strings_view(hosts@) == h.0
                        &&& vviews(out@) == before + h.1
                    }),
                decreases items@.len() - index,
            {
                assert(items@.take(index + 1).drop_last() =~= items@.take(index as int));
                assert(items@.take(index + 1).last() == items@[index as int]);
                let ghost prev_out = vviews(out@);
                let ghost prev_hosts = strings_view(hosts@);
                let label = String::from_str(field).concat("[").concat(u64_decimal(index as u64).as_str()).concat("]");
                assert(label@ == indexed(field@, index as nat));
                match &items[index] {
                    TomlValue::Str(host) => {
                        if !host.as_str().is_empty() {
                            match normalize_host(host.as_str()) {
                                Some(h) => {
                                    hosts.push(h);
                                    assert(strings_view(hosts@) =~= prev_hosts.push(h@));
                                },
                                None => {
                                    let actual = String::from_str("string ").concat(debug_quoted(host.as_str()).as_str());
                                    out.push(violation(
                                        label,
                                        String::from_str("host name or IP literal without scheme or port"),
                                        actual,
                                    ));
                                    assert(vviews(out@) =~= prev_out.push(vv(
                                        indexed(field@, index as nat),
                                        "host name or IP literal without scheme or port"@,
                                        "string "@ + debug_text(host@),
                                    )));
                                },
                            }
                        } else {
                            out.push(violation(label, String::from_str("non-empty host string"), describe(&items[index])));
                            assert(vviews(out@) =~= prev_out.push(vv(
                                indexed(field@, index as nat),
                                "non-empty host string"@,
                                describe_spec(items@[index as int]),
                            )));
                        }
                    },
                    other => {
                        out.push(violation(label, String::from_str("non-empty host string"), describe(other)));
                        assert(vviews(out@) =~= prev_out.push(vv(
                            indexed(field@, index as nat),
                            "non-empty host string"@,
                            describe_spec(*other),
                        )));
                    },
                }
                index = index + 1;
                assert(strings_view(hosts@) =~= host_items(items@.take(index as int), field@).0);
                assert(vviews(out@) =~= before + host_items(items@.take(index as int), field@).1);
            }
            assert(items@.take(index as int) =~= items@);
            Some(hosts)
        },
        Some(other) => {
            out.push(bad(field, "array of host strings", other));
            assert(vviews(out@) =~= before + seq![vv(field@, "array of host strings"@, describe_spec(*other))]);
            None
        },
    }
}


/// The methods a route may declare.
pub open spec fn is_http_method(m: Seq<char>) -> bool {
    ||| m == "GET"@
    ||| m == "POST"@
    ||| m == "PUT"@
    ||| m == "DELETE"@
    ||| m == "PATCH"@
    ||| m == "HEAD"@
    ||| m == "OPTIONS"@
}

/// The upper-cased method when it is one a route may declare.
pub fn normalize_method(method: &str) -> (r: Option<String>)
    ensures
        r is Some <==> is_http_method(upper_seq(method@)),
        r matches Some(m) ==> m@ == upper_seq(method@),
{
    let upper = to_ascii_upper(method);
    let u = upper.as_str();
    if str_eq(u, "GET") || str_eq(u, "POST") || str_eq(u, "PUT") || str_eq(u, "DELETE") || str_eq(
        u,
        "PATCH",
    ) || str_eq(u, "HEAD") || str_eq(u, "OPTIONS") {
        Some(upper)
    } else {
        None
    }
}

/// The configuration family this version reads: exactly `"1"`.
pub open spec fn version_violations(value: Option<Seq<char>>) -> Seq<VView> {
    match value {
        Some(v) => if v != "1"@ {
            seq![vv("config_version"@, "\"1\""@, "string "@ + debug_text(v))]
        } else {
            Seq::empty()
        },
        None => Seq::empty(),
    }
}

fn validate_config_version(value: Option<&str>, out: &mut Vec<Violation>)
    ensures
        vviews(final(out)@) == vviews(old(out)@) + version_violations(
            match value {
                Some(v) => Some(v@),
                None => None,
            },
        ),
{
    let ghost before = vviews(out@);
    if let Some(v) = value {
        if !str_eq(v, "1") {
            let actual = String::from_str("string ").concat(debug_quoted(v).as_str());
            out.push(violation(String::from_str("config_version"), String::from_str("\"1\""), actual));
            assert(vviews(out@) =~= before + version_violations(Some(v@)));
            return;
        }
    }
    assert(vviews(out@) =~= before + Seq::<VView>::empty());
}

/// The violation for a route script, given the extension its file name has
/// (`Path::extension`): `.js`, `.mjs` and `.cjs` are accepted, `.py` is
/// refused with the real reason, anything else asks for `.js`.
pub open spec fn extension_violations(script: Seq<char>, prefix: Seq<char>, ext: Option<Seq<char>>) -> Seq<VView> {
    let field = prefix + ".script"@;
    match ext {
        None => seq![vv(field, "file name ending in .js"@, script)],
        Some(e) => if e == "py"@ {
            seq![vv(field, "JavaScript file (the Python runtime is not supported in this slice)"@, script)]
        } else if e == "js"@ || e == "mjs"@ || e == "cjs"@ {
            Seq::empty()
        } else {
            seq![vv(field, "file name ending in .js, not ."@ + e, script)]
        },
    }
}

pub fn check_script_extension(script: &str, prefix: &str, ext: Option<&str>, out: &mut Vec<Violation>)
    ensures
        vviews(final(out)@) == vviews(old(out)@) + extension_violations(
            script@,
            prefix@,
            match ext {
                Some(e) => Some(e@),
                None => None,
            },
        ),
{
    let ghost before = vviews(out@);
    let field = String::from_str(prefix).concat(".script");
    match ext {
        None => {
            out.push(violation(field, String::from_str("file name ending in .js"), String::from_str(script)));
        },
        Some(e) => {
            if str_eq(e, "py") {
                out.push(violation(
                    field,
                    String::from_str("JavaScript file (the Python runtime is not supported in this slice)"),
                    String::from_str(script),
                ));
            } else if str_eq(e, "js") || str_eq(e, "mjs") || str_eq(e, "cjs") {
            } else {
                out.push(violation(
                    field,
                    String::from_str("file name ending in .js, not .").concat(e),
                    String::from_str(script),
                ));
            }
        },
    }
    assert(vviews(out@) =~= before + extension_violations(
        script@,
        prefix@,
        match ext {
            Some(e) => Some(e@),
            None => None,
        },
    ));
}

/// A `/`-separated path that reads the same on every platform: not empty,
/// no `\\` and no `:` (so no Windows prefix or separator), not starting with
/// `//` (which Windows reads as a share), not ending with `/`, and a last
/// piece that is neither `.` nor `..`.
pub open spec fn plain_path(p: Seq<char>) -> bool {
    &&& p.len() > 0
    &&& !p.contains('\\')
    &&& !p.contains(':')
    &&& !(p.len() >= 2 && p[0] == '/' && p[1] == '/')
    &&& p.last() != '/'
    &&& nonempty_pieces(p, '/').last() != "."@
    &&& nonempty_pieces(p, '/').last() != ".."@
}

/// The index of the last `.` in a name.
pub open spec fn last_dot(name: Seq<char>) -> Option<int>
    decreases name.len(),
{
    if name.len() == 0 {
        None
    } else if name.last() == '.' {
        Some(name.len() - 1)
    } else {
        last_dot(name.drop_last())
    }
}

/// The extension of a file name as `Path::extension` documents it: the
/// part after the last `.`, none when there is no `.` or the only one
/// starts the name.
pub open spec fn name_extension(name: Seq<char>) -> Option<Seq<char>> {
    match last_dot(name) {
        None => None,
        Some(j) => if j == 0 {
            None
        } else {
            Some(name.subrange(j + 1, name.len() as int))
        },
    }
}

/// The extension of a plain path: that of its last piece, the file name.
pub open spec fn plain_extension(p: Seq<char>) -> Option<Seq<char>> {
    name_extension(nonempty_pieces(p, '/').last())
}

/// The text of an optional string.
pub open spec fn opt_text(o: Option<String>) -> Option<Seq<char>> {
    match o {
        Some(s) => Some(s@),
        None => None,
    }
}

/// `s` ends with `suffix`.
pub open spec fn ends_with(s: Seq<char>, suffix: Seq<char>) -> bool {
    suffix.len() <= s.len() && s.subrange(s.len() - suffix.len(), s.len() as int) == suffix
}

/// `Path::extension` of a script file name. Which part counts as the
/// extension follows the target platform's path rules; for a plain path the
/// documented rule is the same everywhere and is stated, for any other path
/// nothing is said.
#[verifier::external_body]
fn path_extension(p: &str) -> (r: Option<String>)
    ensures
        plain_path(p@) ==> opt_text(r) == plain_extension(p@),
{
    std::path::Path::new(p).extension().and_then(|e| e.to_str()).map(str::to_string)
}

/// `Path::is_absolute`; platform-dependent, so the result is not stated.
#[verifier::external_body]
fn path_is_absolute(p: &str) -> bool {
    std::path::Path::new(p).is_absolute()
}

/// `Path::parent`: the path without its final component, a part of the
/// path as written, so a path with no `\\` has a parent with none. Which
/// component is final follows the platform's rules; nothing more is stated.
#[verifier::external_body]
fn path_parent(p: &str) -> (r: Option<String>)
    ensures
        !p@.contains('\\') ==> (r matches Some(q) ==> !q@.contains('\\')),
{
    std::path::Path::new(p).parent().map(|q| q.to_string_lossy().into_owned())
}

/// `Path::join`, rendered as text. `PathBuf::push` either replaces the base
/// with `p`, keeps only the base's prefix before `p`, or appends `p` after a
/// separator; `p` is rewritten only when the base has a verbatim Windows
/// prefix, which needs a `\\`. So without one in the base the result ends
/// with `p`; nothing more is stated.
#[verifier::external_body]
fn path_join(base: &str, p: &str) -> (r: String)
    ensures
        !base@.contains('\\') ==> ends_with(r@, p@),
{
    std::path::Path::new(base).join(p).to_string_lossy().into_owned()
}

/// A configured path: absolute paths stand as written, relative ones are
/// taken from the configuration file's directory. Which paths are absolute,
/// what a file's directory is and how paths join follow the target
/// platform's path rules; what holds on every platform is stated: the
/// result ends with the path as written, when the configuration file's path
/// has no `\\`.
fn resolve_against(config_path: &str, raw: &str) -> (r: String)
    ensures
        !config_path@.contains('\\') ==> ends_with(r@, raw@),
{
    if path_is_absolute(raw) {
        let r = String::from_str(raw);
        proof {
            assert(r@.subrange(r@.len() - raw@.len(), r@.len() as int) =~= raw@);
        }
        return r;
    }
    let base = match path_parent(config_path) {
        Some(parent) => parent,
        None => {
            let dot = String::from_str(".");
            proof {
                reveal_strlit(".");
                assert(dot@ =~= seq!['.']);
            }
            dot
        },
    };
    path_join(base.as_str(), raw)
}

pub const DEFAULT_BIND: &'static str = "127.0.0.1";
pub const DEFAULT_PORT: u16 = 3000;
/// Generous by default: 30 s also bounds a 20 MiB upload to about 5.3 Mbit/s.
pub const DEFAULT_REQUEST_TIMEOUT_MS: u64 = 30000;
pub const DEFAULT_SCRIPT_TIMEOUT_MS: u64 = 10000;
pub const DEFAULT_UPLOAD_MAX_BYTES: u64 = 20971520;
pub const DEFAULT_UPSTREAM_TIMEOUT_MS: u64 = 15000;

/// The `[server]` section: listening address and request deadline.
pub open spec fn server_spec(root: Seq<(String, TomlValue)>, is_ip: bool) -> ((Seq<char>, u16, u64), Seq<VView>) {
    let defaults = ("127.0.0.1"@, 3000u16, 30000u64);
    match entry(root, "server"@) {
        None => (defaults, seq![vv("server"@, "table"@, "missing"@)]),
        Some(TomlValue::Table(t)) => {
            let bind = opt_bind_spec(entry(t@, "bind"@), "server.bind"@, is_ip);
            let port = opt_port_spec(entry(t@, "port"@), "server.port"@);
            let timeout = opt_positive_spec(
                entry(t@, "request_timeout_ms"@),
                "server.request_timeout_ms"@,
                "integer number of milliseconds greater than 0"@,
                "integer number of milliseconds"@,
            );
            (
                (
                    match bind.0 { Some(b) => b, None => defaults.0 },
                    match port.0 { Some(p) => p, None => defaults.1 },
                    match timeout.0 { Some(t) => t, None => defaults.2 },
                ),
                unknown_key_violations(
                    keys_view(t@),
                    seq!["bind"@, "port"@, "request_timeout_ms"@],
                    "server"@,
                ) + bind.1 + port.1 + timeout.1,
            )
        },
        Some(other) => (defaults, seq![vv("server"@, "table"@, describe_spec(other))]),
    }
}

/// A port written in `[server]` as an integer in `[1, 65535]` is the port
/// the configuration serves on; the default applies only when none is given.
pub proof fn configured_port_is_kept(root: Seq<(String, TomlValue)>, is_ip: bool, p: i64)
    requires
        entry(root, "server"@) matches Some(TomlValue::Table(t)) && entry(t@, "port"@) == Some(
            TomlValue::Integer(p),
        ),
        1 <= p <= 65535,
    ensures
        server_spec(root, is_ip).0.1 as int == p,
{
}

/// Without a `port` entry the server listens on port 3000.
pub proof fn absent_port_defaults(root: Seq<(String, TomlValue)>, is_ip: bool)
    requires
        entry(root, "server"@) matches Some(TomlValue::Table(t)) && entry(t@, "port"@) is None,
    ensures
        server_spec(root, is_ip).0.1 == 3000,
{
}

fn defaults_server() -> (r: ServerConfig)
    ensures
        r.bind@ == "127.0.0.1"@,
        r.port == 3000,
        r.request_timeout_ms == 30000,
{
    ServerConfig {
        bind: String::from_str(DEFAULT_BIND),
        port: DEFAULT_PORT,
        request_timeout_ms: DEFAULT_REQUEST_TIMEOUT_MS,
    }
}

fn parse_server(root: &Vec<(String, TomlValue)>, is_ip: bool, out: &mut Vec<Violation>) -> (r: ServerConfig)
    ensures
        ({
            let s = server_spec(root@, is_ip);
            &&& vviews(final(out)@) == vviews(old(out)@) + s.1
            &&& (r.bind@, r.port, r.request_timeout_ms) == s.0
        }),
{
    let ghost before = vviews(out@);
    match table_get(root, "server") {
        None => {
            out.push(missing("server", "table"));
            assert(vviews(out@) =~= before + seq![vv("server"@, "table"@, "missing"@)]);
            defaults_server()
        },
        Some(TomlValue::Table(t)) => {
            let allowed: [&str; 3] = ["bind", "port", "request_timeout_ms"];
            assert(strs_view(allowed@) =~= seq!["bind"@, "port"@, "request_timeout_ms"@]);
            reject_unknown(t, &allowed, "server", out);
            let bind = opt_bind(t, "server.bind", is_ip, out);
            let port = opt_port(t, "server.port", out);
            let timeout = opt_duration_ms(t, "request_timeout_ms", "server.request_timeout_ms", out);
            let d = defaults_server();
            let r = ServerConfig {
                bind: match bind { Some(b) => b, None => d.bind },
                port: match port { Some(p) => p, None => d.port },
                request_timeout_ms: match timeout { Some(t) => t, None => d.request_timeout_ms },
            };
            assert(vviews(out@) =~= before + server_spec(root@, is_ip).1);
            r
        },
        Some(other) => {
            out.push(bad("server", "table", other));
            assert(vviews(out@) =~= before + seq![vv("server"@, "table"@, describe_spec(*other))]);
            defaults_server()
        },
    }
}

/// The `[sandbox]` section: optional; an absent table keeps every default.
pub open spec fn sandbox_spec(root: Seq<(String, TomlValue)>) -> (u64, Seq<VView>) {
    match entry(root, "sandbox"@) {
        None => (10000u64, Seq::empty()),
        Some(TomlValue::Table(t)) => {
            let timeout = opt_positive_spec(
                entry(t@, "script_timeout_ms"@),
                "sandbox.script_timeout_ms"@,
                "integer number of milliseconds greater than 0"@,
                "integer number of milliseconds"@,
            );
            (
                match timeout.0 { Some(v) => v, None => 10000u64 },
                unknown_key_violations(keys_view(t@), seq!["script_timeout_ms"@], "sandbox"@) + timeout.1,
            )
        },
        Some(other) => (10000u64, seq![vv("sandbox"@, "table"@, describe_spec(other))]),
    }
}

fn parse_sandbox(root: &Vec<(String, TomlValue)>, out: &mut Vec<Violation>) -> (r: SandboxConfig)
    ensures
        ({
            let s = sandbox_spec(root@);
            &&& vviews(final(out)@) == vviews(old(out)@) + s.1
            &&& r.script_timeout_ms == s.0
        }),
{
    let ghost before = vviews(out@);
    match table_get(root, "sandbox") {
        None => {
            assert(vviews(out@) =~= before + Seq::<VView>::empty());
            SandboxConfig { script_timeout_ms: DEFAULT_SCRIPT_TIMEOUT_MS }
        },
        Some(TomlValue::Table(t)) => {
            let allowed: [&str; 1] = ["script_timeout_ms"];
            assert(strs_view(allowed@) =~= seq!["script_timeout_ms"@]);
            reject_unknown(t, &allowed, "sandbox", out);
            let timeout = opt_duration_ms(t, "script_timeout_ms", "sandbox.script_timeout_ms", out);
            assert(vviews(out@) =~= before + sandbox_spec(root@).1);
            SandboxConfig {
                script_timeout_ms: match timeout { Some(v) => v, None => DEFAULT_SCRIPT_TIMEOUT_MS },
            }
        },
        Some(other) => {
            out.push(bad("sandbox", "table", other));
            assert(vviews(out@) =~= before + seq![vv("sandbox"@, "table"@, describe_spec(*other))]);
            SandboxConfig { script_timeout_ms: DEFAULT_SCRIPT_TIMEOUT_MS }
        },
    }
}

/// The `[upstream]` section: optional; absent fields keep safe defaults, and
/// an absent allowlist denies every host.
pub open spec fn upstream_spec(root: Seq<(String, TomlValue)>) -> ((Seq<Seq<char>>, u64), Seq<VView>) {
    match entry(root, "upstream"@) {
        None => ((Seq::empty(), 15000u64), Seq::empty()),
        Some(TomlValue::Table(t)) => {
            let hosts = opt_host_list_spec(entry(t@, "allow_hosts"@), "upstream.allow_hosts"@);
            let timeout = opt_positive_spec(
                entry(t@, "timeout_ms"@),
                "upstream.timeout_ms"@,
                "integer number of milliseconds greater than 0"@,
                "integer number of milliseconds"@,
            );
            (
                (
                    match hosts.0 { Some(h) => h, None => Seq::empty() },
                    match timeout.0 { Some(v) => v, None => 15000u64 },
                ),
                unknown_key_violations(keys_view(t@), seq!["allow_hosts"@, "timeout_ms"@], "upstream"@)
                    + hosts.1 + timeout.1,
            )
        },
        Some(other) => ((Seq::empty(), 15000u64), seq![vv("upstream"@, "table"@, describe_spec(other))]),
    }
}

fn parse_upstream(root: &Vec<(String, TomlValue)>, out: &mut Vec<Violation>) -> (r: UpstreamConfig)
    ensures
        ({
            let s = upstream_spec(root@);
            &&& vviews(final(out)@) == vviews(old(out)@) + s.1
            &&& (strings_view(r.allow_hosts@), r.timeout_ms) == s.0
        }),
{
    let ghost before = vviews(out@);
    match table_get(root, "upstream") {
        None => {
            let r = UpstreamConfig { allow_hosts: Vec::new(), timeout_ms: DEFAULT_UPSTREAM_TIMEOUT_MS };
            assert(strings_view(r.allow_hosts@) =~= Seq::<Seq<char>>::empty());
            assert(vviews(out@) =~= before + Seq::<VView>::empty());
            r
        },
        Some(TomlValue::Table(t)) => {
            let allowed: [&str; 2] = ["allow_hosts", "timeout_ms"];
            assert(strs_view(allowed@) =~= seq!["allow_hosts"@, "timeout_ms"@]);
            reject_unknown(t, &allowed, "upstream", out);
            let hosts = opt_host_list(t, "upstream.allow_hosts", out);
            let timeout = opt_duration_ms(t, "timeout_ms", "upstream.timeout_ms", out);
            assert(vviews(out@) =~= before + upstream_spec(root@).1);
            let allow_hosts = match hosts {
                Some(h) => h,
                None => {
                    let e: Vec<String> = Vec::new();
                    assert(strings_view(e@) =~= Seq::<Seq<char>>::empty());
                    e
                },
            };
            UpstreamConfig {
                allow_hosts,
                timeout_ms: match timeout { Some(v) => v, None => DEFAULT_UPSTREAM_TIMEOUT_MS },
            }
        },
        Some(other) => {
            out.push(bad("upstream", "table", other));
            assert(vviews(out@) =~= before + seq![vv("upstream"@, "table"@, describe_spec(*other))]);
            let r = UpstreamConfig { allow_hosts: Vec::new(), timeout_ms: DEFAULT_UPSTREAM_TIMEOUT_MS };
            assert(strings_view(r.allow_hosts@) =~= Seq::<Seq<char>>::empty());
            r
        },
    }
}


/// The `[files]` section: the static root (required, resolved against the
/// configuration file's directory) and the upload cap.
pub open spec fn files_violations(root: Seq<(String, TomlValue)>) -> Seq<VView> {
    match entry(root, "files"@) {
        None => seq![vv("files"@, "table"@, "missing"@)],
        Some(TomlValue::Table(t)) => unknown_key_violations(
            keys_view(t@),
            seq!["root"@, "upload_max_bytes"@],
            "files"@,
        ) + req_string_spec(entry(t@, "root"@), "files.root"@).1 + opt_positive_spec(
            entry(t@, "upload_max_bytes"@),
            "files.upload_max_bytes"@,
            "integer number of bytes greater than 0"@,
            "integer number of bytes"@,
        ).1,
        Some(other) => seq![vv("files"@, "table"@, describe_spec(other))],
    }
}

/// Whether `[files]` names a root, and the upload cap it sets.
pub open spec fn files_values(root: Seq<(String, TomlValue)>) -> (bool, u64) {
    match entry(root, "files"@) {
        Some(TomlValue::Table(t)) => (
            req_string_spec(entry(t@, "root"@), "files.root"@).0 is Some,
            match opt_positive_spec(
                entry(t@, "upload_max_bytes"@),
                "files.upload_max_bytes"@,
                "integer number of bytes greater than 0"@,
                "integer number of bytes"@,
            ).0 {
                Some(v) => v,
                None => 20971520u64,
            },
        ),
        _ => (false, 20971520u64),
    }
}

/// The `files.root` string as written, when it reads as one.
pub open spec fn files_root_text(root: Seq<(String, TomlValue)>) -> Option<Seq<char>> {
    match entry(root, "files"@) {
        Some(TomlValue::Table(t)) => req_string_spec(entry(t@, "root"@), "files.root"@).0,
        _ => None,
    }
}

/// A resolved path ends with the path as written, when the configuration
/// file's path has no `\\` (see `resolve_against`).
pub open spec fn resolved_from(resolved: Seq<char>, raw: Seq<char>, config_path: Seq<char>) -> bool {
    !config_path.contains('\\') ==> ends_with(resolved, raw)
}

fn parse_files(root: &Vec<(String, TomlValue)>, config_path: &str, out: &mut Vec<Violation>) -> (r: (
    Option<String>,
    u64,
))
    ensures
        vviews(final(out)@) == vviews(old(out)@) + files_violations(root@),
        (r.0 is Some, r.1) == files_values(root@),
        r.0 matches Some(d) ==> (files_root_text(root@) matches Some(raw) && resolved_from(d@, raw, config_path@)),
{
    let ghost before = vviews(out@);
    match table_get(root, "files") {
        None => {
            out.push(missing("files", "table"));
            assert(vviews(out@) =~= before + files_violations(root@));
            (None, DEFAULT_UPLOAD_MAX_BYTES)
        },
        Some(TomlValue::Table(t)) => {
            let allowed: [&str; 2] = ["root", "upload_max_bytes"];
            assert(strs_view(allowed@) =~= seq!["root"@, "upload_max_bytes"@]);
            reject_unknown(t, &allowed, "files", out);
            let raw = req_string(t, "root", "files.root", out);
            let root_dir = match raw {
                Some(raw) => Some(resolve_against(config_path, raw.as_str())),
                None => None,
            };
            let upload = opt_positive_bytes(t, "upload_max_bytes", "files.upload_max_bytes", out);
            assert(vviews(out@) =~= before + files_violations(root@));
            (root_dir, match upload { Some(v) => v, None => DEFAULT_UPLOAD_MAX_BYTES })
        },
        Some(other) => {
            out.push(bad("files", "table", other));
            assert(vviews(out@) =~= before + files_violations(root@));
            (None, DEFAULT_UPLOAD_MAX_BYTES)
        },
    }
}

/// A route the server can serve: a declarable method and an absolute path.
pub open spec fn route_ok(r: Route) -> bool {
    is_http_method(r.method@) && r.path@.len() > 0 && r.path@[0] == '/'
}

/// The route read from one route table that raised no violation, in a
/// configuration file at `config_path`: method upper-cased, path and name as
/// written, and a script path that ends with the script as written (when
/// the configuration path has no `\\`; see `resolve_against`).
pub open spec fn route_from_table(r: Route, t: Seq<(String, TomlValue)>, config_path: Seq<char>) -> bool {
    &&& entry(t, "method"@) matches Some(TomlValue::Str(m)) && r.method@ == upper_seq(m@)
    &&& entry(t, "path"@) matches Some(TomlValue::Str(p)) && r.path@ == p@
    &&& match r.name {
        Some(n) => entry(t, "name"@) matches Some(TomlValue::Str(v)) && n@ == v@,
        None => entry(t, "name"@) is None,
    }
    &&& entry(t, "script"@) matches Some(TomlValue::Str(sc)) && (!config_path.contains('\\') ==> ends_with(
        r.script@,
        sc@,
    ))
}

/// The extension recorded for a route table's script agrees with the
/// documented rule whenever the script is a plain path.
pub open spec fn route_ext_fits(t: Seq<(String, TomlValue)>, ext: Option<Seq<char>>) -> bool {
    entry(t, "script"@) matches Some(TomlValue::Str(sc)) ==> (plain_path(sc@) ==> ext == plain_extension(sc@))
}

/// The extensions recorded for the first `exts.len()` items agree with
/// their scripts.
#[verifier::opaque]
pub open spec fn items_exts_fit(items: Seq<TomlValue>, exts: Seq<Option<Seq<char>>>) -> bool {
    forall|k: int|
        0 <= k < exts.len() && k < items.len() ==> (#[trigger] items[k] matches TomlValue::Table(rt)
            ==> route_ext_fits(rt@, exts[k]))
}

/// The extensions recorded for the `routes` items, one per item, agree with
/// their scripts.
pub open spec fn exts_fit(root: Seq<(String, TomlValue)>, exts: Seq<Option<Seq<char>>>) -> bool {
    entry(root, "routes"@) matches Some(TomlValue::Array(items)) ==> exts.len() == items@.len()
        && items_exts_fit(items@, exts)
}

proof fn lemma_exts_fit_push(items: Seq<TomlValue>, exts: Seq<Option<Seq<char>>>, e: Option<Seq<char>>)
    requires
        items_exts_fit(items, exts),
        exts.len() < items.len(),
        items[exts.len() as int] matches TomlValue::Table(rt) ==> route_ext_fits(rt@, e),
    ensures
        items_exts_fit(items, exts.push(e)),
{
    reveal(items_exts_fit);
    assert forall|k: int| 0 <= k < exts.len() + 1 && k < items.len() implies (#[trigger] items[k] matches TomlValue::Table(rt)
        ==> route_ext_fits(rt@, exts.push(e)[k])) by {
        if k < exts.len() {
            assert(exts.push(e)[k] == exts[k]);
        }
    }
}

proof fn lemma_exts_fit_empty(items: Seq<TomlValue>)
    ensures
        items_exts_fit(items, Seq::empty()),
{
    reveal(items_exts_fit);
}

/// The string a field yields, or the empty string when it yields none.
pub open spec fn or_empty(v: Option<Seq<char>>) -> Seq<char> {
    match v {
        Some(s) => s,
        None => Seq::empty(),
    }
}

/// The violations of one route table at `prefix`, in report order, given the
/// extension the script's file name has: unknown keys, the `name`,
/// `method`, `path` and `script` fields, an undeclarable method, a relative
/// path, and the script's extension.
pub open spec fn route_violations(t: Seq<(String, TomlValue)>, prefix: Seq<char>, ext: Option<Seq<char>>) -> Seq<VView> {
    let name = opt_string_spec(entry(t, "name"@), prefix + ".name"@);
    let method = req_string_spec(entry(t, "method"@), prefix + ".method"@);
    let path = req_string_spec(entry(t, "path"@), prefix + ".path"@);
    let script = req_string_spec(entry(t, "script"@), prefix + ".script"@);
    let m = or_empty(method.0);
    let p = or_empty(path.0);
    unknown_key_violations(keys_view(t), seq!["name"@, "method"@, "path"@, "script"@], prefix) + name.1 + method.1
        + path.1 + script.1 + (if is_http_method(upper_seq(m)) {
        Seq::empty()
    } else {
        seq![vv(prefix + ".method"@, "one of GET, POST, PUT, DELETE, PATCH, HEAD, OPTIONS"@, m)]
    }) + (if p.len() > 0 && p[0] == '/' {
        Seq::empty()
    } else {
        seq![vv(prefix + ".path"@, "absolute path starting with /"@, p)]
    }) + extension_violations(or_empty(script.0), prefix, ext)
}

/// The violations of one `routes` item at `prefix`.
pub open spec fn item_violations(item: TomlValue, prefix: Seq<char>, ext: Option<Seq<char>>) -> Seq<VView> {
    match item {
        TomlValue::Table(t) => route_violations(t@, prefix, ext),
        other => seq![vv(prefix, "table"@, describe_spec(other))],
    }
}

/// The violations of the `routes` items in order, item `k` with extension
/// `exts[k]`.
pub open spec fn items_violations(items: Seq<TomlValue>, exts: Seq<Option<Seq<char>>>) -> Seq<VView>
    decreases items.len(),
{
    if items.len() == 0 {
        Seq::empty()
    } else {
        items_violations(items.drop_last(), exts.drop_last()) + item_violations(
            items.last(),
            indexed("routes"@, (items.len() - 1) as nat),
            exts.last(),
        )
    }
}

/// The violations of the `routes` part, given the extension of each route's
/// script file name (`Path::extension`, which follows the platform's rules).
pub open spec fn routes_violations(root: Seq<(String, TomlValue)>, exts: Seq<Option<Seq<char>>>) -> Seq<VView> {
    match entry(root, "routes"@) {
        None => seq![vv("routes"@, "array of route tables"@, "missing"@)],
        Some(TomlValue::Array(items)) => (if items@.len() == 0 {
            seq![vv("routes"@, "at least one route table"@, "array of 0"@)]
        } else {
            Seq::empty()
        }) + items_violations(items@, exts),
        Some(other) => seq![vv("routes"@, "array of route tables"@, describe_spec(other))],
    }
}

proof fn lemma_items_step(items: Seq<TomlValue>, exts: Seq<Option<Seq<char>>>, i: int, e: Option<Seq<char>>)
    requires
        0 <= i < items.len(),
        exts.len() == i,
    ensures
        items_violations(items.take(i + 1), exts.push(e)) == items_violations(items.take(i), exts)
            + item_violations(items[i], indexed("routes"@, i as nat), e),
{
    assert(items.take(i + 1).drop_last() =~= items.take(i));
    assert(items.take(i + 1).last() == items[i]);
    assert(exts.push(e).drop_last() =~= exts);
}

/// The violations of a route's own fields: unknown keys, then `name`,
/// `method`, `path` and `script`.
pub open spec fn route_field_violations(t: Seq<(String, TomlValue)>, prefix: Seq<char>) -> Seq<VView> {
    unknown_key_violations(keys_view(t), seq!["name"@, "method"@, "path"@, "script"@], prefix)
        + opt_string_spec(entry(t, "name"@), prefix + ".name"@).1
        + req_string_spec(entry(t, "method"@), prefix + ".method"@).1
        + req_string_spec(entry(t, "path"@), prefix + ".path"@).1
        + req_string_spec(entry(t, "script"@), prefix + ".script"@).1
}

/// The violations of a route's values: an undeclarable method, a relative
/// path, and the script's extension.
pub open spec fn route_value_violations(
    method: Seq<char>,
    path: Seq<char>,
    script: Seq<char>,
    prefix: Seq<char>,
    ext: Option<Seq<char>>,
) -> Seq<VView> {
    (if is_http_method(upper_seq(method)) {
        Seq::empty()
    } else {
        seq![vv(prefix + ".method"@, "one of GET, POST, PUT, DELETE, PATCH, HEAD, OPTIONS"@, method)]
    }) + (if path.len() > 0 && path[0] == '/' {
        Seq::empty()
    } else {
        seq![vv(prefix + ".path"@, "absolute path starting with /"@, path)]
    }) + extension_violations(script, prefix, ext)
}

/// A route table's fields: `name`, and `method`, `path` and `script` (empty
/// when they yield nothing).
fn route_fields(table: &Vec<(String, TomlValue)>, prefix: &str, out: &mut Vec<Violation>) -> (r: (
    Option<String>,
    String,
    String,
    String,
))
    ensures
        vviews(final(out)@) == vviews(old(out)@) + route_field_violations(table@, prefix@),
        match r.0 {
            Some(n) => opt_string_spec(entry(table@, "name"@), prefix@ + ".name"@).0 == Some(n@),
            None => opt_string_spec(entry(table@, "name"@), prefix@ + ".name"@).0 is None,
        },
        r.1@ == or_empty(req_string_spec(entry(table@, "method"@), prefix@ + ".method"@).0),
        r.2@ == or_empty(req_string_spec(entry(table@, "path"@), prefix@ + ".path"@).0),
        r.3@ == or_empty(req_string_spec(entry(table@, "script"@), prefix@ + ".script"@).0),
{
    let ghost s0 = vviews(out@);
    let allowed: [&str; 4] = ["name", "method", "path", "script"];
    assert(strs_view(allowed@) =~= seq!["name"@, "method"@, "path"@, "script"@]);
    reject_unknown(table, &allowed, prefix, out);
    let name = opt_string(table, "name", String::from_str(prefix).concat(".name").as_str(), out);
    let method = req_string(table, "method", String::from_str(prefix).concat(".method").as_str(), out);
    let path = req_string(table, "path", String::from_str(prefix).concat(".path").as_str(), out);
    let script = req_string(table, "script", String::from_str(prefix).concat(".script").as_str(), out);
    assert(vviews(out@) =~= s0 + route_field_violations(table@, prefix@));
    let method = match method { Some(m) => m, None => String::new() };
    let path = match path { Some(p) => p, None => String::new() };
    let script = match script { Some(s) => s, None => String::new() };
    (name, method, path, script)
}

/// The method a route is served under (upper-cased), after the checks of
/// its values; the extension of the script's file name comes alongside.
fn route_checks(
    method: &str,
    path: &str,
    script: &str,
    prefix: &str,
    out: &mut Vec<Violation>,
) -> (r: (String, Ghost<Option<Seq<char>>>))
    ensures
        vviews(final(out)@) == vviews(old(out)@) + route_value_violations(method@, path@, script@, prefix@, r.1@),
        r.0@ == upper_seq(method@),
        plain_path(script@) ==> r.1@ == plain_extension(script@),
{
    let ghost s0 = vviews(out@);
    let upper = match normalize_method(method) {
        Some(m) => m,
        None => {
            out.push(violation(
                String::from_str(prefix).concat(".method"),
                String::from_str("one of GET, POST, PUT, DELETE, PATCH, HEAD, OPTIONS"),
                String::from_str(method),
            ));
            to_ascii_upper(method)
        },
    };
    let ghost s1 = vviews(out@);
    let path_chars = chars_of(path);
    if !(path_chars.len() > 0 && path_chars[0] == '/') {
        out.push(violation(
            String::from_str(prefix).concat(".path"),
            String::from_str("absolute path starting with /"),
            String::from_str(path),
        ));
    }
    let ghost s2 = vviews(out@);
    let ext = path_extension(script);
    let ext_ref = match &ext {
        Some(e) => Some(e.as_str()),
        None => None,
    };
    check_script_extension(script, prefix, ext_ref, out);
    let ghost e: Option<Seq<char>> = match ext_ref {
        Some(x) => Some(x@),
        None => None,
    };
    assert(vviews(out@) =~= s0 + route_value_violations(method@, path@, script@, prefix@, e));
    (upper, Ghost(e))
}

/// One route table at `prefix`: its route, and the extension its script's
/// file name has.
fn parse_route(
    table: &Vec<(String, TomlValue)>,
    prefix: &str,
    config_path: &str,
    out: &mut Vec<Violation>,
) -> (r: (Route, Ghost<Option<Seq<char>>>))
    ensures
        vviews(final(out)@) == vviews(old(out)@) + route_violations(table@, prefix@, r.1@),
        route_violations(table@, prefix@, r.1@).len() == 0 ==> route_ok(r.0) && route_from_table(
            r.0,
            table@,
            config_path@,
        ),
        route_ext_fits(table@, r.1@),
{
    let ghost s0 = vviews(out@);
    let (name, method, path, script) = route_fields(table, prefix, out);
    let ghost s1 = vviews(out@);
    let (upper, Ghost(e)) = route_checks(method.as_str(), path.as_str(), script.as_str(), prefix, out);
    let script_path = resolve_against(config_path, script.as_str());
    let route = Route { name, method: upper, path, script: script_path };
    proof {
        let t = table@;
        assert(route_violations(t, prefix@, e) =~= route_field_violations(t, prefix@) + route_value_violations(
            method@,
            path@,
            script@,
            prefix@,
            e,
        ));
        assert(vviews(out@) =~= s0 + route_violations(t, prefix@, e));
    }
    (route, Ghost(e))
}

/// `routes`: a non-empty array of route tables. When this part raises no
/// violation, every item is a table and yields one servable route.
#[verifier::rlimit(60)]
fn parse_routes(root: &Vec<(String, TomlValue)>, config_path: &str, out: &mut Vec<Violation>) -> (r: Vec<Route>)
    ensures
        exists|exts: Seq<Option<Seq<char>>>|
            vviews(final(out)@) == vviews(old(out)@) + #[trigger] routes_violations(root@, exts) && exts_fit(
                root@,
                exts,
            ),
        vviews(final(out)@).len() == vviews(old(out)@).len() ==> routes_read(root@, r@, config_path@),
{
    let ghost before = vviews(out@);
    let items = match table_get(root, "routes") {
        None => {
            out.push(missing("routes", "array of route tables"));
            assert(vviews(out@) =~= before + routes_violations(root@, Seq::empty()));
            return Vec::new();
        },
        Some(TomlValue::Array(items)) => items,
        Some(other) => {
            out.push(bad("routes", "array of route tables", other));
            assert(vviews(out@) =~= before + routes_violations(root@, Seq::empty()));
            return Vec::new();
        },
    };
    if items.len() == 0 {
        out.push(violation(
            String::from_str("routes"),
            String::from_str("at least one route table"),
            String::from_str("array of 0"),
        ));
    }
    let ghost head = vviews(out@).skip(before.len() as int);
    assert(vviews(out@) =~= before + head);
    assert(items@.take(0) =~= Seq::<TomlValue>::empty());
    let ghost mut exts: Seq<Option<Seq<char>>> = Seq::empty();
    proof {
        lemma_exts_fit_empty(items@);
    }
    let mut routes: Vec<Route> = Vec::new();
    let mut idx: usize = 0;
    while idx < items.len()
        invariant
            idx <= items@.len(),
            entry(root@, "routes"@) == Some(TomlValue::Array(*items)),
            head == (if items@.len() == 0 {
                seq![vv("routes"@, "at least one route table"@, "array of 0"@)]
            } else {
                Seq::<VView>::empty()
            }),
            exts.len() == idx,
            vviews(out@) == before + head + items_violations(items@.take(idx as int), exts),
            vviews(out@).len() == before.len() ==> {
                &&& items@.len() > 0
                &&& routes@.len() == idx
                &&& forall|k: int|
                    0 <= k < idx ==> route_ok(#[trigger] routes@[k]) && (items@[k] matches TomlValue::Table(t)
                        && route_from_table(routes@[k], t@, config_path@))
            },
            items_exts_fit(items@, exts),
        decreases items@.len() - idx,
    {
        let ghost at_start = vviews(out@);
        let prefix = String::from_str("routes[").concat(u64_decimal(idx as u64).as_str()).concat("]");
        proof {
            reveal_strlit("routes[");
            reveal_strlit("routes");
            reveal_strlit("[");
            reveal_strlit("]");
            assert("routes["@ =~= "routes"@ + "["@);
        }
        assert(prefix@ == indexed("routes"@, idx as nat));
        match &items[idx] {
            TomlValue::Table(t) => {
                let (route, Ghost(e)) = parse_route(t, prefix.as_str(), config_path, out);
                routes.push(route);
                proof {
                    if vviews(out@).len() == before.len() {
                        assert(at_start.len() == before.len());
                        assert(route_violations(t@, prefix@, e).len() == 0);
                        assert(routes@[idx as int] == route);
                    }
                    lemma_items_step(items@, exts, idx as int, e);
                    assert(vviews(out@) =~= before + head + items_violations(items@.take(idx + 1), exts.push(e)));
                    lemma_exts_fit_push(items@, exts, e);
                    exts = exts.push(e);
                }
            },
            other => {
                out.push(bad(prefix.as_str(), "table", other));
                proof {
                    let e: Option<Seq<char>> = None;
                    assert(items@[idx as int] == *other);
                    assert(item_violations(*other, prefix@, e) == seq![vv(prefix@, "table"@, describe_spec(*other))]);
                    assert(vviews(out@) =~= at_start + seq![vv(prefix@, "table"@, describe_spec(*other))]);
                    lemma_items_step(items@, exts, idx as int, e);
                    assert(vviews(out@) =~= before + head + items_violations(items@.take(idx + 1), exts.push(e)));
                    lemma_exts_fit_push(items@, exts, e);
                    exts = exts.push(e);
                }
            },
        }
        idx = idx + 1;
    }
    assert(items@.take(idx as int) =~= items@);
    assert(vviews(out@) =~= before + routes_violations(root@, exts));
    proof {
        if vviews(out@).len() == before.len() {
            assert(entry(root@, "routes"@) == Some(TomlValue::Array(*items)));
            assert(items@.len() > 0);
            assert(routes@.len() == items@.len());
            assert(routes_read(root@, routes@, config_path@));
        }
    }
    routes
}


/// A validated configuration: version `"1"`, a non-empty bind address,
/// positive deadlines and caps, and at least one servable route.
pub open spec fn config_valid(c: Config) -> bool {
    &&& c.config_version@ == "1"@
    &&& c.server.bind@.len() > 0
    &&& c.server.port >= 1
    &&& c.server.request_timeout_ms > 0
    &&& c.sandbox.script_timeout_ms > 0
    &&& c.upstream.timeout_ms > 0
    &&& c.files.upload_max_bytes > 0
    &&& c.routes@.len() > 0
    &&& forall|k: int| 0 <= k < c.routes@.len() ==> route_ok(#[trigger] c.routes@[k])
}

/// Everything read from one document before the static root is looked at.
pub struct Draft {
    pub config_version: Option<String>,
    pub server: ServerConfig,
    pub files_root: Option<String>,
    pub upload_max_bytes: u64,
    pub sandbox: SandboxConfig,
    pub upstream: UpstreamConfig,
    pub routes: Vec<Route>,
    pub violations: Vec<Violation>,
}

impl Draft {
    /// A draft without violations holds every required value, valid.
    pub open spec fn ready(&self) -> bool {
        self.violations@.len() == 0 ==> {
            &&& self.config_version matches Some(v) && v@ == "1"@
            &&& self.files_root is Some
            &&& self.server.bind@.len() > 0
            &&& self.server.port >= 1
            &&& self.server.request_timeout_ms > 0
            &&& self.sandbox.script_timeout_ms > 0
            &&& self.upstream.timeout_ms > 0
            &&& self.upload_max_bytes > 0
            &&& self.routes@.len() > 0
            &&& forall|k: int| 0 <= k < self.routes@.len() ==> route_ok(#[trigger] self.routes@[k])
        }
    }
}

/// The outcome of reading one parsed document.
pub enum DocumentCheck {
    /// The document is not a table at all.
    Rejected(ConfigError),
    /// Every section was read; violations, if any, are listed in the draft.
    Checked(Draft),
}

impl DocumentCheck {
    pub open spec fn ready(&self) -> bool {
        match self {
            DocumentCheck::Rejected(_) => true,
            DocumentCheck::Checked(d) => d.ready(),
        }
    }
}

/// The `routes` part of a document that raised no violation: a non-empty
/// array of route tables, read one route per table, in order.
pub open spec fn routes_read(t: Seq<(String, TomlValue)>, routes: Seq<Route>, config_path: Seq<char>) -> bool {
    &&& entry(t, "routes"@) matches Some(TomlValue::Array(items))
    &&& items@.len() > 0
    &&& routes.len() == items@.len()
    &&& forall|k: int|
        0 <= k < routes.len() ==> route_ok(#[trigger] routes[k]) && (items@[k] matches TomlValue::Table(rt)
            && route_from_table(routes[k], rt@, config_path))
}

/// The violations of every section but `routes`, in report order.
pub open spec fn section_violations(root: Seq<(String, TomlValue)>, bind_is_ip: bool) -> Seq<VView> {
    let version = req_string_spec(entry(root, "config_version"@), "config_version"@);
    unknown_key_violations(
        keys_view(root),
        seq!["config_version"@, "server"@, "files"@, "sandbox"@, "upstream"@, "routes"@],
        Seq::empty(),
    ) + version.1 + version_violations(version.0) + server_spec(root, bind_is_ip).1 + files_violations(
        root,
    ) + sandbox_spec(root).1 + upstream_spec(root).1
}

/// `toml::Value`, the parser's document, carried opaquely until it is
/// read into a [`TomlValue`].
#[verifier::external_type_specification]
#[verifier::external_body]
pub struct ExternalTomlValue(toml::Value);

/// What the TOML parser makes of a whole document: the document, or the
/// parse error's message (which names line and column).
pub uninterp spec fn toml_document(text: Seq<char>) -> Result<TomlValue, Seq<char>>;

/// A parsed `toml::Value` in the library's model, one variant for one
/// variant: tables in the parser's key order, floats and datetimes as the
/// text they display as.
#[verifier::external_body]
fn document_of(value: &toml::Value) -> TomlValue {
    match value {
        toml::Value::String(s) => TomlValue::Str(s.clone()),
        toml::Value::Integer(i) => TomlValue::Integer(*i),
        toml::Value::Float(f) => TomlValue::Float(f.to_string()),
        toml::Value::Boolean(b) => TomlValue::Boolean(*b),
        toml::Value::Datetime(d) => TomlValue::Datetime(d.to_string()),
        toml::Value::Array(items) => TomlValue::Array(items.iter().map(document_of).collect()),
        toml::Value::Table(t) => TomlValue::Table(t.iter().map(|(k, v)| (k.clone(), document_of(v))).collect()),
    }
}

/// `toml::from_str` of a whole document into a `toml::Value`; its result,
/// read into the library's model, is named.
#[verifier::external_body]
fn parse_document(text: &str) -> (r: Result<TomlValue, String>)
    ensures
        match r {
            Ok(v) => toml_document(text@) == Ok::<TomlValue, Seq<char>>(v),
            Err(e) => toml_document(text@) == Err::<TomlValue, Seq<char>>(e@),
        },
{
    match toml::from_str::<toml::Value>(text) {
        Ok(v) => Ok(document_of(&v)),
        Err(e) => Err(e.to_string()),
    }
}

/// Parse the text of the configuration file at `path`. A syntax error is
/// reported with the parser's message, which names line and column.
pub fn read_document(path: &str, text: &str) -> (r: Result<TomlValue, ConfigError>)
    ensures
        match toml_document(text@) {
            Ok(v) => r == Ok::<TomlValue, ConfigError>(v),
            Err(m) => r matches Err(ConfigError::Syntax { path: p, message }) && p@ == path@ && message@ == m,
        },
{
    match parse_document(text) {
        Ok(v) => Ok(v),
        Err(m) => Err(ConfigError::Syntax { path: String::from_str(path), message: m }),
    }
}

/// The `server.bind` string of a document, when there is one.
pub open spec fn bind_entry(root: TomlValue) -> Option<Seq<char>> {
    match root {
        TomlValue::Table(t) => match entry(t@, "server"@) {
            Some(TomlValue::Table(s)) => match entry(s@, "bind"@) {
                Some(TomlValue::Str(b)) => Some(b@),
                _ => None,
            },
            _ => None,
        },
        _ => None,
    }
}

/// The `server.bind` string whose reading as an IP address literal decides
/// `bind_is_ip` in [`check_document`]; with none, nothing is to be read.
pub fn bind_text(root: &TomlValue) -> (r: Option<&str>)
    ensures
        match r {
            Some(b) => bind_entry(*root) == Some(b@),
            None => bind_entry(*root) is None,
        },
{
    if let TomlValue::Table(t) = root {
        if let Some(TomlValue::Table(server)) = table_get(t, "server") {
            if let Some(TomlValue::Str(b)) = table_get(server, "bind") {
                return Some(b.as_str());
            }
        }
    }
    None
}

/// Read one parsed document. `bind_is_ip` tells whether `server.bind`, when
/// it is a non-empty string, reads as an IP address literal.
pub fn check_document(path: &str, root: &TomlValue, bind_is_ip: bool) -> (r: DocumentCheck)
    ensures
        r.ready(),
        match *root {
            TomlValue::Table(_) => r is Checked,
            _ => r matches DocumentCheck::Rejected(ConfigError::Schema { path: p, violations: v })
                && p@ == path@ && vviews(v@) == seq![vv("(root)"@, "table"@, describe_spec(*root))],
        },
        match (*root, r) {
            (TomlValue::Table(t), DocumentCheck::Checked(d)) => {
                let sections = section_violations(t@, bind_is_ip);
                let version = req_string_spec(entry(t@, "config_version"@), "config_version"@);
                &&& exists|exts: Seq<Option<Seq<char>>>|
                    vviews(d.violations@) == sections + #[trigger] routes_violations(t@, exts) && exts_fit(t@, exts)
                &&& match d.config_version {
                    Some(v) => version.0 == Some(v@),
                    None => version.0 is None,
                }
                &&& (d.server.bind@, d.server.port, d.server.request_timeout_ms) == server_spec(t@, bind_is_ip).0
                &&& (d.files_root is Some, d.upload_max_bytes) == files_values(t@)
                &&& d.files_root matches Some(fr) ==> (files_root_text(t@) matches Some(raw) && resolved_from(
                    fr@,
                    raw,
                    path@,
                ))
                &&& d.sandbox.script_timeout_ms == sandbox_spec(t@).0
                &&& (strings_view(d.upstream.allow_hosts@), d.upstream.timeout_ms) == upstream_spec(t@).0
                &&& vviews(d.violations@).len() == 0 ==> routes_read(t@, d.routes@, path@)
            },
            _ => true,
        },
{
    let table = match root {
        TomlValue::Table(t) => t,
        other => {
            let mut v: Vec<Violation> = Vec::new();
            v.push(bad("(root)", "table", other));
            assert(vviews(v@) =~= seq![vv("(root)"@, "table"@, describe_spec(*root))]);
            return DocumentCheck::Rejected(ConfigError::Schema { path: String::from_str(path), violations: v });
        },
    };
    let mut v: Vec<Violation> = Vec::new();
    let allowed: [&str; 6] = ["config_version", "server", "files", "sandbox", "upstream", "routes"];
    assert(strs_view(allowed@) =~= seq!["config_version"@, "server"@, "files"@, "sandbox"@, "upstream"@, "routes"@]);
    proof {
        reveal_strlit("");
        assert(""@ =~= Seq::<char>::empty());
    }
    reject_unknown(table, &allowed, "", &mut v);
    let ghost s1 = vviews(v@);
    assert(s1 =~= unknown_key_violations(
        keys_view(table@),
        seq!["config_version"@, "server"@, "files"@, "sandbox"@, "upstream"@, "routes"@],
        Seq::empty(),
    ));
    let config_version = req_string(table, "config_version", "config_version", &mut v);
    let version_ref = match &config_version {
        Some(c) => Some(c.as_str()),
        None => None,
    };
    validate_config_version(version_ref, &mut v);
    let ghost version = req_string_spec(entry(table@, "config_version"@), "config_version"@);
    assert(vviews(v@) =~= s1 + version.1 + version_violations(version.0));
    let server = parse_server(table, bind_is_ip, &mut v);
    let (files_root, upload_max_bytes) = parse_files(table, path, &mut v);
    // Optional: an absent [sandbox] keeps every default.
    let sandbox = parse_sandbox(table, &mut v);
    // Optional: an absent [upstream] denies every host by default.
    let upstream = parse_upstream(table, &mut v);
    let ghost before_routes = vviews(v@);
    proof { reveal_strlit(""); }
    let routes = parse_routes(table, path, &mut v);
    let ghost sections = section_violations(table@, bind_is_ip);
    assert(before_routes =~= sections);
    proof {
        assert(vviews(v@).len() >= sections.len());
        let t = table@;
        if vviews(v@).len() == 0 {
            assert(sections.len() == 0);
            let version = req_string_spec(entry(t, "config_version"@), "config_version"@);
            assert(version.1.len() == 0);
            assert(version_violations(version.0).len() == 0);
            assert(server_spec(t, bind_is_ip).1.len() == 0);
            assert(files_violations(t).len() == 0);
            assert(sandbox_spec(t).1.len() == 0);
            assert(upstream_spec(t).1.len() == 0);
            lemma_server_sound(t, bind_is_ip);
            lemma_files_sound(t);
            lemma_sandbox_sound(t);
            lemma_upstream_sound(t);
        }
    }
    let draft = Draft {
        config_version,
        server,
        files_root,
        upload_max_bytes,
        sandbox,
        upstream,
        routes,
        violations: v,
    };
    DocumentCheck::Checked(draft)
}

proof fn lemma_server_sound(t: Seq<(String, TomlValue)>, is_ip: bool)
    requires
        server_spec(t, is_ip).1.len() == 0,
    ensures
        server_spec(t, is_ip).0.0.len() > 0,
        server_spec(t, is_ip).0.1 >= 1,
        server_spec(t, is_ip).0.2 > 0,
{
    reveal_strlit("127.0.0.1");
    if let Some(TomlValue::Table(s)) = entry(t, "server"@) {
        let bind = opt_bind_spec(entry(s@, "bind"@), "server.bind"@, is_ip);
        let port = opt_port_spec(entry(s@, "port"@), "server.port"@);
        let timeout = opt_positive_spec(
            entry(s@, "request_timeout_ms"@),
            "server.request_timeout_ms"@,
            "integer number of milliseconds greater than 0"@,
            "integer number of milliseconds"@,
        );
        let unknown = unknown_key_violations(keys_view(s@), seq!["bind"@, "port"@, "request_timeout_ms"@], "server"@);
        assert((unknown + bind.1 + port.1 + timeout.1).len() == unknown.len() + bind.1.len() + port.1.len() + timeout.1.len());
    }
}

proof fn lemma_files_sound(t: Seq<(String, TomlValue)>)
    requires
        files_violations(t).len() == 0,
    ensures
        files_values(t).0,
        files_values(t).1 > 0,
{
    if let Some(TomlValue::Table(s)) = entry(t, "files"@) {
        let unknown = unknown_key_violations(keys_view(s@), seq!["root"@, "upload_max_bytes"@], "files"@);
        let root = req_string_spec(entry(s@, "root"@), "files.root"@);
        let upload = opt_positive_spec(
            entry(s@, "upload_max_bytes"@),
            "files.upload_max_bytes"@,
            "integer number of bytes greater than 0"@,
            "integer number of bytes"@,
        );
        assert((unknown + root.1 + upload.1).len() == unknown.len() + root.1.len() + upload.1.len());
    }
}

proof fn lemma_sandbox_sound(t: Seq<(String, TomlValue)>)
    requires
        sandbox_spec(t).1.len() == 0,
    ensures
        sandbox_spec(t).0 > 0,
{
    if let Some(TomlValue::Table(s)) = entry(t, "sandbox"@) {
        let timeout = opt_positive_spec(
            entry(s@, "script_timeout_ms"@),
            "sandbox.script_timeout_ms"@,
            "integer number of milliseconds greater than 0"@,
            "integer number of milliseconds"@,
        );
        let unknown = unknown_key_violations(keys_view(s@), seq!["script_timeout_ms"@], "sandbox"@);
        assert((unknown + timeout.1).len() == unknown.len() + timeout.1.len());
    }
}

proof fn lemma_upstream_sound(t: Seq<(String, TomlValue)>)
    requires
        upstream_spec(t).1.len() == 0,
    ensures
        upstream_spec(t).0.1 > 0,
{
    if let Some(TomlValue::Table(s)) = entry(t, "upstream"@) {
        let hosts = opt_host_list_spec(entry(s@, "allow_hosts"@), "upstream.allow_hosts"@);
        let timeout = opt_positive_spec(
            entry(s@, "timeout_ms"@),
            "upstream.timeout_ms"@,
            "integer number of milliseconds greater than 0"@,
            "integer number of milliseconds"@,
        );
        let unknown = unknown_key_violations(keys_view(s@), seq!["allow_hosts"@, "timeout_ms"@], "upstream"@);
        assert((unknown + hosts.1 + timeout.1).len() == unknown.len() + hosts.1.len() + timeout.1.len());
    }
}

/// Finish loading once the static root has been looked at: `files.root`
/// must already be a directory (the loader never creates it). Any
/// violation makes the whole document a schema error listing all of them.
pub fn finish_load(path: &str, check: DocumentCheck, root_is_dir: bool) -> (r: Result<Config, ConfigError>)
    requires
        check.ready(),
    ensures
        match check {
            DocumentCheck::Rejected(e) => r == Err::<Config, ConfigError>(e),
            DocumentCheck::Checked(d) => {
                let extra = match d.files_root {
                    Some(root) => if root_is_dir {
                        Seq::<VView>::empty()
                    } else {
                        seq![vv("files.root"@, "existing directory"@, root@)]
                    },
                    None => Seq::empty(),
                };
                let all = vviews(d.violations@) + extra;
                if all.len() == 0 {
                    r matches Ok(c) && config_valid(c) && c.config_version == d.config_version->0
                        && c.server == d.server && c.files.root == d.files_root->0
                        && c.files.upload_max_bytes == d.upload_max_bytes && c.sandbox == d.sandbox
                        && c.upstream == d.upstream && c.routes == d.routes
                } else {
                    r matches Err(ConfigError::Schema { path: p, violations: v }) && p@ == path@
                        && vviews(v@) == all
                }
            },
        },
{
    let d = match check {
        DocumentCheck::Rejected(e) => return Err(e),
        DocumentCheck::Checked(d) => d,
    };
    let Draft { config_version, server, files_root, upload_max_bytes, sandbox, upstream, routes, violations } = d;
    let mut violations = violations;
    let ghost before = vviews(violations@);
    if let Some(root) = &files_root {
        if !root_is_dir {
            violations.push(violation(
                String::from_str("files.root"),
                String::from_str("existing directory"),
                root.clone(),
            ));
        }
    }
    if violations.len() > 0 || config_version.is_none() || files_root.is_none() {
        return Err(ConfigError::Schema { path: String::from_str(path), violations });
    }
    let config_version = match config_version { Some(v) => v, None => String::new() };
    let root = match files_root { Some(r) => r, None => String::new() };
    Ok(Config {
        config_version,
        server,
        files: FilesConfig { root, upload_max_bytes },
        sandbox,
        upstream,
        routes,
    })
}

} // verus!
