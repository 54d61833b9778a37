//! Rooted local file access for `ctx.file`: the script-visible operations,
//! their stable error codes, path checks made before the file system is
//! consulted, and the single-range decision for streamed file bodies.
use vstd::prelude::*;
use crate::json::{BridgeFailure, Json};
use crate::matcher::pairs_view;
use crate::text::{decimal_text, join_strings, joined, lossy_string, lossy_text, strings_view, u64_decimal};
use crate::upstream::{base64_encode, base64_text};
use crate::text::{nonempty_pieces, chars_of, contains_char, digits_u64, eq_ignore_case, eq_ignore_case_exec, parse_digits_u64, split_once, utf8_text, split_once_exec, str_eq, trim, trimmed};

verus! {

/// Buffered read cap shared by `ctx.file.readText` and `ctx.file.readBytes`.
pub const MAX_READ_BYTES: u64 = 8388608;

/// One script-visible `ctx.file` operation.
#[derive(Debug, Clone, Copy, PartialEq, Eq, Structural)]
pub enum FileOp {
    ReadText,
    ReadBytes,
    Stream,
}

impl FileOp {
    pub open spec fn parse_spec(raw: Seq<char>) -> Option<FileOp> {
        if raw == "readText"@ {
            Some(FileOp::ReadText)
        } else if raw == "readBytes"@ {
            Some(FileOp::ReadBytes)
        } else if raw == "stream"@ {
            Some(FileOp::Stream)
        } else {
            None
        }
    }

    /// The operation named by the script, if it is one.
    pub fn parse(raw: &str) -> (r: Option<FileOp>)
        ensures
            r == FileOp::parse_spec(raw@),
    {
        if str_eq(raw, "readText") {
            Some(FileOp::ReadText)
        } else if str_eq(raw, "readBytes") {
            Some(FileOp::ReadBytes)
        } else if str_eq(raw, "stream") {
            Some(FileOp::Stream)
        } else {
            None
        }
    }

    /// Name recorded in the per-request call log.
    pub fn api(self) -> (r: &'static str)
        ensures
            r@ == (match self {
                FileOp::ReadText => "file.readText"@,
                FileOp::ReadBytes => "file.readBytes"@,
                FileOp::Stream => "file.stream"@,
            }),
    {
        match self {
            FileOp::ReadText => "file.readText",
            FileOp::ReadBytes => "file.readBytes",
            FileOp::Stream => "file.stream",
        }
    }
}

/// Why one `ctx.file` call failed. Codes are stable script-visible values.
#[derive(Debug)]
pub enum Error {
    PathInvalid(&'static str),
    NotFound,
    TooLarge,
    Encoding,
    Io(String),
}

impl Error {
    pub open spec fn code_spec(&self) -> Seq<char> {
        match self {
            Error::PathInvalid(_) => "file_path_invalid"@,
            Error::NotFound => "file_not_found"@,
            Error::TooLarge => "file_too_large"@,
            Error::Encoding => "file_encoding_error"@,
            Error::Io(_) => "file_io_error"@,
        }
    }

    pub open spec fn message_spec(&self) -> Seq<char> {
        match self {
            Error::PathInvalid(reason) => "ctx.file: "@ + reason@,
            Error::NotFound => "ctx.file: file not found"@,
            Error::TooLarge => "ctx.file: file exceeds the 8388608-byte read cap"@,
            Error::Encoding => "ctx.file.readText: file is not valid UTF-8"@,
            Error::Io(message) => "ctx.file: "@ + message@,
        }
    }

    /// Stable class surfaced to the script as `error.code`.
    pub fn code(&self) -> (r: &'static str)
        ensures
            r@ == self.code_spec(),
    {
        match self {
            Error::PathInvalid(_) => "file_path_invalid",
            Error::NotFound => "file_not_found",
            Error::TooLarge => "file_too_large",
            Error::Encoding => "file_encoding_error",
            Error::Io(_) => "file_io_error",
        }
    }

    /// Operator-facing reason; it never carries a file path.
    pub fn message(&self) -> (r: String)
        ensures
            r@ == self.message_spec(),
    {
        match self {
            Error::PathInvalid(reason) => String::from_str("ctx.file: ").concat(reason),
            Error::NotFound => String::from_str("ctx.file: file not found"),
            Error::TooLarge => String::from_str("ctx.file: file exceeds the 8388608-byte read cap"),
            Error::Encoding => String::from_str("ctx.file.readText: file is not valid UTF-8"),
            Error::Io(message) => String::from_str("ctx.file: ").concat(message.as_str()),
        }
    }
}

/// Map a failed open: a missing file is `file_not_found`, anything else an
/// I/O error carrying the system's reason.
pub fn map_open_error(not_found: bool, reason: String) -> (r: Error)
    ensures
        not_found ==> r is NotFound,
        !not_found ==> r == Error::Io(reason),
{
    if not_found {
        Error::NotFound
    } else {
        Error::Io(reason)
    }
}

/// Single-range decision for one streamed file response.
#[derive(Debug, Clone, Copy, PartialEq, Eq, Structural)]
pub enum RangeDecision {
    /// No `Range` header: answer the whole body with 200.
    Full,
    /// A satisfiable single range: answer 206 for `[start, start + len)`.
    Partial { start: u64, len: u64 },
    /// Malformed, multi-range, empty-file, or unsatisfiable: answer 416.
    Unsatisfiable,
}

/// The range asked by `first-last` once the unit, the list check and a
/// non-empty file are settled. An empty `first` is a suffix request for the
/// last `last` bytes; an empty `last` runs to the end of the file; an end
/// beyond the file clamps to its last byte.
pub open spec fn byte_range_of(size: u64, first: Seq<char>, last: Seq<char>) -> RangeDecision {
    if first.len() == 0 {
        match digits_u64(last) {
            None => RangeDecision::Unsatisfiable,
            Some(suffix) => if suffix == 0 {
                RangeDecision::Unsatisfiable
            } else {
                let len = if suffix < size { suffix } else { size };
                RangeDecision::Partial { start: (size - len) as u64, len }
            },
        }
    } else {
        match digits_u64(first) {
            None => RangeDecision::Unsatisfiable,
            Some(start) => if start >= size {
                RangeDecision::Unsatisfiable
            } else if last.len() == 0 {
                RangeDecision::Partial { start, len: (size - start) as u64 }
            } else {
                match digits_u64(last) {
                    None => RangeDecision::Unsatisfiable,
                    Some(end) => if end < start {
                        RangeDecision::Unsatisfiable
                    } else {
                        let end = if end < size - 1 { end } else { (size - 1) as u64 };
                        RangeDecision::Partial { start, len: (end - start + 1) as u64 }
                    },
                }
            },
        }
    }
}

/// The decision for a file of `size` bytes and an optional `Range` value of
/// the form `unit=first-last`. Blanks around the whole value, the unit and
/// the range spec are ignored; a blank next to the `-` makes the spec unusable.
pub open spec fn range_decision(size: u64, header: Option<Seq<char>>) -> RangeDecision {
    match header {
        None => RangeDecision::Full,
        Some(h) => match split_once(trimmed(h), '=') {
            None => RangeDecision::Unsatisfiable,
            Some((unit, spec)) => {
                let spec = trimmed(spec);
                if !eq_ignore_case(trimmed(unit), "bytes"@) || spec.contains(',') || size == 0 {
                    RangeDecision::Unsatisfiable
                } else {
                    match split_once(spec, '-') {
                        None => RangeDecision::Unsatisfiable,
                        Some((first, last)) => byte_range_of(size, first, last),
                    }
                }
            },
        },
    }
}

/// Decide the single-range response for one file size and `Range` value.
/// End offsets clamp to the file end; every unusable value is unsatisfiable.
pub fn decide_range(size: u64, range: Option<&str>) -> (r: RangeDecision)
    ensures
        r == range_decision(size, match range { Some(h) => Some(h@), None => None }),
        r matches RangeDecision::Partial { start, len } ==> 0 < len && start + len <= size,
        range is None <==> r is Full,
{
    let header = match range {
        None => return RangeDecision::Full,
        Some(h) => h,
    };
    let chars = chars_of(header);
    let trimmed_header = trim(chars.as_slice());
    let (unit, spec) = match split_once_exec(trimmed_header.as_slice(), '=') {
        None => return RangeDecision::Unsatisfiable,
        Some(parts) => parts,
    };
    let spec = trim(spec.as_slice());
    let unit = trim(unit.as_slice());
    let bytes_unit: Vec<char> = vec!['b', 'y', 't', 'e', 's'];
    proof {
        reveal_strlit("bytes");
        assert(bytes_unit@ =~= "bytes"@);
    }
    if !eq_ignore_case_exec(unit.as_slice(), bytes_unit.as_slice()) || contains_char(
        spec.as_slice(),
        ',',
    ) || size == 0 {
        return RangeDecision::Unsatisfiable;
    }
    let (first, last) = match split_once_exec(spec.as_slice(), '-') {
        None => return RangeDecision::Unsatisfiable,
        Some(parts) => parts,
    };
    if first.len() == 0 {
        let suffix = match parse_digits_u64(last.as_slice()) {
            None => return RangeDecision::Unsatisfiable,
            Some(n) => n,
        };
        if suffix == 0 {
            return RangeDecision::Unsatisfiable;
        }
        let len = if suffix < size { suffix } else { size };
        return RangeDecision::Partial { start: size - len, len };
    }
    let start = match parse_digits_u64(first.as_slice()) {
        None => return RangeDecision::Unsatisfiable,
        Some(n) => n,
    };
    if start >= size {
        return RangeDecision::Unsatisfiable;
    }
    let end = if last.len() == 0 {
        size - 1
    } else {
        let end = match parse_digits_u64(last.as_slice()) {
            None => return RangeDecision::Unsatisfiable,
            Some(n) => n,
        };
        if end < start {
            return RangeDecision::Unsatisfiable;
        }
        if end < size - 1 {
            end
        } else {
            size - 1
        }
    };
    RangeDecision::Partial { start, len: end - start + 1 }
}

/// The `Range` lines of a request, each read as text.
pub open spec fn range_lines_text(lines: Seq<Vec<u8>>) -> Seq<Seq<char>> {
    lines.map_values(|l: Vec<u8>| lossy_text(l@))
}

/// The `Range` value a streamed file answer reads: none when the request
/// carries `If-Range` (its validator is not compared, so the whole file is
/// sent) or has no `Range` line; otherwise its lines, read as text and joined
/// with `", "`, so a repeated `Range` reads as a list and is refused.
pub fn effective_range(if_range_present: bool, range_lines: &[Vec<u8>]) -> (r: Option<String>)
    ensures
        if_range_present || range_lines@.len() == 0 ==> r is None,
        !if_range_present && range_lines@.len() > 0 ==> (r matches Some(v) && v@ == joined(
            range_lines_text(range_lines@),
            ", "@,
        )),
{
    if if_range_present || range_lines.len() == 0 {
        return None;
    }
    let mut texts: Vec<String> = Vec::new();
    let mut i: usize = 0;
    while i < range_lines.len()
        invariant
            i <= range_lines@.len(),
            texts@.len() == i,
            strings_view(texts@) == range_lines_text(range_lines@).take(i as int),
        decreases range_lines@.len() - i,
    {
        let text = lossy_string(range_lines[i].as_slice());
        let ghost prev = texts@;
        texts.push(text);
        proof {
            let want = range_lines_text(range_lines@).take(i + 1);
            assert forall|k: int| 0 <= k < i + 1 implies strings_view(texts@)[k] == want[k] by {
                if k < i {
                    assert(texts@[k] == prev[k]);
                    assert(strings_view(prev)[k] == range_lines_text(range_lines@).take(i as int)[k]);
                } else {
                    assert(texts@[k] == text);
                }
            }
            assert(strings_view(texts@) =~= want);
        }
        i = i + 1;
    }
    assert(range_lines_text(range_lines@).take(i as int) =~= range_lines_text(range_lines@));
    Some(join_strings(texts.as_slice(), ", "))
}

/// The status and framing headers of a streamed file answer: the whole
/// file with 200, a satisfiable range with 206 and its `Content-Range`, an
/// unusable one with 416, `Content-Range: bytes */size` and no body. Every
/// answer advertises byte ranges.
pub fn range_answer(decision: RangeDecision, size: u64) -> (r: (u16, Vec<(String, String)>))
    requires
        decision matches RangeDecision::Partial { start, len } ==> 1 <= len && start + len <= size,
    ensures
        match decision {
            RangeDecision::Full => r.0 == 200 && pairs_view(r.1@) == seq![
                ("accept-ranges"@, "bytes"@),
                ("content-length"@, decimal_text(size as nat)),
            ],
            RangeDecision::Partial { start, len } => r.0 == 206 && pairs_view(r.1@) == seq![
                ("accept-ranges"@, "bytes"@),
                ("content-length"@, decimal_text(len as nat)),
                (
                    "content-range"@,
                    "bytes "@ + decimal_text(start as nat) + "-"@ + decimal_text((start + len - 1) as nat) + "/"@
                        + decimal_text(size as nat),
                ),
            ],
            RangeDecision::Unsatisfiable => r.0 == 416 && pairs_view(r.1@) == seq![
                ("accept-ranges"@, "bytes"@),
                ("content-length"@, "0"@),
                ("content-range"@, "bytes */"@ + decimal_text(size as nat)),
            ],
        },
{
    let mut headers: Vec<(String, String)> = Vec::new();
    headers.push((String::from_str("accept-ranges"), String::from_str("bytes")));
    let status = match decision {
        RangeDecision::Full => {
            headers.push((String::from_str("content-length"), u64_decimal(size)));
            200
        },
        RangeDecision::Partial { start, len } => {
            headers.push((String::from_str("content-length"), u64_decimal(len)));
            let range = String::from_str("bytes ").concat(u64_decimal(start).as_str()).concat("-").concat(
                u64_decimal(start + len - 1).as_str(),
            ).concat("/").concat(u64_decimal(size).as_str());
            headers.push((String::from_str("content-range"), range));
            206
        },
        RangeDecision::Unsatisfiable => {
            headers.push((String::from_str("content-length"), String::from_str("0")));
            headers.push((
                String::from_str("content-range"),
                String::from_str("bytes */").concat(u64_decimal(size).as_str()),
            ));
            416
        },
    };
    (status, headers)
}

/// How a streamed file body ended.
#[derive(Debug, Clone, Copy, PartialEq, Eq, Structural)]
pub enum StreamOutcome {
    Complete,
    /// The read failed or the file ended before the announced length.
    FileError,
    ClientDisconnected,
}

impl StreamOutcome {
    pub open spec fn from_channel_close_spec(bytes: u64, announced_content_length: Option<u64>) -> StreamOutcome {
        if announced_content_length == Some(bytes) {
            StreamOutcome::Complete
        } else {
            StreamOutcome::ClientDisconnected
        }
    }

    /// Classify a relay channel that closed: a satisfied announced length is
    /// a completed delivery, anything else a client disconnect.
    pub fn from_channel_close(bytes: u64, announced_content_length: Option<u64>) -> (r: StreamOutcome)
        ensures
            r == Self::from_channel_close_spec(bytes, announced_content_length),
    {
        match announced_content_length {
            Some(n) if n == bytes => StreamOutcome::Complete,
            _ => StreamOutcome::ClientDisconnected,
        }
    }

    /// Request-log error class when the stream did not complete normally.
    pub fn error_class(self) -> (r: Option<&'static str>)
        ensures
            match self {
                StreamOutcome::Complete => r is None,
                StreamOutcome::FileError => r matches Some(c) && c@ == "file_stream_error"@,
                StreamOutcome::ClientDisconnected => r matches Some(c) && c@ == "client_disconnected"@,
            },
    {
        match self {
            StreamOutcome::Complete => None,
            StreamOutcome::FileError => Some("file_stream_error"),
            StreamOutcome::ClientDisconnected => Some("client_disconnected"),
        }
    }
}


/// What the relay of a streamed file range saw next.
#[derive(Debug, Clone, Copy, PartialEq, Eq, Structural)]
pub enum FileRelayEvent {
    /// A chunk of this many bytes was handed to the client.
    Delivered(u64),
    /// The client side refused the next chunk.
    Refused,
    /// Reading the file failed.
    ReadFailed,
    /// The file ended.
    EndOfFile,
}

/// The relay of one file range: bytes delivered so far of the `len` owed.
#[derive(Debug)]
pub struct FileRelay {
    pub sent: u64,
    pub len: u64,
}

impl FileRelay {
    pub fn new(len: u64) -> (r: FileRelay)
        ensures
            r.sent == 0,
            r.len == len,
    {
        FileRelay { sent: 0, len }
    }

    /// How many bytes the next read may take: what is still owed, at most
    /// `chunk`.
    pub fn next_read(&self, chunk: u64) -> (r: u64)
        ensures
            r == (if self.sent >= self.len {
                0
            } else if self.len - self.sent < chunk {
                (self.len - self.sent) as u64
            } else {
                chunk
            }),
    {
        if self.sent >= self.len {
            0
        } else if self.len - self.sent < chunk {
            self.len - self.sent
        } else {
            chunk
        }
    }

    /// Take one event: a delivered chunk adds to the count (saturating) and
    /// the relay goes on until the range is delivered; a refused chunk is
    /// classified by the count so far; a failed read, or a file that ends
    /// first, is a file error.
    pub fn step(&mut self, event: FileRelayEvent) -> (r: Option<StreamOutcome>)
        ensures
            final(self).len == old(self).len,
            match event {
                FileRelayEvent::Delivered(n) => {
                    let sent = if old(self).sent + n > u64::MAX { u64::MAX as int } else { old(self).sent + n };
                    &&& final(self).sent == sent
                    &&& r == (if sent >= old(self).len { Some(StreamOutcome::Complete) } else { None::<StreamOutcome> })
                },
                FileRelayEvent::Refused => final(self).sent == old(self).sent && r == Some(
                    StreamOutcome::from_channel_close_spec(old(self).sent, Some(old(self).len)),
                ),
                FileRelayEvent::ReadFailed | FileRelayEvent::EndOfFile => final(self).sent == old(self).sent
                    && r == Some(StreamOutcome::FileError),
            },
    {
        match event {
            FileRelayEvent::Delivered(n) => {
                self.sent = self.sent.saturating_add(n);
                if self.sent >= self.len {
                    Some(StreamOutcome::Complete)
                } else {
                    None
                }
            },
            FileRelayEvent::Refused => Some(StreamOutcome::from_channel_close(self.sent, Some(self.len))),
            FileRelayEvent::ReadFailed | FileRelayEvent::EndOfFile => Some(StreamOutcome::FileError),
        }
    }
}

/// The failure payload a script sees for a failed file call.
pub fn error_failure(error: &Error) -> (r: BridgeFailure)
    ensures
        r.code@ == error.code_spec(),
        r.message@ == error.message_spec(),
{
    BridgeFailure { code: error.code(), message: error.message() }
}

/// Read one `ctx.file.*` bridge payload `{op, path}`: the operation and the
/// script-supplied path, or the failure the script sees.
pub fn file_call_request(payload: &Json) -> (r: Result<(FileOp, String), BridgeFailure>)
    ensures
        match r {
            Ok((op, path)) => {
                &&& payload.get_spec("op"@) matches Some(o) && o.as_str_spec() matches Some(name)
                    && FileOp::parse_spec(name) == Some(op)
                &&& payload.get_spec("path"@) matches Some(p) && p.as_str_spec() == Some(path@)
            },
            Err(f) => {
                let op = match payload.get_spec("op"@) { Some(o) => o.as_str_spec(), None => None };
                let path = match payload.get_spec("path"@) { Some(p) => p.as_str_spec(), None => None };
                if op is None {
                    f.code@ == "script_error"@ && f.message@ == "ctx.file: missing operation"@
                } else if path is None {
                    f.code@ == "file_path_invalid"@ && f.message@ == "ctx.file: path must be a string"@
                } else {
                    FileOp::parse_spec(op->0) is None && f.code@ == "script_error"@
                        && f.message@ == "ctx.file: unknown operation"@
                }
            },
        },
{
    let raw_op = match payload.get("op") {
        Some(o) => o.as_str(),
        None => None,
    };
    let raw_op = match raw_op {
        Some(o) => o,
        None => {
            return Err(BridgeFailure {
                code: "script_error",
                message: String::from_str("ctx.file: missing operation"),
            });
        },
    };
    let path = match payload.get("path") {
        Some(p) => p.as_str(),
        None => None,
    };
    let path = match path {
        Some(p) => p,
        None => {
            return Err(BridgeFailure {
                code: "file_path_invalid",
                message: String::from_str("ctx.file: path must be a string"),
            });
        },
    };
    match FileOp::parse(raw_op) {
        Some(op) => Ok((op, String::from_str(path))),
        None => Err(BridgeFailure {
            code: "script_error",
            message: String::from_str("ctx.file: unknown operation"),
        }),
    }
}

/// A file larger than the read cap is refused before it is read.
pub fn check_read_size(size: u64) -> (r: Result<(), Error>)
    ensures
        r is Ok <==> size <= MAX_READ_BYTES,
        r matches Err(e) ==> e is TooLarge,
{
    if size > MAX_READ_BYTES {
        Err(Error::TooLarge)
    } else {
        Ok(())
    }
}

/// The member a successful whole-file read adds beside `ok`: the decoded
/// text for `readText` (none when the bytes are not UTF-8), the padded
/// base64 of the bytes for `readBytes`.
pub open spec fn read_member(text: bool, bytes: Seq<u8>) -> Option<(Seq<char>, Seq<char>)> {
    if text {
        if vstd::utf8::valid_utf8(bytes) {
            Some(("text"@, vstd::utf8::decode_utf8(bytes)))
        } else {
            None
        }
    } else {
        Some(("bytes_base64"@, base64_text(bytes)))
    }
}

/// The answer to a whole-file read of `bytes` (read with a limit of one
/// byte past the cap): more than the cap is `TooLarge`; `readText` needs
/// valid UTF-8 and answers exactly `{ok: true, text}`, `readBytes` exactly
/// `{ok: true, bytes_base64}`, in that order and with nothing else (no path);
/// the byte count read comes alongside.
pub fn read_payload(text: bool, bytes: Vec<u8>) -> (r: Result<(Json, u64), Error>)
    ensures
        bytes@.len() > MAX_READ_BYTES ==> (r matches Err(e) && e is TooLarge),
        bytes@.len() <= MAX_READ_BYTES ==> match read_member(text, bytes@) {
            None => (r matches Err(e) && e is Encoding),
            Some((key, value)) => (r matches Ok((j, n)) && {
                &&& n == bytes@.len()
                &&& j.get_spec("ok"@) == Some(Json::Bool(true))
                &&& (j.get_spec(key) matches Some(Json::Str(t)) && t@ == value)
                &&& j matches Json::Object(ms)
                &&& ms@.len() == 2
                &&& ms@[0].0@ == "ok"@ && ms@[0].1 == Json::Bool(true)
                &&& ms@[1].0@ == key && (ms@[1].1 matches Json::Str(t) && t@ == value)
            }),
        },
{
    let len = bytes.len() as u64;
    if len > MAX_READ_BYTES {
        return Err(Error::TooLarge);
    }
    let mut members: Vec<(String, Json)> = Vec::new();
    members.push((String::from_str("ok"), Json::Bool(true)));
    if text {
        match utf8_text(bytes.as_slice()) {
            Some(t) => {
                members.push((String::from_str("text"), Json::Str(t)));
            },
            None => {
                return Err(Error::Encoding);
            },
        }
    } else {
        let encoded = base64_encode(bytes.as_slice());
        members.push((String::from_str("bytes_base64"), Json::Str(encoded)));
    }
    proof {
        reveal_strlit("ok");
        reveal_strlit("text");
        reveal_strlit("bytes_base64");
        let m = members@;
        assert(m.drop_first().drop_first() =~= Seq::<(String, Json)>::empty());
        assert(m.len() == 2);
        assert(m[0].0@ == "ok"@);
        assert(m[1].0@ == "text"@ || m[1].0@ == "bytes_base64"@);
        assert(m[0].0@ != m[1].0@);
        assert(m.drop_first()[0] == m[1]);
        assert(crate::json::member(m.drop_first(), m[1].0@) == Some(m[1].1));
        assert(crate::json::member(m, "ok"@) == Some(Json::Bool(true)));
        assert(crate::json::member(m, m[1].0@) == Some(m[1].1));
    }
    Ok((Json::Object(members), len))
}

/// One component of a script-supplied relative path.
#[derive(Debug, Clone, Copy, PartialEq, Eq, Structural)]
pub enum PathPart {
    CurDir,
    Normal,
    ParentDir,
    RootDir,
    Prefix,
}

/// The rejection reason for a path made of `parts`, if any: the first `..`
/// or root/prefix component decides.
pub open spec fn parts_rejection(parts: Seq<PathPart>) -> Option<Seq<char>>
    decreases parts.len(),
{
    if parts.len() == 0 {
        None
    } else {
        match parts[0] {
            PathPart::ParentDir => Some("`..` components are not allowed"@),
            PathPart::RootDir | PathPart::Prefix => Some("absolute paths are not allowed"@),
            _ => parts_rejection(parts.drop_first()),
        }
    }
}

/// A path with a `..`, root or prefix component anywhere is rejected.
pub proof fn escaping_components_are_rejected(parts: Seq<PathPart>, i: int)
    requires
        0 <= i < parts.len(),
        parts[i] == PathPart::ParentDir || parts[i] == PathPart::RootDir || parts[i] == PathPart::Prefix,
    ensures
        parts_rejection(parts) is Some,
    decreases parts.len(),
{
    if i > 0 {
        match parts[0] {
            PathPart::CurDir | PathPart::Normal => {
                assert(parts.drop_first()[i - 1] == parts[i]);
                escaping_components_are_rejected(parts.drop_first(), i - 1);
            },
            _ => {},
        }
    }
}

/// Component checks made before the file system is consulted: empty,
/// parent-directory and absolute paths are rejected.
pub fn check_components(empty: bool, parts: &[PathPart]) -> (r: Result<(), Error>)
    ensures
        empty ==> (r matches Err(Error::PathInvalid(reason)) && reason@ == "path must not be empty"@),
        !empty ==> match parts_rejection(parts@) {
            None => r is Ok,
            Some(reason) => (r matches Err(Error::PathInvalid(got)) && got@ == reason),
        },
{
    if empty {
        return Err(Error::PathInvalid("path must not be empty"));
    }
    let mut i: usize = 0;
    assert(parts@.skip(0) =~= parts@);
    while i < parts.len()
        invariant
            !empty,
            i <= parts@.len(),
            parts_rejection(parts@) == parts_rejection(parts@.skip(i as int)),
        decreases parts@.len() - i,
    {
        assert(parts@.skip(i as int)[0] == parts@[i as int]);
        assert(parts@.skip(i as int).drop_first() =~= parts@.skip(i + 1));
        match parts[i] {
            PathPart::ParentDir => {
                return Err(Error::PathInvalid("`..` components are not allowed"));
            },
            PathPart::RootDir | PathPart::Prefix => {
                return Err(Error::PathInvalid("absolute paths are not allowed"));
            },
            _ => {},
        }
        i = i + 1;
    }
    Ok(())
}

/// The two reasons a component check can give.
pub proof fn rejection_reasons(parts: Seq<PathPart>)
    ensures
        parts_rejection(parts) matches Some(reason) ==> reason == "`..` components are not allowed"@
            || reason == "absolute paths are not allowed"@,
    decreases parts.len(),
{
    if parts.len() > 0 {
        rejection_reasons(parts.drop_first());
    }
}

/// A relative path that every platform splits the same way: not empty, not
/// starting with `/`, with no `\\` and no `:` (so no Windows prefix, root or
/// second separator).
pub open spec fn plain_relative(raw: Seq<char>) -> bool {
    raw.len() > 0 && raw[0] != '/' && !raw.contains('\\') && !raw.contains(':')
}

/// Without root or prefix components, only a `..` component rejects a
/// path, and it is rejected as such.
proof fn rejection_without_roots(parts: Seq<PathPart>)
    requires
        forall|i: int| 0 <= i < parts.len() ==> parts[i] != PathPart::RootDir && parts[i] != PathPart::Prefix,
    ensures
        parts_rejection(parts) is Some <==> exists|i: int| 0 <= i < parts.len() && parts[i] == PathPart::ParentDir,
        parts_rejection(parts) matches Some(reason) ==> reason == "`..` components are not allowed"@,
    decreases parts.len(),
{
    if parts.len() > 0 {
        let rest = parts.drop_first();
        assert forall|i: int| 0 <= i < rest.len() implies rest[i] != PathPart::RootDir && rest[i]
            != PathPart::Prefix by {
            assert(rest[i] == parts[i + 1]);
        }
        rejection_without_roots(rest);
        if parts[0] != PathPart::ParentDir {
            if exists|i: int| 0 <= i < parts.len() && parts[i] == PathPart::ParentDir {
                let i = choose|i: int| 0 <= i < parts.len() && parts[i] == PathPart::ParentDir;
                assert(rest[i - 1] == parts[i]);
            }
            if exists|i: int| 0 <= i < rest.len() && rest[i] == PathPart::ParentDir {
                let i = choose|i: int| 0 <= i < rest.len() && rest[i] == PathPart::ParentDir;
                assert(parts[i + 1] == rest[i]);
            }
        }
    }
}

/// `Path::components` of a script-supplied path, classified. How a path
/// splits depends on the target platform's path rules; what `std` documents
/// for every platform is stated: `/` separates components everywhere, so a
/// path that starts with `/` begins with a root (or, on Windows, a prefix)
/// component, and `..` is never normalized away, so a `/`-separated `..`
/// piece yields a parent-directory component unless a leading Windows
/// prefix took it in. For a plain relative path (see `plain_relative`) there
/// is neither a root nor a prefix, and a parent-directory component comes
/// exactly from a `..` piece. Nothing more is said of the result.
#[verifier::external_body]
fn path_parts(raw: &str) -> (r: Vec<PathPart>)
    ensures
        raw@.len() > 0 && raw@[0] == '/' ==> r@.len() > 0 && (r@[0] == PathPart::RootDir || r@[0]
            == PathPart::Prefix),
        nonempty_pieces(raw@, '/').contains(".."@) ==> (exists|i: int|
            0 <= i < r@.len() && r@[i] == PathPart::ParentDir) || (r@.len() > 0 && r@[0]
            == PathPart::Prefix),
        plain_relative(raw@) ==> (forall|i: int|
            0 <= i < r@.len() ==> r@[i] != PathPart::RootDir && r@[i] != PathPart::Prefix),
        plain_relative(raw@) ==> ((exists|i: int| 0 <= i < r@.len() && r@[i] == PathPart::ParentDir)
            <==> nonempty_pieces(raw@, '/').contains(".."@)),
{
    std::path::Path::new(raw).components().map(|c| match c {
        std::path::Component::CurDir => PathPart::CurDir,
        std::path::Component::Normal(_) => PathPart::Normal,
        std::path::Component::ParentDir => PathPart::ParentDir,
        std::path::Component::RootDir => PathPart::RootDir,
        std::path::Component::Prefix(_) => PathPart::Prefix,
    }).collect()
}

/// Reject a script-supplied path before resolution: empty paths, `..`
/// components and absolute paths never reach the file system. A path that
/// starts with `/` is refused as absolute, and one with a `/`-separated `..`
/// piece is refused for one of the two reasons; a plain relative path is
/// refused exactly when it has a `..` piece, for that reason. Beyond that,
/// the path's components are split by the platform's rules
/// (`Path::components`), and the contract states the decision for whatever
/// components they are.
pub fn check_relative_path(raw: &str) -> (r: Result<(), Error>)
    ensures
        raw@.len() == 0 ==> (r matches Err(Error::PathInvalid(reason)) && reason@ == "path must not be empty"@),
        raw@.len() > 0 && raw@[0] == '/' ==> (r matches Err(Error::PathInvalid(reason)) && reason@
            == "absolute paths are not allowed"@),
        nonempty_pieces(raw@, '/').contains(".."@) ==> (r matches Err(Error::PathInvalid(reason)) && (
        reason@ == "`..` components are not allowed"@ || reason@ == "absolute paths are not allowed"@)),
        plain_relative(raw@) ==> if nonempty_pieces(raw@, '/').contains(".."@) {
            r matches Err(Error::PathInvalid(reason)) && reason@ == "`..` components are not allowed"@
        } else {
            r is Ok
        },
        raw@.len() > 0 ==> exists|parts: Seq<PathPart>|
            match #[trigger] parts_rejection(parts) {
                None => r is Ok,
                Some(reason) => (r matches Err(Error::PathInvalid(got)) && got@ == reason),
            },
{
    let parts = path_parts(raw);
    proof {
        rejection_reasons(parts@);
        if plain_relative(raw@) {
            rejection_without_roots(parts@);
        }
        if nonempty_pieces(raw@, '/').contains(".."@) && raw@.len() > 0 {
            if exists|i: int| 0 <= i < parts@.len() && parts@[i] == PathPart::ParentDir {
                let i = choose|i: int| 0 <= i < parts@.len() && parts@[i] == PathPart::ParentDir;
                escaping_components_are_rejected(parts@, i);
            } else {
                escaping_components_are_rejected(parts@, 0);
            }
        }
    }
    check_components(raw.is_empty(), parts.as_slice())
}

} // verus!
