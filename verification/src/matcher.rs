//! Route matching: method plus path segments, with `:name` captures.
use vstd::prelude::*;
use crate::config::Route;
use crate::text::{nonempty_pieces, split_nonempty, vecs_view, chars_of, string_of, lossy_string, to_ascii_upper, str_eq, upper_seq, lossy_text};

verus! {

/// The first route that handles a request, with its decoded captures.
#[derive(Debug)]
pub struct Match {
    pub route_index: usize,
    /// Captured `:name` segments in pattern order; a later capture with the
    /// same name overrides an earlier one.
    pub params: Vec<(String, String)>,
}

/// Captures viewed as a map: later pairs override earlier ones.
pub open spec fn pairs_map(pairs: Seq<(Seq<char>, Seq<char>)>) -> Map<Seq<char>, Seq<char>>
    decreases pairs.len(),
{
    if pairs.len() == 0 {
        Map::empty()
    } else {
        pairs_map(pairs.drop_last()).insert(pairs.last().0, pairs.last().1)
    }
}

pub open spec fn pairs_view(pairs: Seq<(String, String)>) -> Seq<(Seq<char>, Seq<char>)> {
    pairs.map_values(|p: (String, String)| (p.0@, p.1@))
}

impl Match {
    pub open spec fn params_map(&self) -> Map<Seq<char>, Seq<char>> {
        pairs_map(pairs_view(self.params@))
    }

    /// The value captured under `name`, if any.
    pub fn param(&self, name: &str) -> (r: Option<String>)
        ensures
            r is Some <==> self.params_map().contains_key(name@),
            r matches Some(v) ==> v@ == self.params_map()[name@],
    {
        let mut i = self.params.len();
        while i > 0
            invariant
                i <= self.params@.len(),
                forall|j: int| i <= j < self.params@.len() ==> self.params@[j].0@ != name@,
            decreases i,
        {
            if str_eq(self.params[i - 1].0.as_str(), name) {
                proof { lemma_pairs_map_last_hit(pairs_view(self.params@), name@, i - 1); }
                return Some(self.params[i - 1].1.clone());
            }
            i = i - 1;
        }
        proof { lemma_pairs_map_absent(pairs_view(self.params@), name@); }
        None
    }
}

proof fn lemma_pairs_map_last_hit(pairs: Seq<(Seq<char>, Seq<char>)>, k: Seq<char>, j: int)
    requires
        0 <= j < pairs.len(),
        pairs[j].0 == k,
        forall|m: int| j < m < pairs.len() ==> pairs[m].0 != k,
    ensures
        pairs_map(pairs).contains_key(k),
        pairs_map(pairs)[k] == pairs[j].1,
    decreases pairs.len(),
{
    if j < pairs.len() - 1 {
        lemma_pairs_map_last_hit(pairs.drop_last(), k, j);
    }
}

proof fn lemma_pairs_map_absent(pairs: Seq<(Seq<char>, Seq<char>)>, k: Seq<char>)
    requires
        forall|j: int| 0 <= j < pairs.len() ==> pairs[j].0 != k,
    ensures
        !pairs_map(pairs).contains_key(k),
    decreases pairs.len(),
{
    if pairs.len() > 0 {
        lemma_pairs_map_absent(pairs.drop_last(), k);
    }
}


/// The value of one hexadecimal digit byte.
pub open spec fn hex_digit(b: u8) -> Option<u8> {
    if 48 <= b && b <= 57 {
        Some((b - 48) as u8)
    } else if 97 <= b && b <= 102 {
        Some((b - 87) as u8)
    } else if 65 <= b && b <= 70 {
        Some((b - 55) as u8)
    } else {
        None
    }
}

/// The byte named by a two-byte escape: two hex digits, either case.
pub open spec fn escape_value(a: u8, b: u8) -> Option<u8> {
    match (hex_digit(a), hex_digit(b)) {
        (Some(x), Some(y)) => Some((x * 16 + y) as u8),
        _ => None,
    }
}

/// Percent-decoding of a byte string: `%` followed by a readable two-byte
/// escape becomes that byte; every other byte, a stray `%` included, is kept.
pub open spec fn percent_decoded(bytes: Seq<u8>) -> Seq<u8>
    decreases bytes.len(),
{
    if bytes.len() == 0 {
        Seq::empty()
    } else if bytes[0] == 37 && 2 < bytes.len() && escape_value(bytes[1], bytes[2]) is Some {
        seq![escape_value(bytes[1], bytes[2])->0] + percent_decoded(bytes.skip(3))
    } else {
        seq![bytes[0]] + percent_decoded(bytes.skip(1))
    }
}

/// Bytes without a `%` decode to themselves.
pub proof fn decoding_without_escapes_is_identity(bytes: Seq<u8>)
    requires
        forall|i: int| 0 <= i < bytes.len() ==> bytes[i] != 37,
    ensures
        percent_decoded(bytes) == bytes,
    decreases bytes.len(),
{
    if bytes.len() > 0 {
        let rest = bytes.skip(1);
        assert forall|i: int| 0 <= i < rest.len() implies rest[i] != 37 by {
            assert(rest[i] == bytes[i + 1]);
        }
        decoding_without_escapes_is_identity(rest);
        assert(seq![bytes[0]] + rest =~= bytes);
    }
}

proof fn lemma_scalar_bytes_not_percent(v: u32)
    requires
        v != 37,
        vstd::utf8::is_scalar(v),
    ensures
        forall|i: int| 0 <= i < vstd::utf8::encode_scalar(v).len() ==> vstd::utf8::encode_scalar(v)[i] != 37,
{
    assert(forall|x: u8| #![auto] (0x80u8 | x) != 37u8) by (bit_vector);
    assert(forall|x: u8| #![auto] (0xC0u8 | x) != 37u8) by (bit_vector);
    assert(forall|x: u8| #![auto] (0xE0u8 | x) != 37u8) by (bit_vector);
    assert(forall|x: u8| #![auto] (0xF0u8 | x) != 37u8) by (bit_vector);
    if vstd::utf8::has_width_1_encoding(v) {
        assert((v & 0x7F) as u8 != 37u8) by (bit_vector)
            requires
                v <= 0x7F,
                v != 37,
        ;
    }
}

proof fn lemma_encoding_has_no_percent(chars: Seq<char>)
    requires
        !chars.contains('%'),
    ensures
        forall|i: int| 0 <= i < vstd::utf8::encode_utf8(chars).len() ==> vstd::utf8::encode_utf8(chars)[i] != 37,
    decreases chars.len(),
{
    if chars.len() > 0 {
        let rest = chars.drop_first();
        assert(!rest.contains('%')) by {
            if rest.contains('%') {
                let j = choose|j: int| 0 <= j < rest.len() && rest[j] == '%';
                assert(chars[j + 1] == '%');
            }
        }
        lemma_encoding_has_no_percent(rest);
        let c = chars[0];
        assert(c != '%') by {
            if c == '%' {
                assert(chars.contains('%'));
            }
        }
        vstd::utf8::char_is_scalar(c);
        assert(c as u32 != 37) by {
            vstd::utf8::char_u32_cast(c, c as u32);
            vstd::utf8::char_u32_cast('%', '%' as u32);
        }
        lemma_scalar_bytes_not_percent(c as u32);
        let head = vstd::utf8::encode_scalar(c as u32);
        let tail = vstd::utf8::encode_utf8(rest);
        assert(vstd::utf8::encode_utf8(chars) == head + tail);
        assert forall|i: int| 0 <= i < (head + tail).len() implies (head + tail)[i] != 37 by {
            if i >= head.len() {
                assert((head + tail)[i] == tail[i - head.len()]);
            }
        }
    }
}

/// A path segment with no `%` is captured exactly as written.
pub proof fn segments_without_escapes_read_as_written(seg: Seq<char>)
    requires
        !seg.contains('%'),
    ensures
        decoded_segment(seg) == seg,
{
    let bytes = vstd::utf8::encode_utf8(seg);
    lemma_encoding_has_no_percent(seg);
    decoding_without_escapes_is_identity(bytes);
    vstd::utf8::encode_utf8_valid_utf8(seg);
    vstd::utf8::encode_utf8_decode_utf8(seg);
}

fn hex_digit_exec(b: u8) -> (r: Option<u8>)
    ensures
        r == hex_digit(b),
{
    if 48 <= b && b <= 57 {
        Some(b - 48)
    } else if 97 <= b && b <= 102 {
        Some(b - 87)
    } else if 65 <= b && b <= 70 {
        Some(b - 55)
    } else {
        None
    }
}

fn escape_value_exec(a: u8, b: u8) -> (r: Option<u8>)
    ensures
        r == escape_value(a, b),
{
    match (hex_digit_exec(a), hex_digit_exec(b)) {
        (Some(x), Some(y)) => Some(x * 16 + y),
        _ => None,
    }
}

/// Percent-decode one path segment or query token. Invalid escapes are kept
/// as they are and non-UTF-8 results are rendered lossily, so a malformed
/// client request is still answered.
pub fn percent_decode(bytes: &[u8]) -> (out: String)
    ensures
        out@ == lossy_text(percent_decoded(bytes@)),
{
    let mut out: Vec<u8> = Vec::new();
    let mut i: usize = 0;
    assert(bytes@.skip(0) =~= bytes@);
    assert(out@ + percent_decoded(bytes@) =~= percent_decoded(bytes@));
    while i < bytes.len()
        invariant
            i <= bytes@.len(),
            out@ + percent_decoded(bytes@.skip(i as int)) == percent_decoded(bytes@),
        decreases bytes@.len() - i,
    {
        let ghost rest = bytes@.skip(i as int);
        if bytes[i] == 37 && 2 < bytes.len() - i {
            if let Some(byte) = escape_value_exec(bytes[i + 1], bytes[i + 2]) {
                assert(rest.skip(3) =~= bytes@.skip(i + 3));
                out.push(byte);
                i = i + 3;
                assert(out@ + percent_decoded(bytes@.skip(i as int)) =~= percent_decoded(bytes@));
                continue;
            }
        }
        assert(rest.skip(1) =~= bytes@.skip(i + 1));
        out.push(bytes[i]);
        i = i + 1;
        assert(out@ + percent_decoded(bytes@.skip(i as int)) =~= percent_decoded(bytes@));
    }
    assert(bytes@.skip(i as int) =~= Seq::<u8>::empty());
    assert(out@ =~= percent_decoded(bytes@));
    lossy_string(out.as_slice())
}


/// The non-empty `/`-separated segments of a path, in order.
pub open spec fn path_segments(s: Seq<char>) -> Seq<Seq<char>> {
    nonempty_pieces(s, '/')
}

/// Split a path into its non-empty segments.
fn split(value: &str) -> (out: Vec<Vec<char>>)
    ensures
        vecs_view(out@) == path_segments(value@),
{
    let chars = chars_of(value);
    split_nonempty(chars.as_slice(), '/')
}

/// A pattern segment that captures: `:` followed by its name.
pub open spec fn is_capture(p: Seq<char>) -> bool {
    p.len() > 0 && p[0] == ':'
}

/// Pattern segments accept path segments: same count, every capture is named,
/// every literal segment is equal.
pub open spec fn segments_agree(p: Seq<Seq<char>>, s: Seq<Seq<char>>) -> bool {
    &&& p.len() == s.len()
    &&& forall|i: int|
        0 <= i < p.len() ==> if is_capture(#[trigger] p[i]) {
            p[i].len() > 1
        } else {
            p[i] == s[i]
        }
}

/// A captured segment's value: its UTF-8 bytes, percent-decoded.
pub open spec fn decoded_segment(seg: Seq<char>) -> Seq<char> {
    lossy_text(percent_decoded(vstd::utf8::encode_utf8(seg)))
}

/// The `(name, value)` captures of agreeing segments, in pattern order.
pub open spec fn captures(p: Seq<Seq<char>>, s: Seq<Seq<char>>) -> Seq<(Seq<char>, Seq<char>)>
    decreases p.len(),
{
    if p.len() == 0 || s.len() == 0 {
        Seq::empty()
    } else {
        let prev = captures(p.drop_last(), s.drop_last());
        if is_capture(p.last()) {
            prev.push((p.last().drop_first(), decoded_segment(s.last())))
        } else {
            prev
        }
    }
}

fn match_segments(pattern: &str, segments: &Vec<Vec<char>>) -> (r: Option<Vec<(String, String)>>)
    ensures
        r is Some <==> segments_agree(path_segments(pattern@), vecs_view(segments@)),
        r matches Some(params) ==> pairs_view(params@) == captures(
            path_segments(pattern@),
            vecs_view(segments@),
        ),
{
    let pattern_segments = split(pattern);
    let ghost p = path_segments(pattern@);
    let ghost s = vecs_view(segments@);
    if pattern_segments.len() != segments.len() {
        return None;
    }
    let mut params: Vec<(String, String)> = Vec::new();
    let mut i: usize = 0;
    while i < pattern_segments.len()
        invariant
            vecs_view(pattern_segments@) == p,
            p == path_segments(pattern@),
            s == vecs_view(segments@),
            p.len() == s.len(),
            pattern_segments@.len() == segments@.len(),
            i <= p.len(),
            forall|k: int| 0 <= k < i ==> if is_capture(#[trigger] p[k]) {
                p[k].len() > 1
            } else {
                p[k] == s[k]
            },
            pairs_view(params@) == captures(p.take(i as int), s.take(i as int)),
        decreases p.len() - i,
    {
        let expected = &pattern_segments[i];
        let actual = &segments[i];
        assert(expected@ == p[i as int]);
        assert(actual@ == s[i as int]);
        assert(p.take(i + 1).drop_last() =~= p.take(i as int));
        assert(s.take(i + 1).drop_last() =~= s.take(i as int));
        assert(p.take(i + 1).last() == p[i as int]);
        assert(s.take(i + 1).last() == s[i as int]);
        if expected.len() > 0 && expected[0] == ':' {
            if expected.len() == 1 {
                assert(is_capture(p[i as int]) && p[i as int].len() == 1);
                assert(!segments_agree(p, s));
                return None;
            }
            let name = string_of(&expected.as_slice()[1..expected.len()]);
            let seg = string_of(actual.as_slice());
            let value = percent_decode(seg.as_str().as_bytes());
            assert(name@ =~= p[i as int].drop_first());
            let ghost before = params@;
            params.push((name, value));
            assert(pairs_view(params@) =~= pairs_view(before).push((name@, value@)));
        } else {
            let same = expected.len() == actual.len() && {
                let mut k: usize = 0;
                let mut eq = true;
                while k < expected.len()
                    invariant
                        expected@.len() == actual@.len(),
                        k <= expected@.len(),
                        eq == (forall|m: int| 0 <= m < k ==> expected@[m] == actual@[m]),
                    decreases expected@.len() - k,
                {
                    if expected[k] != actual[k] {
                        eq = false;
                    }
                    k = k + 1;
                }
                eq
            };
            if !same {
                assert(expected@ != actual@);
                assert(!is_capture(p[i as int]));
                assert(!segments_agree(p, s));
                return None;
            }
            assert(expected@ =~= actual@);
        }
        i = i + 1;
    }
    assert(p.take(i as int) =~= p);
    assert(s.take(i as int) =~= s);
    Some(params)
}

/// The route accepts an upper-cased method and request path segments.
pub open spec fn route_accepts(route: Route, method: Seq<char>, segs: Seq<Seq<char>>) -> bool {
    route.method@ == method && segments_agree(path_segments(route.path@), segs)
}

/// A literal pattern segment accepts only the identical request segment:
/// when any literal segment differs, in content or length, from the request
/// segment at its place, the route does not accept the request.
pub proof fn differing_literal_segment_rejects(route: Route, method: Seq<char>, segs: Seq<Seq<char>>, i: int)
    requires
        0 <= i < path_segments(route.path@).len(),
        i < segs.len(),
        !is_capture(path_segments(route.path@)[i]),
        path_segments(route.path@)[i] != segs[i],
    ensures
        !route_accepts(route, method, segs),
{
}

/// A pattern with as many segments as the request, all literal and each
/// identical to the request's, accepts the request under its method.
pub proof fn identical_literal_segments_accept(route: Route, segs: Seq<Seq<char>>)
    requires
        path_segments(route.path@).len() == segs.len(),
        forall|i: int|
            0 <= i < segs.len() ==> !is_capture(#[trigger] path_segments(route.path@)[i])
                && path_segments(route.path@)[i] == segs[i],
    ensures
        route_accepts(route, route.method@, segs),
{
}

/// Every `:name` segment of a pattern that agrees with the request captures
/// `name` with the request segment at its place, percent-decoded.
pub proof fn each_capture_is_recorded(p: Seq<Seq<char>>, s: Seq<Seq<char>>, i: int)
    requires
        segments_agree(p, s),
        0 <= i < p.len(),
        is_capture(p[i]),
    ensures
        captures(p, s).contains((p[i].drop_first(), decoded_segment(s[i]))),
    decreases p.len(),
{
    let pp = p.drop_last();
    let ss = s.drop_last();
    let prev = captures(pp, ss);
    if i == p.len() - 1 {
        assert(captures(p, s) == prev.push((p.last().drop_first(), decoded_segment(s.last()))));
        assert(captures(p, s)[prev.len() as int] == (p[i].drop_first(), decoded_segment(s[i])));
    } else {
        assert forall|k: int| 0 <= k < pp.len() implies if is_capture(#[trigger] pp[k]) {
            pp[k].len() > 1
        } else {
            pp[k] == ss[k]
        } by {
            assert(pp[k] == p[k]);
            assert(ss[k] == s[k]);
        }
        assert(pp[i] == p[i] && ss[i] == s[i]);
        each_capture_is_recorded(pp, ss, i);
        let j = choose|j: int| 0 <= j < prev.len() && prev[j] == (p[i].drop_first(), decoded_segment(s[i]));
        if is_capture(p.last()) {
            assert(captures(p, s) == prev.push((p.last().drop_first(), decoded_segment(s.last()))));
            assert(captures(p, s)[j] == prev[j]);
        } else {
            assert(captures(p, s) == prev);
        }
    }
}

/// A captured request segment with no `%` is recorded exactly as written.
pub proof fn plain_captures_are_recorded_as_written(p: Seq<Seq<char>>, s: Seq<Seq<char>>, i: int)
    requires
        segments_agree(p, s),
        0 <= i < p.len(),
        is_capture(p[i]),
        !s[i].contains('%'),
    ensures
        captures(p, s).contains((p[i].drop_first(), s[i])),
{
    each_capture_is_recorded(p, s, i);
    segments_without_escapes_read_as_written(s[i]);
}

/// `r` is the outcome of matching: `None` when no route handles the method
/// (ASCII upper-cased) and path; otherwise the first such route in
/// declaration order, with the path parameters it captures.
pub open spec fn first_match(routes: Seq<Route>, method: Seq<char>, path: Seq<char>, r: Option<Match>) -> bool {
    &&& r is None ==> forall|j: int|
        0 <= j < routes.len() ==> !route_accepts(#[trigger] routes[j], upper_seq(method), path_segments(path))
    &&& r matches Some(m) ==> {
        &&& m.route_index < routes.len()
        &&& route_accepts(routes[m.route_index as int], upper_seq(method), path_segments(path))
        &&& forall|j: int|
            0 <= j < m.route_index ==> !route_accepts(#[trigger] routes[j], upper_seq(method), path_segments(path))
        &&& pairs_view(m.params@) == captures(path_segments(routes[m.route_index as int].path@), path_segments(path))
    }
}

/// Two methods equal up to ASCII case match the same routes with the same
/// captures.
pub proof fn method_case_is_ignored(routes: Seq<Route>, m1: Seq<char>, m2: Seq<char>, path: Seq<char>, r: Option<Match>)
    requires
        upper_seq(m1) == upper_seq(m2),
    ensures
        first_match(routes, m1, path, r) <==> first_match(routes, m2, path, r),
{
}

/// The first route, in declaration order, that handles this method and path.
/// The method is compared after ASCII upper-casing.
pub fn match_route(routes: &[Route], method: &str, path: &str) -> (r: Option<Match>)
    ensures
        first_match(routes@, method@, path@, r),
{
    let upper = to_ascii_upper(method);
    let segments = split(path);
    let mut index: usize = 0;
    while index < routes.len()
        invariant
            index <= routes@.len(),
            upper@ == upper_seq(method@),
            vecs_view(segments@) == path_segments(path@),
            forall|j: int|
                0 <= j < index ==> !route_accepts(
                    #[trigger] routes@[j],
                    upper@,
                    vecs_view(segments@),
                ),
        decreases routes@.len() - index,
    {
        let route = &routes[index];
        if str_eq(route.method.as_str(), upper.as_str()) {
            if let Some(params) = match_segments(route.path.as_str(), &segments) {
                return Some(Match { route_index: index, params });
            }
        }
        index = index + 1;
    }
    None
}

} // verus!
