//! Character-sequence helpers shared by the request and configuration code.
use vstd::prelude::*;

verus! {

/// `String::push` appends one character to the end of the string.
pub assume_specification[ std::string::String::push ](s: &mut std::string::String, ch: char)
    ensures
        final(s)@ == old(s)@.push(ch),
;

/// The characters of a string slice, in order.
pub fn chars_of(s: &str) -> (out: Vec<char>)
    ensures
        out@ == s@,
{
    let mut out: Vec<char> = Vec::new();
    for c in it: s.chars()
        invariant
            out@ == it.seq().take(it.index() as int),
            it.seq() == s@,
    {
        out.push(c);
    }
    out
}

/// A string holding exactly the given characters.
pub fn string_of(chars: &[char]) -> (out: String)
    ensures
        out@ == chars@,
{
    let mut out = String::new();
    let mut i: usize = 0;
    while i < chars.len()
        invariant
            i <= chars@.len(),
            out@ == chars@.take(i as int),
        decreases chars@.len() - i,
    {
        out.push(chars[i]);
        i = i + 1;
        assert(out@ =~= chars@.take(i as int));
    }
    assert(chars@.take(chars@.len() as int) =~= chars@);
    out
}

} // verus!

verus! {

/// ASCII upper-casing of one character; other characters are unchanged.
pub open spec fn ascii_upper(c: char) -> char {
    if 'a' <= c && c <= 'z' {
        ((c as u32) - 32) as char
    } else {
        c
    }
}

/// ASCII lower-casing of one character; other characters are unchanged.
pub open spec fn ascii_lower(c: char) -> char {
    if 'A' <= c && c <= 'Z' {
        ((c as u32) + 32) as char
    } else {
        c
    }
}

pub open spec fn upper_seq(s: Seq<char>) -> Seq<char> {
    s.map_values(|c: char| ascii_upper(c))
}

/// Upper-casing twice is upper-casing once.
pub proof fn upper_is_idempotent(s: Seq<char>)
    ensures
        upper_seq(upper_seq(s)) == upper_seq(s),
{
    assert(upper_seq(upper_seq(s)) =~= upper_seq(s));
}

pub open spec fn lower_seq(s: Seq<char>) -> Seq<char> {
    s.map_values(|c: char| ascii_lower(c))
}

pub fn upper_char(c: char) -> (r: char)
    ensures
        r == ascii_upper(c),
{
    if 'a' <= c && c <= 'z' {
        let b = c as u8;
        assert(b as u32 == c as u32);
        ((b - 32) as u8) as char
    } else {
        c
    }
}

pub fn lower_char(c: char) -> (r: char)
    ensures
        r == ascii_lower(c),
{
    if 'A' <= c && c <= 'Z' {
        let b = c as u8;
        assert(b as u32 == c as u32);
        ((b + 32) as u8) as char
    } else {
        c
    }
}

/// ASCII upper-casing of a whole string, as `str::to_ascii_uppercase` does.
pub fn to_ascii_upper(s: &str) -> (out: String)
    ensures
        out@ == upper_seq(s@),
{
    let chars = chars_of(s);
    let mut out = String::new();
    let mut i: usize = 0;
    while i < chars.len()
        invariant
            chars@ == s@,
            i <= chars@.len(),
            out@ == upper_seq(s@).take(i as int),
        decreases chars@.len() - i,
    {
        out.push(upper_char(chars[i]));
        i = i + 1;
        assert(out@ =~= upper_seq(s@).take(i as int));
    }
    assert(upper_seq(s@).take(i as int) =~= upper_seq(s@));
    out
}

/// ASCII lower-casing of a whole string, as `str::to_ascii_lowercase` does.
pub fn to_ascii_lower(s: &str) -> (out: String)
    ensures
        out@ == lower_seq(s@),
{
    let chars = chars_of(s);
    let mut out = String::new();
    let mut i: usize = 0;
    while i < chars.len()
        invariant
            chars@ == s@,
            i <= chars@.len(),
            out@ == lower_seq(s@).take(i as int),
        decreases chars@.len() - i,
    {
        out.push(lower_char(chars[i]));
        i = i + 1;
        assert(out@ =~= lower_seq(s@).take(i as int));
    }
    assert(lower_seq(s@).take(i as int) =~= lower_seq(s@));
    out
}

/// Character-by-character equality of two strings.
pub fn str_eq(a: &str, b: &str) -> (r: bool)
    ensures
        r == (a@ == b@),
{
    let x = chars_of(a);
    let y = chars_of(b);
    if x.len() != y.len() {
        return false;
    }
    let mut i: usize = 0;
    while i < x.len()
        invariant
            x@ == a@,
            y@ == b@,
            x@.len() == y@.len(),
            i <= x@.len(),
            forall|j: int| 0 <= j < i ==> x@[j] == y@[j],
        decreases x@.len() - i,
    {
        if x[i] != y[i] {
            return false;
        }
        i = i + 1;
    }
    assert(a@ =~= b@);
    true
}

/// Bytes decoded as UTF-8, with each invalid sequence replaced by U+FFFD,
/// as `String::from_utf8_lossy` renders them.
pub uninterp spec fn utf8_lossy(bytes: Seq<u8>) -> Seq<char>;

/// Bytes read as text: valid UTF-8 decoded as it stands, anything else
/// through the replacement rules of `String::from_utf8_lossy`.
pub open spec fn lossy_text(bytes: Seq<u8>) -> Seq<char> {
    if vstd::utf8::valid_utf8(bytes) {
        vstd::utf8::decode_utf8(bytes)
    } else {
        utf8_lossy(bytes)
    }
}

/// `String::from_utf8_lossy`: valid UTF-8 is decoded unchanged (the
/// documented borrowed case); other input goes through the replacement rules,
/// which are named here rather than stated.
#[verifier::external_body]
pub(crate) fn lossy_string(bytes: &[u8]) -> (out: String)
    ensures
        out@ == utf8_lossy(bytes@),
        vstd::utf8::valid_utf8(bytes@) ==> out@ == vstd::utf8::decode_utf8(bytes@),
        out@ == lossy_text(bytes@),
{
    String::from_utf8_lossy(bytes).into_owned()
}

/// `std::str::from_utf8`: the text of the bytes when they are valid UTF-8.
#[verifier::external_body]
pub(crate) fn utf8_text(bytes: &[u8]) -> (out: Option<String>)
    ensures
        out is Some <==> vstd::utf8::valid_utf8(bytes@),
        out matches Some(t) ==> t@ == vstd::utf8::decode_utf8(bytes@),
{
    std::str::from_utf8(bytes).ok().map(str::to_string)
}

} // verus!

verus! {

/// `char::is_whitespace`: the Unicode `White_Space` property.
pub open spec fn is_white(c: char) -> bool {
    let u = c as u32;
    ||| 9 <= u && u <= 13
    ||| u == 32
    ||| u == 0x85
    ||| u == 0xA0
    ||| u == 0x1680
    ||| 0x2000 <= u && u <= 0x200A
    ||| u == 0x2028
    ||| u == 0x2029
    ||| u == 0x202F
    ||| u == 0x205F
    ||| u == 0x3000
}

pub fn is_white_exec(c: char) -> (r: bool)
    ensures
        r == is_white(c),
{
    let u = c as u32;
    (9 <= u && u <= 13) || u == 32 || u == 0x85 || u == 0xA0 || u == 0x1680 || (0x2000 <= u && u
        <= 0x200A) || u == 0x2028 || u == 0x2029 || u == 0x202F || u == 0x205F || u == 0x3000
}

/// Number of leading whitespace characters.
pub open spec fn lead_ws(s: Seq<char>) -> nat
    decreases s.len(),
{
    if s.len() > 0 && is_white(s[0]) {
        1 + lead_ws(s.drop_first())
    } else {
        0
    }
}

/// Number of trailing whitespace characters.
pub open spec fn trail_ws(s: Seq<char>) -> nat
    decreases s.len(),
{
    if s.len() > 0 && is_white(s.last()) {
        1 + trail_ws(s.drop_last())
    } else {
        0
    }
}

/// `str::trim`: the text without leading and trailing whitespace.
pub open spec fn trimmed(s: Seq<char>) -> Seq<char> {
    let t = s.skip(lead_ws(s) as int);
    t.take(t.len() - trail_ws(t))
}

proof fn lemma_lead_ws_bound(s: Seq<char>)
    ensures
        lead_ws(s) <= s.len(),
    decreases s.len(),
{
    if s.len() > 0 && is_white(s[0]) {
        lemma_lead_ws_bound(s.drop_first());
    }
}

proof fn lemma_trail_ws_bound(s: Seq<char>)
    ensures
        trail_ws(s) <= s.len(),
    decreases s.len(),
{
    if s.len() > 0 && is_white(s.last()) {
        lemma_trail_ws_bound(s.drop_last());
    }
}

/// The characters of `s` without leading and trailing whitespace.
pub fn trim(s: &[char]) -> (out: Vec<char>)
    ensures
        out@ == trimmed(s@),
{
    let mut a: usize = 0;
    proof { lemma_lead_ws_bound(s@); }
    assert(s@.skip(0) =~= s@);
    while a < s.len() && is_white_exec(s[a])
        invariant
            a <= s@.len(),
            lead_ws(s@) == a + lead_ws(s@.skip(a as int)),
        decreases s@.len() - a,
    {
        assert(s@.skip(a as int).drop_first() =~= s@.skip(a + 1));
        a = a + 1;
    }
    let ghost t = s@.skip(a as int);
    assert(lead_ws(t) == 0);
    let mut b: usize = s.len();
    proof { lemma_trail_ws_bound(t); }
    assert(t.take(b - a) =~= t);
    while b > a && is_white_exec(s[b - 1])
        invariant
            a <= b <= s@.len(),
            t == s@.skip(a as int),
            trail_ws(t) == (s@.len() - b) + trail_ws(t.take(b - a)),
        decreases b,
    {
        assert(t.take(b - a).drop_last() =~= t.take(b - a - 1));
        assert(t.take(b - a).last() == s@[b - 1]);
        b = b - 1;
    }
    assert(trail_ws(t.take(b - a)) == 0);
    let mut out: Vec<char> = Vec::new();
    let mut i = a;
    while i < b
        invariant
            a <= i <= b <= s@.len(),
            out@ == s@.subrange(a as int, i as int),
        decreases b - i,
    {
        out.push(s[i]);
        i = i + 1;
        assert(out@ =~= s@.subrange(a as int, i as int));
    }
    assert(trimmed(s@) =~= s@.subrange(a as int, b as int));
    out
}

/// Position of the first occurrence of `c`.
pub open spec fn find_char(s: Seq<char>, c: char) -> Option<int>
    decreases s.len(),
{
    if s.len() == 0 {
        None
    } else if s[0] == c {
        Some(0)
    } else {
        match find_char(s.drop_first(), c) {
            Some(i) => Some(i + 1),
            None => None,
        }
    }
}

proof fn lemma_find_char(s: Seq<char>, c: char)
    ensures
        find_char(s, c) matches Some(i) ==> 0 <= i < s.len() && s[i] == c && forall|j: int|
            0 <= j < i ==> s[j] != c,
        find_char(s, c) is None ==> forall|j: int| 0 <= j < s.len() ==> s[j] != c,
    decreases s.len(),
{
    if s.len() > 0 {
        lemma_find_char(s.drop_first(), c);
        if s[0] != c {
            assert forall|j: int| 1 <= j < s.len() implies s[j] == s.drop_first()[j - 1] by {}
        }
    }
}

/// `str::split_once`: the text before and after the first `c`.
pub open spec fn split_once(s: Seq<char>, c: char) -> Option<(Seq<char>, Seq<char>)> {
    match find_char(s, c) {
        Some(i) => Some((s.take(i), s.skip(i + 1))),
        None => None,
    }
}

pub fn find_char_exec(s: &[char], c: char) -> (r: Option<usize>)
    ensures
        r matches Some(i) ==> find_char(s@, c) == Some(i as int),
        r is None ==> find_char(s@, c) is None,
{
    proof { lemma_find_char(s@, c); }
    let mut i: usize = 0;
    while i < s.len()
        invariant
            i <= s@.len(),
            forall|j: int| 0 <= j < i ==> s@[j] != c,
        decreases s@.len() - i,
    {
        if s[i] == c {
            proof {
                lemma_find_char(s@, c);
                if let Some(k) = find_char(s@, c) {
                    assert(k == i);
                }
            }
            return Some(i);
        }
        i = i + 1;
    }
    None
}

/// The characters `s[from..to]`.
pub fn slice_chars(s: &[char], from: usize, to: usize) -> (out: Vec<char>)
    requires
        from <= to <= s@.len(),
    ensures
        out@ == s@.subrange(from as int, to as int),
{
    let mut out: Vec<char> = Vec::new();
    let mut i = from;
    while i < to
        invariant
            from <= i <= to <= s@.len(),
            out@ == s@.subrange(from as int, i as int),
        decreases to - i,
    {
        out.push(s[i]);
        i = i + 1;
        assert(out@ =~= s@.subrange(from as int, i as int));
    }
    out
}

/// Split once on the first `c`.
pub fn split_once_exec(s: &[char], c: char) -> (r: Option<(Vec<char>, Vec<char>)>)
    ensures
        r is Some <==> split_once(s@, c) is Some,
        r matches Some(p) ==> split_once(s@, c) == Some((p.0@, p.1@)),
{
    match find_char_exec(s, c) {
        Some(i) => {
            proof { lemma_find_char(s@, c); }
            assert(i < s@.len());
            let n = s.len();
            assert(i < n);
            let a = slice_chars(s, 0, i);
            let b = slice_chars(s, i + 1, n);
            assert(a@ =~= s@.take(i as int));
            assert(b@ =~= s@.skip(i + 1));
            Some((a, b))
        },
        None => None,
    }
}

/// Whether `c` occurs in `s`.
pub fn contains_char(s: &[char], c: char) -> (r: bool)
    ensures
        r == s@.contains(c),
{
    proof { lemma_find_char(s@, c); }
    match find_char_exec(s, c) {
        Some(i) => {
            assert(s@[i as int] == c);
            true
        },
        None => false,
    }
}

/// ASCII case-insensitive equality, as `str::eq_ignore_ascii_case`.
pub open spec fn eq_ignore_case(a: Seq<char>, b: Seq<char>) -> bool {
    lower_seq(a) == lower_seq(b)
}

pub fn eq_ignore_case_exec(a: &[char], b: &[char]) -> (r: bool)
    ensures
        r == eq_ignore_case(a@, b@),
{
    if a.len() != b.len() {
        assert(lower_seq(a@).len() != lower_seq(b@).len());
        return false;
    }
    let mut i: usize = 0;
    while i < a.len()
        invariant
            a@.len() == b@.len(),
            i <= a@.len(),
            forall|j: int| 0 <= j < i ==> ascii_lower(a@[j]) == ascii_lower(b@[j]),
        decreases a@.len() - i,
    {
        if lower_char(a[i]) != lower_char(b[i]) {
            assert(lower_seq(a@)[i as int] != lower_seq(b@)[i as int]);
            return false;
        }
        i = i + 1;
    }
    assert(lower_seq(a@) =~= lower_seq(b@));
    true
}

/// Decimal digits only.
pub open spec fn all_digits(s: Seq<char>) -> bool {
    forall|i: int| 0 <= i < s.len() ==> '0' <= #[trigger] s[i] && s[i] <= '9'
}

/// The number written by a string of decimal digits.
pub open spec fn decimal_value(s: Seq<char>) -> nat
    decreases s.len(),
{
    if s.len() == 0 {
        0
    } else {
        decimal_value(s.drop_last()) * 10 + ((s.last() as u32) - 48) as nat
    }
}

/// A non-empty run of decimal digits read as a `u64`; `None` when the text
/// is empty, holds another character, or names a number above `u64::MAX`.
pub open spec fn digits_u64(s: Seq<char>) -> Option<u64> {
    if s.len() > 0 && all_digits(s) && decimal_value(s) <= u64::MAX {
        Some(decimal_value(s) as u64)
    } else {
        None
    }
}

proof fn lemma_decimal_monotone(s: Seq<char>, i: int)
    requires
        0 <= i <= s.len(),
        all_digits(s),
    ensures
        decimal_value(s.take(i)) <= decimal_value(s),
    decreases s.len() - i,
{
    if i < s.len() {
        lemma_decimal_monotone(s, i + 1);
        assert(s.take(i + 1).drop_last() =~= s.take(i));
    } else {
        assert(s.take(i) =~= s);
    }
}

pub fn parse_digits_u64(s: &[char]) -> (r: Option<u64>)
    ensures
        r == digits_u64(s@),
{
    if s.len() == 0 {
        return None;
    }
    let mut i: usize = 0;
    while i < s.len()
        invariant
            i <= s@.len(),
            forall|j: int| 0 <= j < i ==> '0' <= #[trigger] s@[j] && s@[j] <= '9',
        decreases s@.len() - i,
    {
        if !('0' <= s[i] && s[i] <= '9') {
            return None;
        }
        i = i + 1;
    }
    let mut value: u64 = 0;
    let mut k: usize = 0;
    assert(s@.take(0) =~= Seq::<char>::empty());
    while k < s.len()
        invariant
            k <= s@.len(),
            all_digits(s@),
            value as nat == decimal_value(s@.take(k as int)),
        decreases s@.len() - k,
    {
        let d = (s[k] as u32 - 48) as u64;
        assert(s@.take(k + 1).drop_last() =~= s@.take(k as int));
        assert(s@.take(k + 1).last() == s@[k as int]);
        if value > (u64::MAX - d) / 10 {
            proof {
                lemma_decimal_monotone(s@, k + 1);
                assert(value * 10 + d > u64::MAX) by (nonlinear_arith)
                    requires value > (u64::MAX - d) / 10, d <= 9;
            }
            return None;
        }
        proof {
            assert(value * 10 + d <= u64::MAX) by (nonlinear_arith)
                requires value <= (u64::MAX - d) / 10, d <= 9;
        }
        value = value * 10 + d;
        k = k + 1;
    }
    assert(s@.take(k as int) =~= s@);
    Some(value)
}

} // verus!

verus! {

/// The decimal digit character for `d < 10`.
pub open spec fn digit_char(d: nat) -> char {
    (48 + d) as char
}

/// The decimal numeral of a natural number, without leading zeros.
pub open spec fn decimal_text(n: nat) -> Seq<char>
    decreases n,
{
    if n < 10 {
        seq![digit_char(n)]
    } else {
        decimal_text(n / 10).push(digit_char(n % 10))
    }
}

/// The decimal numeral of an integer, with a leading `-` when negative.
pub open spec fn signed_decimal_text(i: int) -> Seq<char> {
    if i < 0 {
        seq!['-'] + decimal_text((-i) as nat)
    } else {
        decimal_text(i as nat)
    }
}

/// `u64::to_string`: the decimal numeral of `n`.
pub fn u64_decimal(n: u64) -> (out: String)
    ensures
        out@ == decimal_text(n as nat),
{
    // Digits are produced least significant first, then emitted in reverse.
    let mut rev: Vec<char> = Vec::new();
    let mut m = n;
    loop
        invariant_except_break
            decimal_text(n as nat) == decimal_text(m as nat) + rev@.reverse(),
        ensures
            decimal_text(n as nat) == rev@.reverse(),
        decreases m,
    {
        let d = m % 10;
        let c = ((d as u8) + 48) as char;
        assert(c == digit_char(d as nat));
        if m < 10 {
            assert(decimal_text(m as nat) == seq![c]);
            let ghost before = rev@;
            rev.push(c);
            assert(rev@.reverse() =~= seq![c] + before.reverse());
            break;
        }
        let ghost before = rev@;
        assert(decimal_text(m as nat) == decimal_text((m / 10) as nat).push(c));
        rev.push(c);
        assert(rev@.reverse() =~= seq![c] + before.reverse());
        assert(decimal_text(m as nat) + before.reverse() =~= decimal_text((m / 10) as nat) + rev@.reverse());
        m = m / 10;
    }
    let mut out = String::new();
    let mut i = rev.len();
    while i > 0
        invariant
            i <= rev@.len(),
            out@ == rev@.reverse().take(rev@.len() - i),
        decreases i,
    {
        i = i - 1;
        out.push(rev[i]);
        assert(out@ =~= rev@.reverse().take(rev@.len() - i));
    }
    assert(rev@.reverse().take(rev@.len() as int) =~= rev@.reverse());
    out
}

/// `i64::to_string`: the decimal numeral of `n`, with `-` when negative.
pub fn i64_decimal(n: i64) -> (out: String)
    ensures
        out@ == signed_decimal_text(n as int),
{
    if n < 0 {
        let magnitude: u64 = ((-(n + 1)) as u64) + 1;
        let digits = u64_decimal(magnitude);
        let mut out = String::new();
        out.push('-');
        let out = out.concat(digits.as_str());
        assert(out@ =~= seq!['-'] + decimal_text((-(n as int)) as nat));
        out
    } else {
        u64_decimal(n as u64)
    }
}

/// Items joined by a separator.
pub open spec fn joined(items: Seq<Seq<char>>, sep: Seq<char>) -> Seq<char>
    decreases items.len(),
{
    if items.len() == 0 {
        Seq::empty()
    } else if items.len() == 1 {
        items[0]
    } else {
        joined(items.drop_last(), sep) + sep + items.last()
    }
}

pub open spec fn strs_view(items: Seq<&str>) -> Seq<Seq<char>> {
    items.map_values(|s: &str| s@)
}

pub open spec fn strings_view(items: Seq<String>) -> Seq<Seq<char>> {
    items.map_values(|s: String| s@)
}

/// `items.join(sep)` for string slices.
pub fn join_strs(items: &[&str], sep: &str) -> (out: String)
    ensures
        out@ == joined(strs_view(items@), sep@),
{
    let mut out = String::new();
    let mut i: usize = 0;
    while i < items.len()
        invariant
            i <= items@.len(),
            out@ == joined(strs_view(items@).take(i as int), sep@),
        decreases items@.len() - i,
    {
        let ghost prev = strs_view(items@).take(i as int);
        assert(strs_view(items@).take(i + 1).drop_last() =~= prev);
        if i == 0 {
            out = out.concat(items[i]);
            assert(out@ =~= joined(strs_view(items@).take(1), sep@));
        } else {
            out = out.concat(sep).concat(items[i]);
        }
        i = i + 1;
    }
    assert(strs_view(items@).take(items@.len() as int) =~= strs_view(items@));
    out
}

/// `items.join(sep)` for owned strings.
pub fn join_strings(items: &[String], sep: &str) -> (out: String)
    ensures
        out@ == joined(strings_view(items@), sep@),
{
    let mut out = String::new();
    let mut i: usize = 0;
    while i < items.len()
        invariant
            i <= items@.len(),
            out@ == joined(strings_view(items@).take(i as int), sep@),
        decreases items@.len() - i,
    {
        let ghost prev = strings_view(items@).take(i as int);
        assert(strings_view(items@).take(i + 1).drop_last() =~= prev);
        if i == 0 {
            out = out.concat(items[i].as_str());
            assert(out@ =~= joined(strings_view(items@).take(1), sep@));
        } else {
            out = out.concat(sep).concat(items[i].as_str());
        }
        i = i + 1;
    }
    assert(strings_view(items@).take(items@.len() as int) =~= strings_view(items@));
    out
}

} // verus!

verus! {

/// The `Debug` rendering of a string: quoted, with quotes, backslashes and
/// non-printable characters escaped.
pub uninterp spec fn debug_text(s: Seq<char>) -> Seq<char>;

/// `format!("{s:?}")` for a string slice; its result is named, not stated.
#[verifier::external_body]
pub(crate) fn debug_quoted(s: &str) -> (r: String)
    ensures
        r@ == debug_text(s@),
{
    format!("{s:?}")
}

} // verus!

verus! {

/// One step of splitting on `sep`: completed pieces and the piece being read.
pub open spec fn piece_step(acc: (Seq<Seq<char>>, Seq<char>), c: char, sep: char) -> (Seq<Seq<char>>, Seq<char>) {
    if c == sep {
        (if acc.1.len() > 0 { acc.0.push(acc.1) } else { acc.0 }, Seq::empty())
    } else {
        (acc.0, acc.1.push(c))
    }
}

pub open spec fn piece_state(s: Seq<char>, sep: char) -> (Seq<Seq<char>>, Seq<char>)
    decreases s.len(),
{
    if s.len() == 0 {
        (Seq::empty(), Seq::empty())
    } else {
        piece_step(piece_state(s.drop_last(), sep), s.last(), sep)
    }
}

/// The non-empty `sep`-separated pieces of a text, in order.
pub open spec fn nonempty_pieces(s: Seq<char>, sep: char) -> Seq<Seq<char>> {
    let st = piece_state(s, sep);
    if st.1.len() > 0 {
        st.0.push(st.1)
    } else {
        st.0
    }
}

pub open spec fn vecs_view(v: Seq<Vec<char>>) -> Seq<Seq<char>> {
    v.map_values(|x: Vec<char>| x@)
}

/// Split on `sep`, dropping empty pieces.
pub fn split_nonempty(chars: &[char], sep: char) -> (out: Vec<Vec<char>>)
    ensures
        vecs_view(out@) == nonempty_pieces(chars@, sep),
{
    let mut done: Vec<Vec<char>> = Vec::new();
    let mut cur: Vec<char> = Vec::new();
    let mut i: usize = 0;
    assert(chars@.take(0) =~= Seq::<char>::empty());
    while i < chars.len()
        invariant
            i <= chars@.len(),
            (vecs_view(done@), cur@) == piece_state(chars@.take(i as int), sep),
        decreases chars@.len() - i,
    {
        let c = chars[i];
        assert(chars@.take(i + 1).drop_last() =~= chars@.take(i as int));
        if c == sep {
            if cur.len() > 0 {
                let seg = cur;
                done.push(seg);
                assert(vecs_view(done@) =~= piece_state(chars@.take(i as int), sep).0.push(seg@));
            }
            cur = Vec::new();
        } else {
            cur.push(c);
        }
        i = i + 1;
        assert(vecs_view(done@) =~= piece_state(chars@.take(i as int), sep).0);
        assert(cur@ =~= piece_state(chars@.take(i as int), sep).1);
    }
    assert(chars@.take(i as int) =~= chars@);
    if cur.len() > 0 {
        let ghost d = done@;
        let seg = cur;
        done.push(seg);
        assert(vecs_view(done@) =~= vecs_view(d).push(seg@));
    }
    done
}

} // verus!
