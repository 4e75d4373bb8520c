use vstd::prelude::*;
use vstd::string::StringSliceAdditionalSpecFns;

use crate::hmac::{sha256, sha256_digest};
use crate::ids::has_prefix;
use crate::text::{concat_str, decimal, push_char, push_decimal};

verus! {

/// Whether `c` has the Unicode `White_Space` property: the 25 code points
/// U+0009..U+000D, U+0020, U+0085, U+00A0, U+1680, U+2000..U+200A, U+2028,
/// U+2029, U+202F, U+205F and U+3000.
pub open spec fn unicode_white_space(c: char) -> bool {
    ||| '\u{9}' <= c <= '\u{D}'
    ||| c == ' ' || c == '\u{85}' || c == '\u{A0}' || c == '\u{1680}'
    ||| '\u{2000}' <= c <= '\u{200A}'
    ||| c == '\u{2028}' || c == '\u{2029}' || c == '\u{202F}' || c == '\u{205F}' || c == '\u{3000}'
}

/// Whether `c` is white space, as `char::is_whitespace` decides it.
fn is_whitespace(c: char) -> (r: bool)
    ensures
        r == unicode_white_space(c),
{
    ('\u{9}' <= c && c <= '\u{D}') || c == ' ' || c == '\u{85}' || c == '\u{A0}' || c == '\u{1680}'
        || ('\u{2000}' <= c && c <= '\u{200A}') || c == '\u{2028}' || c == '\u{2029}' || c == '\u{202F}'
        || c == '\u{205F}' || c == '\u{3000}'
}

/// `s` without leading and trailing white space, as `str::trim` returns it.
pub open spec fn trimmed(s: Seq<char>) -> Seq<char>
    decreases s.len(),
{
    if s.len() == 0 {
        s
    } else if unicode_white_space(s[0]) {
        trimmed(s.drop_first())
    } else if unicode_white_space(s.last()) {
        trimmed(s.drop_last())
    } else {
        s
    }
}

/// The text of `s` before its first occurrence of `sep` (all of `s` when
/// `sep` does not occur).
pub open spec fn before_first(s: Seq<char>, sep: char) -> Seq<char>
    decreases s.len(),
{
    if s.len() == 0 {
        s
    } else if s[0] == sep {
        Seq::empty()
    } else {
        seq![s[0]] + before_first(s.drop_first(), sep)
    }
}

/// The text of `s` after its first occurrence of `sep`, if it occurs.
pub open spec fn after_first(s: Seq<char>, sep: char) -> Option<Seq<char>>
    decreases s.len(),
{
    if s.len() == 0 {
        None
    } else if s[0] == sep {
        Some(s.drop_first())
    } else {
        after_first(s.drop_first(), sep)
    }
}

/// Position of the first `sep` in `s[from..]`, or the length of `s`.
fn find_char(s: &str, sep: char, from: usize) -> (pos: usize)
    requires
        from <= s@.len(),
    ensures
        from <= pos <= s@.len(),
        before_first(s@.subrange(from as int, s@.len() as int), sep) == s@.subrange(from as int, pos as int),
        after_first(s@.subrange(from as int, s@.len() as int), sep) == if pos < s@.len() {
            Some(s@.subrange(pos + 1, s@.len() as int))
        } else {
            None::<Seq<char>>
        },
    decreases s@.len() - from,
{
    let n = s.unicode_len();
    if from == n {
        assert(s@.subrange(from as int, s@.len() as int) =~= Seq::<char>::empty());
        return from;
    }
    let ghost tail = s@.subrange(from as int, s@.len() as int);
    assert(tail.drop_first() =~= s@.subrange(from + 1, s@.len() as int));
    if s.get_char(from) == sep {
        assert(s@.subrange(from as int, from as int) =~= Seq::<char>::empty());
        return from;
    }
    let pos = find_char(s, sep, from + 1);
    assert(seq![tail[0]] + s@.subrange(from + 1, pos as int) =~= s@.subrange(from as int, pos as int));
    pos
}

/// Trims white space off both ends of `s[from..to]`.
fn trim_range(s: &str, from: usize, to: usize) -> (r: String)
    requires
        from <= to <= s@.len(),
    ensures
        r@ == trimmed(s@.subrange(from as int, to as int)),
    decreases to - from,
{
    let ghost sub = s@.subrange(from as int, to as int);
    if from == to {
        assert(sub =~= Seq::<char>::empty());
        return String::new();
    }
    if is_whitespace(s.get_char(from)) {
        assert(sub.drop_first() =~= s@.subrange(from + 1, to as int));
        return trim_range(s, from + 1, to);
    }
    if is_whitespace(s.get_char(to - 1)) {
        assert(sub.drop_last() =~= s@.subrange(from as int, to - 1));
        return trim_range(s, from, to - 1);
    }
    s.substring_char(from, to).to_string()
}

/// The client address a request names in its `X-Forwarded-For` header: the
/// first comma-separated entry without surrounding white space, or
/// `"unknown"` when the header is absent.
pub fn client_ip(forwarded_for: Option<&str>) -> (ip: String)
    ensures
        ip@ == match forwarded_for {
            Some(v) => trimmed(before_first(v@, ',')),
            None => "unknown"@,
        },
{
    match forwarded_for {
        Some(v) => {
            let end = find_char(v, ',', 0);
            assert(v@.subrange(0, v@.len() as int) =~= v@);
            trim_range(v, 0, end)
        },
        None => String::from_str("unknown"),
    }
}

/// The value of a string of ASCII digits.
pub open spec fn digits_value(d: Seq<char>) -> nat
    decreases d.len(),
{
    if d.len() == 0 {
        0
    } else {
        digits_value(d.drop_last()) * 10 + ((d.last() as int - 48) as nat)
    }
}

/// Whether every character of `d` is an ASCII digit.
pub open spec fn all_digits(d: Seq<char>) -> bool {
    forall|i: int| 0 <= i < d.len() ==> '0' <= #[trigger] d[i] <= '9'
}

/// What `u64::from_str` accepts: an optional `+`, then at least one ASCII
/// digit, with a value that fits in 64 bits.
pub open spec fn parse_u64_spec(s: Seq<char>) -> Option<u64> {
    let d = if s.len() > 0 && s[0] == '+' { s.drop_first() } else { s };
    if d.len() == 0 || !all_digits(d) || digits_value(d) > u64::MAX {
        None
    } else {
        Some(digits_value(d) as u64)
    }
}

proof fn lemma_digits_value_grows(d: Seq<char>, k: int)
    requires
        all_digits(d),
        0 <= k <= d.len(),
    ensures
        digits_value(d.subrange(0, k)) <= digits_value(d),
    decreases d.len() - k,
{
    if k < d.len() {
        lemma_digits_value_grows(d, k + 1);
        let p = d.subrange(0, k + 1);
        assert(p.drop_last() =~= d.subrange(0, k));
        assert(digits_value(p) == digits_value(d.subrange(0, k)) * 10 + ((p.last() as int - 48) as nat));
    } else {
        assert(d.subrange(0, k) =~= d);
    }
}

/// Parses `s[from..to]` as `u64::from_str` does.
pub(crate) fn parse_u64(s: &str, from: usize, to: usize) -> (r: Option<u64>)
    requires
        from <= to <= s@.len(),
    ensures
        r == parse_u64_spec(s@.subrange(from as int, to as int)),
{
    let ghost sub = s@.subrange(from as int, to as int);
    let mut start = from;
    if from < to && s.get_char(from) == '+' {
        start = from + 1;
    }
    let ghost d = s@.subrange(start as int, to as int);
    assert(d == if sub.len() > 0 && sub[0] == '+' { sub.drop_first() } else { sub });
    if start == to {
        return None;
    }
    let mut acc: u64 = 0;
    let mut i: usize = start;
    while i < to
        invariant
            start <= i <= to <= s@.len(),
            d == s@.subrange(start as int, to as int),
            sub == s@.subrange(from as int, to as int),
            d == if sub.len() > 0 && sub[0] == '+' { sub.drop_first() } else { sub },
            d.len() > 0,
            all_digits(d.subrange(0, i - start)),
            acc == digits_value(d.subrange(0, i - start)),
        decreases to - i,
    {
        let c = s.get_char(i);
        let k = i - start;
        let ghost p = d.subrange(0, k + 1);
        assert(p.drop_last() =~= d.subrange(0, k as int));
        assert(d[k as int] == c);
        assert(p.last() == c);
        if !('0' <= c && c <= '9') {
            assert(!all_digits(d));
            return None;
        }
        assert(all_digits(p));
        let dig: u64 = (c as u32 - 48) as u64;
        if acc > (u64::MAX - dig) / 10 {
            assert(digits_value(p) > u64::MAX) by (nonlinear_arith)
                requires
                    acc > (u64::MAX - dig) / 10,
                    digits_value(p) == acc * 10 + dig,
                    dig <= 9,
            ;
            proof {
                if all_digits(d) {
                    lemma_digits_value_grows(d, (k + 1) as int);
                }
            }
            return None;
        }
        assert(acc * 10 + dig <= u64::MAX) by (nonlinear_arith)
            requires
                acc <= (u64::MAX - dig) / 10,
                dig <= 9,
        ;
        acc = acc * 10 + dig;
        i = i + 1;
    }
    assert(d.subrange(0, d.len() as int) =~= d);
    Some(acc)
}

/// What `parse_range` makes of a `Range` header value.
pub open spec fn range_spec(h: Seq<char>) -> Option<(u64, u64)> {
    if !has_prefix(h, "bytes="@) {
        None
    } else {
        let rest = h.subrange(6, h.len() as int);
        match after_first(rest, '-') {
            None => None,
            Some(end_str) => match parse_u64_spec(before_first(rest, '-')) {
                None => None,
                Some(start) => if end_str.len() == 0 {
                    Some((start, u64::MAX))
                } else {
                    match parse_u64_spec(end_str) {
                        None => None,
                        Some(end) => Some((start, end)),
                    }
                },
            },
        }
    }
}

/// Parses a `Range: bytes=START-END` header value; a missing end means
/// "to the end of the file".
pub fn parse_range(header: &str) -> (r: Option<(u64, u64)>)
    ensures
        r == range_spec(header@),
{
    let n = header.unicode_len();
    if n < 6 || !(header.get_char(0) == 'b' && header.get_char(1) == 'y' && header.get_char(2) == 't'
        && header.get_char(3) == 'e' && header.get_char(4) == 's' && header.get_char(5) == '=') {
        proof {
            reveal_strlit("bytes=");
            if has_prefix(header@, "bytes="@) {
                assert(header@.subrange(0, 6)[0] == 'b');
                assert(header@.subrange(0, 6)[1] == 'y');
                assert(header@.subrange(0, 6)[2] == 't');
                assert(header@.subrange(0, 6)[3] == 'e');
                assert(header@.subrange(0, 6)[4] == 's');
                assert(header@.subrange(0, 6)[5] == '=');
            }
        }
        return None;
    }
    proof {
        reveal_strlit("bytes=");
        assert(header@.subrange(0, 6) =~= "bytes="@);
    }
    let dash = find_char(header, '-', 6);
    if dash == n {
        return None;
    }
    let start = match parse_u64(header, 6, dash) {
        Some(v) => v,
        None => {
            return None;
        },
    };
    if dash + 1 == n {
        assert(header@.subrange(dash + 1, n as int) =~= Seq::<char>::empty());
        return Some((start, u64::MAX));
    }
    match parse_u64(header, dash + 1, n) {
        Some(end) => Some((start, end)),
        None => None,
    }
}

/// The byte range actually served for a requested range of a file of
/// `file_len` bytes: the end is cut to the last byte, and the length counts
/// both ends.
pub fn resolve_range(start: u64, end: u64, file_len: u64) -> (r: (u64, u64, u64))
    requires
        file_len >= 1,
        start <= if end < file_len - 1 { end } else { (file_len - 1) as u64 },
    ensures
        r.0 == start,
        r.1 == if end < file_len - 1 { end } else { (file_len - 1) as u64 },
        r.2 == r.1 - start + 1,
{
    let last = file_len - 1;
    let end = if end < last { end } else { last };
    (start, end, end - start + 1)
}

/// The `Content-Range` value of a partial response: `bytes START-END/LEN`.
pub fn content_range(start: u64, end: u64, file_len: u64) -> (s: String)
    ensures
        s@ == "bytes "@ + decimal(start as nat) + "-"@ + decimal(end as nat) + "/"@ + decimal(file_len as nat),
{
    let mut s = String::from_str("bytes ");
    push_decimal(&mut s, start);
    push_char(&mut s, '-');
    push_decimal(&mut s, end);
    push_char(&mut s, '/');
    push_decimal(&mut s, file_len);
    proof {
        reveal_strlit("-");
        reveal_strlit("/");
    }
    assert(s@ =~= "bytes "@ + decimal(start as nat) + "-"@ + decimal(end as nat) + "/"@ + decimal(file_len as nat));
    s
}

/// The `Range` header a client sends for the inclusive byte range
/// `start..=end`: `bytes=START-END`.
pub fn range_header(start: u64, end: u64) -> (h: String)
    ensures
        h@ == "bytes="@ + decimal(start as nat) + seq!['-'] + decimal(end as nat),
{
    let mut h = String::from_str("bytes=");
    push_decimal(&mut h, start);
    push_char(&mut h, '-');
    push_decimal(&mut h, end);
    assert(h@ =~= "bytes="@ + decimal(start as nat) + seq!['-'] + decimal(end as nat));
    h
}

proof fn lemma_digit_char(k: int)
    requires
        0 <= k < 10,
    ensures
        '0' <= crate::text::digit_char(k) <= '9',
        crate::text::digit_char(k) as int == 48 + k,
{
    let b: u8 = (48 + k) as u8;
    assert(b as int == 48 + k);
    assert((b as char) as int == b as int);
}

proof fn lemma_decimal_digits(n: nat)
    ensures
        decimal(n).len() > 0,
        all_digits(decimal(n)),
        digits_value(decimal(n)) == n,
    decreases n,
{
    lemma_digit_char((n % 10) as int);
    if n >= 10 {
        lemma_decimal_digits(n / 10);
        let d = decimal(n);
        assert(d.drop_last() =~= decimal(n / 10));
        assert(d.last() == crate::text::digit_char((n % 10) as int));
        assert(digits_value(d) == digits_value(decimal(n / 10)) * 10 + (n % 10));
        assert(n == (n / 10) * 10 + n % 10);
        assert forall|i: int| 0 <= i < d.len() implies '0' <= #[trigger] d[i] <= '9' by {
            if i < d.len() - 1 {
                assert(d[i] == decimal(n / 10)[i]);
            }
        }
    } else {
        let d = decimal(n);
        assert(d.drop_last() =~= Seq::<char>::empty());
        assert(digits_value(d.drop_last()) == 0);
        assert(d.last() == crate::text::digit_char(n as int));
        assert(digits_value(d) == n);
    }
}

proof fn lemma_split_at_separator(a: Seq<char>, b: Seq<char>, sep: char)
    requires
        forall|i: int| 0 <= i < a.len() ==> a[i] != sep,
    ensures
        before_first(a + seq![sep] + b, sep) == a,
        after_first(a + seq![sep] + b, sep) == Some(b),
    decreases a.len(),
{
    let s = a + seq![sep] + b;
    if a.len() == 0 {
        assert(s.drop_first() =~= b);
    } else {
        assert(s.drop_first() =~= a.drop_first() + seq![sep] + b);
        lemma_split_at_separator(a.drop_first(), b, sep);
        assert(seq![a[0]] + a.drop_first() =~= a);
    }
}

/// What a client asks for, the server reads back: the `Range` header that
/// `range_header` writes parses to the same byte range.
pub proof fn lemma_range_header_parses(start: u64, end: u64)
    ensures
        range_spec("bytes="@ + decimal(start as nat) + seq!['-'] + decimal(end as nat)) == Some((start, end)),
{
    reveal_strlit("bytes=");
    let ds = decimal(start as nat);
    let de = decimal(end as nat);
    lemma_decimal_digits(start as nat);
    lemma_decimal_digits(end as nat);
    let h = "bytes="@ + ds + seq!['-'] + de;
    assert(h.subrange(0, 6) =~= "bytes="@);
    let rest = h.subrange(6, h.len() as int);
    assert(rest =~= ds + seq!['-'] + de);
    assert forall|i: int| 0 <= i < ds.len() implies ds[i] != '-' by {
        assert('0' <= ds[i] <= '9');
    }
    lemma_split_at_separator(ds, de, '-');
    assert('0' <= ds[0] <= '9');
    assert('0' <= de[0] <= '9');
}

/// The lowercase hexadecimal digit of `d`, for `d` below sixteen.
pub open spec fn hex_digit(d: int) -> char {
    if d < 10 { ((48 + d) as u8) as char } else { ((87 + d) as u8) as char }
}

/// Lowercase hexadecimal text of `bytes`, two digits per byte.
pub open spec fn hex(bytes: Seq<u8>) -> Seq<char>
    decreases bytes.len(),
{
    if bytes.len() == 0 {
        Seq::empty()
    } else {
        hex(bytes.drop_last()) + seq![hex_digit((bytes.last() / 16) as int), hex_digit((bytes.last() % 16) as int)]
    }
}

/// The entity tag of a static page: the SHA-256 digest of its text in
/// lowercase hexadecimal, in double quotes.
pub open spec fn etag_spec(content: Seq<u8>) -> Seq<char> {
    seq!['"'] + hex(sha256_digest(content)) + seq!['"']
}

fn hex_char(d: u8) -> (c: char)
    requires
        d < 16,
    ensures
        c == hex_digit(d as int),
{
    if d < 10 { (48u8 + d) as char } else { (87u8 + d) as char }
}

/// The entity tag a static page is served with.
pub fn etag(content: &str) -> (tag: String)
    ensures
        tag@ == etag_spec(content.spec_bytes()),
{
    let digest = sha256(content.as_bytes());
    let mut tag = String::new();
    push_char(&mut tag, '"');
    let mut i: usize = 0;
    while i < 32
        invariant
            0 <= i <= 32,
            digest@.len() == 32,
            digest@ == sha256_digest(content.spec_bytes()),
            tag@ == seq!['"'] + hex(digest@.subrange(0, i as int)),
        decreases 32 - i,
    {
        let b = digest[i];
        push_char(&mut tag, hex_char(b / 16));
        push_char(&mut tag, hex_char(b % 16));
        assert(digest@.subrange(0, i + 1).drop_last() =~= digest@.subrange(0, i as int));
        i = i + 1;
        assert(tag@ =~= seq!['"'] + hex(digest@.subrange(0, i as int)));
    }
    push_char(&mut tag, '"');
    assert(digest@.subrange(0, 32) =~= digest@);
    assert(tag@ =~= etag_spec(content.spec_bytes()));
    tag
}

/// Whether a static page can be answered with "304 Not Modified": the
/// request's `If-None-Match` header holds exactly the page's entity tag.
pub fn not_modified(if_none_match: Option<&[u8]>, tag: &str) -> (r: bool)
    ensures
        r == match if_none_match {
            Some(h) => h@ == tag.spec_bytes(),
            None => false,
        },
{
    match if_none_match {
        Some(h) => crate::api::constant_time_eq(h, tag.as_bytes()),
        None => false,
    }
}

} // verus!
