use vstd::prelude::*;

use crate::text::push_char;

verus! {

/// Paste identifiers are made of ASCII digits only.
pub open spec fn is_digit_id(id: Seq<char>) -> bool {
    forall|i: int| 0 <= i < id.len() ==> '0' <= #[trigger] id[i] <= '9'
}

/// Whether every character of `id` is an ASCII digit (the empty id passes).
pub fn is_valid_id(id: &str) -> (ok: bool)
    ensures
        ok == is_digit_id(id@),
{
    let n = id.unicode_len();
    let mut i: usize = 0;
    while i < n
        invariant
            0 <= i <= n,
            n == id@.len(),
            forall|j: int| 0 <= j < i ==> '0' <= #[trigger] id@[j] <= '9',
        decreases n - i,
    {
        let c = id.get_char(i);
        if !('0' <= c && c <= '9') {
            return false;
        }
        i = i + 1;
    }
    true
}

/// The Unicode directional formatting characters that can disguise an id:
/// the isolates U+2066..U+2069, the marks U+200E and U+200F, and the
/// embeddings and overrides U+202A..U+202E.
pub open spec fn is_bidi_control(c: char) -> bool {
    ('\u{2066}' <= c && c <= '\u{2069}') || c == '\u{200E}' || c == '\u{200F}' || ('\u{202A}' <= c && c <= '\u{202E}')
}

/// `s` with every directional formatting character removed.
pub open spec fn strip_bidi(s: Seq<char>) -> Seq<char>
    decreases s.len(),
{
    if s.len() == 0 {
        s
    } else if is_bidi_control(s.last()) {
        strip_bidi(s.drop_last())
    } else {
        strip_bidi(s.drop_last()).push(s.last())
    }
}

/// Cleaning a paste id removes exactly the directional formatting
/// characters U+2066, U+2067, U+2068, U+2069, U+200E, U+200F and
/// U+202A..U+202E, and keeps every other character in order; no isolate
/// U+2066..U+2069 survives.
pub proof fn lemma_sanitize_removes_exactly_controls(s: Seq<char>)
    ensures
        strip_bidi(s) == s.filter(|c: char| !(c == '\u{2066}' || c == '\u{2067}' || c == '\u{2068}' || c == '\u{2069}' || c == '\u{200E}' || c == '\u{200F}' || c == '\u{202A}' || c == '\u{202B}' || c == '\u{202C}' || c == '\u{202D}' || c == '\u{202E}')),
        forall|i: int| 0 <= i < strip_bidi(s).len() ==> !('\u{2066}' <= #[trigger] strip_bidi(s)[i] <= '\u{2069}'),
    decreases s.len(),
{
    reveal(Seq::filter);
    if s.len() > 0 {
        lemma_sanitize_removes_exactly_controls(s.drop_last());
        let r = strip_bidi(s.drop_last());
        assert forall|i: int| 0 <= i < strip_bidi(s).len() implies !('\u{2066}' <= #[trigger] strip_bidi(s)[i] <= '\u{2069}') by {
            if i < r.len() {
                assert(strip_bidi(s)[i] == r[i]);
            }
        }
    }
}

/// Removes Unicode directional formatting characters from a paste id.
pub fn sanitize_id(id: &str) -> (clean: String)
    ensures
        clean@ == strip_bidi(id@),
        clean@ == id@.filter(|c: char| !(c == '\u{2066}' || c == '\u{2067}' || c == '\u{2068}' || c == '\u{2069}' || c == '\u{200E}' || c == '\u{200F}' || c == '\u{202A}' || c == '\u{202B}' || c == '\u{202C}' || c == '\u{202D}' || c == '\u{202E}')),
{
    proof {
        lemma_sanitize_removes_exactly_controls(id@);
    }
    let n = id.unicode_len();
    let mut out = String::new();
    let mut i: usize = 0;
    while i < n
        invariant
            0 <= i <= n,
            n == id@.len(),
            out@ == strip_bidi(id@.subrange(0, i as int)),
        decreases n - i,
    {
        let c = id.get_char(i);
        assert(id@.subrange(0, i + 1).drop_last() =~= id@.subrange(0, i as int));
        let bidi = ('\u{2066}' <= c && c <= '\u{2069}') || c == '\u{200E}' || c == '\u{200F}'
            || ('\u{202A}' <= c && c <= '\u{202E}');
        if !bidi {
            push_char(&mut out, c);
        }
        i = i + 1;
    }
    assert(id@.subrange(0, n as int) =~= id@);
    out
}

/// Whether `s` begins with `prefix`.
pub open spec fn has_prefix(s: Seq<char>, prefix: Seq<char>) -> bool {
    prefix.len() <= s.len() && s.subrange(0, prefix.len() as int) == prefix
}

/// Whether `s` begins with `prefix`.
pub(crate) fn starts_with(s: &str, prefix: &str) -> (r: bool)
    ensures
        r == has_prefix(s@, prefix@),
{
    let n = s.unicode_len();
    let m = prefix.unicode_len();
    if m > n {
        return false;
    }
    let mut i: usize = 0;
    while i < m
        invariant
            0 <= i <= m <= n,
            n == s@.len(),
            m == prefix@.len(),
            forall|j: int| 0 <= j < i ==> #[trigger] s@[j] == prefix@[j],
        decreases m - i,
    {
        if s.get_char(i) != prefix.get_char(i) {
            assert(s@.subrange(0, m as int)[i as int] != prefix@[i as int]);
            return false;
        }
        i = i + 1;
    }
    assert(s@.subrange(0, m as int) =~= prefix@);
    true
}

/// Whether `s` equals `t`.
pub(crate) fn str_equal(s: &str, t: &str) -> (r: bool)
    ensures
        r == (s@ == t@),
{
    let n = s.unicode_len();
    if n != t.unicode_len() {
        return false;
    }
    let r = starts_with(s, t);
    assert(s@.subrange(0, s@.len() as int) =~= s@);
    assert(r ==> s@ =~= t@);
    r
}

/// Content types that the paste page can show inline.
pub open spec fn previewable_type(ct: Seq<char>) -> bool {
    has_prefix(ct, "image/"@) || has_prefix(ct, "text/"@) || ct == "application/json"@
        || has_prefix(ct, "video/"@) || has_prefix(ct, "audio/"@) || ct == "application/pdf"@
}

/// Whether a file of the given content type can be previewed in the page.
pub fn is_previewable(content_type: Option<&str>) -> (r: bool)
    ensures
        r == match content_type {
            Some(ct) => previewable_type(ct@),
            None => false,
        },
{
    match content_type {
        Some(ct) => {
            starts_with(ct, "image/") || starts_with(ct, "text/") || str_equal(ct, "application/json")
                || starts_with(ct, "video/") || starts_with(ct, "audio/") || str_equal(ct, "application/pdf")
        },
        None => false,
    }
}

} // verus!
