use vstd::prelude::*;

verus! {

/// The base64 symbol of the 6-bit value `v`: `A`-`Z`, `a`-`z`, `0`-`9`,
/// then `+` and `/`, or `-` and `_` in the URL-safe alphabet.
pub open spec fn b64_symbol(v: int, url: bool) -> char {
    if v < 26 {
        ((65 + v) as u8) as char
    } else if v < 52 {
        ((71 + v) as u8) as char
    } else if v < 62 {
        ((v - 4) as u8) as char
    } else if v == 62 {
        if url { '-' } else { '+' }
    } else {
        if url { '_' } else { '/' }
    }
}

/// Base64 (RFC 4648) of `data`: every three bytes become four symbols; a
/// final one or two bytes become two or three symbols, followed by `=`
/// padding to four when `pad` is set.
pub open spec fn base64_encode(data: Seq<u8>, url: bool, pad: bool) -> Seq<char>
    decreases data.len(),
{
    if data.len() == 0 {
        Seq::empty()
    } else if data.len() == 1 {
        let a = data[0] as int;
        seq![b64_symbol(a / 4, url), b64_symbol((a % 4) * 16, url)] + if pad { seq!['=', '='] } else { Seq::empty() }
    } else if data.len() == 2 {
        let a = data[0] as int;
        let b = data[1] as int;
        seq![b64_symbol(a / 4, url), b64_symbol((a % 4) * 16 + b / 16, url), b64_symbol((b % 16) * 4, url)]
            + if pad { seq!['='] } else { Seq::empty() }
    } else {
        let a = data[0] as int;
        let b = data[1] as int;
        let c = data[2] as int;
        seq![
            b64_symbol(a / 4, url),
            b64_symbol((a % 4) * 16 + b / 16, url),
            b64_symbol((b % 16) * 4 + c / 64, url),
            b64_symbol(c % 64, url),
        ] + base64_encode(data.subrange(3, data.len() as int), url, pad)
    }
}

/// The text the `base64` crate's standard engine (with padding) encodes
/// `data` to.
pub open spec fn base64_standard_encode(data: Seq<u8>) -> Seq<char> {
    base64_encode(data, false, true)
}

/// The 6-bit value of a base64 symbol.
pub open spec fn b64_value(c: char, url: bool) -> int {
    let n = c as int;
    if 65 <= n < 91 {
        n - 65
    } else if 97 <= n < 123 {
        n - 71
    } else if 48 <= n < 58 {
        n + 4
    } else if c == (if url { '-' } else { '+' }) {
        62
    } else {
        63
    }
}

proof fn lemma_b64_symbol(v: int, url: bool)
    requires
        0 <= v < 64,
    ensures
        b64_value(b64_symbol(v, url), url) == v,
        b64_symbol(v, url) != '=',
{
    if v < 26 {
        let b: u8 = (65 + v) as u8;
        assert((b as char) as int == b as int);
    } else if v < 52 {
        let b: u8 = (71 + v) as u8;
        assert((b as char) as int == b as int);
    } else if v < 62 {
        let b: u8 = (v - 4) as u8;
        assert((b as char) as int == b as int);
    }
}

proof fn lemma_encode_shape(d: Seq<u8>, url: bool)
    ensures
        d.len() == 0 ==> base64_encode(d, url, true).len() == 0,
        d.len() > 0 ==> base64_encode(d, url, true).len() >= 4,
        d.len() == 1 ==> {
            let e = base64_encode(d, url, true);
            &&& e.len() == 4 && e[2] == '=' && e[3] == '='
            &&& b64_value(e[0], url) == d[0] / 4 && b64_value(e[1], url) == (d[0] % 4) * 16
        },
        d.len() == 2 ==> {
            let e = base64_encode(d, url, true);
            &&& e.len() == 4 && e[2] != '=' && e[3] == '='
            &&& b64_value(e[0], url) == d[0] / 4 && b64_value(e[1], url) == (d[0] % 4) * 16 + d[1] / 16
            &&& b64_value(e[2], url) == (d[1] % 16) * 4
        },
        d.len() >= 3 ==> {
            let e = base64_encode(d, url, true);
            &&& e[2] != '=' && e[3] != '='
            &&& b64_value(e[0], url) == d[0] / 4 && b64_value(e[1], url) == (d[0] % 4) * 16 + d[1] / 16
            &&& b64_value(e[2], url) == (d[1] % 16) * 4 + d[2] / 64 && b64_value(e[3], url) == d[2] % 64
            &&& e.subrange(4, e.len() as int) == base64_encode(d.subrange(3, d.len() as int), url, true)
        },
{
    if d.len() >= 1 {
        let a = d[0] as int;
        lemma_b64_symbol(a / 4, url);
        if d.len() == 1 {
            lemma_b64_symbol((a % 4) * 16, url);
        } else {
            let b = d[1] as int;
            lemma_b64_symbol((a % 4) * 16 + b / 16, url);
            if d.len() == 2 {
                lemma_b64_symbol((b % 16) * 4, url);
            } else {
                let c = d[2] as int;
                lemma_b64_symbol((b % 16) * 4 + c / 64, url);
                lemma_b64_symbol(c % 64, url);
                let e = base64_encode(d, url, true);
                let rest = base64_encode(d.subrange(3, d.len() as int), url, true);
                assert(e.subrange(4, e.len() as int) =~= rest);
            }
        }
    }
}

/// The padded encoding tells byte strings apart: no two give the same text.
pub proof fn lemma_base64_encode_injective(d1: Seq<u8>, d2: Seq<u8>, url: bool)
    requires
        base64_encode(d1, url, true) == base64_encode(d2, url, true),
    ensures
        d1 == d2,
    decreases d1.len(),
{
    let e = base64_encode(d1, url, true);
    lemma_encode_shape(d1, url);
    lemma_encode_shape(d2, url);
    if d1.len() >= 3 && d2.len() >= 3 {
        let (a1, b1, c1) = (d1[0] as int, d1[1] as int, d1[2] as int);
        let (a2, b2, c2) = (d2[0] as int, d2[1] as int, d2[2] as int);
        assert(a1 == a2 && b1 == b2 && c1 == c2) by (nonlinear_arith)
            requires
                0 <= a1 < 256 && 0 <= b1 < 256 && 0 <= c1 < 256,
                0 <= a2 < 256 && 0 <= b2 < 256 && 0 <= c2 < 256,
                a1 / 4 == a2 / 4,
                (a1 % 4) * 16 + b1 / 16 == (a2 % 4) * 16 + b2 / 16,
                (b1 % 16) * 4 + c1 / 64 == (b2 % 16) * 4 + c2 / 64,
                c1 % 64 == c2 % 64,
        ;
        lemma_base64_encode_injective(d1.subrange(3, d1.len() as int), d2.subrange(3, d2.len() as int), url);
        assert(d1 =~= d2) by {
            assert forall|i: int| 0 <= i < d1.len() implies d1[i] == d2[i] by {
                if i >= 3 {
                    assert(d1[i] == d1.subrange(3, d1.len() as int)[i - 3]);
                    assert(d2[i] == d2.subrange(3, d2.len() as int)[i - 3]);
                }
            }
        }
    } else if d1.len() == 2 && d2.len() == 2 {
        let (a1, b1) = (d1[0] as int, d1[1] as int);
        let (a2, b2) = (d2[0] as int, d2[1] as int);
        assert(a1 == a2 && b1 == b2) by (nonlinear_arith)
            requires
                0 <= a1 < 256 && 0 <= b1 < 256,
                0 <= a2 < 256 && 0 <= b2 < 256,
                a1 / 4 == a2 / 4,
                (a1 % 4) * 16 + b1 / 16 == (a2 % 4) * 16 + b2 / 16,
                (b1 % 16) * 4 == (b2 % 16) * 4,
        ;
        assert(d1 =~= d2);
    } else if d1.len() == 1 && d2.len() == 1 {
        let a1 = d1[0] as int;
        let a2 = d2[0] as int;
        assert(a1 == a2) by (nonlinear_arith)
            requires
                0 <= a1 < 256,
                0 <= a2 < 256,
                a1 / 4 == a2 / 4,
                (a1 % 4) * 16 == (a2 % 4) * 16,
        ;
        assert(d1 =~= d2);
    } else if d1.len() == 0 && d2.len() == 0 {
        assert(d1 =~= d2);
    }
}

/// What the `base64` crate's standard engine (with padding) decodes `s` to:
/// the bytes whose canonical padded encoding `s` is, and `None` for any
/// other text.
pub open spec fn base64_standard_decode(s: Seq<char>) -> Option<Seq<u8>> {
    if exists|d: Seq<u8>| #[trigger] base64_standard_encode(d) == s {
        Some(choose|d: Seq<u8>| #[trigger] base64_standard_encode(d) == s)
    } else {
        None
    }
}

/// Decoding an encoding gives back the bytes.
pub proof fn lemma_decode_encode(d: Seq<u8>)
    ensures
        base64_standard_decode(base64_standard_encode(d)) == Some(d),
{
    let s = base64_standard_encode(d);
    assert(exists|x: Seq<u8>| #[trigger] base64_standard_encode(x) == s);
    let c = choose|x: Seq<u8>| #[trigger] base64_standard_encode(x) == s;
    lemma_base64_encode_injective(c, d, false);
}

} // verus!
