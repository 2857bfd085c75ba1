//! Encodings: percent-encoding for query strings, HTML escaping, base64.
use vstd::prelude::*;
use vstd::string::*;
use vstd::utf8::*;

use crate::text::{has_prefix, to_chars};

verus! {

// ---------------------------------------------------------------------------
// Percent-encoding
// ---------------------------------------------------------------------------

/// The bytes that stand for themselves in a query string: ASCII letters and
/// digits, `-`, `_`, `.` and `~`.
pub open spec fn unreserved(b: u8) -> bool {
    ||| 0x41 <= b <= 0x5a
    ||| 0x61 <= b <= 0x7a
    ||| 0x30 <= b <= 0x39
    ||| b == 0x2d
    ||| b == 0x5f
    ||| b == 0x2e
    ||| b == 0x7e
}

/// The upper-case hexadecimal digit `n`.
pub open spec fn hex_digit(n: int) -> char {
    if n < 10 {
        (48 + n) as char
    } else {
        (55 + n) as char
    }
}

/// One byte of a query string: itself, or `%` and its two hexadecimal digits.
pub open spec fn percent_byte(b: u8) -> Seq<char> {
    if unreserved(b) {
        seq![b as char]
    } else {
        seq!['%', hex_digit(b as int / 16), hex_digit(b as int % 16)]
    }
}

/// The bytes `b`, percent-encoded.
pub open spec fn percent_encoded(b: Seq<u8>) -> Seq<char>
    decreases b.len(),
{
    if b.len() == 0 {
        seq![]
    } else {
        percent_byte(b[0]) + percent_encoded(b.skip(1))
    }
}

/// The text `s` as it stands in a query string: its UTF-8 bytes,
/// percent-encoded.
pub open spec fn urlencoded(s: Seq<char>) -> Seq<char> {
    percent_encoded(encode_utf8(s))
}

/// The value of an upper-case hexadecimal digit.
pub open spec fn hex_value(c: char) -> int {
    if c <= '9' {
        c as int - 48
    } else {
        c as int - 55
    }
}

/// The bytes that a percent-encoded text stands for.
pub open spec fn percent_decoded(t: Seq<char>) -> Seq<u8>
    decreases t.len(),
{
    if t.len() == 0 {
        seq![]
    } else if t[0] == '%' && t.len() >= 3 {
        seq![(16 * hex_value(t[1]) + hex_value(t[2])) as u8] + percent_decoded(t.skip(3))
    } else {
        seq![t[0] as u8] + percent_decoded(t.skip(1))
    }
}

/// Whether a character may stand in a percent-encoded text.
pub open spec fn query_char(c: char) -> bool {
    c == '%' || (c as u32) < 128 && unreserved(c as u8)
}

/// The upper-case hexadecimal digit `n`.
fn hex_digit_char(n: u8) -> (r: char)
    requires
        n < 16,
    ensures
        r == hex_digit(n as int),
{
    if n < 10 {
        (48 + n) as char
    } else {
        (55 + n) as char
    }
}

/// Percent-encodes a search query for use inside `?q=`.
pub fn urlencode(s: &str) -> (r: String)
    ensures
        r@ == urlencoded(s@),
{
    let bytes = s.as_bytes();
    let mut out = String::new();
    let mut i: usize = 0;
    assert(bytes@.skip(0) =~= bytes@);
    assert(out@ + percent_encoded(bytes@) =~= percent_encoded(bytes@));
    while i < bytes.len()
        invariant
            i <= bytes@.len(),
            out@ + percent_encoded(bytes@.skip(i as int)) == percent_encoded(bytes@),
        decreases bytes.len() - i,
    {
        let b = bytes[i];
        let ghost before = out@;
        let ghost rest = percent_encoded(bytes@.skip(i + 1));
        assert(bytes@.skip(i as int).skip(1) =~= bytes@.skip(i + 1));
        if (0x41 <= b && b <= 0x5a) || (0x61 <= b && b <= 0x7a) || (0x30 <= b && b <= 0x39) || b
            == 0x2d || b == 0x5f || b == 0x2e || b == 0x7e {
            out.push(b as char);
            assert(out@ =~= before + percent_byte(b));
        } else {
            out.push('%');
            out.push(hex_digit_char(b / 16));
            out.push(hex_digit_char(b % 16));
            assert(out@ =~= before + percent_byte(b));
        }
        assert(before + (percent_byte(b) + rest) =~= out@ + rest);
        i = i + 1;
    }
    assert(out@ + percent_encoded(bytes@.skip(i as int)) =~= out@);
    out
}

proof fn lemma_percent_round_trip(b: Seq<u8>)
    ensures
        percent_decoded(percent_encoded(b)) == b,
    decreases b.len(),
{
    if b.len() > 0 {
        lemma_percent_round_trip(b.skip(1));
        let t = percent_encoded(b);
        let rest = percent_encoded(b.skip(1));
        let n = percent_byte(b[0]).len() as int;
        assert(t.skip(n) =~= rest);
        assert(seq![b[0]] + b.skip(1) =~= b);
        if unreserved(b[0]) {
            assert(t[0] == b[0] as char);
        } else {
            assert(t[0] == '%' && t[1] == hex_digit(b[0] as int / 16) && t[2] == hex_digit(b[0] as int % 16));
            assert((16 * hex_value(t[1]) + hex_value(t[2])) == b[0]);
        }
    } else {
        assert(percent_decoded(percent_encoded(b)) =~= b);
    }
}

proof fn lemma_percent_chars(b: Seq<u8>)
    ensures
        forall|i: int|
            0 <= i < percent_encoded(b).len() ==> query_char(#[trigger] percent_encoded(b)[i]),
    decreases b.len(),
{
    if b.len() > 0 {
        lemma_percent_chars(b.skip(1));
        let head = percent_byte(b[0]);
        let rest = percent_encoded(b.skip(1));
        assert forall|i: int| 0 <= i < percent_encoded(b).len() implies query_char(
            #[trigger] percent_encoded(b)[i],
        ) by {
            if i < head.len() {
                assert(percent_encoded(b)[i] == head[i]);
            } else {
                assert(percent_encoded(b)[i] == rest[i - head.len()]);
            }
        }
    }
}

/// A percent-encoded query gives back the bytes of the text it was made from,
/// so distinct queries stay distinct.
pub proof fn law_urlencode_reversible(s: Seq<char>)
    ensures
        percent_decoded(urlencoded(s)) == encode_utf8(s),
        decode_utf8(percent_decoded(urlencoded(s))) == s,
{
    lemma_percent_round_trip(encode_utf8(s));
    encode_utf8_decode_utf8(s);
}

/// A percent-encoded query holds only characters that need no further
/// encoding, and so none that separates the parts of a URL.
pub proof fn law_urlencode_safe(s: Seq<char>)
    ensures
        forall|i: int| 0 <= i < urlencoded(s).len() ==> query_char(#[trigger] urlencoded(s)[i]),
{
    lemma_percent_chars(encode_utf8(s));
}

// ---------------------------------------------------------------------------
// HTML escaping
// ---------------------------------------------------------------------------

/// One character of text in HTML: the markup characters as entities. Double
/// quotes are escaped only where `quotes` says so.
pub open spec fn html_char(c: char, quotes: bool) -> Seq<char> {
    if c == '&' {
        "&amp;"@
    } else if c == '<' {
        "&lt;"@
    } else if c == '>' {
        "&gt;"@
    } else if c == '"' && quotes {
        "&quot;"@
    } else {
        seq![c]
    }
}

/// The text `s`, escaped for HTML.
pub open spec fn html_escaped(s: Seq<char>, quotes: bool) -> Seq<char>
    decreases s.len(),
{
    if s.len() == 0 {
        seq![]
    } else {
        html_escaped(s.drop_last(), quotes) + html_char(s.last(), quotes)
    }
}

/// Escapes text for interpolation into HTML.
pub fn escape_html(s: &str, quotes: bool) -> (r: String)
    ensures
        r@ == html_escaped(s@, quotes),
{
    let v = to_chars(s);
    let mut out = String::new();
    let mut i: usize = 0;
    while i < v.len()
        invariant
            i <= v@.len(),
            v@ == s@,
            out@ == html_escaped(s@.take(i as int), quotes),
        decreases v.len() - i,
    {
        let c = v[i];
        assert(s@.take(i + 1).drop_last() =~= s@.take(i as int));
        if c == '&' {
            out.append("&amp;");
        } else if c == '<' {
            out.append("&lt;");
        } else if c == '>' {
            out.append("&gt;");
        } else if c == '"' && quotes {
            out.append("&quot;");
        } else {
            let ghost before = out@;
            out.push(c);
            assert(out@ =~= before + seq![c]);
        }
        i = i + 1;
    }
    assert(s@.take(i as int) =~= s@);
    out
}

/// Escaped text opens and closes no tag, and with quotes escaped ends no
/// attribute value.
pub proof fn law_html_escape_safe(s: Seq<char>, quotes: bool)
    ensures
        !html_escaped(s, quotes).contains('<'),
        !html_escaped(s, quotes).contains('>'),
        quotes ==> !html_escaped(s, quotes).contains('"'),
    decreases s.len(),
{
    if s.len() > 0 {
        law_html_escape_safe(s.drop_last(), quotes);
        reveal_strlit("&amp;");
        reveal_strlit("&lt;");
        reveal_strlit("&gt;");
        reveal_strlit("&quot;");
        let head = html_escaped(s.drop_last(), quotes);
        let tail = html_char(s.last(), quotes);
        assert forall|i: int| 0 <= i < html_escaped(s, quotes).len() implies ({
            let c = #[trigger] html_escaped(s, quotes)[i];
            c != '<' && c != '>' && (quotes ==> c != '"')
        }) by {
            if i < head.len() {
                assert(html_escaped(s, quotes)[i] == head[i]);
                assert(head.contains(head[i]));
            } else {
                assert(html_escaped(s, quotes)[i] == tail[i - head.len()]);
            }
        }
    }
}

/// Text without markup characters is left as it is.
pub proof fn law_html_escape_plain(s: Seq<char>, quotes: bool)
    requires
        !s.contains('&'),
        !s.contains('<'),
        !s.contains('>'),
        quotes ==> !s.contains('"'),
    ensures
        html_escaped(s, quotes) == s,
    decreases s.len(),
{
    if s.len() > 0 {
        assert(s.contains(s.last()));
        assert forall|c: char| s.drop_last().contains(c) implies s.contains(c) by {
            let i = choose|i: int| 0 <= i < s.drop_last().len() && s.drop_last()[i] == c;
            assert(s[i] == c);
        }
        law_html_escape_plain(s.drop_last(), quotes);
        assert(html_escaped(s, quotes) =~= s);
    }
}

/// Escaping goes character by character: the parts of a text can be escaped one
/// by one.
pub proof fn law_html_escape_concat(a: Seq<char>, b: Seq<char>, quotes: bool)
    ensures
        html_escaped(a + b, quotes) == html_escaped(a, quotes) + html_escaped(b, quotes),
    decreases b.len(),
{
    let left = html_escaped(a, quotes);
    if b.len() == 0 {
        assert(a + b =~= a);
        assert(left + html_escaped(b, quotes) =~= left);
    } else {
        law_html_escape_concat(a, b.drop_last(), quotes);
        assert((a + b).drop_last() =~= a + b.drop_last());
        assert((a + b).last() == b.last());
        assert(left + html_escaped(b.drop_last(), quotes) + html_char(b.last(), quotes) =~= left
            + html_escaped(b, quotes));
    }
}

/// Whether a text starts with one of the entities that markup characters are
/// escaped as.
pub open spec fn starts_with_entity(t: Seq<char>) -> bool {
    ||| has_prefix(t, "&amp;"@)
    ||| has_prefix(t, "&lt;"@)
    ||| has_prefix(t, "&gt;"@)
    ||| has_prefix(t, "&quot;"@)
}

proof fn lemma_prefix_within(t: Seq<char>, more: Seq<char>, p: Seq<char>, i: int)
    requires
        0 <= i <= t.len(),
        has_prefix(t.skip(i), p),
    ensures
        has_prefix((t + more).skip(i), p),
{
    assert((t + more).skip(i).take(p.len() as int) =~= t.skip(i).take(p.len() as int));
}

/// Each ampersand of escaped text begins an entity.
pub proof fn law_html_escape_ampersands(s: Seq<char>, quotes: bool)
    ensures
        forall|i: int|
            0 <= i < html_escaped(s, quotes).len() && #[trigger] html_escaped(s, quotes)[i] == '&'
                ==> starts_with_entity(html_escaped(s, quotes).skip(i)),
    decreases s.len(),
{
    if s.len() > 0 {
        law_html_escape_ampersands(s.drop_last(), quotes);
        reveal_strlit("&amp;");
        reveal_strlit("&lt;");
        reveal_strlit("&gt;");
        reveal_strlit("&quot;");
        let head = html_escaped(s.drop_last(), quotes);
        let tail = html_char(s.last(), quotes);
        let all = html_escaped(s, quotes);
        assert forall|i: int| 0 <= i < all.len() && #[trigger] all[i]
            == '&' implies starts_with_entity(all.skip(i)) by {
            if i < head.len() {
                assert(head[i] == '&');
                let t = head.skip(i);
                assert(starts_with_entity(t));
                if has_prefix(t, "&amp;"@) {
                    lemma_prefix_within(head, tail, "&amp;"@, i);
                } else if has_prefix(t, "&lt;"@) {
                    lemma_prefix_within(head, tail, "&lt;"@, i);
                } else if has_prefix(t, "&gt;"@) {
                    lemma_prefix_within(head, tail, "&gt;"@, i);
                } else {
                    lemma_prefix_within(head, tail, "&quot;"@, i);
                }
            } else {
                assert(tail[i - head.len()] == '&');
                assert(i == head.len());
                assert(all.skip(i) =~= tail);
                assert(tail.take(tail.len() as int) =~= tail);
            }
        }
    }
}

/// The text `t` with each `p` replaced by `c`, from the front.
pub open spec fn with_char_for(t: Seq<char>, p: Seq<char>, c: char) -> Seq<char>
    decreases t.len(),
{
    if p.len() == 0 || t.len() < p.len() {
        t
    } else if has_prefix(t, p) {
        seq![c] + with_char_for(t.skip(p.len() as int), p, c)
    } else {
        seq![t[0]] + with_char_for(t.skip(1), p, c)
    }
}

/// The text that an escaped one stands for: its entities replaced by their
/// characters, that of the ampersand last.
pub open spec fn html_unescaped(t: Seq<char>) -> Seq<char> {
    let t = with_char_for(t, "&lt;"@, '<');
    let t = with_char_for(t, "&gt;"@, '>');
    let t = with_char_for(t, "&quot;"@, '"');
    with_char_for(t, "&amp;"@, '&')
}

/// The entity that is replaced in the `k`-th step.
spec fn entity(k: int) -> Seq<char> {
    if k == 0 {
        "&lt;"@
    } else if k == 1 {
        "&gt;"@
    } else if k == 2 {
        "&quot;"@
    } else {
        "&amp;"@
    }
}

/// The character of the entity that is replaced in the `k`-th step.
spec fn entity_char(k: int) -> char {
    if k == 0 {
        '<'
    } else if k == 1 {
        '>'
    } else if k == 2 {
        '"'
    } else {
        '&'
    }
}

/// One character after `k` of the steps.
spec fn char_after(c: char, quotes: bool, k: int) -> Seq<char> {
    if c == '&' && k < 4 {
        "&amp;"@
    } else if c == '<' && k < 1 {
        "&lt;"@
    } else if c == '>' && k < 2 {
        "&gt;"@
    } else if c == '"' && quotes && k < 3 {
        "&quot;"@
    } else {
        seq![c]
    }
}

/// The text `s` after `k` of the steps.
spec fn text_after(s: Seq<char>, quotes: bool, k: int) -> Seq<char>
    decreases s.len(),
{
    if s.len() == 0 {
        seq![]
    } else {
        char_after(s[0], quotes, k) + text_after(s.skip(1), quotes, k)
    }
}

proof fn lemma_not_replaced(x: Seq<char>, rest: Seq<char>, p: Seq<char>, c: char)
    requires
        p.len() > 0,
        forall|j: int| 0 <= j < x.len() ==> !has_prefix(#[trigger] (x + rest).skip(j), p),
    ensures
        with_char_for(x + rest, p, c) == x + with_char_for(rest, p, c),
    decreases x.len(),
{
    let t = x + rest;
    if x.len() == 0 {
        assert(t =~= rest);
        assert(x + with_char_for(rest, p, c) =~= with_char_for(rest, p, c));
    } else if t.len() >= p.len() {
        assert(t.skip(0) =~= t);
        assert(!has_prefix(t.skip(0), p));
        let y = x.skip(1);
        assert(t.skip(1) =~= y + rest);
        assert forall|j: int| 0 <= j < y.len() implies !has_prefix(
            #[trigger] (y + rest).skip(j),
            p,
        ) by {
            assert((y + rest).skip(j) =~= t.skip(j + 1));
        }
        lemma_not_replaced(y, rest, p, c);
        assert(seq![t[0]] + (y + with_char_for(rest, p, c)) =~= x + with_char_for(rest, p, c));
    }
}

proof fn lemma_step(s: Seq<char>, quotes: bool, k: int)
    requires
        0 <= k < 4,
    ensures
        with_char_for(text_after(s, quotes, k), entity(k), entity_char(k)) == text_after(
            s,
            quotes,
            k + 1,
        ),
    decreases s.len(),
{
    reveal_strlit("&amp;");
    reveal_strlit("&lt;");
    reveal_strlit("&gt;");
    reveal_strlit("&quot;");
    if s.len() > 0 {
        lemma_step(s.skip(1), quotes, k);
        let x = char_after(s[0], quotes, k);
        let rest = text_after(s.skip(1), quotes, k);
        let t = x + rest;
        let p = entity(k);
        if x == p && s[0] == entity_char(k) {
            assert(t.take(p.len() as int) =~= p);
            assert(t.skip(p.len() as int) =~= rest);
        } else {
            assert forall|j: int| 0 <= j < x.len() implies !has_prefix(#[trigger] t.skip(j), p) by {
                if has_prefix(t.skip(j), p) {
                    assert(t.skip(j).take(p.len() as int)[0] == t[j]);
                    assert(t.skip(j).take(p.len() as int)[1] == t[j + 1]);
                    assert(x[j] == '&');
                    assert(x[j + 1] == p[1]);
                }
            }
            lemma_not_replaced(x, rest, p, entity_char(k));
        }
    }
}

proof fn lemma_steps_ends(s: Seq<char>, quotes: bool)
    ensures
        text_after(s, quotes, 0) == html_escaped(s, quotes),
        text_after(s, quotes, 4) == s,
    decreases s.len(),
{
    if s.len() > 0 {
        let first = s.take(1);
        lemma_steps_ends(s.skip(1), quotes);
        law_html_escape_concat(first, s.skip(1), quotes);
        assert(first + s.skip(1) =~= s);
        assert(first.drop_last() =~= seq![]);
        assert(first.last() == s[0]);
        assert(html_escaped(first.drop_last(), quotes) =~= seq![]);
        assert(html_escaped(first, quotes) =~= html_char(s[0], quotes));
        assert(char_after(s[0], quotes, 0) == html_char(s[0], quotes));
        assert(seq![s[0]] + s.skip(1) =~= s);
    }
}

/// Escaping can be undone: the text is what its escaped form stands for. So
/// texts that look like entities stay apart from the characters.
pub proof fn law_html_escape_reversible(s: Seq<char>, quotes: bool)
    ensures
        html_unescaped(html_escaped(s, quotes)) == s,
{
    lemma_steps_ends(s, quotes);
    lemma_step(s, quotes, 0);
    lemma_step(s, quotes, 1);
    lemma_step(s, quotes, 2);
    lemma_step(s, quotes, 3);
}

// ---------------------------------------------------------------------------
// Base64
// ---------------------------------------------------------------------------

/// The character of the standard alphabet for the six bits `n`.
pub open spec fn base64_char(n: int) -> char {
    if n < 26 {
        (65 + n) as char
    } else if n < 52 {
        (71 + n) as char
    } else if n < 62 {
        (n - 4) as char
    } else if n == 62 {
        '+'
    } else {
        '/'
    }
}

/// One group of base64: four characters for up to three bytes, padded with `=`.
pub open spec fn base64_group(b: Seq<u8>) -> Seq<char>
    recommends
        1 <= b.len() <= 3,
{
    let b1 = if b.len() > 1 {
        b[1] as int
    } else {
        0
    };
    let b2 = if b.len() > 2 {
        b[2] as int
    } else {
        0
    };
    let n = b[0] * 65536 + b1 * 256 + b2;
    seq![
        base64_char(n / 262144),
        base64_char(n / 4096 % 64),
        if b.len() > 1 {
            base64_char(n / 64 % 64)
        } else {
            '='
        },
        if b.len() > 2 {
            base64_char(n % 64)
        } else {
            '='
        },
    ]
}

/// The bytes `b` in standard base64, with padding.
pub open spec fn base64(b: Seq<u8>) -> Seq<char>
    decreases b.len(),
{
    if b.len() == 0 {
        seq![]
    } else if b.len() <= 3 {
        base64_group(b)
    } else {
        base64_group(b.take(3)) + base64(b.skip(3))
    }
}

/// The six bits that a character of the standard alphabet stands for; zero for
/// the padding.
pub open spec fn base64_value(c: char) -> int {
    if 'A' <= c <= 'Z' {
        c as int - 65
    } else if 'a' <= c <= 'z' {
        c as int - 71
    } else if '0' <= c <= '9' {
        c as int + 4
    } else if c == '+' {
        62
    } else if c == '/' {
        63
    } else {
        0
    }
}

/// The bytes that a padded base64 text stands for.
pub open spec fn base64_decoded(t: Seq<char>) -> Seq<u8>
    decreases t.len(),
{
    if t.len() < 4 {
        seq![]
    } else {
        let n = base64_value(t[0]) * 262144 + base64_value(t[1]) * 4096 + base64_value(t[2]) * 64
            + base64_value(t[3]);
        let b = seq![(n / 65536) as u8, (n / 256 % 256) as u8, (n % 256) as u8];
        (if t[2] == '=' {
            b.take(1)
        } else if t[3] == '=' {
            b.take(2)
        } else {
            b
        }) + base64_decoded(t.skip(4))
    }
}

/// The character of the standard alphabet for the six bits `n`.
fn base64_digit(n: u32) -> (r: char)
    requires
        n < 64,
    ensures
        r == base64_char(n as int),
{
    if n < 26 {
        (65 + n as u8) as char
    } else if n < 52 {
        (71 + n as u8) as char
    } else if n < 62 {
        (n as u8 - 4) as char
    } else if n == 62 {
        '+'
    } else {
        '/'
    }
}

/// Standard base64 with padding.
pub fn base64_encode(data: &[u8]) -> (r: String)
    ensures
        r@ == base64(data@),
{
    let mut out = String::new();
    let mut i: usize = 0;
    assert(data@.skip(0) =~= data@);
    assert(out@ + base64(data@) =~= base64(data@));
    while i < data.len()
        invariant
            i <= data@.len(),
            out@ + base64(data@.skip(i as int)) == base64(data@),
        decreases data.len() - i,
    {
        let left = data.len() - i;
        let b0 = data[i] as u32;
        let b1 = if left > 1 {
            data[i + 1] as u32
        } else {
            0
        };
        let b2 = if left > 2 {
            data[i + 2] as u32
        } else {
            0
        };
        let n = b0 * 65536 + b1 * 256 + b2;
        let ghost before = out@;
        let ghost rest = data@.skip(i as int);
        let ghost group = if left > 3 {
            rest.take(3)
        } else {
            rest
        };
        out.push(base64_digit(n / 262144));
        out.push(base64_digit(n / 4096 % 64));
        out.push(
            if left > 1 {
                base64_digit(n / 64 % 64)
            } else {
                '='
            },
        );
        out.push(
            if left > 2 {
                base64_digit(n % 64)
            } else {
                '='
            },
        );
        assert(out@ =~= before + base64_group(group));
        if left > 3 {
            assert(rest.skip(3) =~= data@.skip(i + 3));
            assert(before + (base64_group(group) + base64(data@.skip(i + 3))) =~= out@ + base64(
                data@.skip(i + 3),
            ));
            i = i + 3;
        } else {
            assert(data@.skip(data@.len() as int) =~= seq![]);
            assert(out@ + base64(data@.skip(data@.len() as int)) =~= out@);
            i = data.len();
        }
    }
    assert(out@ + base64(data@.skip(i as int)) =~= out@);
    out
}

proof fn lemma_base64_char_value(n: int)
    requires
        0 <= n < 64,
    ensures
        base64_value(base64_char(n)) == n,
        base64_char(n) != '=',
{
}

proof fn lemma_sextets(b0: u32, b1: u32, b2: u32, n: u32)
    by (bit_vector)
    requires
        b0 < 256,
        b1 < 256,
        b2 < 256,
        n == b0 * 65536 + b1 * 256 + b2,
    ensures
        n / 262144 < 64,
        n == n / 262144 * 262144 + n / 4096 % 64 * 4096 + n / 64 % 64 * 64 + n % 64,
        n / 65536 == b0,
        n / 256 % 256 == b1,
        n % 256 == b2,
        b2 == 0 ==> n % 64 == 0,
        b1 == 0 && b2 == 0 ==> n / 64 % 64 == 0,
{
}

proof fn lemma_base64_group_decoded(b: Seq<u8>, rest: Seq<char>)
    requires
        1 <= b.len() <= 3,
    ensures
        base64_decoded(base64_group(b) + rest) == b + base64_decoded(rest),
{
    let t = base64_group(b) + rest;
    let b0 = b[0] as int;
    let b1 = if b.len() > 1 {
        b[1] as int
    } else {
        0
    };
    let b2 = if b.len() > 2 {
        b[2] as int
    } else {
        0
    };
    let n = b0 * 65536 + b1 * 256 + b2;
    lemma_sextets(b0 as u32, b1 as u32, b2 as u32, n as u32);
    lemma_base64_char_value(n / 262144);
    lemma_base64_char_value(n / 4096 % 64);
    lemma_base64_char_value(n / 64 % 64);
    lemma_base64_char_value(n % 64);
    assert(t.skip(4) =~= rest);
    let v2 = base64_value(t[2]);
    let v3 = base64_value(t[3]);
    assert(v2 == n / 64 % 64);
    assert(v3 == n % 64);
    let m = base64_value(t[0]) * 262144 + base64_value(t[1]) * 4096 + v2 * 64 + v3;
    assert(m == n);
    let bytes = seq![(m / 65536) as u8, (m / 256 % 256) as u8, (m % 256) as u8];
    assert(bytes[0] == b0 && bytes[1] == b1 && bytes[2] == b2);
    if b.len() == 1 {
        assert(bytes.take(1) =~= b);
    } else if b.len() == 2 {
        assert(bytes.take(2) =~= b);
    } else {
        assert(bytes =~= b);
    }
}

/// Base64 gives back the bytes it was made from.
pub proof fn law_base64_round_trip(b: Seq<u8>)
    ensures
        base64_decoded(base64(b)) == b,
    decreases b.len(),
{
    let none: Seq<char> = seq![];
    if b.len() == 0 {
        assert(base64_decoded(base64(b)) =~= b);
    } else if b.len() <= 3 {
        lemma_base64_group_decoded(b, none);
        assert(base64_group(b) + none =~= base64_group(b));
        assert(b + base64_decoded(none) =~= b);
    } else {
        law_base64_round_trip(b.skip(3));
        lemma_base64_group_decoded(b.take(3), base64(b.skip(3)));
        assert(b.take(3) + b.skip(3) =~= b);
    }
}

/// Base64 takes four characters for each three bytes begun.
pub proof fn law_base64_length(b: Seq<u8>)
    ensures
        base64(b).len() == 4 * ((b.len() + 2) / 3),
    decreases b.len(),
{
    if b.len() > 3 {
        law_base64_length(b.skip(3));
    }
}

} // verus!
