use portunus_extensions::encode::{base64_encode, escape_html, urlencode};
use portunus_extensions::host::{body_text, Relevance};
use portunus_extensions::json::Json;
use portunus_extensions::number::one_decimal_text;
use portunus_extensions::text::{
    decimal_text, eq_ignore_ascii_case, get_bytes, join, lines, replace, split, split_last,
    split_once, split_whitespace, strip_prefix, trim, trim_start,
};

#[test]
fn urlencode_keeps_unreserved_and_escapes_the_rest() {
    assert_eq!(urlencode("AZaz09-_.~"), "AZaz09-_.~");
    assert_eq!(urlencode("rust lang/é"), "rust%20lang%2F%C3%A9");
    assert_eq!(urlencode(""), "");
    assert_eq!(urlencode("a&b=c?d#e%f"), "a%26b%3Dc%3Fd%23e%25f");
}

#[test]
fn urlencode_can_be_undone() {
    let text = "sort:stars \u{1F980} 100% <ok>";
    let coded = urlencode(text);
    let mut bytes: Vec<u8> = Vec::new();
    let raw = coded.as_bytes();
    let mut i = 0;
    while i < raw.len() {
        if raw[i] == b'%' {
            bytes.push(u8::from_str_radix(&coded[i + 1..i + 3], 16).unwrap());
            i += 3;
        } else {
            bytes.push(raw[i]);
            i += 1;
        }
    }
    assert_eq!(String::from_utf8(bytes).unwrap(), text);
}

#[test]
fn html_escape_escapes_markup() {
    assert_eq!(escape_html("a < b && c > \"d\"", false), "a &lt; b &amp;&amp; c &gt; \"d\"");
    assert_eq!(escape_html("a < b && c > \"d\"", true), "a &lt; b &amp;&amp; c &gt; &quot;d&quot;");
    assert_eq!(escape_html("&lt;", true), "&amp;lt;");
}

#[test]
fn html_escape_can_be_undone() {
    let texts = ["", "a<b>&\"c\"", "&lt;", "&amp;lt;", "&quot;&gt;&", "&&lt;;"];
    for s in texts {
        for quotes in [false, true] {
            let plain = escape_html(s, quotes)
                .replace("&lt;", "<")
                .replace("&gt;", ">")
                .replace("&quot;", "\"")
                .replace("&amp;", "&");
            assert_eq!(plain, s);
            for t in texts {
                let both = escape_html(&format!("{s}{t}"), quotes);
                assert_eq!(both, format!("{}{}", escape_html(s, quotes), escape_html(t, quotes)));
            }
        }
    }
}

#[test]
fn html_escape_leaves_plain_text() {
    assert_eq!(escape_html("plain text, 'quoted'", true), "plain text, 'quoted'");
}

#[test]
fn base64_known_values() {
    assert_eq!(base64_encode(b""), "");
    assert_eq!(base64_encode(b"f"), "Zg==");
    assert_eq!(base64_encode(b"fo"), "Zm8=");
    assert_eq!(base64_encode(b"foo"), "Zm9v");
    assert_eq!(base64_encode(b"foob"), "Zm9vYg==");
    assert_eq!(base64_encode(b"foobar"), "Zm9vYmFy");
    assert_eq!(base64_encode(&[0xfb, 0xff, 0xfe]), "+//+");
}

#[test]
fn bodies_are_read_as_utf8() {
    assert_eq!(body_text("caf\u{e9}".as_bytes()), "caf\u{e9}");
    assert_eq!(body_text(&[b'a', 0xff, b'b']), "a\u{fffd}b");
}

#[test]
fn ranked_scores_descend() {
    let rank = |i: usize| match (Relevance::Ranked { index: i, count: 4, top: 90, span: 40 }) {
        Relevance::Ranked { index, count, top, span } => {
            top as f32 - (index as f32 / count as f32) * span as f32
        }
        _ => unreachable!(),
    };
    assert_eq!(rank(0), 90.0);
    assert_eq!(rank(3), 60.0);
    assert!(rank(1) > rank(2));
}

#[test]
fn text_helpers_agree_with_std() {
    for s in ["", "  a b\t c\u{a0}", "x/y//z", "one\r\ntwo\n\nthree", "\u{2003}em\u{2003}", "a\n"] {
        assert_eq!(trim(s), s.trim());
        assert_eq!(trim_start(s), s.trim_start());
        assert_eq!(split(s, '/'), s.split('/').map(str::to_string).collect::<Vec<_>>());
        assert_eq!(lines(s), s.lines().map(str::to_string).collect::<Vec<_>>());
        assert_eq!(
            split_whitespace(s),
            s.split_whitespace().map(str::to_string).collect::<Vec<_>>()
        );
        assert_eq!(replace(s, '/', "--"), s.replace('/', "--"));
        assert_eq!(
            split_once(s, "//"),
            s.split_once("//").map(|(a, b)| (a.to_string(), b.to_string()))
        );
        assert_eq!(
            split_last(s, '/'),
            s.rsplit_once('/').map(|(a, b)| (a.to_string(), b.to_string()))
        );
        assert_eq!(strip_prefix(s, "x/"), s.strip_prefix("x/").map(str::to_string));
    }
    assert!(eq_ignore_ascii_case("OrgaNization", "organization"));
    assert!(!eq_ignore_ascii_case("\u{c9}", "\u{e9}"));
    assert_eq!(decimal_text(0), "0");
    assert_eq!(decimal_text(u64::MAX), u64::MAX.to_string());
    assert_eq!(join(&vec!["a".to_string(), "b".to_string()], ", "), "a, b");
}

#[test]
fn get_bytes_needs_boundaries() {
    assert_eq!(get_bytes("abcdef", 1, 3), Some("bc"));
    assert_eq!(get_bytes("a\u{e9}b", 0, 2), None);
    assert_eq!(get_bytes("a\u{e9}b", 1, 3), Some("\u{e9}"));
    assert_eq!(get_bytes("abc", 2, 9), None);
}

#[test]
fn one_decimal_writes_tenths() {
    assert_eq!(one_decimal_text(0), "0.0");
    assert_eq!(one_decimal_text(125), "12.5");
}

#[test]
fn json_members_are_read_by_type() {
    let j = Json::Object(vec![
        ("ok".to_string(), Json::Bool(true)),
        ("n".to_string(), Json::Number(Some(3))),
        ("f".to_string(), Json::Number(None)),
        ("t".to_string(), Json::Text("x".to_string())),
        ("e".to_string(), Json::Text(String::new())),
        ("a".to_string(), Json::Array(vec![Json::Null])),
    ]);
    assert!(j.get_true("ok"));
    assert!(!j.get_true("t"));
    assert_eq!(j.get_number("n"), Some(3));
    assert_eq!(j.get_number("f"), None);
    assert_eq!(j.get_text("t"), Some("x".to_string()));
    assert_eq!(j.get_text("n"), None);
    assert_eq!(j.get_text_or_empty("missing"), "");
    assert_eq!(j.get_nonempty_text("e"), None);
    assert_eq!(j.get_array("a").map(|a| a.len()), Some(1));
    assert!(j.get_array("t").is_none());
    assert!(Json::Null.get("x").is_none());
}

#[test]
fn base64_can_be_undone() {
    let alphabet = "ABCDEFGHIJKLMNOPQRSTUVWXYZabcdefghijklmnopqrstuvwxyz0123456789+/";
    for n in 0..70usize {
        let data: Vec<u8> = (0..n).map(|i| (i * 37 + 11) as u8).collect();
        let coded = base64_encode(&data);
        assert_eq!(coded.len(), n.div_ceil(3) * 4);
        let mut out: Vec<u8> = Vec::new();
        for group in coded.as_bytes().chunks(4) {
            let digits: Vec<u32> = group
                .iter()
                .filter(|c| **c != b'=')
                .map(|c| alphabet.find(*c as char).unwrap() as u32)
                .collect();
            let mut word = 0u32;
            for i in 0..4 {
                word = word * 64 + digits.get(i).copied().unwrap_or(0);
            }
            let bytes = [(word >> 16) as u8, (word >> 8) as u8, word as u8];
            out.extend_from_slice(&bytes[..digits.len() - 1]);
        }
        assert_eq!(out, data);
    }
}
