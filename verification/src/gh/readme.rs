//! The links of a README. It names files by their paths in the repository, which
//! a preview cannot resolve: images become addresses of the raw files, links
//! those of the pages, and what is absolute already stays as it is. A long
//! README is cut.
use vstd::prelude::*;
use vstd::string::*;
use vstd::utf8::*;

use crate::text::{
    char_index, contains, find_char_from, find_chars_from, find_white_from, has_prefix,
    holds, lemma_char_index, lemma_char_index_is, lemma_holds, lemma_other_prefix,
    lemma_position_from, lemma_position_from_behind, lemma_position_from_first,
    lemma_position_from_is, lemma_trimmed, lemma_trimmed_holds, lemma_trimmed_is,
    lemma_white_index, lemma_without_prefix, occurs_at, position, position_from, starts_with,
    strip_prefix, text_between, to_chars, trim, trim_start_of, trimmed, trimmed_start_of, white,
    white_index, without_prefix,
};

verus! {

// ---------------------------------------------------------------------------
// One address
// ---------------------------------------------------------------------------

/// Whether an address needs no base: it is blank, an anchor, or names a scheme
/// or a host.
pub open spec fn absolute(url: Seq<char>) -> bool {
    let t = trimmed(url);
    ||| t.len() == 0
    ||| t[0] == '#'
    ||| has_prefix(t, "//"@)
    ||| holds(t, "://"@)
    ||| has_prefix(t, "data:"@)
    ||| has_prefix(t, "mailto:"@)
    ||| has_prefix(t, "tel:"@)
}

/// Whether an address needs no base.
pub fn is_absolute_url(u: &str) -> (r: bool)
    ensures
        r == absolute(u@),
{
    let t = trim(u);
    let t = t.as_str();
    if t.is_empty() {
        return true;
    }
    proof {
        reveal_strlit("#");
        assert(has_prefix(t@, "#"@) <==> t@[0] == '#') by {
            if t@[0] == '#' {
                assert(t@.take(1) =~= "#"@);
            } else {
                assert(t@.take(1)[0] != "#"@[0]);
            }
        }
    }
    starts_with(t, "#") || starts_with(t, "//") || contains(t, "://") || starts_with(t, "data:")
        || starts_with(t, "mailto:") || starts_with(t, "tel:")
}

/// The path that a relative address names, without "./" or "/" before it.
pub open spec fn relative_path(url: Seq<char>) -> Seq<char> {
    let u = trimmed(url);
    trimmed_start_of(
        match without_prefix(u, "./"@) {
            Some(rest) => rest,
            None => u,
        },
        '/',
    )
}

/// A relative address under a base.
pub open spec fn absolutized(url: Seq<char>, base: Seq<char>) -> Seq<char> {
    base + "/"@ + relative_path(url)
}

/// A relative address under a base.
pub fn absolutize(url: &str, base: &str) -> (r: String)
    ensures
        r@ == absolutized(url@, base@),
{
    let u = trim(url);
    let u = match strip_prefix(u.as_str(), "./") {
        Some(rest) => rest,
        None => u,
    };
    let u = trim_start_of(u.as_str(), '/');
    base.to_owned().concat("/").concat(u.as_str())
}

/// What an address becomes: itself where it is absolute, else one under the base.
pub open spec fn linked(url: Seq<char>, base: Seq<char>) -> Seq<char> {
    if absolute(url) {
        url
    } else {
        absolutized(url, base)
    }
}

fn link(url: &str, base: &str) -> (r: String)
    ensures
        r@ == linked(url@, base@),
{
    if is_absolute_url(url) {
        url.to_owned()
    } else {
        absolutize(url, base)
    }
}

// ---------------------------------------------------------------------------
// Markdown links
// ---------------------------------------------------------------------------

/// Whether the bracket that opens before `j`, with `depth` others closed
/// since, has an exclamation mark before it.
pub open spec fn opens_image(s: Seq<char>, j: int, depth: int) -> bool
    decreases j,
{
    if j <= 0 {
        false
    } else if s[j - 1] == ']' {
        opens_image(s, j - 1, depth + 1)
    } else if s[j - 1] == '[' {
        if depth == 0 {
            j - 1 > 0 && s[j - 2] == '!'
        } else {
            opens_image(s, j - 1, depth - 1)
        }
    } else {
        opens_image(s, j - 1, depth)
    }
}

/// Whether the `]` at `rbracket` closes an image (`![...]`) and no link.
pub fn is_image_link(s: &[char], rbracket: usize) -> (r: bool)
    requires
        rbracket <= s@.len(),
    ensures
        r == opens_image(s@, rbracket as int, 0),
{
    let mut depth: usize = 0;
    let mut j: usize = rbracket;
    while j > 0
        invariant
            j <= rbracket <= s@.len(),
            depth <= rbracket - j,
            opens_image(s@, rbracket as int, 0) == opens_image(s@, j as int, depth as int),
        decreases j,
    {
        j = j - 1;
        if s[j] == ']' {
            depth = depth + 1;
        } else if s[j] == '[' {
            if depth == 0 {
                return j > 0 && s[j - 1] == '!';
            }
            depth = depth - 1;
        }
    }
    false
}

/// Where the Markdown link ends whose `](` stands at `i`: the index of the
/// closing parenthesis.
pub open spec fn link_end(s: Seq<char>, i: int) -> Option<int> {
    if i + 1 < s.len() && s[i] == ']' && s[i + 1] == '(' {
        let end = i + 2 + char_index(s.skip(i + 2), ')');
        if end < s.len() {
            Some(end)
        } else {
            None
        }
    } else {
        None
    }
}

/// The closing parenthesis stands behind the link's start.
pub proof fn lemma_link_end(s: Seq<char>, i: int)
    requires
        0 <= i,
    ensures
        link_end(s, i) is Some ==> i + 2 <= link_end(s, i)->0 < s.len() && s[link_end(s, i)->0]
            == ')',
{
    if i + 1 < s.len() {
        lemma_char_index(s.skip(i + 2), ')');
    }
}

/// The address in a link, before the first whitespace in the parentheses.
pub open spec fn link_url(s: Seq<char>, i: int, end: int) -> Seq<char> {
    let inner = s.subrange(i + 2, end);
    inner.take(white_index(inner))
}

/// What follows the address in a link: a title, or nothing.
pub open spec fn link_title(s: Seq<char>, i: int, end: int) -> Seq<char> {
    let inner = s.subrange(i + 2, end);
    inner.skip(white_index(inner))
}

/// `s` from `i` on, with the addresses of its images under `raw_base` and those
/// of its links under `blob_base`.
pub open spec fn md_linked(
    s: Seq<char>,
    i: int,
    raw_base: Seq<char>,
    blob_base: Seq<char>,
) -> Seq<char>
    decreases s.len() - i,
{
    if i < 0 || i >= s.len() {
        seq![]
    } else {
        match link_end(s, i) {
            Some(end) => {
                proof {
                    lemma_link_end(s, i);
                }
                let base = if opens_image(s, i, 0) {
                    raw_base
                } else {
                    blob_base
                };
                "]("@ + linked(link_url(s, i, end), base) + link_title(s, i, end) + seq![')']
                    + md_linked(s, end + 1, raw_base, blob_base)
            },
            None => seq![s[i]] + md_linked(s, i + 1, raw_base, blob_base),
        }
    }
}

/// Rewrites the Markdown links of a text.
pub fn rewrite_md_links(input: &str, raw_base: &str, blob_base: &str) -> (r: String)
    ensures
        r@ == md_linked(input@, 0, raw_base@, blob_base@),
{
    let v = to_chars(input);
    let mut out = String::new();
    let mut i: usize = 0;
    let ghost all = md_linked(v@, 0, raw_base@, blob_base@);
    assert(out@ + all =~= all);
    while i < v.len()
        invariant
            i <= v@.len(),
            out@ + md_linked(v@, i as int, raw_base@, blob_base@) == all,
        decreases v.len() - i,
    {
        let ghost before = out@;
        if i + 1 < v.len() && v[i] == ']' && v[i + 1] == '(' {
            let end = find_char_from(v.as_slice(), ')', i + 2);
            if end < v.len() {
                assert(link_end(v@, i as int) == Some(end as int));
                let sp = find_white_from(v.as_slice(), i + 2);
                let stop = if sp < end {
                    sp
                } else {
                    end
                };
                let ghost inner = v@.subrange(i + 2, end as int);
                proof {
                    lemma_white_index_within(v@.skip(i + 2), end - (i + 2));
                    assert(v@.skip(i + 2).take(end - (i + 2)) =~= inner);
                    assert(stop - (i + 2) == white_index(inner));
                }
                let url = text_between(v.as_slice(), i + 2, stop);
                let title = text_between(v.as_slice(), stop, end);
                assert(url@ =~= link_url(v@, i as int, end as int));
                assert(title@ =~= link_title(v@, i as int, end as int));
                let base = if is_image_link(v.as_slice(), i) {
                    raw_base
                } else {
                    blob_base
                };
                let target = link(url.as_str(), base);
                out.append("](");
                out.append(target.as_str());
                out.append(title.as_str());
                out.push(')');
                let ghost put = "]("@ + linked(url@, base@) + title@ + seq![')'];
                assert(out@ =~= before + put);
                assert(before + (put + md_linked(v@, end + 1, raw_base@, blob_base@)) =~= out@
                    + md_linked(v@, end + 1, raw_base@, blob_base@));
                i = end + 1;
                continue;
            }
        }
        assert(link_end(v@, i as int) is None);
        out.push(v[i]);
        assert(before + (seq![v@[i as int]] + md_linked(v@, i + 1, raw_base@, blob_base@)) =~= out@
            + md_linked(v@, i + 1, raw_base@, blob_base@));
        i = i + 1;
    }
    assert(out@ + Seq::<char>::empty() =~= out@);
    out
}

proof fn lemma_white_index_within(s: Seq<char>, n: int)
    requires
        0 <= n <= s.len(),
    ensures
        white_index(s.take(n)) == (if white_index(s) < n {
            white_index(s)
        } else {
            n
        }),
        0 <= white_index(s) <= s.len(),
    decreases s.len(),
{
    if s.len() > 0 && !white(s[0]) {
        if n > 0 {
            lemma_white_index_within(s.skip(1), n - 1);
            assert(s.take(n).skip(1) =~= s.skip(1).take(n - 1));
        } else {
            lemma_white_index_within(s.skip(1), 0);
        }
    }
}

// ---------------------------------------------------------------------------
// Attributes of HTML tags
// ---------------------------------------------------------------------------

/// Where the quoted value ends that starts at `i`: the index of its closing
/// quote.
pub open spec fn quote_end(s: Seq<char>, i: int) -> Option<int> {
    if 0 <= i < s.len() && (s[i] == '"' || s[i] == '\'') {
        let end = i + 1 + char_index(s.skip(i + 1), s[i]);
        if end < s.len() {
            Some(end)
        } else {
            None
        }
    } else {
        None
    }
}

/// The closing quote stands behind the opening one.
pub proof fn lemma_quote_end(s: Seq<char>, i: int)
    ensures
        quote_end(s, i) is Some ==> i + 1 <= quote_end(s, i)->0 < s.len() && s[quote_end(s, i)->0]
            == s[i],
{
    if 0 <= i < s.len() {
        lemma_char_index(s.skip(i + 1), s[i]);
    }
}

/// `s` from `i` on, with the quoted address behind each `attr` under `base`.
pub open spec fn attr_linked(s: Seq<char>, i: int, attr: Seq<char>, base: Seq<char>) -> Seq<char>
    decreases s.len() - i,
{
    if i < 0 || i > s.len() || attr.len() == 0 {
        seq![]
    } else {
        match position_from(s, attr, i) {
            Some(pos) => {
                let q = pos + attr.len();
                proof {
                    lemma_position_from(s, attr, i);
                    lemma_quote_end(s, q);
                }
                match quote_end(s, q) {
                    Some(end) => s.subrange(i, q + 1) + linked(s.subrange(q + 1, end), base)
                        + seq![s[end]] + attr_linked(s, end + 1, attr, base),
                    None => s.subrange(i, q) + attr_linked(s, q, attr, base),
                }
            },
            None => s.skip(i),
        }
    }
}

/// Rewrites the quoted addresses behind `attr` in a text.
pub fn rewrite_attr(input: &str, attr: &str, base: &str) -> (r: String)
    requires
        attr@.len() > 0,
    ensures
        r@ == attr_linked(input@, 0, attr@, base@),
{
    let v = to_chars(input);
    let a = to_chars(attr);
    let n = v.len();
    let mut out = String::new();
    let mut i: usize = 0;
    let ghost all = attr_linked(v@, 0, attr@, base@);
    assert(out@ + all =~= all);
    loop
        invariant
            i <= n,
            n == v@.len(),
            v@ == input@,
            a@ == attr@,
            attr@.len() > 0,
            all == attr_linked(v@, 0, attr@, base@),
            out@ + attr_linked(v@, i as int, attr@, base@) == all,
        decreases v@.len() - i,
    {
        let ghost before = out@;
        let pos = match find_chars_from(v.as_slice(), a.as_slice(), i) {
            Some(pos) => pos,
            None => {
                let tail = text_between(v.as_slice(), i, n);
                assert(tail@ =~= v@.skip(i as int));
                out.append(tail.as_str());
                return out;
            },
        };
        let q = pos + a.len();
        if q < n && (v[q] == '"' || v[q] == '\'') {
            let quote = v[q];
            let end = find_char_from(v.as_slice(), quote, q + 1);
            if end < n {
                assert(quote_end(v@, q as int) == Some(end as int));
                let url = text_between(v.as_slice(), q + 1, end);
                let target = link(url.as_str(), base);
                let head = text_between(v.as_slice(), i, q + 1);
                out.append(head.as_str());
                out.append(target.as_str());
                out.push(quote);
                let ghost put = v@.subrange(i as int, q + 1) + linked(url@, base@) + seq![quote];
                assert(out@ =~= before + put);
                assert(before + (put + attr_linked(v@, end + 1, attr@, base@)) =~= out@
                    + attr_linked(v@, end + 1, attr@, base@));
                i = end + 1;
                continue;
            }
        }
        assert(quote_end(v@, q as int) is None);
        let head = text_between(v.as_slice(), i, q);
        out.append(head.as_str());
        assert(before + (v@.subrange(i as int, q as int) + attr_linked(v@, q as int, attr@, base@))
            =~= out@ + attr_linked(v@, q as int, attr@, base@));
        i = q;
    }
}

// ---------------------------------------------------------------------------
// A whole README
// ---------------------------------------------------------------------------

/// Where the raw files of a branch are.
pub open spec fn raw_base(full: Seq<char>, branch: Seq<char>) -> Seq<char> {
    "https://raw.githubusercontent.com/"@ + full + "/"@ + branch
}

/// Where the pages of the files of a branch are.
pub open spec fn blob_base(full: Seq<char>, branch: Seq<char>) -> Seq<char> {
    "https://github.com/"@ + full + "/blob/"@ + branch
}

/// A README with its images and links absolute.
pub open spec fn readme_linked(readme: Seq<char>, full: Seq<char>, branch: Seq<char>) -> Seq<char> {
    let raw = raw_base(full, branch);
    let blob = blob_base(full, branch);
    attr_linked(attr_linked(md_linked(readme, 0, raw, blob), 0, "src="@, raw), 0, "href="@, blob)
}

/// Makes the images and links of a README absolute.
pub fn absolutize_readme(readme: &str, full: &str, branch: &str) -> (r: String)
    ensures
        r@ == readme_linked(readme@, full@, branch@),
{
    let raw = "https://raw.githubusercontent.com/".to_owned().concat(full).concat("/").concat(
        branch,
    );
    let blob = "https://github.com/".to_owned().concat(full).concat("/blob/").concat(branch);
    let s = rewrite_md_links(readme, raw.as_str(), blob.as_str());
    proof {
        reveal_strlit("src=");
        reveal_strlit("href=");
    }
    let s = rewrite_attr(s.as_str(), "src=", raw.as_str());
    rewrite_attr(s.as_str(), "href=", blob.as_str())
}

/// The last boundary of a character at or below the byte `i`.
pub open spec fn boundary_below(b: Seq<u8>, i: int) -> int
    decreases i,
{
    if i <= 0 || is_char_boundary(b, i) {
        i
    } else {
        boundary_below(b, i - 1)
    }
}

/// A text of more than 65536 bytes, cut there; one that is not longer as it is.
pub open spec fn capped(s: Seq<char>) -> Seq<char> {
    let b = encode_utf8(s);
    if b.len() > 65_536 {
        decode_utf8(b.subrange(0, boundary_below(b, 65_536))) + "\n\n\u{2026}"@
    } else {
        s
    }
}

/// How many bytes of a text are shown.
const README_CAP: usize = 65_536;

/// Cuts a long text.
pub fn truncate_md(s: String) -> (r: String)
    ensures
        r@ == capped(s@),
{
    let text = s.as_str();
    if text.as_bytes().len() <= README_CAP {
        return s;
    }
    let ghost b = encode_utf8(s@);
    proof {
        encode_utf8_valid_utf8(s@);
        is_char_boundary_start_end_of_seq(b);
    }
    let mut cut: usize = README_CAP;
    while !text.is_char_boundary(cut)
        invariant
            cut <= 65_536,
            b == encode_utf8(text@),
            valid_utf8(b),
            is_char_boundary(b, 0),
            b.len() > 65_536,
            boundary_below(b, 65_536) == boundary_below(b, cut as int),
        decreases cut,
    {
        assert(cut > 0);
        cut = cut - 1;
    }
    let (head, _) = text.split_at(cut);
    proof {
        assert(encode_utf8(head@) == b.subrange(0, cut as int));
        encode_utf8_decode_utf8(head@);
    }
    head.to_owned().concat("\n\n\u{2026}")
}

// ---------------------------------------------------------------------------
// What rewriting keeps
// ---------------------------------------------------------------------------

proof fn lemma_trimmed_start_of(s: Seq<char>, c: char)
    ensures
        ({
            let t = trimmed_start_of(s, c);
            t.len() > 0 ==> t[0] != c
        }),
    decreases s.len(),
{
    if s.len() > 0 && s[0] == c {
        lemma_trimmed_start_of(s.skip(1), c);
    }
}

/// Whether addresses under a base are absolute: it names a scheme.
pub open spec fn names_scheme(base: Seq<char>) -> bool {
    holds(base, "://"@)
}

proof fn lemma_linked_absolute(url: Seq<char>, base: Seq<char>)
    requires
        names_scheme(base),
    ensures
        absolute(linked(url, base)),
{
    if !absolute(url) {
        reveal_strlit("://");
        let p = "://"@;
        let x = absolutized(url, base);
        lemma_position_from(base, p, 0);
        let k = position_from(base, p, 0)->0;
        assert(x.subrange(k, k + 3) =~= base.subrange(k, k + 3));
        lemma_holds(x, p, 0, k);
        lemma_trimmed_holds(x, p);
    }
}

/// A relative address goes under the base, as a path that does not start with a
/// slash, and is absolute from then on: rewriting it once more, under whatever
/// base, changes nothing.
pub proof fn law_rewritten_link_is_absolute(url: Seq<char>, base: Seq<char>, other: Seq<char>)
    requires
        !absolute(url),
        names_scheme(base),
    ensures
        linked(url, base) == base + "/"@ + relative_path(url),
        relative_path(url).len() > 0 ==> relative_path(url)[0] != '/',
        absolute(linked(url, base)),
        linked(linked(url, base), other) == linked(url, base),
{
    let u = trimmed(url);
    lemma_trimmed_start_of(
        match without_prefix(u, "./"@) {
            Some(rest) => rest,
            None => u,
        },
        '/',
    );
    lemma_linked_absolute(url, base);
}

/// The addresses in the Markdown links of `s`, from `i` on.
pub open spec fn md_urls(s: Seq<char>, i: int) -> Seq<Seq<char>>
    decreases s.len() - i,
{
    if i < 0 || i >= s.len() {
        seq![]
    } else {
        match link_end(s, i) {
            Some(end) => {
                proof {
                    lemma_link_end(s, i);
                }
                seq![link_url(s, i, end)] + md_urls(s, end + 1)
            },
            None => md_urls(s, i + 1),
        }
    }
}

/// The quoted addresses behind `attr` in `s`, from `i` on.
pub open spec fn attr_urls(s: Seq<char>, i: int, attr: Seq<char>) -> Seq<Seq<char>>
    decreases s.len() - i,
{
    if i < 0 || i > s.len() || attr.len() == 0 {
        seq![]
    } else {
        match position_from(s, attr, i) {
            Some(pos) => {
                let q = pos + attr.len();
                proof {
                    lemma_position_from(s, attr, i);
                    lemma_quote_end(s, q);
                }
                match quote_end(s, q) {
                    Some(end) => seq![s.subrange(q + 1, end)] + attr_urls(s, end + 1, attr),
                    None => attr_urls(s, q, attr),
                }
            },
            None => seq![],
        }
    }
}

/// Whether all of the addresses are absolute.
pub open spec fn all_absolute(urls: Seq<Seq<char>>) -> bool {
    forall|i: int| 0 <= i < urls.len() ==> absolute(#[trigger] urls[i])
}

proof fn lemma_all_absolute(url: Seq<char>, urls: Seq<Seq<char>>)
    requires
        all_absolute(seq![url] + urls),
    ensures
        absolute(url),
        all_absolute(urls),
{
    let all = seq![url] + urls;
    assert(absolute(all[0]));
    assert forall|i: int| 0 <= i < urls.len() implies absolute(#[trigger] urls[i]) by {
        assert(all[i + 1] == urls[i]);
        assert(absolute(all[i + 1]));
    }
}

proof fn lemma_md_unchanged(s: Seq<char>, i: int, raw: Seq<char>, blob: Seq<char>)
    requires
        0 <= i <= s.len(),
        all_absolute(md_urls(s, i)),
    ensures
        md_linked(s, i, raw, blob) == s.skip(i),
    decreases s.len() - i,
{
    if i < s.len() {
        match link_end(s, i) {
            Some(end) => {
                lemma_link_end(s, i);
                let url = link_url(s, i, end);
                lemma_all_absolute(url, md_urls(s, end + 1));
                lemma_md_unchanged(s, end + 1, raw, blob);
                let inner = s.subrange(i + 2, end);
                lemma_white_index_within(inner, inner.len() as int);
                assert(url + link_title(s, i, end) =~= inner);
                reveal_strlit("](");
                assert("]("@ + url + link_title(s, i, end) + seq![')'] + s.skip(end + 1) =~= s.skip(
                    i,
                ));
            },
            None => {
                lemma_md_unchanged(s, i + 1, raw, blob);
                assert(seq![s[i]] + s.skip(i + 1) =~= s.skip(i));
            },
        }
    }
}

proof fn lemma_attr_unchanged(s: Seq<char>, i: int, attr: Seq<char>, base: Seq<char>)
    requires
        0 <= i <= s.len(),
        attr.len() > 0,
        all_absolute(attr_urls(s, i, attr)),
    ensures
        attr_linked(s, i, attr, base) == s.skip(i),
    decreases s.len() - i,
{
    match position_from(s, attr, i) {
        Some(pos) => {
            let q = pos + attr.len();
            lemma_position_from(s, attr, i);
            lemma_quote_end(s, q);
            match quote_end(s, q) {
                Some(end) => {
                    let url = s.subrange(q + 1, end);
                    lemma_all_absolute(url, attr_urls(s, end + 1, attr));
                    lemma_attr_unchanged(s, end + 1, attr, base);
                    assert(s.subrange(i, q + 1) + url + seq![s[end]] + s.skip(end + 1) =~= s.skip(
                        i,
                    ));
                },
                None => {
                    lemma_attr_unchanged(s, q, attr, base);
                    assert(s.subrange(i, q) + s.skip(q) =~= s.skip(i));
                },
            }
        },
        None => {},
    }
}

/// A README whose addresses are all absolute comes through unchanged.
pub proof fn law_absolute_readme_unchanged(readme: Seq<char>, full: Seq<char>, branch: Seq<char>)
    requires
        all_absolute(md_urls(readme, 0)),
        all_absolute(attr_urls(readme, 0, "src="@)),
        all_absolute(attr_urls(readme, 0, "href="@)),
    ensures
        readme_linked(readme, full, branch) == readme,
{
    reveal_strlit("src=");
    reveal_strlit("href=");
    assert(readme.skip(0) =~= readme);
    lemma_md_unchanged(readme, 0, raw_base(full, branch), blob_base(full, branch));
    lemma_attr_unchanged(readme, 0, "src="@, raw_base(full, branch));
    lemma_attr_unchanged(readme, 0, "href="@, blob_base(full, branch));
}

// ---------------------------------------------------------------------------
// Rewriting twice
// ---------------------------------------------------------------------------

proof fn lemma_trimmed_start_of_within(s: Seq<char>, c: char, x: char)
    requires
        !s.contains(x),
    ensures
        !trimmed_start_of(s, c).contains(x),
    decreases s.len(),
{
    if s.len() > 0 && s[0] == c {
        assert(!s.skip(1).contains(x)) by {
            if s.skip(1).contains(x) {
                let i = choose|i: int| 0 <= i < s.skip(1).len() && s.skip(1)[i] == x;
                assert(s[i + 1] == x);
            }
        }
        lemma_trimmed_start_of_within(s.skip(1), c, x);
    }
}

/// A character that neither an address nor the base holds does not come in.
proof fn lemma_linked_without(url: Seq<char>, base: Seq<char>, c: char)
    requires
        !url.contains(c),
        !base.contains(c),
        c != '/',
    ensures
        !linked(url, base).contains(c),
{
    if !absolute(url) {
        reveal_strlit("./");
        reveal_strlit("/");
        let u = trimmed(url);
        lemma_trimmed(url);
        let v = match without_prefix(u, "./"@) {
            Some(rest) => rest,
            None => u,
        };
        assert(!v.contains(c)) by {
            if v.contains(c) {
                let i = choose|i: int| 0 <= i < v.len() && v[i] == c;
                let k = if without_prefix(u, "./"@) is Some {
                    i + 2
                } else {
                    i
                };
                assert(u[k] == c);
                assert(u.contains(c));
            }
        }
        lemma_trimmed_start_of_within(v, '/', c);
        let path = relative_path(url);
        let x = absolutized(url, base);
        if x.contains(c) {
            let i = choose|i: int| 0 <= i < x.len() && x[i] == c;
            if i < base.len() {
                assert(base[i] == c);
            } else if i > base.len() {
                assert(path[i - base.len() - 1] == c);
            }
        }
    }
}

proof fn lemma_md_urls_behind(pre: Seq<char>, t: Seq<char>, j: int)
    requires
        0 <= j,
    ensures
        md_urls(pre + t, pre.len() + j) == md_urls(t, j),
    decreases t.len() - j,
{
    let s = pre + t;
    let n = pre.len() + j;
    if j < t.len() {
        if j + 1 < t.len() {
            assert(s.skip(n + 2) =~= t.skip(j + 2));
        }
        match link_end(t, j) {
            Some(end) => {
                lemma_link_end(t, j);
                assert(link_end(s, n) == Some(pre.len() + end));
                assert(s.subrange(n + 2, pre.len() + end) =~= t.subrange(j + 2, end));
                lemma_md_urls_behind(pre, t, end + 1);
            },
            None => {
                assert(link_end(s, n) is None);
                lemma_md_urls_behind(pre, t, j + 1);
            },
        }
    }
}

proof fn lemma_md_starts_alike(s: Seq<char>, i: int, raw: Seq<char>, blob: Seq<char>)
    requires
        0 <= i < s.len(),
    ensures
        md_linked(s, i, raw, blob).len() > 0,
        md_linked(s, i, raw, blob)[0] == s[i],
{
    reveal_strlit("](");
}

proof fn lemma_md_without_close(s: Seq<char>, i: int, raw: Seq<char>, blob: Seq<char>)
    requires
        0 <= i <= s.len(),
        forall|k: int| i <= k < s.len() ==> s[k] != ')',
    ensures
        md_linked(s, i, raw, blob) == s.skip(i),
    decreases s.len() - i,
{
    if i < s.len() {
        lemma_link_end(s, i);
        lemma_md_without_close(s, i + 1, raw, blob);
        assert(seq![s[i]] + s.skip(i + 1) =~= s.skip(i));
    }
}

/// A text without the characters that end an address in a Markdown link.
pub open spec fn fits_in_link(base: Seq<char>) -> bool {
    !base.contains(')') && forall|i: int| 0 <= i < base.len() ==> !white(#[trigger] base[i])
}

proof fn lemma_md_absolute(s: Seq<char>, i: int, raw: Seq<char>, blob: Seq<char>)
    requires
        0 <= i,
        names_scheme(raw) && names_scheme(blob),
        fits_in_link(raw) && fits_in_link(blob),
    ensures
        all_absolute(md_urls(md_linked(s, i, raw, blob), 0)),
    decreases s.len() - i,
{
    let y = md_linked(s, i, raw, blob);
    if i < s.len() {
        match link_end(s, i) {
            Some(end) => {
                lemma_link_end(s, i);
                lemma_md_absolute(s, end + 1, raw, blob);
                let base = if opens_image(s, i, 0) {
                    raw
                } else {
                    blob
                };
                let url = link_url(s, i, end);
                let title = link_title(s, i, end);
                let target = linked(url, base);
                let rest = md_linked(s, end + 1, raw, blob);
                lemma_md_link_again(s, i, end, base, rest);
                lemma_linked_absolute(url, base);
                let urls = md_urls(rest, 0);
                let all = seq![target] + urls;
                assert(md_urls(y, 0) == all);
                assert forall|k: int| 0 <= k < all.len() implies absolute(#[trigger] all[k]) by {
                    if k > 0 {
                        assert(all[k] == urls[k - 1]);
                    }
                }
            },
            None => {
                lemma_md_absolute(s, i + 1, raw, blob);
                let rest = md_linked(s, i + 1, raw, blob);
                assert(link_end(y, 0) is None) by {
                    if y.len() > 1 && y[0] == ']' && y[1] == '(' {
                        assert(i + 1 < s.len());
                        lemma_md_starts_alike(s, i + 1, raw, blob);
                        assert(y[1] == rest[0]);
                        lemma_char_index(s.skip(i + 2), ')');
                        assert forall|k: int| i + 1 <= k < s.len() implies s[k] != ')' by {
                            if k > i + 1 {
                                assert(s.skip(i + 2)[k - (i + 2)] == s[k]);
                            }
                        }
                        lemma_md_without_close(s, i + 1, raw, blob);
                        assert(y.skip(2) =~= s.skip(i + 2));
                    }
                }
                lemma_md_urls_behind(seq![s[i]], rest, 0);
                assert(md_urls(y, 0) == md_urls(y, 1));
            },
        }
    }
}

/// What a rewritten link is read as: its address is the one that was put in.
proof fn lemma_md_link_again(s: Seq<char>, i: int, end: int, base: Seq<char>, rest: Seq<char>)
    requires
        0 <= i,
        link_end(s, i) == Some(end),
        fits_in_link(base),
    ensures
        ({
            let target = linked(link_url(s, i, end), base);
            let y = "]("@ + target + link_title(s, i, end) + seq![')'] + rest;
            md_urls(y, 0) == seq![target] + md_urls(rest, 0)
        }),
{
    reveal_strlit("](");
    lemma_link_end(s, i);
    let url = link_url(s, i, end);
    let title = link_title(s, i, end);
    let target = linked(url, base);
    let y = "]("@ + target + title + seq![')'] + rest;
    let inner = s.subrange(i + 2, end);
    lemma_char_index(s.skip(i + 2), ')');
    lemma_white_index(inner);
    let w = white_index(inner);
    assert forall|k: int| 0 <= k < inner.len() implies inner[k] != ')' by {
        assert(s.skip(i + 2)[k] == inner[k]);
    }
    assert(!url.contains(')')) by {
        if url.contains(')') {
            let k = choose|k: int| 0 <= k < url.len() && url[k] == ')';
            assert(inner[k] == ')');
        }
    }
    lemma_linked_without(url, base, ')');
    assert forall|k: int| 0 <= k < target.len() implies !white(#[trigger] target[k]) by {
        if white(target[k]) {
            let c = target[k];
            assert(!url.contains(c)) by {
                if url.contains(c) {
                    let j = choose|j: int| 0 <= j < url.len() && url[j] == c;
                    assert(inner[j] == c);
                }
            }
            assert(!base.contains(c));
            lemma_linked_without(url, base, c);
            assert(target.contains(c));
        }
    }
    let e = 2 + target.len() + title.len();
    let tail = y.skip(2);
    assert forall|k: int| 0 <= k < target.len() + title.len() implies tail[k] != ')' by {
        if k < target.len() {
            assert(tail[k] == target[k]);
            assert(target.contains(target[k]));
        } else {
            assert(tail[k] == title[k - target.len()]);
            assert(title[k - target.len()] == inner[w + k - target.len()]);
        }
    }
    lemma_char_index_is(tail, ')', target.len() as int + title.len());
    assert(link_end(y, 0) == Some(e as int));
    let again = y.subrange(2, e as int);
    assert(again =~= target + title);
    lemma_white_index(again);
    assert(white_index(again) == target.len()) by {
        let v = white_index(again);
        if v < target.len() {
            assert(again[v] == target[v]);
        } else if v > target.len() {
            assert(again[target.len() as int] == title[0]);
            assert(title[0] == inner[w]);
        }
    }
    assert(link_url(y, 0, e as int) =~= target);
    let pre = "]("@ + target + title + seq![')'];
    lemma_md_urls_behind(pre, rest, 0);
}

proof fn lemma_md_urls_none(s: Seq<char>, i: int)
    requires
        0 <= i,
        !holds(s, "]("@),
    ensures
        md_urls(s, i) == Seq::<Seq<char>>::empty(),
    decreases s.len() - i,
{
    if i < s.len() {
        reveal_strlit("](");
        if link_end(s, i) is Some {
            assert(s.subrange(i, i + 2) =~= "]("@);
            lemma_holds(s, "]("@, 0, i);
        }
        lemma_md_urls_none(s, i + 1);
    }
}

/// Rewriting the Markdown links of a text once more changes nothing, and a text
/// without a link stays as it is.
pub proof fn law_md_links_rewritten_once(s: Seq<char>, raw: Seq<char>, blob: Seq<char>)
    requires
        names_scheme(raw) && names_scheme(blob),
        fits_in_link(raw) && fits_in_link(blob),
    ensures
        md_linked(md_linked(s, 0, raw, blob), 0, raw, blob) == md_linked(s, 0, raw, blob),
        !holds(s, "]("@) ==> md_linked(s, 0, raw, blob) == s,
{
    let y = md_linked(s, 0, raw, blob);
    lemma_md_absolute(s, 0, raw, blob);
    lemma_md_unchanged(y, 0, raw, blob);
    assert(y.skip(0) =~= y);
    if !holds(s, "]("@) {
        lemma_md_urls_none(s, 0);
        lemma_md_unchanged(s, 0, raw, blob);
        assert(s.skip(0) =~= s);
    }
}

proof fn lemma_attr_urls_behind(pre: Seq<char>, t: Seq<char>, j: int, attr: Seq<char>)
    requires
        0 <= j <= t.len(),
        attr.len() > 0,
    ensures
        attr_urls(pre + t, pre.len() + j, attr) == attr_urls(t, j, attr),
    decreases t.len() - j,
{
    let s = pre + t;
    let n = pre.len() + j;
    lemma_position_from_behind(pre, t, attr, j);
    match position_from(t, attr, j) {
        Some(pos) => {
            lemma_position_from(t, attr, j);
            let q = pos + attr.len();
            let q2 = pre.len() + q;
            lemma_quote_end(t, q);
            if q < t.len() {
                assert(s.skip(q2 + 1) =~= t.skip(q + 1));
                assert(s[q2] == t[q]);
            }
            match quote_end(t, q) {
                Some(end) => {
                    assert(quote_end(s, q2) == Some(pre.len() + end));
                    assert(s.subrange(q2 + 1, pre.len() + end) =~= t.subrange(q + 1, end));
                    lemma_attr_urls_behind(pre, t, end + 1, attr);
                },
                None => {
                    assert(quote_end(s, q2) is None);
                    lemma_attr_urls_behind(pre, t, q, attr);
                },
            }
        },
        None => {},
    }
}

proof fn lemma_attr_starts_alike(s: Seq<char>, i: int, attr: Seq<char>, base: Seq<char>)
    requires
        0 <= i < s.len(),
        attr.len() > 0,
    ensures
        attr_linked(s, i, attr, base).len() > 0,
        attr_linked(s, i, attr, base)[0] == s[i],
{
    lemma_position_from(s, attr, i);
    match position_from(s, attr, i) {
        Some(pos) => {
            lemma_quote_end(s, pos + attr.len());
        },
        None => {},
    }
}

/// A character that occurs in `s` at `i` at most, from there on, and not in the
/// base, is not found behind the first character of what was rewritten.
proof fn lemma_attr_without(s: Seq<char>, i: int, attr: Seq<char>, base: Seq<char>, c: char)
    requires
        0 <= i <= s.len(),
        attr.len() > 0,
        !base.contains(c),
        c != '/',
        forall|k: int| i < k < s.len() ==> s[k] != c,
    ensures
        forall|k: int|
            0 < k < attr_linked(s, i, attr, base).len() ==> #[trigger] attr_linked(
                s,
                i,
                attr,
                base,
            )[k] != c,
    decreases s.len() - i,
{
    let y = attr_linked(s, i, attr, base);
    match position_from(s, attr, i) {
        Some(pos) => {
            lemma_position_from(s, attr, i);
            let q = pos + attr.len();
            lemma_quote_end(s, q);
            match quote_end(s, q) {
                Some(end) => {
                    let url = s.subrange(q + 1, end);
                    let target = linked(url, base);
                    let rest = attr_linked(s, end + 1, attr, base);
                    assert(!url.contains(c)) by {
                        if url.contains(c) {
                            let k = choose|k: int| 0 <= k < url.len() && url[k] == c;
                            assert(s[q + 1 + k] == c);
                        }
                    }
                    lemma_linked_without(url, base, c);
                    lemma_attr_without(s, end + 1, attr, base, c);
                    if end + 1 < s.len() {
                        lemma_attr_starts_alike(s, end + 1, attr, base);
                    }
                    let a = q + 1 - i;
                    let b = a + target.len();
                    assert forall|k: int| 0 < k < y.len() implies #[trigger] y[k] != c by {
                        if k < a {
                            assert(y[k] == s[i + k]);
                        } else if k < b {
                            assert(y[k] == target[k - a]);
                            assert(target.contains(y[k]));
                        } else if k == b {
                            assert(y[k] == s[end]);
                        } else {
                            assert(y[k] == rest[k - b - 1]);
                        }
                    }
                },
                None => {
                    let rest = attr_linked(s, q, attr, base);
                    lemma_attr_without(s, q, attr, base, c);
                    if q < s.len() {
                        lemma_attr_starts_alike(s, q, attr, base);
                    }
                    assert forall|k: int| 0 < k < y.len() implies #[trigger] y[k] != c by {
                        if k < q - i {
                            assert(y[k] == s[i + k]);
                        } else {
                            assert(y[k] == rest[k - (q - i)]);
                        }
                    }
                },
            }
        },
        None => {},
    }
}

/// Up to and with the attribute that is found first, the text is as it was, so it
/// is found there again.
proof fn lemma_attr_found_again(s: Seq<char>, i: int, attr: Seq<char>, y: Seq<char>)
    requires
        0 <= i <= s.len(),
        attr.len() > 0,
        position_from(s, attr, i) is Some,
        ({
            let q = position_from(s, attr, i)->0 + attr.len();
            y.len() >= q - i && y.take(q - i) == s.subrange(i, q)
        }),
    ensures
        position_from(y, attr, 0) == Some(position_from(s, attr, i)->0 - i),
{
    lemma_position_from(s, attr, i);
    let pos = position_from(s, attr, i)->0;
    let q = pos + attr.len();
    let n = attr.len() as int;
    let head = s.subrange(i, q);
    let found = y.subrange(pos - i, pos - i + n);
    assert forall|k: int| 0 <= k < n implies #[trigger] found[k] == attr[k] by {
        assert(y.take(q - i)[pos - i + k] == head[pos - i + k]);
        assert(s.subrange(pos, q)[k] == attr[k]);
    }
    assert(found =~= attr);
    assert forall|j: int| 0 <= j < pos - i implies !#[trigger] occurs_at(y, attr, j) by {
        if occurs_at(y, attr, j) {
            let other = s.subrange(i + j, i + j + n);
            assert forall|k: int| 0 <= k < n implies #[trigger] other[k] == attr[k] by {
                assert(y.take(q - i)[j + k] == head[j + k]);
                assert(y.subrange(j, j + n)[k] == attr[k]);
            }
            assert(other =~= attr);
            assert(occurs_at(s, attr, i + j));
            lemma_position_from_first(s, attr, i, i + j);
        }
    }
    lemma_position_from_is(y, attr, 0, pos - i);
}

/// A text without quotation marks.
pub open spec fn unquoted(base: Seq<char>) -> bool {
    !base.contains('"') && !base.contains('\'')
}

proof fn lemma_attr_absolute(s: Seq<char>, i: int, attr: Seq<char>, base: Seq<char>)
    requires
        0 <= i <= s.len(),
        attr.len() > 0,
        names_scheme(base),
        unquoted(base),
    ensures
        all_absolute(attr_urls(attr_linked(s, i, attr, base), 0, attr)),
    decreases s.len() - i,
{
    let y = attr_linked(s, i, attr, base);
    match position_from(s, attr, i) {
        Some(pos) => {
            lemma_position_from(s, attr, i);
            let q = pos + attr.len();
            lemma_quote_end(s, q);
            match quote_end(s, q) {
                Some(end) => {
                    let c = s[q];
                    let url = s.subrange(q + 1, end);
                    let target = linked(url, base);
                    let rest = attr_linked(s, end + 1, attr, base);
                    let a = q - i;
                    let b = a + 1 + target.len();
                    assert(y.take(a) =~= s.subrange(i, q));
                    lemma_attr_found_again(s, i, attr, y);
                    lemma_char_index(s.skip(q + 1), c);
                    assert(!url.contains(c)) by {
                        if url.contains(c) {
                            let k = choose|k: int| 0 <= k < url.len() && url[k] == c;
                            assert(s.skip(q + 1)[k] == c);
                        }
                    }
                    lemma_linked_without(url, base, c);
                    lemma_linked_absolute(url, base);
                    let tail = y.skip(a + 1);
                    assert(y[a] == c);
                    assert forall|k: int| 0 <= k < target.len() implies tail[k] != c by {
                        assert(tail[k] == target[k]);
                        assert(target.contains(target[k]));
                    }
                    lemma_char_index_is(tail, c, target.len() as int);
                    assert(quote_end(y, a) == Some(b));
                    assert(y.subrange(a + 1, b) =~= target);
                    let pre = s.subrange(i, q + 1) + target + seq![s[end]];
                    assert(pre + rest =~= y);
                    lemma_attr_urls_behind(pre, rest, 0, attr);
                    lemma_attr_absolute(s, end + 1, attr, base);
                    let urls = attr_urls(rest, 0, attr);
                    let all = seq![target] + urls;
                    assert(attr_urls(y, 0, attr) == all);
                    assert forall|k: int| 0 <= k < all.len() implies absolute(
                        #[trigger] all[k],
                    ) by {
                        if k > 0 {
                            assert(all[k] == urls[k - 1]);
                        }
                    }
                },
                None => {
                    let rest = attr_linked(s, q, attr, base);
                    let pre = s.subrange(i, q);
                    let a = q - i;
                    assert(y.take(a) =~= pre);
                    lemma_attr_found_again(s, i, attr, y);
                    assert(quote_end(y, a) is None) by {
                        if q < s.len() {
                            lemma_attr_starts_alike(s, q, attr, base);
                            assert(y[a] == s[q]);
                            let c = s[q];
                            if c == '"' || c == '\'' {
                                lemma_char_index(s.skip(q + 1), c);
                                assert forall|k: int| q < k < s.len() implies s[k] != c by {
                                    assert(s.skip(q + 1)[k - q - 1] == s[k]);
                                }
                                lemma_attr_without(s, q, attr, base, c);
                                let tail = y.skip(a + 1);
                                lemma_char_index(tail, c);
                                if tail.contains(c) {
                                    let k = choose|k: int| 0 <= k < tail.len() && tail[k] == c;
                                    assert(rest[k + 1] == c);
                                }
                            }
                        } else {
                            assert(position_from(s, attr, q) is None);
                            assert(rest =~= seq![]);
                        }
                    }
                    lemma_attr_urls_behind(pre, rest, 0, attr);
                    lemma_attr_absolute(s, q, attr, base);
                },
            }
        },
        None => {
            assert(s.take(i) + s.skip(i) =~= s);
            lemma_attr_urls_behind(s.take(i), s.skip(i), 0, attr);
        },
    }
}

/// Rewriting the addresses behind an attribute once more changes nothing, and a
/// text without the attribute stays as it is.
pub proof fn law_attr_rewritten_once(s: Seq<char>, attr: Seq<char>, base: Seq<char>)
    requires
        attr.len() > 0,
        names_scheme(base),
        unquoted(base),
    ensures
        attr_linked(attr_linked(s, 0, attr, base), 0, attr, base) == attr_linked(s, 0, attr, base),
        !holds(s, attr) ==> attr_linked(s, 0, attr, base) == s,
{
    let y = attr_linked(s, 0, attr, base);
    lemma_attr_absolute(s, 0, attr, base);
    lemma_attr_unchanged(y, 0, attr, base);
    assert(y.skip(0) =~= y);
    assert(s.skip(0) =~= s);
}

// ---------------------------------------------------------------------------
// What images and links become
// ---------------------------------------------------------------------------

/// How many brackets of `s` are closed and not opened, read from its end with
/// `depth` of them closed already; none where one is opened that is not closed.
pub open spec fn closed_from_end(s: Seq<char>, depth: nat) -> Option<nat>
    decreases s.len(),
{
    if s.len() == 0 {
        Some(depth)
    } else if s.last() == ']' {
        closed_from_end(s.drop_last(), depth + 1)
    } else if s.last() == '[' {
        if depth == 0 {
            None
        } else {
            closed_from_end(s.drop_last(), (depth - 1) as nat)
        }
    } else {
        closed_from_end(s.drop_last(), depth)
    }
}

/// Whether each bracket of `s` is opened and closed in it.
pub open spec fn balanced(s: Seq<char>) -> bool {
    closed_from_end(s, 0) == Some(0nat)
}

proof fn lemma_opens_image_before(s: Seq<char>, from: int, text: Seq<char>, depth: nat)
    requires
        0 <= from,
        from + text.len() <= s.len(),
        s.subrange(from, from + text.len()) == text,
        closed_from_end(text, depth) is Some,
    ensures
        opens_image(s, from + text.len(), depth as int) == opens_image(
            s,
            from,
            closed_from_end(text, depth)->0 as int,
        ),
    decreases text.len(),
{
    if text.len() > 0 {
        let head = text.drop_last();
        let j = from + text.len();
        assert(s.subrange(from, j)[text.len() - 1] == s[j - 1]);
        assert(s.subrange(from, j - 1) =~= head);
        if text.last() == ']' {
            lemma_opens_image_before(s, from, head, depth + 1);
        } else if text.last() == '[' {
            lemma_opens_image_before(s, from, head, (depth - 1) as nat);
        } else {
            lemma_opens_image_before(s, from, head, depth);
        }
    }
}

proof fn lemma_no_brackets_balanced(s: Seq<char>)
    requires
        !s.contains('['),
        !s.contains(']'),
    ensures
        balanced(s),
    decreases s.len(),
{
    if s.len() > 0 {
        let head = s.drop_last();
        assert(s.contains(s.last()));
        assert forall|c: char| head.contains(c) implies s.contains(c) by {
            let i = choose|i: int| 0 <= i < head.len() && head[i] == c;
            assert(s[i] == c);
        }
        lemma_no_brackets_balanced(head);
    }
}

/// A bracket is that of an image just where an exclamation mark stands before the
/// one that opens it, whatever stands further in front, and whatever pairs of
/// brackets stand inside. One that none opens is no image.
pub proof fn law_exclamation_mark_makes_image(pre: Seq<char>, text: Seq<char>, suf: Seq<char>)
    requires
        balanced(text),
    ensures
        opens_image(pre + "!["@ + text + suf, (pre.len() + 2 + text.len()) as int, 0),
        !(pre.len() > 0 && pre.last() == '!') ==> !opens_image(
            pre + "["@ + text + suf,
            (pre.len() + 1 + text.len()) as int,
            0,
        ),
        !opens_image(text + suf, text.len() as int, 0),
{
    reveal_strlit("![");
    reveal_strlit("[");
    let a = pre + "!["@ + text + suf;
    let n = pre.len() as int;
    assert(a.subrange(n + 2, n + 2 + text.len()) =~= text);
    lemma_opens_image_before(a, n + 2, text, 0);
    assert(a[n + 1] == '[' && a[n] == '!');
    let b = pre + "["@ + text + suf;
    assert(b.subrange(n + 1, n + 1 + text.len()) =~= text);
    lemma_opens_image_before(b, n + 1, text, 0);
    assert(b[n] == '[');
    if n > 0 {
        assert(b[n - 1] == pre.last());
    }
    let c = text + suf;
    assert(c.subrange(0, text.len() as int) =~= text);
    lemma_opens_image_before(c, 0, text, 0);
}

proof fn lemma_md_skips(s: Seq<char>, i: int, k: int, raw: Seq<char>, blob: Seq<char>)
    requires
        0 <= i <= k <= s.len(),
        forall|j: int| i <= j < k ==> #[trigger] link_end(s, j) is None,
    ensures
        md_linked(s, i, raw, blob) == s.subrange(i, k) + md_linked(s, k, raw, blob),
    decreases k - i,
{
    if i == k {
        assert(s.subrange(i, k) + md_linked(s, k, raw, blob) =~= md_linked(s, k, raw, blob));
    } else {
        assert(link_end(s, i) is None);
        lemma_md_skips(s, i + 1, k, raw, blob);
        assert(seq![s[i]] + (s.subrange(i + 1, k) + md_linked(s, k, raw, blob)) =~= s.subrange(i, k)
            + md_linked(s, k, raw, blob));
    }
}

/// Whether an address may stand in a Markdown link and names a path.
pub open spec fn relative_link(url: Seq<char>) -> bool {
    fits_in_link(url) && !absolute(url)
}

proof fn lemma_first_link(
    lead: Seq<char>,
    url: Seq<char>,
    title: Seq<char>,
    suf: Seq<char>,
    raw: Seq<char>,
    blob: Seq<char>,
)
    requires
        !holds(lead, "]("@),
        relative_link(url),
        !title.contains(')'),
        title.len() > 0 ==> white(title[0]),
    ensures
        ({
            let s = lead + "]("@ + url + title + ")"@ + suf;
            let base = if opens_image(s, lead.len() as int, 0) {
                raw
            } else {
                blob
            };
            md_linked(s, 0, raw, blob) == lead + "]("@ + (base + "/"@ + relative_path(url)) + title
                + ")"@ + md_linked(s, s.len() - suf.len(), raw, blob)
        }),
{
    reveal_strlit("](");
    reveal_strlit(")");
    let s = lead + "]("@ + url + title + ")"@ + suf;
    let n = lead.len() as int;
    let end = n + 2 + url.len() + title.len();
    assert forall|j: int| 0 <= j < n implies #[trigger] link_end(s, j) is None by {
        if s[j] == ']' && s[j + 1] == '(' {
            if j + 1 < n {
                assert(lead.subrange(j, j + 2) =~= "]("@);
                lemma_holds(lead, "]("@, 0, j);
            } else {
                assert(s[n] == ']');
            }
        }
    }
    lemma_md_skips(s, 0, n, raw, blob);
    assert(s.subrange(0, n) =~= lead);
    let tail = s.skip(n + 2);
    assert forall|k: int| 0 <= k < url.len() + title.len() implies tail[k] != ')' by {
        if k < url.len() {
            assert(tail[k] == url[k]);
            assert(url.contains(url[k]));
        } else {
            assert(tail[k] == title[k - url.len()]);
            assert(title.contains(title[k - url.len()]));
        }
    }
    assert(tail[url.len() as int + title.len()] == ')');
    lemma_char_index_is(tail, ')', url.len() as int + title.len());
    assert(s[n] == ']' && s[n + 1] == '(');
    assert(link_end(s, n) == Some(end as int));
    let inner = s.subrange(n + 2, end as int);
    assert(inner =~= url + title);
    lemma_white_index(inner);
    assert(white_index(inner) == url.len()) by {
        let v = white_index(inner);
        if v < url.len() {
            assert(inner[v] == url[v]);
        } else if v > url.len() {
            assert(inner[url.len() as int] == title[0]);
        }
    }
    assert(link_url(s, n, end as int) =~= url);
    assert(link_title(s, n, end as int) =~= title);
    let base = if opens_image(s, n, 0) {
        raw
    } else {
        blob
    };
    let rest = md_linked(s, end + 1, raw, blob);
    assert(")"@ =~= seq![')']);
    assert(lead + ("]("@ + linked(url, base) + title + seq![')'] + rest) =~= lead + "]("@ + linked(
        url,
        base,
    ) + title + ")"@ + rest);
}

/// An image goes to the raw files, whatever stands before it: its address comes
/// under that base, and the text before it, its own text and its title stay.
pub proof fn law_image_goes_to_raw_files(
    pre: Seq<char>,
    alt: Seq<char>,
    url: Seq<char>,
    title: Seq<char>,
    suf: Seq<char>,
    raw: Seq<char>,
    blob: Seq<char>,
)
    requires
        !holds(pre, "]("@),
        !alt.contains('[') && !alt.contains(']'),
        relative_link(url),
        !title.contains(')'),
        title.len() > 0 ==> white(title[0]),
    ensures
        ({
            let s = pre + "!["@ + alt + "]("@ + url + title + ")"@ + suf;
            md_linked(s, 0, raw, blob) == pre + "!["@ + alt + "]("@ + raw + "/"@ + relative_path(
                url,
            ) + title + ")"@ + md_linked(s, s.len() - suf.len(), raw, blob)
        }),
{
    reveal_strlit("![");
    reveal_strlit("](");
    let s = pre + "!["@ + alt + "]("@ + url + title + ")"@ + suf;
    let lead = pre + "!["@ + alt;
    lemma_lead(pre, "!["@, alt);
    lemma_no_brackets_balanced(alt);
    law_exclamation_mark_makes_image(pre, alt, "]("@ + url + title + ")"@ + suf);
    assert(lead + ("]("@ + url + title + ")"@ + suf) =~= s);
    lemma_first_link(lead, url, title, suf, raw, blob);
    assert(lead + "]("@ + (raw + "/"@ + relative_path(url)) =~= lead + "]("@ + raw + "/"@
        + relative_path(url));
}

/// A link goes to the pages: its address comes under that base, unless an
/// exclamation mark makes it an image.
pub proof fn law_link_goes_to_pages(
    pre: Seq<char>,
    text: Seq<char>,
    url: Seq<char>,
    title: Seq<char>,
    suf: Seq<char>,
    raw: Seq<char>,
    blob: Seq<char>,
)
    requires
        !holds(pre, "]("@),
        pre.len() > 0 ==> pre.last() != '!',
        !text.contains('[') && !text.contains(']'),
        relative_link(url),
        !title.contains(')'),
        title.len() > 0 ==> white(title[0]),
    ensures
        ({
            let s = pre + "["@ + text + "]("@ + url + title + ")"@ + suf;
            md_linked(s, 0, raw, blob) == pre + "["@ + text + "]("@ + blob + "/"@ + relative_path(
                url,
            ) + title + ")"@ + md_linked(s, s.len() - suf.len(), raw, blob)
        }),
{
    reveal_strlit("[");
    reveal_strlit("](");
    let s = pre + "["@ + text + "]("@ + url + title + ")"@ + suf;
    let lead = pre + "["@ + text;
    lemma_lead(pre, "["@, text);
    lemma_no_brackets_balanced(text);
    law_exclamation_mark_makes_image(pre, text, "]("@ + url + title + ")"@ + suf);
    assert(lead + ("]("@ + url + title + ")"@ + suf) =~= s);
    lemma_first_link(lead, url, title, suf, raw, blob);
    assert(lead + "]("@ + (blob + "/"@ + relative_path(url)) =~= lead + "]("@ + blob + "/"@
        + relative_path(url));
}

proof fn lemma_lead(pre: Seq<char>, open: Seq<char>, text: Seq<char>)
    requires
        !holds(pre, "]("@),
        open == "["@ || open == "!["@,
        !text.contains(']'),
    ensures
        !holds(pre + open + text, "]("@),
{
    reveal_strlit("[");
    reveal_strlit("![");
    reveal_strlit("](");
    let p = "]("@;
    let lead = pre + open + text;
    if holds(lead, p) {
        lemma_position_from(lead, p, 0);
        let k = position_from(lead, p, 0)->0;
        assert(lead.subrange(k, k + 2)[0] == lead[k]);
        assert(lead.subrange(k, k + 2)[1] == lead[k + 1]);
        if k + 1 < pre.len() {
            assert(pre.subrange(k, k + 2) =~= p);
            lemma_holds(pre, p, 0, k);
        } else if k < pre.len() {
            assert(lead[k + 1] == open[0]);
        } else if k < pre.len() + open.len() {
            assert(lead[k] == open[k - pre.len()]);
        } else {
            assert(text[k - pre.len() - open.len()] == ']');
        }
    }
}

/// A path goes under the base as it is, without the "./" or the slashes that it
/// starts with, and without the whitespace around it.
pub proof fn law_path_goes_under_base(path: Seq<char>, base: Seq<char>)
    requires
        path.len() > 0,
        path[0] != '/' && path[0] != '.',
        !white(path[0]) && !white(path.last()),
    ensures
        absolutized(path, base) == base + "/"@ + path,
        absolutized("./"@ + path, base) == base + "/"@ + path,
        absolutized("/"@ + path, base) == base + "/"@ + path,
        absolutized(" "@ + path + " "@, base) == base + "/"@ + path,
{
    reveal_strlit("./");
    reveal_strlit("/");
    reveal_strlit(" ");
    lemma_trimmed_is(seq![], path, seq![]);
    assert(Seq::<char>::empty() + path + Seq::<char>::empty() =~= path);
    lemma_other_prefix(path, "./"@);
    let dot = "./"@ + path;
    lemma_trimmed_is(seq![], dot, seq![]);
    assert(Seq::<char>::empty() + dot + Seq::<char>::empty() =~= dot);
    lemma_without_prefix("./"@, path);
    let slash = "/"@ + path;
    lemma_trimmed_is(seq![], slash, seq![]);
    assert(Seq::<char>::empty() + slash + Seq::<char>::empty() =~= slash);
    lemma_other_prefix(slash, "./"@);
    assert(slash.skip(1) =~= path);
    assert(trimmed_start_of(slash, '/') == trimmed_start_of(path, '/'));
    lemma_trimmed_is(" "@, path, " "@);
}

/// The images and links of a repository's README lead to the raw files and to
/// the pages of its branch.
pub proof fn law_readme_bases(full: Seq<char>, branch: Seq<char>)
    ensures
        raw_base(full, branch) == "https://raw.githubusercontent.com/"@ + full + "/"@ + branch,
        blob_base(full, branch) == "https://github.com/"@ + full + "/blob/"@ + branch,
        names_scheme(raw_base(full, branch)),
        names_scheme(blob_base(full, branch)),
{
    reveal_strlit("https://raw.githubusercontent.com/");
    reveal_strlit("https://github.com/");
    reveal_strlit("://");
    let a = raw_base(full, branch);
    let b = blob_base(full, branch);
    assert(a.subrange(5, 8) =~= "://"@);
    assert(b.subrange(5, 8) =~= "://"@);
    lemma_holds(a, "://"@, 0, 5);
    lemma_holds(b, "://"@, 0, 5);
}

/// Images, in Markdown or behind `src=`, go to the raw files of a README's branch;
/// links, in Markdown or behind `href=`, to its pages.
pub proof fn law_readme_images_and_links(readme: Seq<char>, full: Seq<char>, branch: Seq<char>)
    ensures
        ({
            let raw = "https://raw.githubusercontent.com/"@ + full + "/"@ + branch;
            let blob = "https://github.com/"@ + full + "/blob/"@ + branch;
            let md = md_linked(readme, 0, raw, blob);
            &&& !holds(md, "src="@) && !holds(md, "href="@) ==> readme_linked(readme, full, branch)
                == md
            &&& md == readme && !holds(attr_linked(readme, 0, "src="@, raw), "href="@)
                ==> readme_linked(readme, full, branch) == attr_linked(readme, 0, "src="@, raw)
            &&& md == readme && !holds(readme, "src="@) ==> readme_linked(readme, full, branch)
                == attr_linked(readme, 0, "href="@, blob)
        }),
{
    reveal_strlit("src=");
    reveal_strlit("href=");
    let raw = raw_base(full, branch);
    let blob = blob_base(full, branch);
    let md = md_linked(readme, 0, raw, blob);
    assert(md.skip(0) =~= md);
    assert(readme.skip(0) =~= readme);
    let src = attr_linked(readme, 0, "src="@, raw);
    assert(src.skip(0) =~= src);
}

/// The address in the first attribute of a text comes under the base, whatever
/// quotation mark it stands in; what stands around it stays.
pub proof fn law_attribute_goes_under_base(
    pre: Seq<char>,
    attr: Seq<char>,
    mark: char,
    url: Seq<char>,
    suf: Seq<char>,
    base: Seq<char>,
)
    requires
        attr.len() > 0,
        position(pre + attr, attr) == Some(pre.len() as int),
        mark == '"' || mark == '\'',
        !url.contains(mark),
        !absolute(url),
    ensures
        ({
            let s = pre + attr + seq![mark] + url + seq![mark] + suf;
            attr_linked(s, 0, attr, base) == pre + attr + seq![mark] + base + "/"@ + relative_path(
                url,
            ) + seq![mark] + attr_linked(s, s.len() - suf.len(), attr, base)
        }),
{
    let s = pre + attr + seq![mark] + url + seq![mark] + suf;
    let lead = pre + attr;
    let n = pre.len() as int;
    let q = n + attr.len();
    assert(s.take(q as int) =~= lead.subrange(0, q as int));
    lemma_attr_found_again(lead, 0, attr, s);
    assert(position_from(s, attr, 0) == Some(n));
    let end = q + 1 + url.len();
    let tail = s.skip(q + 1);
    assert forall|k: int| 0 <= k < url.len() implies tail[k] != mark by {
        assert(tail[k] == url[k]);
        assert(url.contains(url[k]));
    }
    assert(tail[url.len() as int] == mark);
    lemma_char_index_is(tail, mark, url.len() as int);
    assert(s[q as int] == mark);
    assert(quote_end(s, q as int) == Some(end as int));
    assert(s.subrange(q + 1, end as int) =~= url);
    let rest = attr_linked(s, end + 1, attr, base);
    assert(s.subrange(0, q + 1) + linked(url, base) + seq![s[end as int]] + rest =~= pre + attr
        + seq![mark] + base + "/"@ + relative_path(url) + seq![mark] + rest);
}

// ---------------------------------------------------------------------------
// What a cut keeps
// ---------------------------------------------------------------------------

proof fn lemma_boundary_below(b: Seq<u8>, i: int)
    requires
        valid_utf8(b),
        0 <= i <= b.len(),
    ensures
        is_char_boundary(b, boundary_below(b, i)),
        i - 3 <= boundary_below(b, i) <= i,
        0 <= boundary_below(b, i),
    decreases b.len(),
{
    let n = length_of_first_scalar(b);
    if b.len() > 0 && i >= n {
        let rest = pop_first_scalar(b);
        lemma_boundary_below(rest, i - n);
        lemma_boundary_below_shift(b, i);
    } else if b.len() > 0 {
        lemma_boundary_below_zero(b, i);
    }
}

proof fn lemma_boundary_below_shift(b: Seq<u8>, i: int)
    requires
        valid_utf8(b),
        b.len() > 0,
        length_of_first_scalar(b) <= i <= b.len(),
    ensures
        boundary_below(b, i) == length_of_first_scalar(b) + boundary_below(
            pop_first_scalar(b),
            i - length_of_first_scalar(b),
        ),
        is_char_boundary(b, boundary_below(b, i)) == is_char_boundary(
            pop_first_scalar(b),
            boundary_below(b, i) - length_of_first_scalar(b),
        ),
    decreases i,
{
    let n = length_of_first_scalar(b);
    let rest = pop_first_scalar(b);
    assert(1 <= n <= 4);
    if i == n {
        assert(is_char_boundary(rest, 0));
        assert(is_char_boundary(b, i));
    } else if !is_char_boundary(b, i) {
        lemma_boundary_below_shift(b, i - 1);
    }
}

proof fn lemma_boundary_below_zero(b: Seq<u8>, i: int)
    requires
        valid_utf8(b),
        b.len() > 0,
        0 <= i < length_of_first_scalar(b),
    ensures
        boundary_below(b, i) == 0,
        i <= 3,
    decreases i,
{
    if i > 0 {
        assert(!is_char_boundary(b, i)) by {
            assert(valid_utf8(pop_first_scalar(b)));
            assert(!is_char_boundary(pop_first_scalar(b), i - length_of_first_scalar(b)));
        }
        lemma_boundary_below_zero(b, i - 1);
    }
}

/// A text that is cut keeps a prefix of its characters, of at most 65536 bytes
/// and of no more than three less; what is cut away is not empty.
pub proof fn law_cut_keeps_a_prefix(s: Seq<char>)
    requires
        encode_utf8(s).len() > 65_536,
    ensures
        exists|k: int|
            0 <= k < s.len() && capped(s) == #[trigger] s.take(k) + "\n\n\u{2026}"@ && 65_533
                <= encode_utf8(s.take(k)).len() <= 65_536,
{
    let b = encode_utf8(s);
    encode_utf8_valid_utf8(s);
    let cut = boundary_below(b, 65_536);
    lemma_boundary_below(b, 65_536);
    valid_utf8_split(b, cut);
    decode_utf8_split(b, cut);
    encode_utf8_decode_utf8(s);
    let kept = decode_utf8(b.subrange(0, cut));
    let rest = decode_utf8(b.subrange(cut, b.len() as int));
    decode_utf8_encode_utf8(b.subrange(0, cut));
    assert(s == kept + rest);
    assert(rest.len() > 0);
    assert(s.take(kept.len() as int) =~= kept);
}

/// Which addresses need no base: blank ones, anchors, and those that name a host or
/// a scheme; a path, which holds no colon, needs one.
pub proof fn law_paths_need_a_base(rest: Seq<char>, before: Seq<char>, path: Seq<char>)
    requires
        rest.len() > 0 && !white(rest.last()),
        before.len() > 0 && !white(before[0]),
        path.len() > 0 && !white(path[0]) && !white(path.last()),
        !path.contains(':') && path[0] != '#',
        !has_prefix(path, "//"@),
    ensures
        absolute(seq![]),
        absolute("#"@ + rest),
        absolute("//"@ + rest),
        absolute("data:"@ + rest),
        absolute("mailto:"@ + rest),
        absolute("tel:"@ + rest),
        absolute(before + "://"@ + rest),
        !absolute(path),
{
    reveal_strlit("#");
    reveal_strlit("//");
    reveal_strlit("data:");
    reveal_strlit("mailto:");
    reveal_strlit("tel:");
    reveal_strlit("://");
    lemma_starts_absolute("#"@, rest);
    lemma_starts_absolute("//"@, rest);
    lemma_starts_absolute("data:"@, rest);
    lemma_starts_absolute("mailto:"@, rest);
    lemma_starts_absolute("tel:"@, rest);
    let none: Seq<char> = seq![];
    let x = before + "://"@ + rest;
    lemma_trimmed_is(none, x, none);
    assert(none + x + none =~= x);
    let n = before.len() as int;
    assert(x.subrange(n, n + 3) =~= "://"@);
    lemma_holds(x, "://"@, 0, n);
    lemma_trimmed_is(none, path, none);
    assert(none + path + none =~= path);
    lemma_no_colon(path, "://"@, 0);
    lemma_no_colon_prefix(path, "data:"@, 4);
    lemma_no_colon_prefix(path, "mailto:"@, 6);
    lemma_no_colon_prefix(path, "tel:"@, 3);
}

proof fn lemma_starts_absolute(p: Seq<char>, rest: Seq<char>)
    requires
        p.len() > 0 && !white(p[0]),
        rest.len() > 0 && !white(rest.last()),
    ensures
        trimmed(p + rest) == p + rest,
        has_prefix(p + rest, p),
        (p + rest)[0] == p[0],
{
    let none: Seq<char> = seq![];
    lemma_trimmed_is(none, p + rest, none);
    assert(none + (p + rest) + none =~= p + rest);
    assert((p + rest).take(p.len() as int) =~= p);
}

proof fn lemma_no_colon(path: Seq<char>, p: Seq<char>, k: int)
    requires
        !path.contains(':'),
        0 <= k < p.len() && p[k] == ':',
    ensures
        !holds(path, p),
{
    if holds(path, p) {
        lemma_position_from(path, p, 0);
        let i = position_from(path, p, 0)->0;
        assert(path.subrange(i, i + p.len())[k] == path[i + k]);
    }
}

proof fn lemma_no_colon_prefix(path: Seq<char>, p: Seq<char>, k: int)
    requires
        !path.contains(':'),
        0 <= k < p.len() && p[k] == ':',
    ensures
        !has_prefix(path, p),
{
    if has_prefix(path, p) {
        assert(path.take(p.len() as int)[k] == path[k]);
    }
}

} // verus!
