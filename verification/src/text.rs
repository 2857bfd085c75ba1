//! Text as sequences of characters: the operations on strings that the
//! extensions are built from, each with a specification over `Seq<char>`.
use vstd::prelude::*;
use vstd::slice::slice_subrange;
use vstd::string::*;
use vstd::utf8::*;

verus! {

/// `String::push` appends one character at the end of the string.
pub assume_specification[ String::push ](s: &mut String, c: char)
    ensures
        final(s)@ == old(s)@.push(c),
;

/// What `str::to_lowercase` maps a text to: the Unicode lowercase mapping.
pub uninterp spec fn lowercase(s: Seq<char>) -> Seq<char>;

/// `str::to_lowercase`: the Unicode lowercase mapping of a text, which is a
/// function of the text alone. The mapping itself is not spelled out.
#[verifier::external_body]
pub(crate) fn to_lowercase(s: &str) -> (r: String)
    ensures
        r@ == lowercase(s@),
{
    s.to_lowercase()
}

/// What `String::from_utf8_lossy` reads bytes as.
pub uninterp spec fn lossy_text(bytes: Seq<u8>) -> Seq<char>;

/// `String::from_utf8_lossy`: the text that bytes encode in UTF-8. What is read
/// depends on the bytes alone; where replacement characters stand in for bytes
/// that are no UTF-8 is not spelled out.
#[verifier::external_body]
pub(crate) fn from_utf8_lossy(bytes: &[u8]) -> (r: String)
    ensures
        r@ == lossy_text(bytes@),
        valid_utf8(bytes@) ==> r@ == decode_utf8(bytes@),
{
    String::from_utf8_lossy(bytes).into_owned()
}

// ---------------------------------------------------------------------------
// Specifications
// ---------------------------------------------------------------------------

/// The first `n` elements of `s`, or all of them.
pub open spec fn at_most<A>(s: Seq<A>, n: int) -> Seq<A> {
    if s.len() <= n {
        s
    } else {
        s.take(n)
    }
}

/// The characters with the Unicode property White_Space.
pub open spec fn white(c: char) -> bool {
    ||| '\u{9}' <= c <= '\u{d}'
    ||| c == ' '
    ||| c == '\u{85}'
    ||| c == '\u{a0}'
    ||| c == '\u{1680}'
    ||| '\u{2000}' <= c <= '\u{200a}'
    ||| c == '\u{2028}'
    ||| c == '\u{2029}'
    ||| c == '\u{202f}'
    ||| c == '\u{205f}'
    ||| c == '\u{3000}'
}

/// `s` without its leading whitespace.
pub open spec fn trimmed_start(s: Seq<char>) -> Seq<char>
    decreases s.len(),
{
    if s.len() > 0 && white(s[0]) {
        trimmed_start(s.skip(1))
    } else {
        s
    }
}

/// `s` without its trailing whitespace.
pub open spec fn trimmed_end(s: Seq<char>) -> Seq<char>
    decreases s.len(),
{
    if s.len() > 0 && white(s.last()) {
        trimmed_end(s.drop_last())
    } else {
        s
    }
}

/// `s` without its leading and trailing whitespace.
pub open spec fn trimmed(s: Seq<char>) -> Seq<char> {
    trimmed_end(trimmed_start(s))
}

/// `s` without the characters `c` that it starts with.
pub open spec fn trimmed_start_of(s: Seq<char>, c: char) -> Seq<char>
    decreases s.len(),
{
    if s.len() > 0 && s[0] == c {
        trimmed_start_of(s.skip(1), c)
    } else {
        s
    }
}

/// Whether `s` starts with `p`.
pub open spec fn has_prefix(s: Seq<char>, p: Seq<char>) -> bool {
    p.len() <= s.len() && s.take(p.len() as int) == p
}

/// What follows the prefix `p` of `s`, if `s` starts with `p`.
pub open spec fn without_prefix(s: Seq<char>, p: Seq<char>) -> Option<Seq<char>> {
    if has_prefix(s, p) {
        Some(s.skip(p.len() as int))
    } else {
        None
    }
}

/// Whether `p` stands in `s` at the index `i`.
pub open spec fn occurs_at(s: Seq<char>, p: Seq<char>, i: int) -> bool {
    s.subrange(i, i + p.len()) == p
}

/// The least index at or after `i` at which `p` occurs in `s`.
pub open spec fn position_from(s: Seq<char>, p: Seq<char>, i: int) -> Option<int>
    decreases s.len() - i,
{
    if i + p.len() > s.len() {
        None
    } else if s.subrange(i, i + p.len()) == p {
        Some(i)
    } else if i < s.len() {
        position_from(s, p, i + 1)
    } else {
        None
    }
}

/// The least index at which `p` occurs in `s`.
pub open spec fn position(s: Seq<char>, p: Seq<char>) -> Option<int> {
    position_from(s, p, 0)
}

/// Whether `p` occurs in `s`.
pub open spec fn holds(s: Seq<char>, p: Seq<char>) -> bool {
    position(s, p) is Some
}

/// The index of the first `c` in `s`, or the length of `s` if there is none.
pub open spec fn char_index(s: Seq<char>, c: char) -> int
    decreases s.len(),
{
    if s.len() == 0 || s[0] == c {
        0
    } else {
        1 + char_index(s.skip(1), c)
    }
}

/// The index of the first whitespace in `s`, or the length of `s` if there is
/// none.
pub open spec fn white_index(s: Seq<char>) -> int
    decreases s.len(),
{
    if s.len() == 0 || white(s[0]) {
        0
    } else {
        1 + white_index(s.skip(1))
    }
}

/// The index of the last `c` in `s`.
pub open spec fn last_char_index(s: Seq<char>, c: char) -> Option<int>
    decreases s.len(),
{
    if s.len() == 0 {
        None
    } else if s.last() == c {
        Some(s.len() - 1)
    } else {
        last_char_index(s.drop_last(), c)
    }
}

/// The texts before and after the first occurrence of `p` in `s`.
pub open spec fn cut_once(s: Seq<char>, p: Seq<char>) -> Option<(Seq<char>, Seq<char>)> {
    match position(s, p) {
        Some(k) => Some((s.take(k), s.skip(k + p.len()))),
        None => None,
    }
}

/// The texts before and after the first `c` in `s`.
pub open spec fn cut_at_char(s: Seq<char>, c: char) -> Option<(Seq<char>, Seq<char>)> {
    let k = char_index(s, c);
    if k < s.len() {
        Some((s.take(k), s.skip(k + 1)))
    } else {
        None
    }
}

/// The texts between the separators `c` in `s`; never an empty list.
pub open spec fn pieces(s: Seq<char>, c: char) -> Seq<Seq<char>>
    decreases s.len(),
{
    let k = char_index(s, c);
    if 0 <= k < s.len() {
        seq![s.take(k)] + pieces(s.skip(k + 1), c)
    } else {
        seq![s]
    }
}

/// A line without the carriage return that may end it.
pub open spec fn without_cr(s: Seq<char>) -> Seq<char> {
    if s.len() > 0 && s.last() == '\r' {
        s.drop_last()
    } else {
        s
    }
}

/// The lines of `s`, without the line feeds, or the carriage returns and line
/// feeds, that end them. The last line need not be ended.
pub open spec fn line_list(s: Seq<char>) -> Seq<Seq<char>>
    decreases s.len(),
{
    let k = char_index(s, '\n');
    if s.len() == 0 {
        seq![]
    } else if 0 <= k < s.len() {
        seq![without_cr(s.take(k))] + line_list(s.skip(k + 1))
    } else {
        seq![s]
    }
}

/// The longest runs of characters in `s` that are not whitespace.
pub open spec fn word_list(s: Seq<char>) -> Seq<Seq<char>>
    decreases s.len(),
{
    if s.len() == 0 {
        seq![]
    } else if white(s[0]) {
        word_list(s.skip(1))
    } else {
        let k = white_index(s);
        if 0 < k <= s.len() {
            seq![s.take(k)] + word_list(s.skip(k))
        } else {
            seq![]
        }
    }
}

/// `parts` one after the other, with `sep` between them.
pub open spec fn joined(parts: Seq<Seq<char>>, sep: Seq<char>) -> Seq<char>
    decreases parts.len(),
{
    if parts.len() == 0 {
        seq![]
    } else if parts.len() == 1 {
        parts[0]
    } else {
        joined(parts.drop_last(), sep) + sep + parts.last()
    }
}

/// `s` with each `c` replaced by `with`.
pub open spec fn replaced(s: Seq<char>, c: char, with: Seq<char>) -> Seq<char>
    decreases s.len(),
{
    if s.len() == 0 {
        seq![]
    } else {
        replaced(s.drop_last(), c, with) + if s.last() == c {
            with
        } else {
            seq![s.last()]
        }
    }
}

/// The lower-case form of an ASCII letter; any other character as it is.
pub open spec fn ascii_lower(c: char) -> char {
    if 'A' <= c <= 'Z' {
        (c as u32 + 32) as char
    } else {
        c
    }
}

/// Whether `a` and `b` differ at most in the case of ASCII letters.
pub open spec fn same_ignoring_ascii_case(a: Seq<char>, b: Seq<char>) -> bool {
    a.len() == b.len() && forall|i: int|
        #![trigger a[i]]
        0 <= i < a.len() ==> ascii_lower(a[i]) == ascii_lower(b[i])
}

/// The decimal digit `d`.
pub open spec fn digit(d: nat) -> char {
    (48 + d) as char
}

/// `n` in decimal, without leading zeros.
pub open spec fn decimal(n: nat) -> Seq<char>
    decreases n,
{
    if n < 10 {
        seq![digit(n)]
    } else {
        decimal(n / 10).push(digit(n % 10))
    }
}

// ---------------------------------------------------------------------------
// Strings and characters
// ---------------------------------------------------------------------------

/// The characters of `s`, in order.
pub fn to_chars(s: &str) -> (r: Vec<char>)
    ensures
        r@ == s@,
{
    let mut v: Vec<char> = Vec::new();
    for c in it: s.chars()
        invariant
            v@ == it.seq().take(it.index() as int),
            it.seq() == s@,
    {
        v.push(c);
    }
    v
}

/// The string of the characters `s`.
pub fn from_chars(s: &[char]) -> (r: String)
    ensures
        r@ == s@,
{
    let mut out = String::new();
    let mut i: usize = 0;
    while i < s.len()
        invariant
            i <= s@.len(),
            out@ == s@.take(i as int),
        decreases s.len() - i,
    {
        out.push(s[i]);
        i = i + 1;
    }
    out
}

/// The string of the characters of `s` from `from` up to `to`.
pub fn text_between(s: &[char], from: usize, to: usize) -> (r: String)
    requires
        from <= to <= s@.len(),
    ensures
        r@ == s@.subrange(from as int, to as int),
{
    from_chars(slice_subrange(s, from, to))
}

/// Whether two strings are the same text.
pub fn same(a: &str, b: &str) -> (r: bool)
    ensures
        r == (a@ == b@),
{
    let x = a.as_bytes();
    let y = b.as_bytes();
    proof {
        encode_utf8_decode_utf8(a@);
        encode_utf8_decode_utf8(b@);
    }
    if x.len() != y.len() {
        return false;
    }
    let mut i: usize = 0;
    while i < x.len()
        invariant
            i <= x@.len(),
            x@.len() == y@.len(),
            x@ == encode_utf8(a@),
            y@ == encode_utf8(b@),
            forall|k: int| 0 <= k < i ==> x@[k] == y@[k],
        decreases x.len() - i,
    {
        if x[i] != y[i] {
            return false;
        }
        i = i + 1;
    }
    assert(x@ =~= y@);
    true
}

/// Whether two characters sequences are the same.
pub fn same_chars(a: &[char], b: &[char]) -> (r: bool)
    ensures
        r == (a@ == b@),
{
    if a.len() != b.len() {
        return false;
    }
    let mut i: usize = 0;
    while i < a.len()
        invariant
            i <= a@.len(),
            a@.len() == b@.len(),
            forall|k: int| 0 <= k < i ==> a@[k] == b@[k],
        decreases a.len() - i,
    {
        if a[i] != b[i] {
            return false;
        }
        i = i + 1;
    }
    assert(a@ =~= b@);
    true
}

/// Whether `c` is among the characters `s`.
pub fn has_char(s: &[char], c: char) -> (r: bool)
    ensures
        r == s@.contains(c),
{
    let mut i: usize = 0;
    while i < s.len()
        invariant
            i <= s@.len(),
            forall|k: int| 0 <= k < i ==> s@[k] != c,
        decreases s.len() - i,
    {
        if s[i] == c {
            assert(s@[i as int] == c);
            return true;
        }
        i = i + 1;
    }
    false
}

/// Whether `c` is whitespace.
pub fn is_white(c: char) -> (r: bool)
    ensures
        r == white(c),
{
    ('\u{9}' <= c && c <= '\u{d}') || c == ' ' || c == '\u{85}' || c == '\u{a0}' || c == '\u{1680}'
        || ('\u{2000}' <= c && c <= '\u{200a}') || c == '\u{2028}' || c == '\u{2029}' || c
        == '\u{202f}' || c == '\u{205f}' || c == '\u{3000}'
}

/// A copy of an optional string.
pub fn copy_option(s: &Option<String>) -> (r: Option<String>)
    ensures
        r.deep_view() == s.deep_view(),
{
    match s {
        Some(t) => Some(t.clone()),
        None => None,
    }
}

// ---------------------------------------------------------------------------
// Trimming and prefixes
// ---------------------------------------------------------------------------

/// The index after the leading whitespace of `s`.
pub fn start_of_trimmed(s: &[char]) -> (i: usize)
    ensures
        i <= s@.len(),
        trimmed_start(s@) == s@.skip(i as int),
{
    let mut i: usize = 0;
    assert(s@.skip(0) =~= s@);
    while i < s.len() && is_white(s[i])
        invariant
            i <= s@.len(),
            trimmed_start(s@) == trimmed_start(s@.skip(i as int)),
        decreases s.len() - i,
    {
        assert(s@.skip(i as int).skip(1) =~= s@.skip(i + 1));
        i = i + 1;
    }
    i
}

/// The end of `s` before its trailing whitespace.
pub fn end_of_trimmed(s: &[char]) -> (j: usize)
    ensures
        j <= s@.len(),
        trimmed_end(s@) == s@.take(j as int),
{
    let mut j: usize = s.len();
    assert(s@.take(j as int) =~= s@);
    while j > 0 && is_white(s[j - 1])
        invariant
            j <= s@.len(),
            trimmed_end(s@) == trimmed_end(s@.take(j as int)),
        decreases j,
    {
        assert(s@.take(j as int).drop_last() =~= s@.take(j - 1));
        j = j - 1;
    }
    j
}

/// The characters of `s` without the whitespace around them.
pub fn trim_chars(s: &[char]) -> (r: &[char])
    ensures
        r@ == trimmed(s@),
{
    let i = start_of_trimmed(s);
    let t = slice_subrange(s, i, s.len());
    assert(t@ =~= s@.skip(i as int));
    let j = end_of_trimmed(t);
    let r = slice_subrange(t, 0, j);
    assert(r@ =~= t@.take(j as int));
    r
}

/// `s` without the whitespace around it.
pub fn trim(s: &str) -> (r: String)
    ensures
        r@ == trimmed(s@),
{
    let v = to_chars(s);
    from_chars(trim_chars(v.as_slice()))
}

/// `s` without its leading whitespace.
pub fn trim_start(s: &str) -> (r: String)
    ensures
        r@ == trimmed_start(s@),
{
    let v = to_chars(s);
    let i = start_of_trimmed(v.as_slice());
    let r = text_between(v.as_slice(), i, v.len());
    assert(r@ =~= v@.skip(i as int));
    r
}

/// `s` without the characters `c` that it starts with.
pub fn trim_start_of(s: &str, c: char) -> (r: String)
    ensures
        r@ == trimmed_start_of(s@, c),
{
    let v = to_chars(s);
    let mut i: usize = 0;
    assert(v@.skip(0) =~= v@);
    while i < v.len() && v[i] == c
        invariant
            i <= v@.len(),
            trimmed_start_of(v@, c) == trimmed_start_of(v@.skip(i as int), c),
        decreases v.len() - i,
    {
        assert(v@.skip(i as int).skip(1) =~= v@.skip(i + 1));
        i = i + 1;
    }
    let r = text_between(v.as_slice(), i, v.len());
    assert(r@ =~= v@.skip(i as int));
    r
}

/// Whether `s` starts with `p`.
pub fn chars_start_with(s: &[char], p: &[char]) -> (r: bool)
    ensures
        r == has_prefix(s@, p@),
{
    if p.len() > s.len() {
        return false;
    }
    let head = slice_subrange(s, 0, p.len());
    assert(head@ =~= s@.take(p@.len() as int));
    same_chars(head, p)
}

/// Whether `s` starts with `p`.
pub fn starts_with(s: &str, p: &str) -> (r: bool)
    ensures
        r == has_prefix(s@, p@),
{
    let v = to_chars(s);
    let w = to_chars(p);
    chars_start_with(v.as_slice(), w.as_slice())
}

/// What follows the prefix `p` of `s`, if `s` starts with `p`.
pub fn strip_prefix(s: &str, p: &str) -> (r: Option<String>)
    ensures
        r.deep_view() == without_prefix(s@, p@),
{
    let v = to_chars(s);
    let w = to_chars(p);
    if chars_start_with(v.as_slice(), w.as_slice()) {
        let r = text_between(v.as_slice(), w.len(), v.len());
        assert(r@ =~= v@.skip(w@.len() as int));
        Some(r)
    } else {
        None
    }
}

// ---------------------------------------------------------------------------
// Searching
// ---------------------------------------------------------------------------

/// The least index at or after `from` at which `p` occurs in `s`.
pub fn find_chars_from(s: &[char], p: &[char], from: usize) -> (r: Option<usize>)
    ensures
        match r {
            Some(k) => position_from(s@, p@, from as int) == Some(k as int) && k + p@.len()
                <= s@.len() && from <= k,
            None => position_from(s@, p@, from as int) is None,
        },
{
    let mut i: usize = from;
    while i <= s.len() && p.len() <= s.len() - i
        invariant
            from <= i,
            i <= s@.len() + 1 || i == from,
            position_from(s@, p@, from as int) == position_from(s@, p@, i as int),
        decreases s@.len() + 1 - i,
    {
        let part = slice_subrange(s, i, i + p.len());
        if same_chars(part, p) {
            return Some(i);
        }
        if i == s.len() {
            return None;
        }
        i = i + 1;
    }
    None
}

/// The least index, in characters, at which `p` occurs in `s`.
pub fn find(s: &str, p: &str) -> (r: Option<usize>)
    ensures
        match r {
            Some(k) => position(s@, p@) == Some(k as int),
            None => position(s@, p@) is None,
        },
{
    let v = to_chars(s);
    let w = to_chars(p);
    find_chars_from(v.as_slice(), w.as_slice(), 0)
}

/// Whether `p` occurs in `s`.
pub fn contains(s: &str, p: &str) -> (r: bool)
    ensures
        r == holds(s@, p@),
{
    find(s, p).is_some()
}

/// The index of the first `c` at or after `from`, or the length of `s`.
pub fn find_char_from(s: &[char], c: char, from: usize) -> (k: usize)
    requires
        from <= s@.len(),
    ensures
        from <= k <= s@.len(),
        k == from + char_index(s@.skip(from as int), c),
        k < s@.len() ==> s@[k as int] == c,
        forall|i: int| from <= i < k ==> s@[i] != c,
{
    let mut i: usize = from;
    while i < s.len() && s[i] != c
        invariant
            from <= i <= s@.len(),
            from + char_index(s@.skip(from as int), c) == i + char_index(s@.skip(i as int), c),
            forall|k: int| from <= k < i ==> s@[k] != c,
        decreases s.len() - i,
    {
        assert(s@.skip(i as int).skip(1) =~= s@.skip(i + 1));
        i = i + 1;
    }
    i
}

/// The index of the first whitespace at or after `from`, or the length of `s`.
pub fn find_white_from(s: &[char], from: usize) -> (k: usize)
    requires
        from <= s@.len(),
    ensures
        from <= k <= s@.len(),
        k == from + white_index(s@.skip(from as int)),
        from < s@.len() && !white(s@[from as int]) ==> from < k,
{
    let mut i: usize = from;
    while i < s.len() && !is_white(s[i])
        invariant
            from <= i <= s@.len(),
            from + white_index(s@.skip(from as int)) == i + white_index(s@.skip(i as int)),
        decreases s.len() - i,
    {
        assert(s@.skip(i as int).skip(1) =~= s@.skip(i + 1));
        i = i + 1;
    }
    i
}

/// The texts before and after the last `c` in `s`.
pub fn split_last(s: &str, c: char) -> (r: Option<(String, String)>)
    ensures
        r.deep_view() == (match last_char_index(s@, c) {
            Some(k) => Some((s@.take(k), s@.skip(k + 1))),
            None => None,
        }),
{
    let v = to_chars(s);
    let mut j: usize = v.len();
    assert(v@.take(j as int) =~= v@);
    while j > 0
        invariant
            j <= v@.len(),
            v@ == s@,
            last_char_index(s@, c) == last_char_index(s@.take(j as int), c),
        decreases j,
    {
        assert(v@.take(j as int).drop_last() =~= v@.take(j - 1));
        if v[j - 1] == c {
            let a = text_between(v.as_slice(), 0, j - 1);
            let b = text_between(v.as_slice(), j, v.len());
            assert(a@ =~= s@.take(j - 1));
            assert(b@ =~= s@.skip(j as int));
            return Some((a, b));
        }
        j = j - 1;
    }
    None
}

// ---------------------------------------------------------------------------
// Splitting and joining
// ---------------------------------------------------------------------------

/// The texts before and after the first occurrence of `p` in `s`.
pub fn split_once(s: &str, p: &str) -> (r: Option<(String, String)>)
    ensures
        r.deep_view() == cut_once(s@, p@),
{
    let v = to_chars(s);
    let w = to_chars(p);
    let n = v.len();
    match find_chars_from(v.as_slice(), w.as_slice(), 0) {
        Some(k) => {
            let a = text_between(v.as_slice(), 0, k);
            let b = text_between(v.as_slice(), k + w.len(), n);
            assert(a@ =~= s@.take(k as int));
            assert(b@ =~= s@.skip(k + w@.len()));
            Some((a, b))
        },
        None => None,
    }
}

/// The texts before and after the first `c` in `s`.
pub fn split_once_char(s: &str, c: char) -> (r: Option<(String, String)>)
    ensures
        r.deep_view() == cut_at_char(s@, c),
{
    let v = to_chars(s);
    assert(v@.skip(0) =~= v@);
    let k = find_char_from(v.as_slice(), c, 0);
    if k < v.len() {
        let a = text_between(v.as_slice(), 0, k);
        let b = text_between(v.as_slice(), k + 1, v.len());
        assert(a@ =~= s@.take(k as int));
        assert(b@ =~= s@.skip(k + 1));
        Some((a, b))
    } else {
        None
    }
}

/// The texts between the separators `c` in `s`.
pub fn split(s: &str, c: char) -> (r: Vec<String>)
    ensures
        r.deep_view() == pieces(s@, c),
{
    let v = to_chars(s);
    let mut out: Vec<String> = Vec::new();
    let mut i: usize = 0;
    assert(v@.skip(0) =~= v@);
    assert(out.deep_view() + pieces(s@, c) =~= pieces(s@, c));
    loop
        invariant
            i <= v@.len(),
            v@ == s@,
            out.deep_view() + pieces(v@.skip(i as int), c) == pieces(s@, c),
        decreases v@.len() - i,
    {
        let k = find_char_from(v.as_slice(), c, i);
        let piece = text_between(v.as_slice(), i, k);
        let ghost rest = v@.skip(i as int);
        let ghost before = out.deep_view();
        assert(piece@ =~= rest.take(k - i));
        out.push(piece);
        assert(out.deep_view() =~= before.push(piece@));
        if k < v.len() {
            assert(rest.skip(k - i + 1) =~= v@.skip(k + 1));
            assert(before + (seq![piece@] + pieces(v@.skip(k + 1), c)) =~= out.deep_view() + pieces(
                v@.skip(k + 1),
                c,
            ));
            i = k + 1;
        } else {
            assert(rest.take(k - i) =~= rest);
            assert(before + seq![piece@] =~= out.deep_view());
            return out;
        }
    }
}

/// The lines of `s`.
pub fn lines(s: &str) -> (r: Vec<String>)
    ensures
        r.deep_view() == line_list(s@),
{
    let v = to_chars(s);
    let mut out: Vec<String> = Vec::new();
    let mut i: usize = 0;
    assert(v@.skip(0) =~= v@);
    assert(out.deep_view() + line_list(s@) =~= line_list(s@));
    while i < v.len()
        invariant
            i <= v@.len(),
            v@ == s@,
            out.deep_view() + line_list(v@.skip(i as int)) == line_list(s@),
        decreases v@.len() - i,
    {
        let k = find_char_from(v.as_slice(), '\n', i);
        let ghost rest = v@.skip(i as int);
        let ghost before = out.deep_view();
        assert(rest.take(k - i) =~= v@.subrange(i as int, k as int));
        if k < v.len() {
            let end = if k > i && v[k - 1] == '\r' {
                k - 1
            } else {
                k
            };
            let line = text_between(v.as_slice(), i, end);
            assert(line@ =~= without_cr(rest.take(k - i)));
            out.push(line);
            assert(out.deep_view() =~= before.push(line@));
            assert(rest.skip(k - i + 1) =~= v@.skip(k + 1));
            assert(before + (seq![line@] + line_list(v@.skip(k + 1))) =~= out.deep_view()
                + line_list(v@.skip(k + 1)));
            i = k + 1;
        } else {
            let line = text_between(v.as_slice(), i, k);
            assert(line@ =~= rest);
            out.push(line);
            assert(out.deep_view() =~= before.push(line@));
            assert(before + seq![line@] =~= out.deep_view());
            assert(out.deep_view() + line_list(v@.skip(k as int)) =~= out.deep_view());
            i = k;
        }
    }
    assert(out.deep_view() + line_list(v@.skip(i as int)) =~= out.deep_view());
    out
}

/// The words of `s`: what stands between whitespace.
pub fn split_whitespace(s: &str) -> (r: Vec<String>)
    ensures
        r.deep_view() == word_list(s@),
{
    let v = to_chars(s);
    let mut out: Vec<String> = Vec::new();
    let mut i: usize = 0;
    assert(v@.skip(0) =~= v@);
    assert(out.deep_view() + word_list(s@) =~= word_list(s@));
    while i < v.len()
        invariant
            i <= v@.len(),
            v@ == s@,
            out.deep_view() + word_list(v@.skip(i as int)) == word_list(s@),
        decreases v@.len() - i,
    {
        let ghost rest = v@.skip(i as int);
        let ghost before = out.deep_view();
        if is_white(v[i]) {
            assert(rest.skip(1) =~= v@.skip(i + 1));
            i = i + 1;
        } else {
            let k = find_white_from(v.as_slice(), i);
            let word = text_between(v.as_slice(), i, k);
            assert(word@ =~= rest.take(k - i));
            out.push(word);
            assert(out.deep_view() =~= before.push(word@));
            assert(rest.skip(k - i) =~= v@.skip(k as int));
            assert(before + (seq![word@] + word_list(v@.skip(k as int))) =~= out.deep_view()
                + word_list(v@.skip(k as int)));
            i = k;
        }
    }
    assert(out.deep_view() + word_list(v@.skip(i as int)) =~= out.deep_view());
    out
}

/// `parts` one after the other, with `sep` between them.
pub fn join(parts: &Vec<String>, sep: &str) -> (r: String)
    ensures
        r@ == joined(parts.deep_view(), sep@),
{
    let mut out = String::new();
    let mut i: usize = 0;
    let ghost all = parts.deep_view();
    while i < parts.len()
        invariant
            i <= parts@.len(),
            all == parts.deep_view(),
            out@ == joined(all.take(i as int), sep@),
        decreases parts.len() - i,
    {
        assert(all.take(i + 1).drop_last() =~= all.take(i as int));
        if i > 0 {
            out.append(sep);
        }
        out.append(parts[i].as_str());
        assert(i == 0 ==> out@ =~= all[0]);
        i = i + 1;
    }
    assert(all.take(i as int) =~= all);
    out
}

/// `s` with each `c` replaced by `with`.
pub fn replace(s: &str, c: char, with: &str) -> (r: String)
    ensures
        r@ == replaced(s@, c, with@),
{
    let v = to_chars(s);
    let mut out = String::new();
    let mut i: usize = 0;
    while i < v.len()
        invariant
            i <= v@.len(),
            v@ == s@,
            out@ == replaced(s@.take(i as int), c, with@),
        decreases v.len() - i,
    {
        assert(s@.take(i + 1).drop_last() =~= s@.take(i as int));
        if v[i] == c {
            out.append(with);
        } else {
            let ghost before = out@;
            out.push(v[i]);
            assert(out@ =~= before + seq![v@[i as int]]);
        }
        i = i + 1;
    }
    assert(s@.take(i as int) =~= s@);
    out
}

// ---------------------------------------------------------------------------
// Case and numbers
// ---------------------------------------------------------------------------

/// The lower-case form of an ASCII letter; any other character as it is.
fn to_ascii_lower(c: char) -> (r: char)
    ensures
        r == ascii_lower(c),
{
    if 'A' <= c && c <= 'Z' {
        (c as u8 + 32) as char
    } else {
        c
    }
}

/// Whether `a` and `b` differ at most in the case of ASCII letters.
pub fn eq_ignore_ascii_case(a: &str, b: &str) -> (r: bool)
    ensures
        r == same_ignoring_ascii_case(a@, b@),
{
    let x = to_chars(a);
    let y = to_chars(b);
    if x.len() != y.len() {
        return false;
    }
    let mut i: usize = 0;
    while i < x.len()
        invariant
            i <= x@.len(),
            x@ == a@,
            y@ == b@,
            x@.len() == y@.len(),
            forall|k: int| 0 <= k < i ==> ascii_lower(#[trigger] x@[k]) == ascii_lower(y@[k]),
        decreases x.len() - i,
    {
        if to_ascii_lower(x[i]) != to_ascii_lower(y[i]) {
            assert(ascii_lower(a@[i as int]) != ascii_lower(b@[i as int]));
            return false;
        }
        i = i + 1;
    }
    true
}

/// `n` in decimal.
pub fn decimal_text(n: u64) -> (r: String)
    ensures
        r@ == decimal(n as nat),
    decreases n,
{
    let d = (48u8 + (n % 10) as u8) as char;
    assert(d == digit((n % 10) as nat));
    if n < 10 {
        let mut s = String::new();
        s.push(d);
        assert(s@ =~= seq![d]);
        s
    } else {
        let mut s = decimal_text(n / 10);
        s.push(d);
        s
    }
}

// ---------------------------------------------------------------------------
// Facts about the specifications
// ---------------------------------------------------------------------------

/// The index of the first `c`: there it is, and not before.
pub proof fn lemma_char_index(s: Seq<char>, c: char)
    ensures
        0 <= char_index(s, c) <= s.len(),
        char_index(s, c) < s.len() ==> s[char_index(s, c)] == c,
        forall|i: int| 0 <= i < char_index(s, c) ==> s[i] != c,
        char_index(s, c) < s.len() <==> s.contains(c),
    decreases s.len(),
{
    if s.len() > 0 && s[0] != c {
        lemma_char_index(s.skip(1), c);
        let k = char_index(s.skip(1), c);
        assert forall|i: int| 0 <= i < char_index(s, c) implies s[i] != c by {
            if i > 0 {
                assert(s.skip(1)[i - 1] == s[i]);
            }
        }
        if s.contains(c) {
            let i = choose|i: int| 0 <= i < s.len() && s[i] == c;
            assert(s.skip(1)[i - 1] == c);
        }
        if s.skip(1).contains(c) {
            assert(s[k + 1] == c);
        }
    } else if s.len() > 0 {
        assert(s.contains(s[0]));
    }
}

/// The index of the first `c` is `k` if `c` stands at `k` and not before.
pub proof fn lemma_char_index_is(s: Seq<char>, c: char, k: int)
    requires
        0 <= k < s.len(),
        s[k] == c,
        forall|i: int| 0 <= i < k ==> s[i] != c,
    ensures
        char_index(s, c) == k,
{
    lemma_char_index(s, c);
    let j = char_index(s, c);
    assert(s.contains(c));
}

/// Trimmed text lies within the text, and starts and ends with no whitespace.
pub proof fn lemma_trimmed(s: Seq<char>)
    ensures
        forall|c: char| trimmed(s).contains(c) ==> s.contains(c),
        trimmed(s).len() > 0 ==> !white(trimmed(s)[0]) && !white(trimmed(s).last()),
        trimmed(s).len() <= s.len(),
{
    lemma_trimmed_start(s);
    lemma_trimmed_end(trimmed_start(s));
}

proof fn lemma_trimmed_start(s: Seq<char>)
    ensures
        trimmed_start(s).len() <= s.len(),
        forall|c: char| trimmed_start(s).contains(c) ==> s.contains(c),
        trimmed_start(s).len() > 0 ==> !white(trimmed_start(s)[0]),
    decreases s.len(),
{
    if s.len() > 0 && white(s[0]) {
        lemma_trimmed_start(s.skip(1));
        assert forall|c: char| s.skip(1).contains(c) implies s.contains(c) by {
            let i = choose|i: int| 0 <= i < s.skip(1).len() && s.skip(1)[i] == c;
            assert(s[i + 1] == c);
        }
    }
}

proof fn lemma_trimmed_end(s: Seq<char>)
    ensures
        trimmed_end(s).len() <= s.len(),
        forall|c: char| trimmed_end(s).contains(c) ==> s.contains(c),
        trimmed_end(s).len() > 0 ==> !white(trimmed_end(s).last()) && trimmed_end(s)[0] == s[0],
    decreases s.len(),
{
    if s.len() > 0 && white(s.last()) {
        lemma_trimmed_end(s.drop_last());
        assert forall|c: char| s.drop_last().contains(c) implies s.contains(c) by {
            let i = choose|i: int| 0 <= i < s.drop_last().len() && s.drop_last()[i] == c;
            assert(s[i] == c);
        }
    }
}

/// Trimming takes the whitespace around a text that itself neither starts nor
/// ends with any, and nothing else.
pub proof fn lemma_trimmed_is(before: Seq<char>, t: Seq<char>, after: Seq<char>)
    requires
        forall|i: int| 0 <= i < before.len() ==> white(#[trigger] before[i]),
        forall|i: int| 0 <= i < after.len() ==> white(#[trigger] after[i]),
        t.len() > 0 ==> !white(t[0]) && !white(t.last()),
    ensures
        trimmed(before + t + after) == t,
    decreases before.len() + after.len(),
{
    let s = before + t + after;
    if before.len() > 0 {
        let b = before.skip(1);
        assert forall|i: int| 0 <= i < b.len() implies white(#[trigger] b[i]) by {
            assert(b[i] == before[i + 1]);
        }
        assert(white(before[0]));
        assert(s.skip(1) =~= b + t + after);
        lemma_trimmed_is(b, t, after);
    } else if t.len() == 0 {
        if after.len() > 0 {
            let a = after.skip(1);
            assert forall|i: int| 0 <= i < a.len() implies white(#[trigger] a[i]) by {
                assert(a[i] == after[i + 1]);
            }
            assert(white(after[0]));
            assert(s.skip(1) =~= before + t + a);
            lemma_trimmed_is(before, t, a);
        } else {
            assert(s =~= t);
        }
    } else if after.len() > 0 {
        let a = after.drop_last();
        assert forall|i: int| 0 <= i < a.len() implies white(#[trigger] a[i]) by {
            assert(a[i] == after[i]);
        }
        assert(white(after[after.len() - 1]));
        let less = before + t + a;
        assert(s.drop_last() =~= less);
        assert(s[0] == t[0] && less[0] == t[0]);
        lemma_trimmed_is(before, t, a);
    } else {
        assert(s =~= t);
    }
}

/// No line holds a line feed.
pub proof fn lemma_lines_hold_no_newline(s: Seq<char>)
    ensures
        forall|i: int| 0 <= i < line_list(s).len() ==> !(#[trigger] line_list(s)[i]).contains('\n'),
    decreases s.len(),
{
    if s.len() > 0 {
        lemma_char_index(s, '\n');
        let k = char_index(s, '\n');
        if k < s.len() {
            lemma_lines_hold_no_newline(s.skip(k + 1));
            let first = without_cr(s.take(k));
            assert(!first.contains('\n')) by {
                if first.contains('\n') {
                    let i = choose|i: int| 0 <= i < first.len() && first[i] == '\n';
                    assert(s[i] == '\n');
                }
            }
            assert forall|i: int| 0 <= i < line_list(s).len() implies !(
            #[trigger] line_list(s)[i]).contains('\n') by {
                if i > 0 {
                    assert(line_list(s)[i] == line_list(s.skip(k + 1))[i - 1]);
                }
            }
        }
    }
}

/// A joined list starts with its first part.
pub proof fn lemma_joined_front(parts: Seq<Seq<char>>, sep: Seq<char>)
    requires
        parts.len() >= 2,
    ensures
        joined(parts, sep) == parts[0] + sep + joined(parts.skip(1), sep),
    decreases parts.len(),
{
    let init = parts.drop_last();
    assert(parts.skip(1).last() == parts.last());
    if parts.len() == 2 {
        assert(joined(init, sep) == parts[0]);
        assert(joined(parts.skip(1), sep) == parts.last());
    } else {
        lemma_joined_front(init, sep);
        assert(init.skip(1) =~= parts.skip(1).drop_last());
        assert(joined(parts, sep) =~= parts[0] + sep + (joined(init.skip(1), sep) + sep
            + parts.last()));
    }
}

/// Parts joined by line feeds are the lines of what results, if each is a
/// line: not empty, without line feeds, and not ended by a carriage return.
pub proof fn lemma_lines_of_joined(parts: Seq<Seq<char>>)
    requires
        forall|i: int|
            0 <= i < parts.len() ==> (#[trigger] parts[i]).len() > 0 && !parts[i].contains('\n')
                && parts[i].last() != '\r',
    ensures
        line_list(joined(parts, "\n"@)) == parts,
    decreases parts.len(),
{
    reveal_strlit("\n");
    let nl = "\n"@;
    let s = joined(parts, nl);
    if parts.len() == 0 {
        assert(line_list(s) =~= parts);
    } else if parts.len() == 1 {
        lemma_char_index(s, '\n');
        assert(line_list(s) =~= parts);
    } else {
        lemma_joined_front(parts, nl);
        let p = parts[0];
        let rest = joined(parts.skip(1), nl);
        assert(s == p + nl + rest);
        assert(s[p.len() as int] == '\n');
        assert forall|i: int| 0 <= i < p.len() implies s[i] != '\n' by {
            assert(s[i] == p[i]);
            assert(p.contains(p[i]));
        }
        lemma_char_index_is(s, '\n', p.len() as int);
        assert(s.take(p.len() as int) =~= p);
        assert(s.skip(p.len() as int + 1) =~= rest);
        assert(without_cr(p) == p);
        assert forall|i: int| 0 <= i < parts.skip(1).len() implies (
        #[trigger] parts.skip(1)[i]).len() > 0 && !parts.skip(1)[i].contains('\n') && parts.skip(
            1,
        )[i].last() != '\r' by {
            assert(parts.skip(1)[i] == parts[i + 1]);
        }
        lemma_lines_of_joined(parts.skip(1));
        assert(seq![p] + parts.skip(1) =~= parts);
    }
}

// ---------------------------------------------------------------------------
// Texts by their bytes
// ---------------------------------------------------------------------------

/// The text between the bytes `i` and `j` of `s`, if both are boundaries of
/// characters.
pub open spec fn byte_range(s: Seq<char>, i: int, j: int) -> Option<Seq<char>> {
    let b = encode_utf8(s);
    if i <= j && is_char_boundary(b, i) && is_char_boundary(b, j) {
        Some(decode_utf8(b.subrange(i, j)))
    } else {
        None
    }
}

/// The text between the bytes `i` and `j` of `s`.
pub fn get_bytes(s: &str, i: usize, j: usize) -> (r: Option<&str>)
    ensures
        match r {
            Some(t) => byte_range(s@, i as int, j as int) == Some(t@) && encode_utf8(t@).len() == j
                - i,
            None => byte_range(s@, i as int, j as int) is None,
        },
{
    if i > j || !s.is_char_boundary(i) || !s.is_char_boundary(j) {
        return None;
    }
    let ghost b = encode_utf8(s@);
    proof {
        encode_utf8_valid_utf8(s@);
        lemma_boundary_within(b, j as int);
        valid_utf8_split(b, j as int);
        let a = b.subrange(0, j as int);
        if i < j {
            is_char_boundary_iff_not_is_continuation_byte(b, i as int);
            is_char_boundary_iff_not_is_continuation_byte(a, i as int);
        } else {
            is_char_boundary_start_end_of_seq(a);
        }
    }
    let (head, _) = s.split_at(j);
    let (_, mid) = head.split_at(i);
    proof {
        assert(mid.spec_bytes() =~= b.subrange(i as int, j as int));
        encode_utf8_decode_utf8(mid@);
    }
    Some(mid)
}

proof fn lemma_boundary_within(b: Seq<u8>, i: int)
    requires
        valid_utf8(b),
        is_char_boundary(b, i),
    ensures
        0 <= i <= b.len(),
{
}

/// Text of ASCII characters is cut at bytes as it is at characters.
pub proof fn lemma_byte_range_ascii(s: Seq<char>, i: int, j: int)
    requires
        is_ascii_chars(s),
        0 <= i <= j <= s.len(),
    ensures
        byte_range(s, i, j) == Some(s.subrange(i, j)),
{
    let b = encode_utf8(s);
    encode_utf8_valid_utf8(s);
    is_ascii_chars_encode_utf8(s);
    lemma_ascii_boundary(s, i);
    lemma_ascii_boundary(s, j);
    let t = s.subrange(i, j);
    assert(is_ascii_chars(t));
    is_ascii_chars_encode_utf8(t);
    assert(encode_utf8(t) =~= b.subrange(i, j)) by {
        assert forall|k: int| 0 <= k < t.len() implies encode_utf8(t)[k] == b.subrange(i, j)[k] by {
            assert(t[k] == s[i + k]);
        }
    }
    encode_utf8_decode_utf8(t);
}

proof fn lemma_ascii_boundary(s: Seq<char>, i: int)
    requires
        is_ascii_chars(s),
        0 <= i <= s.len(),
    ensures
        is_char_boundary(encode_utf8(s), i),
{
    let b = encode_utf8(s);
    encode_utf8_valid_utf8(s);
    is_ascii_chars_encode_utf8(s);
    if i < s.len() {
        is_char_boundary_iff_not_is_continuation_byte(b, i);
        assert(s[i] as u8 == b[i]);
    } else {
        is_char_boundary_start_end_of_seq(b);
    }
}

/// A text without the separator is one piece.
pub proof fn lemma_pieces_one(s: Seq<char>, c: char)
    requires
        !s.contains(c),
    ensures
        pieces(s, c) == seq![s],
{
    lemma_char_index(s, c);
}

/// What stands before the first separator is the first piece, and what stands
/// behind it gives the others.
pub proof fn lemma_pieces_more(a: Seq<char>, c: char, b: Seq<char>)
    requires
        !a.contains(c),
    ensures
        pieces(a.push(c) + b, c) == seq![a] + pieces(b, c),
{
    let s = a.push(c) + b;
    assert forall|i: int| 0 <= i < a.len() implies s[i] != c by {
        assert(s[i] == a[i]);
        assert(a.contains(a[i]));
    }
    assert(s[a.len() as int] == c);
    lemma_char_index_is(s, c, a.len() as int);
    assert(s.take(a.len() as int) =~= a);
    assert(s.skip(a.len() as int + 1) =~= b);
}

/// An occurrence with none before it is the first.
pub proof fn lemma_position_is(s: Seq<char>, p: Seq<char>, k: int)
    requires
        0 <= k,
        k + p.len() <= s.len(),
        occurs_at(s, p, k),
        forall|i: int| 0 <= i < k ==> !#[trigger] occurs_at(s, p, i),
    ensures
        position(s, p) == Some(k),
{
    lemma_position_from_is(s, p, 0, k);
}

/// The least index at or behind another at which a text occurs is its position
/// from there.
pub proof fn lemma_position_from_is(s: Seq<char>, p: Seq<char>, i: int, k: int)
    requires
        0 <= i <= k,
        k + p.len() <= s.len(),
        occurs_at(s, p, k),
        forall|j: int| i <= j < k ==> !#[trigger] occurs_at(s, p, j),
    ensures
        position_from(s, p, i) == Some(k),
    decreases k - i,
{
    if i < k {
        assert(!occurs_at(s, p, i));
        lemma_position_from_is(s, p, i + 1, k);
    }
}

/// The first occurrence at or behind an index lies there, within the text.
pub proof fn lemma_position_from(s: Seq<char>, p: Seq<char>, i: int)
    ensures
        position_from(s, p, i) is Some ==> i <= position_from(s, p, i)->0 && position_from(
            s,
            p,
            i,
        )->0 + p.len() <= s.len() && occurs_at(s, p, position_from(s, p, i)->0),
    decreases s.len() - i,
{
    if i + p.len() <= s.len() && s.subrange(i, i + p.len()) != p && i < s.len() {
        lemma_position_from(s, p, i + 1);
    }
}

/// Before its position from an index on, a text does not occur.
pub proof fn lemma_position_from_first(s: Seq<char>, p: Seq<char>, i: int, j: int)
    requires
        0 <= i <= j,
        j + p.len() <= s.len(),
        occurs_at(s, p, j),
    ensures
        position_from(s, p, i) is Some,
        position_from(s, p, i)->0 <= j,
    decreases j - i,
{
    if i < j && !occurs_at(s, p, i) {
        lemma_position_from_first(s, p, i + 1, j);
    }
}

/// What stands before does not change the position of a text behind it.
pub proof fn lemma_position_from_behind(pre: Seq<char>, t: Seq<char>, p: Seq<char>, j: int)
    requires
        0 <= j <= t.len(),
    ensures
        position_from(pre + t, p, pre.len() + j) == (match position_from(t, p, j) {
            Some(k) => Some(pre.len() + k),
            None => None,
        }),
    decreases t.len() - j,
{
    if j + p.len() <= t.len() {
        let n = pre.len() + j;
        assert((pre + t).subrange(n, n + p.len()) =~= t.subrange(j, j + p.len()));
        if t.subrange(j, j + p.len()) != p && j < t.len() {
            lemma_position_from_behind(pre, t, p, j + 1);
        }
    }
}

/// What holds no whitespace is not touched by trimming the text around it.
pub proof fn lemma_trimmed_holds(s: Seq<char>, p: Seq<char>)
    requires
        p.len() > 0,
        forall|i: int| 0 <= i < p.len() ==> !white(#[trigger] p[i]),
        holds(s, p),
    ensures
        holds(trimmed(s), p),
{
    lemma_trimmed_start_holds(s, p);
    lemma_trimmed_end_holds(trimmed_start(s), p);
}

proof fn lemma_trimmed_start_holds(s: Seq<char>, p: Seq<char>)
    requires
        p.len() > 0,
        forall|i: int| 0 <= i < p.len() ==> !white(#[trigger] p[i]),
        holds(s, p),
    ensures
        holds(trimmed_start(s), p),
    decreases s.len(),
{
    if s.len() > 0 && white(s[0]) {
        lemma_position_from(s, p, 0);
        let k = position(s, p)->0;
        assert(s.subrange(k, k + p.len())[0] == s[k]);
        assert(k > 0);
        assert(s.skip(1).subrange(k - 1, k - 1 + p.len()) =~= s.subrange(k, k + p.len()));
        lemma_holds(s.skip(1), p, 0, k - 1);
        lemma_trimmed_start_holds(s.skip(1), p);
    }
}

proof fn lemma_trimmed_end_holds(s: Seq<char>, p: Seq<char>)
    requires
        p.len() > 0,
        forall|i: int| 0 <= i < p.len() ==> !white(#[trigger] p[i]),
        holds(s, p),
    ensures
        holds(trimmed_end(s), p),
    decreases s.len(),
{
    if s.len() > 0 && white(s.last()) {
        lemma_position_from(s, p, 0);
        let k = position(s, p)->0;
        assert(s.subrange(k, k + p.len())[p.len() - 1] == s[k + p.len() - 1]);
        assert(k + p.len() < s.len());
        assert(s.drop_last().subrange(k, k + p.len()) =~= s.subrange(k, k + p.len()));
        lemma_holds(s.drop_last(), p, 0, k);
        lemma_trimmed_end_holds(s.drop_last(), p);
    }
}

/// The first whitespace of a text: there is none before it.
pub proof fn lemma_white_index(s: Seq<char>)
    ensures
        0 <= white_index(s) <= s.len(),
        white_index(s) < s.len() ==> white(s[white_index(s)]),
        forall|i: int| 0 <= i < white_index(s) ==> !white(#[trigger] s[i]),
    decreases s.len(),
{
    if s.len() > 0 && !white(s[0]) {
        lemma_white_index(s.skip(1));
        assert forall|i: int| 0 <= i < white_index(s) implies !white(#[trigger] s[i]) by {
            if i > 0 {
                assert(s.skip(1)[i - 1] == s[i]);
            }
        }
    }
}

/// Text that occurs somewhere is found.
pub proof fn lemma_holds(s: Seq<char>, p: Seq<char>, i: int, k: int)
    requires
        0 <= i <= k,
        k + p.len() <= s.len(),
        occurs_at(s, p, k),
    ensures
        position_from(s, p, i) is Some,
    decreases k - i,
{
    if i < k {
        lemma_holds(s, p, i + 1, k);
    }
}

/// What stands behind a prefix is found behind it.
pub proof fn lemma_without_prefix(p: Seq<char>, rest: Seq<char>)
    ensures
        without_prefix(p + rest, p) == Some(rest),
{
    assert((p + rest).take(p.len() as int) =~= p);
    assert((p + rest).skip(p.len() as int) =~= rest);
}

/// Text that starts with another character does not have the prefix.
pub proof fn lemma_other_prefix(s: Seq<char>, p: Seq<char>)
    requires
        s.len() > 0,
        p.len() > 0,
        s[0] != p[0],
    ensures
        !has_prefix(s, p),
        without_prefix(s, p) is None,
{
    if has_prefix(s, p) {
        assert(s.take(p.len() as int)[0] == s[0]);
    }
}

/// Text is cut at the first separator.
pub proof fn lemma_cut_at_char(a: Seq<char>, c: char, b: Seq<char>)
    requires
        !a.contains(c),
    ensures
        cut_at_char(a.push(c) + b, c) == Some((a, b)),
{
    let s = a.push(c) + b;
    assert forall|i: int| 0 <= i < a.len() implies s[i] != c by {
        assert(s[i] == a[i]);
        assert(a.contains(a[i]));
    }
    lemma_char_index_is(s, c, a.len() as int);
    assert(s.take(a.len() as int) =~= a);
    assert(s.skip(a.len() as int + 1) =~= b);
}

// ---------------------------------------------------------------------------
// What the operations do
// ---------------------------------------------------------------------------

/// The number that decimal digits stand for, read from the first one on.
pub open spec fn read_decimal(s: Seq<char>) -> nat
    decreases s.len(),
{
    if s.len() == 0 {
        0
    } else {
        10 * read_decimal(s.drop_last()) + (s.last() as nat - 48) as nat
    }
}

/// A number is read back from its decimal digits, of which there are no more than
/// it needs.
pub proof fn law_decimal_reads_back(n: nat)
    ensures
        read_decimal(decimal(n)) == n,
        decimal(n).len() > 0,
        forall|i: int| 0 <= i < decimal(n).len() ==> '0' <= #[trigger] decimal(n)[i] <= '9',
        n > 0 ==> decimal(n)[0] != '0',
    decreases n,
{
    let s = decimal(n);
    if n < 10 {
        assert(s.drop_last() =~= seq![]);
        assert(read_decimal(s.drop_last()) == 0);
    } else {
        law_decimal_reads_back(n / 10);
        assert(s.drop_last() =~= decimal(n / 10));
        assert forall|i: int| 0 <= i < s.len() implies '0' <= #[trigger] s[i] <= '9' by {
            if i < s.len() - 1 {
                assert(s[i] == decimal(n / 10)[i]);
            }
        }
        assert(s[0] == decimal(n / 10)[0]);
    }
}

/// The pieces of a text, with the separator between them, are the text again,
/// and none of them holds the separator.
pub proof fn law_pieces_join_again(s: Seq<char>, c: char)
    ensures
        joined(pieces(s, c), seq![c]) == s,
        pieces(s, c).len() > 0,
        forall|i: int|
            0 <= i < pieces(s, c).len() ==> !(#[trigger] pieces(s, c)[i]).contains(c),
    decreases s.len(),
{
    lemma_char_index(s, c);
    let k = char_index(s, c);
    let p = pieces(s, c);
    if k < s.len() {
        let rest = pieces(s.skip(k + 1), c);
        law_pieces_join_again(s.skip(k + 1), c);
        assert(p.skip(1) =~= rest);
        lemma_joined_front(p, seq![c]);
        assert(s.take(k) + seq![c] + s.skip(k + 1) =~= s);
        assert(!s.take(k).contains(c)) by {
            if s.take(k).contains(c) {
                let i = choose|i: int| 0 <= i < k && s.take(k)[i] == c;
                assert(s[i] == c);
            }
        }
        assert forall|i: int| 0 <= i < p.len() implies !(#[trigger] p[i]).contains(c) by {
            if i > 0 {
                assert(p[i] == rest[i - 1]);
            }
        }
    }
}

/// The words of a text: one after the other, whatever whitespace stands around
/// them.
pub proof fn law_words_stand_apart(space: Seq<char>, word: Seq<char>, rest: Seq<char>)
    requires
        forall|i: int| 0 <= i < space.len() ==> white(#[trigger] space[i]),
        word.len() > 0,
        forall|i: int| 0 <= i < word.len() ==> !white(#[trigger] word[i]),
        rest.len() > 0 ==> white(rest[0]),
    ensures
        word_list(space + word + rest) == seq![word] + word_list(rest),
        word_list(space) == Seq::<Seq<char>>::empty(),
    decreases space.len(),
{
    let s = space + word + rest;
    if space.len() > 0 {
        let less = space.skip(1);
        assert(white(space[0]));
        assert forall|i: int| 0 <= i < less.len() implies white(#[trigger] less[i]) by {
            assert(less[i] == space[i + 1]);
        }
        law_words_stand_apart(less, word, rest);
        assert(s.skip(1) =~= less + word + rest);
    } else {
        assert(!white(word[0]));
        assert(s[0] == word[0]);
        lemma_white_index(s);
        let k = white_index(s);
        assert(k == word.len()) by {
            if k < word.len() {
                assert(s[k] == word[k]);
            } else if k > word.len() {
                assert(s[word.len() as int] == rest[0]);
            }
        }
        assert(s.take(k) =~= word);
        assert(s.skip(k) =~= rest);
    }
}

/// A line ends at a line feed, with or without a carriage return before it; what
/// is left at the end is a line too.
pub proof fn law_lines_end_at_line_feeds(line: Seq<char>, rest: Seq<char>)
    requires
        !line.contains('\n'),
        line.len() > 0 ==> line.last() != '\r',
    ensures
        line_list(line + "\n"@ + rest) == seq![line] + line_list(rest),
        line_list(line + "\r\n"@ + rest) == seq![line] + line_list(rest),
        line.len() > 0 ==> line_list(line) == seq![line],
{
    reveal_strlit("\n");
    reveal_strlit("\r\n");
    let n = line.len() as int;
    let a = line + "\n"@ + rest;
    assert forall|i: int| 0 <= i < n implies a[i] != '\n' by {
        assert(a[i] == line[i]);
        assert(line.contains(line[i]));
    }
    lemma_char_index_is(a, '\n', n);
    assert(a.take(n) =~= line);
    assert(a.skip(n + 1) =~= rest);
    let b = line + "\r\n"@ + rest;
    assert forall|i: int| 0 <= i < n + 1 implies b[i] != '\n' by {
        if i < n {
            assert(b[i] == line[i]);
            assert(line.contains(line[i]));
        }
    }
    lemma_char_index_is(b, '\n', n + 1);
    assert(b.take(n + 1) =~= line.push('\r'));
    assert(line.push('\r').drop_last() =~= line);
    assert(b.skip(n + 2) =~= rest);
    lemma_char_index(line, '\n');
}

/// Replacing a character goes through a text part by part, and touches no other
/// character.
pub proof fn law_replacing_goes_through(a: Seq<char>, b: Seq<char>, c: char, with: Seq<char>)
    ensures
        replaced(a + seq![c] + b, c, with) == replaced(a, c, with) + with + replaced(b, c, with),
        !a.contains(c) ==> replaced(a, c, with) == a,
{
    lemma_replaced_concat(a + seq![c], b, c, with);
    lemma_replaced_concat(a, seq![c], c, with);
    assert(seq![c].drop_last() =~= seq![]);
    assert(replaced(seq![c].drop_last(), c, with) =~= seq![]);
    assert(replaced(seq![c], c, with) =~= with);
    if !a.contains(c) {
        lemma_replaced_none(a, c, with);
    }
}

proof fn lemma_replaced_concat(a: Seq<char>, b: Seq<char>, c: char, with: Seq<char>)
    ensures
        replaced(a + b, c, with) == replaced(a, c, with) + replaced(b, c, with),
    decreases b.len(),
{
    if b.len() == 0 {
        assert(a + b =~= a);
        assert(replaced(a, c, with) + replaced(b, c, with) =~= replaced(a, c, with));
    } else {
        lemma_replaced_concat(a, b.drop_last(), c, with);
        assert((a + b).drop_last() =~= a + b.drop_last());
        assert(replaced(a + b, c, with) =~= replaced(a, c, with) + replaced(b, c, with));
    }
}

proof fn lemma_replaced_none(a: Seq<char>, c: char, with: Seq<char>)
    requires
        !a.contains(c),
    ensures
        replaced(a, c, with) == a,
    decreases a.len(),
{
    if a.len() > 0 {
        let head = a.drop_last();
        assert(a.contains(a.last()));
        assert(!head.contains(c)) by {
            if head.contains(c) {
                let i = choose|i: int| 0 <= i < head.len() && head[i] == c;
                assert(a[i] == c);
            }
        }
        lemma_replaced_none(head, c, with);
        assert(replaced(a, c, with) =~= a);
    }
}

/// A text holds another just where it has it between two parts; it is found at
/// the first such place.
pub proof fn law_found_where_it_stands(a: Seq<char>, p: Seq<char>, b: Seq<char>)
    ensures
        holds(a + p + b, p),
        position(a + p + b, p)->0 <= a.len(),
        holds(a, p) ==> exists|k: int|
            0 <= k && k + p.len() <= a.len() && #[trigger] a.subrange(k, k + p.len()) == p,
{
    let s = a + p + b;
    let n = a.len() as int;
    assert(s.subrange(n, n + p.len()) =~= p);
    lemma_position_from_first(s, p, 0, n);
    if holds(a, p) {
        lemma_position_from(a, p, 0);
        let k = position(a, p)->0;
        assert(a.subrange(k, k + p.len()) == p);
    }
}

/// The last of several characters is found: none stands behind it.
pub proof fn law_last_one_is_found(a: Seq<char>, c: char, b: Seq<char>)
    requires
        !b.contains(c),
    ensures
        last_char_index(a + seq![c] + b, c) == Some(a.len() as int),
        last_char_index(b, c) is None,
    decreases b.len(),
{
    let s = a + seq![c] + b;
    if b.len() > 0 {
        let less = b.drop_last();
        assert(b.contains(b.last()));
        assert(!less.contains(c)) by {
            if less.contains(c) {
                let i = choose|i: int| 0 <= i < less.len() && less[i] == c;
                assert(b[i] == c);
            }
        }
        law_last_one_is_found(a, c, less);
        assert(s.drop_last() =~= a + seq![c] + less);
        assert(s.last() == b.last());
    } else {
        assert(s.last() == c);
    }
}

/// Of a list at most so many are taken, from the front.
pub proof fn law_at_most_takes_from_the_front<A>(s: Seq<A>, n: int)
    requires
        0 <= n,
    ensures
        at_most(s, n).len() <= n,
        at_most(s, n).len() == n || at_most(s, n) == s,
        forall|i: int| 0 <= i < at_most(s, n).len() ==> #[trigger] at_most(s, n)[i] == s[i],
{
}

/// The case of ASCII letters, and nothing else, makes no difference.
pub proof fn law_ascii_case_makes_no_difference(c: char)
    ensures
        'a' <= c <= 'z' ==> ascii_lower((c as u32 - 32) as char) == c,
        !('A' <= c <= 'Z') ==> ascii_lower(c) == c,
{
}

/// Whitespace is what Unicode calls so: tabs and line ends, the spaces of all
/// widths, and no other character.
pub proof fn law_white_is_unicode_white_space(c: char)
    ensures
        white(c) <==> ({
            let n = c as u32;
            ||| 9 <= n <= 13
            ||| n == 32
            ||| n == 0x85
            ||| n == 0xa0
            ||| n == 0x1680
            ||| 0x2000 <= n <= 0x200a
            ||| 0x2028 <= n <= 0x2029
            ||| n == 0x202f
            ||| n == 0x205f
            ||| n == 0x3000
        }),
{
}

} // verus!
